//! The wire protocol: bit-exact round trips for every opcode, and the
//! protocol errors.
use gooseboy_core::command::{decode_commands, GpuCommand, ProtocolError};
use gooseboy_core::vertex::{PrimitiveType, Vertex};

/// Serialize, decode the record back, and check the decoder consumed the
/// whole record and the re-encoding reproduces the bytes exactly.
fn round_trip(cmd: &GpuCommand) -> Vec<u8> {
    let bytes = cmd.serialize();
    let (decoded, consumed) = GpuCommand::deserialize(&bytes).expect("decode failed");
    assert_eq!(consumed, bytes.len());
    assert_eq!(decoded.serialize(), bytes);
    bytes
}

#[test]
fn round_trip_stack_opcodes() {
    assert_eq!(round_trip(&GpuCommand::Push), vec![0x00]);
    assert_eq!(round_trip(&GpuCommand::Pop), vec![0x01]);
    assert_eq!(round_trip(&GpuCommand::Identity), vec![0x0E]);
}

#[test]
fn round_trip_recording_opcodes() {
    assert_eq!(
        round_trip(&GpuCommand::PushRecord(PrimitiveType::Triangles)),
        vec![0x02, 0x00]
    );
    assert_eq!(
        round_trip(&GpuCommand::PushRecord(PrimitiveType::Quads)),
        vec![0x02, 0x01]
    );
    assert_eq!(round_trip(&GpuCommand::PopRecord), vec![0x03]);
    assert_eq!(
        round_trip(&GpuCommand::DrawRecorded(0x01020304)),
        vec![0x04, 0x04, 0x03, 0x02, 0x01]
    );
}

#[test]
fn round_trip_emit_vertex() {
    let v = Vertex::new(
        1.0f32.to_bits(),
        2.5f32.to_bits(),
        (-3.0f32).to_bits(),
        0.0f32.to_bits(),
        1.0f32.to_bits(),
    );
    let bytes = round_trip(&GpuCommand::EmitVertex(v));
    assert_eq!(bytes.len(), 21);
    assert_eq!(bytes[0], 0x05);
    assert_eq!(&bytes[1..5], &1.0f32.to_le_bytes());
    assert_eq!(&bytes[5..9], &2.5f32.to_le_bytes());
    assert_eq!(&bytes[9..13], &(-3.0f32).to_le_bytes());
}

#[test]
fn round_trip_texture_opcodes() {
    assert_eq!(
        round_trip(&GpuCommand::BindTexture(7)),
        vec![0x06, 7, 0, 0, 0]
    );
    let bytes = round_trip(&GpuCommand::RegisterTexture {
        w: 1,
        h: 1,
        rgba: vec![255, 0, 0, 255],
    });
    assert_eq!(
        bytes,
        vec![0x07, 1, 0, 0, 0, 1, 0, 0, 0, 255, 0, 0, 255]
    );
}

#[test]
fn round_trip_transform_opcodes() {
    let x = 1.0f32.to_bits();
    let y = 2.0f32.to_bits();
    let z = 3.0f32.to_bits();
    let a = 0.5f32.to_bits();
    round_trip(&GpuCommand::Translate { x, y, z });
    round_trip(&GpuCommand::RotateAxis { x, y, z, angle: a });
    round_trip(&GpuCommand::RotateEuler { yaw: x, pitch: y, roll: z });
    round_trip(&GpuCommand::Scale { x, y, z });
    let mut cols = [0u32; 16];
    for (i, c) in cols.iter_mut().enumerate() {
        *c = (i as f32).to_bits();
    }
    let bytes = round_trip(&GpuCommand::LoadMatrix(cols));
    assert_eq!(bytes.len(), 65);
    assert_eq!(bytes[0], 0x0C);
    let bytes = round_trip(&GpuCommand::MulMatrix(cols));
    assert_eq!(bytes[0], 0x0D);
}

#[test]
fn translate_wire_layout_is_little_endian() {
    let cmd = GpuCommand::Translate {
        x: 1.5f32.to_bits(),
        y: 0.0f32.to_bits(),
        z: (-1.0f32).to_bits(),
    };
    let bytes = cmd.serialize();
    let mut expected = vec![0x08];
    expected.extend_from_slice(&1.5f32.to_le_bytes());
    expected.extend_from_slice(&0.0f32.to_le_bytes());
    expected.extend_from_slice(&(-1.0f32).to_le_bytes());
    assert_eq!(bytes, expected);
}

#[test]
fn decode_whole_submission_round_trips() {
    let cmds = vec![
        GpuCommand::Push,
        GpuCommand::PushRecord(PrimitiveType::Quads),
        GpuCommand::Translate {
            x: 4.0f32.to_bits(),
            y: 0,
            z: 0,
        },
        GpuCommand::PopRecord,
        GpuCommand::Pop,
    ];
    let mut bytes: Vec<u8> = Vec::new();
    for c in &cmds {
        bytes.extend_from_slice(&c.serialize());
    }
    let decoded = decode_commands(&bytes).expect("decode failed");
    assert_eq!(decoded.len(), cmds.len());
    let mut reencoded: Vec<u8> = Vec::new();
    for c in &decoded {
        reencoded.extend_from_slice(&c.serialize());
    }
    assert_eq!(reencoded, bytes);
}

#[test]
fn empty_submission_decodes_to_nothing() {
    let decoded = decode_commands(&[]).expect("decode failed");
    assert!(decoded.is_empty());
}

#[test]
fn unknown_opcode_is_rejected() {
    assert_eq!(
        decode_commands(&[0x0F]).unwrap_err(),
        ProtocolError::UnknownOpcode(0x0F)
    );
    assert_eq!(
        GpuCommand::deserialize(&[0xFF]).unwrap_err(),
        ProtocolError::UnknownOpcode(0xFF)
    );
}

#[test]
fn unknown_primitive_is_rejected() {
    assert_eq!(
        decode_commands(&[0x02, 0x02]).unwrap_err(),
        ProtocolError::UnknownPrimitive(2)
    );
}

#[test]
fn truncated_payload_is_rejected() {
    // DrawRecorded wants a u32 id; only two payload bytes arrive
    assert_eq!(
        decode_commands(&[0x04, 0x00, 0x00]).unwrap_err(),
        ProtocolError::Truncated
    );
    // RegisterTexture declares 1x1 pixels but the bytes end early
    assert_eq!(
        decode_commands(&[0x07, 1, 0, 0, 0, 1, 0, 0, 0, 255]).unwrap_err(),
        ProtocolError::Truncated
    );
    // a valid record followed by a truncated one rejects the submission
    assert_eq!(
        decode_commands(&[0x00, 0x04, 0x00]).unwrap_err(),
        ProtocolError::Truncated
    );
}
