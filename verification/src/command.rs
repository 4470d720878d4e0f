//! The binary GPU command protocol: opcode-tagged records decoded from a
//! byte buffer, and the matching encoder.
//!
//! A record is one opcode byte followed by a fixed or opcode-dependent
//! payload, little-endian throughout. Decoding is total: an unrecognized
//! opcode, an unknown primitive kind, or a payload reaching past the buffer
//! is reported as a [`ProtocolError`] instead of aborting. Scalars that the
//! guest sends as 32-bit floats are carried as their bit patterns.
use vstd::bytes::{
    lemma_auto_spec_u32_to_from_le_bytes, spec_u32_from_le_bytes, spec_u32_to_le_bytes,
    u32_from_le_bytes, u32_to_le_bytes,
};
use vstd::prelude::*;
use vstd::slice::{slice_subrange, slice_to_vec};

use crate::vertex::{kind_byte, PrimitiveType, Vertex};

verus! {

/// One decoded GPU command, tagged by its wire opcode.
#[derive(Debug)]
pub enum GpuCommand {
    Push,
    Pop,
    PushRecord(PrimitiveType),
    PopRecord,
    DrawRecorded(u32),
    EmitVertex(Vertex),
    BindTexture(u32),
    RegisterTexture { w: u32, h: u32, rgba: Vec<u8> },
    Translate { x: u32, y: u32, z: u32 },
    RotateAxis { x: u32, y: u32, z: u32, angle: u32 },
    RotateEuler { yaw: u32, pitch: u32, roll: u32 },
    Scale { x: u32, y: u32, z: u32 },
    LoadMatrix([u32; 16]),
    MulMatrix([u32; 16]),
    Identity,
}

/// The mathematical value of a [`GpuCommand`]: buffers become sequences.
pub enum CommandView {
    Push,
    Pop,
    PushRecord(PrimitiveType),
    PopRecord,
    DrawRecorded(u32),
    EmitVertex(Vertex),
    BindTexture(u32),
    RegisterTexture { w: u32, h: u32, rgba: Seq<u8> },
    Translate { x: u32, y: u32, z: u32 },
    RotateAxis { x: u32, y: u32, z: u32, angle: u32 },
    RotateEuler { yaw: u32, pitch: u32, roll: u32 },
    Scale { x: u32, y: u32, z: u32 },
    LoadMatrix(Seq<u32>),
    MulMatrix(Seq<u32>),
    Identity,
}

impl View for GpuCommand {
    type V = CommandView;

    open spec fn view(&self) -> CommandView {
        match *self {
            GpuCommand::Push => CommandView::Push,
            GpuCommand::Pop => CommandView::Pop,
            GpuCommand::PushRecord(k) => CommandView::PushRecord(k),
            GpuCommand::PopRecord => CommandView::PopRecord,
            GpuCommand::DrawRecorded(id) => CommandView::DrawRecorded(id),
            GpuCommand::EmitVertex(v) => CommandView::EmitVertex(v),
            GpuCommand::BindTexture(id) => CommandView::BindTexture(id),
            GpuCommand::RegisterTexture { w, h, ref rgba } => CommandView::RegisterTexture {
                w,
                h,
                rgba: rgba@,
            },
            GpuCommand::Translate { x, y, z } => CommandView::Translate { x, y, z },
            GpuCommand::RotateAxis { x, y, z, angle } => CommandView::RotateAxis {
                x,
                y,
                z,
                angle,
            },
            GpuCommand::RotateEuler { yaw, pitch, roll } => CommandView::RotateEuler {
                yaw,
                pitch,
                roll,
            },
            GpuCommand::Scale { x, y, z } => CommandView::Scale { x, y, z },
            GpuCommand::LoadMatrix(m) => CommandView::LoadMatrix(m@),
            GpuCommand::MulMatrix(m) => CommandView::MulMatrix(m@),
            GpuCommand::Identity => CommandView::Identity,
        }
    }
}

/// Why a submission was rejected: the protocol errors of the wire format.
#[derive(Clone, Copy, Debug, PartialEq, Eq, Structural)]
pub enum ProtocolError {
    /// The opcode byte is not in the command table.
    UnknownOpcode(u8),
    /// A `PushRecord` payload names a primitive kind that does not exist.
    UnknownPrimitive(u8),
    /// A record's payload would reach past the submitted bytes.
    Truncated,
}

/// A command view is well formed when its buffers have the lengths the wire
/// format fixes: `w * h * 4` texture bytes, 16 matrix columns.
pub open spec fn wf_command(c: CommandView) -> bool {
    match c {
        CommandView::RegisterTexture { w, h, rgba } => rgba.len() == w * h * 4,
        CommandView::LoadMatrix(m) => m.len() == 16,
        CommandView::MulMatrix(m) => m.len() == 16,
        _ => true,
    }
}

/// The little-endian bytes of a sequence of 32-bit scalars, in order.
pub open spec fn spec_cols_bytes(m: Seq<u32>) -> Seq<u8>
    decreases m.len(),
{
    if m.len() == 0 {
        Seq::empty()
    } else {
        spec_u32_to_le_bytes(m[0]) + spec_cols_bytes(m.skip(1))
    }
}

/// The 32-bit scalar encoded little-endian at `off`.
pub open spec fn spec_u32_at(bytes: Seq<u8>, off: int) -> u32 {
    spec_u32_from_le_bytes(bytes.subrange(off, off + 4))
}

/// The 16 matrix columns encoded little-endian starting at `off`.
pub open spec fn spec_cols_at(bytes: Seq<u8>, off: int) -> Seq<u32> {
    Seq::new(16, |i: int| spec_u32_at(bytes, off + 4 * i))
}

/// The exact wire bytes of one command: the opcode byte, then the payload.
pub open spec fn spec_encode(c: CommandView) -> Seq<u8> {
    match c {
        CommandView::Push => seq![0x00u8],
        CommandView::Pop => seq![0x01u8],
        CommandView::PushRecord(k) => seq![0x02u8, kind_byte(k)],
        CommandView::PopRecord => seq![0x03u8],
        CommandView::DrawRecorded(id) => seq![0x04u8] + spec_u32_to_le_bytes(id),
        CommandView::EmitVertex(v) => seq![0x05u8] + spec_u32_to_le_bytes(v.x)
            + spec_u32_to_le_bytes(v.y) + spec_u32_to_le_bytes(v.z) + spec_u32_to_le_bytes(v.u)
            + spec_u32_to_le_bytes(v.v),
        CommandView::BindTexture(id) => seq![0x06u8] + spec_u32_to_le_bytes(id),
        CommandView::RegisterTexture { w, h, rgba } => seq![0x07u8] + spec_u32_to_le_bytes(w)
            + spec_u32_to_le_bytes(h) + rgba,
        CommandView::Translate { x, y, z } => seq![0x08u8] + spec_u32_to_le_bytes(x)
            + spec_u32_to_le_bytes(y) + spec_u32_to_le_bytes(z),
        CommandView::RotateAxis { x, y, z, angle } => seq![0x09u8] + spec_u32_to_le_bytes(x)
            + spec_u32_to_le_bytes(y) + spec_u32_to_le_bytes(z) + spec_u32_to_le_bytes(angle),
        CommandView::RotateEuler { yaw, pitch, roll } => seq![0x0Au8] + spec_u32_to_le_bytes(yaw)
            + spec_u32_to_le_bytes(pitch) + spec_u32_to_le_bytes(roll),
        CommandView::Scale { x, y, z } => seq![0x0Bu8] + spec_u32_to_le_bytes(x)
            + spec_u32_to_le_bytes(y) + spec_u32_to_le_bytes(z),
        CommandView::LoadMatrix(m) => seq![0x0Cu8] + spec_cols_bytes(m),
        CommandView::MulMatrix(m) => seq![0x0Du8] + spec_cols_bytes(m),
        CommandView::Identity => seq![0x0Eu8],
    }
}

/// Decode one command from the front of `bytes`: the command and the number
/// of bytes its record occupies, or the protocol error that rejects it.
pub open spec fn spec_decode(bytes: Seq<u8>) -> Result<(CommandView, int), ProtocolError> {
    if bytes.len() == 0 {
        Err(ProtocolError::Truncated)
    } else {
        let op = bytes[0];
        if op == 0x00 {
            Ok((CommandView::Push, 1))
        } else if op == 0x01 {
            Ok((CommandView::Pop, 1))
        } else if op == 0x02 {
            if bytes.len() < 2 {
                Err(ProtocolError::Truncated)
            } else if bytes[1] == 0 {
                Ok((CommandView::PushRecord(PrimitiveType::Triangles), 2))
            } else if bytes[1] == 1 {
                Ok((CommandView::PushRecord(PrimitiveType::Quads), 2))
            } else {
                Err(ProtocolError::UnknownPrimitive(bytes[1]))
            }
        } else if op == 0x03 {
            Ok((CommandView::PopRecord, 1))
        } else if op == 0x04 {
            if bytes.len() < 5 {
                Err(ProtocolError::Truncated)
            } else {
                Ok((CommandView::DrawRecorded(spec_u32_at(bytes, 1)), 5))
            }
        } else if op == 0x05 {
            if bytes.len() < 21 {
                Err(ProtocolError::Truncated)
            } else {
                Ok(
                    (
                        CommandView::EmitVertex(
                            Vertex {
                                x: spec_u32_at(bytes, 1),
                                y: spec_u32_at(bytes, 5),
                                z: spec_u32_at(bytes, 9),
                                u: spec_u32_at(bytes, 13),
                                v: spec_u32_at(bytes, 17),
                            },
                        ),
                        21,
                    ),
                )
            }
        } else if op == 0x06 {
            if bytes.len() < 5 {
                Err(ProtocolError::Truncated)
            } else {
                Ok((CommandView::BindTexture(spec_u32_at(bytes, 1)), 5))
            }
        } else if op == 0x07 {
            if bytes.len() < 9 {
                Err(ProtocolError::Truncated)
            } else {
                let w = spec_u32_at(bytes, 1);
                let h = spec_u32_at(bytes, 5);
                let n = w * h * 4;
                if bytes.len() < 9 + n {
                    Err(ProtocolError::Truncated)
                } else {
                    Ok(
                        (
                            CommandView::RegisterTexture {
                                w,
                                h,
                                rgba: bytes.subrange(9, 9 + n),
                            },
                            9 + n,
                        ),
                    )
                }
            }
        } else if op == 0x08 {
            if bytes.len() < 13 {
                Err(ProtocolError::Truncated)
            } else {
                Ok(
                    (
                        CommandView::Translate {
                            x: spec_u32_at(bytes, 1),
                            y: spec_u32_at(bytes, 5),
                            z: spec_u32_at(bytes, 9),
                        },
                        13,
                    ),
                )
            }
        } else if op == 0x09 {
            if bytes.len() < 17 {
                Err(ProtocolError::Truncated)
            } else {
                Ok(
                    (
                        CommandView::RotateAxis {
                            x: spec_u32_at(bytes, 1),
                            y: spec_u32_at(bytes, 5),
                            z: spec_u32_at(bytes, 9),
                            angle: spec_u32_at(bytes, 13),
                        },
                        17,
                    ),
                )
            }
        } else if op == 0x0A {
            if bytes.len() < 13 {
                Err(ProtocolError::Truncated)
            } else {
                Ok(
                    (
                        CommandView::RotateEuler {
                            yaw: spec_u32_at(bytes, 1),
                            pitch: spec_u32_at(bytes, 5),
                            roll: spec_u32_at(bytes, 9),
                        },
                        13,
                    ),
                )
            }
        } else if op == 0x0B {
            if bytes.len() < 13 {
                Err(ProtocolError::Truncated)
            } else {
                Ok(
                    (
                        CommandView::Scale {
                            x: spec_u32_at(bytes, 1),
                            y: spec_u32_at(bytes, 5),
                            z: spec_u32_at(bytes, 9),
                        },
                        13,
                    ),
                )
            }
        } else if op == 0x0C {
            if bytes.len() < 65 {
                Err(ProtocolError::Truncated)
            } else {
                Ok((CommandView::LoadMatrix(spec_cols_at(bytes, 1)), 65))
            }
        } else if op == 0x0D {
            if bytes.len() < 65 {
                Err(ProtocolError::Truncated)
            } else {
                Ok((CommandView::MulMatrix(spec_cols_at(bytes, 1)), 65))
            }
        } else if op == 0x0E {
            Ok((CommandView::Identity, 1))
        } else {
            Err(ProtocolError::UnknownOpcode(op))
        }
    }
}

/// Decode records back to back until the bytes are exhausted, as the
/// submission entry point consumes a `(pointer, total_bytes)` range.
pub open spec fn spec_decode_all(bytes: Seq<u8>) -> Result<Seq<CommandView>, ProtocolError>
    decreases bytes.len(),
{
    if bytes.len() == 0 {
        Ok(Seq::empty())
    } else {
        match spec_decode(bytes) {
            Err(e) => Err(e),
            Ok((c, n)) => if 1 <= n <= bytes.len() {
                match spec_decode_all(bytes.skip(n)) {
                    Err(e) => Err(e),
                    Ok(rest) => Ok(seq![c] + rest),
                }
            } else {
                // spec_decode never consumes less than one byte or more than
                // the buffer; this arm only keeps the recursion well founded.
                Err(ProtocolError::Truncated)
            },
        }
    }
}

/// The wire bytes of a command sequence: each record encoded in turn.
pub open spec fn spec_encode_all(cs: Seq<CommandView>) -> Seq<u8>
    decreases cs.len(),
{
    if cs.len() == 0 {
        Seq::empty()
    } else {
        spec_encode(cs[0]) + spec_encode_all(cs.skip(1))
    }
}

/// A sequential cursor over a submitted byte buffer.
pub struct CommandReader<'a> {
    buf: &'a [u8],
    pos: usize,
}

impl<'a> CommandReader<'a> {
    /// The buffer being read.
    pub closed spec fn buf_view(self) -> Seq<u8> {
        self.buf@
    }

    /// The cursor: how many bytes have been consumed.
    pub closed spec fn pos_view(self) -> int {
        self.pos as int
    }

    /// Start reading `buf` from its first byte.
    pub fn new(buf: &'a [u8]) -> (r: CommandReader<'a>)
        ensures
            r.buf_view() == buf@,
            r.pos_view() == 0,
    {
        CommandReader { buf, pos: 0 }
    }

    /// Read the byte at the cursor and advance past it.
    pub fn read_u8(&mut self) -> (b: u8)
        requires
            old(self).pos_view() + 1 <= old(self).buf_view().len(),
        ensures
            final(self).buf_view() == old(self).buf_view(),
            final(self).pos_view() == old(self).pos_view() + 1,
            b == old(self).buf_view()[old(self).pos_view()],
    {
        let n = self.buf.len();
        proof {
            assert(self.pos < n);
        }
        let b = self.buf[self.pos];
        self.pos = self.pos + 1;
        b
    }

    /// Read a little-endian 32-bit scalar at the cursor and advance past it.
    pub fn read_u32(&mut self) -> (x: u32)
        requires
            old(self).pos_view() + 4 <= old(self).buf_view().len(),
        ensures
            final(self).buf_view() == old(self).buf_view(),
            final(self).pos_view() == old(self).pos_view() + 4,
            x == spec_u32_at(old(self).buf_view(), old(self).pos_view()),
    {
        let n = self.buf.len();
        proof {
            assert(self.pos + 4 <= n);
        }
        let bytes = slice_subrange(self.buf, self.pos, self.pos + 4);
        self.pos = self.pos + 4;
        u32_from_le_bytes(bytes)
    }
}

impl GpuCommand {
    /// The wire format fixes this command's buffer lengths.
    pub open spec fn wf(self) -> bool {
        wf_command(self@)
    }

    /// Decode one command record from the front of `buf`, returning the
    /// command and the number of bytes its record occupies — exactly as
    /// [`spec_decode`] describes, error for error.
    pub fn deserialize(buf: &[u8]) -> (r: Result<(GpuCommand, usize), ProtocolError>)
        ensures
            match r {
                Ok((c, n)) => spec_decode(buf@) == Ok::<_, ProtocolError>((c@, n as int))
                    && c.wf(),
                Err(e) => spec_decode(buf@) == Err::<(CommandView, int), _>(e),
            },
    {
        if buf.len() == 0 {
            return Err(ProtocolError::Truncated);
        }
        let mut reader = CommandReader::new(buf);
        let opcode = reader.read_u8();
        match opcode {
            0x00 => Ok((GpuCommand::Push, 1)),
            0x01 => Ok((GpuCommand::Pop, 1)),
            0x02 => {
                if buf.len() < 2 {
                    Err(ProtocolError::Truncated)
                } else {
                    let kind = reader.read_u8();
                    if kind > 1 {
                        Err(ProtocolError::UnknownPrimitive(kind))
                    } else {
                        Ok((GpuCommand::PushRecord(PrimitiveType::repr(kind)), 2))
                    }
                }
            },
            0x03 => Ok((GpuCommand::PopRecord, 1)),
            0x04 => {
                if buf.len() < 5 {
                    Err(ProtocolError::Truncated)
                } else {
                    Ok((GpuCommand::DrawRecorded(reader.read_u32()), 5))
                }
            },
            0x05 => {
                if buf.len() < 21 {
                    Err(ProtocolError::Truncated)
                } else {
                    let x = reader.read_u32();
                    let y = reader.read_u32();
                    let z = reader.read_u32();
                    let u = reader.read_u32();
                    let v = reader.read_u32();
                    Ok((GpuCommand::EmitVertex(Vertex { x, y, z, u, v }), 21))
                }
            },
            0x06 => {
                if buf.len() < 5 {
                    Err(ProtocolError::Truncated)
                } else {
                    Ok((GpuCommand::BindTexture(reader.read_u32()), 5))
                }
            },
            0x07 => {
                if buf.len() < 9 {
                    Err(ProtocolError::Truncated)
                } else {
                    let w = reader.read_u32();
                    let h = reader.read_u32();
                    proof {
                        assert((w as u128) * (h as u128) * 4 < 0x10000_0000_0000_0000_0000u128)
                            by (nonlinear_arith)
                            requires
                                w <= 0xffff_ffffu32,
                                h <= 0xffff_ffffu32,
                        ;
                    }
                    let n128 = (w as u128) * (h as u128) * 4;
                    if n128 > (buf.len() - 9) as u128 {
                        Err(ProtocolError::Truncated)
                    } else {
                        let n = n128 as usize;
                        let rgba = slice_to_vec(slice_subrange(buf, 9, 9 + n));
                        Ok((GpuCommand::RegisterTexture { w, h, rgba }, 9 + n))
                    }
                }
            },
            0x08 => {
                if buf.len() < 13 {
                    Err(ProtocolError::Truncated)
                } else {
                    let x = reader.read_u32();
                    let y = reader.read_u32();
                    let z = reader.read_u32();
                    Ok((GpuCommand::Translate { x, y, z }, 13))
                }
            },
            0x09 => {
                if buf.len() < 17 {
                    Err(ProtocolError::Truncated)
                } else {
                    let x = reader.read_u32();
                    let y = reader.read_u32();
                    let z = reader.read_u32();
                    let angle = reader.read_u32();
                    Ok((GpuCommand::RotateAxis { x, y, z, angle }, 17))
                }
            },
            0x0A => {
                if buf.len() < 13 {
                    Err(ProtocolError::Truncated)
                } else {
                    let yaw = reader.read_u32();
                    let pitch = reader.read_u32();
                    let roll = reader.read_u32();
                    Ok((GpuCommand::RotateEuler { yaw, pitch, roll }, 13))
                }
            },
            0x0B => {
                if buf.len() < 13 {
                    Err(ProtocolError::Truncated)
                } else {
                    let x = reader.read_u32();
                    let y = reader.read_u32();
                    let z = reader.read_u32();
                    Ok((GpuCommand::Scale { x, y, z }, 13))
                }
            },
            0x0C => {
                if buf.len() < 65 {
                    Err(ProtocolError::Truncated)
                } else {
                    let m = read_cols(&mut reader);
                    Ok((GpuCommand::LoadMatrix(m), 65))
                }
            },
            0x0D => {
                if buf.len() < 65 {
                    Err(ProtocolError::Truncated)
                } else {
                    let m = read_cols(&mut reader);
                    Ok((GpuCommand::MulMatrix(m), 65))
                }
            },
            0x0E => Ok((GpuCommand::Identity, 1)),
            _ => Err(ProtocolError::UnknownOpcode(opcode)),
        }
    }
}

/// The views of a sequence of commands, in order.
pub open spec fn views_of(s: Seq<GpuCommand>) -> Seq<CommandView> {
    s.map_values(|c: GpuCommand| c@)
}

/// Decode a whole submission: records back to back until `buf` is exhausted,
/// exactly as [`spec_decode_all`] describes, error for error.
pub fn decode_commands(buf: &[u8]) -> (r: Result<Vec<GpuCommand>, ProtocolError>)
    ensures
        match r {
            Ok(cmds) => spec_decode_all(buf@) == Ok::<_, ProtocolError>(views_of(cmds@))
                && forall|i: int| 0 <= i < cmds@.len() ==> (#[trigger] cmds@[i]).wf(),
            Err(e) => spec_decode_all(buf@) == Err::<Seq<CommandView>, _>(e),
        },
{
    let mut cmds: Vec<GpuCommand> = Vec::new();
    let mut pos: usize = 0;
    let len = buf.len();
    proof {
        assert(buf@.skip(0) =~= buf@);
        assert(views_of(cmds@) =~= Seq::<CommandView>::empty());
        if spec_decode_all(buf@) is Ok {
            assert(views_of(cmds@) + spec_decode_all(buf@)->Ok_0 =~= spec_decode_all(buf@)->Ok_0);
        }
    }
    while pos < len
        invariant
            pos <= len,
            len == buf@.len(),
            forall|i: int| 0 <= i < cmds@.len() ==> (#[trigger] cmds@[i]).wf(),
            spec_decode_all(buf@) == match spec_decode_all(buf@.skip(pos as int)) {
                Ok(rest) => Ok::<_, ProtocolError>(views_of(cmds@) + rest),
                Err(e) => Err::<Seq<CommandView>, _>(e),
            },
        decreases len - pos,
    {
        let ghost prev_pos = pos as int;
        let ghost prev_cmds = cmds@;
        let rest = slice_subrange(buf, pos, len);
        match GpuCommand::deserialize(rest) {
            Err(e) => {
                return Err(e);
            },
            Ok((c, n)) => {
                proof {
                    lemma_encode_decode(buf@.skip(prev_pos));
                }
                cmds.push(c);
                pos = pos + n;
                proof {
                    assert(buf@.skip(prev_pos).skip(n as int) =~= buf@.skip(pos as int));
                    assert(views_of(cmds@) =~= views_of(prev_cmds) + seq![c@]);
                    if spec_decode_all(buf@.skip(pos as int)) is Ok {
                        let tail = spec_decode_all(buf@.skip(pos as int))->Ok_0;
                        assert((views_of(prev_cmds) + (seq![c@] + tail)) =~= (views_of(cmds@)
                            + tail));
                    }
                }
            },
        }
    }
    proof {
        assert(buf@.skip(len as int) =~= Seq::<u8>::empty());
        assert(views_of(cmds@) + Seq::<CommandView>::empty() =~= views_of(cmds@));
    }
    Ok(cmds)
}

/// Read the 16 little-endian matrix columns at the cursor.
fn read_cols(reader: &mut CommandReader<'_>) -> (m: [u32; 16])
    requires
        old(reader).pos_view() + 64 <= old(reader).buf_view().len(),
    ensures
        final(reader).buf_view() == old(reader).buf_view(),
        final(reader).pos_view() == old(reader).pos_view() + 64,
        m@ == spec_cols_at(old(reader).buf_view(), old(reader).pos_view()),
{
    let c0 = reader.read_u32();
    let c1 = reader.read_u32();
    let c2 = reader.read_u32();
    let c3 = reader.read_u32();
    let c4 = reader.read_u32();
    let c5 = reader.read_u32();
    let c6 = reader.read_u32();
    let c7 = reader.read_u32();
    let c8 = reader.read_u32();
    let c9 = reader.read_u32();
    let c10 = reader.read_u32();
    let c11 = reader.read_u32();
    let c12 = reader.read_u32();
    let c13 = reader.read_u32();
    let c14 = reader.read_u32();
    let c15 = reader.read_u32();
    let m = [c0, c1, c2, c3, c4, c5, c6, c7, c8, c9, c10, c11, c12, c13, c14, c15];
    proof {
        assert(m@ =~= spec_cols_at(old(reader).buf_view(), old(reader).pos_view()));
    }
    m
}

/// Append the little-endian bytes of `x`.
fn push_u32(out: &mut Vec<u8>, x: u32)
    ensures
        final(out)@ == old(out)@ + spec_u32_to_le_bytes(x),
{
    let mut b = u32_to_le_bytes(x);
    out.append(&mut b);
}

/// `spec_cols_bytes` spends four bytes per column.
pub proof fn lemma_cols_bytes_len(m: Seq<u32>)
    ensures
        spec_cols_bytes(m).len() == 4 * m.len(),
    decreases m.len(),
{
    lemma_auto_spec_u32_to_from_le_bytes();
    if m.len() > 0 {
        lemma_cols_bytes_len(m.skip(1));
    }
}

/// The last column's bytes close the encoding of a column sequence.
proof fn lemma_cols_bytes_snoc(m: Seq<u32>)
    requires
        m.len() > 0,
    ensures
        spec_cols_bytes(m) == spec_cols_bytes(m.drop_last()) + spec_u32_to_le_bytes(m.last()),
    decreases m.len(),
{
    lemma_auto_spec_u32_to_from_le_bytes();
    if m.len() == 1 {
        assert(m.skip(1) =~= Seq::<u32>::empty());
        assert(spec_cols_bytes(m.skip(1)) == Seq::<u8>::empty());
        assert(m.drop_last() =~= Seq::<u32>::empty());
        assert(spec_cols_bytes(m.drop_last()) == Seq::<u8>::empty());
        assert(spec_cols_bytes(m) =~= spec_cols_bytes(m.drop_last()) + spec_u32_to_le_bytes(
            m.last(),
        ));
    } else {
        lemma_cols_bytes_snoc(m.skip(1));
        assert(m.skip(1).drop_last() =~= m.drop_last().skip(1));
        assert(m.skip(1).last() == m.last());
        assert(m.drop_last()[0] == m[0]);
        assert(spec_cols_bytes(m.drop_last()) == spec_u32_to_le_bytes(m.drop_last()[0])
            + spec_cols_bytes(m.drop_last().skip(1)));
        assert(spec_cols_bytes(m) =~= spec_cols_bytes(m.drop_last()) + spec_u32_to_le_bytes(
            m.last(),
        ));
    }
}

/// Column `i` occupies bytes `4 * i .. 4 * i + 4` of the encoding.
proof fn lemma_cols_bytes_chunk(m: Seq<u32>, i: int)
    requires
        0 <= i < m.len(),
    ensures
        spec_cols_bytes(m).subrange(4 * i, 4 * i + 4) == spec_u32_to_le_bytes(m[i]),
    decreases m.len(),
{
    lemma_auto_spec_u32_to_from_le_bytes();
    lemma_cols_bytes_len(m);
    lemma_cols_bytes_len(m.skip(1));
    if i == 0 {
        assert(spec_cols_bytes(m).subrange(0, 4) =~= spec_u32_to_le_bytes(m[0]));
    } else {
        lemma_cols_bytes_chunk(m.skip(1), i - 1);
        assert(spec_cols_bytes(m).subrange(4 * i, 4 * i + 4) =~= spec_cols_bytes(
            m.skip(1),
        ).subrange(4 * (i - 1), 4 * (i - 1) + 4));
    }
}

/// The first `k` columns at `off`, as `spec_cols_at` reads them.
spec fn spec_cols_at_k(bytes: Seq<u8>, off: int, k: nat) -> Seq<u32> {
    Seq::new(k, |i: int| spec_u32_at(bytes, off + 4 * i))
}

/// Re-encoding the columns read at `off` reproduces those bytes.
proof fn lemma_cols_bytes_of_cols_at_k(bytes: Seq<u8>, off: int, k: nat)
    requires
        0 <= off,
        off + 4 * k <= bytes.len(),
    ensures
        spec_cols_bytes(spec_cols_at_k(bytes, off, k)) == bytes.subrange(off, off + 4 * k),
    decreases k,
{
    lemma_auto_spec_u32_to_from_le_bytes();
    if k == 0 {
        assert(spec_cols_at_k(bytes, off, 0) =~= Seq::<u32>::empty());
        assert(spec_cols_bytes(Seq::<u32>::empty()) =~= bytes.subrange(off, off));
    } else {
        let m = spec_cols_at_k(bytes, off, k);
        assert(m.skip(1) =~= spec_cols_at_k(bytes, off + 4, (k - 1) as nat));
        lemma_cols_bytes_of_cols_at_k(bytes, off + 4, (k - 1) as nat);
        assert(spec_u32_to_le_bytes(m[0]) == bytes.subrange(off, off + 4));
        assert(spec_cols_bytes(m) =~= bytes.subrange(off, off + 4 * k));
    }
}

/// Encoding a well-formed command and decoding from the front of the result
/// — whatever bytes follow the record — yields the command back and consumes
/// exactly the record.
pub proof fn lemma_decode_encode(c: CommandView, suffix: Seq<u8>)
    requires
        wf_command(c),
    ensures
        spec_decode(spec_encode(c) + suffix) == Ok::<_, ProtocolError>(
            (c, spec_encode(c).len() as int),
        ),
{
    lemma_auto_spec_u32_to_from_le_bytes();
    let rec = spec_encode(c);
    let bytes = rec + suffix;
    match c {
        CommandView::Push => {
            assert(bytes[0] == 0x00);
        },
        CommandView::Pop => {
            assert(bytes[0] == 0x01);
        },
        CommandView::PushRecord(k) => {
            assert(bytes[0] == 0x02);
            assert(bytes[1] == kind_byte(k));
        },
        CommandView::PopRecord => {
            assert(bytes[0] == 0x03);
        },
        CommandView::DrawRecorded(id) => {
            assert(bytes[0] == 0x04);
            assert(bytes.subrange(1, 5) =~= spec_u32_to_le_bytes(id));
        },
        CommandView::EmitVertex(v) => {
            assert(bytes[0] == 0x05);
            assert(bytes.subrange(1, 5) =~= spec_u32_to_le_bytes(v.x));
            assert(bytes.subrange(5, 9) =~= spec_u32_to_le_bytes(v.y));
            assert(bytes.subrange(9, 13) =~= spec_u32_to_le_bytes(v.z));
            assert(bytes.subrange(13, 17) =~= spec_u32_to_le_bytes(v.u));
            assert(bytes.subrange(17, 21) =~= spec_u32_to_le_bytes(v.v));
        },
        CommandView::BindTexture(id) => {
            assert(bytes[0] == 0x06);
            assert(bytes.subrange(1, 5) =~= spec_u32_to_le_bytes(id));
        },
        CommandView::RegisterTexture { w, h, rgba } => {
            assert(bytes[0] == 0x07);
            assert(bytes.subrange(1, 5) =~= spec_u32_to_le_bytes(w));
            assert(bytes.subrange(5, 9) =~= spec_u32_to_le_bytes(h));
            assert(bytes.subrange(9, 9 + w * h * 4) =~= rgba);
        },
        CommandView::Translate { x, y, z } => {
            assert(bytes[0] == 0x08);
            assert(bytes.subrange(1, 5) =~= spec_u32_to_le_bytes(x));
            assert(bytes.subrange(5, 9) =~= spec_u32_to_le_bytes(y));
            assert(bytes.subrange(9, 13) =~= spec_u32_to_le_bytes(z));
        },
        CommandView::RotateAxis { x, y, z, angle } => {
            assert(bytes[0] == 0x09);
            assert(bytes.subrange(1, 5) =~= spec_u32_to_le_bytes(x));
            assert(bytes.subrange(5, 9) =~= spec_u32_to_le_bytes(y));
            assert(bytes.subrange(9, 13) =~= spec_u32_to_le_bytes(z));
            assert(bytes.subrange(13, 17) =~= spec_u32_to_le_bytes(angle));
        },
        CommandView::RotateEuler { yaw, pitch, roll } => {
            assert(bytes[0] == 0x0A);
            assert(bytes.subrange(1, 5) =~= spec_u32_to_le_bytes(yaw));
            assert(bytes.subrange(5, 9) =~= spec_u32_to_le_bytes(pitch));
            assert(bytes.subrange(9, 13) =~= spec_u32_to_le_bytes(roll));
        },
        CommandView::Scale { x, y, z } => {
            assert(bytes[0] == 0x0B);
            assert(bytes.subrange(1, 5) =~= spec_u32_to_le_bytes(x));
            assert(bytes.subrange(5, 9) =~= spec_u32_to_le_bytes(y));
            assert(bytes.subrange(9, 13) =~= spec_u32_to_le_bytes(z));
        },
        CommandView::LoadMatrix(m) => {
            lemma_cols_roundtrip_case(m, 0x0C, suffix);
        },
        CommandView::MulMatrix(m) => {
            lemma_cols_roundtrip_case(m, 0x0D, suffix);
        },
        CommandView::Identity => {
            assert(bytes[0] == 0x0E);
        },
    }
}

/// Shared matrix-opcode case of `lemma_decode_encode`: the 16 columns read
/// back from an encoded matrix record are the columns that were encoded.
proof fn lemma_cols_roundtrip_case(m: Seq<u32>, op: u8, suffix: Seq<u8>)
    requires
        m.len() == 16,
    ensures
        (seq![op] + spec_cols_bytes(m) + suffix)[0] == op,
        (seq![op] + spec_cols_bytes(m) + suffix).len() >= 65,
        spec_cols_at(seq![op] + spec_cols_bytes(m) + suffix, 1) == m,
        (seq![op] + spec_cols_bytes(m)).len() == 65,
{
    lemma_auto_spec_u32_to_from_le_bytes();
    lemma_cols_bytes_len(m);
    let bytes = seq![op] + spec_cols_bytes(m) + suffix;
    assert forall|i: int| 0 <= i < 16 implies spec_cols_at(bytes, 1)[i] == m[i] by {
        lemma_cols_bytes_chunk(m, i);
        assert(bytes.subrange(1 + 4 * i, 1 + 4 * i + 4) =~= spec_cols_bytes(m).subrange(
            4 * i,
            4 * i + 4,
        ));
    }
    assert(spec_cols_at(bytes, 1) =~= m);
}

/// Decoding one record then re-encoding the command reproduces exactly the
/// bytes the record occupied; a decoded command is always well formed, and a
/// record is never empty or longer than the buffer.
pub proof fn lemma_encode_decode(bytes: Seq<u8>)
    requires
        spec_decode(bytes) is Ok,
    ensures
        ({
            let (c, n) = spec_decode(bytes)->Ok_0;
            &&& wf_command(c)
            &&& 1 <= n <= bytes.len()
            &&& spec_encode(c) == bytes.take(n)
        }),
{
    lemma_auto_spec_u32_to_from_le_bytes();
    let (c, n) = spec_decode(bytes)->Ok_0;
    let op = bytes[0];
    if op == 0x00 || op == 0x01 || op == 0x03 || op == 0x0E {
        assert(spec_encode(c) =~= bytes.take(n));
    } else if op == 0x02 {
        assert(spec_encode(c) =~= bytes.take(n));
    } else if op == 0x04 || op == 0x06 {
        assert(spec_u32_to_le_bytes(spec_u32_at(bytes, 1)) == bytes.subrange(1, 5));
        assert(spec_encode(c) =~= bytes.take(n));
    } else if op == 0x05 {
        assert(spec_u32_to_le_bytes(spec_u32_at(bytes, 1)) == bytes.subrange(1, 5));
        assert(spec_u32_to_le_bytes(spec_u32_at(bytes, 5)) == bytes.subrange(5, 9));
        assert(spec_u32_to_le_bytes(spec_u32_at(bytes, 9)) == bytes.subrange(9, 13));
        assert(spec_u32_to_le_bytes(spec_u32_at(bytes, 13)) == bytes.subrange(13, 17));
        assert(spec_u32_to_le_bytes(spec_u32_at(bytes, 17)) == bytes.subrange(17, 21));
        assert(spec_encode(c) =~= bytes.take(n));
    } else if op == 0x07 {
        assert(spec_u32_to_le_bytes(spec_u32_at(bytes, 1)) == bytes.subrange(1, 5));
        assert(spec_u32_to_le_bytes(spec_u32_at(bytes, 5)) == bytes.subrange(5, 9));
        assert(spec_encode(c) =~= bytes.take(n));
    } else if op == 0x08 || op == 0x0A || op == 0x0B {
        assert(spec_u32_to_le_bytes(spec_u32_at(bytes, 1)) == bytes.subrange(1, 5));
        assert(spec_u32_to_le_bytes(spec_u32_at(bytes, 5)) == bytes.subrange(5, 9));
        assert(spec_u32_to_le_bytes(spec_u32_at(bytes, 9)) == bytes.subrange(9, 13));
        assert(spec_encode(c) =~= bytes.take(n));
    } else if op == 0x09 {
        assert(spec_u32_to_le_bytes(spec_u32_at(bytes, 1)) == bytes.subrange(1, 5));
        assert(spec_u32_to_le_bytes(spec_u32_at(bytes, 5)) == bytes.subrange(5, 9));
        assert(spec_u32_to_le_bytes(spec_u32_at(bytes, 9)) == bytes.subrange(9, 13));
        assert(spec_u32_to_le_bytes(spec_u32_at(bytes, 13)) == bytes.subrange(13, 17));
        assert(spec_encode(c) =~= bytes.take(n));
    } else if op == 0x0C || op == 0x0D {
        let m = spec_cols_at(bytes, 1);
        assert(m =~= spec_cols_at_k(bytes, 1, 16));
        lemma_cols_bytes_of_cols_at_k(bytes, 1, 16);
        assert(spec_encode(c) =~= bytes.take(n));
    }
}

/// Decoding a submission and re-encoding the decoded command sequence
/// reproduces the original byte sequence exactly, for every submission the
/// decoder accepts.
pub proof fn lemma_round_trip_reencode(bytes: Seq<u8>)
    requires
        spec_decode_all(bytes) is Ok,
    ensures
        spec_encode_all(spec_decode_all(bytes)->Ok_0) == bytes,
    decreases bytes.len(),
{
    if bytes.len() == 0 {
        assert(spec_encode_all(spec_decode_all(bytes)->Ok_0) =~= bytes);
    } else {
        let (c, n) = spec_decode(bytes)->Ok_0;
        lemma_encode_decode(bytes);
        lemma_round_trip_reencode(bytes.skip(n));
        let rest = spec_decode_all(bytes.skip(n))->Ok_0;
        assert(spec_decode_all(bytes)->Ok_0 == seq![c] + rest);
        assert((seq![c] + rest).skip(1) =~= rest);
        assert((seq![c] + rest)[0] == c);
        assert(spec_encode_all(seq![c] + rest) == spec_encode(c) + spec_encode_all(rest));
        assert(bytes.take(n) + bytes.skip(n) =~= bytes);
    }
}

/// Encoding a well-formed command sequence and decoding the bytes yields the
/// same command sequence back.
pub proof fn lemma_round_trip_redecode(cs: Seq<CommandView>)
    requires
        forall|i: int| 0 <= i < cs.len() ==> wf_command(#[trigger] cs[i]),
    ensures
        spec_decode_all(spec_encode_all(cs)) == Ok::<_, ProtocolError>(cs),
    decreases cs.len(),
{
    if cs.len() == 0 {
        assert(spec_decode_all(spec_encode_all(cs)) == Ok::<_, ProtocolError>(
            Seq::<CommandView>::empty(),
        ));
        assert(cs =~= Seq::<CommandView>::empty());
    } else {
        let rec = spec_encode(cs[0]);
        let rest = spec_encode_all(cs.skip(1));
        let bytes = rec + rest;
        lemma_decode_encode(cs[0], rest);
        lemma_encode_decode(bytes);
        lemma_round_trip_redecode(cs.skip(1));
        assert(bytes.skip(rec.len() as int) =~= rest);
        assert(seq![cs[0]] + cs.skip(1) =~= cs);
    }
}

impl GpuCommand {
    /// The exact wire bytes of this command record: the inverse of
    /// [`GpuCommand::deserialize`].
    pub fn serialize(&self) -> (out: Vec<u8>)
        requires
            self.wf(),
        ensures
            out@ == spec_encode(self@),
    {
        let mut out: Vec<u8> = Vec::new();
        match self {
            GpuCommand::Push => {
                out.push(0x00);
            },
            GpuCommand::Pop => {
                out.push(0x01);
            },
            GpuCommand::PushRecord(k) => {
                out.push(0x02);
                out.push(k.to_wire());
            },
            GpuCommand::PopRecord => {
                out.push(0x03);
            },
            GpuCommand::DrawRecorded(id) => {
                out.push(0x04);
                push_u32(&mut out, *id);
            },
            GpuCommand::EmitVertex(v) => {
                out.push(0x05);
                push_u32(&mut out, v.x);
                push_u32(&mut out, v.y);
                push_u32(&mut out, v.z);
                push_u32(&mut out, v.u);
                push_u32(&mut out, v.v);
            },
            GpuCommand::BindTexture(id) => {
                out.push(0x06);
                push_u32(&mut out, *id);
            },
            GpuCommand::RegisterTexture { w, h, rgba } => {
                out.push(0x07);
                push_u32(&mut out, *w);
                push_u32(&mut out, *h);
                out.extend_from_slice(rgba.as_slice());
            },
            GpuCommand::Translate { x, y, z } => {
                out.push(0x08);
                push_u32(&mut out, *x);
                push_u32(&mut out, *y);
                push_u32(&mut out, *z);
            },
            GpuCommand::RotateAxis { x, y, z, angle } => {
                out.push(0x09);
                push_u32(&mut out, *x);
                push_u32(&mut out, *y);
                push_u32(&mut out, *z);
                push_u32(&mut out, *angle);
            },
            GpuCommand::RotateEuler { yaw, pitch, roll } => {
                out.push(0x0A);
                push_u32(&mut out, *yaw);
                push_u32(&mut out, *pitch);
                push_u32(&mut out, *roll);
            },
            GpuCommand::Scale { x, y, z } => {
                out.push(0x0B);
                push_u32(&mut out, *x);
                push_u32(&mut out, *y);
                push_u32(&mut out, *z);
            },
            GpuCommand::LoadMatrix(m) => {
                out.push(0x0C);
                push_cols(&mut out, m);
            },
            GpuCommand::MulMatrix(m) => {
                out.push(0x0D);
                push_cols(&mut out, m);
            },
            GpuCommand::Identity => {
                out.push(0x0E);
            },
        }
        proof {
            assert(out@ =~= spec_encode(self@));
        }
        out
    }
}

/// Append the little-endian bytes of all 16 matrix columns.
fn push_cols(out: &mut Vec<u8>, m: &[u32; 16])
    ensures
        final(out)@ == old(out)@ + spec_cols_bytes(m@),
{
    let ghost base: Seq<u8> = out@;
    proof {
        assert(out@ =~= base + spec_cols_bytes(m@.take(0)));
    }
    for i in 0..16
        invariant
            out@ == base + spec_cols_bytes(m@.take(i as int)),
            m@.len() == 16,
    {
        push_u32(out, m[i]);
        proof {
            lemma_cols_bytes_snoc(m@.take(i as int + 1));
            assert(m@.take(i as int + 1).drop_last() =~= m@.take(i as int));
            assert(m@.take(i as int + 1).last() == m@[i as int]);
            assert(out@ =~= base + spec_cols_bytes(m@.take(i as int + 1)));
        }
    }
    proof {
        assert(m@.take(16) =~= m@);
    }
}

} // verus!
