//! End-to-end interpreter scenarios: submissions through guest memory,
//! recordings, immediate mode, index derivation, and the fatal errors.
use gooseboy_core::command::GpuCommand;
use gooseboy_core::mesh::TextureRef;
use gooseboy_core::registry::TextureResource;
use gooseboy_core::renderer::{ExecError, GpuRenderer};
use gooseboy_core::transform::TransformOp;
use gooseboy_core::vertex::{PrimitiveType, Vertex};

fn fresh_renderer() -> GpuRenderer {
    GpuRenderer::new(TextureResource::new(2, 2, vec![0u8; 16]))
}

fn vertex_bytes(x: f32, y: f32, z: f32, u: f32, v: f32) -> Vec<u8> {
    let mut b = vec![0x05u8];
    for c in [x, y, z, u, v] {
        b.extend_from_slice(&c.to_le_bytes());
    }
    b
}

#[test]
fn record_three_vertices_and_draw() {
    // open a Triangles recording, emit three vertices, close it, draw mesh 0
    let mut mem: Vec<u8> = vec![0x02, 0x00];
    mem.extend_from_slice(&vertex_bytes(0.0, 0.0, 0.0, 0.0, 0.0));
    mem.extend_from_slice(&vertex_bytes(1.0, 0.0, 0.0, 1.0, 0.0));
    mem.extend_from_slice(&vertex_bytes(0.0, 1.0, 0.0, 0.0, 1.0));
    mem.push(0x03);
    mem.extend_from_slice(&[0x04, 0, 0, 0, 0]);

    let mut r = fresh_renderer();
    let count = mem.len() as u32;
    assert_eq!(r.submit(&mem, 0, count), Ok(true));
    let draws = r.execute_commands().expect("execution failed");

    let mesh = r.meshes.find_mesh(0).expect("mesh 0 should exist");
    assert_eq!(mesh.vertices.len(), 3);
    assert_eq!(mesh.indices, vec![0, 1, 2]);

    assert_eq!(draws.len(), 1);
    assert_eq!(draws[0].vertices.len(), 3);
    assert_eq!(draws[0].indices, vec![0, 1, 2]);
    // the transform stack's top at draw time was the untouched identity
    assert!(draws[0].transform.ops.is_empty());
    assert_eq!(draws[0].vertices[0].x, 0.0f32.to_bits());
    assert_eq!(draws[0].vertices[1].x, 1.0f32.to_bits());
}

#[test]
fn register_bind_and_immediate_draw() {
    // register a 1x1 red texture, bind texture 0, emit outside any recording
    let mut r = fresh_renderer();
    r.queue_command(GpuCommand::RegisterTexture { w: 1, h: 1, rgba: vec![255, 0, 0, 255] });
    r.queue_command(GpuCommand::BindTexture(0));
    r.queue_command(GpuCommand::EmitVertex(Vertex::new(0, 0, 0, 0, 0)));
    let draws = r.execute_commands().expect("execution failed");

    assert_eq!(draws.len(), 1);
    assert_eq!(draws[0].texture, TextureRef::Id(0));
    assert_eq!(draws[0].vertices.len(), 1);
    let tex = r.textures.find_texture(0).expect("texture 0 should exist");
    assert_eq!((tex.width, tex.height), (1, 1));
    assert_eq!(tex.rgba, vec![255, 0, 0, 255]);

    // the immediate-mode mesh was discarded: a pass with no submissions
    // issues zero draws
    let draws = r.execute_commands().expect("execution failed");
    assert!(draws.is_empty());
}

#[test]
fn triangle_indices_partition_vertices() {
    let mut r = fresh_renderer();
    r.queue_command(GpuCommand::PushRecord(PrimitiveType::Triangles));
    for i in 0..7 {
        r.queue_command(GpuCommand::EmitVertex(Vertex::new(i, 0, 0, 0, 0)));
    }
    r.queue_command(GpuCommand::PopRecord);
    r.execute_commands().expect("execution failed");
    let mesh = r.meshes.find_mesh(0).expect("mesh 0 should exist");
    // 3 * floor(7 / 3) = 6 indices: two disjoint consecutive triples
    assert_eq!(mesh.indices, vec![0, 1, 2, 3, 4, 5]);
}

#[test]
fn quad_indices_split_into_two_triangles() {
    let mut r = fresh_renderer();
    r.queue_command(GpuCommand::PushRecord(PrimitiveType::Quads));
    for i in 0..9 {
        r.queue_command(GpuCommand::EmitVertex(Vertex::new(i, 0, 0, 0, 0)));
    }
    r.queue_command(GpuCommand::PopRecord);
    r.execute_commands().expect("execution failed");
    let mesh = r.meshes.find_mesh(0).expect("mesh 0 should exist");
    // 6 * floor(9 / 4) = 12 indices: (4k, 4k+1, 4k+2, 4k, 4k+2, 4k+3)
    assert_eq!(mesh.indices, vec![0, 1, 2, 0, 2, 3, 4, 5, 6, 4, 6, 7]);
}

#[test]
fn transform_commands_reach_the_stack_top() {
    let mut r = fresh_renderer();
    r.queue_command(GpuCommand::Translate { x: 1, y: 2, z: 3 });
    r.queue_command(GpuCommand::Push);
    r.queue_command(GpuCommand::Scale { x: 9, y: 9, z: 9 });
    r.queue_command(GpuCommand::PushRecord(PrimitiveType::Triangles));
    r.queue_command(GpuCommand::PopRecord);
    r.queue_command(GpuCommand::DrawRecorded(0));
    r.execute_commands().expect("execution failed");
    // the draw carried the pushed-and-scaled top: translate then scale
    // (copy-on-push duplicated the translated transform)
    let top = r.stack.top();
    assert_eq!(top.ops.len(), 2);
    assert!(matches!(top.ops[0], TransformOp::Translate { x: 1, y: 2, z: 3 }));
    assert!(matches!(top.ops[1], TransformOp::Scale { x: 9, .. }));
    // the pair below is still the single translate
    assert_eq!(r.stack.depth(), 2);
}

#[test]
fn push_pop_restores_depth_and_top() {
    let mut r = fresh_renderer();
    r.queue_command(GpuCommand::Translate { x: 5, y: 6, z: 7 });
    r.queue_command(GpuCommand::Push);
    r.queue_command(GpuCommand::Scale { x: 2, y: 2, z: 2 });
    r.queue_command(GpuCommand::Pop);
    r.execute_commands().expect("execution failed");
    assert_eq!(r.stack.depth(), 1);
    let top = r.stack.top();
    assert_eq!(top.ops.len(), 1);
    assert!(matches!(top.ops[0], TransformOp::Translate { x: 5, y: 6, z: 7 }));
}

#[test]
fn push_beyond_max_depth_is_fatal() {
    let mut r = fresh_renderer();
    // depth starts at 1 and is bounded by 64: the 64th push must fail
    for _ in 0..64 {
        r.queue_command(GpuCommand::Push);
    }
    assert_eq!(r.execute_commands().unwrap_err(), ExecError::StackOverflow);
    assert_eq!(r.stack.depth(), 64);
}

#[test]
fn pop_at_base_depth_is_fatal() {
    let mut r = fresh_renderer();
    r.queue_command(GpuCommand::Pop);
    assert_eq!(r.execute_commands().unwrap_err(), ExecError::StackUnderflow);
}

#[test]
fn draw_of_unknown_mesh_is_skipped() {
    let mut r = fresh_renderer();
    r.queue_command(GpuCommand::DrawRecorded(42));
    let draws = r.execute_commands().expect("execution failed");
    assert!(draws.is_empty());
}

#[test]
fn bind_of_unknown_texture_falls_back() {
    let mut r = fresh_renderer();
    r.queue_command(GpuCommand::BindTexture(42));
    r.queue_command(GpuCommand::EmitVertex(Vertex::new(0, 0, 0, 0, 0)));
    let draws = r.execute_commands().expect("execution failed");
    assert_eq!(draws.len(), 1);
    assert_eq!(draws[0].texture, TextureRef::Missing);
}

#[test]
fn out_of_bounds_submission_is_refused() {
    let mut r = fresh_renderer();
    let mem = vec![0x00u8; 8];
    // one byte past the end of guest memory
    assert_eq!(r.submit(&mem, 1, 8), Ok(false));
    assert_eq!(r.submit(&mem, 9, 1), Ok(false));
    let draws = r.execute_commands().expect("execution failed");
    assert!(draws.is_empty());
}

#[test]
fn rejected_submission_enqueues_nothing() {
    let mut r = fresh_renderer();
    let mem = vec![0x00u8, 0xFF];
    assert!(r.submit(&mem, 0, 2).is_err());
    let draws = r.execute_commands().expect("execution failed");
    assert!(draws.is_empty());
}

#[test]
fn bound_texture_overrides_mesh_texture_on_draw() {
    let mut r = fresh_renderer();
    r.queue_command(GpuCommand::RegisterTexture { w: 1, h: 1, rgba: vec![1, 2, 3, 4] });
    r.queue_command(GpuCommand::PushRecord(PrimitiveType::Triangles));
    r.queue_command(GpuCommand::PopRecord);
    r.queue_command(GpuCommand::BindTexture(0));
    r.queue_command(GpuCommand::DrawRecorded(0));
    let draws = r.execute_commands().expect("execution failed");
    assert_eq!(draws.len(), 1);
    assert_eq!(draws[0].texture, TextureRef::Id(0));
    // the binding resets at the end of the pass: a later draw of the same
    // mesh uses the mesh's own (fallback) texture
    let mut r2 = fresh_renderer();
    r2.queue_command(GpuCommand::PushRecord(PrimitiveType::Triangles));
    r2.queue_command(GpuCommand::PopRecord);
    r2.queue_command(GpuCommand::DrawRecorded(0));
    let draws = r2.execute_commands().expect("execution failed");
    assert_eq!(draws[0].texture, TextureRef::Missing);
}
