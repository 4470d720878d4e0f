//! Registry ID discipline and the model-matrix stack.
use gooseboy_core::mesh::TextureRef;
use gooseboy_core::registry::{MeshRegistry, TextureRegistry, TextureResource};
use gooseboy_core::transform::{ModelMatrixStack, TransformOp};
use gooseboy_core::vertex::{PrimitiveType, Vertex};

#[test]
fn mesh_ids_count_up_and_never_repeat() {
    let mut reg = MeshRegistry::new();
    let a = reg.create_mesh(PrimitiveType::Triangles);
    let b = reg.create_mesh(PrimitiveType::Quads);
    let c = reg.create_mesh(PrimitiveType::Triangles);
    assert_eq!((a, b, c), (0, 1, 2));
    assert!(a < b && b < c);
    assert!(reg.find_mesh(2).is_some());
    // an ID no creation returned finds nothing
    assert!(reg.find_mesh(3).is_none());
    assert!(reg.find_mesh(u64::MAX).is_none());
}

#[test]
fn texture_lookup_misses_fall_back_to_the_default()
{
    let missing = TextureResource::new(2, 1, vec![7u8; 8]);
    let mut reg = TextureRegistry::new(missing);
    assert!(reg.find_texture(0).is_none());
    let id = reg.create_texture(1, 1, vec![1, 2, 3, 4]);
    assert_eq!(id, 0);
    assert_eq!(reg.find_texture(0).expect("created").rgba, vec![1, 2, 3, 4]);
    assert!(reg.find_texture(1).is_none());
    let fallback = reg.get_default_texture();
    assert_eq!((fallback.width, fallback.height), (2, 1));
    assert_eq!(fallback.rgba, vec![7u8; 8]);
}

#[test]
fn emitted_vertices_land_in_the_registered_mesh() {
    let mut reg = MeshRegistry::new();
    let id = reg.create_mesh(PrimitiveType::Triangles);
    for i in 0..3 {
        assert!(reg.emit_vertex(id, Vertex::new(i, i, i, 0, 0)));
    }
    reg.set_mesh_texture(id, TextureRef::Id(9));
    let mesh = reg.find_mesh(id).expect("created");
    assert_eq!(mesh.vertices.len(), 3);
    assert_eq!(mesh.indices, vec![0, 1, 2]);
    assert_eq!(mesh.texture, TextureRef::Id(9));
    assert!(matches!(mesh.primitive_type, PrimitiveType::Triangles));
}

#[test]
fn stack_push_duplicates_and_pop_restores() {
    let mut stack = ModelMatrixStack::new(8);
    assert_eq!(stack.depth(), 1);
    assert_eq!(stack.max_depth(), 8);
    stack.apply(TransformOp::Translate { x: 1, y: 2, z: 3 });
    stack.push();
    assert_eq!(stack.depth(), 2);
    // copy-on-push: the new top carries the same factors
    assert_eq!(stack.top().ops.len(), 1);
    stack.apply(TransformOp::Scale { x: 4, y: 4, z: 4 });
    assert_eq!(stack.top().ops.len(), 2);
    stack.pop();
    assert_eq!(stack.depth(), 1);
    let top = stack.top();
    assert_eq!(top.ops.len(), 1);
    assert!(matches!(top.ops[0], TransformOp::Translate { x: 1, y: 2, z: 3 }));
}

#[test]
fn stack_load_replaces_and_identity_resets() {
    let mut stack = ModelMatrixStack::new(4);
    stack.apply(TransformOp::Translate { x: 1, y: 1, z: 1 });
    let cols = [3u32; 16];
    stack.set_top_from_cols(cols);
    let top = stack.top();
    assert_eq!(top.ops.len(), 1);
    assert!(matches!(top.ops[0], TransformOp::Mul { cols: c } if c == [3u32; 16]));
    stack.mul_top_by_cols([5u32; 16]);
    assert_eq!(stack.top().ops.len(), 2);
    stack.set_top_identity();
    assert!(stack.top().ops.is_empty());
}
