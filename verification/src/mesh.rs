//! Mesh resources: ordered vertices with the index sequence derived from
//! the primitive kind on every vertex emission.
use vstd::prelude::*;

use crate::vertex::{PrimitiveType, Vertex};

verus! {

/// Indices are 16-bit, so a mesh holds at most this many vertices; emitting
/// into a full mesh is refused as a fatal error instead of overflowing.
pub const MAX_MESH_VERTICES: usize = 65536;

/// Which texture a mesh or draw is bound to: a registered texture by ID, or
/// the registry's always-present fallback.
#[derive(Clone, Copy, Debug, PartialEq, Eq, Structural)]
pub enum TextureRef {
    Missing,
    Id(u64),
}

/// The indices derived for `n` vertices grouped as independent triangles:
/// on every third vertex the triple `(n-3, n-2, n-1)` is appended, so the
/// sequence is `0, 1, 2, ..., 3 * floor(n/3) - 1`.
pub open spec fn tri_indices(n: nat) -> Seq<u16>
    decreases n,
{
    if n == 0 {
        Seq::empty()
    } else {
        let prev = tri_indices((n - 1) as nat);
        if n % 3 == 0 {
            prev + seq![(n - 3) as u16, (n - 2) as u16, (n - 1) as u16]
        } else {
            prev
        }
    }
}

/// The indices derived for `n` vertices grouped as quads: on every fourth
/// vertex the quad splits into two triangles,
/// `(n-4, n-3, n-2)` and `(n-4, n-2, n-1)`.
pub open spec fn quad_indices(n: nat) -> Seq<u16>
    decreases n,
{
    if n == 0 {
        Seq::empty()
    } else {
        let prev = quad_indices((n - 1) as nat);
        if n % 4 == 0 {
            prev + seq![
                (n - 4) as u16,
                (n - 3) as u16,
                (n - 2) as u16,
                (n - 4) as u16,
                (n - 2) as u16,
                (n - 1) as u16,
            ]
        } else {
            prev
        }
    }
}

/// The index sequence a mesh of kind `kind` carries after `n` emissions.
pub open spec fn derived_indices(kind: PrimitiveType, n: nat) -> Seq<u16> {
    match kind {
        PrimitiveType::Triangles => tri_indices(n),
        PrimitiveType::Quads => quad_indices(n),
    }
}

/// A mesh resource: vertices in emission order, the indices derived from
/// them, the primitive kind fixed at creation, and the bound texture.
#[derive(Debug)]
pub struct GpuMesh {
    pub vertices: Vec<Vertex>,
    pub indices: Vec<u16>,
    pub primitive_type: PrimitiveType,
    pub texture: TextureRef,
}

/// The mathematical value of a [`GpuMesh`]: buffers become sequences.
#[verifier::ext_equal]
pub struct MeshModel {
    pub vertices: Seq<Vertex>,
    pub indices: Seq<u16>,
    pub kind: PrimitiveType,
    pub texture: TextureRef,
}

impl View for GpuMesh {
    type V = MeshModel;

    open spec fn view(&self) -> MeshModel {
        MeshModel {
            vertices: self.vertices@,
            indices: self.indices@,
            kind: self.primitive_type,
            texture: self.texture,
        }
    }
}

/// The mesh a recording starts from: no geometry yet, bound to the
/// fallback texture.
pub open spec fn empty_mesh_model(kind: PrimitiveType) -> MeshModel {
    MeshModel {
        vertices: Seq::empty(),
        indices: Seq::empty(),
        kind,
        texture: TextureRef::Missing,
    }
}

/// The model-level effect of one vertex emission on a mesh that has room.
pub open spec fn model_emit(m: MeshModel, v: Vertex) -> MeshModel {
    MeshModel {
        vertices: m.vertices.push(v),
        indices: derived_indices(m.kind, (m.vertices.len() + 1) as nat),
        kind: m.kind,
        texture: m.texture,
    }
}

impl GpuMesh {
    /// The indices are exactly those derived from the vertex count, which
    /// stays within the 16-bit index range.
    pub open spec fn wf(self) -> bool {
        &&& self.vertices@.len() <= MAX_MESH_VERTICES
        &&& self.indices@ == derived_indices(self.primitive_type, self.vertices@.len() as nat)
    }

    /// A fresh, empty mesh of the given kind, bound to the fallback texture.
    pub fn new(kind: PrimitiveType) -> (m: GpuMesh)
        ensures
            m.wf(),
            m.vertices@.len() == 0,
            m.indices@.len() == 0,
            m.primitive_type == kind,
            m.texture == TextureRef::Missing,
    {
        let m = GpuMesh {
            vertices: Vec::new(),
            indices: Vec::new(),
            primitive_type: kind,
            texture: TextureRef::Missing,
        };
        m
    }

    /// Append one vertex and derive indices for the completed primitive, if
    /// the vertex completes one. A full mesh is left unchanged and refused.
    pub fn emit(&mut self, v: Vertex) -> (ok: bool)
        requires
            old(self).wf(),
        ensures
            final(self).wf(),
            ok == (old(self).vertices@.len() < MAX_MESH_VERTICES),
            !ok ==> *final(self) == *old(self),
            ok ==> {
                &&& final(self).vertices@ == old(self).vertices@.push(v)
                &&& final(self).indices@ == derived_indices(
                    old(self).primitive_type,
                    old(self).vertices@.len() + 1,
                )
                &&& final(self).primitive_type == old(self).primitive_type
                &&& final(self).texture == old(self).texture
            },
    {
        if self.vertices.len() == MAX_MESH_VERTICES {
            return false;
        }
        self.vertices.push(v);
        let len = self.vertices.len();
        match self.primitive_type {
            PrimitiveType::Triangles => {
                if len % 3 == 0 {
                    let i = (len - 3) as u16;
                    self.indices.push(i);
                    self.indices.push(i + 1);
                    self.indices.push(i + 2);
                    proof {
                        assert(self.indices@ =~= derived_indices(
                            self.primitive_type,
                            self.vertices@.len() as nat,
                        ));
                    }
                }
            },
            PrimitiveType::Quads => {
                if len % 4 == 0 {
                    let i = (len - 4) as u16;
                    self.indices.push(i);
                    self.indices.push(i + 1);
                    self.indices.push(i + 2);
                    self.indices.push(i);
                    self.indices.push(i + 2);
                    self.indices.push(i + 3);
                    proof {
                        assert(self.indices@ =~= derived_indices(
                            self.primitive_type,
                            self.vertices@.len() as nat,
                        ));
                    }
                }
            },
        }
        true
    }

    /// An exact copy of this mesh's geometry and binding.
    pub fn duplicate(&self) -> (m: GpuMesh)
        ensures
            m.vertices@ == self.vertices@,
            m.indices@ == self.indices@,
            m.primitive_type == self.primitive_type,
            m.texture == self.texture,
    {
        GpuMesh {
            vertices: copy_vertices(&self.vertices),
            indices: copy_indices(&self.indices),
            primitive_type: self.primitive_type,
            texture: self.texture,
        }
    }
}

/// An element-for-element copy of a vertex buffer.
fn copy_vertices(src: &Vec<Vertex>) -> (out: Vec<Vertex>)
    ensures
        out@ == src@,
{
    let mut out: Vec<Vertex> = Vec::new();
    let len = src.len();
    for i in 0..len
        invariant
            len == src@.len(),
            out@ == src@.take(i as int),
    {
        out.push(src[i]);
        proof {
            assert(out@ =~= src@.take(i as int + 1));
        }
    }
    proof {
        assert(src@.take(len as int) =~= src@);
    }
    out
}

/// An element-for-element copy of an index buffer.
fn copy_indices(src: &Vec<u16>) -> (out: Vec<u16>)
    ensures
        out@ == src@,
{
    let mut out: Vec<u16> = Vec::new();
    let len = src.len();
    for i in 0..len
        invariant
            len == src@.len(),
            out@ == src@.take(i as int),
    {
        out.push(src[i]);
        proof {
            assert(out@ =~= src@.take(i as int + 1));
        }
    }
    proof {
        assert(src@.take(len as int) =~= src@);
    }
    out
}

/// For `n` emitted vertices grouped as triangles, the index count is
/// `3 * floor(n/3)` and index `j` is `j` itself: the indices partition the
/// vertices into disjoint consecutive triples `(3k, 3k+1, 3k+2)`.
pub proof fn lemma_triangle_indices(n: nat)
    requires
        n <= MAX_MESH_VERTICES,
    ensures
        tri_indices(n).len() == 3 * (n / 3),
        forall|j: int| 0 <= j < 3 * (n / 3) ==> tri_indices(n)[j] == j,
    decreases n,
{
    if n > 0 {
        lemma_triangle_indices((n - 1) as nat);
    }
}

/// For `n` emitted vertices grouped as quads, the index count is
/// `6 * floor(n/4)` and quad `k` contributes the two triangles
/// `(4k, 4k+1, 4k+2)` and `(4k, 4k+2, 4k+3)`.
pub proof fn lemma_quad_indices(n: nat)
    requires
        n <= MAX_MESH_VERTICES,
    ensures
        quad_indices(n).len() == 6 * (n / 4),
        forall|k: int| 0 <= k < n / 4 ==> {
            &&& #[trigger] quad_indices(n)[6 * k] == 4 * k
            &&& quad_indices(n)[6 * k + 1] == 4 * k + 1
            &&& quad_indices(n)[6 * k + 2] == 4 * k + 2
            &&& quad_indices(n)[6 * k + 3] == 4 * k
            &&& quad_indices(n)[6 * k + 4] == 4 * k + 2
            &&& quad_indices(n)[6 * k + 5] == 4 * k + 3
        },
    decreases n,
{
    if n > 0 {
        lemma_quad_indices((n - 1) as nat);
    }
}

} // verus!
