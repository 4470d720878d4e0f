//! Resource registries: maps from numeric IDs to resources held behind
//! exclusive-access cells, with IDs assigned strictly increasing from zero
//! and never reused — the registries only grow.
//!
//! The texture registry additionally carries an always-present fallback
//! resource, returned whenever a lookup misses, so rendering degrades
//! visibly instead of failing on a bad reference.
use vstd::prelude::*;

use crate::cell::FastCell;
use crate::mesh::GpuMesh;
use crate::vertex::{PrimitiveType, Vertex};

verus! {

/// A texture resource: raw RGBA pixels with their dimensions, exactly as
/// the guest registered them.
#[derive(Debug)]
pub struct TextureResource {
    pub width: u32,
    pub height: u32,
    pub rgba: Vec<u8>,
}

/// The mathematical value of a [`TextureResource`]: pixels as a sequence.
#[verifier::ext_equal]
pub struct TextureModel {
    pub width: u32,
    pub height: u32,
    pub rgba: Seq<u8>,
}

impl View for TextureResource {
    type V = TextureModel;

    open spec fn view(&self) -> TextureModel {
        TextureModel { width: self.width, height: self.height, rgba: self.rgba@ }
    }
}

impl TextureResource {
    /// Four bytes per pixel.
    pub open spec fn wf(self) -> bool {
        self.rgba@.len() == self.width * self.height * 4
    }

    /// Wrap `width * height` RGBA pixels as a texture resource.
    pub fn new(width: u32, height: u32, rgba: Vec<u8>) -> (t: TextureResource)
        requires
            rgba@.len() == width * height * 4,
        ensures
            t.wf(),
            t.width == width,
            t.height == height,
            t.rgba@ == rgba@,
    {
        TextureResource { width, height, rgba }
    }
}

/// Looking a resource up by ID: IDs count up from zero, so exactly the IDs
/// below the resource count are bound.
pub open spec fn spec_find<T>(s: Seq<T>, id: u64) -> Option<T> {
    if id < s.len() {
        Some(s[id as int])
    } else {
        None
    }
}

/// Creation binds a fresh ID: the ID it assigns — the current resource
/// count — was bound to nothing before, is bound to the new resource after,
/// and every previously assigned ID keeps exactly the resource it had. With
/// creation the only way IDs are assigned, successive creations return
/// strictly increasing IDs, no ID is ever reused, and a lookup of an ID
/// that no creation returned finds nothing.
pub proof fn lemma_create_assigns_fresh_id<T>(s: Seq<T>, m: T)
    requires
        s.len() < u64::MAX,
    ensures
        spec_find(s, s.len() as u64) is None,
        spec_find(s.push(m), s.len() as u64) == Some(m),
        forall|id: u64| id < s.len() ==> #[trigger] spec_find(s.push(m), id) == spec_find(s, id),
{
}

/// The registry of recorded meshes, keyed by the ID assigned at creation.
#[derive(Debug)]
pub struct MeshRegistry {
    meshes: Vec<FastCell<GpuMesh>>,
}

impl View for MeshRegistry {
    type V = Seq<GpuMesh>;

    closed spec fn view(&self) -> Seq<GpuMesh> {
        self.meshes@.map_values(|c: FastCell<GpuMesh>| c.contents()->0)
    }
}

impl MeshRegistry {
    /// Every cell is closed and holds a well-formed mesh.
    pub closed spec fn cells_ok(self) -> bool {
        forall|i: int| 0 <= i < self.meshes@.len() ==> {
            &&& (#[trigger] self.meshes@[i]).wf()
            &&& !self.meshes@[i].is_open()
        }
    }

    /// The registry invariant: closed cells, well-formed meshes.
    pub open spec fn wf(self) -> bool {
        &&& self.cells_ok()
        &&& forall|i: int| 0 <= i < self@.len() ==> (#[trigger] self@[i]).wf()
    }

    /// An empty registry; the first mesh created gets ID 0.
    pub fn new() -> (r: MeshRegistry)
        ensures
            r.wf(),
            r@ == Seq::<GpuMesh>::empty(),
    {
        let r = MeshRegistry { meshes: Vec::new() };
        proof {
            assert(r@ =~= Seq::<GpuMesh>::empty());
        }
        r
    }

    /// Create a fresh, empty mesh of the given kind and assign it the next
    /// unused ID: the number of meshes created before it.
    pub fn create_mesh(&mut self, kind: PrimitiveType) -> (id: u64)
        requires
            old(self).wf(),
            old(self)@.len() < u64::MAX,
        ensures
            final(self).wf(),
            id == old(self)@.len(),
            final(self)@.len() == old(self)@.len() + 1,
            forall|i: int| 0 <= i < old(self)@.len() ==> final(self)@[i] == old(self)@[i],
            final(self)@[id as int].vertices@.len() == 0,
            final(self)@[id as int].indices@.len() == 0,
            final(self)@[id as int].primitive_type == kind,
            final(self)@[id as int].texture == crate::mesh::TextureRef::Missing,
    {
        let id = self.meshes.len() as u64;
        let mesh = GpuMesh::new(kind);
        let cell = FastCell::new(mesh);
        self.meshes.push(cell);
        proof {
            let pre = old(self)@;
            let n = pre.len() as int;
            assert(self@[n] == cell.contents()->0);
            assert forall|i: int| 0 <= i < n implies self@[i] == pre[i] by {
                assert(self.meshes@[i] == old(self).meshes@[i]);
            }
            assert forall|i: int| 0 <= i < self@.len() implies (#[trigger] self@[i]).wf() by {
                if i < n {
                    assert(self@[i] == pre[i]);
                    assert(pre[i].wf());
                } else {
                    assert(self@[i] == mesh);
                }
            }
            assert forall|i: int|
                0 <= i < self.meshes@.len() implies ((#[trigger] self.meshes@[i]).wf()
                && !self.meshes@[i].is_open()) by {
                if i < n {
                    assert(self.meshes@[i] == old(self).meshes@[i]);
                }
            }
        }
        id
    }

    /// Non-mutating lookup: the mesh bound to `id`, or `None` for an ID that
    /// no creation has returned. Never constructs placeholder entries.
    pub fn find_mesh(&self, id: u64) -> (r: Option<&GpuMesh>)
        requires
            self.wf(),
        ensures
            match r {
                Some(m) => spec_find(self@, id) == Some(*m),
                None => spec_find(self@, id) is None,
            },
    {
        let n = self.meshes.len();
        if id < n as u64 {
            proof {
                assert(self.meshes@[id as int].wf() && !self.meshes@[id as int].is_open());
                assert(self@[id as int] == self.meshes@[id as int].contents()->0);
            }
            Some(self.meshes[id as usize].borrow())
        } else {
            None
        }
    }

    /// Append one vertex to the mesh bound to `id`, deriving indices for a
    /// completed primitive, through an exclusive-access scope on its cell.
    /// Returns false and changes nothing when the mesh is full.
    pub fn emit_vertex(&mut self, id: u64, v: Vertex) -> (ok: bool)
        requires
            old(self).wf(),
            id < old(self)@.len(),
        ensures
            final(self).wf(),
            final(self)@.len() == old(self)@.len(),
            forall|i: int| 0 <= i < old(self)@.len() && i != id ==> final(self)@[i] == old(
                self,
            )@[i],
            ok == (old(self)@[id as int].vertices@.len() < crate::mesh::MAX_MESH_VERTICES),
            final(self)@[id as int].primitive_type == old(self)@[id as int].primitive_type,
            final(self)@[id as int].texture == old(self)@[id as int].texture,
            !ok ==> final(self)@[id as int] == old(self)@[id as int],
            ok ==> final(self)@[id as int].vertices@ == old(self)@[id as int].vertices@.push(v),
            ok ==> final(self)@[id as int].indices@ == crate::mesh::derived_indices(
                old(self)@[id as int].primitive_type,
                old(self)@[id as int].vertices@.len() + 1,
            ),
    {
        proof {
            assert(old(self)@.len() == self.meshes@.len());
            assert(self@[id as int] == self.meshes@[id as int].contents()->0);
            assert(self.meshes@[id as int].wf() && !self.meshes@[id as int].is_open());
            assert(self@[id as int].wf());
        }
        let n = self.meshes.len();
        proof {
            assert(id < n);
        }
        let idx = id as usize;
        let cell = vstd::std_specs::vec::vec_index_mut(&mut self.meshes, idx);
        let taken = cell.begin_access();
        let mut mesh = taken.unwrap();
        let ok = mesh.emit(v);
        cell.end_access(mesh);
        proof {
            let pre = old(self)@;
            assert(self.meshes@[id as int].contents() == Some(mesh));
            assert(self@[id as int] == mesh);
            assert forall|i: int| 0 <= i < pre.len() && i != id implies self@[i] == pre[i] by {
                assert(self.meshes@[i] == old(self).meshes@[i]);
            }
            assert forall|i: int| 0 <= i < self@.len() implies (#[trigger] self@[i]).wf() by {
                if i != id {
                    assert(self@[i] == pre[i]);
                    assert(pre[i].wf());
                }
            }
            assert forall|i: int|
                0 <= i < self.meshes@.len() implies ((#[trigger] self.meshes@[i]).wf()
                && !self.meshes@[i].is_open()) by {
                if i != id {
                    assert(self.meshes@[i] == old(self).meshes@[i]);
                }
            }
        }
        ok
    }

    /// Rebind the texture of the mesh bound to `id`.
    pub fn set_mesh_texture(&mut self, id: u64, texture: crate::mesh::TextureRef)
        requires
            old(self).wf(),
            id < old(self)@.len(),
        ensures
            final(self).wf(),
            final(self)@.len() == old(self)@.len(),
            forall|i: int| 0 <= i < old(self)@.len() && i != id ==> final(self)@[i] == old(
                self,
            )@[i],
            final(self)@[id as int].vertices@ == old(self)@[id as int].vertices@,
            final(self)@[id as int].indices@ == old(self)@[id as int].indices@,
            final(self)@[id as int].primitive_type == old(self)@[id as int].primitive_type,
            final(self)@[id as int].texture == texture,
    {
        proof {
            assert(old(self)@.len() == self.meshes@.len());
            assert(self@[id as int] == self.meshes@[id as int].contents()->0);
            assert(self.meshes@[id as int].wf() && !self.meshes@[id as int].is_open());
            assert(self@[id as int].wf());
        }
        let n = self.meshes.len();
        proof {
            assert(id < n);
        }
        let idx = id as usize;
        let cell = vstd::std_specs::vec::vec_index_mut(&mut self.meshes, idx);
        let taken = cell.begin_access();
        let mut mesh = taken.unwrap();
        mesh.texture = texture;
        cell.end_access(mesh);
        proof {
            let pre = old(self)@;
            assert(self.meshes@[id as int].contents() == Some(mesh));
            assert(self@[id as int] == mesh);
            assert(mesh.wf());
            assert forall|i: int| 0 <= i < pre.len() && i != id implies self@[i] == pre[i] by {
                assert(self.meshes@[i] == old(self).meshes@[i]);
            }
            assert forall|i: int| 0 <= i < self@.len() implies (#[trigger] self@[i]).wf() by {
                if i != id {
                    assert(self@[i] == pre[i]);
                    assert(pre[i].wf());
                }
            }
            assert forall|i: int|
                0 <= i < self.meshes@.len() implies ((#[trigger] self.meshes@[i]).wf()
                && !self.meshes@[i].is_open()) by {
                if i != id {
                    assert(self.meshes@[i] == old(self).meshes@[i]);
                }
            }
        }
    }

    /// How many meshes have been created.
    pub fn len(&self) -> (n: usize)
        ensures
            n == self@.len(),
    {
        self.meshes.len()
    }
}

/// The registry of guest-registered textures, keyed by the ID assigned at
/// creation, with a built-in fallback for lookups that miss.
#[derive(Debug)]
pub struct TextureRegistry {
    textures: Vec<FastCell<TextureResource>>,
    missing_texture: FastCell<TextureResource>,
}

impl View for TextureRegistry {
    type V = Seq<TextureResource>;

    closed spec fn view(&self) -> Seq<TextureResource> {
        self.textures@.map_values(|c: FastCell<TextureResource>| c.contents()->0)
    }
}

impl TextureRegistry {
    /// The always-present fallback resource.
    pub closed spec fn spec_missing(self) -> TextureResource {
        self.missing_texture.contents()->0
    }

    /// Every cell is closed and holds a well-formed texture.
    pub closed spec fn cells_ok(self) -> bool {
        &&& forall|i: int| 0 <= i < self.textures@.len() ==> {
            &&& (#[trigger] self.textures@[i]).wf()
            &&& !self.textures@[i].is_open()
        }
        &&& self.missing_texture.wf()
        &&& !self.missing_texture.is_open()
    }

    /// The registry invariant: closed cells, well-formed textures, a
    /// well-formed fallback.
    pub open spec fn wf(self) -> bool {
        &&& self.cells_ok()
        &&& forall|i: int| 0 <= i < self@.len() ==> (#[trigger] self@[i]).wf()
        &&& self.spec_missing().wf()
    }

    /// An empty registry around the given fallback texture; the first
    /// texture created gets ID 0.
    pub fn new(missing: TextureResource) -> (r: TextureRegistry)
        requires
            missing.wf(),
        ensures
            r.wf(),
            r@ == Seq::<TextureResource>::empty(),
            r.spec_missing() == missing,
    {
        let r = TextureRegistry {
            textures: Vec::new(),
            missing_texture: FastCell::new(missing),
        };
        proof {
            assert(r@ =~= Seq::<TextureResource>::empty());
        }
        r
    }

    /// Store `width * height` RGBA pixels as a new texture under the next
    /// unused ID: the number of textures created before it.
    pub fn create_texture(&mut self, width: u32, height: u32, rgba: Vec<u8>) -> (id: u64)
        requires
            old(self).wf(),
            old(self)@.len() < u64::MAX,
            rgba@.len() == width * height * 4,
        ensures
            final(self).wf(),
            id == old(self)@.len(),
            final(self).spec_missing() == old(self).spec_missing(),
            final(self)@.len() == old(self)@.len() + 1,
            forall|i: int| 0 <= i < old(self)@.len() ==> final(self)@[i] == old(self)@[i],
            final(self)@[id as int].width == width,
            final(self)@[id as int].height == height,
            final(self)@[id as int].rgba@ == rgba@,
    {
        let id = self.textures.len() as u64;
        let texture = TextureResource::new(width, height, rgba);
        let cell = FastCell::new(texture);
        self.textures.push(cell);
        proof {
            let pre = old(self)@;
            let n = pre.len() as int;
            assert(self@[n] == cell.contents()->0);
            assert forall|i: int| 0 <= i < n implies self@[i] == pre[i] by {
                assert(self.textures@[i] == old(self).textures@[i]);
            }
            assert forall|i: int| 0 <= i < self@.len() implies (#[trigger] self@[i]).wf() by {
                if i < n {
                    assert(self@[i] == pre[i]);
                    assert(pre[i].wf());
                } else {
                    assert(self@[i] == texture);
                }
            }
            assert forall|i: int|
                0 <= i < self.textures@.len() implies ((#[trigger] self.textures@[i]).wf()
                && !self.textures@[i].is_open()) by {
                if i < n {
                    assert(self.textures@[i] == old(self).textures@[i]);
                }
            }
        }
        id
    }

    /// Non-mutating lookup: the texture bound to `id`, or `None` for an ID
    /// that no creation has returned; callers substitute the fallback.
    pub fn find_texture(&self, id: u64) -> (r: Option<&TextureResource>)
        requires
            self.wf(),
        ensures
            match r {
                Some(t) => spec_find(self@, id) == Some(*t),
                None => spec_find(self@, id) is None,
            },
    {
        let n = self.textures.len();
        if id < n as u64 {
            proof {
                assert(self.textures@[id as int].wf() && !self.textures@[id as int].is_open());
                assert(self@[id as int] == self.textures@[id as int].contents()->0);
            }
            Some(self.textures[id as usize].borrow())
        } else {
            None
        }
    }

    /// The fixed, always-available fallback texture, substituted whenever a
    /// requested ID is absent.
    pub fn get_default_texture(&self) -> (t: &TextureResource)
        requires
            self.wf(),
        ensures
            *t == self.spec_missing(),
    {
        self.missing_texture.borrow()
    }

    /// How many textures have been created.
    pub fn len(&self) -> (n: usize)
        ensures
            n == self@.len(),
    {
        self.textures.len()
    }
}

} // verus!
