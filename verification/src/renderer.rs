//! The command interpreter: a FIFO queue of decoded GPU commands and the
//! execution engine that drains it, mutating the transform stack, the
//! recording stack and the two resource registries, and emitting drawable
//! geometry.
//!
//! Execution is specified as a fold of [`spec_step`] over the queued
//! commands: every transition, every emitted draw call and every fatal
//! error is pinned by the model. Drawing itself — folding transforms to
//! numbers and talking to the GPU — happens outside the verified core,
//! which hands out [`DrawCall`] values instead.
use vstd::prelude::*;

use crate::boundary::{check_range, range_in_bounds};
use crate::command::{
    decode_commands, spec_decode_all, views_of, CommandView, GpuCommand, ProtocolError,
};
use crate::mesh::{
    empty_mesh_model, model_emit, GpuMesh, MeshModel, TextureRef, MAX_MESH_VERTICES,
};
use crate::registry::{MeshRegistry, TextureRegistry, TextureResource, TextureModel};
use crate::transform::{ModelMatrixStack, TransformOp, TransformOpView};
use crate::vertex::{PrimitiveType, Vertex};

verus! {

/// The depth bound of the interpreter's transform stack.
pub const GPU_STACK_MAX_DEPTH: usize = 64;

/// A fatal interpreter error: a guest or host logic defect that cannot be
/// safely continued past. Execution aborts on the first one.
#[derive(Clone, Copy, Debug, PartialEq, Eq, Structural)]
pub enum ExecError {
    /// Push beyond the transform stack's maximum depth.
    StackOverflow,
    /// Pop at the base of the transform stack.
    StackUnderflow,
    /// A vertex emission into a mesh already holding as many vertices as
    /// 16-bit indices can address.
    MeshFull,
    /// A creation when every ID has been assigned.
    RegistryFull,
}

/// One drawable batch: geometry, the texture to bind, and the transform —
/// the top of the stack at the moment the draw was issued, as the sequence
/// of factors to fold into the model matrix.
#[derive(Debug)]
pub struct DrawCall {
    pub vertices: Vec<Vertex>,
    pub indices: Vec<u16>,
    pub texture: TextureRef,
    pub transform: crate::transform::ModelMatrix,
}

/// The mathematical value of a [`DrawCall`].
#[verifier::ext_equal]
pub struct DrawCallView {
    pub vertices: Seq<Vertex>,
    pub indices: Seq<u16>,
    pub texture: TextureRef,
    pub transform: Seq<TransformOpView>,
}

impl View for DrawCall {
    type V = DrawCallView;

    open spec fn view(&self) -> DrawCallView {
        DrawCallView {
            vertices: self.vertices@,
            indices: self.indices@,
            texture: self.texture,
            transform: self.transform@,
        }
    }
}

/// The views of a sequence of draw calls, in order.
pub open spec fn draw_views(s: Seq<DrawCall>) -> Seq<DrawCallView> {
    s.map_values(|d: DrawCall| d@)
}

/// The interpreter's mathematical state: everything a command can read or
/// change, with the command queue and the emitted draws kept separate.
#[verifier::ext_equal]
pub struct RendererModel {
    pub stack: Seq<Seq<TransformOpView>>,
    pub max_depth: nat,
    pub recordings: Seq<u64>,
    pub meshes: Seq<MeshModel>,
    pub textures: Seq<TextureModel>,
    pub bound: Option<TextureRef>,
    pub immediate: Option<MeshModel>,
}

/// The texture a draw uses: the global binding if one is set, else the
/// mesh's own.
pub open spec fn effective_texture(bound: Option<TextureRef>, mesh: TextureRef) -> TextureRef {
    match bound {
        Some(b) => b,
        None => mesh,
    }
}

/// One interpreter transition: the state after the command and the draw
/// calls it issued, or the fatal error that aborts execution with the state
/// unchanged.
pub open spec fn spec_step(m: RendererModel, c: CommandView) -> Result<
    (RendererModel, Seq<DrawCallView>),
    ExecError,
> {
    match c {
        CommandView::Push => if m.stack.len() >= m.max_depth {
            Err(ExecError::StackOverflow)
        } else {
            Ok((RendererModel { stack: m.stack.push(m.stack.last()), ..m }, Seq::empty()))
        },
        CommandView::Pop => if m.stack.len() <= 1 {
            Err(ExecError::StackUnderflow)
        } else {
            Ok((RendererModel { stack: m.stack.drop_last(), ..m }, Seq::empty()))
        },
        CommandView::PushRecord(kind) => if m.meshes.len() >= u64::MAX {
            Err(ExecError::RegistryFull)
        } else {
            Ok(
                (
                    RendererModel {
                        meshes: m.meshes.push(empty_mesh_model(kind)),
                        recordings: m.recordings.push(m.meshes.len() as u64),
                        ..m
                    },
                    Seq::empty(),
                ),
            )
        },
        CommandView::PopRecord => Ok(
            (
                RendererModel {
                    recordings: if m.recordings.len() > 0 {
                        m.recordings.drop_last()
                    } else {
                        m.recordings
                    },
                    ..m
                },
                Seq::empty(),
            ),
        ),
        CommandView::DrawRecorded(id) => if id < m.meshes.len() {
            let mesh = m.meshes[id as int];
            Ok(
                (
                    m,
                    seq![
                        DrawCallView {
                            vertices: mesh.vertices,
                            indices: mesh.indices,
                            texture: effective_texture(m.bound, mesh.texture),
                            transform: m.stack.last(),
                        },
                    ],
                ),
            )
        } else {
            // resource miss: log-and-skip, never fatal
            Ok((m, Seq::empty()))
        },
        CommandView::EmitVertex(v) => if m.recordings.len() > 0 {
            let id = m.recordings.last();
            if id < m.meshes.len() {
                let mesh = m.meshes[id as int];
                if mesh.vertices.len() >= MAX_MESH_VERTICES as nat {
                    Err(ExecError::MeshFull)
                } else {
                    let bound_mesh = MeshModel {
                        texture: effective_texture(m.bound, mesh.texture),
                        ..mesh
                    };
                    Ok(
                        (
                            RendererModel {
                                meshes: m.meshes.update(id as int, model_emit(bound_mesh, v)),
                                ..m
                            },
                            Seq::empty(),
                        ),
                    )
                }
            } else {
                Ok((m, Seq::empty()))
            }
        } else {
            let im = match m.immediate {
                Some(im) => im,
                None => MeshModel {
                    texture: effective_texture(m.bound, TextureRef::Missing),
                    ..empty_mesh_model(PrimitiveType::Triangles)
                },
            };
            if im.vertices.len() >= MAX_MESH_VERTICES as nat {
                Err(ExecError::MeshFull)
            } else {
                Ok(
                    (
                        RendererModel { immediate: Some(model_emit(im, v)), ..m },
                        Seq::empty(),
                    ),
                )
            }
        },
        CommandView::BindTexture(id) => {
            let resolved = if id < m.textures.len() {
                TextureRef::Id(id as u64)
            } else {
                TextureRef::Missing
            };
            if m.recordings.len() > 0 {
                let rid = m.recordings.last();
                if rid < m.meshes.len() {
                    Ok(
                        (
                            RendererModel {
                                meshes: m.meshes.update(
                                    rid as int,
                                    MeshModel { texture: resolved, ..m.meshes[rid as int] },
                                ),
                                ..m
                            },
                            Seq::empty(),
                        ),
                    )
                } else {
                    Ok((m, Seq::empty()))
                }
            } else {
                Ok((RendererModel { bound: Some(resolved), ..m }, Seq::empty()))
            }
        },
        CommandView::RegisterTexture { w, h, rgba } => if m.textures.len() >= u64::MAX {
            Err(ExecError::RegistryFull)
        } else {
            Ok(
                (
                    RendererModel {
                        textures: m.textures.push(
                            TextureModel { width: w, height: h, rgba },
                        ),
                        ..m
                    },
                    Seq::empty(),
                ),
            )
        },
        CommandView::Translate { x, y, z } => Ok(
            (apply_to_top(m, TransformOpView::Translate { x, y, z }), Seq::empty()),
        ),
        CommandView::RotateAxis { x, y, z, angle } => Ok(
            (apply_to_top(m, TransformOpView::RotateAxis { x, y, z, angle }), Seq::empty()),
        ),
        CommandView::RotateEuler { yaw, pitch, roll } => Ok(
            (apply_to_top(m, TransformOpView::RotateEuler { yaw, pitch, roll }), Seq::empty()),
        ),
        CommandView::Scale { x, y, z } => Ok(
            (apply_to_top(m, TransformOpView::Scale { x, y, z }), Seq::empty()),
        ),
        CommandView::LoadMatrix(cols) => Ok(
            (
                RendererModel {
                    stack: m.stack.update(
                        m.stack.len() - 1,
                        seq![TransformOpView::Mul { cols }],
                    ),
                    ..m
                },
                Seq::empty(),
            ),
        ),
        CommandView::MulMatrix(cols) => Ok(
            (apply_to_top(m, TransformOpView::Mul { cols }), Seq::empty()),
        ),
        CommandView::Identity => Ok(
            (
                RendererModel {
                    stack: m.stack.update(m.stack.len() - 1, Seq::<TransformOpView>::empty()),
                    ..m
                },
                Seq::empty(),
            ),
        ),
    }
}

/// Right-multiply the top of the model's transform stack by one factor.
pub open spec fn apply_to_top(m: RendererModel, op: TransformOpView) -> RendererModel {
    RendererModel { stack: m.stack.update(m.stack.len() - 1, m.stack.last().push(op)), ..m }
}

/// Execution of a whole command sequence: the state where it stopped, the
/// draw calls issued so far, and the first fatal error if one occurred.
pub open spec fn spec_run(m: RendererModel, cs: Seq<CommandView>) -> (
    RendererModel,
    Seq<DrawCallView>,
    Option<ExecError>,
)
    decreases cs.len(),
{
    if cs.len() == 0 {
        (m, Seq::empty(), None)
    } else {
        match spec_step(m, cs[0]) {
            Err(e) => (m, Seq::empty(), Some(e)),
            Ok((m1, ds1)) => {
                let (m2, ds2, err) = spec_run(m1, cs.skip(1));
                (m2, ds1 + ds2, err)
            },
        }
    }
}

/// End-of-pass behavior after the queue drains: the implicit immediate-mode
/// mesh, if any, is drawn once under the current top transform and
/// discarded, and the bound-texture slot resets to none.
pub open spec fn spec_finish(m: RendererModel) -> (RendererModel, Seq<DrawCallView>) {
    let cleared = RendererModel { bound: None, immediate: None, ..m };
    match m.immediate {
        None => (cleared, Seq::empty()),
        Some(im) => (
            cleared,
            seq![
                DrawCallView {
                    vertices: im.vertices,
                    indices: im.indices,
                    texture: im.texture,
                    transform: m.stack.last(),
                },
            ],
        ),
    }
}

/// A `Push` command followed by a `Pop` leaves the interpreter state
/// exactly as it was — stack depth and top transform included — whatever
/// the prior state, provided the stack has room for the push; at the depth
/// bound the push itself is the fatal error, and a pop at the base is too.
pub proof fn lemma_push_pop_round_trip(m: RendererModel)
    requires
        1 <= m.stack.len(),
    ensures
        m.stack.len() < m.max_depth ==> spec_run(m, seq![CommandView::Push, CommandView::Pop])
            == (m, Seq::<DrawCallView>::empty(), None::<ExecError>),
        m.stack.len() >= m.max_depth ==> spec_run(m, seq![CommandView::Push, CommandView::Pop]).2
            == Some(ExecError::StackOverflow),
        m.stack.len() == 1 ==> spec_run(m, seq![CommandView::Pop]).2 == Some(
            ExecError::StackUnderflow,
        ),
{
    let cs = seq![CommandView::Push, CommandView::Pop];
    assert(cs[0] == CommandView::Push);
    assert(cs.skip(1) =~= seq![CommandView::Pop]);
    assert(seq![CommandView::Pop][0] == CommandView::Pop);
    assert(seq![CommandView::Pop].skip(1) =~= Seq::<CommandView>::empty());
    if m.stack.len() < m.max_depth {
        let m1 = spec_step(m, CommandView::Push)->Ok_0.0;
        assert(m1.stack == m.stack.push(m.stack.last()));
        assert(m1.stack.len() == m.stack.len() + 1);
        let m2 = spec_step(m1, CommandView::Pop)->Ok_0.0;
        assert(m2.stack =~~= m.stack);
        assert(m2 =~~= m);
        assert(spec_run(m2, Seq::<CommandView>::empty()).1 =~= Seq::<DrawCallView>::empty());
        assert(spec_run(m1, seq![CommandView::Pop]).1 =~= Seq::<DrawCallView>::empty());
        assert(spec_run(m, cs).1 =~= Seq::<DrawCallView>::empty());
    }
}

/// The command interpreter and its state: the queue, the transform stack,
/// the recording stack, the bound-texture slot, the implicit immediate-mode
/// mesh, and the two resource registries.
#[derive(Debug)]
pub struct GpuRenderer {
    pub queue: Vec<GpuCommand>,
    pub stack: ModelMatrixStack,
    pub recordings: Vec<u64>,
    pub bound_texture: Option<TextureRef>,
    pub immediate_mesh: Option<GpuMesh>,
    pub meshes: MeshRegistry,
    pub textures: TextureRegistry,
}

impl GpuRenderer {
    /// The interpreter's mathematical state; the queue is kept separate.
    pub open spec fn model(self) -> RendererModel {
        RendererModel {
            stack: self.stack@,
            max_depth: self.stack.spec_max_depth() as nat,
            recordings: self.recordings@,
            meshes: self.meshes@.map_values(|m: GpuMesh| m@),
            textures: self.textures@.map_values(|t: TextureResource| t@),
            bound: self.bound_texture,
            immediate: match self.immediate_mesh {
                Some(m) => Some(m@),
                None => None,
            },
        }
    }

    /// The interpreter invariant: well-formed stack and registries, every
    /// open recording naming a created mesh, a well-formed immediate-mode
    /// mesh grouped as triangles, and well-formed queued commands.
    pub open spec fn wf(self) -> bool {
        &&& self.stack.wf()
        &&& self.meshes.wf()
        &&& self.textures.wf()
        &&& forall|i: int|
            0 <= i < self.recordings@.len() ==> (#[trigger] self.recordings@[i])
                < self.meshes@.len()
        &&& match self.immediate_mesh {
            Some(m) => m.wf() && m.primitive_type == PrimitiveType::Triangles,
            None => true,
        }
        &&& forall|i: int| 0 <= i < self.queue@.len() ==> (#[trigger] self.queue@[i]).wf()
    }

    /// A fresh interpreter around the given fallback texture: empty queue,
    /// one identity transform, no recordings, nothing bound.
    pub fn new(missing: TextureResource) -> (r: GpuRenderer)
        requires
            missing.wf(),
        ensures
            r.wf(),
            r.queue@.len() == 0,
            r.model() == (RendererModel {
                stack: seq![Seq::<TransformOpView>::empty()],
                max_depth: GPU_STACK_MAX_DEPTH as nat,
                recordings: Seq::empty(),
                meshes: Seq::empty(),
                textures: Seq::empty(),
                bound: None,
                immediate: None,
            }),
            r.textures.spec_missing() == missing,
    {
        let r = GpuRenderer {
            queue: Vec::new(),
            stack: ModelMatrixStack::new(GPU_STACK_MAX_DEPTH),
            recordings: Vec::new(),
            bound_texture: None,
            immediate_mesh: None,
            meshes: MeshRegistry::new(),
            textures: TextureRegistry::new(missing),
        };
        proof {
            assert(r.model() =~~= (RendererModel {
                stack: seq![Seq::<TransformOpView>::empty()],
                max_depth: GPU_STACK_MAX_DEPTH as nat,
                recordings: Seq::empty(),
                meshes: Seq::empty(),
                textures: Seq::empty(),
                bound: None,
                immediate: None,
            }));
        }
        r
    }

    /// Enqueue one decoded command for the next execution pass.
    pub fn queue_command(&mut self, command: GpuCommand)
        requires
            old(self).wf(),
            command.wf(),
        ensures
            final(self).wf(),
            final(self).queue@ == old(self).queue@.push(command),
            final(self).model() == old(self).model(),
    {
        self.queue.push(command);
    }

    /// Decode a submission from the guest memory range `[ptr, ptr + count)`
    /// and enqueue every decoded command.
    ///
    /// An out-of-bounds range is refused outright: nothing is read and
    /// `Ok(false)` documents the no-op. A protocol error rejects the whole
    /// submission and enqueues nothing.
    pub fn submit(&mut self, mem: &[u8], ptr: u32, count: u32) -> (r: Result<bool, ProtocolError>)
        requires
            old(self).wf(),
        ensures
            final(self).wf(),
            final(self).model() == old(self).model(),
            !range_in_bounds(mem@.len() as nat, ptr, count) ==> r == Ok::<bool, ProtocolError>(
                false,
            ) && final(self).queue@ == old(self).queue@,
            range_in_bounds(mem@.len() as nat, ptr, count) ==> (match spec_decode_all(
                mem@.subrange(ptr as int, ptr as int + count as int),
            ) {
                Ok(cs) => r == Ok::<bool, ProtocolError>(true) && views_of(final(self).queue@)
                    == views_of(old(self).queue@) + cs,
                Err(e) => r == Err::<bool, ProtocolError>(e) && final(self).queue@ == old(
                    self,
                ).queue@,
            }),
    {
        let mlen = mem.len();
        if !check_range(mlen, ptr, count) {
            return Ok(false);
        }
        let bytes = vstd::slice::slice_subrange(mem, ptr as usize, ptr as usize + count as usize);
        match decode_commands(bytes) {
            Ok(mut cmds) => {
                proof {
                    assert(views_of(self.queue@ + cmds@) =~= views_of(self.queue@) + views_of(
                        cmds@,
                    ));
                }
                self.queue.append(&mut cmds);
                Ok(true)
            },
            Err(e) => Err(e),
        }
    }

    /// Execute one command against the interpreter state, appending any
    /// issued draw calls — exactly the transition [`spec_step`] describes.
    /// On a fatal error nothing has changed.
    fn step(&mut self, command: GpuCommand, draws: &mut Vec<DrawCall>) -> (r: Result<
        (),
        ExecError,
    >)
        requires
            old(self).wf(),
            command.wf(),
        ensures
            final(self).wf(),
            final(self).queue@ == old(self).queue@,
            match r {
                Ok(()) => spec_step(old(self).model(), command@) is Ok && final(self).model()
                    == spec_step(old(self).model(), command@)->Ok_0.0 && draw_views(
                    final(draws)@,
                ) == draw_views(old(draws)@) + spec_step(old(self).model(), command@)->Ok_0.1,
                Err(e) => spec_step(old(self).model(), command@) == Err::<
                    (RendererModel, Seq<DrawCallView>),
                    ExecError,
                >(e) && *final(self) == *old(self) && final(draws)@ == old(draws)@,
            },
    {
        match command {
            GpuCommand::Push => {
                if self.stack.depth() == self.stack.max_depth() {
                    return Err(ExecError::StackOverflow);
                }
                self.stack.push();
                proof {
                    assert(self.model() =~~= spec_step(old(self).model(), command@)->Ok_0.0);
                    assert(draw_views(draws@) =~= draw_views(old(draws)@) + Seq::<
                        DrawCallView,
                    >::empty());
                }
                Ok(())
            },
            GpuCommand::Pop => {
                if self.stack.depth() == 1 {
                    return Err(ExecError::StackUnderflow);
                }
                self.stack.pop();
                proof {
                    assert(self.model() =~~= spec_step(old(self).model(), command@)->Ok_0.0);
                    assert(draw_views(draws@) =~= draw_views(old(draws)@) + Seq::<
                        DrawCallView,
                    >::empty());
                }
                Ok(())
            },
            GpuCommand::PushRecord(kind) => {
                let n = self.meshes.len();
                if n as u64 == u64::MAX {
                    return Err(ExecError::RegistryFull);
                }
                let id = self.meshes.create_mesh(kind);
                self.recordings.push(id);
                proof {
                    assert(self.model().meshes =~~= spec_step(
                        old(self).model(),
                        command@,
                    )->Ok_0.0.meshes);
                    assert(self.model() =~~= spec_step(old(self).model(), command@)->Ok_0.0);
                    assert(draw_views(draws@) =~= draw_views(old(draws)@) + Seq::<
                        DrawCallView,
                    >::empty());
                }
                Ok(())
            },
            GpuCommand::PopRecord => {
                if self.recordings.len() > 0 {
                    self.recordings.pop();
                }
                proof {
                    assert(self.model() =~~= spec_step(old(self).model(), command@)->Ok_0.0);
                    assert(draw_views(draws@) =~= draw_views(old(draws)@) + Seq::<
                        DrawCallView,
                    >::empty());
                }
                Ok(())
            },
            GpuCommand::DrawRecorded(id) => {
                match self.meshes.find_mesh(id as u64) {
                    Some(mesh) => {
                        let copy = mesh.duplicate();
                        let texture = match self.bound_texture {
                            Some(b) => b,
                            None => copy.texture,
                        };
                        let transform = self.stack.top().duplicate();
                        let call = DrawCall {
                            vertices: copy.vertices,
                            indices: copy.indices,
                            texture,
                            transform,
                        };
                        draws.push(call);
                        proof {
                            assert(draw_views(draws@) =~~= draw_views(old(draws)@) + spec_step(
                                old(self).model(),
                                command@,
                            )->Ok_0.1);
                        }
                        Ok(())
                    },
                    None => {
                        proof {
                            assert(draw_views(draws@) =~= draw_views(old(draws)@) + Seq::<
                                DrawCallView,
                            >::empty());
                        }
                        Ok(())
                    },
                }
            },
            GpuCommand::EmitVertex(v) => {
                if self.recordings.len() > 0 {
                    let id = self.recordings[self.recordings.len() - 1];
                    let is_full = match self.meshes.find_mesh(id) {
                        Some(m) => m.vertices.len() == MAX_MESH_VERTICES,
                        None => false,
                    };
                    if is_full {
                        return Err(ExecError::MeshFull);
                    }
                    match self.bound_texture {
                        Some(b) => self.meshes.set_mesh_texture(id, b),
                        None => {},
                    }
                    let emitted = self.meshes.emit_vertex(id, v);
                    proof {
                        assert(emitted);
                        assert(self.model().meshes =~~= spec_step(
                            old(self).model(),
                            command@,
                        )->Ok_0.0.meshes);
                        assert(self.model() =~~= spec_step(old(self).model(), command@)->Ok_0.0);
                        assert(draw_views(draws@) =~= draw_views(old(draws)@) + Seq::<
                            DrawCallView,
                        >::empty());
                    }
                    Ok(())
                } else {
                    let is_full = match &self.immediate_mesh {
                        Some(m) => m.vertices.len() == MAX_MESH_VERTICES,
                        None => false,
                    };
                    if is_full {
                        return Err(ExecError::MeshFull);
                    }
                    if self.immediate_mesh.is_none() {
                        let texture = match self.bound_texture {
                            Some(b) => b,
                            None => TextureRef::Missing,
                        };
                        let mut fresh = GpuMesh::new(PrimitiveType::Triangles);
                        fresh.texture = texture;
                        self.immediate_mesh = Some(fresh);
                    }
                    match &mut self.immediate_mesh {
                        Some(m) => {
                            let emitted = m.emit(v);
                            proof {
                                assert(emitted);
                            }
                        },
                        None => {},
                    }
                    proof {
                        assert(self.model() =~~= spec_step(old(self).model(), command@)->Ok_0.0);
                        assert(draw_views(draws@) =~= draw_views(old(draws)@) + Seq::<
                            DrawCallView,
                        >::empty());
                    }
                    Ok(())
                }
            },
            GpuCommand::BindTexture(id) => {
                let n = self.textures.len();
                let resolved = if (id as u64) < n as u64 {
                    TextureRef::Id(id as u64)
                } else {
                    TextureRef::Missing
                };
                if self.recordings.len() > 0 {
                    let rid = self.recordings[self.recordings.len() - 1];
                    self.meshes.set_mesh_texture(rid, resolved);
                    proof {
                        assert(self.model().meshes =~~= spec_step(
                            old(self).model(),
                            command@,
                        )->Ok_0.0.meshes);
                        assert(self.model() =~~= spec_step(old(self).model(), command@)->Ok_0.0);
                    }
                } else {
                    self.bound_texture = Some(resolved);
                    proof {
                        assert(self.model() =~~= spec_step(old(self).model(), command@)->Ok_0.0);
                    }
                }
                proof {
                    assert(draw_views(draws@) =~= draw_views(old(draws)@) + Seq::<
                        DrawCallView,
                    >::empty());
                }
                Ok(())
            },
            GpuCommand::RegisterTexture { w, h, rgba } => {
                let n = self.textures.len();
                if n as u64 == u64::MAX {
                    return Err(ExecError::RegistryFull);
                }
                let _ = self.textures.create_texture(w, h, rgba);
                proof {
                    assert(self.model().textures =~~= spec_step(
                        old(self).model(),
                        command@,
                    )->Ok_0.0.textures);
                    assert(self.model() =~~= spec_step(old(self).model(), command@)->Ok_0.0);
                    assert(draw_views(draws@) =~= draw_views(old(draws)@) + Seq::<
                        DrawCallView,
                    >::empty());
                }
                Ok(())
            },
            GpuCommand::Translate { x, y, z } => {
                self.stack.apply(TransformOp::Translate { x, y, z });
                proof {
                    assert(self.model() =~~= spec_step(old(self).model(), command@)->Ok_0.0);
                    assert(draw_views(draws@) =~= draw_views(old(draws)@) + Seq::<
                        DrawCallView,
                    >::empty());
                }
                Ok(())
            },
            GpuCommand::RotateAxis { x, y, z, angle } => {
                self.stack.apply(TransformOp::RotateAxis { x, y, z, angle });
                proof {
                    assert(self.model() =~~= spec_step(old(self).model(), command@)->Ok_0.0);
                    assert(draw_views(draws@) =~= draw_views(old(draws)@) + Seq::<
                        DrawCallView,
                    >::empty());
                }
                Ok(())
            },
            GpuCommand::RotateEuler { yaw, pitch, roll } => {
                self.stack.apply(TransformOp::RotateEuler { yaw, pitch, roll });
                proof {
                    assert(self.model() =~~= spec_step(old(self).model(), command@)->Ok_0.0);
                    assert(draw_views(draws@) =~= draw_views(old(draws)@) + Seq::<
                        DrawCallView,
                    >::empty());
                }
                Ok(())
            },
            GpuCommand::Scale { x, y, z } => {
                self.stack.apply(TransformOp::Scale { x, y, z });
                proof {
                    assert(self.model() =~~= spec_step(old(self).model(), command@)->Ok_0.0);
                    assert(draw_views(draws@) =~= draw_views(old(draws)@) + Seq::<
                        DrawCallView,
                    >::empty());
                }
                Ok(())
            },
            GpuCommand::LoadMatrix(cols) => {
                self.stack.set_top_from_cols(cols);
                proof {
                    assert(self.model() =~~= spec_step(old(self).model(), command@)->Ok_0.0);
                    assert(draw_views(draws@) =~= draw_views(old(draws)@) + Seq::<
                        DrawCallView,
                    >::empty());
                }
                Ok(())
            },
            GpuCommand::MulMatrix(cols) => {
                self.stack.mul_top_by_cols(cols);
                proof {
                    assert(self.model() =~~= spec_step(old(self).model(), command@)->Ok_0.0);
                    assert(draw_views(draws@) =~= draw_views(old(draws)@) + Seq::<
                        DrawCallView,
                    >::empty());
                }
                Ok(())
            },
            GpuCommand::Identity => {
                self.stack.set_top_identity();
                proof {
                    assert(self.model() =~~= spec_step(old(self).model(), command@)->Ok_0.0);
                    assert(draw_views(draws@) =~= draw_views(old(draws)@) + Seq::<
                        DrawCallView,
                    >::empty());
                }
                Ok(())
            },
        }
    }

    /// Drain the queue, executing every command in submission order, and
    /// return the draw calls of this pass — exactly the fold [`spec_run`]
    /// describes, finished by [`spec_finish`]: the immediate-mode mesh is
    /// drawn once and discarded, and the texture binding resets.
    ///
    /// The first fatal error aborts the pass with the state exactly where
    /// the fold stopped; the queue is drained either way.
    pub fn execute_commands(&mut self) -> (r: Result<Vec<DrawCall>, ExecError>)
        requires
            old(self).wf(),
        ensures
            final(self).wf(),
            final(self).queue@.len() == 0,
            ({
                let (m_end, ds, err) = spec_run(old(self).model(), views_of(old(self).queue@));
                match r {
                    Ok(dc) => {
                        &&& err is None
                        &&& final(self).model() == spec_finish(m_end).0
                        &&& draw_views(dc@) == ds + spec_finish(m_end).1
                    },
                    Err(e) => {
                        &&& err == Some(e)
                        &&& final(self).model() == m_end
                    },
                }
            }),
    {
        let mut q: Vec<GpuCommand> = Vec::new();
        core::mem::swap(&mut q, &mut self.queue);
        let mut draws: Vec<DrawCall> = Vec::new();
        let ghost m0 = self.model();
        let ghost full = views_of(q@);
        proof {
            assert(m0 =~~= old(self).model());
            assert(full =~= views_of(old(self).queue@));
            assert(views_of(q@) =~= full);
            assert(draw_views(draws@) =~= Seq::<DrawCallView>::empty());
        }
        while q.len() > 0
            invariant
                self.wf(),
                self.queue@.len() == 0,
                m0 == old(self).model(),
                full == views_of(old(self).queue@),
                forall|i: int| 0 <= i < q@.len() ==> (#[trigger] q@[i]).wf(),
                spec_run(m0, full).0 == spec_run(self.model(), views_of(q@)).0,
                spec_run(m0, full).1 == draw_views(draws@) + spec_run(
                    self.model(),
                    views_of(q@),
                ).1,
                spec_run(m0, full).2 == spec_run(self.model(), views_of(q@)).2,
            decreases q@.len(),
        {
            let ghost pre_q = q@;
            let ghost pre_model = self.model();
            let ghost pre_draws = draws@;
            let cmd = q.remove(0);
            proof {
                assert(views_of(pre_q) =~= seq![cmd@] + views_of(q@));
                assert((seq![cmd@] + views_of(q@))[0] == cmd@);
                assert((seq![cmd@] + views_of(q@)).skip(1) =~= views_of(q@));
            }
            match self.step(cmd, &mut draws) {
                Ok(()) => {
                    proof {
                        let ds1 = spec_step(pre_model, cmd@)->Ok_0.1;
                        assert(draw_views(draws@) =~= draw_views(pre_draws) + ds1);
                        assert(spec_run(m0, full).1 =~= draw_views(draws@) + spec_run(
                            self.model(),
                            views_of(q@),
                        ).1);
                    }
                },
                Err(e) => {
                    proof {
                        assert(views_of(pre_q)[0] == cmd@);
                        assert(spec_step(pre_model, cmd@) == Err::<
                            (RendererModel, Seq<DrawCallView>),
                            ExecError,
                        >(e));
                        assert(spec_run(pre_model, views_of(pre_q)) == (
                            pre_model,
                            Seq::<DrawCallView>::empty(),
                            Some(e),
                        ));
                        assert(self.model() == pre_model);
                        assert(spec_run(m0, full).2 == Some(e));
                        assert(spec_run(m0, full).0 == pre_model);
                        assert(m0 == old(self).model());
                        assert(full == views_of(old(self).queue@));
                    }
                    return Err(e);
                },
            }
        }
        proof {
            assert(views_of(q@) =~= Seq::<CommandView>::empty());
            assert(spec_run(m0, full).0 == self.model());
            assert(spec_run(m0, full).1 =~= draw_views(draws@));
            assert(spec_run(m0, full).2 is None);
        }
        let ghost m_end = self.model();
        match self.immediate_mesh.take() {
            Some(im) => {
                let transform = self.stack.top().duplicate();
                let call = DrawCall {
                    vertices: im.vertices,
                    indices: im.indices,
                    texture: im.texture,
                    transform,
                };
                draws.push(call);
            },
            None => {},
        }
        self.bound_texture = None;
        proof {
            assert(self.model() =~~= spec_finish(m_end).0);
            assert(draw_views(draws@) =~= spec_run(m0, full).1 + spec_finish(m_end).1);
        }
        Ok(draws)
    }
}

} // verus!
