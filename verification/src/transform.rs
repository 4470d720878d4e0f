//! The model-matrix stack: a bounded stack of model transforms with
//! copy-on-push semantics, mutated only at the top.
//!
//! A model transform is kept as the ordered sequence of factors the guest
//! right-multiplied onto it — an empty sequence is the identity, `load`
//! replaces the whole sequence. Scalar payloads are 32-bit float bit
//! patterns; the numeric 4x4 product is folded outside the verified core,
//! where the geometry is consumed, so the core carries the factors exactly.
use vstd::prelude::*;

verus! {

/// One multiplicative factor of a model transform, as the guest submitted
/// it; scalars are float bit patterns, `Mul` holds a column-major matrix.
#[derive(Clone, Copy, Debug)]
pub enum TransformOp {
    Translate { x: u32, y: u32, z: u32 },
    RotateAxis { x: u32, y: u32, z: u32, angle: u32 },
    RotateEuler { yaw: u32, pitch: u32, roll: u32 },
    Scale { x: u32, y: u32, z: u32 },
    Mul { cols: [u32; 16] },
}

/// The mathematical value of a [`TransformOp`]: matrices become sequences.
pub enum TransformOpView {
    Translate { x: u32, y: u32, z: u32 },
    RotateAxis { x: u32, y: u32, z: u32, angle: u32 },
    RotateEuler { yaw: u32, pitch: u32, roll: u32 },
    Scale { x: u32, y: u32, z: u32 },
    Mul { cols: Seq<u32> },
}

impl View for TransformOp {
    type V = TransformOpView;

    open spec fn view(&self) -> TransformOpView {
        match *self {
            TransformOp::Translate { x, y, z } => TransformOpView::Translate { x, y, z },
            TransformOp::RotateAxis { x, y, z, angle } => TransformOpView::RotateAxis {
                x,
                y,
                z,
                angle,
            },
            TransformOp::RotateEuler { yaw, pitch, roll } => TransformOpView::RotateEuler {
                yaw,
                pitch,
                roll,
            },
            TransformOp::Scale { x, y, z } => TransformOpView::Scale { x, y, z },
            TransformOp::Mul { cols } => TransformOpView::Mul { cols: cols@ },
        }
    }
}

/// A model transform: the product of its factors, left to right, starting
/// from the identity. No factors means the identity itself.
#[derive(Debug)]
pub struct ModelMatrix {
    pub ops: Vec<TransformOp>,
}

impl View for ModelMatrix {
    type V = Seq<TransformOpView>;

    open spec fn view(&self) -> Seq<TransformOpView> {
        self.ops@.map_values(|op: TransformOp| op@)
    }
}

impl ModelMatrix {
    /// The identity transform: no factors.
    pub fn identity() -> (r: ModelMatrix)
        ensures
            r@ == Seq::<TransformOpView>::empty(),
    {
        let r = ModelMatrix { ops: Vec::new() };
        proof {
            assert(r@ =~= Seq::<TransformOpView>::empty());
        }
        r
    }

    /// An exact copy of this transform.
    pub fn duplicate(&self) -> (r: ModelMatrix)
        ensures
            r@ == self@,
    {
        let mut ops: Vec<TransformOp> = Vec::new();
        let len = self.ops.len();
        for i in 0..len
            invariant
                len == self.ops@.len(),
                ops@ == self.ops@.take(i as int),
        {
            ops.push(self.ops[i]);
            proof {
                assert(ops@ =~= self.ops@.take(i as int + 1));
            }
        }
        proof {
            assert(self.ops@.take(len as int) =~= self.ops@);
        }
        ModelMatrix { ops }
    }
}

/// The stack of model transforms: the bottom is always present (identity at
/// initialization), only the top is mutated, and the depth stays within
/// `[1, max_depth]` — the interpreter refuses pushes and pops that would
/// leave that range before they reach the stack.
#[derive(Debug)]
pub struct ModelMatrixStack {
    stack: Vec<ModelMatrix>,
    max_depth: usize,
}

impl View for ModelMatrixStack {
    type V = Seq<Seq<TransformOpView>>;

    closed spec fn view(&self) -> Seq<Seq<TransformOpView>> {
        self.stack@.map_values(|m: ModelMatrix| m@)
    }
}

impl ModelMatrixStack {
    /// The configured depth bound.
    pub closed spec fn spec_max_depth(self) -> usize {
        self.max_depth
    }

    /// Depth within bounds, bottom always present.
    pub open spec fn wf(self) -> bool {
        1 <= self@.len() <= self.spec_max_depth()
    }

    /// A fresh stack holding one identity transform.
    pub fn new(max_depth: usize) -> (r: ModelMatrixStack)
        requires
            max_depth >= 1,
        ensures
            r.wf(),
            r.spec_max_depth() == max_depth,
            r@ == seq![Seq::<TransformOpView>::empty()],
    {
        let mut stack: Vec<ModelMatrix> = Vec::new();
        stack.push(ModelMatrix::identity());
        let r = ModelMatrixStack { stack, max_depth };
        proof {
            assert(r@ =~~= seq![Seq::<TransformOpView>::empty()]);
        }
        r
    }

    /// Current depth.
    pub fn depth(&self) -> (n: usize)
        ensures
            n == self@.len(),
    {
        self.stack.len()
    }

    /// The configured depth bound.
    pub fn max_depth(&self) -> (n: usize)
        ensures
            n == self.spec_max_depth(),
    {
        self.max_depth
    }

    /// Duplicate the current top (copy-on-push). The caller rules out pushes
    /// beyond the depth bound; they are fatal usage errors.
    pub fn push(&mut self)
        requires
            old(self).wf(),
            old(self)@.len() < old(self).spec_max_depth(),
        ensures
            final(self).wf(),
            final(self).spec_max_depth() == old(self).spec_max_depth(),
            final(self)@ == old(self)@.push(old(self)@.last()),
    {
        let top = self.stack.len() - 1;
        let dup = self.stack[top].duplicate();
        self.stack.push(dup);
        proof {
            assert(self@ =~~= old(self)@.push(old(self)@.last()));
        }
    }

    /// Remove the top. The caller rules out pops at depth 1; they are fatal
    /// usage errors.
    pub fn pop(&mut self)
        requires
            old(self).wf(),
            old(self)@.len() > 1,
        ensures
            final(self).wf(),
            final(self).spec_max_depth() == old(self).spec_max_depth(),
            final(self)@ == old(self)@.drop_last(),
    {
        let _ = self.stack.pop();
        proof {
            assert(self@ =~~= old(self)@.drop_last());
        }
    }

    /// Read the current top.
    pub fn top(&self) -> (r: &ModelMatrix)
        requires
            self.wf(),
        ensures
            r@ == self@.last(),
    {
        let top = self.stack.len() - 1;
        &self.stack[top]
    }

    /// Append one factor to the top transform.
    pub fn apply(&mut self, op: TransformOp)
        requires
            old(self).wf(),
        ensures
            final(self).wf(),
            final(self).spec_max_depth() == old(self).spec_max_depth(),
            final(self)@ == old(self)@.update(
                old(self)@.len() - 1,
                old(self)@.last().push(op@),
            ),
    {
        let top = self.stack.len() - 1;
        let m = vstd::std_specs::vec::vec_index_mut(&mut self.stack, top);
        m.ops.push(op);
        proof {
            assert(self@ =~~= old(self)@.update(
                old(self)@.len() - 1,
                old(self)@.last().push(op@),
            ));
        }
    }

    /// Replace the top outright with the given column-major matrix.
    pub fn set_top_from_cols(&mut self, cols: [u32; 16])
        requires
            old(self).wf(),
        ensures
            final(self).wf(),
            final(self).spec_max_depth() == old(self).spec_max_depth(),
            final(self)@ == old(self)@.update(
                old(self)@.len() - 1,
                seq![TransformOpView::Mul { cols: cols@ }],
            ),
    {
        let top = self.stack.len() - 1;
        let m = vstd::std_specs::vec::vec_index_mut(&mut self.stack, top);
        m.ops = Vec::new();
        m.ops.push(TransformOp::Mul { cols });
        proof {
            assert(self@ =~~= old(self)@.update(
                old(self)@.len() - 1,
                seq![TransformOpView::Mul { cols: cols@ }],
            ));
        }
    }

    /// Right-multiply the top by the given column-major matrix.
    pub fn mul_top_by_cols(&mut self, cols: [u32; 16])
        requires
            old(self).wf(),
        ensures
            final(self).wf(),
            final(self).spec_max_depth() == old(self).spec_max_depth(),
            final(self)@ == old(self)@.update(
                old(self)@.len() - 1,
                old(self)@.last().push(TransformOpView::Mul { cols: cols@ }),
            ),
    {
        self.apply(TransformOp::Mul { cols });
    }

    /// Reset the top to the identity.
    pub fn set_top_identity(&mut self)
        requires
            old(self).wf(),
        ensures
            final(self).wf(),
            final(self).spec_max_depth() == old(self).spec_max_depth(),
            final(self)@ == old(self)@.update(
                old(self)@.len() - 1,
                Seq::<TransformOpView>::empty(),
            ),
    {
        let top = self.stack.len() - 1;
        let m = vstd::std_specs::vec::vec_index_mut(&mut self.stack, top);
        m.ops = Vec::new();
        proof {
            assert(self@ =~~= old(self)@.update(
                old(self)@.len() - 1,
                Seq::<TransformOpView>::empty(),
            ));
        }
    }
}

/// A push followed by a pop leaves the stack — its depth and its top
/// transform in particular — exactly as it was, whatever the prior state.
pub proof fn lemma_push_pop_identity(s: Seq<Seq<TransformOpView>>)
    requires
        s.len() >= 1,
    ensures
        s.push(s.last()).drop_last() == s,
        s.push(s.last()).drop_last().len() == s.len(),
        s.push(s.last()).drop_last().last() == s.last(),
{
    assert(s.push(s.last()).drop_last() =~= s);
}

} // verus!
