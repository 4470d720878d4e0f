//! Single-owner mutable container with an explicit, checked exclusive-access
//! scope.
//!
//! A [`FastCell`] wraps one value and hands out exclusive mutable access to
//! it one scope at a time. A scope is opened with [`FastCell::begin_access`],
//! which moves the value out, and closed with [`FastCell::end_access`], which
//! moves it back in; opening a second scope while one is open fails fast
//! instead of aliasing the value. [`FastCell::get_mut`] gives direct mutable
//! access where the caller structurally holds the only handle, and
//! [`FastCell::into_inner`] unwraps the value when no scope is open.
use vstd::prelude::*;

verus! {

/// A value together with a reentrancy guard for exclusive-access scopes.
#[derive(Debug)]
pub struct FastCell<T> {
    value: Option<T>,
    open: bool,
}

impl<T> FastCell<T> {
    /// True while an exclusive-access scope is open on this cell.
    pub closed spec fn is_open(self) -> bool {
        self.open
    }

    /// The value currently stored in the cell; `None` while a scope holds it.
    pub closed spec fn contents(self) -> Option<T> {
        self.value
    }

    /// The cell stores a value exactly when no scope is open.
    pub open spec fn wf(self) -> bool {
        self.is_open() <==> self.contents() is None
    }

    /// Spec-level effect of opening an exclusive-access scope: the new cell
    /// state paired with the value taken out (`None` when the open failed).
    pub closed spec fn spec_begin(self) -> (FastCell<T>, Option<T>) {
        if self.open {
            (self, None)
        } else {
            (FastCell { value: None, open: true }, self.value)
        }
    }

    /// Spec-level effect of closing the open scope with `value`.
    pub closed spec fn spec_end(self, value: T) -> FastCell<T> {
        FastCell { value: Some(value), open: false }
    }

    /// Wrap a value in a new cell with no scope open.
    pub fn new(value: T) -> (cell: FastCell<T>)
        ensures
            cell.wf(),
            !cell.is_open(),
            cell.contents() == Some(value),
    {
        FastCell { value: Some(value), open: false }
    }

    /// Open an exclusive-access scope: take the value out of the cell until
    /// [`FastCell::end_access`] returns it. While a scope is already open
    /// this fails fast, returns `None` and leaves the cell unchanged.
    pub fn begin_access(&mut self) -> (taken: Option<T>)
        requires
            old(self).wf(),
        ensures
            final(self).wf(),
            (*final(self), taken) == old(self).spec_begin(),
            old(self).is_open() ==> taken is None && *final(self) == *old(self),
            !old(self).is_open() ==> {
                &&& taken == old(self).contents()
                &&& taken is Some
                &&& final(self).is_open()
            },
    {
        if self.open {
            None
        } else {
            self.open = true;
            self.value.take()
        }
    }

    /// Close the exclusive-access scope opened by the matching
    /// [`FastCell::begin_access`], returning the value to the cell.
    pub fn end_access(&mut self, value: T)
        requires
            old(self).wf(),
            old(self).is_open(),
        ensures
            final(self).wf(),
            !final(self).is_open(),
            final(self).contents() == Some(value),
            *final(self) == old(self).spec_end(value),
    {
        self.value = Some(value);
        self.open = false;
    }

    /// Direct mutable access for a caller that holds the only live handle;
    /// no scope may be open.
    pub fn get_mut(&mut self) -> (r: &mut T)
        requires
            old(self).wf(),
            !old(self).is_open(),
        ensures
            *r == old(self).contents().unwrap(),
            final(self).wf(),
            !final(self).is_open(),
            final(self).contents() == Some(*final(r)),
    {
        self.value.as_mut().unwrap()
    }

    /// Read the value without opening a scope.
    pub fn borrow(&self) -> (r: &T)
        requires
            self.wf(),
            !self.is_open(),
        ensures
            *r == self.contents().unwrap(),
    {
        self.value.as_ref().unwrap()
    }

    /// Consume the cell and return the value. With an exclusive-access scope
    /// still open the value is out on loan, so the cell comes back unchanged
    /// instead; no data is lost either way.
    pub fn into_inner(self) -> (r: Result<T, FastCell<T>>)
        requires
            self.wf(),
        ensures
            !self.is_open() ==> r == Ok::<T, FastCell<T>>(self.contents().unwrap()),
            self.is_open() ==> r == Err::<T, FastCell<T>>(self),
    {
        match self.value {
            Some(v) => Ok(v),
            None => Err(self),
        }
    }
}

/// Exclusive-access scopes exclude each other: opening a scope while one is
/// already open on the same cell fails fast and leaves the cell unchanged,
/// and after any scope closes — with whatever value, so on error paths too —
/// the next open succeeds and yields that value.
pub proof fn lemma_exclusive_access_scopes<T>(cell: FastCell<T>, value: T)
    requires
        cell.wf(),
        cell.is_open(),
    ensures
        cell.spec_begin().0 == cell,
        cell.spec_begin().1 is None,
        cell.spec_end(value).spec_begin().1 == Some(value),
        cell.spec_end(value).spec_begin().0.is_open(),
{
}

} // verus!
