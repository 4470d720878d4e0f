//! A frame-timing profiler: a stack of open measurement spans, a log of
//! every span ever opened, and per-label running totals.
//!
//! Timestamps are monotonic nanosecond readings taken through one trusted
//! clock call; everything the profiler does with them is verified. A label's
//! total and sample count saturate instead of overflowing.
use vstd::prelude::*;

verus! {

/// Reads the system clock.
///
/// Relies on `std::time::SystemTime::now` and
/// `SystemTime::duration_since(UNIX_EPOCH)`: nanoseconds since the epoch,
/// truncated to 64 bits, and zero for a clock set before the epoch. Nothing
/// can be promised of the value itself.
#[verifier::external_body]
fn now_nanos() -> u64 {
    match std::time::SystemTime::now().duration_since(std::time::UNIX_EPOCH) {
        Ok(d) => d.as_nanos() as u64,
        Err(_) => 0,
    }
}

/// One label's accumulated measurements.
#[derive(Debug)]
pub struct ProfileEntry {
    pub label: String,
    pub total_nanos: u64,
    pub samples: u64,
}

/// The entry at `k` — the one carrying `label` — took the charge: one more
/// sample, a total that only grew, every other entry untouched.
pub open spec fn entry_charged_at(
    pre: Seq<ProfileEntry>,
    post: Seq<ProfileEntry>,
    label: Seq<char>,
    k: int,
) -> bool {
    &&& 0 <= k < pre.len()
    &&& pre[k].label@ == label
    &&& post.len() == pre.len()
    &&& forall|i: int| 0 <= i < pre.len() && i != k ==> post[i] == pre[i]
    &&& post[k].label@ == label
    &&& post[k].total_nanos >= pre[k].total_nanos
    &&& post[k].samples == (if pre[k].samples < u64::MAX {
        pre[k].samples + 1
    } else {
        u64::MAX as int
    })
}

/// How closing a span charges its elapsed time to a label: the label's
/// entry, if one exists, accumulates one more sample — totals only grow —
/// and otherwise a fresh entry for the label is appended with one sample.
pub open spec fn entries_charged(
    pre: Seq<ProfileEntry>,
    post: Seq<ProfileEntry>,
    label: Seq<char>,
) -> bool {
    if exists|k: int| 0 <= k < pre.len() && (#[trigger] pre[k].label)@ == label {
        exists|k: int| #[trigger] entry_charged_at(pre, post, label, k)
    } else {
        &&& post.len() == pre.len() + 1
        &&& forall|i: int| 0 <= i < pre.len() ==> post[i] == pre[i]
        &&& post[pre.len() as int].label@ == label
        &&& post[pre.len() as int].samples == 1
    }
}

/// The profiler: open spans with their start times, the log of every span
/// opened, and one accumulated entry per label.
#[derive(Debug)]
pub struct Profiler {
    stack: Vec<(String, u64)>,
    history: Vec<(String, u64)>,
    entries: Vec<ProfileEntry>,
}

impl Profiler {
    /// The open spans, innermost last: label and start time.
    pub closed spec fn spec_stack(self) -> Seq<(String, u64)> {
        self.stack@
    }

    /// Every span ever opened, in opening order.
    pub closed spec fn spec_history(self) -> Seq<(String, u64)> {
        self.history@
    }

    /// The per-label accumulated entries.
    pub closed spec fn spec_entries(self) -> Seq<ProfileEntry> {
        self.entries@
    }

    /// One entry per label, each holding at least one sample.
    pub open spec fn wf(self) -> bool {
        &&& forall|i: int, j: int|
            0 <= i < j < self.spec_entries().len() ==> (#[trigger] self.spec_entries()[i].label)@
                != (#[trigger] self.spec_entries()[j].label)@
        &&& forall|i: int|
            0 <= i < self.spec_entries().len() ==> (#[trigger] self.spec_entries()[i]).samples >= 1
    }

    /// A profiler with no spans and no measurements.
    pub fn new() -> (p: Profiler)
        ensures
            p.wf(),
            p.spec_stack().len() == 0,
            p.spec_history().len() == 0,
            p.spec_entries().len() == 0,
    {
        Profiler { stack: Vec::new(), history: Vec::new(), entries: Vec::new() }
    }

    /// Open a measurement span for `label`, stamped with the clock reading
    /// of this moment; the same span is appended to the log.
    pub fn push(&mut self, label: String)
        requires
            old(self).wf(),
        ensures
            final(self).wf(),
            final(self).spec_stack().len() == old(self).spec_stack().len() + 1,
            final(self).spec_stack().drop_last() == old(self).spec_stack(),
            (final(self).spec_stack().last().0)@ == label@,
            final(self).spec_history() == old(self).spec_history().push(
                final(self).spec_stack().last(),
            ),
            final(self).spec_entries() == old(self).spec_entries(),
    {
        let now = now_nanos();
        let logged = label.clone();
        self.stack.push((label, now));
        self.history.push((logged, now));
        proof {
            assert(self.spec_entries() == old(self).spec_entries());
            assert(self.stack@.drop_last() =~= old(self).stack@);
            let last = self.stack@.last();
            assert(self.history@ =~= old(self).history@.push(self.history@.last()));
            assert((self.history@.last().0)@ == (last.0)@);
            assert(self.history@.last().1 == last.1);
        }
    }

    /// Close the innermost open span: remove it, charge the time elapsed
    /// since its start to its label, and return the label with that elapsed
    /// time. With no span open, nothing changes and nothing is returned.
    pub fn pop(&mut self) -> (r: Option<(String, u64)>)
        requires
            old(self).wf(),
        ensures
            final(self).wf(),
            old(self).spec_stack().len() == 0 ==> {
                &&& r is None
                &&& final(self).spec_stack() == old(self).spec_stack()
                &&& final(self).spec_history() == old(self).spec_history()
                &&& final(self).spec_entries() == old(self).spec_entries()
            },
            old(self).spec_stack().len() > 0 ==> {
                &&& r is Some
                &&& ((r->0).0)@ == (old(self).spec_stack().last().0)@
                &&& final(self).spec_stack() == old(self).spec_stack().drop_last()
                &&& final(self).spec_history() == old(self).spec_history()
                &&& entries_charged(
                    old(self).spec_entries(),
                    final(self).spec_entries(),
                    (old(self).spec_stack().last().0)@,
                )
            },
    {
        let now = now_nanos();
        match self.stack.pop() {
            None => {
                proof {
                    assert(self.spec_entries() == old(self).spec_entries());
                    assert(self.spec_stack() == old(self).spec_stack());
                    assert(self.spec_history() == old(self).spec_history());
                }
                None
            },
            Some((label, start)) => {
                let elapsed = now.saturating_sub(start);
                proof {
                    assert(self.spec_entries() == old(self).spec_entries());
                    assert(self.spec_stack() =~= old(self).spec_stack().drop_last());
                }
                self.charge(&label, elapsed);
                Some((label, elapsed))
            },
        }
    }

    /// Charge one sample of `elapsed` nanoseconds to `label`.
    fn charge(&mut self, label: &String, elapsed: u64)
        requires
            old(self).wf(),
        ensures
            final(self).wf(),
            final(self).spec_stack() == old(self).spec_stack(),
            final(self).spec_history() == old(self).spec_history(),
            entries_charged(old(self).spec_entries(), final(self).spec_entries(), label@),
    {
        let n = self.entries.len();
        for i in 0..n
            invariant
                old(self).wf(),
                n == self.entries@.len(),
                *self == *old(self),
                forall|j: int| 0 <= j < i ==> (#[trigger] self.entries@[j].label)@ != label@,
        {
            if self.entries[i].label == *label {
                let entry = vstd::std_specs::vec::vec_index_mut(&mut self.entries, i);
                entry.total_nanos = entry.total_nanos.saturating_add(elapsed);
                entry.samples = entry.samples.saturating_add(1);
                proof {
                    let pre = old(self).entries@;
                    let post = self.entries@;
                    assert(old(self).spec_entries() == pre);
                    assert(self.spec_entries() == post);
                    assert(pre[i as int].label@ == label@);
                    assert(exists|k: int|
                        0 <= k < pre.len() && (#[trigger] pre[k].label)@ == label@);
                    assert(entry_charged_at(pre, post, label@, i as int));
                    assert(entries_charged(pre, post, label@));
                    assert forall|a: int, b: int|
                        0 <= a < b < post.len() implies (#[trigger] post[a].label)@ != (
                    #[trigger] post[b].label)@ by {
                        assert((old(self).spec_entries()[a].label)@ != (old(self).spec_entries()[
                            b
                        ].label)@);
                        assert(post[a].label == pre[a].label);
                        assert(post[b].label == pre[b].label);
                    }
                    assert forall|a: int| 0 <= a < post.len() implies (#[trigger] post[a]).samples
                        >= 1 by {
                        assert((old(self).spec_entries()[a]).samples >= 1);
                    }
                }
                return;
            }
        }
        let entry = ProfileEntry { label: label.clone(), total_nanos: elapsed, samples: 1 };
        self.entries.push(entry);
        proof {
            let pre = old(self).entries@;
            let post = self.entries@;
            assert(old(self).spec_entries() == pre);
            assert(self.spec_entries() == post);
            assert(forall|k: int| 0 <= k < pre.len() ==> (#[trigger] pre[k].label)@ != label@);
            assert(!(exists|k: int| 0 <= k < pre.len() && (#[trigger] pre[k].label)@ == label@));
            assert(entries_charged(pre, post, label@));
            assert forall|a: int, b: int|
                0 <= a < b < post.len() implies (#[trigger] post[a].label)@ != (
            #[trigger] post[b].label)@ by {
                if b < pre.len() {
                    assert((old(self).spec_entries()[a].label)@ != (old(self).spec_entries()[
                        b
                    ].label)@);
                } else {
                    assert(post[b].label@ == label@);
                    assert((pre[a].label)@ != label@);
                }
            }
            assert forall|a: int| 0 <= a < post.len() implies (#[trigger] post[a]).samples >= 1 by {
                if a < pre.len() {
                    assert((old(self).spec_entries()[a]).samples >= 1);
                }
            }
        }
    }

    /// Each measured label with its mean span time in nanoseconds.
    pub fn averages(&self) -> (r: Vec<(String, u64)>)
        requires
            self.wf(),
        ensures
            r@.len() == self.spec_entries().len(),
            forall|i: int|
                0 <= i < r@.len() ==> ((#[trigger] r@[i]).0@ == self.spec_entries()[i].label@
                    && r@[i].1 == self.spec_entries()[i].total_nanos / self.spec_entries(
                )[i].samples),
    {
        let mut r: Vec<(String, u64)> = Vec::new();
        let n = self.entries.len();
        for i in 0..n
            invariant
                n == self.entries@.len(),
                self.wf(),
                r@.len() == i,
                forall|j: int|
                    0 <= j < i ==> ((#[trigger] r@[j]).0@ == self.entries@[j].label@ && r@[j].1
                        == self.entries@[j].total_nanos / self.entries@[j].samples),
        {
            proof {
                assert((self.spec_entries()[i as int]).samples >= 1);
            }
            let label = self.entries[i].label.clone();
            let avg = self.entries[i].total_nanos / self.entries[i].samples;
            r.push((label, avg));
        }
        r
    }
}

/// Open a measurement span for `label`.
pub fn begin_profiler(profiler: &mut Profiler, label: &str)
    requires
        old(profiler).wf(),
    ensures
        final(profiler).wf(),
        final(profiler).spec_stack().len() == old(profiler).spec_stack().len() + 1,
        final(profiler).spec_stack().drop_last() == old(profiler).spec_stack(),
        (final(profiler).spec_stack().last().0)@ == label@,
{
    profiler.push(label.to_owned());
}

/// Close the innermost open span, returning its label and elapsed time.
pub fn end_profiler(profiler: &mut Profiler) -> (r: Option<(String, u64)>)
    requires
        old(profiler).wf(),
    ensures
        final(profiler).wf(),
        old(profiler).spec_stack().len() == 0 ==> r is None,
        old(profiler).spec_stack().len() > 0 ==> r is Some && ((r->0).0)@ == (old(
            profiler,
        ).spec_stack().last().0)@,
{
    profiler.pop()
}

/// Close the innermost open span and immediately open a new one for
/// `label`, returning what the closed span measured.
pub fn rebegin_profiler(profiler: &mut Profiler, label: &str) -> (r: Option<(String, u64)>)
    requires
        old(profiler).wf(),
    ensures
        final(profiler).wf(),
        final(profiler).spec_stack().len() > 0,
        (final(profiler).spec_stack().last().0)@ == label@,
        old(profiler).spec_stack().len() == 0 ==> r is None,
        old(profiler).spec_stack().len() > 0 ==> r is Some && ((r->0).0)@ == (old(
            profiler,
        ).spec_stack().last().0)@,
{
    let r = profiler.pop();
    profiler.push(label.to_owned());
    r
}

/// Each measured label with its mean span time in nanoseconds.
pub fn get_profile_averages(profiler: &Profiler) -> (r: Vec<(String, u64)>)
    requires
        profiler.wf(),
    ensures
        r@.len() == profiler.spec_entries().len(),
        forall|i: int|
            0 <= i < r@.len() ==> ((#[trigger] r@[i]).0@ == profiler.spec_entries()[i].label@
                && r@[i].1 == profiler.spec_entries()[i].total_nanos / profiler.spec_entries(
            )[i].samples),
{
    profiler.averages()
}

} // verus!
