//! FIFO hand-off of canonical samples from the decode producer to the
//! audio consumer.
//!
//! A queue belongs to exactly one playback session and is created fresh by
//! each `play`.  Producer pushes carry the producing session's token: a
//! stale token — one from a session that has since been replaced — leaves
//! the queue untouched, so samples of a superseded track can never enter
//! the queue the current session owns.  The consumer drains from the front
//! (oldest sample first) and substitutes silence on underrun instead of
//! stalling.

use std::collections::VecDeque;
use vstd::prelude::*;

verus! {

/// Mathematical model of a queue: its owning session, its contents oldest
/// first, and whether the producer has signalled completion.
pub ghost struct QueueModel {
    pub session: u64,
    pub contents: Seq<i32>,
    pub done: bool,
}

/// What a guarded push does to the model: append when the token matches
/// the owning session, nothing otherwise.
pub open spec fn spec_push(m: QueueModel, session: u64, samples: Seq<i32>) -> QueueModel {
    if session == m.session {
        QueueModel { contents: m.contents + samples, ..m }
    } else {
        m
    }
}

/// What a guarded completion signal does to the model.
pub open spec fn spec_mark_done(m: QueueModel, session: u64) -> QueueModel {
    QueueModel { done: m.done || session == m.session, ..m }
}

/// How many samples a request for `n` can actually serve.
pub open spec fn fill_served(m: QueueModel, n: int) -> int {
    if n <= m.contents.len() {
        n
    } else {
        m.contents.len() as int
    }
}

/// The model after serving a request for `n` samples.
pub open spec fn spec_fill_queue(m: QueueModel, n: int) -> QueueModel {
    QueueModel { contents: m.contents.skip(fill_served(m, n)), ..m }
}

/// The `n` samples handed to the consumer: the queue's front in order,
/// then silence for whatever is missing.
pub open spec fn spec_fill_out(m: QueueModel, n: int) -> Seq<i32> {
    m.contents.take(fill_served(m, n)) + Seq::new((n - fill_served(m, n)) as nat, |i: int| 0i32)
}

/// The sample queue itself.
pub struct SampleQueue {
    pub session: u64,
    pub buf: VecDeque<i32>,
    pub done: bool,
}

impl View for SampleQueue {
    type V = QueueModel;

    open spec fn view(&self) -> QueueModel {
        QueueModel { session: self.session, contents: self.buf@, done: self.done }
    }
}

impl SampleQueue {
    /// A fresh, empty queue owned by `session`, producer not yet done.
    pub fn new(session: u64) -> (q: SampleQueue)
        ensures
            q@ == (QueueModel { session, contents: Seq::<i32>::empty(), done: false }),
    {
        SampleQueue { session, buf: VecDeque::new(), done: false }
    }

    pub fn len(&self) -> (n: usize)
        ensures
            n == self@.contents.len(),
    {
        self.buf.len()
    }

    pub fn is_empty(&self) -> (b: bool)
        ensures
            b == (self@.contents.len() == 0),
    {
        self.buf.len() == 0
    }

    pub fn is_done(&self) -> (b: bool)
        ensures
            b == self@.done,
    {
        self.done
    }

    /// Producer side: append decoded samples in decode order, provided the
    /// producer still owns this queue.
    pub fn push_samples(&mut self, session: u64, samples: &Vec<i32>)
        ensures
            final(self)@ == spec_push(old(self)@, session, samples@),
    {
        let ghost orig = self@;
        if session == self.session {
            let mut i: usize = 0;
            while i < samples.len()
                invariant
                    i <= samples@.len(),
                    self.session == orig.session,
                    self.done == orig.done,
                    self.buf@ == orig.contents + samples@.take(i as int),
                decreases samples@.len() - i,
            {
                self.buf.push_back(samples[i]);
                proof {
                    assert(orig.contents + samples@.take(i as int + 1) =~= (orig.contents
                        + samples@.take(i as int)).push(samples@[i as int]));
                }
                i += 1;
            }
            proof {
                assert(samples@.take(samples@.len() as int) =~= samples@);
            }
        }
    }

    /// Producer side: signal that decoding has finished, provided the
    /// producer still owns this queue.
    pub fn mark_done(&mut self, session: u64)
        ensures
            final(self)@ == spec_mark_done(old(self)@, session),
    {
        if session == self.session {
            self.done = true;
        }
    }

    /// Consumer side: hand out exactly `n` samples for the device, oldest
    /// first, substituting silence for every sample the producer has not
    /// yet supplied (underrun) — never stalling, never failing.
    pub fn fill_frames(&mut self, n: usize) -> (out: Vec<i32>)
        ensures
            out@ == spec_fill_out(old(self)@, n as int),
            final(self)@ == spec_fill_queue(old(self)@, n as int),
            out@.len() == n,
    {
        let ghost orig = self@;
        let mut out: Vec<i32> = Vec::new();
        let mut i: usize = 0;
        while i < n
            invariant
                i <= n,
                out@.len() == i,
                self.session == orig.session,
                self.done == orig.done,
                self.buf@ == orig.contents.skip(fill_served(orig, i as int)),
                out@ == spec_fill_out(orig, i as int),
            decreases n - i,
        {
            let ghost served = fill_served(orig, i as int);
            match self.buf.pop_front() {
                Some(s) => {
                    proof {
                        assert(orig.contents.skip(served).len() > 0);
                        assert(s == orig.contents[served]);
                        assert(orig.contents.skip(served + 1) =~= orig.contents.skip(
                            served,
                        ).drop_first());
                        assert(orig.contents.take(served + 1) =~= orig.contents.take(served).push(
                            orig.contents[served],
                        ));
                        assert(spec_fill_out(orig, i as int + 1) =~= spec_fill_out(
                            orig,
                            i as int,
                        ).push(s));
                    }
                    out.push(s);
                },
                None => {
                    proof {
                        assert(orig.contents.skip(served).len() == 0);
                        assert(orig.contents.len() <= i);
                        assert(orig.contents.skip(fill_served(orig, i as int + 1))
                            =~= orig.contents.skip(served));
                        assert(spec_fill_out(orig, i as int + 1) =~= spec_fill_out(
                            orig,
                            i as int,
                        ).push(0i32));
                    }
                    out.push(0);
                },
            }
            i += 1;
        }
        proof {
            assert(out@ =~= spec_fill_out(orig, n as int));
        }
        out
    }
}

/// A producer holding a stale session token cannot alter the queue of the
/// session that replaced it: its pushes and completion signals are void.
pub proof fn lemma_stale_producer_isolated(m: QueueModel, stale: u64, samples: Seq<i32>)
    requires
        stale != m.session,
    ensures
        spec_push(m, stale, samples) == m,
        spec_mark_done(m, stale) == m,
{
}

/// A run of guarded pushes applied in order, whatever mix of session
/// tokens they carry.
pub open spec fn apply_pushes(m: QueueModel, pushes: Seq<(u64, Seq<i32>)>) -> QueueModel
    decreases pushes.len(),
{
    if pushes.len() == 0 {
        m
    } else {
        spec_push(apply_pushes(m, pushes.drop_last()), pushes.last().0, pushes.last().1)
    }
}

/// The samples of those pushes that carry the owning session's token, in
/// push order.
pub open spec fn owner_pushes(session: u64, pushes: Seq<(u64, Seq<i32>)>) -> Seq<i32>
    decreases pushes.len(),
{
    if pushes.len() == 0 {
        Seq::empty()
    } else {
        owner_pushes(session, pushes.drop_last()) + if pushes.last().0 == session {
            pushes.last().1
        } else {
            Seq::empty()
        }
    }
}

/// Session isolation: however pushes from current and superseded
/// producers interleave, the queue ends up holding exactly what the
/// owning session pushed, in order — samples of two different sessions
/// never mix.
pub proof fn lemma_session_isolation(m: QueueModel, pushes: Seq<(u64, Seq<i32>)>)
    ensures
        apply_pushes(m, pushes).contents == m.contents + owner_pushes(m.session, pushes),
        apply_pushes(m, pushes).session == m.session,
        apply_pushes(m, pushes).done == m.done,
    decreases pushes.len(),
{
    if pushes.len() == 0 {
        assert(m.contents + Seq::<i32>::empty() =~= m.contents);
    } else {
        lemma_session_isolation(m, pushes.drop_last());
        let head = owner_pushes(m.session, pushes.drop_last());
        if pushes.last().0 == m.session {
            assert((m.contents + head) + pushes.last().1 =~= m.contents + (head
                + pushes.last().1));
        } else {
            assert(head + Seq::<i32>::empty() =~= head);
        }
    }
}

/// End-to-end FIFO order: everything the current producer pushes into an
/// empty queue comes back to the consumer in exactly the order pushed —
/// pushing `a` then `b` and draining yields `a + b`, with no reordering
/// and no mixing.
pub proof fn lemma_fifo_order(m: QueueModel, a: Seq<i32>, b: Seq<i32>)
    requires
        m.contents.len() == 0,
    ensures
        spec_fill_out(spec_push(spec_push(m, m.session, a), m.session, b), (a.len() + b.len()) as int)
            == a + b,
{
    let m2 = spec_push(spec_push(m, m.session, a), m.session, b);
    assert(m2.contents =~= a + b);
    assert(spec_fill_out(m2, (a.len() + b.len()) as int) =~= a + b);
}

} // verus!
