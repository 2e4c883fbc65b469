//! Fixed-capacity sample queue between the capture side and the DSP side,
//! backed by ringbuf's heap ring buffer. Pushing never blocks: what does not
//! fit is dropped and the count actually stored is returned.
use vstd::prelude::*;
use ringbuf::traits::{Consumer, Producer};
use ringbuf::HeapRb;
use crate::resampler::joined;

verus! {

/// ringbuf's `HeapRb<i16>`, held opaquely; `ring_contents` and
/// `ring_capacity` name what it holds and how many samples it can hold.
#[verifier::external_body]
pub struct SampleRing {
    rb: HeapRb<i16>,
}

/// The samples in the ring, oldest first.
pub uninterp spec fn ring_contents(r: SampleRing) -> Seq<i16>;

/// The fixed capacity the ring was built with.
pub uninterp spec fn ring_capacity(r: SampleRing) -> nat;

/// Relies on ringbuf's `HeapRb::new`: an empty buffer of `capacity` slots
/// (it panics on zero, hence the `requires`).
#[verifier::external_body]
fn heap_rb_new(capacity: usize) -> (r: SampleRing)
    requires
        capacity > 0,
    ensures
        ring_contents(r) == Seq::<i16>::empty(),
        ring_capacity(r) == capacity,
{
    SampleRing { rb: HeapRb::new(capacity) }
}

/// Relies on ringbuf's `Producer::push_slice`: it writes the longest prefix
/// of `elems` that fits in the vacant slots and returns its length.
#[verifier::external_body]
fn heap_rb_push_slice(r: &mut SampleRing, elems: &[i16]) -> (n: usize)
    requires
        ring_contents(*old(r)).len() <= ring_capacity(*old(r)),
    ensures
        ring_capacity(*final(r)) == ring_capacity(*old(r)),
        n as int == if elems@.len() + ring_contents(*old(r)).len() <= ring_capacity(*old(r)) {
            elems@.len() as int
        } else {
            ring_capacity(*old(r)) - ring_contents(*old(r)).len()
        },
        ring_contents(*final(r)) == ring_contents(*old(r)) + elems@.subrange(0, n as int),
        ring_contents(*final(r)).len() <= ring_capacity(*final(r)),
{
    r.rb.push_slice(elems)
}

/// Relies on ringbuf's `Consumer::try_pop`: it removes and returns the
/// eldest sample, or returns `None` when the buffer is empty.
#[verifier::external_body]
fn heap_rb_try_pop(r: &mut SampleRing) -> (s: Option<i16>)
    ensures
        ring_capacity(*final(r)) == ring_capacity(*old(r)),
        ring_contents(*old(r)).len() == 0 ==> s is None && ring_contents(*final(r))
            == ring_contents(*old(r)),
        ring_contents(*old(r)).len() > 0 ==> s == Some(ring_contents(*old(r))[0])
            && ring_contents(*final(r)) == ring_contents(*old(r)).drop_first(),
{
    r.rb.try_pop()
}

/// The contents after pushing `s` onto contents `c` in a ring of `cap`
/// samples: the longest prefix of `s` that fits is appended.
pub open spec fn push_model(c: Seq<i16>, cap: nat, s: Seq<i16>) -> Seq<i16> {
    let room = cap - c.len();
    c + s.subrange(0, if s.len() <= room { s.len() as int } else { room })
}

/// The contents after pushing each of `ps` in turn, with no pop between.
pub open spec fn pushes_model(c: Seq<i16>, cap: nat, ps: Seq<Seq<i16>>) -> Seq<i16>
    decreases ps.len(),
{
    if ps.len() == 0 {
        c
    } else {
        push_model(pushes_model(c, cap, ps.drop_last()), cap, ps.last())
    }
}

/// Pushes into an empty ring, with no pop between, leave exactly the first
/// `cap` samples of everything pushed (all of it when it fits), in order:
/// nothing is reordered, torn or invented, and only the excess is lost.
pub proof fn lemma_pushes_keep_prefix(cap: nat, ps: Seq<Seq<i16>>)
    ensures
        pushes_model(Seq::empty(), cap, ps) == joined(ps).subrange(
            0,
            if joined(ps).len() <= cap { joined(ps).len() as int } else { cap as int },
        ),
    decreases ps.len(),
{
    if ps.len() > 0 {
        lemma_pushes_keep_prefix(cap, ps.drop_last());
        let j0 = joined(ps.drop_last());
        let j = joined(ps);
        assert(j == j0 + ps.last());
        let m = if j0.len() <= cap { j0.len() as int } else { cap as int };
        let c = pushes_model(Seq::empty(), cap, ps.drop_last());
        assert(c.len() == m);
        let room = cap - m;
        let l = ps.last();
        let add = if l.len() <= room { l.len() as int } else { room };
        let want = if j.len() <= cap { j.len() as int } else { cap as int };
        assert(m + add == want);
        assert(c + l.subrange(0, add) =~= j.subrange(0, want));
    }
}

/// Any push sequence longer in total than `cap` leaves the ring full, so the
/// push that crossed the capacity stored fewer samples than it was given.
pub proof fn lemma_overflow_fills(cap: nat, ps: Seq<Seq<i16>>)
    requires
        joined(ps).len() > cap,
    ensures
        pushes_model(Seq::empty(), cap, ps).len() == cap,
        pushes_model(Seq::empty(), cap, ps) == joined(ps).subrange(0, cap as int),
{
    lemma_pushes_keep_prefix(cap, ps);
}

impl SampleRing {
    pub open spec fn contents(&self) -> Seq<i16> {
        ring_contents(*self)
    }

    pub open spec fn capacity(&self) -> nat {
        ring_capacity(*self)
    }

    pub open spec fn wf(&self) -> bool {
        self.contents().len() <= self.capacity()
    }

    /// An empty ring of `capacity` samples.
    pub fn new(capacity: usize) -> (r: Self)
        requires
            capacity > 0,
        ensures
            r.wf(),
            r.contents() == Seq::<i16>::empty(),
            r.capacity() == capacity,
    {
        heap_rb_new(capacity)
    }

    /// Stores as many of `samples` as fit, in order, and returns that count.
    /// All of them are stored exactly when they fit; otherwise the ring ends
    /// up full and the excess is dropped.
    pub fn push(&mut self, samples: &[i16]) -> (pushed: usize)
        requires
            old(self).wf(),
        ensures
            final(self).capacity() == old(self).capacity(),
            final(self).wf(),
            old(self).contents().len() + samples@.len() <= old(self).capacity() ==> pushed
                == samples@.len(),
            old(self).contents().len() + samples@.len() > old(self).capacity() ==> {
                &&& pushed < samples@.len()
                &&& final(self).contents().len() == final(self).capacity()
            },
            final(self).contents() == old(self).contents() + samples@.subrange(0, pushed as int),
            final(self).contents() == push_model(
                old(self).contents(),
                old(self).capacity(),
                samples@,
            ),
    {
        heap_rb_push_slice(self, samples)
    }

    /// Removes and returns the oldest sample, if any.
    pub fn try_pop(&mut self) -> (s: Option<i16>)
        ensures
            final(self).capacity() == old(self).capacity(),
            old(self).wf() ==> final(self).wf(),
            old(self).contents().len() == 0 ==> s is None && final(self).contents() == old(
                self,
            ).contents(),
            old(self).contents().len() > 0 ==> s == Some(old(self).contents()[0])
                && final(self).contents() == old(self).contents().drop_first(),
    {
        heap_rb_try_pop(self)
    }

    /// Removes up to `max` of the oldest samples and returns them in order.
    pub fn drain_batch(&mut self, max: usize) -> (r: Vec<i16>)
        ensures
            final(self).capacity() == old(self).capacity(),
            old(self).wf() ==> final(self).wf(),
            r@.len() == if old(self).contents().len() < max {
                old(self).contents().len() as int
            } else {
                max as int
            },
            r@ + final(self).contents() == old(self).contents(),
    {
        let ghost c0 = self.contents();
        let mut out: Vec<i16> = Vec::new();
        while out.len() < max
            invariant
                self.capacity() == old(self).capacity(),
                c0 == old(self).contents(),
                old(self).wf() ==> self.wf(),
                out@ + self.contents() == c0,
                out@.len() <= max,
                out@.len() < max && out@.len() < c0.len() ==> self.contents().len() > 0,
            decreases max - out@.len(),
        {
            match self.try_pop() {
                Some(s) => {
                    out.push(s);
                    proof {
                        assert(out@ + self.contents() =~= c0);
                    }
                },
                None => {
                    return out;
                },
            }
        }
        out
    }
}

} // verus!
