//! Bounded byte ring: a FIFO of the most recent bytes, capped at a fixed limit.

use std::collections::VecDeque;
use vstd::prelude::*;

verus! {

/// The last `limit` items of `s`, or all of `s` when it is no longer than that.
pub open spec fn keep_last(s: Seq<u8>, limit: nat) -> Seq<u8> {
    if s.len() <= limit {
        s
    } else {
        s.subrange(s.len() - limit, s.len() as int)
    }
}

/// All chunks of `chunks` joined in order.
pub open spec fn concat_all(chunks: Seq<Seq<u8>>) -> Seq<u8>
    decreases chunks.len(),
{
    if chunks.len() == 0 {
        Seq::empty()
    } else {
        concat_all(chunks.drop_last()) + chunks.last()
    }
}

/// Contents of a ring with the given limit after it was extended by each
/// chunk of `chunks` in turn, starting empty.
pub open spec fn ring_after(limit: nat, chunks: Seq<Seq<u8>>) -> Seq<u8>
    decreases chunks.len(),
{
    if chunks.len() == 0 {
        Seq::empty()
    } else {
        keep_last(ring_after(limit, chunks.drop_last()) + chunks.last(), limit)
    }
}

/// Cutting to the last `limit` items may be done before or after appending:
/// what was cut off earlier would be cut off anyway.
pub proof fn lemma_keep_last_absorbs(s: Seq<u8>, t: Seq<u8>, limit: nat)
    ensures
        keep_last(keep_last(s, limit) + t, limit) == keep_last(s + t, limit),
        keep_last(s, limit).len() == if s.len() <= limit { s.len() } else { limit },
{
    assert(keep_last(keep_last(s, limit) + t, limit) =~= keep_last(s + t, limit));
}

/// After any sequence of extends a ring holds at most `limit` bytes, and they
/// are the tail of everything that was ever extended into it.
pub proof fn lemma_ring_holds_latest(limit: nat, chunks: Seq<Seq<u8>>)
    ensures
        ring_after(limit, chunks) == keep_last(concat_all(chunks), limit),
        ring_after(limit, chunks).len() <= limit,
        ring_after(limit, chunks).len() == if concat_all(chunks).len() <= limit {
            concat_all(chunks).len()
        } else {
            limit
        },
    decreases chunks.len(),
{
    if chunks.len() > 0 {
        lemma_ring_holds_latest(limit, chunks.drop_last());
        lemma_keep_last_absorbs(concat_all(chunks.drop_last()), chunks.last(), limit);
        lemma_keep_last_absorbs(concat_all(chunks), Seq::empty(), limit);
    }
}

/// Fixed-capacity FIFO of recent bytes.
pub struct RingBytes {
    buf: VecDeque<u8>,
    limit: usize,
}

impl View for RingBytes {
    type V = Seq<u8>;

    closed spec fn view(&self) -> Seq<u8> {
        self.buf@
    }
}

impl Clone for RingBytes {
    fn clone(&self) -> (copy: Self)
        ensures
            copy@ == self@,
            copy.limit() == self.limit(),
    {
        proof {
            use_type_invariant(self);
        }
        let buf = self.buf.clone();
        assert(buf@ =~= self.buf@);
        RingBytes { buf, limit: self.limit }
    }
}

impl RingBytes {
    /// The capacity this ring was made with.
    pub closed spec fn limit(&self) -> nat {
        self.limit as nat
    }

    #[verifier::type_invariant]
    spec fn within_limit(&self) -> bool {
        self.buf@.len() <= self.limit
    }

    /// An empty ring that will hold at most `limit` bytes.
    pub fn new(limit: usize) -> (ring: Self)
        ensures
            ring@ == Seq::<u8>::empty(),
            ring.limit() == limit,
    {
        RingBytes { buf: VecDeque::new(), limit }
    }

    /// Appends `chunk`, dropping the oldest bytes so that at most `limit`
    /// remain. A chunk of `limit` bytes or more replaces the contents by its
    /// own last `limit` bytes.
    pub fn extend(&mut self, chunk: &[u8])
        ensures
            final(self)@ == keep_last(old(self)@ + chunk@, old(self).limit()),
            final(self)@.len() <= final(self).limit(),
            final(self).limit() == old(self).limit(),
    {
        proof {
            use_type_invariant(&*self);
        }
        // The deque is worked on outside the ring and put back at the end, so
        // that the ring is within its limit whenever it can be observed.
        let mut buf: VecDeque<u8> = VecDeque::new();
        core::mem::swap(&mut self.buf, &mut buf);
        let limit = self.limit;
        let n = chunk.len();
        let mut i: usize = 0;
        if n >= limit {
            buf.clear();
            i = n - limit;
        } else {
            let room = limit - n;
            let have = buf.len();
            if have > room {
                let drop = have - room;
                let mut k: usize = 0;
                while k < drop
                    invariant
                        k <= drop <= have,
                        have == old(self).buf@.len(),
                        buf@ == old(self).buf@.subrange(k as int, have as int),
                    decreases drop - k,
                {
                    let _ = buf.pop_front();
                    k += 1;
                }
            }
        }
        let ghost kept = buf@;
        let ghost start = i;
        while i < n
            invariant
                start <= i <= n,
                n == chunk@.len(),
                buf@ == kept + chunk@.subrange(start as int, i as int),
            decreases n - i,
        {
            buf.push_back(chunk[i]);
            i += 1;
        }
        assert(buf@ =~= keep_last(old(self)@ + chunk@, old(self).limit()));
        self.buf = buf;
    }

    /// A contiguous copy of the contents, oldest byte first.
    pub fn to_vec(&self) -> (v: Vec<u8>)
        ensures
            v@ == self@,
    {
        let n = self.buf.len();
        let mut v: Vec<u8> = Vec::with_capacity(n);
        let mut i: usize = 0;
        while i < n
            invariant
                i <= n,
                n == self.buf@.len(),
                v@ == self.buf@.subrange(0, i as int),
            decreases n - i,
        {
            v.push(self.buf[i]);
            i += 1;
        }
        assert(v@ =~= self.buf@);
        v
    }
}

} // verus!
