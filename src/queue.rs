//! Per-source FIFO of decoded, not yet played samples.
use vstd::prelude::*;

verus! {

/// Decoded interleaved samples of one source, oldest first. Samples before
/// `head` were already pulled; pulling only moves `head`, so its cost is
/// that of the samples it returns.
pub struct SourceQueue {
    samples: Vec<i16>,
    head: usize,
}

impl View for SourceQueue {
    type V = Seq<i16>;

    closed spec fn view(&self) -> Seq<i16> {
        self.samples@.skip(self.head as int)
    }
}

/// Number of samples a pull of `max` takes from a backlog of `len`.
pub open spec fn pulled_len(len: int, max: int) -> int {
    if max <= len {
        max
    } else {
        len
    }
}

/// A backlog after its oldest samples were dropped to fit `cap`, if any.
pub open spec fn bounded(q: Seq<i16>, cap: Option<usize>) -> Seq<i16> {
    match cap {
        Some(c) => if q.len() > c {
            q.skip(q.len() - c)
        } else {
            q
        },
        None => q,
    }
}

impl SourceQueue {
    #[verifier::type_invariant]
    closed spec fn head_in_bounds(self) -> bool {
        self.head <= self.samples@.len()
    }

    /// An empty queue.
    pub fn new() -> (r: SourceQueue)
        ensures
            r@ == Seq::<i16>::empty(),
    {
        let r = SourceQueue { samples: Vec::new(), head: 0 };
        assert(r@ =~= Seq::<i16>::empty());
        r
    }

    /// Number of samples waiting.
    pub fn len(&self) -> (r: usize)
        ensures
            r == self@.len(),
    {
        proof {
            use_type_invariant(&*self);
        }
        self.samples.len() - self.head
    }

    /// Whether nothing is waiting; a length check, no decoding.
    pub fn is_empty(&self) -> (r: bool)
        ensures
            r == (self@.len() == 0),
    {
        proof {
            use_type_invariant(&*self);
        }
        self.head == self.samples.len()
    }

    /// Appends a decoded frame at the tail, compacting away what was
    /// already pulled.
    pub fn push(&mut self, frame: &Vec<i16>)
        ensures
            final(self)@ == old(self)@ + frame@,
    {
        proof {
            use_type_invariant(&*self);
        }
        let ghost pending = self@;
        let mut next: Vec<i16> = Vec::new();
        let mut i: usize = self.head;
        while i < self.samples.len()
            invariant
                self.head <= i <= self.samples@.len(),
                pending == self.samples@.skip(self.head as int),
                next@ == self.samples@.subrange(self.head as int, i as int),
            decreases self.samples@.len() - i,
        {
            next.push(self.samples[i]);
            i = i + 1;
            assert(next@ =~= self.samples@.subrange(self.head as int, i as int));
        }
        assert(next@ =~= pending);
        let mut k: usize = 0;
        while k < frame.len()
            invariant
                k <= frame@.len(),
                next@ == pending + frame@.take(k as int),
            decreases frame@.len() - k,
        {
            next.push(frame[k]);
            k = k + 1;
            assert(next@ =~= pending + frame@.take(k as int));
        }
        assert(frame@.take(frame@.len() as int) =~= frame@);
        *self = SourceQueue { samples: next, head: 0 };
        assert(self@ =~= next@);
    }

    /// Appends a decoded frame, then drops the oldest samples while the
    /// backlog is longer than `cap`.
    pub fn push_bounded(&mut self, frame: &Vec<i16>, cap: Option<usize>)
        ensures
            final(self)@ == bounded(old(self)@ + frame@, cap),
    {
        self.push(frame);
        match cap {
            Some(c) => {
                let len = self.len();
                if len > c {
                    self.drop_front(len - c);
                }
            },
            None => {},
        }
    }

    /// Forgets the `n` oldest samples.
    fn drop_front(&mut self, n: usize)
        requires
            n <= old(self)@.len(),
        ensures
            final(self)@ == old(self)@.skip(n as int),
    {
        proof {
            use_type_invariant(&*self);
        }
        let ghost pending = self@;
        assert(pending.len() == self.samples@.len() - self.head);
        let total = self.samples.len();
        let h = self.head + n;
        if h == total {
            *self = SourceQueue { samples: Vec::new(), head: 0 };
            assert(self@ =~= pending.skip(n as int));
        } else {
            self.head = h;
            assert(self@ =~= pending.skip(n as int));
        }
    }

    /// Removes and returns up to `max` samples from the head, in arrival
    /// order; fewer (or none) when the backlog is shorter. Costs the
    /// samples returned, not the backlog.
    pub fn pull(&mut self, max: usize) -> (r: Vec<i16>)
        ensures
            r@ == old(self)@.take(pulled_len(old(self)@.len() as int, max as int)),
            final(self)@ == old(self)@.skip(pulled_len(old(self)@.len() as int, max as int)),
    {
        proof {
            use_type_invariant(&*self);
        }
        let ghost pending = self@;
        assert(pending.len() == self.samples@.len() - self.head);
        let len = self.samples.len() - self.head;
        let n: usize = if max <= len { max } else { len };
        let mut head: Vec<i16> = Vec::with_capacity(n);
        let mut i: usize = 0;
        while i < n
            invariant
                n <= len,
                len == self.samples@.len() - self.head,
                self.head <= self.samples@.len(),
                pending == self.samples@.skip(self.head as int),
                pending.len() == len,
                self.samples@.len() <= usize::MAX,
                i <= n,
                head@ == pending.take(i as int),
            decreases n - i,
        {
            head.push(self.samples[self.head + i]);
            i = i + 1;
            assert(head@ =~= pending.take(i as int));
        }
        self.drop_front(n);
        head
    }
}

} // verus!
