use vstd::prelude::*;
use std::collections::VecDeque;

verus! {

/// Number of blocks a reward waits before it is final.
pub const MATURITY: usize = 11;

/// One push onto a buffer holding `q`: the buffer after it, and the entry
/// that matured, if the depth went past the maturity delay.
pub open spec fn push_spec<T>(q: Seq<T>, s: T) -> (Seq<T>, Option<T>) {
    let q1 = q.push(s);
    if q1.len() > MATURITY {
        (q1.drop_first(), Some(q1[0]))
    } else {
        (q1, None)
    }
}

/// The buffer after pushing each of `xs` in order onto an empty one.
pub open spec fn drive<T>(xs: Seq<T>) -> Seq<T>
    decreases xs.len(),
{
    if xs.len() == 0 {
        Seq::empty()
    } else {
        push_spec(drive(xs.drop_last()), xs.last()).0
    }
}

/// A first-in, first-out queue that hands an entry (a block's snapshot) back
/// once as many entries as the maturity delay have been pushed after it.
pub struct MaturityBuffer<T> {
    queue: VecDeque<T>,
}

impl<T> View for MaturityBuffer<T> {
    type V = Seq<T>;

    closed spec fn view(&self) -> Seq<T> {
        self.queue@
    }
}

impl<T> MaturityBuffer<T> {
    /// An empty buffer.
    pub fn new() -> (r: Self)
        ensures
            r@ == Seq::<T>::empty(),
    {
        MaturityBuffer { queue: VecDeque::new() }
    }

    /// Number of entries waiting.
    pub fn len(&self) -> (r: usize)
        ensures
            r == self@.len(),
    {
        self.queue.len()
    }

    /// Enqueues `snapshot`; when the depth then exceeds the maturity delay,
    /// dequeues and returns the oldest entry.
    pub fn push_and_maybe_mature(&mut self, snapshot: T) -> (r: Option<T>)
        requires
            old(self)@.len() <= MATURITY,
        ensures
            (final(self)@, r) == push_spec(old(self)@, snapshot),
            final(self)@.len() <= MATURITY,
    {
        self.queue.push_back(snapshot);
        if self.queue.len() > MATURITY {
            self.queue.pop_front()
        } else {
            None
        }
    }
}

/// Driving an empty buffer with `s_0, ..., s_h`: the push of `s_h` returns
/// `s_(h - MATURITY)` exactly when `h >= MATURITY` and nothing before, and the
/// buffer then holds the last `min(h + 1, MATURITY)` snapshots, so its depth
/// stays at the maturity delay once it first matures an entry.
pub proof fn lemma_maturity_window<T>(xs: Seq<T>)
    ensures
        drive(xs) == xs.subrange(
            xs.len() - (if xs.len() < MATURITY { xs.len() as int } else { MATURITY as int }),
            xs.len() as int,
        ),
        xs.len() > 0 ==> push_spec(drive(xs.drop_last()), xs.last()).1 == (if xs.len()
            > MATURITY {
            Some(xs[xs.len() - 1 - MATURITY])
        } else {
            None::<T>
        }),
    decreases xs.len(),
{
    if xs.len() > 0 {
        let ys = xs.drop_last();
        lemma_maturity_window(ys);
        let q = drive(ys);
        let q1 = q.push(xs.last());
        if xs.len() > MATURITY {
            assert(q1[0] == xs[xs.len() - 1 - MATURITY]);
            assert(q1.drop_first() =~= xs.subrange(xs.len() - MATURITY, xs.len() as int));
        } else {
            assert(q1 =~= xs.subrange(0, xs.len() as int));
        }
    } else {
        assert(drive(xs) =~= xs.subrange(0, 0));
    }
}

} // verus!
