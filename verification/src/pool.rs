//! A pool of reusable frame targets (GPU plane pairs) at one resolution.

use vstd::prelude::*;

use std::collections::VecDeque;

use crate::yuv::FrameSize;

verus! {

/// One call on a pool's free queue: an acquire with what it returned, or the release of a target.
pub enum PoolCall<T> {
    Acquire(Option<T>),
    Release(T),
}

/// `call` takes the free queue from `before` to `after`: an acquire pops the oldest free target
/// (`None` when there is none), a release appends the target.
pub open spec fn pool_call_step<T>(before: Seq<T>, call: PoolCall<T>, after: Seq<T>) -> bool {
    match call {
        PoolCall::Acquire(r) => if before.len() == 0 {
            r is None && after == before
        } else {
            r == Some(before[0]) && after == before.drop_first()
        },
        PoolCall::Release(t) => after == before.push(t),
    }
}

/// The targets the acquires of `calls` handed out, in order.
pub open spec fn acquired_targets<T>(calls: Seq<PoolCall<T>>) -> Seq<T>
    decreases calls.len(),
{
    if calls.len() == 0 {
        Seq::empty()
    } else {
        acquired_targets(calls.drop_last()) + match calls.last() {
            PoolCall::Acquire(Some(t)) => seq![t],
            _ => Seq::empty(),
        }
    }
}

/// The targets the releases of `calls` gave back, in order.
pub open spec fn released_targets<T>(calls: Seq<PoolCall<T>>) -> Seq<T>
    decreases calls.len(),
{
    if calls.len() == 0 {
        Seq::empty()
    } else {
        released_targets(calls.drop_last()) + match calls.last() {
            PoolCall::Release(t) => seq![t],
            _ => Seq::empty(),
        }
    }
}

/// Over any history of acquires and releases, targets leave the pool first in, first out: what
/// was handed out followed by what is still free is what was free at the start followed by what
/// was released. So the free count is the starting count, less the acquires that returned a
/// target, plus the releases; and an acquire returns a target exactly when one is free.
pub proof fn law_pool_fifo<T>(states: Seq<Seq<T>>, calls: Seq<PoolCall<T>>)
    requires
        states.len() == calls.len() + 1,
        forall|i: int|
            0 <= i < calls.len() ==> #[trigger] pool_call_step(states[i], calls[i], states[i + 1]),
    ensures
        acquired_targets(calls) + states.last() == states[0] + released_targets(calls),
        states.last().len() == states[0].len() - acquired_targets(calls).len()
            + released_targets(calls).len(),
        forall|i: int|
            0 <= i < calls.len() ==> (#[trigger] calls[i] matches PoolCall::Acquire(r) ==> (r is Some
                <==> states[i].len() > 0)),
    decreases calls.len(),
{
    assert forall|i: int|
        0 <= i < calls.len() implies (#[trigger] calls[i] matches PoolCall::Acquire(r) ==> (r is Some
        <==> states[i].len() > 0)) by {
        assert(pool_call_step(states[i], calls[i], states[i + 1]));
    }
    if calls.len() == 0 {
        assert(acquired_targets(calls) + states.last() =~= states[0] + released_targets(calls));
    } else {
        let n = calls.len() - 1;
        let cs = calls.drop_last();
        let ss = states.drop_last();
        assert forall|i: int| 0 <= i < cs.len() implies #[trigger] pool_call_step(
            ss[i],
            cs[i],
            ss[i + 1],
        ) by {
            assert(pool_call_step(states[i], calls[i], states[i + 1]));
        }
        law_pool_fifo(ss, cs);
        let a = acquired_targets(cs);
        let r = released_targets(cs);
        assert(a + states[n] == states[0] + r);
        assert(pool_call_step(states[n], calls[n], states[n + 1]));
        assert(calls.last() == calls[n]);
        assert(states.last() == states[n + 1]);
        match calls[n] {
            PoolCall::Acquire(Some(t)) => {
                assert(acquired_targets(calls) == a + seq![t]);
                assert(released_targets(calls) == r + Seq::<T>::empty());
                assert(a + seq![t] + states[n].drop_first() =~= a + states[n]);
                assert(r + Seq::<T>::empty() =~= r);
            },
            PoolCall::Acquire(None) => {
                assert(acquired_targets(calls) == a + Seq::<T>::empty());
                assert(released_targets(calls) == r + Seq::<T>::empty());
                assert(a + Seq::<T>::empty() =~= a);
                assert(r + Seq::<T>::empty() =~= r);
            },
            PoolCall::Release(t) => {
                assert(acquired_targets(calls) == a + Seq::<T>::empty());
                assert(released_targets(calls) == r + seq![t]);
                assert(a + Seq::<T>::empty() =~= a);
                assert(a + states[n].push(t) =~= (a + states[n]) + seq![t]);
                assert(states[0] + (r + seq![t]) =~= (states[0] + r) + seq![t]);
            },
        }
    }
    assert((acquired_targets(calls) + states.last()).len() == (states[0] + released_targets(
        calls,
    )).len());
}

/// Reusable targets at a fixed resolution, handed out first-in first-out.
pub struct TexturePool<T> {
    free: VecDeque<T>,
    size: FrameSize,
}

impl<T> TexturePool<T> {
    /// The targets waiting to be handed out, in the order they will be.
    pub closed spec fn free_targets(&self) -> Seq<T> {
        self.free@
    }

    /// The resolution the pool was made for.
    pub closed spec fn spec_size(&self) -> FrameSize {
        self.size
    }

    /// A pool of `size` frames holding `targets`, first one first out.
    pub fn new(size: FrameSize, targets: Vec<T>) -> (r: Self)
        ensures
            r.free_targets() == targets@,
            r.spec_size() == size,
    {
        let mut free: VecDeque<T> = VecDeque::new();
        let mut targets = targets;
        let ghost all = targets@;
        while targets.len() > 0
            invariant
                targets@ == all.subrange(0, targets@.len() as int),
                free@ == all.subrange(targets@.len() as int, all.len() as int),
                targets@.len() <= all.len(),
            decreases targets.len(),
        {
            let t = targets.pop().unwrap();
            free.push_front(t);
            assert(free@ =~= all.subrange(targets@.len() as int, all.len() as int));
            assert(targets@ =~= all.subrange(0, targets@.len() as int));
        }
        assert(free@ =~= all);
        TexturePool { free, size }
    }

    /// The resolution the pool was made for.
    pub fn size(&self) -> (r: FrameSize)
        ensures
            r == self.spec_size(),
    {
        self.size
    }

    /// The oldest free target, or `None` when every target is in use.
    pub fn acquire(&mut self) -> (r: Option<T>)
        ensures
            final(self).spec_size() == old(self).spec_size(),
            old(self).free_targets().len() == 0 ==> r is None && final(self).free_targets() == old(
                self,
            ).free_targets(),
            old(self).free_targets().len() > 0 ==> r == Some(old(self).free_targets()[0])
                && final(self).free_targets() == old(self).free_targets().drop_first(),
            pool_call_step(old(self).free_targets(), PoolCall::Acquire(r), final(self).free_targets()),
    {
        self.free.pop_front()
    }

    /// Returns a target to the pool, behind the ones already free.
    pub fn release(&mut self, targets: T)
        ensures
            final(self).spec_size() == old(self).spec_size(),
            final(self).free_targets() == old(self).free_targets().push(targets),
            pool_call_step(old(self).free_targets(), PoolCall::Release(targets), final(self).free_targets()),
    {
        self.free.push_back(targets);
    }

    /// How many targets are free.
    pub fn available(&self) -> (r: usize)
        ensures
            r == self.free_targets().len(),
    {
        self.free.len()
    }
}

} // verus!
