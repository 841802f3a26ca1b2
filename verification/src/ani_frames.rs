//! Bookkeeping of animation frame callbacks: the running state of an animation
//! and the callbacks it calls on every frame.
use vstd::prelude::*;

use std::marker::PhantomData;

verus! {

/// The state of an animation: paused, running on every frame, or running for a
/// single frame. A running state carries the id of the requested frame.
#[derive(Copy, Clone, Debug, PartialEq, Eq, Structural)]
pub enum AniState {
    /// No frame is requested.
    Paused,
    /// A frame is requested, and every frame requests the next one.
    Running(i32),
    /// A single frame is requested.
    RunningOnce(i32),
}

/// The index of a callback of an animation, or of a requested frame.
#[derive(Debug)]
pub struct AniIndex<C> {
    inner: i32,
    _marker: PhantomData<C>,
}

impl<C> AniIndex<C> {
    /// The number this index stands for.
    pub closed spec fn spec_inner(&self) -> i32 {
        self.inner
    }

    /// An index for the number `index`.
    pub fn new(index: i32) -> (r: Self)
        ensures
            r.spec_inner() == index,
    {
        AniIndex { inner: index, _marker: PhantomData }
    }

    /// The number this index stands for.
    pub fn inner(&self) -> (r: i32)
        ensures
            r == self.spec_inner(),
    {
        self.inner
    }
}

/// What starting an animation asks of the browser before it runs.
#[derive(Copy, Clone, Debug, PartialEq, Eq, Structural)]
pub enum StartAction {
    /// The animation is already running: nothing to do.
    Nothing,
    /// Request an animation frame.
    Request,
    /// Cancel the single frame requested earlier, then request a frame.
    CancelAndRequest(i32),
}

/// The frame an animation in state `s` has requested, if any.
pub open spec fn requested_frame(s: AniState) -> Option<i32> {
    match s {
        AniState::Paused => None,
        AniState::Running(ix) => Some(ix),
        AniState::RunningOnce(ix) => Some(ix),
    }
}

/// What starting an animation in state `s` asks of the browser.
pub open spec fn start_action_for(s: AniState) -> StartAction {
    match s {
        AniState::Paused => StartAction::Request,
        AniState::Running(_) => StartAction::Nothing,
        AniState::RunningOnce(ix) => StartAction::CancelAndRequest(ix),
    }
}

struct Ani<C, F> {
    state: AniState,
    next_index: AniIndex<C>,
    callbacks: Vec<(AniIndex<C>, F)>,
}

impl<C, F> Ani<C, F> {
    fn paused() -> (r: Self)
        ensures
            r.state == AniState::Paused,
            r.next_index.spec_inner() == 1,
            r.callbacks@.len() == 0,
    {
        Ani { state: AniState::Paused, next_index: AniIndex::new(1), callbacks: Vec::new() }
    }
}

/// An animation: a state and the callbacks it calls on every frame, each under
/// the index it was added with.
pub struct Animation<C, F>(Ani<C, F>);

impl<C, F> Animation<C, F> {
    /// The state of the animation.
    pub closed spec fn spec_state(&self) -> AniState {
        self.0.state
    }

    /// The index the next callback receives.
    pub closed spec fn spec_next_index(&self) -> i32 {
        self.0.next_index.spec_inner()
    }

    /// The indices of the callbacks, in the order they were added.
    pub closed spec fn spec_indices(&self) -> Seq<i32> {
        self.0.callbacks@.map_values(|e: (AniIndex<C>, F)| e.0.spec_inner())
    }

    /// The callbacks, in the order they were added.
    pub closed spec fn spec_callbacks(&self) -> Seq<F> {
        self.0.callbacks@.map_values(|e: (AniIndex<C>, F)| e.1)
    }

    /// The indices of the callbacks increase strictly and stay below the next
    /// index, which is positive.
    pub open spec fn wf(&self) -> bool {
        &&& self.spec_next_index() >= 1
        &&& self.spec_indices().len() == self.spec_callbacks().len()
        &&& forall|i: int, j: int|
            0 <= i < j < self.spec_indices().len() ==> self.spec_indices()[i]
                < self.spec_indices()[j]
        &&& forall|i: int|
            0 <= i < self.spec_indices().len() ==> 1 <= #[trigger] self.spec_indices()[i]
                < self.spec_next_index()
    }

    fn from_ani(ani: Ani<C, F>) -> (r: Self)
        ensures
            r.0 == ani,
    {
        Animation(ani)
    }

    /// A paused animation without callbacks.
    pub fn paused() -> (r: Self)
        ensures
            r.wf(),
            r.spec_state() == AniState::Paused,
            r.spec_next_index() == 1,
            r.spec_callbacks().len() == 0,
    {
        let r = Animation::from_ani(Ani::paused());
        proof {
            assert(r.spec_indices() =~= Seq::<i32>::empty());
            assert(r.spec_callbacks() =~= Seq::<F>::empty());
        }
        r
    }

    /// An animation without callbacks, started with the frame `frame` that the
    /// browser gave for its first request.
    pub fn new(frame: i32) -> (r: Self)
        ensures
            r.wf(),
            r.spec_state() == AniState::Running(frame),
            r.spec_next_index() == 1,
            r.spec_callbacks().len() == 0,
    {
        let mut r = Self::paused();
        r.set_running(frame);
        r
    }

    /// The state of the animation.
    pub fn state(&self) -> (r: AniState)
        ensures
            r == self.spec_state(),
    {
        self.0.state
    }

    /// The index the next callback receives.
    pub fn next_index(&self) -> (r: i32)
        ensures
            r == self.spec_next_index(),
    {
        self.0.next_index.inner
    }

    /// The number of callbacks.
    pub fn len(&self) -> (r: usize)
        ensures
            r == self.spec_callbacks().len(),
    {
        self.0.callbacks.len()
    }

    /// The callback at position `i`, in the order they were added.
    pub fn callback(&self, i: usize) -> (r: &F)
        requires
            i < self.spec_callbacks().len(),
        ensures
            *r == self.spec_callbacks()[i as int],
    {
        &self.0.callbacks[i].1
    }

    /// Adds a callback, which the animation calls on every frame, and returns
    /// its index.
    pub fn add(&mut self, cb: F) -> (r: AniIndex<C>)
        requires
            old(self).wf(),
            old(self).spec_next_index() < i32::MAX,
        ensures
            final(self).wf(),
            r.spec_inner() == old(self).spec_next_index(),
            final(self).spec_next_index() == old(self).spec_next_index() + 1,
            final(self).spec_indices() == old(self).spec_indices().push(r.spec_inner()),
            final(self).spec_callbacks() == old(self).spec_callbacks().push(cb),
            final(self).spec_state() == old(self).spec_state(),
    {
        let old_ix = self.0.next_index.inner;
        self.0.next_index = AniIndex::new(old_ix + 1);
        self.0.callbacks.push((AniIndex::new(old_ix), cb));
        proof {
            assert(self.spec_indices() =~= old(self).spec_indices().push(old_ix));
            assert(self.spec_callbacks() =~= old(self).spec_callbacks().push(cb));
        }
        AniIndex::new(old_ix)
    }

    /// Removes the callback added under `index`; fails when there is none.
    pub fn remove(&mut self, index: AniIndex<C>) -> (r: Result<(), ()>)
        requires
            old(self).wf(),
        ensures
            final(self).wf(),
            final(self).spec_state() == old(self).spec_state(),
            final(self).spec_next_index() == old(self).spec_next_index(),
            match r {
                Ok(_) => exists|p: int|
                    0 <= p < old(self).spec_indices().len()
                        && old(self).spec_indices()[p] == index.spec_inner()
                        && final(self).spec_indices() == old(self).spec_indices().remove(p)
                        && final(self).spec_callbacks() == old(self).spec_callbacks().remove(p),
                Err(_) => !old(self).spec_indices().contains(index.spec_inner())
                    && final(self).spec_indices() == old(self).spec_indices()
                    && final(self).spec_callbacks() == old(self).spec_callbacks(),
            },
    {
        let n = self.0.callbacks.len();
        let mut i: usize = 0;
        while i < n
            invariant
                n == self.0.callbacks@.len(),
                self.0 == old(self).0,
                old(self).wf(),
                0 <= i <= n,
                forall|j: int| 0 <= j < i ==> self.spec_indices()[j] != index.spec_inner(),
            decreases n - i,
        {
            if self.0.callbacks[i].0.inner == index.inner {
                let ghost before = self.0.callbacks@;
                let _ = self.0.callbacks.remove(i);
                proof {
                    assert(self.spec_indices() =~= old(self).spec_indices().remove(i as int));
                    assert(self.spec_callbacks() =~= old(self).spec_callbacks().remove(i as int));
                    let s = old(self).spec_indices();
                    let t = self.spec_indices();
                    assert forall|a: int, b: int| 0 <= a < b < t.len() implies t[a] < t[b] by {
                        if b < i {
                        } else if a < i {
                            assert(t[b] == s[b + 1]);
                        } else {
                            assert(t[a] == s[a + 1]);
                            assert(t[b] == s[b + 1]);
                        }
                    }
                    assert forall|a: int| 0 <= a < t.len() implies 1 <= #[trigger] t[a]
                        < self.spec_next_index() by {
                        if a >= i {
                            assert(t[a] == s[a + 1]);
                        }
                    }
                }
                return Ok(());
            }
            i = i + 1;
        }
        Err(())
    }

    /// What starting the animation asks of the browser before it runs.
    pub fn start_action(&self) -> (r: StartAction)
        ensures
            r == start_action_for(self.spec_state()),
    {
        match self.0.state {
            AniState::Paused => StartAction::Request,
            AniState::Running(_) => StartAction::Nothing,
            AniState::RunningOnce(ix) => StartAction::CancelAndRequest(ix),
        }
    }

    /// Records that the animation runs on every frame, the next one being `frame`.
    pub fn set_running(&mut self, frame: i32)
        requires
            old(self).wf(),
        ensures
            final(self).wf(),
            final(self).spec_state() == AniState::Running(frame),
            final(self).spec_next_index() == old(self).spec_next_index(),
            final(self).spec_indices() == old(self).spec_indices(),
            final(self).spec_callbacks() == old(self).spec_callbacks(),
    {
        self.0.state = AniState::Running(frame);
    }

    /// Whether running the animation once asks for a frame: only a paused
    /// animation does.
    pub fn once_requests_frame(&self) -> (r: bool)
        ensures
            r == (self.spec_state() == AniState::Paused),
    {
        match self.0.state {
            AniState::Paused => true,
            _ => false,
        }
    }

    /// Records that the animation runs for the single frame `frame`.
    pub fn set_running_once(&mut self, frame: i32)
        requires
            old(self).wf(),
        ensures
            final(self).wf(),
            final(self).spec_state() == AniState::RunningOnce(frame),
            final(self).spec_next_index() == old(self).spec_next_index(),
            final(self).spec_indices() == old(self).spec_indices(),
            final(self).spec_callbacks() == old(self).spec_callbacks(),
    {
        self.0.state = AniState::RunningOnce(frame);
    }

    /// Pauses the animation; returns the requested frame, to be cancelled.
    pub fn pause(&mut self) -> (r: Option<i32>)
        requires
            old(self).wf(),
        ensures
            final(self).wf(),
            final(self).spec_state() == AniState::Paused,
            r == requested_frame(old(self).spec_state()),
            final(self).spec_next_index() == old(self).spec_next_index(),
            final(self).spec_indices() == old(self).spec_indices(),
            final(self).spec_callbacks() == old(self).spec_callbacks(),
    {
        let r = match self.0.state {
            AniState::Paused => None,
            AniState::Running(ix) => Some(ix),
            AniState::RunningOnce(ix) => Some(ix),
        };
        self.0.state = AniState::Paused;
        r
    }
}

/// The callbacks of an animation have distinct indices.
pub proof fn lemma_indices_distinct<C, F>(a: Animation<C, F>, i: int, j: int)
    requires
        a.wf(),
        0 <= i < a.spec_indices().len(),
        0 <= j < a.spec_indices().len(),
        i != j,
    ensures
        a.spec_indices()[i] != a.spec_indices()[j],
{
    if i < j {
        assert(a.spec_indices()[i] < a.spec_indices()[j]);
    } else {
        assert(a.spec_indices()[j] < a.spec_indices()[i]);
    }
}

/// Removing the callback that was just added gives the callbacks back as they
/// were before.
pub proof fn lemma_add_then_remove<C, F>(
    before: Animation<C, F>,
    added: Animation<C, F>,
    removed: Animation<C, F>,
    cb: F,
    index: i32,
)
    requires
        before.wf(),
        added.wf(),
        index == before.spec_next_index(),
        added.spec_indices() == before.spec_indices().push(index),
        added.spec_callbacks() == before.spec_callbacks().push(cb),
        exists|p: int|
            0 <= p < added.spec_indices().len() && added.spec_indices()[p] == index
                && removed.spec_indices() == added.spec_indices().remove(p)
                && removed.spec_callbacks() == added.spec_callbacks().remove(p),
    ensures
        removed.spec_indices() == before.spec_indices(),
        removed.spec_callbacks() == before.spec_callbacks(),
{
    let p = choose|p: int|
        0 <= p < added.spec_indices().len() && added.spec_indices()[p] == index
            && removed.spec_indices() == added.spec_indices().remove(p)
            && removed.spec_callbacks() == added.spec_callbacks().remove(p);
    let last = before.spec_indices().len() as int;
    if p != last {
        assert(added.spec_indices()[p] == before.spec_indices()[p]);
        assert(before.spec_indices()[p] < before.spec_next_index());
    }
    assert(removed.spec_indices() =~= before.spec_indices());
    assert(removed.spec_callbacks() =~= before.spec_callbacks());
}

/// Starting and pausing undo each other: an animation that was started
/// (running on every frame or once) gives back on pausing the frame it
/// requested, a running animation is not started again, and once paused, it
/// has no frame to cancel and starting it requests a new frame.
pub proof fn lemma_start_then_pause<C, F>(started: Animation<C, F>, paused: Animation<C, F>, frame: i32)
    requires
        started.spec_state() == AniState::Running(frame) || started.spec_state()
            == AniState::RunningOnce(frame),
        paused.spec_state() == AniState::Paused,
    ensures
        requested_frame(started.spec_state()) == Some(frame),
        started.spec_state() == AniState::Running(frame) ==> start_action_for(started.spec_state())
            == StartAction::Nothing,
        started.spec_state() == AniState::RunningOnce(frame) ==> start_action_for(
            started.spec_state(),
        ) == StartAction::CancelAndRequest(frame),
        requested_frame(paused.spec_state()) is None,
        start_action_for(paused.spec_state()) == StartAction::Request,
{
}

} // verus!
