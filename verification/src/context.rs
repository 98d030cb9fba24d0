//! The context registry of one thread and the protocol by which an
//! `AsyncContext` makes its context visible while its future is polled.
//!
//! Every poll of an `AsyncContext` runs in two steps around the poll of the
//! wrapped future: `begin_poll` moves the context out of the `AsyncContext`
//! into the registry and makes it the visible one; `finish_poll` takes it
//! back, hides every context again and, depending on whether the wrapped
//! future finished, hands the context out with the future's value or keeps
//! it for the next poll.
//!
//! Polls nest like calls on one thread, so the registry keeps the context of
//! every poll in progress on a stack. Only the most recently begun one can be
//! visible, and it stops being visible as soon as any poll finishes.
use vstd::prelude::*;

verus! {

/// What one poll of a future gave back.
pub enum PollOutcome<T> {
    Ready(T),
    Pending,
}

/// The abstract state of a thread's registry.
#[verifier::ext_equal]
pub struct RegistryView<C> {
    /// The contexts of the polls in progress, innermost last.
    pub frames: Seq<C>,
    /// Whether a context is visible; set when a poll begins, cleared when
    /// any poll finishes.
    pub active: bool,
}

/// The context that accessors see in a registry state.
pub open spec fn visible<C>(s: RegistryView<C>) -> Option<C> {
    if s.active && s.frames.len() > 0 {
        Some(s.frames.last())
    } else {
        None
    }
}

/// The registry after a poll begins with context `ctx`.
pub open spec fn entered<C>(s: RegistryView<C>, ctx: C) -> RegistryView<C> {
    RegistryView { frames: s.frames.push(ctx), active: true }
}

/// The registry after the innermost poll in progress finishes.
pub open spec fn exited<C>(s: RegistryView<C>) -> RegistryView<C> {
    RegistryView { frames: s.frames.drop_last(), active: false }
}

/// The registry after the visible context has been replaced by `ctx`.
pub open spec fn with_visible<C>(s: RegistryView<C>, ctx: C) -> RegistryView<C> {
    RegistryView { frames: s.frames.update(s.frames.len() - 1, ctx), active: s.active }
}

/// The context registry of one thread.
pub struct ContextState<C> {
    frames: Vec<C>,
    active: bool,
}

impl<C> View for ContextState<C> {
    type V = RegistryView<C>;

    closed spec fn view(&self) -> RegistryView<C> {
        RegistryView { frames: self.frames@, active: self.active }
    }
}

impl<C> ContextState<C> {
    /// The visible context, as the reference an accessor is handed.
    pub open spec fn current_ref(&self) -> Option<&C> {
        if self@.active && self@.frames.len() > 0 {
            Some(&self@.frames.last())
        } else {
            None
        }
    }

    /// A registry with no poll in progress.
    pub fn new() -> (s: Self)
        ensures
            s@.frames == Seq::<C>::empty(),
            !s@.active,
            visible(s@) is None,
    {
        ContextState { frames: Vec::new(), active: false }
    }

    /// Whether a context is visible, that is, whether a poll of an
    /// `AsyncContext` is running on this thread.
    pub fn has_context(&self) -> (r: bool)
        ensures
            r == self@.active,
    {
        self.active
    }

    /// How many polls of an `AsyncContext` are in progress.
    pub fn depth(&self) -> (r: usize)
        ensures
            r == self@.frames.len(),
    {
        self.frames.len()
    }
}

/// A context waiting to be made visible to the polls of one future.
pub struct AsyncContext<C> {
    ctx: Option<C>,
}

impl<C> View for AsyncContext<C> {
    type V = Option<C>;

    /// The context held between polls; `None` while a poll is in progress
    /// and after the future has finished.
    closed spec fn view(&self) -> Option<C> {
        self.ctx
    }
}

/// The slot and registry after a poll begins.
pub open spec fn begun<C>(slot: Option<C>, s: RegistryView<C>) -> (Option<C>, RegistryView<C>) {
    (None, entered(s, slot->0))
}

/// The slot, registry and result after the innermost poll finishes with `outcome`.
pub open spec fn finished<C, T>(slot: Option<C>, s: RegistryView<C>, outcome: PollOutcome<T>) -> (
    Option<C>,
    RegistryView<C>,
    PollOutcome<(T, C)>,
) {
    match outcome {
        PollOutcome::Ready(v) => (slot, exited(s), PollOutcome::Ready((v, s.frames.last()))),
        PollOutcome::Pending => (Some(s.frames.last()), exited(s), PollOutcome::Pending),
    }
}

/// Wraps `ctx` for the polls of a future. A context cannot be created while
/// another one is visible, that is, from inside the poll of an
/// `AsyncContext`.
pub fn execute_with_async_context<C>(state: &ContextState<C>, ctx: C) -> (r: AsyncContext<C>)
    requires
        !state@.active,
    ensures
        r@ == Some(ctx),
{
    AsyncContext { ctx: Some(ctx) }
}

/// Wraps `ctx` for the polls of a future, or gives `None`, leaving the
/// registry alone, when a context is visible: a context cannot be created
/// from inside the poll of an `AsyncContext`.
pub fn try_execute_with_async_context<C>(state: &ContextState<C>, ctx: C) -> (r: Option<
    AsyncContext<C>,
>)
    ensures
        r is None <==> state@.active,
        r matches Some(a) ==> a@ == Some(ctx),
{
    if state.has_context() {
        None
    } else {
        Some(execute_with_async_context(state, ctx))
    }
}

impl<C> AsyncContext<C> {
    /// Whether the context is held, waiting for the next poll.
    pub fn is_waiting(&self) -> (r: bool)
        ensures
            r == (self@ is Some),
    {
        self.ctx.is_some()
    }

    /// First step of a poll: the held context becomes the visible one.
    pub fn begin_poll(&mut self, state: &mut ContextState<C>)
        requires
            old(self)@ is Some,
        ensures
            (final(self)@, final(state)@) == begun(old(self)@, old(state)@),
            visible(final(state)@) == old(self)@,
    {
        let ctx = self.ctx.take().unwrap();
        state.frames.push(ctx);
        state.active = true;
    }

    /// First step of a poll when the context is held; when it is not (the
    /// future has already finished, or a poll of it is in progress), gives
    /// `false` and changes nothing, so that the wrapped future is not polled.
    pub fn try_begin_poll(&mut self, state: &mut ContextState<C>) -> (started: bool)
        ensures
            started <==> old(self)@ is Some,
            started ==> (final(self)@, final(state)@) == begun(old(self)@, old(state)@),
            !started ==> final(self)@ == old(self)@ && final(state)@ == old(state)@,
    {
        if self.is_waiting() {
            self.begin_poll(state);
            true
        } else {
            false
        }
    }

    /// Last step of a poll, once the wrapped future has been polled: the
    /// context of the innermost poll is taken back and no context is visible
    /// any more. A finished future hands its value out with the context; an
    /// unfinished one keeps the context for its next poll.
    pub fn finish_poll<T>(&mut self, state: &mut ContextState<C>, outcome: PollOutcome<T>) -> (r:
        PollOutcome<(T, C)>)
        requires
            old(state)@.frames.len() > 0,
        ensures
            (final(self)@, final(state)@, r) == finished(old(self)@, old(state)@, outcome),
            visible(final(state)@) is None,
    {
        let ctx = state.frames.pop().unwrap();
        state.active = false;
        match outcome {
            PollOutcome::Ready(v) => PollOutcome::Ready((v, ctx)),
            PollOutcome::Pending => {
                self.ctx = Some(ctx);
                PollOutcome::Pending
            },
        }
    }
}

/// Runs `f` on the visible context, or on `None` when no context is visible.
pub fn from_context<C, F, R>(state: &ContextState<C>, f: F) -> (r: R) where
    F: FnOnce(Option<&C>) -> R,

    requires
        f.requires((state.current_ref(),)),
    ensures
        f.ensures((state.current_ref(),), r),
{
    if state.active && state.frames.len() > 0 {
        let last = state.frames.len() - 1;
        f(Some(&state.frames[last]))
    } else {
        f(None)
    }
}

/// Runs `f` on a mutable borrow of the visible context; what `f` leaves in
/// it stays the visible context. A context must be visible.
pub fn from_context_mut<C, F, R>(state: &mut ContextState<C>, f: F) -> (r: R) where
    F: FnOnce(Option<&mut C>) -> R,

    requires
        visible(old(state)@) is Some,
        forall|m: &mut C| *m == old(state)@.frames.last() ==> f.requires((Some(m),)),
    ensures
        exists|m: &mut C|
            {
                &&& *m == old(state)@.frames.last()
                &&& f.ensures((Some(m),), r)
                &&& final(state)@.frames == old(state)@.frames.update(
                    old(state)@.frames.len() - 1,
                    *final(m),
                )
            },
        final(state)@.active == old(state)@.active,
        final(state)@ =~= with_visible(old(state)@, final(state)@.frames.last()),
{
    let last = state.frames.len() - 1;
    let c = &mut state.frames[last];
    f(Some(c))
}

/// Runs `f` on a mutable borrow of the visible context, as
/// `from_context_mut` does; when no context is visible, gives `None` without
/// calling `f` and leaves the registry alone.
pub fn try_from_context_mut<C, F, R>(state: &mut ContextState<C>, f: F) -> (r: Option<R>) where
    F: FnOnce(Option<&mut C>) -> R,

    requires
        visible(old(state)@) is Some ==> forall|m: &mut C|
            *m == old(state)@.frames.last() ==> f.requires((Some(m),)),
    ensures
        r is None <==> visible(old(state)@) is None,
        r is None ==> final(state)@ == old(state)@,
        r matches Some(v) ==> exists|m: &mut C|
            {
                &&& *m == old(state)@.frames.last()
                &&& f.ensures((Some(m),), v)
                &&& final(state)@.frames == old(state)@.frames.update(
                    old(state)@.frames.len() - 1,
                    *final(m),
                )
            },
        r is Some ==> final(state)@ =~= with_visible(old(state)@, final(state)@.frames.last()),
{
    if state.active && state.frames.len() > 0 {
        Some(from_context_mut(state, f))
    } else {
        None
    }
}

/// The text `"(no context)"`.
pub open spec fn no_context_text() -> Seq<char> {
    seq!['(', 'n', 'o', ' ', 'c', 'o', 'n', 't', 'e', 'x', 't', ')']
}

/// Describes the visible context with `describe`, or gives `"(no context)"`
/// when no context is visible.
pub fn context_as_string<C, F>(state: &ContextState<C>, describe: F) -> (r: String) where
    F: FnOnce(&C) -> String,

    requires
        visible(state@) matches Some(c) ==> describe.requires((&c,)),
    ensures
        match visible(state@) {
            Some(c) => describe.ensures((&c,), r),
            None => r@ == no_context_text(),
        },
{
    if state.active && state.frames.len() > 0 {
        let last = state.frames.len() - 1;
        describe(&state.frames[last])
    } else {
        let r = String::from_str("(no context)");
        proof {
            reveal_strlit("(no context)");
        }
        r
    }
}

/// A poll that begins with context `ctx` and finishes, whatever the wrapped
/// future gave back, leaves the registry as it was with no context visible,
/// and hands `ctx` out or keeps it, unchanged, for the next poll.
pub proof fn lemma_poll_restores_registry<C, T>(ctx: C, s: RegistryView<C>, outcome: PollOutcome<T>)
    ensures
        ({
            let (slot1, s1) = begun(Some(ctx), s);
            let (slot2, s2, r) = finished(slot1, s1, outcome);
            &&& s2.frames == s.frames
            &&& !s2.active
            &&& match outcome {
                PollOutcome::Ready(v) => slot2 is None && r == PollOutcome::Ready((v, ctx)),
                PollOutcome::Pending => slot2 == Some(ctx) && r is Pending,
            }
        }),
{
    assert(s.frames.push(ctx).drop_last() =~= s.frames);
}

/// While a poll is in progress, the context of that poll is the visible one,
/// and no new context can be created.
pub proof fn lemma_visible_during_poll<C>(ctx: C, s: RegistryView<C>)
    ensures
        visible(begun(Some(ctx), s).1) == Some(ctx),
        begun(Some(ctx), s).1.active,
{
}

/// Once a poll finishes, no context is visible until the next poll begins.
pub proof fn lemma_hidden_after_poll<C, T>(slot: Option<C>, s: RegistryView<C>, outcome: PollOutcome<T>)
    ensures
        visible(finished(slot, s, outcome).1) is None,
        !finished(slot, s, outcome).1.active,
{
}

/// What replaces the visible context during a poll is the context that the
/// poll hands out with the future's value, or keeps for the next poll.
pub proof fn lemma_changes_reach_result<C, T>(ctx: C, changed: C, s: RegistryView<C>, outcome: PollOutcome<T>)
    ensures
        ({
            let (slot1, s1) = begun(Some(ctx), s);
            let (slot2, s2, r) = finished(slot1, with_visible(s1, changed), outcome);
            &&& s2.frames == s.frames
            &&& match outcome {
                PollOutcome::Ready(v) => r == PollOutcome::Ready((v, changed)),
                PollOutcome::Pending => slot2 == Some(changed),
            }
        }),
{
    let s1 = entered(s, ctx);
    assert(with_visible(s1, changed).frames.drop_last() =~= s.frames);
}

/// A context kept by a poll that did not finish is visible, unchanged, at
/// the next poll of its future, whatever other polls ran on the thread in
/// between.
pub proof fn lemma_context_persists_across_polls<C>(ctx: C, s: RegistryView<C>, later: RegistryView<C>)
    ensures
        ({
            let (slot1, s1) = begun(Some(ctx), s);
            let (slot2, s2, r) = finished(slot1, s1, PollOutcome::<()>::Pending);
            visible(begun(slot2, later).1) == Some(ctx)
        }),
{
}

/// Once a poll has handed the context out with the future's value, the
/// context is no longer held: a further poll cannot begin, so the wrapped
/// future is not polled again.
pub proof fn lemma_finished_future_not_polled_again<C, T>(ctx: C, s: RegistryView<C>, v: T)
    ensures
        ({
            let (slot1, s1) = begun(Some(ctx), s);
            finished(slot1, s1, PollOutcome::Ready(v)).0 is None
        }),
{
}

/// What is written into the visible context is what is read from it next.
pub proof fn lemma_written_context_read_back<C>(s: RegistryView<C>, written: C)
    requires
        visible(s) is Some,
    ensures
        visible(with_visible(s, written)) == Some(written),
        with_visible(s, written).frames.len() == s.frames.len(),
        with_visible(s, written).active == s.active,
{
}

} // verus!
