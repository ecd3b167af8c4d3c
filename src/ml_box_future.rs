use vstd::prelude::*;
use crate::error::Error;

verus! {

/// Outcome of one poll of a future.
#[derive(Debug, PartialEq, Eq)]
pub enum PollOutcome<T> {
    Ready(T),
    Pending,
}

/// Why a host-side resolution was refused.
#[derive(Debug, Clone, Copy, PartialEq, Eq)]
pub enum ResolveError {
    /// The future was already resolved or rejected once.
    AlreadyCompleted,
}

/// What the shared state of a host-driven future holds.
pub struct FutureModel<V, W> {
    /// The result, from the moment it is set until an awaiter takes it.
    pub value: Option<Result<V, Error>>,
    /// The waker of the last awaiter that found no result.
    pub waker: Option<W>,
    /// Whether a result was ever set.
    pub completed: bool,
}

/// Shared state of a future that the host side resolves or rejects and a
/// worker-side task awaits.
///
/// `V` is the value handed over and `W` the waker type of the awaiting task.
/// The embedding layer keeps it behind a mutex and wakes the waker that a
/// resolution hands back.
pub struct MlBoxFuture<V, W> {
    value: Option<Result<V, Error>>,
    waker: Option<W>,
    completed: bool,
}

/// The state of a future nobody has resolved or polled yet.
pub open spec fn fresh_model<V, W>() -> FutureModel<V, W> {
    FutureModel { value: None, waker: None, completed: false }
}

/// Polling: takes the result if there is one, else records `w` to be woken.
pub open spec fn poll_spec<V, W>(m: FutureModel<V, W>, w: W) -> (
    PollOutcome<Result<V, Error>>,
    FutureModel<V, W>,
) {
    match m.value {
        Some(r) => (
            PollOutcome::Ready(r),
            FutureModel { value: None, waker: m.waker, completed: m.completed },
        ),
        None => (
            PollOutcome::Pending,
            FutureModel { value: None, waker: Some(w), completed: m.completed },
        ),
    }
}

/// Setting the result: refused (`None`) once a result was ever set; else the
/// new state and the waker to wake, if an awaiter left one.
pub open spec fn settle_spec<V, W>(m: FutureModel<V, W>, r: Result<V, Error>) -> Option<
    (FutureModel<V, W>, Option<W>),
> {
    if m.completed {
        None
    } else {
        Some((FutureModel { value: Some(r), waker: None, completed: true }, m.waker))
    }
}

/// The state after polls on behalf of the wakers `ws`, in order.
pub open spec fn poll_all<V, W>(m: FutureModel<V, W>, ws: Seq<W>) -> FutureModel<V, W>
    decreases ws.len(),
{
    if ws.len() == 0 {
        m
    } else {
        poll_spec(poll_all(m, ws.drop_last()), ws.last()).1
    }
}

proof fn lemma_polls_keep_completed<V, W>(m: FutureModel<V, W>, ws: Seq<W>)
    ensures
        poll_all(m, ws).completed == m.completed,
    decreases ws.len(),
{
    if ws.len() > 0 {
        lemma_polls_keep_completed(m, ws.drop_last());
    }
}

/// A future is settled at most once: after one resolution or rejection has
/// been accepted, any later one is refused, whatever polls come between.
pub proof fn lemma_settle_at_most_once<V, W>(
    m: FutureModel<V, W>,
    first: Result<V, Error>,
    ws: Seq<W>,
    second: Result<V, Error>,
)
    requires
        settle_spec(m, first) is Some,
    ensures
        settle_spec(poll_all(settle_spec(m, first)->Some_0.0, ws), second) is None,
{
    lemma_polls_keep_completed(settle_spec(m, first)->Some_0.0, ws);
}

/// A task that polls a future nobody has settled stays pending and leaves its
/// waker; the resolution hands exactly that waker back to be woken, and the
/// next poll is ready with the result.
pub proof fn lemma_wake_then_ready<V, W>(w: W, r: Result<V, Error>, w2: W)
    ensures
        ({
            let (before, m1) = poll_spec(fresh_model::<V, W>(), w);
            let settled = settle_spec(m1, r);
            &&& before == PollOutcome::<Result<V, Error>>::Pending
            &&& settled == Some((
                FutureModel::<V, W> { value: Some(r), waker: None, completed: true },
                Some(w),
            ))
            &&& poll_spec(settled->Some_0.0, w2).0 == PollOutcome::Ready(r)
        }),
{
}

/// Resolving a fresh future with `v` makes the awaiter's poll yield
/// `Ok(v)`; rejecting it with `msg` makes it yield the rejection error
/// carrying `msg`.
pub proof fn lemma_round_trip<V, W>(v: V, msg: String, w: W)
    ensures
        poll_spec(settle_spec(fresh_model::<V, W>(), Ok(v))->Some_0.0, w).0
            == PollOutcome::<Result<V, Error>>::Ready(Ok(v)),
        poll_spec(
            settle_spec(fresh_model::<V, W>(), Err(Error::LwtPromiseRejection(msg)))->Some_0.0,
            w,
        ).0 == PollOutcome::<Result<V, Error>>::Ready(Err(Error::LwtPromiseRejection(msg))),
{
}

impl<V, W> View for MlBoxFuture<V, W> {
    type V = FutureModel<V, W>;

    closed spec fn view(&self) -> FutureModel<V, W> {
        FutureModel { value: self.value, waker: self.waker, completed: self.completed }
    }
}

impl<V, W> MlBoxFuture<V, W> {
    /// A future with no result and no waiting task.
    pub fn new() -> (r: Self)
        ensures
            r@ == fresh_model::<V, W>(),
    {
        MlBoxFuture { value: None, waker: None, completed: false }
    }

    /// Polls on behalf of the task whose waker is `waker`.
    pub fn poll(&mut self, waker: W) -> (r: PollOutcome<Result<V, Error>>)
        ensures
            (r, final(self)@) == poll_spec(old(self)@, waker),
    {
        match self.value.take() {
            Some(result) => PollOutcome::Ready(result),
            None => {
                self.waker = Some(waker);
                PollOutcome::Pending
            },
        }
    }

    /// Sets the result once; on success returns the waker to wake.
    fn set_value(&mut self, result: Result<V, Error>) -> (r: Result<Option<W>, ResolveError>)
        ensures
            match settle_spec(old(self)@, result) {
                Some((m, w)) => r == Ok::<Option<W>, ResolveError>(w) && final(self)@ == m,
                None => r == Err::<Option<W>, ResolveError>(ResolveError::AlreadyCompleted)
                    && final(self)@ == old(self)@,
            },
    {
        if self.completed {
            return Err(ResolveError::AlreadyCompleted);
        }
        self.completed = true;
        self.value = Some(result);
        Ok(self.waker.take())
    }

    /// Fulfils the future with `value`; returns the waker to wake.
    pub fn resolve(&mut self, value: V) -> (r: Result<Option<W>, ResolveError>)
        ensures
            match settle_spec(old(self)@, Ok(value)) {
                Some((m, w)) => r == Ok::<Option<W>, ResolveError>(w) && final(self)@ == m,
                None => r == Err::<Option<W>, ResolveError>(ResolveError::AlreadyCompleted)
                    && final(self)@ == old(self)@,
            },
    {
        self.set_value(Ok(value))
    }

    /// Fails the future with the host's description `msg`; returns the waker
    /// to wake.
    pub fn reject(&mut self, msg: String) -> (r: Result<Option<W>, ResolveError>)
        ensures
            match settle_spec(old(self)@, Err(Error::LwtPromiseRejection(msg))) {
                Some((m, w)) => r == Ok::<Option<W>, ResolveError>(w) && final(self)@ == m,
                None => r == Err::<Option<W>, ResolveError>(ResolveError::AlreadyCompleted)
                    && final(self)@ == old(self)@,
            },
    {
        self.set_value(Err(Error::LwtPromiseRejection(msg)))
    }

    /// Whether a result was ever set.
    pub fn is_completed(&self) -> (r: bool)
        ensures
            r == self@.completed,
    {
        self.completed
    }
}

impl<V, W> Default for MlBoxFuture<V, W> {
    /// Same as [`MlBoxFuture::new`].
    fn default() -> (r: Self)
        ensures
            r@ == fresh_model::<V, W>(),
    {
        Self::new()
    }
}

} // verus!
