use vstd::prelude::*;
use vstd::arithmetic::div_mod::lemma_div_denominator;
use highway::{HighwayHash, HighwayHasher, Key};

verus! {

/// Stage of a future that awaits a host promise `P`.
///
/// The host-side adapter is registered on the first poll, not at
/// construction, so nothing is registered with the host before someone
/// actually awaits.
#[derive(Debug)]
pub enum PromiseFutureState<P> {
    /// Not polled yet; still holds the host promise.
    NotStarted(P),
    /// The adapter is registered and is being awaited.
    Running,
    /// The result was handed out.
    Completed,
}

/// What drives the promise future forward.
#[derive(Debug, Clone, Copy, PartialEq, Eq)]
pub enum PromiseEvent {
    /// The awaiting task polls the future.
    Poll,
    /// The adapter was polled and has no result yet.
    InnerPending,
    /// The adapter was polled and produced the result.
    InnerReady,
}

/// What the embedding layer must do next.
#[derive(Debug, PartialEq, Eq)]
pub enum PromiseAction<P> {
    /// Register the host adapter for this promise, then poll it.
    Register(P),
    /// Poll the registered adapter.
    PollInner,
    /// Report `Pending` to the awaiting task.
    ReturnPending,
    /// Report the adapter's result to the awaiting task.
    ReturnReady,
}

/// A refused transition of the promise future.
#[derive(Debug, Clone, Copy, PartialEq, Eq)]
pub enum PromiseError {
    /// The future was polled after it had produced its result.
    PolledAfterCompletion,
    /// An adapter outcome arrived while no adapter was being polled.
    UnexpectedEvent,
}

/// The transition of the promise future on event `e`: the next stage and the
/// action to perform, or the reason the event is refused (the stage then
/// stays as it was).
pub open spec fn step_spec<P>(st: PromiseFutureState<P>, e: PromiseEvent) -> Result<
    (PromiseFutureState<P>, PromiseAction<P>),
    PromiseError,
> {
    match (st, e) {
        (PromiseFutureState::NotStarted(p), PromiseEvent::Poll) => Ok(
            (PromiseFutureState::Running, PromiseAction::Register(p)),
        ),
        (PromiseFutureState::Running, PromiseEvent::Poll) => Ok(
            (PromiseFutureState::Running, PromiseAction::PollInner),
        ),
        (PromiseFutureState::Running, PromiseEvent::InnerPending) => Ok(
            (PromiseFutureState::Running, PromiseAction::ReturnPending),
        ),
        (PromiseFutureState::Running, PromiseEvent::InnerReady) => Ok(
            (PromiseFutureState::Completed, PromiseAction::ReturnReady),
        ),
        (PromiseFutureState::Completed, PromiseEvent::Poll) => Err(
            PromiseError::PolledAfterCompletion,
        ),
        _ => Err(PromiseError::UnexpectedEvent),
    }
}

/// The stage after event `e`; a refused event leaves it unchanged.
pub open spec fn after_spec<P>(st: PromiseFutureState<P>, e: PromiseEvent) -> PromiseFutureState<P> {
    match step_spec(st, e) {
        Ok((next, _)) => next,
        Err(_) => st,
    }
}

/// How many times the events `es`, applied from stage `st`, ask for the host
/// adapter to be registered.
pub open spec fn registrations<P>(st: PromiseFutureState<P>, es: Seq<PromiseEvent>) -> nat
    decreases es.len(),
{
    if es.len() == 0 {
        0
    } else {
        let here: nat = match step_spec(st, es[0]) {
            Ok((_, PromiseAction::Register(_))) => 1,
            _ => 0,
        };
        here + registrations(after_spec(st, es[0]), es.subrange(1, es.len() as int))
    }
}

proof fn lemma_no_registration_once_started<P>(st: PromiseFutureState<P>, es: Seq<PromiseEvent>)
    requires
        !(st is NotStarted),
    ensures
        registrations(st, es) == 0,
    decreases es.len(),
{
    if es.len() > 0 {
        lemma_no_registration_once_started(after_spec(st, es[0]), es.subrange(1, es.len() as int));
    }
}

/// Whatever events drive a promise future, the host adapter is registered
/// at most once, and never once the future has started.
pub proof fn lemma_registers_at_most_once<P>(st: PromiseFutureState<P>, es: Seq<PromiseEvent>)
    ensures
        registrations(st, es) <= 1,
        !(st is NotStarted) ==> registrations(st, es) == 0,
    decreases es.len(),
{
    if !(st is NotStarted) {
        lemma_no_registration_once_started(st, es);
    } else if es.len() > 0 {
        let rest = es.subrange(1, es.len() as int);
        if es[0] == PromiseEvent::Poll {
            lemma_no_registration_once_started(after_spec(st, es[0]), rest);
        } else {
            lemma_registers_at_most_once(after_spec(st, es[0]), rest);
        }
    }
}

/// A future awaiting the host promise `P`.
pub struct PromiseFuture<P> {
    state: PromiseFutureState<P>,
}

impl<P> View for PromiseFuture<P> {
    type V = PromiseFutureState<P>;

    closed spec fn view(&self) -> PromiseFutureState<P> {
        self.state
    }
}

impl<P> PromiseFuture<P> {
    /// A future that has not started awaiting `promise` yet.
    pub fn new(promise: P) -> (r: Self)
        ensures
            r@ == PromiseFutureState::NotStarted(promise),
    {
        PromiseFuture { state: PromiseFutureState::NotStarted(promise) }
    }

    /// Applies event `e` and returns the action to perform.
    pub fn step(&mut self, e: PromiseEvent) -> (r: Result<PromiseAction<P>, PromiseError>)
        ensures
            match step_spec(old(self)@, e) {
                Ok((st, a)) => r == Ok::<PromiseAction<P>, PromiseError>(a) && final(self)@ == st,
                Err(err) => r == Err::<PromiseAction<P>, PromiseError>(err) && final(self)@
                    == old(self)@,
            },
    {
        let mut st = PromiseFutureState::Completed;
        core::mem::swap(&mut self.state, &mut st);
        match st {
            PromiseFutureState::NotStarted(p) => match e {
                PromiseEvent::Poll => {
                    self.state = PromiseFutureState::Running;
                    Ok(PromiseAction::Register(p))
                },
                _ => {
                    self.state = PromiseFutureState::NotStarted(p);
                    Err(PromiseError::UnexpectedEvent)
                },
            },
            PromiseFutureState::Running => {
                self.state = PromiseFutureState::Running;
                match e {
                    PromiseEvent::Poll => Ok(PromiseAction::PollInner),
                    PromiseEvent::InnerPending => Ok(PromiseAction::ReturnPending),
                    PromiseEvent::InnerReady => {
                        self.state = PromiseFutureState::Completed;
                        Ok(PromiseAction::ReturnReady)
                    },
                }
            },
            PromiseFutureState::Completed => match e {
                PromiseEvent::Poll => Err(PromiseError::PolledAfterCompletion),
                _ => Err(PromiseError::UnexpectedEvent),
            },
        }
    }
}

/// A promise for a value produced by the host side.
///
/// Awaiting consumes it: it can be turned into a future only once.
pub struct Promise<P> {
    inner: P,
}

impl<P> Promise<P> {
    /// Wraps the host-side pending value `inner`.
    pub fn new(inner: P) -> (r: Self)
        ensures
            r.inner_spec() == inner,
    {
        Promise { inner }
    }

    /// The host-side pending value.
    pub closed spec fn inner_spec(&self) -> P {
        self.inner
    }

    /// The host-side pending value, for handing the promise back to the host.
    pub fn inner(&self) -> (r: &P)
        ensures
            *r == self.inner_spec(),
    {
        &self.inner
    }

    /// Starts awaiting: a future that registers its adapter on first poll.
    pub fn into_future(self) -> (r: PromiseFuture<P>)
        ensures
            r@ == PromiseFutureState::NotStarted(self.inner_spec()),
    {
        PromiseFuture::new(self.inner)
    }
}

/// Text of the host type of a promise whose value has host type `inner`.
pub open spec fn promise_desc_spec(inner: Seq<char>) -> Seq<char> {
    "(("@ + inner + ") Lwt.t)"@
}

/// The host type of a promise whose value has host type `inner`, e.g.
/// `((int) Lwt.t)`.
pub fn promise_ocaml_desc(inner: &str) -> (r: String)
    ensures
        r@ == promise_desc_spec(inner@),
{
    proof {
        reveal_strlit("((");
        reveal_strlit(") Lwt.t)");
    }
    let mut s = String::from_str("((");
    s.append(inner);
    s.append(") Lwt.t)");
    s
}

/// 256 to the power `i`: the weight of byte `i` in a little-endian number.
pub open spec fn byte_weight(i: nat) -> int
    decreases i,
{
    if i == 0 {
        1
    } else {
        256 * byte_weight((i - 1) as nat)
    }
}

proof fn lemma_byte_weight_positive(i: nat)
    ensures
        byte_weight(i) > 0,
    decreases i,
{
    if i > 0 {
        lemma_byte_weight_positive((i - 1) as nat);
    }
}

/// The sixteen bytes of `x`, least significant first.
pub open spec fn le_bytes_spec(x: u128) -> Seq<u8> {
    Seq::new(16, |i: int| ((x as int / byte_weight(i as nat)) % 256) as u8)
}

/// The sixteen bytes of `x`, least significant first.
pub fn u128_le_bytes(x: u128) -> (r: Vec<u8>)
    ensures
        r@ == le_bytes_spec(x),
{
    let mut out: Vec<u8> = Vec::new();
    let mut rest: u128 = x;
    let mut i: usize = 0;
    while i < 16
        invariant
            i <= 16,
            rest as int == x as int / byte_weight(i as nat),
            out@.len() == i,
            forall|j: int| 0 <= j < i ==> out@[j] == le_bytes_spec(x)[j],
        decreases 16 - i,
    {
        out.push((rest % 256) as u8);
        proof {
            lemma_byte_weight_positive(i as nat);
            lemma_div_denominator(x as int, byte_weight(i as nat), 256);
        }
        rest = rest / 256;
        i = i + 1;
    }
    assert(out@ =~= le_bytes_spec(x));
    out
}

/// The 128-bit HighwayHash of `data` under `key`, as two 64-bit halves.
pub uninterp spec fn highway_hash128_of(key: Seq<u64>, data: Seq<u8>) -> Seq<u64>;

/// Relies on highway::HighwayHasher::new and HighwayHash::hash128: the
/// 128-bit HighwayHash of `data` under `key`, which depends on the key and
/// the bytes alone.
#[verifier::external_body]
fn highway_hash128(key: [u64; 4], data: &[u8]) -> (r: [u64; 2])
    ensures
        r@ == highway_hash128_of(key@, data@),
{
    HighwayHasher::new(Key(key)).hash128(data)
}

/// The number whose low 64 bits are `halves[0]` and high 64 bits `halves[1]`.
pub open spec fn halves_value(halves: Seq<u64>) -> int {
    halves[0] as int + halves[1] as int * 0x1_0000_0000_0000_0000
}

/// Joins two 64-bit halves, low half first, into one 128-bit number.
pub fn combine_halves(halves: [u64; 2]) -> (r: u128)
    ensures
        r as int == halves_value(halves@),
{
    let lo = halves[0];
    let hi = halves[1];
    assert(hi as int * 0x1_0000_0000_0000_0000 + lo as int <= 0xffff_ffff_ffff_ffff_ffff_ffff_ffff_ffff)
        by (nonlinear_arith)
        requires
            hi <= 0xffff_ffff_ffff_ffff,
            lo <= 0xffff_ffff_ffff_ffff,
    ;
    (hi as u128) * 0x1_0000_0000_0000_0000 + (lo as u128)
}

/// Type identity of a promise whose value type has identity `inner_id`: the
/// HighwayHash under `key` of the value identity's little-endian bytes.
pub fn promise_unique_id(key: [u64; 4], inner_id: u128) -> (r: u128)
    ensures
        r as int == halves_value(highway_hash128_of(key@, le_bytes_spec(inner_id))),
{
    let bytes = u128_le_bytes(inner_id);
    let halves = highway_hash128(key, bytes.as_slice());
    combine_halves(halves)
}

} // verus!
