use vstd::prelude::*;

verus! {

/// One step of the host-lock protocol, by the thread with the given id.
#[derive(Debug, Clone, Copy, PartialEq, Eq)]
pub enum LockOp {
    /// The thread takes the host lock (after blocking until it is free).
    Acquire(u64),
    /// The thread gives the host lock up.
    Release(u64),
    /// The thread starts running a closure that touches host memory.
    EnterClosure(u64),
    /// The thread's closure returned (or unwound).
    ExitClosure(u64),
}

/// Why a lock step was refused.
#[derive(Debug, Clone, Copy, PartialEq, Eq)]
pub enum LockError {
    /// Acquire while another thread holds the lock.
    Busy,
    /// Release or closure entry by a thread that does not hold the lock.
    NotHolder,
    /// Release or closure entry while a closure is still running.
    ClosureRunning,
    /// Closure exit by a thread that is not running one.
    NoClosure,
}

/// Who holds the host lock and who runs a closure under it.
pub struct LockModel {
    pub holder: Option<u64>,
    pub inside: Option<u64>,
}

/// The ledger's invariant: a closure only runs on the thread holding the
/// lock.
pub open spec fn lock_wf(m: LockModel) -> bool {
    m.inside is Some ==> m.holder == m.inside
}

/// The ledger after step `op`, or `None` when the step is refused.
pub open spec fn lock_step_spec(m: LockModel, op: LockOp) -> Option<LockModel> {
    match op {
        LockOp::Acquire(t) => if m.holder is None {
            Some(LockModel { holder: Some(t), inside: m.inside })
        } else {
            None
        },
        LockOp::Release(t) => if m.holder == Some(t) && m.inside is None {
            Some(LockModel { holder: None, inside: None })
        } else {
            None
        },
        LockOp::EnterClosure(t) => if m.holder == Some(t) && m.inside is None {
            Some(LockModel { holder: m.holder, inside: Some(t) })
        } else {
            None
        },
        LockOp::ExitClosure(t) => if m.inside == Some(t) {
            Some(LockModel { holder: m.holder, inside: None })
        } else {
            None
        },
    }
}

/// The error reported for a refused step.
pub open spec fn lock_error_spec(m: LockModel, op: LockOp) -> LockError {
    match op {
        LockOp::Acquire(_) => LockError::Busy,
        LockOp::Release(t) | LockOp::EnterClosure(t) => if m.holder != Some(t) {
            LockError::NotHolder
        } else {
            LockError::ClosureRunning
        },
        LockOp::ExitClosure(_) => LockError::NoClosure,
    }
}

/// The ledger after the steps `ops`, or `None` as soon as one is refused.
pub open spec fn lock_run_spec(m: LockModel, ops: Seq<LockOp>) -> Option<LockModel>
    decreases ops.len(),
{
    if ops.len() == 0 {
        Some(m)
    } else {
        match lock_step_spec(m, ops[0]) {
            Some(n) => lock_run_spec(n, ops.subrange(1, ops.len() as int)),
            None => None,
        }
    }
}

/// Whatever steps any threads take, in any interleaving, every state the
/// ledger accepts keeps a closure only on the lock holder: at most one
/// closure runs under the lock at any instant.
pub proof fn lemma_closures_serialized(m: LockModel, ops: Seq<LockOp>)
    requires
        lock_wf(m),
        lock_run_spec(m, ops) is Some,
    ensures
        lock_wf(lock_run_spec(m, ops)->Some_0),
    decreases ops.len(),
{
    if ops.len() > 0 {
        let n = lock_step_spec(m, ops[0])->Some_0;
        lemma_closures_serialized(n, ops.subrange(1, ops.len() as int));
    }
}

/// While one closure runs under the lock, no thread can start another one
/// nor take the lock.
pub proof fn lemma_no_second_closure(m: LockModel, t: u64)
    requires
        lock_wf(m),
        m.inside is Some,
    ensures
        lock_step_spec(m, LockOp::EnterClosure(t)) is None,
        lock_step_spec(m, LockOp::Acquire(t)) is None,
{
}

/// The synchronous handoff from host thread `host` to worker `worker`: the
/// host task releases the lock, the worker takes it, runs its closure and
/// gives it up, and the host takes it back. Every step is accepted, the
/// closure runs while the worker holds the lock, and the ledger ends as it
/// began.
pub proof fn lemma_handoff_round_trip(host: u64, worker: u64)
    ensures
        ({
            let start = LockModel { holder: Some(host), inside: None };
            let to_closure = seq![LockOp::Release(host), LockOp::Acquire(worker), LockOp::EnterClosure(worker)];
            let back = seq![LockOp::ExitClosure(worker), LockOp::Release(worker), LockOp::Acquire(host)];
            &&& lock_run_spec(start, to_closure) == Some(
                LockModel { holder: Some(worker), inside: Some(worker) },
            )
            &&& lock_run_spec(start, to_closure + back) == Some(start)
        }),
{
    let start = LockModel { holder: Some(host), inside: None };
    let to_closure = seq![LockOp::Release(host), LockOp::Acquire(worker), LockOp::EnterClosure(worker)];
    let back = seq![LockOp::ExitClosure(worker), LockOp::Release(worker), LockOp::Acquire(host)];
    let all = to_closure + back;
    reveal_with_fuel(lock_run_spec, 7);
    assert(to_closure.subrange(1, 3) =~= seq![LockOp::Acquire(worker), LockOp::EnterClosure(worker)]);
    assert(to_closure.subrange(1, 3).subrange(1, 2) =~= seq![LockOp::EnterClosure(worker)]);
    assert(to_closure.subrange(1, 3).subrange(1, 2).subrange(1, 1) =~= Seq::<LockOp>::empty());
    let a1 = all.subrange(1, 6);
    let a2 = a1.subrange(1, 5);
    let a3 = a2.subrange(1, 4);
    let a4 = a3.subrange(1, 3);
    let a5 = a4.subrange(1, 2);
    let a6 = a5.subrange(1, 1);
    assert(all[0] == LockOp::Release(host));
    assert(a1 =~= seq![LockOp::Acquire(worker), LockOp::EnterClosure(worker), LockOp::ExitClosure(worker), LockOp::Release(worker), LockOp::Acquire(host)]);
    assert(a2 =~= seq![LockOp::EnterClosure(worker), LockOp::ExitClosure(worker), LockOp::Release(worker), LockOp::Acquire(host)]);
    assert(a3 =~= seq![LockOp::ExitClosure(worker), LockOp::Release(worker), LockOp::Acquire(host)]);
    assert(a4 =~= seq![LockOp::Release(worker), LockOp::Acquire(host)]);
    assert(a5 =~= seq![LockOp::Acquire(host)]);
    assert(a6 =~= Seq::<LockOp>::empty());
}

/// Bookkeeping of the host lock: which thread holds it and which thread
/// runs a closure under it.
pub struct LockLedger {
    holder: Option<u64>,
    inside: Option<u64>,
}

impl View for LockLedger {
    type V = LockModel;

    closed spec fn view(&self) -> LockModel {
        LockModel { holder: self.holder, inside: self.inside }
    }
}

impl LockLedger {
    /// A ledger in which thread `t` holds the lock and runs no closure.
    pub fn held_by(t: u64) -> (r: Self)
        ensures
            r@ == (LockModel { holder: Some(t), inside: None }),
    {
        LockLedger { holder: Some(t), inside: None }
    }

    /// A ledger in which nobody holds the lock.
    pub fn released() -> (r: Self)
        ensures
            r@ == (LockModel { holder: None, inside: None }),
    {
        LockLedger { holder: None, inside: None }
    }

    /// The thread holding the lock, if any.
    pub fn holder(&self) -> (r: Option<u64>)
        ensures
            r == self@.holder,
    {
        self.holder
    }

    /// Records step `op`; a refused step leaves the ledger unchanged.
    pub fn apply(&mut self, op: LockOp) -> (r: Result<(), LockError>)
        ensures
            match lock_step_spec(old(self)@, op) {
                Some(m) => r is Ok && final(self)@ == m,
                None => r == Err::<(), LockError>(lock_error_spec(old(self)@, op))
                    && final(self)@ == old(self)@,
            },
    {
        match op {
            LockOp::Acquire(t) => {
                if self.holder.is_none() {
                    self.holder = Some(t);
                    Ok(())
                } else {
                    Err(LockError::Busy)
                }
            },
            LockOp::Release(t) => {
                if self.holder != Some(t) {
                    Err(LockError::NotHolder)
                } else if self.inside.is_some() {
                    Err(LockError::ClosureRunning)
                } else {
                    self.holder = None;
                    Ok(())
                }
            },
            LockOp::EnterClosure(t) => {
                if self.holder != Some(t) {
                    Err(LockError::NotHolder)
                } else if self.inside.is_some() {
                    Err(LockError::ClosureRunning)
                } else {
                    self.inside = Some(t);
                    Ok(())
                }
            },
            LockOp::ExitClosure(t) => {
                if self.inside == Some(t) {
                    self.inside = None;
                    Ok(())
                } else {
                    Err(LockError::NoClosure)
                }
            },
        }
    }
}

} // verus!
