use ocaml_lwt_interop::caml_runtime::{LockError, LockLedger, LockOp};

const HOST: u64 = 0;

#[test]
fn handoff_to_a_worker_and_back() {
    let mut l = LockLedger::held_by(HOST);
    assert_eq!(l.apply(LockOp::Release(HOST)), Ok(()));
    assert_eq!(l.holder(), None);
    assert_eq!(l.apply(LockOp::Acquire(1)), Ok(()));
    assert_eq!(l.apply(LockOp::EnterClosure(1)), Ok(()));
    assert_eq!(l.apply(LockOp::ExitClosure(1)), Ok(()));
    assert_eq!(l.apply(LockOp::Release(1)), Ok(()));
    assert_eq!(l.apply(LockOp::Acquire(HOST)), Ok(()));
    assert_eq!(l.holder(), Some(HOST));
}

#[test]
fn second_worker_waits_while_a_closure_runs() {
    let mut l = LockLedger::released();
    assert_eq!(l.apply(LockOp::Acquire(1)), Ok(()));
    assert_eq!(l.apply(LockOp::EnterClosure(1)), Ok(()));
    assert_eq!(l.apply(LockOp::Acquire(2)), Err(LockError::Busy));
    assert_eq!(l.apply(LockOp::EnterClosure(2)), Err(LockError::NotHolder));
    assert_eq!(l.apply(LockOp::EnterClosure(1)), Err(LockError::ClosureRunning));
    assert_eq!(l.apply(LockOp::Release(1)), Err(LockError::ClosureRunning));
    assert_eq!(l.apply(LockOp::ExitClosure(2)), Err(LockError::NoClosure));
    assert_eq!(l.apply(LockOp::ExitClosure(1)), Ok(()));
    assert_eq!(l.apply(LockOp::Release(1)), Ok(()));
    assert_eq!(l.apply(LockOp::Acquire(2)), Ok(()));
    assert_eq!(l.apply(LockOp::EnterClosure(2)), Ok(()));
    assert_eq!(l.holder(), Some(2));
}

#[test]
fn release_by_a_non_holder_is_refused() {
    let mut l = LockLedger::held_by(HOST);
    assert_eq!(l.apply(LockOp::Release(3)), Err(LockError::NotHolder));
    assert_eq!(l.apply(LockOp::ExitClosure(HOST)), Err(LockError::NoClosure));
    assert_eq!(l.holder(), Some(HOST));
}
