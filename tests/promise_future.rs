use ocaml_lwt_interop::promise::{
    Promise, PromiseAction, PromiseError, PromiseEvent, PromiseFuture,
};

#[test]
fn adapter_is_registered_on_first_poll_only() {
    let mut f = Promise::new("p").into_future();
    assert_eq!(f.step(PromiseEvent::Poll), Ok(PromiseAction::Register("p")));
    assert_eq!(f.step(PromiseEvent::InnerPending), Ok(PromiseAction::ReturnPending));
    assert_eq!(f.step(PromiseEvent::Poll), Ok(PromiseAction::PollInner));
    assert_eq!(f.step(PromiseEvent::InnerReady), Ok(PromiseAction::ReturnReady));
}

#[test]
fn poll_after_completion_is_refused() {
    let mut f = PromiseFuture::new(1u8);
    assert_eq!(f.step(PromiseEvent::Poll), Ok(PromiseAction::Register(1)));
    assert_eq!(f.step(PromiseEvent::InnerReady), Ok(PromiseAction::ReturnReady));
    assert_eq!(f.step(PromiseEvent::Poll), Err(PromiseError::PolledAfterCompletion));
    assert_eq!(f.step(PromiseEvent::Poll), Err(PromiseError::PolledAfterCompletion));
}

#[test]
fn adapter_outcome_without_adapter_is_refused() {
    let mut f = PromiseFuture::new(2u8);
    assert_eq!(f.step(PromiseEvent::InnerReady), Err(PromiseError::UnexpectedEvent));
    assert_eq!(f.step(PromiseEvent::InnerPending), Err(PromiseError::UnexpectedEvent));
    assert_eq!(f.step(PromiseEvent::Poll), Ok(PromiseAction::Register(2)));
    assert_eq!(f.step(PromiseEvent::InnerReady), Ok(PromiseAction::ReturnReady));
    assert_eq!(f.step(PromiseEvent::InnerPending), Err(PromiseError::UnexpectedEvent));
}

#[test]
fn promise_keeps_its_host_value() {
    let p = Promise::new(vec![1, 2, 3]);
    assert_eq!(p.inner(), &vec![1, 2, 3]);
}
