use ocaml_lwt_interop::domain_executor::{ocaml_runtime, ContextError, ExecutorStack};

#[test]
fn nested_contexts_released_innermost_first_restore_the_stack() {
    let mut stack: ExecutorStack<u32> = ExecutorStack::new();
    let outer = stack.enter(1);
    let before = stack.depth();
    let guards: Vec<_> = (10..15).map(|c| stack.enter(c)).collect();
    assert_eq!(stack.depth(), 6);
    assert_eq!(stack.current(), Some(&14));
    for g in guards.into_iter().rev() {
        assert_eq!(stack.exit(g), Ok(()));
    }
    assert_eq!(stack.depth(), before);
    assert_eq!(stack.current(), Some(&1));
    assert_eq!(stack.exit(outer), Ok(()));
    assert_eq!(stack.depth(), 0);
    assert_eq!(stack.current(), None);
}

#[test]
fn releasing_an_outer_context_first_is_refused() {
    let mut stack: ExecutorStack<&str> = ExecutorStack::new();
    let outer = stack.enter("a");
    let inner = stack.enter("b");
    assert_eq!(outer.depth(), 0);
    assert_eq!(inner.depth(), 1);
    assert_eq!(stack.exit(outer), Err(ContextError::OutOfOrderExit));
    assert_eq!(stack.depth(), 2);
    assert_eq!(stack.current(), Some(&"b"));
    assert_eq!(stack.exit(inner), Ok(()));
    assert_eq!(stack.current(), Some(&"a"));
}

#[test]
fn guard_released_twice_over_a_newer_entry_is_refused() {
    let mut stack: ExecutorStack<u8> = ExecutorStack::new();
    let a = stack.enter(7);
    let b = stack.enter(8);
    assert_eq!(stack.exit(b), Ok(()));
    assert_eq!(stack.exit(a), Ok(()));
    let c = stack.enter(9);
    let d = stack.enter(10);
    assert_eq!(stack.exit(c), Err(ContextError::OutOfOrderExit));
    assert_eq!(stack.exit(d), Ok(()));
}

#[test]
fn runtime_access_needs_an_active_context() {
    let mut stack: ExecutorStack<u8> = ExecutorStack::new();
    assert!(matches!(ocaml_runtime(&stack), Err(ContextError::NoContext)));
    let g = stack.enter(3);
    assert!(ocaml_runtime(&stack).is_ok());
    assert_eq!(stack.exit(g), Ok(()));
    assert!(matches!(ocaml_runtime(&stack), Err(ContextError::NoContext)));
}
