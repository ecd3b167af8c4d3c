use vstd::prelude::*;

verus! {

/// Why an ambient-context operation was refused.
#[derive(Debug, Clone, Copy, PartialEq, Eq)]
pub enum ContextError {
    /// No executor context is active on this thread.
    NoContext,
    /// A guard was released while a context entered after it was still
    /// active.
    OutOfOrderExit,
}

/// Stack of executor contexts active on one thread, innermost last.
///
/// Entering pushes a context and hands back a guard; a guard may only be
/// released while its context is the innermost one.
pub struct ExecutorStack<C> {
    entries: Vec<C>,
}

/// Proof that a context was entered at a given nesting depth.
///
/// It is not `Clone`: each entry is released at most once.
pub struct ExecutorGuard {
    depth: usize,
}

impl ExecutorGuard {
    /// Number of contexts that were active below the guarded one.
    pub closed spec fn depth_spec(&self) -> nat {
        self.depth as nat
    }

    /// Nesting depth at which the guarded context was entered.
    pub fn depth(&self) -> (r: usize)
        ensures
            r == self.depth_spec(),
    {
        self.depth
    }
}

/// The stack after entering `ctx`.
pub open spec fn enter_spec<C>(s: Seq<C>, ctx: C) -> Seq<C> {
    s.push(ctx)
}

/// Releasing the guard taken at `depth` is accepted exactly when that
/// context is the innermost one.
pub open spec fn exit_accepted<C>(s: Seq<C>, depth: nat) -> bool {
    depth + 1 == s.len()
}

/// The stack after releasing the guard taken at `depth`, or `None` when the
/// release is refused.
pub open spec fn exit_spec<C>(s: Seq<C>, depth: nat) -> Option<Seq<C>> {
    if exit_accepted(s, depth) {
        Some(s.drop_last())
    } else {
        None
    }
}

/// The stack after entering each of `ctxs` in order.
pub open spec fn enter_all<C>(s: Seq<C>, ctxs: Seq<C>) -> Seq<C>
    decreases ctxs.len(),
{
    if ctxs.len() == 0 {
        s
    } else {
        enter_spec(enter_all(s, ctxs.drop_last()), ctxs.last())
    }
}

/// The stack after releasing the guards taken at `depths`, in that order, or
/// `None` as soon as one release is refused.
pub open spec fn exit_all<C>(s: Seq<C>, depths: Seq<nat>) -> Option<Seq<C>>
    decreases depths.len(),
{
    if depths.len() == 0 {
        Some(s)
    } else {
        match exit_spec(s, depths[0]) {
            Some(t) => exit_all(t, depths.subrange(1, depths.len() as int)),
            None => None,
        }
    }
}

/// Depths of `n` guards taken from a stack of `base` contexts, innermost
/// first: the order in which nested scopes release them.
pub open spec fn lifo_depths(base: nat, n: nat) -> Seq<nat> {
    Seq::new(n, |i: int| (base + n - 1 - i) as nat)
}

proof fn lemma_enter_all_appends<C>(s: Seq<C>, ctxs: Seq<C>)
    ensures
        enter_all(s, ctxs) == s + ctxs,
    decreases ctxs.len(),
{
    if ctxs.len() > 0 {
        lemma_enter_all_appends(s, ctxs.drop_last());
        assert(s + ctxs.drop_last() + seq![ctxs.last()] =~= s + ctxs);
    } else {
        assert(s + ctxs =~= s);
    }
}

/// Entering any number of nested contexts and releasing their guards
/// innermost first is accepted at every step and restores the stack as it
/// was before the first entry.
pub proof fn lemma_lifo_exit_restores<C>(s: Seq<C>, ctxs: Seq<C>)
    ensures
        exit_all(enter_all(s, ctxs), lifo_depths(s.len(), ctxs.len())) == Some(s),
    decreases ctxs.len(),
{
    lemma_enter_all_appends(s, ctxs);
    let n = ctxs.len();
    let ds = lifo_depths(s.len(), n);
    if n == 0 {
        assert(s + ctxs =~= s);
    } else {
        let rest = ctxs.drop_last();
        assert((s + ctxs).drop_last() =~= s + rest);
        assert(ds.subrange(1, n as int) =~= lifo_depths(s.len(), rest.len()));
        lemma_lifo_exit_restores(s, rest);
        lemma_enter_all_appends(s, rest);
    }
}

/// After entering nested contexts, releasing the guard of any context but
/// the innermost one is refused.
pub proof fn lemma_out_of_order_exit_refused<C>(s: Seq<C>, ctxs: Seq<C>, k: nat)
    requires
        k + 1 < ctxs.len(),
    ensures
        exit_spec(enter_all(s, ctxs), s.len() + k) is None,
{
    lemma_enter_all_appends(s, ctxs);
}

impl<C> View for ExecutorStack<C> {
    type V = Seq<C>;

    closed spec fn view(&self) -> Seq<C> {
        self.entries@
    }
}

impl<C> ExecutorStack<C> {
    /// An empty stack: no context is active.
    pub fn new() -> (r: Self)
        ensures
            r@ == Seq::<C>::empty(),
    {
        ExecutorStack { entries: Vec::new() }
    }

    /// Makes `ctx` the innermost active context.
    pub fn enter(&mut self, ctx: C) -> (g: ExecutorGuard)
        ensures
            final(self)@ == enter_spec(old(self)@, ctx),
            g.depth_spec() == old(self)@.len(),
    {
        let depth = self.entries.len();
        self.entries.push(ctx);
        ExecutorGuard { depth }
    }

    /// Releases the context that `guard` was taken for; refused, with the
    /// stack unchanged, unless that context is the innermost one.
    pub fn exit(&mut self, guard: ExecutorGuard) -> (r: Result<(), ContextError>)
        ensures
            r is Ok <==> exit_accepted(old(self)@, guard.depth_spec()),
            r is Err ==> r == Err::<(), ContextError>(ContextError::OutOfOrderExit),
            final(self)@ == match exit_spec(old(self)@, guard.depth_spec()) {
                Some(s) => s,
                None => old(self)@,
            },
    {
        let len = self.entries.len();
        if len > 0 && guard.depth == len - 1 {
            let _ = self.entries.pop();
            Ok(())
        } else {
            Err(ContextError::OutOfOrderExit)
        }
    }

    /// The innermost active context, if any.
    pub fn current(&self) -> (r: Option<&C>)
        ensures
            self@.len() == 0 ==> r is None,
            self@.len() > 0 ==> r == Some(&self@.last()),
    {
        let len = self.entries.len();
        if len == 0 {
            None
        } else {
            Some(&self.entries[len - 1])
        }
    }

    /// Number of active contexts.
    pub fn depth(&self) -> (r: usize)
        ensures
            r == self@.len(),
    {
        self.entries.len()
    }
}

/// Capability to touch host-managed memory, granted only on a thread where an
/// executor context is active (that executor is ticked by the host while it
/// holds the host lock).
pub struct OcamlRuntimeGuard {
    depth: usize,
}

impl OcamlRuntimeGuard {
    /// Depth of the context stack when the capability was granted.
    pub closed spec fn depth_spec(&self) -> nat {
        self.depth as nat
    }
}

/// Grants access to the host runtime, or refuses with
/// [`ContextError::NoContext`] when no executor context is active.
pub fn ocaml_runtime<C>(stack: &ExecutorStack<C>) -> (r: Result<OcamlRuntimeGuard, ContextError>)
    ensures
        r is Ok <==> stack@.len() > 0,
        r is Ok ==> r->Ok_0.depth_spec() == stack@.len(),
        r is Err ==> r->Err_0 == ContextError::NoContext,
{
    let depth = stack.depth();
    if depth == 0 {
        Err(ContextError::NoContext)
    } else {
        Ok(OcamlRuntimeGuard { depth })
    }
}

} // verus!
