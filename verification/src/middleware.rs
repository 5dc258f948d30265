//! Middleware: hooks that run before a handler is tried and after its
//! endpoint has succeeded.

use vstd::prelude::*;
use crate::di::{Contents, Injector};
use crate::flow::{pass, Flow, Verdict};
use crate::update::{Client, Update};

verus! {

/// What a middleware may do: from the injector's contents before it ran, the
/// verdicts it can give and the contents it can leave.
pub type Effects = spec_fn(Client, Update, Contents, Verdict, Contents) -> bool;

/// Middleware trait.
pub trait Middleware {
    /// What the middleware can do. A middleware that says nothing of its
    /// effects allows every effect.
    open spec fn effects(&self) -> spec_fn(Client, Update, Contents, Verdict, Contents) -> bool {
        |client: Client, update: Update, before: Contents, verdict: Verdict, after: Contents| true
    }

    /// Handles the middleware. What it does is something that `effects`
    /// allows, and it leaves the middleware with the effects it had.
    fn handle(&mut self, client: &Client, update: &Update, injector: &mut Injector) -> (flow: Flow)
        ensures
            old(self).effects()(*client, *update, old(injector)@, flow@, final(injector)@),
            final(self).effects() == old(self).effects(),
    ;
}

/// A function that is handed a client, an update and the injector, and
/// hands the injector back with its verdict, held as a middleware.
pub struct MiddlewareFn<F: Fn(&Client, &Update, Injector) -> (Flow, Injector)> {
    /// The function.
    f: F,
}

impl<F: Fn(&Client, &Update, Injector) -> (Flow, Injector)> MiddlewareFn<F> {
    #[verifier::type_invariant]
    spec fn total(self) -> bool {
        forall|client: &Client, update: &Update, injector: Injector|
            call_requires(self.f, (client, update, injector))
    }

    /// The function.
    pub closed spec fn function(&self) -> F {
        self.f
    }

    /// Holds `f` as a middleware.
    pub fn new(f: F) -> (middleware: MiddlewareFn<F>)
        requires
            forall|client: &Client, update: &Update, injector: Injector|
                call_requires(f, (client, update, injector)),
        ensures
            middleware.function() == f,
    {
        MiddlewareFn { f }
    }
}

impl<F: Fn(&Client, &Update, Injector) -> (Flow, Injector)> Middleware for MiddlewareFn<F> {
    open spec fn effects(&self) -> Effects {
        |client: Client, update: Update, before: Contents, verdict: Verdict, after: Contents|
            exists|held: Injector, flow: Flow, left: Injector| #[trigger]
                call_ensures(self.function(), (&client, &update, held), (flow, left)) && held@ == before
                    && flow@ == verdict && left@ == after
    }

    fn handle(&mut self, client: &Client, update: &Update, injector: &mut Injector) -> (flow: Flow) {
        proof {
            use_type_invariant(&*self);
        }
        let mut held = Injector::new();
        core::mem::swap(injector, &mut held);
        let (flow, left) = (self.f)(client, update, held);
        *injector = left;
        flow
    }
}

/// A middleware of any type, boxed.
pub struct BoxedMiddleware {
    /// The middleware.
    pub middleware: Box<dyn Middleware>,
}

/// The effects of a list of middlewares, in its order.
pub open spec fn effects_of(hooks: Seq<BoxedMiddleware>) -> Seq<Effects> {
    Seq::new(hooks.len(), |i: int| hooks[i].middleware.effects())
}

/// What a stack of middlewares can do.
pub struct Hooks {
    /// The effects of the hooks that run before a handler is tried.
    pub before: Seq<Effects>,
    /// The effects of the hooks that run after an endpoint has succeeded.
    pub after: Seq<Effects>,
}

/// `outer` followed by `inner`, kind by kind.
pub open spec fn joined(outer: Hooks, inner: Hooks) -> Hooks {
    Hooks { before: outer.before + inner.before, after: outer.after + inner.after }
}

/// Whether the before-hooks from the `i`-th on, run in order on contents
/// `contents` after the hook before them answered `last`, can end with the
/// verdict `out` and the contents `left`. Each hook sees what the one before
/// it left; the first that says to stop ends the run; the verdict is that of
/// the hook that ran last.
pub open spec fn before_runs(
    hooks: Seq<Effects>,
    i: int,
    client: Client,
    update: Update,
    contents: Contents,
    last: Verdict,
    out: Verdict,
    left: Contents,
) -> bool
    decreases hooks.len() - i,
{
    if i < 0 || i >= hooks.len() {
        out == last && left == contents
    } else {
        exists|verdict: Verdict, mid: Contents| #[trigger]
            hooks[i](client, update, contents, verdict, mid) && if verdict.proceed {
                before_runs(hooks, i + 1, client, update, mid, verdict, out, left)
            } else {
                out == verdict && left == mid
            }
    }
}

/// Whether the after-hooks from the `i`-th on, run in order on contents
/// `contents`, can leave the contents `left`. The first that says to stop
/// ends the run.
pub open spec fn after_runs(
    hooks: Seq<Effects>,
    i: int,
    client: Client,
    update: Update,
    contents: Contents,
    left: Contents,
) -> bool
    decreases hooks.len() - i,
{
    if i < 0 || i >= hooks.len() {
        left == contents
    } else {
        exists|verdict: Verdict, mid: Contents| #[trigger]
            hooks[i](client, update, contents, verdict, mid) && if verdict.proceed {
                after_runs(hooks, i + 1, client, update, mid, left)
            } else {
                left == mid
            }
    }
}

/// Whether the before-hooks, on whatever contents they run, end with a
/// verdict that says to stop.
pub open spec fn never_lets_through(hooks: Seq<Effects>, client: Client, update: Update) -> bool {
    forall|contents: Contents, out: Verdict, left: Contents| #[trigger]
        before_runs(hooks, 0, client, update, contents, pass(), out, left) ==> !out.proceed
}

/// Where the before-hooks `first` followed by `second`, run from the `i`-th
/// of `first` on, end with a verdict that says to go on, the hooks of
/// `first` alone, run from there, can end with such a verdict too: the one
/// that the last of them gave, with the contents it left.
pub proof fn lemma_run_of_prefix(
    first: Seq<Effects>,
    second: Seq<Effects>,
    i: int,
    client: Client,
    update: Update,
    contents: Contents,
    last: Verdict,
    out: Verdict,
    left: Contents,
) -> (passed: (Verdict, Contents))
    requires
        0 <= i <= first.len(),
        last.proceed,
        out.proceed,
        before_runs(first + second, i, client, update, contents, last, out, left),
    ensures
        passed.0.proceed,
        before_runs(first, i, client, update, contents, last, passed.0, passed.1),
    decreases first.len() - i,
{
    if i == first.len() {
        (last, contents)
    } else {
        assert((first + second)[i] == first[i]);
        let (verdict, mid) = choose|verdict: Verdict, mid: Contents| #[trigger]
            (first + second)[i](client, update, contents, verdict, mid) && if verdict.proceed {
                before_runs(first + second, i + 1, client, update, mid, verdict, out, left)
            } else {
                out == verdict && left == mid
            };
        assert(first[i](client, update, contents, verdict, mid));
        let passed = lemma_run_of_prefix(first, second, i + 1, client, update, mid, verdict, out, left);
        passed
    }
}

/// Hooks that never let an update through do not let it through either when
/// more hooks stand behind them.
pub proof fn lemma_blocked_stays_blocked(
    first: Seq<Effects>,
    second: Seq<Effects>,
    client: Client,
    update: Update,
)
    requires
        never_lets_through(first, client, update),
    ensures
        never_lets_through(first + second, client, update),
{
    assert forall|contents: Contents, out: Verdict, left: Contents| #[trigger]
        before_runs(first + second, 0, client, update, contents, pass(), out, left) implies !out.proceed by {
        if out.proceed {
            let passed = lemma_run_of_prefix(first, second, 0, client, update, contents, pass(), out, left);
            assert(before_runs(first, 0, client, update, contents, pass(), passed.0, passed.1));
        }
    }
}

/// A stack of middlewares.
pub struct MiddlewareStack {
    /// The hooks that run after an endpoint has succeeded.
    pub after: Vec<BoxedMiddleware>,
    /// The hooks that run before a handler is tried.
    pub before: Vec<BoxedMiddleware>,
}

impl MiddlewareStack {
    /// What the stack can do.
    pub open spec fn hooks(&self) -> Hooks {
        Hooks { before: effects_of(self.before@), after: effects_of(self.after@) }
    }

    /// Creates a new middleware stack.
    pub fn new() -> (stack: MiddlewareStack)
        ensures
            stack.before@ == Seq::<BoxedMiddleware>::empty(),
            stack.after@ == Seq::<BoxedMiddleware>::empty(),
    {
        MiddlewareStack { after: Vec::new(), before: Vec::new() }
    }

    /// Adds a middleware after-type in the stack.
    pub fn after(self, middleware: BoxedMiddleware) -> (stack: MiddlewareStack)
        ensures
            stack.after@ == self.after@.push(middleware),
            stack.before@ == self.before@,
    {
        let mut stack = self;
        stack.after.push(middleware);
        stack
    }

    /// Adds a middleware before-type in the stack.
    pub fn before(self, middleware: BoxedMiddleware) -> (stack: MiddlewareStack)
        ensures
            stack.before@ == self.before@.push(middleware),
            stack.after@ == self.after@,
    {
        let mut stack = self;
        stack.before.push(middleware);
        stack
    }

    /// Extends the middleware stack with another middleware stack: the hooks
    /// of `other` go behind the stack's own.
    pub fn extend(self, other: MiddlewareStack) -> (stack: MiddlewareStack)
        ensures
            stack.before@ == self.before@ + other.before@,
            stack.after@ == self.after@ + other.after@,
    {
        let mut stack = self;
        let mut other = other;
        stack.after.append(&mut other.after);
        stack.before.append(&mut other.before);
        stack
    }

    /// Handles the after-type middlewares.
    pub fn handle_after(&mut self, client: &Client, update: &Update, injector: &mut Injector)
        ensures
            after_runs(old(self).hooks().after, 0, *client, *update, old(injector)@, final(injector)@),
            final(self).hooks() == old(self).hooks(),
            final(self).before@ == old(self).before@,
            final(self).after.len() == old(self).after.len(),
    {
        let ghost hooks = self.hooks().after;
        let ghost start = injector@;
        let n = self.after.len();
        let mut i: usize = 0;
        let mut open = true;
        while open && i < n
            invariant
                i <= n,
                n == self.after.len(),
                self.before@ == old(self).before@,
                effects_of(self.after@) =~= hooks,
                hooks == old(self).hooks().after,
                open ==> forall|left: Contents|
                    after_runs(hooks, i as int, *client, *update, injector@, left) ==> after_runs(
                        hooks,
                        0,
                        *client,
                        *update,
                        start,
                        left,
                    ),
                !open ==> after_runs(hooks, 0, *client, *update, start, injector@),
            decreases n - i + (if open { 1int } else { 0int }),
        {
            let ghost before = injector@;
            let ghost older = self.after@;
            let flow = self.after[i].middleware.handle(client, update, injector);
            proof {
                assert(hooks[i as int] == older[i as int].middleware.effects());
                assert(hooks[i as int](*client, *update, before, flow@, injector@));
                assert(effects_of(self.after@) =~= hooks) by {
                    assert forall|j: int| 0 <= j < n implies effects_of(self.after@)[j] == hooks[j] by {
                        assert(effects_of(older)[j] == hooks[j]);
                    }
                }
                if flow@.proceed {
                    assert forall|left: Contents|
                        after_runs(hooks, i + 1, *client, *update, injector@, left) implies after_runs(
                        hooks,
                        0,
                        *client,
                        *update,
                        start,
                        left,
                    ) by {
                        assert(after_runs(hooks, i as int, *client, *update, before, left));
                    }
                } else {
                    assert(after_runs(hooks, i as int, *client, *update, before, injector@));
                }
            }
            if flow.is_break() {
                open = false;
            } else {
                i = i + 1;
            }
        }
        proof {
            if open {
                assert(after_runs(hooks, i as int, *client, *update, injector@, injector@));
            }
        }
    }

    /// Handles the before-type middlewares.
    pub fn handle_before(&mut self, client: &Client, update: &Update, injector: &mut Injector) -> (flow:
        Flow)
        ensures
            before_runs(
                old(self).hooks().before,
                0,
                *client,
                *update,
                old(injector)@,
                pass(),
                flow@,
                final(injector)@,
            ),
            final(self).hooks() == old(self).hooks(),
            final(self).after@ == old(self).after@,
            final(self).before.len() == old(self).before.len(),
    {
        let ghost hooks = self.hooks().before;
        let ghost start = injector@;
        let n = self.before.len();
        let mut flow = Flow::default();
        let mut i: usize = 0;
        let mut open = true;
        while open && i < n
            invariant
                i <= n,
                n == self.before.len(),
                self.after@ == old(self).after@,
                effects_of(self.before@) =~= hooks,
                hooks == old(self).hooks().before,
                open ==> forall|out: Verdict, left: Contents|
                    before_runs(hooks, i as int, *client, *update, injector@, flow@, out, left)
                        ==> before_runs(hooks, 0, *client, *update, start, pass(), out, left),
                !open ==> before_runs(hooks, 0, *client, *update, start, pass(), flow@, injector@),
            decreases n - i + (if open { 1int } else { 0int }),
        {
            let ghost before = injector@;
            let ghost earlier = flow@;
            let ghost older = self.before@;
            flow = self.before[i].middleware.handle(client, update, injector);
            proof {
                assert(hooks[i as int] == older[i as int].middleware.effects());
                assert(hooks[i as int](*client, *update, before, flow@, injector@));
                assert(effects_of(self.before@) =~= hooks) by {
                    assert forall|j: int| 0 <= j < n implies effects_of(self.before@)[j] == hooks[j] by {
                        assert(effects_of(older)[j] == hooks[j]);
                    }
                }
                if flow@.proceed {
                    assert forall|out: Verdict, left: Contents|
                        before_runs(
                            hooks,
                            i + 1,
                            *client,
                            *update,
                            injector@,
                            flow@,
                            out,
                            left,
                        ) implies before_runs(hooks, 0, *client, *update, start, pass(), out, left) by {
                        assert(before_runs(hooks, i as int, *client, *update, before, earlier, out, left));
                    }
                } else {
                    assert(before_runs(hooks, i as int, *client, *update, before, earlier, flow@, injector@));
                }
            }
            if flow.is_break() {
                open = false;
            } else {
                i = i + 1;
            }
        }
        proof {
            if open {
                assert(before_runs(hooks, i as int, *client, *update, injector@, flow@, flow@, injector@));
            }
        }
        flow
    }
}

impl Default for MiddlewareStack {
    fn default() -> (stack: MiddlewareStack)
        ensures
            stack.before@ == Seq::<BoxedMiddleware>::empty(),
            stack.after@ == Seq::<BoxedMiddleware>::empty(),
    {
        MiddlewareStack::new()
    }
}

} // verus!
