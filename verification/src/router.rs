//! Routers: an ordered list of handlers, nested routers and a stack of
//! middlewares; the first handler that takes an update ends its dispatch.

use vstd::prelude::*;
use crate::di::{Contents, Injector};
use crate::error::Error;
use crate::filters::{Command, CommandView};
use crate::handler::{
    always_handles, collect_commands, command_views, handler_commands, handler_step,
    lemma_same_commands, lemma_skipped_handler, never_takes, Conduct, Handler, Step,
};
use crate::middleware::{
    effects_of, joined, lemma_blocked_stays_blocked, never_lets_through, BoxedMiddleware, Hooks,
    MiddlewareStack,
};
use crate::update::{Client, Update};

verus! {

/// A router.
///
/// Sends updates to the handlers.
pub struct Router {
    /// The handlers.
    pub handlers: Vec<Handler>,
    /// The routers.
    pub routers: Vec<Router>,
    /// The middleware stack.
    pub middlewares: MiddlewareStack,
}

/// What a router can do: what its handlers can, what the routers below it
/// can, and what its own hooks can.
pub struct Tree {
    /// What the handlers can do, in their order.
    pub handlers: Seq<Conduct>,
    /// What the routers below can do, in their order.
    pub routers: Seq<Tree>,
    /// What the router's own hooks can do.
    pub hooks: Hooks,
}

/// The handlers of a router and of the routers below it, as they stand.
pub struct Holdings {
    /// The router's own handlers.
    pub handlers: Seq<Handler>,
    /// The handlers of the routers below, router by router.
    pub routers: Seq<Holdings>,
}

/// Whether a handler, under the hooks `hooks`, can leave an update to the
/// handlers behind it.
pub open spec fn can_decline(conduct: Conduct, hooks: Hooks, client: Client, update: Update) -> bool {
    exists|contents: Contents, left: Contents| #[trigger]
        handler_step(conduct, hooks, client, update, contents, Step::Next, left)
}

/// Holds of every two contents: it names the contents before and after a
/// router was tried, so that a proof can point at them.
pub open spec fn passed_on(contents: Contents, left: Contents) -> bool {
    true
}

/// Whether a router, under the hooks `hooks`, can report an update as not
/// handled, and so leave it to the routers behind it.
pub open spec fn can_refuse(tree: Tree, hooks: Hooks, client: Client, update: Update) -> bool {
    exists|contents: Contents, left: Contents| #[trigger]
        passed_on(contents, left) && router_runs(
            tree,
            hooks,
            client,
            update,
            contents,
            Ok::<bool, Error>(false),
            left,
        )
}

/// What each of a list of handlers can do.
pub open spec fn conducts(handlers: Seq<Handler>) -> Seq<Conduct> {
    Seq::new(handlers.len(), |i: int| handlers[i].conduct())
}

/// What each of a list of routers can do.
pub open spec fn trees(routers: Seq<Router>) -> Seq<Tree> {
    Seq::new(routers.len(), |i: int| routers[i].tree())
}

/// Holds of every result and contents: it names the two where one router has
/// ended, so that a proof can point at them.
pub open spec fn ended_with(result: Result<bool, Error>, left: Contents) -> bool {
    true
}

/// Holds of every step and contents: it names the two where the handlers of
/// one router have ended, so that a proof can point at them.
pub open spec fn stepped_to(step: Step, left: Contents) -> bool {
    true
}

/// Whether the handlers from the `i`-th on, tried in order with the
/// injector holding `contents`, can end with `step` and `left`: each handler
/// that does not take the update hands over to the next one what it left;
/// the first that takes it ends the run.
pub open spec fn handlers_run(
    handlers: Seq<Conduct>,
    i: int,
    hooks: Hooks,
    client: Client,
    update: Update,
    contents: Contents,
    step: Step,
    left: Contents,
) -> bool
    decreases handlers.len() - i,
{
    if i < 0 || i >= handlers.len() {
        step == Step::Next && left == contents
    } else {
        exists|one: Step, mid: Contents| #[trigger]
            handler_step(handlers[i], hooks, client, update, contents, one, mid) && if one is Next {
                handlers_run(handlers, i + 1, hooks, client, update, mid, step, left)
            } else {
                step == one && left == mid
            }
    }
}

/// Whether a router, reached under the hooks `outer`, can end the dispatch of
/// an update with `result` and `left`. Its handlers are tried first, under
/// the hooks above it followed by its own; where none takes the update, the
/// routers below are tried.
pub open spec fn router_runs(
    tree: Tree,
    outer: Hooks,
    client: Client,
    update: Update,
    contents: Contents,
    result: Result<bool, Error>,
    left: Contents,
) -> bool
    decreases tree, 1int, 0int,
{
    exists|step: Step, mid: Contents| #[trigger]
        stepped_to(step, mid) && handlers_run(
            tree.handlers,
            0,
            joined(outer, tree.hooks),
            client,
            update,
            contents,
            step,
            mid,
        ) && match step {
            Step::Done(ended) => result == ended && left == mid,
            Step::Next => routers_run(
                tree.routers,
                0,
                joined(outer, tree.hooks),
                client,
                update,
                mid,
                result,
                left,
            ),
        }
}

/// Whether the routers from the `i`-th on, tried in order under the hooks
/// `hooks`, can end with `result` and `left`: a router that reports the update
/// as not handled hands over to the next; any other result ends the run; and
/// where no router is left, the update is not handled.
pub open spec fn routers_run(
    routers: Seq<Tree>,
    i: int,
    hooks: Hooks,
    client: Client,
    update: Update,
    contents: Contents,
    result: Result<bool, Error>,
    left: Contents,
) -> bool
    decreases routers, 0int, routers.len() - i,
{
    if i < 0 || i >= routers.len() {
        result == Ok::<bool, Error>(false) && left == contents
    } else {
        exists|one: Result<bool, Error>, mid: Contents| #[trigger]
            ended_with(one, mid) && router_runs(routers[i], hooks, client, update, contents, one, mid)
                && if one == Ok::<bool, Error>(false) {
                routers_run(routers, i + 1, hooks, client, update, mid, result, left)
            } else {
                result == one && left == mid
            }
    }
}

/// First match wins, among handlers: where the `k`-th handler always takes
/// the update and succeeds, and none before it ever takes it, the handlers
/// tried from the `i`-th on, `i` not beyond `k`, end with the update handled,
/// whatever the handlers behind the `k`-th are.
pub proof fn lemma_first_match_wins(
    handlers: Seq<Conduct>,
    i: int,
    k: int,
    hooks: Hooks,
    client: Client,
    update: Update,
    contents: Contents,
    step: Step,
    left: Contents,
)
    requires
        0 <= i <= k < handlers.len(),
        forall|j: int| 0 <= j < k ==> never_takes(#[trigger] handlers[j], hooks, client, update),
        always_handles(handlers[k], hooks, client, update),
        handlers_run(handlers, i, hooks, client, update, contents, step, left),
    ensures
        step == Step::Done(Ok::<bool, Error>(true)),
    decreases k - i,
{
    let (one, mid) = choose|one: Step, mid: Contents| #[trigger]
        handler_step(handlers[i], hooks, client, update, contents, one, mid) && if one is Next {
            handlers_run(handlers, i + 1, hooks, client, update, mid, step, left)
        } else {
            step == one && left == mid
        };
    if i < k {
        assert(never_takes(handlers[i], hooks, client, update));
        lemma_first_match_wins(handlers, i + 1, k, hooks, client, update, mid, step, left);
    }
}

/// First match wins, in a router: where one of its handlers always takes the
/// update and succeeds, and none before it ever takes it, the router reports
/// the update as handled, whatever stands behind that handler and below the
/// router.
pub proof fn lemma_router_first_match_wins(
    tree: Tree,
    k: int,
    outer: Hooks,
    client: Client,
    update: Update,
    contents: Contents,
    result: Result<bool, Error>,
    left: Contents,
)
    requires
        0 <= k < tree.handlers.len(),
        forall|j: int|
            0 <= j < k ==> never_takes(#[trigger] tree.handlers[j], joined(outer, tree.hooks), client, update),
        always_handles(tree.handlers[k], joined(outer, tree.hooks), client, update),
        router_runs(tree, outer, client, update, contents, result, left),
    ensures
        result == Ok::<bool, Error>(true),
{
    let hooks = joined(outer, tree.hooks);
    let (step, mid) = choose|step: Step, mid: Contents| #[trigger]
        stepped_to(step, mid) && handlers_run(tree.handlers, 0, hooks, client, update, contents, step, mid)
            && match step {
            Step::Done(ended) => result == ended && left == mid,
            Step::Next => routers_run(tree.routers, 0, hooks, client, update, mid, result, left),
        };
    lemma_first_match_wins(tree.handlers, 0, k, hooks, client, update, contents, step, mid);
}

/// A router one of whose handlers always takes the update and succeeds,
/// with none before it that ever takes it, cannot leave the update to the
/// routers behind it.
pub proof fn lemma_handling_router_cannot_refuse(tree: Tree, k: int, outer: Hooks, client: Client, update: Update)
    requires
        0 <= k < tree.handlers.len(),
        forall|j: int|
            0 <= j < k ==> never_takes(#[trigger] tree.handlers[j], joined(outer, tree.hooks), client, update),
        always_handles(tree.handlers[k], joined(outer, tree.hooks), client, update),
    ensures
        !can_refuse(tree, outer, client, update),
{
    if can_refuse(tree, outer, client, update) {
        let (contents, left) = choose|contents: Contents, left: Contents| #[trigger]
            passed_on(contents, left) && router_runs(
                tree,
                outer,
                client,
                update,
                contents,
                Ok::<bool, Error>(false),
                left,
            );
        lemma_router_first_match_wins(tree, k, outer, client, update, contents, Ok::<bool, Error>(false), left);
    }
}

/// Under hooks that never let the update through, no handler takes it.
pub proof fn lemma_blocked_handlers(
    handlers: Seq<Conduct>,
    i: int,
    hooks: Hooks,
    client: Client,
    update: Update,
    contents: Contents,
    step: Step,
    left: Contents,
)
    requires
        0 <= i,
        never_lets_through(hooks.before, client, update),
        handlers_run(handlers, i, hooks, client, update, contents, step, left),
    ensures
        step is Next,
    decreases handlers.len() - i,
{
    if i < handlers.len() {
        let (one, mid) = choose|one: Step, mid: Contents| #[trigger]
            handler_step(handlers[i], hooks, client, update, contents, one, mid) && if one is Next {
                handlers_run(handlers, i + 1, hooks, client, update, mid, step, left)
            } else {
                step == one && left == mid
            };
        lemma_skipped_handler(handlers[i], hooks, client, update);
        assert(one is Next);
        lemma_blocked_handlers(handlers, i + 1, hooks, client, update, mid, step, left);
    }
}

/// A router whose hooks, behind those above it, never let the update through
/// reports the update as not handled: no handler of the router, nor of any
/// router below it, takes it.
pub proof fn lemma_blocked_router(
    tree: Tree,
    outer: Hooks,
    client: Client,
    update: Update,
    contents: Contents,
    result: Result<bool, Error>,
    left: Contents,
)
    requires
        never_lets_through(joined(outer, tree.hooks).before, client, update),
        router_runs(tree, outer, client, update, contents, result, left),
    ensures
        result == Ok::<bool, Error>(false),
    decreases tree, 1int, 0int,
{
    let hooks = joined(outer, tree.hooks);
    let (step, mid) = choose|step: Step, mid: Contents| #[trigger]
        stepped_to(step, mid) && handlers_run(tree.handlers, 0, hooks, client, update, contents, step, mid)
            && match step {
            Step::Done(ended) => result == ended && left == mid,
            Step::Next => routers_run(tree.routers, 0, hooks, client, update, mid, result, left),
        };
    lemma_blocked_handlers(tree.handlers, 0, hooks, client, update, contents, step, mid);
    lemma_blocked_routers(tree.routers, 0, hooks, client, update, mid, result, left);
}

/// Under hooks that never let the update through, no router reports the
/// update as handled.
pub proof fn lemma_blocked_routers(
    routers: Seq<Tree>,
    i: int,
    hooks: Hooks,
    client: Client,
    update: Update,
    contents: Contents,
    result: Result<bool, Error>,
    left: Contents,
)
    requires
        0 <= i,
        never_lets_through(hooks.before, client, update),
        routers_run(routers, i, hooks, client, update, contents, result, left),
    ensures
        result == Ok::<bool, Error>(false),
    decreases routers, 0int, routers.len() - i,
{
    if i < routers.len() {
        let (one, mid) = choose|one: Result<bool, Error>, mid: Contents| #[trigger]
            ended_with(one, mid) && router_runs(routers[i], hooks, client, update, contents, one, mid)
                && if one == Ok::<bool, Error>(false) {
                routers_run(routers, i + 1, hooks, client, update, mid, result, left)
            } else {
                result == one && left == mid
            };
        lemma_blocked_stays_blocked(hooks.before, routers[i].hooks.before, client, update);
        lemma_blocked_router(routers[i], hooks, client, update, contents, one, mid);
        lemma_blocked_routers(routers, i + 1, hooks, client, update, mid, result, left);
    }
}

/// A router that is blocked by its hooks hands the update over: what the
/// routers from it on come to is what the routers behind it come to, on the
/// contents that its hooks left.
pub proof fn lemma_blocked_router_hands_over(
    routers: Seq<Tree>,
    i: int,
    hooks: Hooks,
    client: Client,
    update: Update,
    contents: Contents,
    result: Result<bool, Error>,
    left: Contents,
) -> (mid: Contents)
    requires
        0 <= i < routers.len(),
        never_lets_through(joined(hooks, routers[i].hooks).before, client, update),
        routers_run(routers, i, hooks, client, update, contents, result, left),
    ensures
        routers_run(routers, i + 1, hooks, client, update, mid, result, left),
{
    let (one, mid) = choose|one: Result<bool, Error>, mid: Contents| #[trigger]
        ended_with(one, mid) && router_runs(routers[i], hooks, client, update, contents, one, mid)
            && if one == Ok::<bool, Error>(false) {
            routers_run(routers, i + 1, hooks, client, update, mid, result, left)
        } else {
            result == one && left == mid
        };
    lemma_blocked_router(routers[i], hooks, client, update, contents, one, mid);
    mid
}

/// Routers whose handlers answer the same commands, one by one, and whose
/// routers below do, one by one, answer the same commands below the `i`-th
/// router.
pub proof fn lemma_same_commands_below(first: Router, second: Router, i: int)
    requires
        0 <= i,
        first.routers.len() == second.routers.len(),
        forall|k: int|
            0 <= k < first.routers.len() ==> (#[trigger] first.routers[k]).commands() == second.routers[k].commands(),
    ensures
        first.commands_below(i) == second.commands_below(i),
    decreases first.routers.len() - i,
{
    if i < first.routers.len() {
        assert(first.routers[i].commands() == second.routers[i].commands());
        lemma_same_commands_below(first, second, i + 1);
    }
}

/// Whether a router holds nothing: no handler, no router and no hook.
pub open spec fn is_bare(router: Router) -> bool {
    router.handlers@.len() == 0 && router.routers@.len() == 0 && router.middlewares.before@.len() == 0
        && router.middlewares.after@.len() == 0
}

/// The effects of two lists of hooks, one behind the other.
pub proof fn lemma_effects_of_joined(first: Seq<BoxedMiddleware>, second: Seq<BoxedMiddleware>)
    ensures
        effects_of(first + second) == effects_of(first) + effects_of(second),
{
    assert(effects_of(first + second) =~= effects_of(first) + effects_of(second));
}

impl Router {
    /// What the router can do.
    pub open spec fn tree(&self) -> Tree
        decreases self,
    {
        Tree {
            handlers: conducts(self.handlers@),
            routers: Seq::new(
                self.routers.len() as nat,
                |i: int|
                    if 0 <= i < self.routers.len() {
                        self.routers[i].tree()
                    } else {
                        arbitrary()
                    },
            ),
            hooks: self.middlewares.hooks(),
        }
    }

    /// The handlers of the router and of the routers below it.
    pub open spec fn holdings(&self) -> Holdings
        decreases self,
    {
        Holdings {
            handlers: self.handlers@,
            routers: Seq::new(
                self.routers.len() as nat,
                |i: int|
                    if 0 <= i < self.routers.len() {
                        self.routers[i].holdings()
                    } else {
                        arbitrary()
                    },
            ),
        }
    }

    /// The commands that the handlers of the router answer, followed by
    /// those of the routers below it, router by router.
    pub open spec fn commands(&self) -> Seq<CommandView>
        decreases self, 1int, 0int,
    {
        handler_commands(self.handlers@, 0) + self.commands_below(0)
    }

    /// The commands that the routers below, from the `i`-th on, answer.
    pub open spec fn commands_below(&self, i: int) -> Seq<CommandView>
        decreases self, 0int, self.routers.len() - i,
    {
        if i < 0 || i >= self.routers.len() {
            Seq::empty()
        } else {
            self.routers[i].commands() + self.commands_below(i + 1)
        }
    }

    /// Returns the commands from the handlers: those of the router's own
    /// handlers, then those of the routers below it.
    pub fn get_commands(&self) -> (commands: Vec<Command>)
        ensures
            command_views(commands@) == self.commands(),
        decreases self,
    {
        let mut commands: Vec<Command> = Vec::new();
        collect_commands(&self.handlers, &mut commands);
        assert(command_views(commands@) =~= handler_commands(self.handlers@, 0));
        let mut j: usize = 0;
        while j < self.routers.len()
            invariant
                j <= self.routers.len(),
                command_views(commands@) + self.commands_below(j as int) == self.commands(),
            decreases self.routers.len() - j,
        {
            let ghost before = command_views(commands@);
            let mut below = self.routers[j].get_commands();
            let ghost added = command_views(below@);
            commands.append(&mut below);
            proof {
                assert(command_views(commands@) =~= before + added);
                assert(command_views(commands@) + self.commands_below(j + 1) =~= before + self.commands_below(
                    j as int,
                ));
            }
            j = j + 1;
        }
        assert(command_views(commands@) + self.commands_below(j as int) =~= command_views(commands@));
        commands
    }

    /// A router with no handler, no router below it and no hook.
    pub fn new() -> (router: Router)
        ensures
            router.handlers@ == Seq::<Handler>::empty(),
            router.routers@ == Seq::<Router>::empty(),
            router.middlewares.before@ == Seq::<BoxedMiddleware>::empty(),
            router.middlewares.after@ == Seq::<BoxedMiddleware>::empty(),
    {
        Router { handlers: Vec::new(), routers: Vec::new(), middlewares: MiddlewareStack::new() }
    }

    /// Attaches a new handler, behind those that are there.
    pub fn handler(self, handler: Handler) -> (router: Router)
        ensures
            router.handlers@ == self.handlers@.push(handler),
            router.routers@ == self.routers@,
            router.middlewares == self.middlewares,
    {
        let mut router = self;
        router.handlers.push(handler);
        router
    }

    /// Attaches the handlers of a new router: those of the router that
    /// `build` makes of one that holds nothing go behind the handlers that
    /// are there.
    pub fn router<R: FnOnce(Router) -> Router>(self, build: R) -> (router: Router)
        requires
            forall|bare: Router| is_bare(bare) ==> call_requires(build, (bare,)),
        ensures
            exists|bare: Router, built: Router|
                #![trigger call_ensures(build, (bare,), built)]
                is_bare(bare) && call_ensures(build, (bare,), built) && router.handlers@ == self.handlers@
                    + built.handlers@,
            router.routers@ == self.routers@,
            router.middlewares == self.middlewares,
    {
        let mut router = self;
        let bare = Router::new();
        assert(is_bare(bare));
        let mut built = build(bare);
        router.handlers.append(&mut built.handlers);
        router
    }

    /// Attaches a middleware stack: the one that `change` makes of the
    /// router's own.
    pub fn middlewares<M: FnOnce(MiddlewareStack) -> MiddlewareStack>(self, change: M) -> (router: Router)
        requires
            call_requires(change, (self.middlewares,)),
        ensures
            call_ensures(change, (self.middlewares,), router.middlewares),
            router.handlers == self.handlers,
            router.routers == self.routers,
    {
        let Router { handlers, routers, middlewares } = self;
        let middlewares = change(middlewares);
        Router { handlers, routers, middlewares }
    }

    /// Attaches a new router, below this one and behind those that are there.
    pub fn attach(self, below: Router) -> (router: Router)
        ensures
            router.handlers@ == self.handlers@,
            router.routers@ == self.routers@.push(below),
            router.middlewares == self.middlewares,
    {
        let mut router = self;
        router.routers.push(below);
        router
    }
}

impl Router {
    /// Handle the update sent by Telegram.
    ///
    /// Returns `Ok(true)` if the update was handled, `Ok(false)` if no
    /// handler of the router or below it took it, and the error of the
    /// handler that took it and failed.
    ///
    /// `middlewares` holds the hooks of the routers above; while the update
    /// is handled the router's own hooks stand behind them, and they are taken
    /// off again before the function returns.
    pub fn handle_update(
        &mut self,
        client: &Client,
        update: &Update,
        injector: &mut Injector,
        middlewares: &mut MiddlewareStack,
    ) -> (result: Result<bool, Error>)
        ensures
            router_runs(
                old(self).tree(),
                old(middlewares).hooks(),
                *client,
                *update,
                old(injector)@,
                result,
                final(injector)@,
            ),
            final(self).tree() == old(self).tree(),
            final(middlewares).hooks() == old(middlewares).hooks(),
            final(middlewares).before.len() == old(middlewares).before.len(),
            final(middlewares).after.len() == old(middlewares).after.len(),
            final(self).commands() == old(self).commands(),
            never_lets_through(
                joined(old(middlewares).hooks(), old(self).tree().hooks).before,
                *client,
                *update,
            ) ==> final(self).holdings() == old(self).holdings(),
            forall|k: int|
                0 <= k < old(self).handlers.len() && !can_decline(
                    #[trigger] old(self).tree().handlers[k],
                    joined(old(middlewares).hooks(), old(self).tree().hooks),
                    *client,
                    *update,
                ) ==> final(self).routers == old(self).routers && forall|j: int|
                    k < j < old(self).handlers.len() ==> final(self).handlers[j] == old(self).handlers[j],
            forall|k: int|
                0 <= k < old(self).routers.len() && !can_refuse(
                    #[trigger] old(self).tree().routers[k],
                    joined(old(middlewares).hooks(), old(self).tree().hooks),
                    *client,
                    *update,
                ) ==> forall|j: int|
                    k < j < old(self).routers.len() ==> final(self).routers[j] == old(self).routers[j],
        decreases *old(self),
    {
        let ghost tree = self.tree();
        let ghost outer = middlewares.hooks();
        let ghost hooks = joined(outer, tree.hooks);
        let ghost start = injector@;
        let ghost own_before = self.middlewares.before@;
        let ghost own_after = self.middlewares.after@;
        let outer_before = middlewares.before.len();
        let outer_after = middlewares.after.len();
        proof {
            lemma_effects_of_joined(middlewares.before@, self.middlewares.before@);
            lemma_effects_of_joined(middlewares.after@, self.middlewares.after@);
            assert(tree.routers.len() == self.routers.len());
            assert forall|k: int| 0 <= k < self.routers.len() implies (#[trigger] self.routers[k]).tree()
                == tree.routers[k] by {}
        }
        middlewares.before.append(&mut self.middlewares.before);
        middlewares.after.append(&mut self.middlewares.after);
        assert(middlewares.hooks() == hooks);

        let ghost blocked = never_lets_through(hooks.before, *client, *update);
        let mut outcome: Option<Result<bool, Error>> = None;
        let n = self.handlers.len();
        let mut i: usize = 0;
        while outcome.is_none() && i < n
            invariant
                i <= n,
                n == self.handlers.len(),
                conducts(self.handlers@) =~= tree.handlers,
                self.routers == old(self).routers,
                n == old(self).handlers.len(),
                forall|k: int| 0 <= k < n ==> (#[trigger] self.handlers[k]).command == old(self).handlers[k].command,
                blocked ==> self.handlers@ == old(self).handlers@,
                blocked == never_lets_through(hooks.before, *client, *update),
                forall|k: int| 0 <= k < i ==> can_decline(#[trigger] tree.handlers[k], hooks, *client, *update),
                forall|k: int| i < k < n ==> self.handlers[k] == old(self).handlers[k],
                outcome is None ==> forall|k: int| i <= k < n ==> self.handlers[k] == old(self).handlers[k],
                middlewares.hooks() == hooks,
                middlewares.before.len() == outer_before + own_before.len(),
                middlewares.after.len() == outer_after + own_after.len(),
                outcome is None ==> forall|step: Step, left: Contents|
                    handlers_run(tree.handlers, i as int, hooks, *client, *update, injector@, step, left)
                        ==> handlers_run(tree.handlers, 0, hooks, *client, *update, start, step, left),
                outcome is Some ==> handlers_run(
                    tree.handlers,
                    0,
                    hooks,
                    *client,
                    *update,
                    start,
                    Step::Done(outcome->0),
                    injector@,
                ),
            decreases n - i + (if outcome is None { 1int } else { 0int }),
        {
            let ghost before = injector@;
            let ghost older = self.handlers@;
            let step = self.handlers[i].run(client, update, injector, middlewares);
            proof {
                assert(tree.handlers[i as int] == older[i as int].conduct());
                assert(handler_step(tree.handlers[i as int], hooks, *client, *update, before, step, injector@));
                assert(conducts(self.handlers@) =~= tree.handlers) by {
                    assert forall|j: int| 0 <= j < n implies conducts(self.handlers@)[j] == tree.handlers[j] by {
                        assert(conducts(older)[j] == tree.handlers[j]);
                    }
                }
                if blocked {
                    assert(self.handlers@ =~= old(self).handlers@);
                }
                if step is Next {
                    assert(can_decline(tree.handlers[i as int], hooks, *client, *update));
                    assert forall|last: Step, left: Contents|
                        handlers_run(
                            tree.handlers,
                            i + 1,
                            hooks,
                            *client,
                            *update,
                            injector@,
                            last,
                            left,
                        ) implies handlers_run(tree.handlers, 0, hooks, *client, *update, start, last, left) by {
                        assert(handlers_run(tree.handlers, i as int, hooks, *client, *update, before, last, left));
                    }
                } else {
                    assert(handlers_run(tree.handlers, i as int, hooks, *client, *update, before, step, injector@));
                }
            }
            match step {
                Step::Next => {
                    i = i + 1;
                },
                Step::Done(ended) => {
                    outcome = Some(ended);
                },
            }
        }
        let ghost mid = injector@;
        let ghost step = if outcome is Some {
            Step::Done(outcome->0)
        } else {
            Step::Next
        };
        proof {
            if outcome is None {
                assert(handlers_run(tree.handlers, i as int, hooks, *client, *update, mid, Step::Next, mid));
            }
            assert(handlers_run(tree.handlers, 0, hooks, *client, *update, start, step, mid));
            assert(stepped_to(step, mid));
        }
        let ghost after_handlers = self.handlers@;
        if outcome.is_none() {
            let m = self.routers.len();
            let mut j: usize = 0;
            while outcome.is_none() && j < m
                invariant
                    j <= m,
                    m == self.routers.len(),
                    m == old(self).routers.len(),
                    self.handlers.len() == n,
                    conducts(self.handlers@) =~= tree.handlers,
                    tree == old(self).tree(),
                    forall|k: int| 0 <= k < m ==> (#[trigger] self.routers[k]).tree() == tree.routers[k],
                    tree.routers.len() == m,
                    outcome is None ==> forall|k: int| j <= k < m ==> self.routers[k] == old(self).routers[k],
                    forall|k: int| j < k < m ==> self.routers[k] == old(self).routers[k],
                    forall|k: int| 0 <= k < j ==> can_refuse(#[trigger] tree.routers[k], hooks, *client, *update),
                    self.handlers@ == after_handlers,
                    forall|k: int|
                        0 <= k < m ==> (#[trigger] self.routers[k]).commands() == old(self).routers[k].commands(),
                    blocked == never_lets_through(hooks.before, *client, *update),
                    blocked ==> forall|k: int|
                        0 <= k < m ==> (#[trigger] self.routers[k]).holdings() == old(self).routers[k].holdings(),
                    middlewares.hooks() == hooks,
                    middlewares.before.len() == outer_before + own_before.len(),
                    middlewares.after.len() == outer_after + own_after.len(),
                    outcome is None ==> forall|result: Result<bool, Error>, left: Contents|
                        routers_run(tree.routers, j as int, hooks, *client, *update, injector@, result, left)
                            ==> routers_run(tree.routers, 0, hooks, *client, *update, mid, result, left),
                    outcome is Some ==> routers_run(
                        tree.routers,
                        0,
                        hooks,
                        *client,
                        *update,
                        mid,
                        outcome->0,
                        injector@,
                    ),
                decreases m - j + (if outcome is None { 1int } else { 0int }),
            {
                let ghost before = injector@;
                let ghost older = self.routers@;
                proof {
                    if blocked {
                        lemma_blocked_stays_blocked(hooks.before, older[j as int].tree().hooks.before, *client, *update);
                    }
                }
                let one = self.routers[j].handle_update(client, update, injector, middlewares);
                proof {
                    assert(older[j as int].tree() == tree.routers[j as int]);
                    assert(ended_with(one, injector@));
                    assert(router_runs(tree.routers[j as int], hooks, *client, *update, before, one, injector@));
                    if one == Ok::<bool, Error>(false) {
                        assert(passed_on(before, injector@));
                        assert(can_refuse(tree.routers[j as int], hooks, *client, *update));
                        assert forall|result: Result<bool, Error>, left: Contents|
                            routers_run(
                                tree.routers,
                                j + 1,
                                hooks,
                                *client,
                                *update,
                                injector@,
                                result,
                                left,
                            ) implies routers_run(tree.routers, 0, hooks, *client, *update, mid, result, left) by {
                            assert(routers_run(
                                tree.routers,
                                j as int,
                                hooks,
                                *client,
                                *update,
                                before,
                                result,
                                left,
                            ));
                        }
                    } else {
                        assert(routers_run(tree.routers, j as int, hooks, *client, *update, before, one, injector@));
                    }
                }
                let declined = match &one {
                    Ok(handled) => !*handled,
                    Err(_) => false,
                };
                if declined {
                    j = j + 1;
                } else {
                    outcome = Some(one);
                }
            }
            proof {
                if outcome is None {
                    assert(routers_run(
                        tree.routers,
                        j as int,
                        hooks,
                        *client,
                        *update,
                        injector@,
                        Ok::<bool, Error>(false),
                        injector@,
                    ));
                }
            }
        }
        let ghost all_before = middlewares.before@;
        let ghost all_after = middlewares.after@;
        self.middlewares.before = middlewares.before.split_off(outer_before);
        self.middlewares.after = middlewares.after.split_off(outer_after);
        proof {
            assert(effects_of(all_before) == hooks.before);
            assert(effects_of(all_after) == hooks.after);
            assert(effects_of(middlewares.before@) =~= outer.before) by {
                assert forall|k: int| 0 <= k < outer_before implies effects_of(middlewares.before@)[k]
                    == outer.before[k] by {
                    assert(effects_of(all_before)[k] == hooks.before[k]);
                }
            }
            assert(effects_of(middlewares.after@) =~= outer.after) by {
                assert forall|k: int| 0 <= k < outer_after implies effects_of(middlewares.after@)[k]
                    == outer.after[k] by {
                    assert(effects_of(all_after)[k] == hooks.after[k]);
                }
            }
            assert(effects_of(self.middlewares.before@) =~= tree.hooks.before) by {
                assert forall|k: int| 0 <= k < own_before.len() implies effects_of(self.middlewares.before@)[k]
                    == tree.hooks.before[k] by {
                    assert(effects_of(all_before)[outer_before + k] == hooks.before[outer_before + k]);
                }
            }
            assert(effects_of(self.middlewares.after@) =~= tree.hooks.after) by {
                assert forall|k: int| 0 <= k < own_after.len() implies effects_of(self.middlewares.after@)[k]
                    == tree.hooks.after[k] by {
                    assert(effects_of(all_after)[outer_after + k] == hooks.after[outer_after + k]);
                }
            }
            assert(self.tree().routers =~= tree.routers);
            assert(self.tree() == tree);
            assert(self.handlers@ == after_handlers);
            lemma_same_commands(self.handlers@, old(self).handlers@, 0);
            lemma_same_commands_below(*self, *old(self), 0);
            if blocked {
                assert(self.holdings().routers =~= old(self).holdings().routers);
                assert(self.holdings() == old(self).holdings());
            }
        }
        let result = match outcome {
            Some(result) => result,
            None => Ok(false),
        };
        proof {
            if step is Next {
                assert(routers_run(tree.routers, 0, hooks, *client, *update, mid, result, injector@));
            }
            assert(router_runs(tree, outer, *client, *update, start, result, injector@));
        }
        result
    }
}

impl Default for Router {
    fn default() -> (router: Router)
        ensures
            router.handlers@ == Seq::<Handler>::empty(),
            router.routers@ == Seq::<Router>::empty(),
            router.middlewares.before@ == Seq::<BoxedMiddleware>::empty(),
            router.middlewares.after@ == Seq::<BoxedMiddleware>::empty(),
    {
        Router::new()
    }
}

} // verus!
