//! The dispatcher: the routers and plugins at the top, the resources every
//! endpoint may draw on, and the rule on updates of the client's own making.

use vstd::prelude::*;
use crate::di::{inserted, merged, Contents, Injector, Kind, Value};
use crate::error::Error;
use crate::filters::{Command, CommandView};
use crate::handler::command_views;
use crate::middleware::{BoxedMiddleware, Hooks, MiddlewareStack};
use crate::plugin::Plugin;
use crate::router::{
    can_refuse, ended_with, is_bare, passed_on, router_runs, routers_run, trees, Router, Tree,
};
use crate::cache::{saved_all, Cache};
use crate::context::Context;
use crate::update::{share, Chat, Client, Update};

verus! {

/// A dispatcher.
///
/// Sends the updates to the routers and plugins.
pub struct Dispatcher {
    /// The routers.
    pub routers: Vec<Router>,
    /// The plugins.
    pub plugins: Vec<Plugin>,
    /// The main injector.
    pub injector: Injector,
    /// The middleware stack.
    pub middlewares: MiddlewareStack,
    /// Whether allow the client to handle updates from itself.
    pub allow_from_self: bool,
}

/// What a dispatcher can do.
pub struct Board {
    /// What the routers can do, followed by what the plugins' routers can.
    pub routers: Seq<Tree>,
    /// What the dispatcher's hooks can do.
    pub hooks: Hooks,
    /// The resources that every dispatch starts with.
    pub resources: Contents,
    /// Whether updates of the client's own making are dispatched.
    pub allow_from_self: bool,
}

/// What each router of a list of plugins can do.
pub open spec fn plugin_trees(plugins: Seq<Plugin>) -> Seq<Tree> {
    Seq::new(plugins.len(), |i: int| plugins[i].router.tree())
}

/// What the injector holds when the dispatch of an update starts: the
/// context, the client and the update, then the dispatcher's resources.
pub open spec fn seeded(client: Client, update: Update, resources: Contents) -> Contents {
    merged(
        inserted(
            inserted(
                inserted(Map::empty(), Value::Context(Context { client, update })),
                Value::Client(client),
            ),
            Value::Update(update),
        ),
        resources,
    )
}

/// The chats that an update shows: the chat of a message, then its sender
/// where that is a user; who pressed a button, where that is a user; who made
/// an inline query or choice.
pub open spec fn observed(update: Update) -> Seq<Chat> {
    match update {
        Update::NewMessage(m) => if m.sender is Some && m.sender->0 is User {
            seq![m.chat, m.sender->0]
        } else {
            seq![m.chat]
        },
        Update::MessageEdited(m) => if m.sender is Some && m.sender->0 is User {
            seq![m.chat, m.sender->0]
        } else {
            seq![m.chat]
        },
        Update::CallbackQuery(q) => if q.sender is User {
            seq![q.sender]
        } else {
            Seq::empty()
        },
        Update::InlineQuery(q) => seq![Chat::User(q.sender)],
        Update::InlineSend(s) => seq![Chat::User(s.sender)],
        _ => Seq::empty(),
    }
}

/// The chats that an update shows, in the order in which they are saved.
pub fn observe(update: &Update) -> (seen: Vec<Chat>)
    ensures
        seen@ == observed(*update),
{
    let mut seen: Vec<Chat> = Vec::new();
    match update {
        Update::NewMessage(m) | Update::MessageEdited(m) => {
            seen.push(m.chat.clone());
            match &m.sender {
                Some(Chat::User(user)) => {
                    seen.push(Chat::User(share(user)));
                },
                _ => {},
            }
        },
        Update::CallbackQuery(q) => {
            match &q.sender {
                Chat::User(user) => {
                    seen.push(Chat::User(share(user)));
                },
                _ => {},
            }
        },
        Update::InlineQuery(q) => {
            seen.push(Chat::User(share(&q.sender)));
        },
        Update::InlineSend(s) => {
            seen.push(Chat::User(share(&s.sender)));
        },
        _ => {},
    }
    assert(seen@ =~= observed(*update));
    seen
}

/// What the dispatcher reports for the result of its routers: an update that
/// no router took is no failure.
pub open spec fn concluded(ended: Result<bool, Error>) -> Result<(), Error> {
    match ended {
        Ok(_) => Ok(()),
        Err(e) => Err(e),
    }
}

/// Whether the dispatch of an update can end with `result`. An update of the
/// client's own making is dropped unless such updates are allowed; any other
/// goes to the routers, then to the plugins, until one reports it as handled
/// or fails.
pub open spec fn dispatches(board: Board, client: Client, update: Update, result: Result<(), Error>) -> bool {
    if !board.allow_from_self && update.is_from_self() {
        result == Ok::<(), Error>(())
    } else {
        exists|ended: Result<bool, Error>, left: Contents| #[trigger]
            ended_with(ended, left) && routers_run(
                board.routers,
                0,
                board.hooks,
                client,
                update,
                seeded(client, update, board.resources),
                ended,
                left,
            ) && result == concluded(ended)
    }
}

/// An update of the client's own making is dropped, and reported as no
/// failure, unless such updates are allowed; where they are allowed, or the
/// update is of another's making, what the dispatch comes to is what the
/// routers and plugins, tried in order, come to.
pub proof fn lemma_own_updates_are_dropped(board: Board, client: Client, update: Update, result: Result<(), Error>)
    requires
        dispatches(board, client, update, result),
    ensures
        !board.allow_from_self && update.is_from_self() ==> result == Ok::<(), Error>(()),
        board.allow_from_self || !update.is_from_self() ==> exists|ended: Result<bool, Error>, left: Contents|
            #[trigger] ended_with(ended, left) && routers_run(
                board.routers,
                0,
                board.hooks,
                client,
                update,
                seeded(client, update, board.resources),
                ended,
                left,
            ) && result == concluded(ended),
{
}

impl Dispatcher {
    /// What the dispatcher can do.
    pub open spec fn board(&self) -> Board {
        Board {
            routers: trees(self.routers@) + plugin_trees(self.plugins@),
            hooks: self.middlewares.hooks(),
            resources: self.injector@,
            allow_from_self: self.allow_from_self,
        }
    }

    /// A dispatcher with no router, no plugin, no resource and no hook, which
    /// drops the updates of the client's own making.
    pub fn new() -> (dispatcher: Dispatcher)
        ensures
            dispatcher.routers@ == Seq::<Router>::empty(),
            dispatcher.plugins@ == Seq::<Plugin>::empty(),
            dispatcher.injector@ == Map::<Kind, Seq<Value>>::empty(),
            dispatcher.middlewares.before@ == Seq::<BoxedMiddleware>::empty(),
            dispatcher.middlewares.after@ == Seq::<BoxedMiddleware>::empty(),
            !dispatcher.allow_from_self,
    {
        Dispatcher {
            routers: Vec::new(),
            plugins: Vec::new(),
            injector: Injector::new(),
            middlewares: MiddlewareStack::new(),
            allow_from_self: false,
        }
    }

    /// Attaches a new router: the one that `build` makes of a router that
    /// holds nothing.
    pub fn router<R: FnOnce(Router) -> Router>(self, build: R) -> (dispatcher: Dispatcher)
        requires
            forall|bare: Router| is_bare(bare) ==> call_requires(build, (bare,)),
        ensures
            exists|bare: Router, built: Router|
                #![trigger call_ensures(build, (bare,), built)]
                is_bare(bare) && call_ensures(build, (bare,), built) && dispatcher.routers@
                    == self.routers@.push(built),
            dispatcher.plugins == self.plugins,
            dispatcher.injector == self.injector,
            dispatcher.middlewares == self.middlewares,
            dispatcher.allow_from_self == self.allow_from_self,
    {
        let mut dispatcher = self;
        let bare = Router::new();
        assert(is_bare(bare));
        let built = build(bare);
        dispatcher.routers.push(built);
        dispatcher
    }

    /// Attaches resources: those that `fill` puts into an injector that
    /// holds nothing go behind the dispatcher's own, type by type.
    pub fn resources<D: FnOnce(Injector) -> Injector>(self, fill: D) -> (dispatcher: Dispatcher)
        requires
            forall|empty: Injector| empty@ == Map::<Kind, Seq<Value>>::empty() ==> call_requires(fill, (empty,)),
        ensures
            exists|empty: Injector, filled: Injector|
                #![trigger call_ensures(fill, (empty,), filled)]
                empty@ == Map::<Kind, Seq<Value>>::empty() && call_ensures(fill, (empty,), filled)
                    && dispatcher.injector@ == merged(self.injector@, filled@),
            dispatcher.routers == self.routers,
            dispatcher.plugins == self.plugins,
            dispatcher.middlewares == self.middlewares,
            dispatcher.allow_from_self == self.allow_from_self,
    {
        let mut dispatcher = self;
        let empty = Injector::new();
        let mut filled = fill(empty);
        dispatcher.injector.extend(&mut filled);
        dispatcher
    }

    /// Attaches resources.
    ///
    /// Same as `resources`.
    pub fn dependencies<D: FnOnce(Injector) -> Injector>(self, fill: D) -> (dispatcher: Dispatcher)
        requires
            forall|empty: Injector| empty@ == Map::<Kind, Seq<Value>>::empty() ==> call_requires(fill, (empty,)),
        ensures
            exists|empty: Injector, filled: Injector|
                #![trigger call_ensures(fill, (empty,), filled)]
                empty@ == Map::<Kind, Seq<Value>>::empty() && call_ensures(fill, (empty,), filled)
                    && dispatcher.injector@ == merged(self.injector@, filled@),
            dispatcher.routers == self.routers,
            dispatcher.plugins == self.plugins,
            dispatcher.middlewares == self.middlewares,
            dispatcher.allow_from_self == self.allow_from_self,
    {
        self.resources(fill)
    }

    /// Attaches a middleware stack: the one that `change` makes of the
    /// dispatcher's own.
    pub fn middlewares<M: FnOnce(MiddlewareStack) -> MiddlewareStack>(self, change: M) -> (dispatcher:
        Dispatcher)
        requires
            call_requires(change, (self.middlewares,)),
        ensures
            call_ensures(change, (self.middlewares,), dispatcher.middlewares),
            dispatcher.routers == self.routers,
            dispatcher.plugins == self.plugins,
            dispatcher.injector == self.injector,
            dispatcher.allow_from_self == self.allow_from_self,
    {
        let Dispatcher { routers, plugins, injector, middlewares, allow_from_self } = self;
        let middlewares = change(middlewares);
        Dispatcher { routers, plugins, injector, middlewares, allow_from_self }
    }

    /// Allows the client to handle updates from itself.
    ///
    /// By default, the client will not handle updates from itself.
    pub fn allow_from_self(self) -> (dispatcher: Dispatcher)
        ensures
            dispatcher.allow_from_self,
            dispatcher.routers == self.routers,
            dispatcher.plugins == self.plugins,
            dispatcher.injector == self.injector,
            dispatcher.middlewares == self.middlewares,
    {
        let mut dispatcher = self;
        dispatcher.allow_from_self = true;
        dispatcher
    }

    /// Attaches a new plugin, behind those that are there.
    pub fn plugin(self, plugin: Plugin) -> (dispatcher: Dispatcher)
        ensures
            dispatcher.plugins@ == self.plugins@.push(plugin),
            dispatcher.routers == self.routers,
            dispatcher.injector == self.injector,
            dispatcher.middlewares == self.middlewares,
            dispatcher.allow_from_self == self.allow_from_self,
    {
        let mut dispatcher = self;
        dispatcher.plugins.push(plugin);
        dispatcher
    }
}

impl Dispatcher {
    /// Handle the update sent by Telegram.
    ///
    /// Returns `Ok(())` if the update was handled, dropped or taken by no
    /// handler, and the error of the handler that took it and failed.
    ///
    /// Beyond the result: the chats that the update shows are saved in the
    /// cache, whatever becomes of the update; the dispatcher can do
    /// afterwards what it could before, its resources among it; and where the
    /// update is dropped as one of the client's own making, every router and
    /// plugin is left as it was.
    pub fn handle_update(&mut self, cache: &mut Cache, client: &Client, update: &Update) -> (result: Result<
        (),
        Error,
    >)
        ensures
            dispatches(old(self).board(), *client, *update, result),
            final(cache)@ == saved_all(old(cache)@, observed(*update), 0),
            final(self).board() == old(self).board(),
            !old(self).allow_from_self && update.is_from_self() ==> final(self).routers@ == old(self).routers@
                && final(self).plugins@ == old(self).plugins@,
            forall|k: int|
                0 <= k < old(self).routers.len() && !can_refuse(
                    #[trigger] old(self).board().routers[k],
                    old(self).board().hooks,
                    *client,
                    *update,
                ) ==> final(self).plugins@ == old(self).plugins@ && forall|j: int|
                    k < j < old(self).routers.len() ==> final(self).routers[j] == old(self).routers[j],
            forall|k: int|
                0 <= k < old(self).plugins.len() && !can_refuse(
                    #[trigger] old(self).board().routers[old(self).routers.len() + k],
                    old(self).board().hooks,
                    *client,
                    *update,
                ) ==> forall|j: int|
                    k < j < old(self).plugins.len() ==> final(self).plugins[j] == old(self).plugins[j],
    {
        let ghost board = self.board();
        let mut injector = Injector::new();
        injector.insert(Value::Context(Context::with(client, update)));
        injector.insert(Value::Client(client.clone()));
        injector.insert(Value::Update(update.clone()));
        let mut resources = self.injector.clone();
        injector.extend(&mut resources);
        let ghost seed = injector@;
        assert(seed == seeded(*client, *update, board.resources));
        let seen = observe(update);
        let mut at: usize = 0;
        while at < seen.len()
            invariant
                at <= seen.len(),
                saved_all(cache@, seen@, at as int) == saved_all(old(cache)@, seen@, 0),
            decreases seen.len() - at,
        {
            cache.save_chat(seen[at].clone());
            at = at + 1;
        }
        if !self.allow_from_self && update.from_self() {
            return Ok(());
        }
        let ghost hooks = board.hooks;
        let ghost all = board.routers;
        let mut outcome: Option<Result<bool, Error>> = None;
        let n = self.routers.len();
        let mut i: usize = 0;
        while outcome.is_none() && i < n
            invariant
                i <= n,
                n == self.routers.len(),
                n == old(self).routers.len(),
                all == trees(old(self).routers@) + plugin_trees(old(self).plugins@),
                forall|k: int| 0 <= k < n ==> (#[trigger] self.routers[k]).tree() == all[k],
                forall|k: int| i < k < n ==> self.routers[k] == old(self).routers[k],
                outcome is None ==> forall|k: int| i <= k < n ==> self.routers[k] == old(self).routers[k],
                forall|k: int| 0 <= k < i ==> can_refuse(#[trigger] all[k], hooks, *client, *update),
                self.plugins == old(self).plugins,
                self.injector == old(self).injector,
                self.allow_from_self == old(self).allow_from_self,
                self.middlewares.hooks() == hooks,
                hooks == old(self).middlewares.hooks(),
                outcome is None ==> forall|ended: Result<bool, Error>, left: Contents|
                    routers_run(all, i as int, hooks, *client, *update, injector@, ended, left) ==> routers_run(
                        all,
                        0,
                        hooks,
                        *client,
                        *update,
                        seed,
                        ended,
                        left,
                    ),
                outcome is Some ==> routers_run(all, 0, hooks, *client, *update, seed, outcome->0, injector@),
            decreases n - i + (if outcome is None { 1int } else { 0int }),
        {
            let ghost before = injector@;
            let ghost older = self.routers@;
            let one = self.routers[i].handle_update(client, update, &mut injector, &mut self.middlewares);
            proof {
                assert(older[i as int].tree() == all[i as int]);
                assert(ended_with(one, injector@));
                assert(router_runs(all[i as int], hooks, *client, *update, before, one, injector@));
                if one == Ok::<bool, Error>(false) {
                    assert(passed_on(before, injector@));
                    assert(can_refuse(all[i as int], hooks, *client, *update));
                    assert forall|ended: Result<bool, Error>, left: Contents|
                        routers_run(all, i + 1, hooks, *client, *update, injector@, ended, left) implies routers_run(
                        all,
                        0,
                        hooks,
                        *client,
                        *update,
                        seed,
                        ended,
                        left,
                    ) by {
                        assert(routers_run(all, i as int, hooks, *client, *update, before, ended, left));
                    }
                } else {
                    assert(routers_run(all, i as int, hooks, *client, *update, before, one, injector@));
                }
            }
            let declined = match &one {
                Ok(handled) => !*handled,
                Err(_) => false,
            };
            if declined {
                i = i + 1;
            } else {
                outcome = Some(one);
            }
        }
        let ghost at = i;
        let m = self.plugins.len();
        let mut j: usize = 0;
        while outcome.is_none() && j < m
            invariant
                j <= m,
                m == self.plugins.len(),
                m == old(self).plugins.len(),
                n == self.routers.len(),
                n == old(self).routers.len(),
                outcome is None ==> i == n,
                all == trees(old(self).routers@) + plugin_trees(old(self).plugins@),
                forall|k: int| 0 <= k < n ==> (#[trigger] self.routers[k]).tree() == all[k],
                forall|k: int| 0 <= k < m ==> (#[trigger] self.plugins[k]).router.tree() == all[n + k],
                forall|k: int| j < k < m ==> self.plugins[k] == old(self).plugins[k],
                outcome is None ==> forall|k: int| j <= k < m ==> self.plugins[k] == old(self).plugins[k],
                at <= n,
                at < n ==> outcome is Some && self.plugins@ == old(self).plugins@,
                forall|k: int| 0 <= k < at ==> can_refuse(#[trigger] all[k], hooks, *client, *update),
                forall|k: int| at < k < n ==> self.routers[k] == old(self).routers[k],
                forall|k: int| 0 <= k < j ==> can_refuse(#[trigger] all[n + k], hooks, *client, *update),
                self.routers.len() == old(self).routers.len(),
                self.injector == old(self).injector,
                self.allow_from_self == old(self).allow_from_self,
                self.middlewares.hooks() == hooks,
                hooks == old(self).middlewares.hooks(),
                outcome is None ==> forall|ended: Result<bool, Error>, left: Contents|
                    routers_run(all, n + j, hooks, *client, *update, injector@, ended, left) ==> routers_run(
                        all,
                        0,
                        hooks,
                        *client,
                        *update,
                        seed,
                        ended,
                        left,
                    ),
                outcome is Some ==> routers_run(all, 0, hooks, *client, *update, seed, outcome->0, injector@),
            decreases m - j + (if outcome is None { 1int } else { 0int }),
        {
            let ghost before = injector@;
            let ghost older = self.plugins@;
            let one = self.plugins[j].router.handle_update(client, update, &mut injector, &mut self.middlewares);
            proof {
                assert(older[j as int].router.tree() == all[n + j]);
                assert(ended_with(one, injector@));
                assert(router_runs(all[n + j], hooks, *client, *update, before, one, injector@));
                if one == Ok::<bool, Error>(false) {
                    assert(passed_on(before, injector@));
                    assert(can_refuse(all[n + j], hooks, *client, *update));
                    assert forall|ended: Result<bool, Error>, left: Contents|
                        routers_run(all, n + j + 1, hooks, *client, *update, injector@, ended, left) implies routers_run(
                        all,
                        0,
                        hooks,
                        *client,
                        *update,
                        seed,
                        ended,
                        left,
                    ) by {
                        assert(routers_run(all, n + j, hooks, *client, *update, before, ended, left));
                    }
                } else {
                    assert(routers_run(all, n + j, hooks, *client, *update, before, one, injector@));
                }
            }
            let declined = match &one {
                Ok(handled) => !*handled,
                Err(_) => false,
            };
            if declined {
                j = j + 1;
            } else {
                outcome = Some(one);
            }
        }
        let ended: Result<bool, Error> = match outcome {
            Some(ended) => ended,
            None => Ok(false),
        };
        proof {
            if outcome is None {
                assert(routers_run(all, n + m, hooks, *client, *update, injector@, Ok::<bool, Error>(false), injector@));
            }
            assert(ended_with(ended, injector@));
            assert(routers_run(all, 0, hooks, *client, *update, seed, ended, injector@));
            assert(trees(self.routers@) + plugin_trees(self.plugins@) =~= all);
        }
        match ended {
            Ok(_) => Ok(()),
            Err(e) => Err(e),
        }
    }
}

/// The commands that the routers from the `i`-th on answer.
pub open spec fn routers_commands(routers: Seq<Router>, i: int) -> Seq<CommandView>
    decreases routers.len() - i,
{
    if i < 0 || i >= routers.len() {
        Seq::empty()
    } else {
        routers[i].commands() + routers_commands(routers, i + 1)
    }
}

/// The commands that the plugins from the `i`-th on answer.
pub open spec fn plugins_commands(plugins: Seq<Plugin>, i: int) -> Seq<CommandView>
    decreases plugins.len() - i,
{
    if i < 0 || i >= plugins.len() {
        Seq::empty()
    } else {
        plugins[i].router.commands() + plugins_commands(plugins, i + 1)
    }
}

impl Dispatcher {
    /// Returns the commands from the routers and plugins: those of the
    /// routers, in order, then those of the plugins.
    pub fn get_commands(&self) -> (commands: Vec<Command>)
        ensures
            command_views(commands@) == routers_commands(self.routers@, 0) + plugins_commands(self.plugins@, 0),
    {
        let mut commands: Vec<Command> = Vec::new();
        let ghost goal = routers_commands(self.routers@, 0) + plugins_commands(self.plugins@, 0);
        let mut i: usize = 0;
        assert(command_views(commands@) + routers_commands(self.routers@, 0) =~= routers_commands(
            self.routers@,
            0,
        ));
        while i < self.routers.len()
            invariant
                i <= self.routers.len(),
                command_views(commands@) + routers_commands(self.routers@, i as int) == routers_commands(
                    self.routers@,
                    0,
                ),
            decreases self.routers.len() - i,
        {
            let ghost before = command_views(commands@);
            let mut found = self.routers[i].get_commands();
            let ghost added = command_views(found@);
            commands.append(&mut found);
            proof {
                assert(command_views(commands@) =~= before + added);
                assert(command_views(commands@) + routers_commands(self.routers@, i + 1) =~= before
                    + routers_commands(self.routers@, i as int));
            }
            i = i + 1;
        }
        let ghost of_routers = command_views(commands@);
        assert(of_routers =~= routers_commands(self.routers@, 0));
        let mut j: usize = 0;
        assert(command_views(commands@) + plugins_commands(self.plugins@, 0) =~= goal);
        while j < self.plugins.len()
            invariant
                j <= self.plugins.len(),
                goal == routers_commands(self.routers@, 0) + plugins_commands(self.plugins@, 0),
                command_views(commands@) + plugins_commands(self.plugins@, j as int) == goal,
            decreases self.plugins.len() - j,
        {
            let ghost before = command_views(commands@);
            let mut found = self.plugins[j].router.get_commands();
            let ghost added = command_views(found@);
            commands.append(&mut found);
            proof {
                assert(command_views(commands@) =~= before + added);
                assert(command_views(commands@) + plugins_commands(self.plugins@, j + 1) =~= before
                    + plugins_commands(self.plugins@, j as int));
            }
            j = j + 1;
        }
        assert(command_views(commands@) + plugins_commands(self.plugins@, j as int) =~= command_views(commands@));
        commands
    }
}

impl Default for Dispatcher {
    fn default() -> (dispatcher: Dispatcher)
        ensures
            dispatcher.routers@ == Seq::<Router>::empty(),
            dispatcher.plugins@ == Seq::<Plugin>::empty(),
            dispatcher.injector@ == Map::<Kind, Seq<Value>>::empty(),
            dispatcher.middlewares.before@ == Seq::<BoxedMiddleware>::empty(),
            dispatcher.middlewares.after@ == Seq::<BoxedMiddleware>::empty(),
            !dispatcher.allow_from_self,
    {
        Dispatcher::new()
    }
}

} // verus!
