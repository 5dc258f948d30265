use std::cell::Cell;
use std::rc::Rc;
use std::sync::Arc;

use ferogram::di::{Endpoint, HandlerFunc, Injector, Kind, Value};
use ferogram::cache::Cache;
use ferogram::dispatcher::{observe, Dispatcher};
use ferogram::error::{Error, ErrorKind};
use ferogram::error_handler::{BoxedErrorHandler, ErrorHandler};
use ferogram::filter::{and, not, or, BoxedFilter, Filter, FilterFn};
use ferogram::filters;
use ferogram::flow::{break_now, continue_now, continue_with, Flow};
use ferogram::handler;
use ferogram::handler::{Handler, Step, UpdateType};
use ferogram::middleware::{BoxedMiddleware, Middleware, MiddlewareStack};
use ferogram::plugin::Plugin;
use ferogram::router::Router;
use ferogram::update::{Chat, Client, InlineQuery, Message, Peer, RawKind, RawUpdate, Update};

fn client() -> Client {
    Client { user_id: 1, username: Some(String::from("botname")) }
}

fn peer(id: i64, is_self: bool) -> Arc<Peer> {
    Arc::new(Peer { id, is_self, username: None, usernames: Vec::new() })
}

fn message_from(text: &str, is_self: bool) -> Update {
    Update::NewMessage(Arc::new(Message {
        id: 7,
        text: String::from(text),
        chat: Chat::Group(peer(100, false)),
        sender: Some(Chat::User(peer(if is_self { 1 } else { 2 }, is_self))),
        media: None,
        url_entities: Vec::new(),
        forwarded: false,
        reply: None,
    }))
}

fn message(text: &str) -> Update {
    message_from(text, false)
}

fn raw() -> Update {
    Update::Raw(Arc::new(RawUpdate { kind: RawKind::Other }))
}

fn boxed<F: Fn(&Client, &Update) -> Flow + 'static>(f: F) -> BoxedFilter {
    BoxedFilter { filter: Box::new(FilterFn::new(f)) }
}

fn always() -> BoxedFilter {
    boxed(|_: &Client, _: &Update| continue_now())
}

fn never() -> BoxedFilter {
    boxed(|_: &Client, _: &Update| break_now())
}

/// A filter that counts its checks and hands `value` on.
fn counting(count: &Rc<Cell<u32>>, value: i64) -> BoxedFilter {
    let count = Rc::clone(count);
    boxed(move |_: &Client, _: &Update| {
        count.set(count.get() + 1);
        continue_with(Value::Number(value))
    })
}

fn endpoint<F: Fn(Vec<Value>) -> Result<(), Error> + 'static>(params: Vec<Kind>, f: F) -> Endpoint {
    Endpoint { handler: Box::new(HandlerFunc::new(params, f)) }
}

/// An endpoint that takes no argument and counts its calls.
fn counter(count: &Rc<Cell<u32>>) -> Endpoint {
    let count = Rc::clone(count);
    endpoint(Vec::new(), move |_| {
        count.set(count.get() + 1);
        Ok(())
    })
}

struct Blocker;

impl Middleware for Blocker {
    fn handle(&mut self, _client: &Client, _update: &Update, _injector: &mut Injector) -> Flow {
        break_now()
    }
}

struct Tagger {
    runs: Rc<Cell<u32>>,
}

impl Middleware for Tagger {
    fn handle(&mut self, _client: &Client, _update: &Update, injector: &mut Injector) -> Flow {
        self.runs.set(self.runs.get() + 1);
        injector.insert(Value::Flag(true));
        continue_now()
    }
}

struct Supplier {
    text: &'static str,
    runs: Rc<Cell<u32>>,
}

impl ErrorHandler for Supplier {
    fn run(&self, _client: &Client, _update: &Update, _error: &Error) -> Flow {
        self.runs.set(self.runs.get() + 1);
        continue_with(Value::Text(String::from(self.text)))
    }
}

struct GivesUp;

impl ErrorHandler for GivesUp {
    fn run(&self, _client: &Client, _update: &Update, _error: &Error) -> Flow {
        break_now()
    }
}

#[test]
fn router() {
    let router = Router::default()
        .handler(handler::then(endpoint(Vec::new(), |_| Ok(()))))
        .handler(handler::new_message(always()))
        .handler(handler::new_update(always()).then(endpoint(Vec::new(), |_| Ok(()))))
        .handler(handler::then(endpoint(vec![Kind::Update], |_| Ok(()))));

    assert_eq!(router.handlers.len(), 4);
}

#[test]
fn test_middlewares() {
    let router = Router {
        handlers: Vec::new(),
        routers: Vec::new(),
        middlewares: MiddlewareStack::new(),
    };

    let updated_router = router.middlewares(|middlewares: MiddlewareStack| {
        middlewares
            .before(BoxedMiddleware { middleware: Box::new(Blocker) })
            .after(BoxedMiddleware { middleware: Box::new(Blocker) })
    });

    assert_eq!(updated_router.middlewares.before.len(), 1);
    assert_eq!(updated_router.middlewares.after.len(), 1);
}

#[test]
fn test_dispatcher() {
    let dispatcher = Dispatcher::default()
        .router(|router: Router| router)
        .router(|router: Router| router.handler(handler::then(endpoint(vec![Kind::Client, Kind::Update], |_| Ok(())))));

    assert_eq!(dispatcher.routers.len(), 2);
    assert_eq!(dispatcher.routers[0].handlers.len(), 0);
    assert_eq!(dispatcher.routers[1].handlers.len(), 1);
}

#[test]
fn and_stops_where_the_first_stops_and_does_not_ask_the_second() {
    let asked = Rc::new(Cell::new(0));
    let mut filter = and(never(), counting(&asked, 41));
    let mut flow = filter.check(&client(), &message("hello"));

    assert!(flow.is_break());
    assert!(flow.injector.is_empty());
    assert_eq!(flow.injector.take(Kind::Number), None);
    assert_eq!(asked.get(), 0);
}

#[test]
fn and_passes_where_both_pass_and_keeps_the_order_of_the_values() {
    let first = Rc::new(Cell::new(0));
    let second = Rc::new(Cell::new(0));
    let mut filter = and(counting(&first, 1), counting(&second, 2));
    let mut flow = filter.check(&client(), &message("hello"));

    assert!(flow.is_continue());
    assert_eq!(flow.injector.take(Kind::Number), Some(Value::Number(1)));
    assert_eq!(flow.injector.take(Kind::Number), Some(Value::Number(2)));
    assert_eq!(flow.injector.take(Kind::Number), None);
    assert_eq!((first.get(), second.get()), (1, 1));
}

#[test]
fn and_stops_where_the_second_stops_and_hands_nothing_on() {
    let first = Rc::new(Cell::new(0));
    let mut filter = and(counting(&first, 1), never());
    let flow = filter.check(&client(), &message("hello"));

    assert!(flow.is_break());
    assert!(flow.injector.is_empty());
    assert_eq!(first.get(), 1);
}

#[test]
fn or_keeps_the_first_where_it_passes_and_does_not_ask_the_other() {
    let first = Rc::new(Cell::new(0));
    let other = Rc::new(Cell::new(0));
    let mut filter = or(counting(&first, 10), counting(&other, 20));
    let mut flow = filter.check(&client(), &message("hello"));

    assert!(flow.is_continue());
    assert_eq!(flow.injector.take(Kind::Number), Some(Value::Number(10)));
    assert_eq!(flow.injector.take(Kind::Number), None);
    assert_eq!((first.get(), other.get()), (1, 0));
}

#[test]
fn or_falls_back_on_the_other_where_the_first_stops() {
    let other = Rc::new(Cell::new(0));
    let mut filter = or(never(), counting(&other, 20));
    let mut flow = filter.check(&client(), &message("hello"));

    assert!(flow.is_continue());
    assert_eq!(flow.injector.take(Kind::Number), Some(Value::Number(20)));
    assert_eq!(other.get(), 1);

    let mut neither = or(never(), never());
    assert!(neither.check(&client(), &message("hello")).is_break());
}

#[test]
fn not_flips_the_verdict_and_drops_the_values() {
    let asked = Rc::new(Cell::new(0));
    let mut stops = not(counting(&asked, 5));
    let flow = stops.check(&client(), &message("hello"));
    assert!(flow.is_break());
    assert!(flow.injector.is_empty());
    assert_eq!(asked.get(), 1);

    let mut passes = not(never());
    let flow = passes.check(&client(), &message("hello"));
    assert!(flow.is_continue());
    assert!(flow.injector.is_empty());
}

#[test]
fn handler_check_goes_by_the_type_of_the_update_first() {
    let asked = Rc::new(Cell::new(0));
    let mut handler = Handler::new_message(counting(&asked, 1));

    assert!(handler.check(&client(), &raw()).is_break());
    assert_eq!(asked.get(), 0);
    assert!(handler.check(&client(), &message("hello")).is_continue());
    assert_eq!(asked.get(), 1);

    let mut unfiltered = handler::then(endpoint(Vec::new(), |_| Ok(())));
    assert!(unfiltered.check(&client(), &raw()).is_continue());
    assert!(unfiltered.check(&client(), &message("hello")).is_break());
}

#[test]
fn update_type_matches_its_own_tag_only() {
    assert!(UpdateType::NewMessage.matches(&message("x")));
    assert!(!UpdateType::MessageEdited.matches(&message("x")));
    assert!(UpdateType::Raw.matches(&raw()));
    assert!(!UpdateType::Raw.matches(&message("x")));
    let query = Update::InlineQuery(Arc::new(InlineQuery { sender: peer(2, false), text: String::new() }));
    assert!(UpdateType::InlineQuery.matches(&query));
    assert!(!UpdateType::InlineSend.matches(&query));
    assert_eq!(UpdateType::default(), UpdateType::Raw);
}

#[test]
fn router_first_match_wins() {
    let asked = Rc::new(Cell::new(0));
    let second = Rc::new(Cell::new(0));
    let third = Rc::new(Cell::new(0));
    let mut router = Router::default()
        .handler(handler::new_message(never()).then(counter(&asked)))
        .handler(handler::new_message(always()).then(counter(&second)))
        .handler(handler::new_message(always()).then(counter(&third)));
    let mut injector = Injector::default();
    let mut stack = MiddlewareStack::new();

    let result = router.handle_update(&client(), &message("hello"), &mut injector, &mut stack);

    assert_eq!(result, Ok(true));
    assert_eq!(asked.get() + second.get() + third.get(), 1);
    assert_eq!((asked.get(), second.get(), third.get()), (0, 1, 0));
}

#[test]
fn router_reports_an_update_that_nobody_takes_as_not_handled() {
    let calls = Rc::new(Cell::new(0));
    let mut router = Router::default()
        .handler(handler::new_message(never()).then(counter(&calls)))
        .handler(handler::new_update(always()).then(counter(&calls)))
        .handler(handler::new_message(always()));
    let mut injector = Injector::default();
    let mut stack = MiddlewareStack::new();

    let result = router.handle_update(&client(), &message("hello"), &mut injector, &mut stack);

    assert_eq!(result, Ok(false));
    assert_eq!(calls.get(), 0);
}

#[test]
fn router_goes_down_to_the_routers_below_in_order() {
    let first = Rc::new(Cell::new(0));
    let second = Rc::new(Cell::new(0));
    let below_first = Router::default().handler(handler::new_message(never()).then(counter(&first)));
    let below_second = Router::default().handler(handler::new_message(always()).then(counter(&second)));
    let below_third = Router::default().handler(handler::new_message(always()).then(counter(&first)));
    let mut router = Router::default().attach(below_first).attach(below_second).attach(below_third);
    let mut injector = Injector::default();
    let mut stack = MiddlewareStack::new();

    let result = router.handle_update(&client(), &message("hello"), &mut injector, &mut stack);

    assert_eq!(result, Ok(true));
    assert_eq!((first.get(), second.get()), (0, 1));
}

#[test]
fn router_flattens_the_handlers_of_a_router_built_in_place() {
    let router = Router::default()
        .handler(handler::new_message(always()))
        .router(|inner: Router| inner.handler(handler::new_update(always())).handler(handler::new_message(never())));

    assert_eq!(router.handlers.len(), 3);
    assert_eq!(router.routers.len(), 0);
    assert_eq!(router.handlers[1].update_type, UpdateType::Raw);
}

#[test]
fn endpoint_gets_the_values_of_the_filter_and_the_update_itself() {
    let seen = Rc::new(Cell::new(0));
    let inner = Rc::clone(&seen);
    let takes = endpoint(vec![Kind::Number, Kind::Message], move |args| {
        match (&args[0], &args[1]) {
            (Value::Number(n), Value::Message(m)) if m.text == "hello" => inner.set(*n),
            _ => inner.set(-1),
        }
        Ok(())
    });
    let asked = Rc::new(Cell::new(0));
    let mut router = Router::default().handler(handler::new_message(counting(&asked, 42)).then(takes));
    let mut injector = Injector::default();
    let mut stack = MiddlewareStack::new();

    let result = router.handle_update(&client(), &message("hello"), &mut injector, &mut stack);

    assert_eq!(result, Ok(true));
    assert_eq!(seen.get(), 42);
}

#[test]
fn missing_dependency_surfaces_and_the_error_handler_can_mend_it() {
    let calls = Rc::new(Cell::new(0));
    let inner = Rc::clone(&calls);
    let needs_text = move || {
        let inner = Rc::clone(&inner);
        endpoint(vec![Kind::Text], move |args| {
            assert_eq!(args, vec![Value::Text(String::from("mended"))]);
            inner.set(inner.get() + 1);
            Ok(())
        })
    };

    let mut bare = Router::default().handler(handler::new_message(always()).then(needs_text()));
    let mut injector = Injector::default();
    let mut stack = MiddlewareStack::new();
    let result = bare.handle_update(&client(), &message("hello"), &mut injector, &mut stack);
    let error = result.unwrap_err();
    assert_eq!(error.kind, ErrorKind::MissingDependency);
    assert_eq!(error.message, "Missing dependency: Text");
    assert_eq!(calls.get(), 0);

    let runs = Rc::new(Cell::new(0));
    let supplier = BoxedErrorHandler { handler: Box::new(Supplier { text: "mended", runs: Rc::clone(&runs) }) };
    let mut mended = Router::default().handler(handler::new_message(always()).then(needs_text()).on_err(supplier));
    let mut injector = Injector::default();
    let result = mended.handle_update(&client(), &message("hello"), &mut injector, &mut stack);
    assert_eq!(result, Ok(true));
    assert_eq!(runs.get(), 1);
    assert_eq!(calls.get(), 1);
}

#[test]
fn error_stands_where_the_error_handler_stops_or_the_retry_fails() {
    let failing = || endpoint(Vec::new(), |_| Err(Error::telegram("FLOOD_WAIT")));
    let mut gives_up = Router::default().handler(
        handler::new_message(always()).then(failing()).on_err(BoxedErrorHandler { handler: Box::new(GivesUp) }),
    );
    let mut injector = Injector::default();
    let mut stack = MiddlewareStack::new();
    let result = gives_up.handle_update(&client(), &message("hello"), &mut injector, &mut stack);
    assert_eq!(result, Err(Error { kind: ErrorKind::Telegram, message: String::from("FLOOD_WAIT") }));

    let runs = Rc::new(Cell::new(0));
    let supplier = BoxedErrorHandler { handler: Box::new(Supplier { text: "again", runs: Rc::clone(&runs) }) };
    let calls = Rc::new(Cell::new(0));
    let inner = Rc::clone(&calls);
    let always_fails = endpoint(Vec::new(), move |_| {
        inner.set(inner.get() + 1);
        Err(Error::unknown())
    });
    let mut retried = Router::default().handler(handler::new_message(always()).then(always_fails).on_err(supplier));
    let mut injector = Injector::default();
    let result = retried.handle_update(&client(), &message("hello"), &mut injector, &mut stack);
    assert_eq!(result, Err(Error::unknown()));
    assert_eq!(runs.get(), 1);
    assert_eq!(calls.get(), 2);
}

#[test]
fn before_middleware_that_breaks_skips_the_router_and_all_below_it() {
    let blocked = Rc::new(Cell::new(0));
    let open = Rc::new(Cell::new(0));
    let below = Router::default().handler(handler::new_message(always()).then(counter(&blocked)));
    let first = Router::default()
        .middlewares(|stack: MiddlewareStack| stack.before(BoxedMiddleware { middleware: Box::new(Blocker) }))
        .handler(handler::new_message(always()).then(counter(&blocked)))
        .attach(below);
    let sibling = Router::default().handler(handler::new_message(always()).then(counter(&open)));
    let mut dispatcher = Dispatcher::default().router(move |_| first).router(move |_| sibling);

    let result = dispatcher.handle_update(&mut Cache::new(), &client(), &message("hello"));

    assert_eq!(result, Ok(()));
    assert_eq!(blocked.get(), 0);
    assert_eq!(open.get(), 1);
    assert_eq!(dispatcher.routers[0].middlewares.before.len(), 1);
    assert_eq!(dispatcher.middlewares.before.len(), 0);
}

#[test]
fn hooks_of_the_routers_above_run_before_those_of_the_router() {
    let outer_runs = Rc::new(Cell::new(0));
    let inner_runs = Rc::new(Cell::new(0));
    let after_runs = Rc::new(Cell::new(0));
    let calls = Rc::new(Cell::new(0));
    let inner = Rc::clone(&calls);
    let takes_flags = endpoint(vec![Kind::Flag, Kind::Flag], move |args| {
        assert_eq!(args.len(), 2);
        inner.set(inner.get() + 1);
        Ok(())
    });
    let inner_tagger = BoxedMiddleware { middleware: Box::new(Tagger { runs: Rc::clone(&inner_runs) }) };
    let after_tagger = BoxedMiddleware { middleware: Box::new(Tagger { runs: Rc::clone(&after_runs) }) };
    let mut router = Router::default()
        .middlewares(move |stack: MiddlewareStack| stack.before(inner_tagger).after(after_tagger))
        .handler(handler::new_message(always()).then(takes_flags));
    let mut stack = MiddlewareStack::new()
        .before(BoxedMiddleware { middleware: Box::new(Tagger { runs: Rc::clone(&outer_runs) }) });
    let mut injector = Injector::default();

    let result = router.handle_update(&client(), &message("hello"), &mut injector, &mut stack);

    assert_eq!(result, Ok(true));
    assert_eq!((outer_runs.get(), inner_runs.get(), after_runs.get(), calls.get()), (1, 1, 1, 1));
    assert_eq!(stack.before.len(), 1);
    assert_eq!(stack.after.len(), 0);
    assert_eq!(router.middlewares.before.len(), 1);
    assert_eq!(router.middlewares.after.len(), 1);
}

#[test]
fn handler_run_reports_the_step() {
    let calls = Rc::new(Cell::new(0));
    let mut stack = MiddlewareStack::new();
    let mut injector = Injector::default();

    let mut takes = handler::new_message(always()).then(counter(&calls));
    assert_eq!(takes.run(&client(), &message("x"), &mut injector, &mut stack), Step::Done(Ok(true)));
    let mut skips = handler::new_message(never()).then(counter(&calls));
    assert_eq!(skips.run(&client(), &message("x"), &mut injector, &mut stack), Step::Next);
    let mut has_no_endpoint = handler::new_message(always());
    assert_eq!(has_no_endpoint.run(&client(), &message("x"), &mut injector, &mut stack), Step::Next);
    assert_eq!(calls.get(), 1);
}

#[test]
fn updates_from_self_are_dropped_unless_allowed() {
    let calls = Rc::new(Cell::new(0));
    let build = |calls: &Rc<Cell<u32>>| {
        let handler = handler::new_message(always()).then(counter(calls));
        Dispatcher::default().router(move |router: Router| router.handler(handler))
    };

    let mut strict = build(&calls);
    assert_eq!(strict.handle_update(&mut Cache::new(), &client(), &message_from("hello", true)), Ok(()));
    assert_eq!(calls.get(), 0);
    assert_eq!(strict.handle_update(&mut Cache::new(), &client(), &message_from("hello", false)), Ok(()));
    assert_eq!(calls.get(), 1);

    let mut open = build(&calls).allow_from_self();
    assert_eq!(open.handle_update(&mut Cache::new(), &client(), &message_from("hello", true)), Ok(()));
    assert_eq!(calls.get(), 2);
}

#[test]
fn dispatcher_hands_out_the_context_the_client_the_update_and_its_resources() {
    let calls = Rc::new(Cell::new(0));
    let inner = Rc::clone(&calls);
    let takes_all = endpoint(vec![Kind::Context, Kind::Client, Kind::Update, Kind::Text, Kind::Text], move |args| {
        assert!(matches!(&args[0], Value::Context(context) if context.client == client()));
        assert_eq!(args[1], Value::Client(client()));
        assert_eq!(args[2], Value::Update(message("hello")));
        assert_eq!(args[3], Value::Text(String::from("first")));
        assert_eq!(args[4], Value::Text(String::from("second")));
        inner.set(inner.get() + 1);
        Ok(())
    });
    let mut dispatcher = Dispatcher::default()
        .resources(|injector: Injector| injector.with(Value::Text(String::from("first"))))
        .dependencies(|injector: Injector| injector.with(Value::Text(String::from("second"))))
        .router(move |router: Router| router.handler(handler::new_message(always()).then(takes_all)));

    assert_eq!(dispatcher.handle_update(&mut Cache::new(), &client(), &message("hello")), Ok(()));
    assert_eq!(dispatcher.handle_update(&mut Cache::new(), &client(), &message("hello")), Ok(()));
    assert_eq!(calls.get(), 2);
    assert_eq!(dispatcher.injector.len(), 1);
}

#[test]
fn dispatcher_tries_the_plugins_after_the_routers_and_passes_errors_on() {
    let calls = Rc::new(Cell::new(0));
    let plugin = Plugin::builder().name("echo").build().handler(handler::new_message(always()).then(counter(&calls)));
    let mut dispatcher = Dispatcher::default()
        .router(|router: Router| router.handler(handler::new_message(never()).then(endpoint(Vec::new(), |_| Ok(())))))
        .plugin(plugin);
    assert_eq!(dispatcher.handle_update(&mut Cache::new(), &client(), &message("hello")), Ok(()));
    assert_eq!(calls.get(), 1);
    assert_eq!(dispatcher.handle_update(&mut Cache::new(), &client(), &raw()), Ok(()));
    assert_eq!(calls.get(), 1);

    let mut failing = Dispatcher::default()
        .router(|router: Router| {
            router.handler(handler::new_message(always()).then(endpoint(Vec::new(), |_| Err(Error::timeout(30)))))
        })
        .router({
            let calls = Rc::clone(&calls);
            move |router: Router| router.handler(handler::new_message(always()).then(counter(&calls)))
        });
    let error = failing.handle_update(&mut Cache::new(), &client(), &message("hello")).unwrap_err();
    assert_eq!(error.kind, ErrorKind::Timeout);
    assert_eq!(calls.get(), 1);
}

#[test]
fn built_in_filters_serve_as_filters_of_a_handler() {
    let calls = Rc::new(Cell::new(0));
    let mut router = Router::default()
        .handler(handler::new_message(boxed(filters::has_photo)).then(counter(&calls)))
        .handler(
            handler::new_message(BoxedFilter { filter: Box::new(filters::text("ell")) }).then(counter(&calls)),
        );
    let mut injector = Injector::default();
    let mut stack = MiddlewareStack::new();

    assert_eq!(router.handle_update(&client(), &message("hello"), &mut injector, &mut stack), Ok(true));
    assert_eq!(router.handle_update(&client(), &message("bye"), &mut injector, &mut stack), Ok(false));
    assert_eq!(calls.get(), 1);
}

#[test]
fn dispatcher_saves_the_chats_that_an_update_shows() {
    let mut cache = Cache::new();
    let mut dispatcher = Dispatcher::default();

    assert_eq!(dispatcher.handle_update(&mut cache, &client(), &message_from("hello", true)), Ok(()));

    assert_eq!(cache.len(), 2);
    assert!(cache.chat_exists(100));
    assert_eq!(cache.get_chat(100), Some(Chat::Group(peer(100, false))));
    assert_eq!(cache.get_chat(1), Some(Chat::User(peer(1, true))));
    assert_eq!(cache.get_chat(2), None);

    assert_eq!(dispatcher.handle_update(&mut cache, &client(), &message_from("again", false)), Ok(()));
    assert_eq!(cache.len(), 3);
    assert_eq!(dispatcher.handle_update(&mut cache, &client(), &raw()), Ok(()));
    assert_eq!(cache.len(), 3);

    assert_eq!(observe(&message("x")), vec![Chat::Group(peer(100, false)), Chat::User(peer(2, false))]);
    assert_eq!(observe(&raw()), Vec::<Chat>::new());
    let query = Update::InlineQuery(Arc::new(InlineQuery { sender: peer(5, false), text: String::new() }));
    assert_eq!(observe(&query), vec![Chat::User(peer(5, false))]);
}

#[test]
fn cache_keeps_the_chat_that_was_saved_first() {
    let mut cache = Cache::default();
    assert_eq!(cache.len(), 0);
    assert!(!cache.chat_exists(7));

    let first = Chat::User(Arc::new(Peer { id: 7, is_self: false, username: Some(String::from("old")), usernames: Vec::new() }));
    let second = Chat::User(Arc::new(Peer { id: 7, is_self: false, username: Some(String::from("new")), usernames: Vec::new() }));
    cache.save_chat(first.clone());
    cache.save_chat(second);
    cache.save_chat(Chat::Channel(peer(8, false)));

    assert_eq!(cache.len(), 2);
    assert_eq!(cache.get_chat(7), Some(first));
    assert_eq!(cache.get_chat(8), Some(Chat::Channel(peer(8, false))));
    assert_eq!(cache.get_chat(9), None);
}

#[test]
fn commands_are_listed_in_the_order_of_the_handlers() {
    let answering = |name: &str, what: &str| {
        let command = filters::command(name).description(what);
        handler::new_message(BoxedFilter { filter: Box::new(filters::command(name)) }).command(command)
    };
    let names = |commands: Vec<filters::Command>| -> Vec<String> {
        commands.into_iter().map(|command| format!("{}: {}", command.command, command.description)).collect()
    };
    let below = Router::default().handler(answering("stop", "Stops")).attach(Router::default().handler(answering("deep", "")));
    let router = Router::default()
        .handler(answering("start", "Starts the bot"))
        .handler(handler::new_message(always()))
        .attach(below)
        .handler(answering("help", "Shows help"));
    assert_eq!(router.handlers[0].command.as_ref().map(|command| command.prefixes.clone()), Some(vec![String::from("/"), String::from("!")]));
    assert_eq!(names(router.get_commands()), vec!["start: Starts the bot", "help: Shows help", "stop: Stops", "deep: "]);
    assert_eq!(names(Router::default().get_commands()), Vec::<String>::new());

    let plugin = Plugin::builder().name("echo").build().handler(answering("echo", "Repeats"));
    let dispatcher = Dispatcher::default()
        .router(|_| Router::default().handler(answering("first", "")))
        .plugin(plugin)
        .router(move |_| router);
    assert_eq!(
        names(dispatcher.get_commands()),
        vec!["first: ", "start: Starts the bot", "help: Shows help", "stop: Stops", "deep: ", "echo: Repeats"]
    );
}

#[test]
fn a_handler_with_a_command_still_goes_by_its_filter() {
    let calls = Rc::new(Cell::new(0));
    let start = BoxedFilter { filter: Box::new(filters::command("start")) };
    let mut router = Router::default()
        .handler(handler::new_message(start).then(counter(&calls)).command(filters::command("start")));
    let mut injector = Injector::default();
    let mut stack = MiddlewareStack::new();

    assert_eq!(router.handle_update(&client(), &message("/start@botname"), &mut injector, &mut stack), Ok(true));
    assert_eq!(router.handle_update(&client(), &message("/starting"), &mut injector, &mut stack), Ok(false));
    assert_eq!(calls.get(), 1);
    assert_eq!(router.get_commands().len(), 1);
}
