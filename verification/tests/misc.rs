use std::cell::RefCell;
use std::rc::Rc;
use std::sync::Arc;

use ferogram::client::{bot_commands, BotCommand, ClientBuilder, ClientType};
use ferogram::di::{Endpoint, HandlerFunc};
use ferogram::filters;
use ferogram::conversation::{Action, BoxedCallback, Callback, Conversation, Request, Response};
use ferogram::update::{CallbackQuery, Chat, InlineQuery, Message, Peer};
use ferogram::error::{Error, ErrorKind};
use ferogram::plugin::{Plugin, PluginBuilder};
use ferogram::text::{
    chars_of, contains, decimal_string, is_longer_than_a_byte, is_white_space, join, split, split_words, starts_with,
};
use ferogram::utils::{bytes_to_string, split_btns_into_columns, split_btns_into_rows};

#[test]
fn error_timeout_names_the_seconds() {
    let error = Error::timeout(30);
    assert_eq!(error.kind, ErrorKind::Timeout);
    assert_eq!(error.message, "Reached after waiting for 30 seconds");
    assert_eq!(error.to_string(), "Timeout: Reached after waiting for 30 seconds");
    assert_eq!(Error::timeout(0).message, "Reached after waiting for 0 seconds");
    assert_eq!(Error::timeout(u64::MAX).message, "Reached after waiting for 18446744073709551615 seconds");
}

#[test]
fn error_kinds_and_messages() {
    assert_eq!(Error::telegram("PEER_ID_INVALID").kind, ErrorKind::Telegram);
    assert_eq!(Error::telegram("PEER_ID_INVALID").message, "PEER_ID_INVALID");
    assert_eq!(Error::unknown().kind, ErrorKind::Unknown);
    assert_eq!(Error::unknown().to_string(), "Unknown: Undefined error");
    assert_eq!(Error::missing_dependency("Foo").kind, ErrorKind::MissingDependency);
    assert_eq!(Error::missing_dependency("Foo").message, "Missing dependency: Foo");
    assert_eq!(ErrorKind::default(), ErrorKind::Unknown);
    assert_eq!(ErrorKind::Timeout.to_string(), "Timeout");
    assert_eq!(ErrorKind::MissingDependency.to_string(), "MissingDependency");
    let error = Error::telegram("x");
    assert_eq!(error.duplicate(), error);
}

#[test]
fn decimal_string_writes_numbers_without_leading_zeros() {
    assert_eq!(decimal_string(0), "0");
    assert_eq!(decimal_string(7), "7");
    assert_eq!(decimal_string(10), "10");
    assert_eq!(decimal_string(1234567890), "1234567890");
    assert_eq!(decimal_string(u64::MAX), u64::MAX.to_string());
}

#[test]
fn words_are_the_stretches_between_white_space() {
    assert_eq!(split_words("start"), vec!["start"]);
    assert_eq!(split_words("  set  lang\tpt \n"), vec!["set", "lang", "pt"]);
    assert_eq!(split_words(""), Vec::<String>::new());
    assert_eq!(split_words(" \u{a0}\u{3000} "), Vec::<String>::new());
    assert_eq!(split_words("a\u{2003}b"), vec!["a", "b"]);
    assert_eq!(split_words("a\u{200b}b"), vec!["a\u{200b}b"]);
    assert!(is_white_space(' ') && is_white_space('\n') && is_white_space('\u{85}'));
    assert!(!is_white_space('a') && !is_white_space('\u{200b}') && !is_white_space('\u{8}'));
    for c in ['\0', '\t', '\r', '\u{e}', '\u{1680}', '\u{2000}', '\u{200a}', '\u{2028}', '\u{202f}', '\u{205f}', 'é'] {
        assert_eq!(is_white_space(c), c.is_whitespace());
    }
}

#[test]
fn join_puts_the_separator_between_each_two() {
    let parts = vec![String::from("a"), String::from("bc"), String::from("")];
    assert_eq!(join(&parts, "|"), "a|bc|");
    assert_eq!(join(&parts[..1].to_vec(), ", "), "a");
    assert_eq!(join(&Vec::new(), "|"), "");
}

#[test]
fn contains_and_starts_with_look_for_the_whole_part() {
    assert!(contains("hello world", "lo w"));
    assert!(contains("hello", ""));
    assert!(contains("hello", "hello"));
    assert!(contains("héllo", "llo"));
    assert!(!contains("hello", "hellos"));
    assert!(!contains("hello", "lol"));
    assert!(!contains("", "a"));
    assert!(starts_with("video/mp4", "video/"));
    assert!(starts_with("video/", "video/"));
    assert!(!starts_with("video", "video/"));
    assert!(!starts_with("audio/mp4", "video/"));
    assert_eq!(chars_of("aé🎲"), vec!['a', 'é', '🎲']);
}

#[test]
fn bytes_to_string_reads_utf8_and_replaces_what_is_none() {
    assert_eq!(bytes_to_string(b"Hello, World!"), "Hello, World!");
    assert_eq!(bytes_to_string("héllo 🎲".as_bytes()), "héllo 🎲");
    assert_eq!(bytes_to_string(&[b'a', 0xff, b'b']), "a\u{fffd}b");
    assert_eq!(bytes_to_string(&[]), "");
}

#[test]
fn buttons_split_into_columns() {
    assert_eq!(split_btns_into_columns(vec![1, 2, 3, 4, 5], 2), vec![vec![1, 2], vec![3, 4], vec![5]]);
    assert_eq!(split_btns_into_columns(vec![1, 2, 3, 4], 2), vec![vec![1, 2], vec![3, 4]]);
    assert_eq!(split_btns_into_columns(vec![1, 2], 5), vec![vec![1, 2]]);
    assert_eq!(split_btns_into_columns(vec![1, 2, 3], 1), vec![vec![1], vec![2], vec![3]]);
    assert_eq!(split_btns_into_columns(Vec::<u8>::new(), 3), Vec::<Vec<u8>>::new());
    assert_eq!(split_btns_into_columns(Vec::<u8>::new(), 0), Vec::<Vec<u8>>::new());
    assert_eq!(split_btns_into_columns(vec![1, 2, 3], 0), vec![vec![], vec![1, 2, 3]]);
}

#[test]
fn buttons_split_into_rows() {
    assert_eq!(split_btns_into_rows(vec![1, 2, 3, 4, 5], 2), vec![vec![1, 2, 3], vec![4, 5]]);
    assert_eq!(split_btns_into_rows(vec![1, 2, 3], 5), vec![vec![1, 2], vec![3]]);
    assert_eq!(split_btns_into_rows(vec![1, 2, 3], 3), vec![vec![], vec![1, 2, 3]]);
    assert_eq!(split_btns_into_rows(Vec::<u8>::new(), 2), Vec::<Vec<u8>>::new());
}

#[test]
fn plugin_builder_sets_each_field() {
    let plugin = Plugin::builder()
        .name("echo")
        .version("1.2.3")
        .author("first")
        .author("second")
        .description("Repeats what it hears")
        .build();

    assert_eq!(plugin.name(), "echo");
    assert_eq!(plugin.version(), "1.2.3");
    assert_eq!(plugin.authors(), &vec![String::from("first"), String::from("second")]);
    assert_eq!(plugin.description(), "Repeats what it hears");
    assert_eq!(plugin.router.handlers.len(), 0);

    let replaced = PluginBuilder::default().author("gone").authors(&["a", "b", "c"]).author("d").build();
    assert_eq!(replaced.authors(), &vec!["a", "b", "c", "d"]);
    assert_eq!(replaced.name(), "");
}

#[test]
fn client_type_defaults_to_a_bot_without_a_token() {
    assert_eq!(ClientType::default(), ClientType::Bot(String::new()));
    assert!(ClientType::default().is_bot());
    let user = ClientType::User(String::from("+5511999999999"));
    assert!(!user.is_bot());
    assert_eq!(user.credential(), "+5511999999999");
    assert_eq!(ClientType::Bot(String::from("123:abc")).credential(), "123:abc");
    assert_eq!(user.clone(), user);
}

struct Recorder {
    seen: Rc<RefCell<Vec<Option<Response>>>>,
}

impl Callback for Recorder {
    fn call(&mut self, last: &Option<Response>) {
        self.seen.borrow_mut().push(last.clone());
    }
}

fn peer(id: i64) -> Arc<Peer> {
    Arc::new(Peer { id, is_self: false, username: None, usernames: Vec::new() })
}

fn said(text: &str) -> Response {
    Response::Message(Arc::new(Message {
        id: 1,
        text: String::from(text),
        chat: Chat::User(peer(2)),
        sender: Some(Chat::User(peer(2))),
        media: None,
        url_entities: Vec::new(),
        forwarded: false,
        reply: None,
    }))
}

fn pressed() -> Response {
    Response::Callback(Arc::new(CallbackQuery {
        chat: Chat::User(peer(2)),
        sender: Chat::User(peer(2)),
        data: b"yes".to_vec(),
        message_text: None,
    }))
}

#[test]
fn conversation_goes_through_its_script_step_by_step() {
    let seen = Rc::new(RefCell::new(Vec::new()));
    let recorder = |seen: &Rc<RefCell<Vec<Option<Response>>>>| BoxedCallback {
        callback: Box::new(Recorder { seen: Rc::clone(seen) }),
    };
    let mut conversation = Conversation::new(30)
        .and_then(recorder(&seen))
        .send("Hello!")
        .ask("What is your name?")
        .and_then(recorder(&seen))
        .and_then(recorder(&seen))
        .wait_callback()
        .wait_message()
        .wait_inline()
        .and_then(recorder(&seen));
    assert_eq!(conversation.actions().len(), 9);
    assert!(matches!(conversation.actions()[2], Action::WaitReply(ref question) if question == "What is your name?"));
    assert_eq!(conversation.position(), 0);
    assert_eq!(conversation.get_response(), None);

    assert_eq!(conversation.advance(None), Request::Send(String::from("Hello!")));
    assert_eq!(conversation.position(), 2);
    assert_eq!(*seen.borrow(), vec![None]);
    assert_eq!(conversation.advance(None), Request::Ask(String::from("What is your name?"), 30));
    assert_eq!(conversation.position(), 3);

    assert!(!conversation.expects(&None));
    assert!(!conversation.expects(&Some(pressed())));
    assert!(conversation.expects(&Some(said("Ada"))));
    assert_eq!(conversation.answer(Some(pressed())), None);
    assert_eq!(conversation.position(), 3);
    assert_eq!(conversation.answer(Some(said("Ada"))), Some(Request::Callback(30)));
    assert_eq!(conversation.get_response(), Some(&said("Ada")));
    assert_eq!(*seen.borrow(), vec![None, Some(said("Ada")), Some(said("Ada"))]);

    assert_eq!(conversation.advance(Some(pressed())), Request::Message(30));
    assert_eq!(conversation.advance(Some(said("more"))), Request::Inline(30));
    let typed = Response::Inline(Arc::new(InlineQuery { sender: peer(2), text: String::from("cats") }));
    assert_eq!(conversation.advance(Some(typed.clone())), Request::Done);
    assert_eq!(conversation.position(), 9);
    assert_eq!(seen.borrow().len(), 4);
    assert_eq!(seen.borrow()[3], Some(typed.clone()));
    assert_eq!(conversation.get_response(), Some(&typed));

    assert_eq!(conversation.advance(None), Request::Done);
    assert_eq!(conversation.answer(Some(said("late"))), None);
}

#[test]
fn conversation_without_steps_is_over_at_once() {
    let mut conversation = Conversation::new(5);
    assert!(conversation.expects(&None));
    assert_eq!(conversation.advance(None), Request::Done);
    conversation.add_action(Action::WaitMessage);
    assert_eq!(conversation.advance(None), Request::Message(5));
    assert_eq!(conversation.advance(Some(said("hi"))), Request::Done);
}

#[test]
fn client_builder_sets_each_field_and_leaves_the_others() {
    let builder = ClientBuilder::bot("123:abc");
    assert_eq!(builder.client_type, ClientType::Bot(String::from("123:abc")));
    assert_eq!(builder.api_id, 0);
    assert_eq!(builder.api_hash, "");
    assert_eq!(builder.session_path(), "./ferogram.session");
    assert!(!builder.catch_up && !builder.set_bot_commands && !builder.wait_for_ctrl_c);
    assert!(builder.err_handler.is_none() && builder.exit_handler.is_none() && builder.ready_handler.is_none());

    let builder = builder
        .api_id(123456789)
        .api_hash("0123456789abcdef")
        .session_file("./bot.session")
        .device_model("Server")
        .system_version("1.0")
        .app_version("0.1.0")
        .lang_code("pt")
        .catch_up(true)
        .flood_sleep_threshold(60)
        .update_queue_limit(None)
        .wait_for_ctrl_c()
        .set_bot_commands()
        .on_ready(Endpoint { handler: Box::new(HandlerFunc::new(Vec::new(), |_| Ok(()))) });
    assert_eq!(builder.client_type, ClientType::Bot(String::from("123:abc")));
    assert_eq!(builder.api_id, 123456789);
    assert_eq!(builder.api_hash, "0123456789abcdef");
    assert_eq!(builder.session_path(), "./bot.session");
    assert_eq!(builder.device_model.as_deref(), Some("Server"));
    assert_eq!(builder.system_version.as_deref(), Some("1.0"));
    assert_eq!(builder.app_version.as_deref(), Some("0.1.0"));
    assert_eq!(builder.lang_code.as_deref(), Some("pt"));
    assert_eq!(builder.flood_sleep_threshold, Some(60));
    assert_eq!(builder.update_queue_limit, Some(None));
    assert!(builder.catch_up && builder.set_bot_commands && builder.wait_for_ctrl_c);
    assert!(builder.ready_handler.is_some() && builder.exit_handler.is_none());

    let user = ClientBuilder::user("+5511999999999").update_queue_limit(Some(100));
    assert_eq!(user.client_type, ClientType::User(String::from("+5511999999999")));
    assert_eq!(user.update_queue_limit, Some(Some(100)));
    assert_eq!(ClientBuilder::default().client_type, ClientType::Bot(String::new()));
}

#[test]
fn client_builder_from_settings_wants_an_account_an_id_and_a_hash() {
    let bot = ClientBuilder::from_settings(Some("123:abc"), Some("+55"), Some(7), Some("hash")).unwrap();
    assert_eq!(bot.client_type, ClientType::Bot(String::from("123:abc")));
    assert_eq!((bot.api_id, bot.api_hash.as_str()), (7, "hash"));
    let user = ClientBuilder::from_settings(None, Some("+55"), Some(7), Some("hash")).unwrap();
    assert_eq!(user.client_type, ClientType::User(String::from("+55")));
    assert!(ClientBuilder::from_settings(None, None, Some(7), Some("hash")).is_none());
    assert!(ClientBuilder::from_settings(Some("t"), None, None, Some("hash")).is_none());
    assert!(ClientBuilder::from_settings(Some("t"), None, Some(7), None).is_none());
}

#[test]
fn bot_commands_are_the_names_between_the_bars() {
    let names = vec![String::from("a"), String::from("help"), String::from("é"), String::from(""), String::from("about")];
    let filters = vec![
        filters::command("start").description("Starts the bot"),
        filters::commands(&names).description("Helps"),
        filters::command(""),
        filters::command("x"),
    ];

    let told = bot_commands(&filters);

    let expected: Vec<BotCommand> = [("start", "Starts the bot"), ("help", "Helps"), ("é", "Helps"), ("about", "Helps")]
        .iter()
        .map(|(command, description)| BotCommand {
            command: String::from(*command),
            description: String::from(*description),
        })
        .collect();
    assert_eq!(told, expected);
    assert_eq!(bot_commands(&Vec::new()), Vec::<BotCommand>::new());
}

#[test]
fn split_cuts_at_each_separator() {
    assert_eq!(split("start|help", '|'), vec!["start", "help"]);
    assert_eq!(split("a||b|", '|'), vec!["a", "", "b", ""]);
    assert_eq!(split("", '|'), vec![""]);
    assert_eq!(split("no bar", '|'), vec!["no bar"]);
    for text in ["start|help", "a||b|", "", "|", "é|ü"] {
        let expected: Vec<String> = text.split('|').map(String::from).collect();
        assert_eq!(split(text, '|'), expected);
        for part in expected {
            assert_eq!(is_longer_than_a_byte(&part), part.len() > 1);
        }
    }
}
