use std::sync::Arc;

use ferogram::di::{Kind, Value};
use ferogram::filter::Filter;
use ferogram::filters;
use ferogram::filters::Role;
use ferogram::context::Context;
use ferogram::flow::Flow;
use ferogram::update::{
    CallbackQuery, Chat, Client, Dice, Document, InlineQuery, InlineSend, Media, Message, MessageDeletion, Peer,
    Photo, Poll, RawKind, RawUpdate, Span, Sticker, Update,
};

fn client() -> Client {
    Client { user_id: 1, username: Some(String::from("botname")) }
}

fn nameless() -> Client {
    Client { user_id: 1, username: None }
}

fn peer(id: i64, username: Option<&str>, usernames: &[&str]) -> Arc<Peer> {
    Arc::new(Peer {
        id,
        is_self: false,
        username: username.map(String::from),
        usernames: usernames.iter().map(|name| String::from(*name)).collect(),
    })
}

fn plain(text: &str) -> Message {
    Message {
        id: 7,
        text: String::from(text),
        chat: Chat::User(peer(2, Some("alice"), &[])),
        sender: Some(Chat::User(peer(2, Some("alice"), &[]))),
        media: None,
        url_entities: Vec::new(),
        forwarded: false,
        reply: None,
    }
}

fn message(text: &str) -> Update {
    Update::NewMessage(Arc::new(plain(text)))
}

fn edited(text: &str) -> Update {
    Update::MessageEdited(Arc::new(plain(text)))
}

fn with_media(media: Media) -> Update {
    Update::NewMessage(Arc::new(Message { media: Some(media), ..plain("caption") }))
}

fn in_chat(chat: Chat) -> Update {
    Update::NewMessage(Arc::new(Message { chat, ..plain("hi") }))
}

fn replying_to(reply: Message) -> Update {
    Update::NewMessage(Arc::new(Message { reply: Some(Arc::new(reply)), ..plain("answer") }))
}

fn callback(data: &[u8], message_text: Option<&str>) -> Update {
    Update::CallbackQuery(Arc::new(CallbackQuery {
        chat: Chat::Group(peer(100, Some("thegroup"), &[])),
        sender: Chat::User(peer(2, None, &[])),
        data: data.to_vec(),
        message_text: message_text.map(String::from),
    }))
}

fn inline(text: &str) -> Update {
    Update::InlineQuery(Arc::new(InlineQuery { sender: peer(2, None, &[]), text: String::from(text) }))
}

fn raw(kind: RawKind) -> Update {
    Update::Raw(Arc::new(RawUpdate { kind }))
}

fn document(mime_type: Option<&str>) -> Document {
    Document {
        id: 5,
        name: String::from("file"),
        mime_type: mime_type.map(String::from),
        audio_title: None,
        performer: None,
        is_animated: false,
    }
}

fn passes(flow: Flow) -> bool {
    flow.is_continue()
}

#[test]
fn command_matching() {
    let mut start = filters::command("start");

    assert!(passes(start.check(&client(), &message("/start"))));
    assert!(passes(start.check(&client(), &message("!start"))));
    assert!(passes(start.check(&client(), &message("/start@botname"))));
    assert!(!passes(start.check(&client(), &message("/starting"))));
    assert!(!passes(start.check(&client(), &message("/starter"))));
    assert!(passes(start.check(&client(), &message("/start now"))));
    assert!(passes(start.check(&client(), &message("/START"))));
    assert!(passes(start.check(&client(), &edited("/start"))));
    assert!(!passes(start.check(&client(), &message("start"))));
    assert!(!passes(start.check(&client(), &message(" /start"))));
    assert!(!passes(start.check(&client(), &message("/start@otherbot"))));
    assert!(!passes(start.check(&client(), &message("#start"))));
    assert!(!passes(start.check(&client(), &inline("/start"))));
    assert!(!passes(start.check(&client(), &callback(b"/start", Some("/start")))));
    assert!(start.check(&client(), &message("/start")).injector.is_empty());
}

#[test]
fn command_of_a_bot_without_a_name_takes_no_suffix() {
    let mut start = filters::command("start");

    assert!(passes(start.check(&nameless(), &message("/start"))));
    assert!(passes(start.check(&nameless(), &message("!start please"))));
    assert!(!passes(start.check(&nameless(), &message("/start@botname"))));
    assert!(!passes(start.check(&nameless(), &message("/starting"))));
    assert_eq!(start.username, None);
}

#[test]
fn command_keeps_the_name_it_looked_up_first() {
    let mut start = filters::command("start");
    assert_eq!(start.username, None);

    assert!(passes(start.check(&client(), &message("/start@botname"))));
    assert_eq!(start.username, Some(String::from("botname")));
    let renamed = Client { user_id: 1, username: Some(String::from("newname")) };
    assert!(passes(start.check(&renamed, &message("/start@botname"))));
    assert!(!passes(start.check(&renamed, &message("/start@newname"))));
    assert_eq!(start.username, Some(String::from("botname")));
}

#[test]
fn command_pattern_is_written_out_in_full() {
    let start = filters::command("start");
    assert_eq!(start.pattern(&Some(String::from("botname"))), r"^(/|!)(?i)(start(@botname)?)($|\s)");
    assert_eq!(start.pattern(&None), r"^(/|!)(?i)(start)($|\s)");

    let set = filters::command("  set   lang  pt ");
    assert_eq!(set.pattern(&Some(String::from("b"))), r"^(/|!)(?i)(set(@b)? lang pt)($|\s)");
    assert_eq!(set.pattern(&None), r"^(/|!)(?i)(set lang pt)($|\s)");

    let dotted = filters::command_with(&vec![String::from("."), String::from("$")], "help");
    assert_eq!(dotted.prefixes, vec![r"\.", r"\$"]);
    assert_eq!(dotted.pattern(&None), r"^(\.|\$)(?i)(help)($|\s)");

    let empty = filters::command("");
    assert_eq!(empty.pattern(&None), r"^(/|!)(?i)()($|\s)");
    let described = filters::command("start").description("Starts the bot");
    assert_eq!(described.description, "Starts the bot");
    assert_eq!(described.command, "start");
}

#[test]
fn command_with_further_words_wants_them_one_space_apart() {
    let mut set = filters::command("set lang");

    assert!(passes(set.check(&client(), &message("/set lang"))));
    assert!(passes(set.check(&client(), &message("/set@botname lang pt"))));
    assert!(!passes(set.check(&client(), &message("/set"))));
    assert!(!passes(set.check(&client(), &message("/set language"))));
}

#[test]
fn command_prefixes_are_taken_as_they_are_written() {
    let mut dotted = filters::command_with(&vec![String::from(".")], "help");

    assert!(passes(dotted.check(&client(), &message(".help"))));
    assert!(!passes(dotted.check(&client(), &message("xhelp"))));
    assert!(!passes(dotted.check(&client(), &message("/help"))));
}

#[test]
fn commands_match_any_of_the_commands() {
    let names = vec![String::from("start"), String::from("help")];
    let mut either = filters::commands(&names);
    assert_eq!(either.command, "start|help");
    assert!(passes(either.check(&client(), &message("/start"))));
    assert!(passes(either.check(&client(), &message("!help"))));
    assert!(!passes(either.check(&client(), &message("/stop"))));

    let mut custom = filters::commands_with(&vec![String::from("+")], &names);
    assert_eq!(custom.prefixes, vec![r"\+"]);
    assert!(passes(custom.check(&client(), &message("+help"))));
    assert!(!passes(custom.check(&client(), &message("/help"))));
}

#[test]
fn command_that_is_no_regular_expression_passes_nothing() {
    let mut broken = filters::command("sta(rt");
    assert!(!passes(broken.check(&client(), &message("/sta(rt"))));
    assert!(!passes(broken.check(&client(), &message("/start"))));
    assert!(!passes(filters::flow_of_search(None)));
    assert!(!passes(filters::flow_of_search(Some(false))));
    assert!(passes(filters::flow_of_search(Some(true))));
}

#[test]
fn text_filter_looks_for_the_text_in_messages_only() {
    let mut hello = filters::text("ell");
    assert!(passes(hello.check(&client(), &message("hello"))));
    assert!(passes(hello.check(&client(), &edited("well"))));
    assert!(!passes(hello.check(&client(), &message("hero"))));
    assert!(!passes(hello.check(&client(), &inline("hello"))));
    assert!(!passes(hello.check(&client(), &callback(b"hello", Some("hello")))));
}

#[test]
fn regex_filter_reads_text_and_data() {
    let mut digits = filters::regex(r"^\d+$");
    assert!(passes(digits.check(&client(), &message("12345"))));
    assert!(!passes(digits.check(&client(), &message("12a45"))));
    assert!(passes(digits.check(&client(), &callback(b"2024", None))));
    assert!(!passes(digits.check(&client(), &callback(b"year 2024", None))));
    assert!(!passes(digits.check(&client(), &callback(&[b'1', 0xff], None))));
    assert!(passes(digits.check(&client(), &inline("7"))));
    assert!(!passes(digits.check(&client(), &inline("seven"))));
    assert!(!passes(digits.check(&client(), &raw(RawKind::Other))));

    let mut broken = filters::regex("(");
    assert!(!passes(broken.check(&client(), &message("("))));
    assert!(!passes(broken.check(&client(), &callback(b"(", None))));
}

#[test]
fn always_never_and_me() {
    assert!(passes(filters::always(&client(), &message("x"))));
    assert!(!passes(filters::never(&client(), &message("x"))));

    let own = Arc::new(Peer { id: 1, is_self: true, username: None, usernames: Vec::new() });
    let mine = Update::NewMessage(Arc::new(Message { sender: Some(Chat::User(Arc::clone(&own))), ..plain("x") }));
    assert!(passes(filters::me(&client(), &mine)));
    assert!(mine.from_self());
    assert!(!passes(filters::me(&client(), &message("x"))));
    let anonymous = Update::NewMessage(Arc::new(Message { sender: None, ..plain("x") }));
    assert!(!passes(filters::me(&client(), &anonymous)));
    let as_group = Update::NewMessage(Arc::new(Message { sender: Some(Chat::Group(Arc::clone(&own))), ..plain("x") }));
    assert!(!passes(filters::me(&client(), &as_group)));
    let pressed = Update::CallbackQuery(Arc::new(CallbackQuery {
        chat: Chat::User(peer(2, None, &[])),
        sender: Chat::User(Arc::clone(&own)),
        data: Vec::new(),
        message_text: None,
    }));
    assert!(passes(filters::me(&client(), &pressed)));
    let typed = Update::InlineQuery(Arc::new(InlineQuery { sender: Arc::clone(&own), text: String::new() }));
    assert!(passes(filters::me(&client(), &typed)));
    let chosen = Update::InlineSend(Arc::new(InlineSend { sender: Arc::clone(&own), text: String::new() }));
    assert!(passes(filters::me(&client(), &chosen)));
    let deleted = Update::MessageDeleted(Arc::new(MessageDeletion { messages: vec![1], channel_id: None }));
    assert!(!passes(filters::me(&client(), &deleted)));
}

#[test]
fn media_filters_hand_the_media_on() {
    let dice = Arc::new(Dice { emoji: String::from("🎲"), value: 6 });
    let mut flow = filters::has_dice(&client(), &with_media(Media::Dice(Arc::clone(&dice))));
    assert!(flow.is_continue());
    assert_eq!(flow.injector.take(Kind::Dice), Some(Value::Dice(dice)));
    assert!(!passes(filters::has_dice(&client(), &message("no dice"))));
    assert!(!passes(filters::has_dice(&client(), &with_media(Media::Other))));

    let poll = Arc::new(Poll { question: String::from("Tabs or spaces?") });
    let mut flow = filters::has_poll(&client(), &with_media(Media::Poll(Arc::clone(&poll))));
    assert_eq!(flow.injector.take(Kind::Poll), Some(Value::Poll(poll)));

    let photo = Arc::new(Photo { id: 99 });
    let mut flow = filters::has_photo(&client(), &with_media(Media::Photo(Arc::clone(&photo))));
    assert_eq!(flow.injector.take(Kind::Photo), Some(Value::Photo(photo)));
    assert!(!passes(filters::has_photo(&client(), &with_media(Media::Document(Arc::new(document(None)))))));

    let file = Arc::new(document(Some("application/pdf")));
    let mut flow = filters::has_document(&client(), &with_media(Media::Document(Arc::clone(&file))));
    assert_eq!(flow.injector.take(Kind::Document), Some(Value::Document(Arc::clone(&file))));
    assert!(!passes(filters::has_video(&client(), &with_media(Media::Document(Arc::clone(&file))))));
    assert!(!passes(filters::has_audio(&client(), &with_media(Media::Document(Arc::clone(&file))))));
    assert!(!passes(filters::has_animated_sticker(&client(), &with_media(Media::Document(file)))));

    let sticker = Arc::new(Sticker { document: Arc::new(document(None)), emoji: String::from("👍") });
    let mut flow = filters::has_sticker(&client(), &with_media(Media::Sticker(Arc::clone(&sticker))));
    assert_eq!(flow.injector.take(Kind::Sticker), Some(Value::Sticker(sticker)));
}

#[test]
fn video_audio_and_animation_go_by_the_document() {
    let video = Arc::new(document(Some("video/mp4")));
    let mut flow = filters::has_video(&client(), &with_media(Media::Document(Arc::clone(&video))));
    assert_eq!(flow.injector.take(Kind::Document), Some(Value::Document(Arc::clone(&video))));
    assert!(!passes(filters::has_audio(&client(), &with_media(Media::Document(video)))));
    assert!(!passes(filters::has_video(&client(), &with_media(Media::Document(Arc::new(document(Some("video"))))))));

    let by_type = Arc::new(document(Some("audio/ogg")));
    assert!(passes(filters::has_audio(&client(), &with_media(Media::Document(by_type)))));
    let by_title = Arc::new(Document { audio_title: Some(String::from("Song")), ..document(None) });
    assert!(passes(filters::has_audio(&client(), &with_media(Media::Document(by_title)))));
    let by_performer = Arc::new(Document { performer: Some(String::from("Band")), ..document(Some("x/y")) });
    assert!(passes(filters::has_audio(&client(), &with_media(Media::Document(by_performer)))));

    let animated = Arc::new(Document { is_animated: true, ..document(None) });
    let mut flow = filters::has_animated_sticker(&client(), &with_media(Media::Document(Arc::clone(&animated))));
    assert_eq!(flow.injector.take(Kind::Document), Some(Value::Document(animated)));
}

#[test]
fn has_text_hands_the_text_on() {
    let mut flow = filters::has_text(&client(), &message("hello"));
    assert!(flow.is_continue());
    assert_eq!(flow.injector.take(Kind::Text), Some(Value::Text(String::from("hello"))));
    assert!(!passes(filters::has_text(&client(), &message(""))));
    let mut flow = filters::has_text(&client(), &callback(b"", Some("under the button")));
    assert_eq!(flow.injector.take(Kind::Text), Some(Value::Text(String::from("under the button"))));
    assert!(!passes(filters::has_text(&client(), &callback(b"data", None))));
    assert!(!passes(filters::has_text(&client(), &callback(b"data", Some("")))));
    assert!(!passes(filters::has_text(&client(), &inline("typed"))));
}

#[test]
fn has_url_collects_marked_stretches_and_addresses() {
    let marked = Update::NewMessage(Arc::new(Message {
        url_entities: vec![Span { offset: 4, length: 11 }, Span { offset: 30, length: 5 }, Span { offset: 14, length: 100 }],
        ..plain("see example.org now")
    }));
    let mut flow = filters::has_url(&client(), &marked);
    assert!(flow.is_continue());
    let expected = vec![String::from("example.org"), String::from(""), String::from("g now")];
    assert_eq!(flow.injector.take(Kind::Texts), Some(Value::Texts(Arc::new(expected))));

    let written = message("go to HTTPS://Example.COM/a%20b or https://example.com/a%20b or ftp://host");
    let mut flow = filters::has_url(&client(), &written);
    let expected = vec![String::from("https://example.com/a%20b"), String::from("ftp://host/")];
    assert_eq!(flow.injector.take(Kind::Texts), Some(Value::Texts(Arc::new(expected))));

    assert!(!passes(filters::has_url(&client(), &message("no address here, only example.org"))));
    assert!(!passes(filters::has_url(&client(), &inline("https://example.com"))));
    assert!(filters::has_url(&client(), &message("nothing")).injector.is_empty());
}

#[test]
fn add_url_adds_each_address_once() {
    let mut urls = vec![String::from("https://a/")];
    filters::add_url(&mut urls, None);
    filters::add_url(&mut urls, Some(String::from("https://a/")));
    filters::add_url(&mut urls, Some(String::from("https://b/")));
    filters::add_url(&mut urls, Some(String::from("https://b/")));
    assert_eq!(urls, vec!["https://a/", "https://b/"]);
}

#[test]
fn raw_filters_go_by_what_the_update_is_about() {
    assert!(passes(filters::new_chat_member(&client(), &raw(RawKind::ChatParticipantAdd))));
    assert!(!passes(filters::new_chat_member(&client(), &raw(RawKind::ChatParticipantDelete))));
    assert!(passes(filters::left_chat_member(&client(), &raw(RawKind::ChatParticipantDelete))));
    assert!(!passes(filters::left_chat_member(&client(), &message("left"))));
    assert!(passes(filters::typing(&client(), &raw(RawKind::UserTyping))));
    assert!(passes(filters::typing(&client(), &raw(RawKind::ChatUserTyping))));
    assert!(!passes(filters::typing(&client(), &raw(RawKind::Other))));
}

#[test]
fn forwarded_takes_new_messages_only() {
    let forwarded = Message { forwarded: true, ..plain("fw") };
    assert!(passes(filters::forwarded(&client(), &Update::NewMessage(Arc::new(forwarded)))));
    let forwarded = Message { forwarded: true, ..plain("fw") };
    assert!(!passes(filters::forwarded(&client(), &Update::MessageEdited(Arc::new(forwarded)))));
    assert!(!passes(filters::forwarded(&client(), &message("own words"))));
}

#[test]
fn chat_kind_filters_hand_the_peer_and_the_chat_on() {
    let user = peer(2, Some("alice"), &[]);
    let mut flow = filters::private(&client(), &in_chat(Chat::User(Arc::clone(&user))));
    assert!(flow.is_continue());
    assert_eq!(flow.injector.take(Kind::User), Some(Value::User(Arc::clone(&user))));
    assert_eq!(flow.injector.take(Kind::Chat), Some(Value::Chat(Chat::User(Arc::clone(&user)))));
    assert!(!passes(filters::group(&client(), &in_chat(Chat::User(Arc::clone(&user))))));
    assert!(!passes(filters::channel(&client(), &in_chat(Chat::User(user)))));

    let group = peer(100, None, &[]);
    let mut flow = filters::group(&client(), &in_chat(Chat::Group(Arc::clone(&group))));
    assert_eq!(flow.injector.take(Kind::Group), Some(Value::Group(Arc::clone(&group))));
    assert_eq!(flow.injector.take(Kind::Chat), Some(Value::Chat(Chat::Group(group))));
    assert!(passes(filters::group(&client(), &callback(b"", None))));
    assert!(!passes(filters::private(&client(), &callback(b"", None))));

    let channel = peer(200, Some("news"), &[]);
    let mut flow = filters::channel(&client(), &in_chat(Chat::Channel(Arc::clone(&channel))));
    assert_eq!(flow.injector.take(Kind::Channel), Some(Value::Channel(Arc::clone(&channel))));
    assert_eq!(flow.injector.take(Kind::Chat), Some(Value::Chat(Chat::Channel(channel))));
    assert!(!passes(filters::channel(&client(), &inline("x"))));
}

#[test]
fn id_and_username_filters_go_by_the_chat() {
    let chat = Chat::Channel(peer(200, Some("news"), &["daily", "press"]));
    let mut by_id = filters::id(200);
    let mut flow = by_id.check(&client(), &in_chat(chat.clone()));
    assert!(flow.is_continue());
    assert_eq!(flow.injector.take(Kind::Chat), Some(Value::Chat(chat.clone())));
    assert!(!passes(filters::id(201).check(&client(), &in_chat(chat.clone()))));
    assert!(passes(filters::id(100).check(&client(), &callback(b"", None))));
    assert!(!passes(filters::id(200).check(&client(), &inline("x"))));

    assert!(passes(filters::username("news").check(&client(), &in_chat(chat.clone()))));
    assert!(passes(filters::username("press").check(&client(), &in_chat(chat.clone()))));
    assert!(!passes(filters::username("new").check(&client(), &in_chat(chat.clone()))));
    assert!(passes(filters::username("thegroup").check(&client(), &callback(b"", None))));
    assert!(!passes(filters::username("news").check(&client(), &in_chat(Chat::User(peer(2, None, &[]))))));

    let list = |names: &[&str]| filters::usernames(names.iter().map(|name| String::from(*name)).collect());
    assert!(passes(list(&["other", "news"]).check(&client(), &in_chat(chat.clone()))));
    assert!(!passes(list(&["daily"]).check(&client(), &in_chat(chat.clone()))));
    let unnamed = Chat::Channel(peer(201, None, &["daily", "press"]));
    assert!(passes(list(&["x", "press"]).check(&client(), &in_chat(unnamed.clone()))));
    assert!(!passes(list(&["x", "y"]).check(&client(), &in_chat(unnamed))));
    assert!(!passes(list(&[]).check(&client(), &in_chat(chat))));
}

#[test]
fn reply_filters_read_the_message_that_was_answered() {
    let question = plain("is this the question?");
    let mut flow = filters::reply(&client(), &replying_to(plain("is this the question?")));
    assert!(flow.is_continue());
    assert_eq!(flow.injector.take(Kind::Message), Some(Value::Message(Arc::new(question))));
    assert!(!passes(filters::reply(&client(), &message("no reply"))));
    assert!(!passes(filters::reply(&client(), &inline("no reply"))));

    let dice = Arc::new(Dice { emoji: String::from("🎯"), value: 1 });
    let thrown = Message { media: Some(Media::Dice(Arc::clone(&dice))), ..plain("") };
    let mut flow = filters::reply_dice(&client(), &replying_to(thrown));
    assert_eq!(flow.injector.take(Kind::Dice), Some(Value::Dice(dice)));
    assert!(!passes(filters::reply_dice(&client(), &replying_to(plain("no dice")))));
    let own_dice = with_media(Media::Dice(Arc::new(Dice { emoji: String::new(), value: 2 })));
    assert!(!passes(filters::reply_dice(&client(), &own_dice)));

    let shot = Message { media: Some(Media::Photo(Arc::new(Photo { id: 3 }))), ..plain("") };
    assert!(passes(filters::reply_photo(&client(), &replying_to(shot))));
    let asked = Message { media: Some(Media::Poll(Arc::new(Poll { question: String::from("?") }))), ..plain("") };
    assert!(passes(filters::reply_poll(&client(), &replying_to(asked))));
    let file = Message { media: Some(Media::Document(Arc::new(document(None)))), ..plain("") };
    assert!(passes(filters::reply_document(&client(), &replying_to(file))));
    assert!(!passes(filters::reply_sticker(&client(), &replying_to(plain("text")))));

    let mut about = filters::reply_text("question");
    assert!(passes(about.check(&client(), &replying_to(plain("is this the question?")))));
    assert!(!passes(about.check(&client(), &replying_to(plain("something else")))));
    assert!(!passes(about.check(&client(), &message("question"))));
}

#[test]
fn administrator_goes_by_the_chat_and_the_standing() {
    let private = in_chat(Chat::User(peer(2, None, &[])));
    assert!(passes(filters::administrator(&client(), &private, None)));
    let group = in_chat(Chat::Group(peer(100, None, &[])));
    assert!(passes(filters::administrator(&client(), &group, Some(Role::Admin))));
    assert!(passes(filters::administrator(&client(), &group, Some(Role::Creator))));
    assert!(!passes(filters::administrator(&client(), &group, Some(Role::Member))));
    assert!(!passes(filters::administrator(&client(), &group, None)));
    let anonymous = Update::NewMessage(Arc::new(Message {
        chat: Chat::Group(peer(100, None, &[])),
        sender: None,
        ..plain("x")
    }));
    assert!(!passes(filters::administrator(&client(), &anonymous, Some(Role::Admin))));
    assert!(passes(filters::administrator(&client(), &callback(b"", None), Some(Role::Creator))));
    assert!(!passes(filters::administrator(&client(), &inline("x"), Some(Role::Creator))));
}

#[test]
fn reply_video_audio_and_animation_go_by_the_document_that_was_answered() {
    let video = Message { media: Some(Media::Document(Arc::new(document(Some("video/webm"))))), ..plain("") };
    assert!(passes(filters::reply_video(&client(), &replying_to(video))));
    let file = Message { media: Some(Media::Document(Arc::new(document(Some("image/png"))))), ..plain("") };
    assert!(!passes(filters::reply_video(&client(), &replying_to(file))));
    let song = Message { media: Some(Media::Document(Arc::new(document(Some("audio/mpeg"))))), ..plain("") };
    assert!(passes(filters::reply_audio(&client(), &replying_to(song))));
    assert!(!passes(filters::reply_audio(&client(), &message("la la"))));
    let animated = Arc::new(Document { is_animated: true, ..document(None) });
    let moving = Message { media: Some(Media::Document(Arc::clone(&animated))), ..plain("") };
    let mut flow = filters::reply_animated_sticker(&client(), &replying_to(moving));
    assert_eq!(flow.injector.take(Kind::Document), Some(Value::Document(animated)));
    assert!(!passes(filters::reply_animated_sticker(&client(), &replying_to(plain("still")))));
}

#[test]
fn context_reads_the_update() {
    let context = Context::with(&client(), &message("hello"));
    assert_eq!(context.client(), &client());
    assert_eq!(context.update(), &message("hello"));
    assert_eq!(context.text(), Some(String::from("hello")));
    assert_eq!(context.chat(), Some(Chat::User(peer(2, Some("alice"), &[]))));
    assert_eq!(context.sender(), Some(Chat::User(peer(2, Some("alice"), &[]))));
    assert_eq!(context.query(), None);
    assert_eq!(context.message(), Some(Arc::new(plain("hello"))));
    assert_eq!(context.callback_query(), None);
    assert!(context.is_message() && context.is_private());
    assert!(!context.is_edited() && !context.is_group() && !context.is_channel() && !context.is_raw());

    let pressed = context.clone_with(&callback(&[b'o', b'k', 0xff], None));
    assert_eq!(pressed.client(), &client());
    assert_eq!(pressed.query(), Some(String::from("ok\u{fffd}")));
    assert_eq!(pressed.text(), None);
    assert_eq!(pressed.message(), None);
    assert_eq!(pressed.chat(), Some(Chat::Group(peer(100, Some("thegroup"), &[]))));
    assert_eq!(pressed.sender(), Some(Chat::User(peer(2, None, &[]))));
    assert!(pressed.is_callback_query() && pressed.is_group() && !pressed.is_message());
    assert!(pressed.callback_query().is_some());

    let typed = context.clone_with(&inline("cats"));
    assert_eq!(typed.query(), Some(String::from("cats")));
    assert_eq!(typed.sender(), Some(Chat::User(peer(2, None, &[]))));
    assert_eq!(typed.chat(), None);
    assert!(typed.is_inline_query() && !typed.is_inline_send() && !typed.is_private());
    assert!(typed.inline_query().is_some() && typed.inline_send().is_none());

    let other = context.clone_with(&raw(RawKind::Other));
    assert!(other.is_raw());
    assert_eq!(other.sender(), None);
    assert_eq!(other.clone(), other);
    let edit = context.clone_with(&edited("fixed"));
    assert!(edit.is_edited() && !edit.is_message());
    assert_eq!(edit.text(), Some(String::from("fixed")));
}
