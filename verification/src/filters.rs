//! The filters that come with the library.

use std::sync::Arc;
use vstd::prelude::*;
use vstd::string::*;
use crate::di::{inserted, Value};
use crate::filter::{Answers, Filter};
use crate::flow::{break_now, continue_now, continue_with, pass, pass_with, stop, verdict_of_bool, Flow, Verdict};
use crate::text::{
    begins_with, contains, join, joined_with, occurs_in, split_words, starts_with, texts, words,
};
use crate::text::chars_of;
use crate::update::{copy_text, share, Chat, Client, Media, Message, RawKind, Span, Update};

verus! {

/// Whether `c` has a meaning of its own in a regular expression.
pub open spec fn is_meta(c: char) -> bool {
    c == '\\' || c == '.' || c == '+' || c == '*' || c == '?' || c == '(' || c == ')' || c == '|' || c == '['
        || c == ']' || c == '{' || c == '}' || c == '^' || c == '$' || c == '#' || c == '&' || c == '-' || c
        == '~'
}

/// `text` with a backslash before each character that has a meaning of its
/// own in a regular expression.
pub open spec fn escaped(text: Seq<char>) -> Seq<char>
    decreases text.len(),
{
    if text.len() == 0 {
        Seq::empty()
    } else if is_meta(text.last()) {
        escaped(text.drop_last()).push('\\').push(text.last())
    } else {
        escaped(text.drop_last()).push(text.last())
    }
}

/// Whether the regular expression `pattern` matches somewhere in `text`;
/// `None` where `pattern` is no regular expression that the regex crate
/// takes.
pub uninterp spec fn regex_match(pattern: Seq<char>, text: Seq<char>) -> Option<bool>;

/// Whether the regular expression `pattern` matches somewhere in `data`;
/// `None` where `pattern` is no regular expression that the regex crate
/// takes.
pub uninterp spec fn regex_match_bytes(pattern: Seq<char>, data: Seq<u8>) -> Option<bool>;

/// The address that `text` stands for, written out in full; `None` where
/// `text` is no absolute address.
pub uninterp spec fn url_of(text: Seq<char>) -> Option<Seq<char>>;

/// `regex::escape` copies the text and puts a backslash before each of the
/// characters `\ . + * ? ( ) | [ ] { } ^ $ # & - ~`.
#[verifier::external_body]
fn escape(text: &str) -> (quoted: String)
    ensures
        quoted@ == escaped(text@),
{
    regex::escape(text)
}

/// `regex::Regex::new` compiles the pattern or refuses it; `Regex::is_match`
/// then says whether the pattern matches anywhere in the text. What the two
/// come to hangs on the pattern and the text alone.
#[verifier::external_body]
fn regex_search(pattern: &str, text: &str) -> (found: Option<bool>)
    ensures
        found == regex_match(pattern@, text@),
{
    match regex::Regex::new(pattern) {
        Ok(compiled) => Some(compiled.is_match(text)),
        Err(_) => None,
    }
}

/// `regex::bytes::Regex::new` compiles the pattern or refuses it;
/// `Regex::is_match` then says whether the pattern matches anywhere in the
/// bytes. What the two come to hangs on the pattern and the bytes alone.
#[verifier::external_body]
fn regex_search_bytes(pattern: &str, data: &Vec<u8>) -> (found: Option<bool>)
    ensures
        found == regex_match_bytes(pattern@, data@),
{
    match regex::bytes::Regex::new(pattern) {
        Ok(compiled) => Some(compiled.is_match(data)),
        Err(_) => None,
    }
}

/// `url::Url::parse` reads an absolute address or refuses the text; the
/// address is then handed out as the string that it is written as. What this
/// comes to hangs on the text alone.
#[verifier::external_body]
fn parse_url(text: &str) -> (address: Option<String>)
    ensures
        match address {
            Some(written) => url_of(text@) == Some(written@),
            None => url_of(text@) is None,
        },
{
    match url::Url::parse(text) {
        Ok(address) => Some(String::from(address)),
        Err(_) => None,
    }
}

/// The verdict on a search: go on where the pattern was taken and matched.
pub open spec fn verdict_of_search(found: Option<bool>) -> Verdict {
    verdict_of_bool(found == Some(true))
}

/// The flow that a search comes to: go on where the pattern was taken and
/// matched, stop where it did not match or was refused.
pub fn flow_of_search(found: Option<bool>) -> (flow: Flow)
    ensures
        flow@ == verdict_of_search(found),
{
    match found {
        Some(matched) => Flow::from(matched),
        None => break_now(),
    }
}

/// Default prefixes for commands.
pub const DEFAULT_PREFIXES: [&'static str; 2] = ["/", "!"];

/// The default prefixes for commands, as texts.
pub open spec fn default_prefixes() -> Seq<Seq<char>> {
    seq!["/"@, "!"@]
}

/// The default prefixes for commands: `/` and `!`.
pub fn prefixes_by_default() -> (prefixes: Vec<String>)
    ensures
        texts(prefixes@) == default_prefixes(),
{
    let mut prefixes: Vec<String> = Vec::new();
    prefixes.push(String::from_str(DEFAULT_PREFIXES[0]));
    prefixes.push(String::from_str(DEFAULT_PREFIXES[1]));
    assert(texts(prefixes@) =~= default_prefixes());
    prefixes
}

/// Each of `texts`, escaped.
pub open spec fn each_escaped(list: Seq<Seq<char>>) -> Seq<Seq<char>> {
    Seq::new(list.len(), |i: int| escaped(list[i]))
}

/// Each of `list`, escaped for use in a regular expression.
pub fn escape_each(list: &Vec<String>) -> (out: Vec<String>)
    ensures
        texts(out@) == each_escaped(texts(list@)),
{
    let mut out: Vec<String> = Vec::new();
    let mut i: usize = 0;
    while i < list.len()
        invariant
            i <= list.len(),
            out.len() == i,
            forall|k: int| 0 <= k < i ==> (#[trigger] out@[k])@ == escaped(list@[k]@),
        decreases list.len() - i,
    {
        out.push(escape(list[i].as_str()));
        i = i + 1;
    }
    assert(texts(out@) =~= each_escaped(texts(list@)));
    out
}

/// The command as the pattern names it: its first word, followed by the
/// bot's name as an optional suffix where that name is known, then by a
/// space and the further words, each two a space apart.
pub open spec fn command_body(command: Seq<char>, username: Option<Seq<char>>) -> Seq<char> {
    let tokens = words(command);
    let head = if tokens.len() > 0 {
        tokens[0]
    } else {
        Seq::empty()
    };
    let named = match username {
        Some(name) => head + "(@"@ + name + ")?"@,
        None => head,
    };
    if tokens.len() > 1 {
        named + " "@ + joined_with(tokens.skip(1), " "@)
    } else {
        named
    }
}

/// The regular expression of a command: at the start of the text one of the
/// prefixes; then, letter case aside, the command; then the end of the text
/// or white space.
pub open spec fn command_pattern(prefixes: Seq<Seq<char>>, command: Seq<char>, username: Option<Seq<char>>) -> Seq<
    char,
> {
    "^("@ + joined_with(prefixes, "|"@) + ")(?i)("@ + command_body(command, username) + ")($|\\s)"@
}

/// A filter that passes messages which call a command.
pub struct Command {
    /// The prefixes that a command may start with, escaped.
    pub prefixes: Vec<String>,
    /// The command, or the commands with `|` between them.
    pub command: String,
    /// What the command is for.
    pub description: String,
    /// The bot's name, once it was looked up.
    pub username: Option<String>,
}

/// What a command reads as.
pub struct CommandView {
    /// The prefixes that the command may start with, escaped.
    pub prefixes: Seq<Seq<char>>,
    /// The command, or the commands with `|` between them.
    pub command: Seq<char>,
    /// What the command is for.
    pub description: Seq<char>,
    /// The bot's name, once it was looked up.
    pub username: Option<Seq<char>>,
}

impl View for Command {
    type V = CommandView;

    open spec fn view(&self) -> CommandView {
        CommandView {
            prefixes: texts(self.prefixes@),
            command: self.command@,
            description: self.description@,
            username: text_of(self.username),
        }
    }
}

impl Clone for Command {
    fn clone(&self) -> (copy: Command)
        ensures
            copy@ == self@,
    {
        let mut prefixes: Vec<String> = Vec::new();
        let mut i: usize = 0;
        while i < self.prefixes.len()
            invariant
                i <= self.prefixes.len(),
                prefixes.len() == i,
                forall|k: int| 0 <= k < i ==> (#[trigger] prefixes@[k])@ == self.prefixes@[k]@,
            decreases self.prefixes.len() - i,
        {
            prefixes.push(self.prefixes[i].clone());
            i = i + 1;
        }
        assert(texts(prefixes@) =~= texts(self.prefixes@));
        Command {
            prefixes,
            command: self.command.clone(),
            description: self.description.clone(),
            username: copy_text(&self.username),
        }
    }
}

/// The text of an optional string.
pub open spec fn text_of(value: Option<String>) -> Option<Seq<char>> {
    match value {
        Some(s) => Some(s@),
        None => None,
    }
}

/// The text that a command is looked for in: that of the message of a new or
/// edited message.
pub open spec fn command_text(update: Update) -> Option<Seq<char>> {
    match update.message() {
        Some(message) => Some(message.text@),
        None => None,
    }
}

/// The verdict on an update of a command with the prefixes `prefixes`, for a
/// bot named `name`: go on where the update is a new or edited message whose
/// text the command's pattern matches.
pub open spec fn command_verdict(
    prefixes: Seq<Seq<char>>,
    command: Seq<char>,
    name: Option<Seq<char>>,
    update: Update,
) -> Verdict {
    match command_text(update) {
        Some(text) => verdict_of_search(regex_match(command_pattern(prefixes, command, name), text)),
        None => stop(),
    }
}

/// The answers of a command whatever the bot is named.
pub open spec fn command_answers(prefixes: Seq<Seq<char>>, command: Seq<char>) -> Answers {
    |client: Client, update: Update, verdict: Verdict|
        exists|name: Option<Seq<char>>| verdict == #[trigger] command_verdict(prefixes, command, name, update)
}

impl Command {
    /// The name that a check with `client` goes by: the one that was looked
    /// up before, else the client's.
    pub open spec fn name_for(&self, client: Client) -> Option<Seq<char>> {
        if self.username is Some {
            text_of(self.username)
        } else {
            text_of(client.username)
        }
    }

    /// The verdict of a check that goes by the name `name`.
    pub open spec fn verdict_with(&self, name: Option<Seq<char>>, update: Update) -> Verdict {
        command_verdict(texts(self.prefixes@), self.command@, name, update)
    }

    /// Sets what the command is for.
    pub fn description(self, description: &str) -> (command: Command)
        ensures
            command.description@ == description@,
            command.prefixes == self.prefixes,
            command.command == self.command,
            command.username == self.username,
    {
        let mut command = self;
        command.description = String::from_str(description);
        command
    }

    /// Writes the regular expression of the command for a bot named `name`.
    pub fn pattern(&self, name: &Option<String>) -> (pattern: String)
        ensures
            pattern@ == command_pattern(texts(self.prefixes@), self.command@, text_of(*name)),
    {
        let tokens = split_words(self.command.as_str());
        let mut body = String::new();
        if tokens.len() > 0 {
            body.append(tokens[0].as_str());
        }
        match name {
            Some(name) => {
                body.append("(@");
                body.append(name.as_str());
                body.append(")?");
            },
            None => {},
        }
        if tokens.len() > 1 {
            let mut rest: Vec<String> = Vec::new();
            let mut i: usize = 1;
            while i < tokens.len()
                invariant
                    1 <= i <= tokens.len(),
                    rest.len() == i - 1,
                    forall|k: int| 0 <= k < i - 1 ==> (#[trigger] rest@[k])@ == tokens@[k + 1]@,
                decreases tokens.len() - i,
            {
                rest.push(tokens[i].clone());
                i = i + 1;
            }
            assert(texts(rest@) =~= words(self.command@).skip(1));
            body.append(" ");
            let tail = join(&rest, " ");
            body.append(tail.as_str());
        }
        assert(body@ =~= command_body(self.command@, text_of(*name)));
        let mut pattern = String::from_str("^(");
        let alternatives = join(&self.prefixes, "|");
        pattern.append(alternatives.as_str());
        pattern.append(")(?i)(");
        pattern.append(body.as_str());
        pattern.append(")($|\\s)");
        pattern
    }
}

impl Filter for Command {
    /// The verdict of a check hangs on the bot's name, which the first check
    /// looks up and later ones go by: the answers are the verdicts for any
    /// name.
    open spec fn answers(&self) -> Answers {
        command_answers(texts(self.prefixes@), self.command@)
    }

    /// Beyond what every filter promises: the verdict is the one that goes
    /// by the name that was looked up before, else by the client's; and that
    /// name is the one the filter keeps for later checks.
    fn check(&mut self, client: &Client, update: &Update) -> (flow: Flow)
        ensures
            flow@ == old(self).verdict_with(old(self).name_for(*client), *update),
            text_of(final(self).username) == old(self).name_for(*client),
            final(self).prefixes == old(self).prefixes,
            final(self).command == old(self).command,
            final(self).description == old(self).description,
    {
        if self.username.is_none() {
            self.username = copy_text(&client.username);
        }
        let ghost name = text_of(self.username);
        let flow = match update.as_message() {
            Some(message) => {
                let pattern = self.pattern(&self.username);
                flow_of_search(regex_search(pattern.as_str(), message.text.as_str()))
            },
            None => break_now(),
        };
        proof {
            assert(flow@ == self.verdict_with(name, *update));
        }
        flow
    }
}

/// Pass if the message matches the specified command.
///
/// The command is written into a regular expression, so it may hold the
/// syntax of one.
pub fn command(pat: &str) -> (filter: Command)
    ensures
        texts(filter.prefixes@) == each_escaped(default_prefixes()),
        filter.command@ == pat@,
        filter.description@ == Seq::<char>::empty(),
        filter.username is None,
{
    let prefixes = prefixes_by_default();
    Command {
        prefixes: escape_each(&prefixes),
        command: String::from_str(pat),
        description: String::new(),
        username: None,
    }
}

/// Pass if the message matches the specified command with custom prefixes.
pub fn command_with(pres: &Vec<String>, pat: &str) -> (filter: Command)
    ensures
        texts(filter.prefixes@) == each_escaped(texts(pres@)),
        filter.command@ == pat@,
        filter.description@ == Seq::<char>::empty(),
        filter.username is None,
{
    Command {
        prefixes: escape_each(pres),
        command: String::from_str(pat),
        description: String::new(),
        username: None,
    }
}

/// Pass if the message matches any of the specified commands.
pub fn commands(pats: &Vec<String>) -> (filter: Command)
    ensures
        texts(filter.prefixes@) == each_escaped(default_prefixes()),
        filter.command@ == joined_with(texts(pats@), "|"@),
        filter.description@ == Seq::<char>::empty(),
        filter.username is None,
{
    let prefixes = prefixes_by_default();
    Command {
        prefixes: escape_each(&prefixes),
        command: join(pats, "|"),
        description: String::new(),
        username: None,
    }
}

/// Pass if the message matches any of the specified commands with custom
/// prefixes.
pub fn commands_with(pres: &Vec<String>, pats: &Vec<String>) -> (filter: Command)
    ensures
        texts(filter.prefixes@) == each_escaped(texts(pres@)),
        filter.command@ == joined_with(texts(pats@), "|"@),
        filter.description@ == Seq::<char>::empty(),
        filter.username is None,
{
    Command {
        prefixes: escape_each(pres),
        command: join(pats, "|"),
        description: String::new(),
        username: None,
    }
}

/// Always pass.
pub fn always(client: &Client, update: &Update) -> (flow: Flow)
    ensures
        flow@ == pass(),
{
    continue_now()
}

/// Never pass.
pub fn never(client: &Client, update: &Update) -> (flow: Flow)
    ensures
        flow@ == stop(),
{
    break_now()
}

/// Pass if the message is from self.
pub fn me(client: &Client, update: &Update) -> (flow: Flow)
    ensures
        flow@ == verdict_of_bool(update.is_from_self()),
{
    Flow::from(update.from_self())
}

/// A filter that passes messages whose text holds a given text.
pub struct Text {
    /// The text that is looked for.
    pub pat: String,
}

/// The verdict on an update of a search for `pat` in the text of its message.
pub open spec fn text_verdict(pat: Seq<char>, update: Update) -> Verdict {
    match command_text(update) {
        Some(text) => verdict_of_bool(occurs_in(pat, text)),
        None => stop(),
    }
}

impl Filter for Text {
    open spec fn answers(&self) -> Answers {
        |client: Client, update: Update, verdict: Verdict| verdict == text_verdict(self.pat@, update)
    }

    fn check(&mut self, client: &Client, update: &Update) -> (flow: Flow)
        ensures
            flow@ == text_verdict(old(self).pat@, *update),
            *final(self) == *old(self),
    {
        match update.as_message() {
            Some(message) => Flow::from(contains(message.text.as_str(), self.pat.as_str())),
            None => break_now(),
        }
    }
}

/// Pass if the message contains the specified text.
pub fn text(pat: &str) -> (filter: Text)
    ensures
        filter.pat@ == pat@,
{
    Text { pat: String::from_str(pat) }
}

/// A filter that passes updates whose text or data a regular expression
/// matches.
pub struct Regex {
    /// The regular expression.
    pub pat: String,
}

/// What a search for the pattern `pat` in an update comes to: in the text of
/// a message or of an inline query, or in the data of a pressed button.
pub open spec fn regex_found(pat: Seq<char>, update: Update) -> Option<bool> {
    match update {
        Update::NewMessage(m) => regex_match(pat, m.text@),
        Update::MessageEdited(m) => regex_match(pat, m.text@),
        Update::CallbackQuery(q) => regex_match_bytes(pat, q.data@),
        Update::InlineQuery(q) => regex_match(pat, q.text@),
        _ => Some(false),
    }
}

impl Filter for Regex {
    open spec fn answers(&self) -> Answers {
        |client: Client, update: Update, verdict: Verdict|
            verdict == verdict_of_search(regex_found(self.pat@, update))
    }

    fn check(&mut self, client: &Client, update: &Update) -> (flow: Flow)
        ensures
            flow@ == verdict_of_search(regex_found(old(self).pat@, *update)),
            *final(self) == *old(self),
    {
        let found = match update {
            Update::NewMessage(m) | Update::MessageEdited(m) => regex_search(
                self.pat.as_str(),
                m.text.as_str(),
            ),
            Update::CallbackQuery(q) => regex_search_bytes(self.pat.as_str(), &q.data),
            Update::InlineQuery(q) => regex_search(self.pat.as_str(), q.text.as_str()),
            _ => Some(false),
        };
        flow_of_search(found)
    }
}

/// Pass if the message text or query data matches the specified pattern.
pub fn regex(pat: &str) -> (filter: Regex)
    ensures
        filter.pat@ == pat@,
{
    Regex { pat: String::from_str(pat) }
}

/// The media of the message of an update.
pub open spec fn media_of(update: Update) -> Option<Media> {
    match update.message() {
        Some(message) => message.media,
        None => None,
    }
}

/// The media of the message of an update.
pub fn media(update: &Update) -> (found: Option<&Media>)
    ensures
        match found {
            Some(m) => media_of(*update) == Some(*m),
            None => media_of(*update) is None,
        },
{
    match update.as_message() {
        Some(message) => match &message.media {
            Some(m) => Some(m),
            None => None,
        },
        None => None,
    }
}

/// Pass if the message has a dice.
///
/// Injects `Dice`: message's dice.
pub fn has_dice(client: &Client, update: &Update) -> (flow: Flow)
    ensures
        flow@ == (match media_of(*update) {
            Some(Media::Dice(dice)) => pass_with(Value::Dice(dice)),
            _ => stop(),
        }),
{
    match media(update) {
        Some(Media::Dice(dice)) => continue_with(Value::Dice(share(dice))),
        _ => break_now(),
    }
}

/// Pass if the message has a poll.
///
/// Injects `Poll`: message's poll.
pub fn has_poll(client: &Client, update: &Update) -> (flow: Flow)
    ensures
        flow@ == (match media_of(*update) {
            Some(Media::Poll(poll)) => pass_with(Value::Poll(poll)),
            _ => stop(),
        }),
{
    match media(update) {
        Some(Media::Poll(poll)) => continue_with(Value::Poll(share(poll))),
        _ => break_now(),
    }
}

/// Pass if the message has a photo.
///
/// Injects `Photo`: message's photo.
pub fn has_photo(client: &Client, update: &Update) -> (flow: Flow)
    ensures
        flow@ == (match media_of(*update) {
            Some(Media::Photo(photo)) => pass_with(Value::Photo(photo)),
            _ => stop(),
        }),
{
    match media(update) {
        Some(Media::Photo(photo)) => continue_with(Value::Photo(share(photo))),
        _ => break_now(),
    }
}

/// Pass if the message has a document.
///
/// Injects `Document`: message's document.
pub fn has_document(client: &Client, update: &Update) -> (flow: Flow)
    ensures
        flow@ == (match media_of(*update) {
            Some(Media::Document(document)) => pass_with(Value::Document(document)),
            _ => stop(),
        }),
{
    match media(update) {
        Some(Media::Document(document)) => continue_with(Value::Document(share(document))),
        _ => break_now(),
    }
}

/// Pass if the message has a sticker.
///
/// Injects `Sticker`: message's sticker.
pub fn has_sticker(client: &Client, update: &Update) -> (flow: Flow)
    ensures
        flow@ == (match media_of(*update) {
            Some(Media::Sticker(sticker)) => pass_with(Value::Sticker(sticker)),
            _ => stop(),
        }),
{
    match media(update) {
        Some(Media::Sticker(sticker)) => continue_with(Value::Sticker(share(sticker))),
        _ => break_now(),
    }
}

/// Pass if the message has an animated sticker.
///
/// Injects `Document`: message's animated sticker.
pub fn has_animated_sticker(client: &Client, update: &Update) -> (flow: Flow)
    ensures
        flow@ == (match media_of(*update) {
            Some(Media::Document(document)) => if document.is_animated {
                pass_with(Value::Document(document))
            } else {
                stop()
            },
            _ => stop(),
        }),
{
    match media(update) {
        Some(Media::Document(document)) => {
            if document.is_animated {
                continue_with(Value::Document(share(document)))
            } else {
                break_now()
            }
        },
        _ => break_now(),
    }
}

/// Whether the media type `mime_type` is there and begins with `start`.
pub open spec fn mime_begins_with(mime_type: Option<String>, start: Seq<char>) -> bool {
    mime_type is Some && begins_with(mime_type->0@, start)
}

/// Whether the media type `mime_type` is there and begins with `start`.
pub fn mime_starts_with(mime_type: &Option<String>, start: &str) -> (b: bool)
    ensures
        b == mime_begins_with(*mime_type, start@),
{
    match mime_type {
        Some(mime) => starts_with(mime.as_str(), start),
        None => false,
    }
}

/// Pass if the message has a video.
///
/// Injects `Document`: message's video.
pub fn has_video(client: &Client, update: &Update) -> (flow: Flow)
    ensures
        flow@ == (match media_of(*update) {
            Some(Media::Document(document)) => if mime_begins_with(document.mime_type, "video/"@) {
                pass_with(Value::Document(document))
            } else {
                stop()
            },
            _ => stop(),
        }),
{
    match media(update) {
        Some(Media::Document(document)) => {
            if mime_starts_with(&document.mime_type, "video/") {
                continue_with(Value::Document(share(document)))
            } else {
                break_now()
            }
        },
        _ => break_now(),
    }
}

/// Pass if the message has an audio: a document with a title or a
/// performer, or with a media type that begins with `audio/`.
///
/// Injects `Document`: message's audio.
pub fn has_audio(client: &Client, update: &Update) -> (flow: Flow)
    ensures
        flow@ == (match media_of(*update) {
            Some(Media::Document(document)) => if document.audio_title is Some || document.performer is Some
                || mime_begins_with(document.mime_type, "audio/"@) {
                pass_with(Value::Document(document))
            } else {
                stop()
            },
            _ => stop(),
        }),
{
    match media(update) {
        Some(Media::Document(document)) => {
            if document.audio_title.is_some() || document.performer.is_some() || mime_starts_with(
                &document.mime_type,
                "audio/",
            ) {
                continue_with(Value::Document(share(document)))
            } else {
                break_now()
            }
        },
        _ => break_now(),
    }
}

/// The text that an update carries: that of the message of a new or edited
/// message, or that of the message under a pressed button, once it was
/// loaded.
pub open spec fn carried_text(update: Update) -> Option<String> {
    match update {
        Update::NewMessage(m) => Some(m.text),
        Update::MessageEdited(m) => Some(m.text),
        Update::CallbackQuery(q) => q.message_text,
        _ => None,
    }
}

/// Pass if the message has text or caption.
///
/// Injects `String`: message's text.
pub fn has_text(client: &Client, update: &Update) -> (flow: Flow)
    ensures
        flow@ == (match carried_text(*update) {
            Some(text) => if text@.len() > 0 {
                pass_with(Value::Text(text))
            } else {
                stop()
            },
            None => stop(),
        }),
{
    let found: Option<&String> = match update {
        Update::NewMessage(m) | Update::MessageEdited(m) => Some(&m.text),
        Update::CallbackQuery(q) => match &q.message_text {
            Some(text) => Some(text),
            None => None,
        },
        _ => None,
    };
    match found {
        Some(text) => {
            if !text.as_str().is_empty() {
                continue_with(Value::Text(text.clone()))
            } else {
                break_now()
            }
        },
        None => break_now(),
    }
}

/// What an update of no other kind is about.
pub open spec fn raw_kind(update: Update) -> Option<RawKind> {
    match update {
        Update::Raw(raw) => Some(raw.kind),
        _ => None,
    }
}

/// Pass if a member joined a chat.
pub fn new_chat_member(client: &Client, update: &Update) -> (flow: Flow)
    ensures
        flow@ == verdict_of_bool(raw_kind(*update) == Some(RawKind::ChatParticipantAdd)),
{
    match update {
        Update::Raw(raw) => Flow::from(raw.kind == RawKind::ChatParticipantAdd),
        _ => break_now(),
    }
}

/// Pass if a member left a chat.
pub fn left_chat_member(client: &Client, update: &Update) -> (flow: Flow)
    ensures
        flow@ == verdict_of_bool(raw_kind(*update) == Some(RawKind::ChatParticipantDelete)),
{
    match update {
        Update::Raw(raw) => Flow::from(raw.kind == RawKind::ChatParticipantDelete),
        _ => break_now(),
    }
}

/// Pass if a user is typing.
pub fn typing(client: &Client, update: &Update) -> (flow: Flow)
    ensures
        flow@ == verdict_of_bool(
            raw_kind(*update) == Some(RawKind::UserTyping) || raw_kind(*update) == Some(
                RawKind::ChatUserTyping,
            ),
        ),
{
    match update {
        Update::Raw(raw) => Flow::from(raw.kind == RawKind::UserTyping || raw.kind == RawKind::ChatUserTyping),
        _ => break_now(),
    }
}

/// Pass if the message is a new one that was forwarded.
pub fn forwarded(client: &Client, update: &Update) -> (flow: Flow)
    ensures
        flow@ == verdict_of_bool(update is NewMessage && update->NewMessage_0.forwarded),
{
    match update {
        Update::NewMessage(m) => Flow::from(m.forwarded),
        _ => break_now(),
    }
}

/// The chat that an update takes place in: that of a message, or that of the
/// message under a pressed button.
pub open spec fn chat_of(update: Update) -> Option<Chat> {
    match update {
        Update::NewMessage(m) => Some(m.chat),
        Update::MessageEdited(m) => Some(m.chat),
        Update::CallbackQuery(q) => Some(q.chat),
        _ => None,
    }
}

/// The chat that an update takes place in.
pub fn chat(update: &Update) -> (found: Option<&Chat>)
    ensures
        match found {
            Some(c) => chat_of(*update) == Some(*c),
            None => chat_of(*update) is None,
        },
{
    match update {
        Update::NewMessage(m) | Update::MessageEdited(m) => Some(&m.chat),
        Update::CallbackQuery(q) => Some(&q.chat),
        _ => None,
    }
}

/// Pass if the chat is private.
///
/// Injects `User` and `Chat`: the user, then the chat.
pub fn private(client: &Client, update: &Update) -> (flow: Flow)
    ensures
        flow@ == (match chat_of(*update) {
            Some(Chat::User(user)) => Verdict {
                proceed: true,
                items: inserted(pass_with(Value::User(user)).items, Value::Chat(Chat::User(user))),
            },
            _ => stop(),
        }),
{
    match chat(update) {
        Some(Chat::User(user)) => {
            let mut flow = continue_with(Value::User(share(user)));
            flow.inject(Value::Chat(Chat::User(share(user))));
            flow
        },
        _ => break_now(),
    }
}

/// Pass if the chat is a group.
///
/// Injects `Group` and `Chat`: the group, then the chat.
pub fn group(client: &Client, update: &Update) -> (flow: Flow)
    ensures
        flow@ == (match chat_of(*update) {
            Some(Chat::Group(group)) => Verdict {
                proceed: true,
                items: inserted(pass_with(Value::Group(group)).items, Value::Chat(Chat::Group(group))),
            },
            _ => stop(),
        }),
{
    match chat(update) {
        Some(Chat::Group(group)) => {
            let mut flow = continue_with(Value::Group(share(group)));
            flow.inject(Value::Chat(Chat::Group(share(group))));
            flow
        },
        _ => break_now(),
    }
}

/// Pass if the chat is a channel.
///
/// Injects `Channel` and `Chat`: the channel, then the chat.
pub fn channel(client: &Client, update: &Update) -> (flow: Flow)
    ensures
        flow@ == (match chat_of(*update) {
            Some(Chat::Channel(channel)) => Verdict {
                proceed: true,
                items: inserted(pass_with(Value::Channel(channel)).items, Value::Chat(Chat::Channel(channel))),
            },
            _ => stop(),
        }),
{
    match chat(update) {
        Some(Chat::Channel(channel)) => {
            let mut flow = continue_with(Value::Channel(share(channel)));
            flow.inject(Value::Chat(Chat::Channel(share(channel))));
            flow
        },
        _ => break_now(),
    }
}

/// A filter that passes updates of the chat with a given identifier.
pub struct Id {
    /// The identifier.
    pub id: i64,
}

/// The verdict on an update of a filter that takes the chats which `takes`
/// holds of: go on with the chat where the update has one and it is taken.
pub open spec fn chat_verdict(update: Update, takes: spec_fn(Chat) -> bool) -> Verdict {
    match chat_of(update) {
        Some(chat) => if takes(chat) {
            pass_with(Value::Chat(chat))
        } else {
            stop()
        },
        None => stop(),
    }
}

impl Filter for Id {
    open spec fn answers(&self) -> Answers {
        |client: Client, update: Update, verdict: Verdict|
            verdict == chat_verdict(update, |chat: Chat| chat.peer().id == self.id)
    }

    fn check(&mut self, client: &Client, update: &Update) -> (flow: Flow)
        ensures
            flow@ == chat_verdict(*update, |chat: Chat| chat.peer().id == old(self).id),
            *final(self) == *old(self),
    {
        match chat(update) {
            Some(found) => {
                if found.as_peer().id == self.id {
                    continue_with(Value::Chat(found.clone()))
                } else {
                    break_now()
                }
            },
            None => break_now(),
        }
    }
}

/// Pass if the chat has the specified ID.
///
/// Injects `Chat`: the chat.
pub fn id(chat_id: i64) -> (filter: Id)
    ensures
        filter.id == chat_id,
{
    Id { id: chat_id }
}

/// Whether one of `names` reads `name`.
pub open spec fn names(names: Seq<String>, name: Seq<char>) -> bool {
    exists|i: int| 0 <= i < names.len() && (#[trigger] names[i])@ == name
}

/// Whether one of `list` reads `name`.
pub fn has_name(list: &Vec<String>, name: &str) -> (b: bool)
    ensures
        b == names(list@, name@),
{
    let wanted = String::from_str(name);
    let mut i: usize = 0;
    while i < list.len()
        invariant
            i <= list.len(),
            wanted@ == name@,
            forall|k: int| 0 <= k < i ==> (#[trigger] list@[k])@ != name@,
        decreases list.len() - i,
    {
        if list[i] == wanted {
            return true;
        }
        i = i + 1;
    }
    false
}

/// Whether a chat goes by `name`: as its main public name or as one of its
/// further ones.
pub open spec fn goes_by(chat: Chat, name: Seq<char>) -> bool {
    text_of(chat.peer().username) == Some(name) || names(chat.peer().usernames@, name)
}

/// A filter that passes updates of the chat with a given public name.
pub struct Username {
    /// The public name, without the `@`.
    pub username: String,
}

impl Filter for Username {
    open spec fn answers(&self) -> Answers {
        |client: Client, update: Update, verdict: Verdict|
            verdict == chat_verdict(update, |chat: Chat| goes_by(chat, self.username@))
    }

    fn check(&mut self, client: &Client, update: &Update) -> (flow: Flow)
        ensures
            flow@ == chat_verdict(*update, |chat: Chat| goes_by(chat, old(self).username@)),
            *final(self) == *old(self),
    {
        match chat(update) {
            Some(found) => {
                let peer = found.as_peer();
                let main = match &peer.username {
                    Some(name) => *name == self.username,
                    None => false,
                };
                if main || has_name(&peer.usernames, self.username.as_str()) {
                    continue_with(Value::Chat(found.clone()))
                } else {
                    break_now()
                }
            },
            None => break_now(),
        }
    }
}

/// Pass if the chat has the specified username.
///
/// Injects `Chat`: the chat.
pub fn username(name: &str) -> (filter: Username)
    ensures
        filter.username@ == name@,
{
    Username { username: String::from_str(name) }
}

/// Whether a chat goes by one of `list`: by its main public name where it
/// has one, else by one of its further names.
pub open spec fn goes_by_one_of(chat: Chat, list: Seq<String>) -> bool {
    match chat.peer().username {
        Some(main) => names(list, main@),
        None => exists|i: int|
            0 <= i < chat.peer().usernames@.len() && names(list, (#[trigger] chat.peer().usernames@[i])@),
    }
}

/// A filter that passes updates of the chats with one of the given public
/// names.
pub struct Usernames {
    /// The public names, without the `@`.
    pub usernames: Vec<String>,
}

impl Filter for Usernames {
    open spec fn answers(&self) -> Answers {
        |client: Client, update: Update, verdict: Verdict|
            verdict == chat_verdict(update, |chat: Chat| goes_by_one_of(chat, self.usernames@))
    }

    fn check(&mut self, client: &Client, update: &Update) -> (flow: Flow)
        ensures
            flow@ == chat_verdict(*update, |chat: Chat| goes_by_one_of(chat, old(self).usernames@)),
            *final(self) == *old(self),
    {
        match chat(update) {
            Some(found) => {
                let peer = found.as_peer();
                let taken = match &peer.username {
                    Some(main) => has_name(&self.usernames, main.as_str()),
                    None => {
                        let mut any = false;
                        let mut i: usize = 0;
                        while !any && i < peer.usernames.len()
                            invariant
                                i <= peer.usernames.len(),
                                any ==> i < peer.usernames.len() && names(self.usernames@, peer.usernames@[i as int]@),
                                forall|k: int|
                                    0 <= k < i ==> !names(self.usernames@, (#[trigger] peer.usernames@[k])@),
                            decreases peer.usernames.len() - i + (if any { 0int } else { 1int }),
                        {
                            if has_name(&self.usernames, peer.usernames[i].as_str()) {
                                any = true;
                            } else {
                                i = i + 1;
                            }
                        }
                        any
                    },
                };
                if taken {
                    continue_with(Value::Chat(found.clone()))
                } else {
                    break_now()
                }
            },
            None => break_now(),
        }
    }
}

/// Pass if the chat has any of the specified usernames.
///
/// Injects `Chat`: the chat.
pub fn usernames(list: Vec<String>) -> (filter: Usernames)
    ensures
        filter.usernames == list,
{
    Usernames { usernames: list }
}

/// The stretch of `text` that `span` marks, cut off where the text ends.
pub open spec fn stretch(text: Seq<char>, span: Span) -> Seq<char> {
    let start = if span.offset <= text.len() {
        span.offset as int
    } else {
        text.len() as int
    };
    let end = if span.length <= text.len() - start {
        start + span.length
    } else {
        text.len() as int
    };
    text.subrange(start, end)
}

/// The stretches of `text` that `spans` mark, in their order.
pub open spec fn stretches(text: Seq<char>, spans: Seq<Span>) -> Seq<Seq<char>> {
    Seq::new(spans.len(), |i: int| stretch(text, spans[i]))
}

/// `urls`, joined by the address `parsed` where there is one and the list
/// does not hold it yet.
pub open spec fn with_address(urls: Seq<Seq<char>>, parsed: Option<Seq<char>>) -> Seq<Seq<char>> {
    match parsed {
        Some(address) => if urls.contains(address) {
            urls
        } else {
            urls.push(address)
        },
        None => urls,
    }
}

/// `urls`, joined by the addresses that the words from the `i`-th on stand
/// for, each once.
pub open spec fn with_addresses(urls: Seq<Seq<char>>, tokens: Seq<Seq<char>>, i: int) -> Seq<Seq<char>>
    decreases tokens.len() - i,
{
    if i < 0 || i >= tokens.len() {
        urls
    } else {
        with_addresses(with_address(urls, url_of(tokens[i])), tokens, i + 1)
    }
}

/// The links of a message: the stretches of its text that are marked as
/// links, then the addresses that its words stand for, each once.
pub open spec fn urls_of(message: Message) -> Seq<Seq<char>> {
    with_addresses(stretches(message.text@, message.url_entities@), words(message.text@), 0)
}

/// Adds the address `parsed` to `urls` where there is one and the list does
/// not hold it yet.
pub fn add_url(urls: &mut Vec<String>, parsed: Option<String>)
    ensures
        texts(final(urls)@) == with_address(texts(old(urls)@), text_of(parsed)),
{
    match parsed {
        Some(address) => {
            let held = has_name(urls, address.as_str());
            proof {
                let list = texts(urls@);
                if held {
                    let i = choose|i: int| 0 <= i < urls@.len() && (#[trigger] urls@[i])@ == address@;
                    assert(list[i] == address@);
                } else {
                    if list.contains(address@) {
                        let i = choose|i: int| 0 <= i < list.len() && list[i] == address@;
                        assert(urls@[i]@ == address@);
                    }
                }
            }
            if !held {
                urls.push(address);
                assert(texts(urls@) =~= texts(old(urls)@).push(address@));
            }
        },
        None => {},
    }
}

/// Cuts the stretch that `span` marks out of `text`.
fn cut(text: &Vec<char>, span: Span) -> (out: String)
    ensures
        out@ == stretch(text@, span),
{
    let start = if span.offset <= text.len() {
        span.offset
    } else {
        text.len()
    };
    let end = if span.length <= text.len() - start {
        start + span.length
    } else {
        text.len()
    };
    let mut out = String::new();
    let mut i: usize = start;
    while i < end
        invariant
            start <= i <= end <= text.len(),
            out@ == text@.subrange(start as int, i as int),
        decreases end - i,
    {
        out.push(text[i]);
        assert(out@ =~= text@.subrange(start as int, i + 1));
        i = i + 1;
    }
    out
}

/// Pass if the message has a url: a stretch of its text that is marked as a
/// link, or a word that stands for an address.
///
/// Injects `Vec<String>`: urls.
pub fn has_url(client: &Client, update: &Update) -> (flow: Flow)
    ensures
        match update.message() {
            Some(message) => if urls_of(*message).len() > 0 {
                exists|list: Arc<Vec<String>>|
                    texts(list@) == urls_of(*message) && flow@ == #[trigger] pass_with(Value::Texts(list))
            } else {
                flow@ == stop()
            },
            None => flow@ == stop(),
        },
{
    match update.as_message() {
        Some(message) => {
            let text = chars_of(message.text.as_str());
            let mut urls: Vec<String> = Vec::new();
            let mut i: usize = 0;
            while i < message.url_entities.len()
                invariant
                    i <= message.url_entities.len(),
                    text@ == message.text@,
                    urls.len() == i,
                    forall|k: int|
                        0 <= k < i ==> (#[trigger] urls@[k])@ == stretch(message.text@, message.url_entities@[k]),
                decreases message.url_entities.len() - i,
            {
                urls.push(cut(&text, message.url_entities[i]));
                i = i + 1;
            }
            assert(texts(urls@) =~= stretches(message.text@, message.url_entities@));
            let tokens = split_words(message.text.as_str());
            let ghost marked = texts(urls@);
            let mut j: usize = 0;
            while j < tokens.len()
                invariant
                    j <= tokens.len(),
                    texts(tokens@) == words(message.text@),
                    with_addresses(texts(urls@), texts(tokens@), j as int) == with_addresses(
                        marked,
                        texts(tokens@),
                        0,
                    ),
                decreases tokens.len() - j,
            {
                let parsed = parse_url(tokens[j].as_str());
                assert(text_of(parsed) == url_of(texts(tokens@)[j as int]));
                add_url(&mut urls, parsed);
                j = j + 1;
            }
            if urls.len() == 0 {
                break_now()
            } else {
                let list = Arc::new(urls);
                continue_with(Value::Texts(list))
            }
        },
        None => break_now(),
    }
}

/// The update that stands for the message which the message of `update`
/// answers, once that message was looked up.
pub open spec fn reply_of(update: Update) -> Option<Update> {
    match update.message() {
        Some(message) => match message.reply {
            Some(reply) => Some(Update::NewMessage(reply)),
            None => None,
        },
        None => None,
    }
}

/// The update that stands for the message which the message of `update`
/// answers.
pub fn reply_update(update: &Update) -> (found: Option<Update>)
    ensures
        found == reply_of(*update),
{
    match update.as_message() {
        Some(message) => match &message.reply {
            Some(reply) => Some(Update::NewMessage(share(reply))),
            None => None,
        },
        None => None,
    }
}

/// Pass if the message is a reply.
///
/// Injects `Message`: the message that was replied to.
pub fn reply(client: &Client, update: &Update) -> (flow: Flow)
    ensures
        flow@ == (match reply_of(*update) {
            Some(Update::NewMessage(message)) => pass_with(Value::Message(message)),
            _ => stop(),
        }),
{
    match reply_update(update) {
        Some(Update::NewMessage(message)) => continue_with(Value::Message(message)),
        _ => break_now(),
    }
}

/// Pass if the message is a reply to one with a dice.
///
/// Injects `Dice`: the dice of the message that was replied to.
pub fn reply_dice(client: &Client, update: &Update) -> (flow: Flow)
    ensures
        flow@ == (match reply_of(*update) {
            Some(answered) => match media_of(answered) {
                Some(Media::Dice(dice)) => pass_with(Value::Dice(dice)),
                _ => stop(),
            },
            None => stop(),
        }),
{
    match reply_update(update) {
        Some(answered) => has_dice(client, &answered),
        None => break_now(),
    }
}

/// Pass if the message is a reply to one with a poll.
///
/// Injects `Poll`: the poll of the message that was replied to.
pub fn reply_poll(client: &Client, update: &Update) -> (flow: Flow)
    ensures
        flow@ == (match reply_of(*update) {
            Some(answered) => match media_of(answered) {
                Some(Media::Poll(poll)) => pass_with(Value::Poll(poll)),
                _ => stop(),
            },
            None => stop(),
        }),
{
    match reply_update(update) {
        Some(answered) => has_poll(client, &answered),
        None => break_now(),
    }
}

/// Pass if the message is a reply to one with a photo.
///
/// Injects `Photo`: the photo of the message that was replied to.
pub fn reply_photo(client: &Client, update: &Update) -> (flow: Flow)
    ensures
        flow@ == (match reply_of(*update) {
            Some(answered) => match media_of(answered) {
                Some(Media::Photo(photo)) => pass_with(Value::Photo(photo)),
                _ => stop(),
            },
            None => stop(),
        }),
{
    match reply_update(update) {
        Some(answered) => has_photo(client, &answered),
        None => break_now(),
    }
}

/// Pass if the message is a reply to one with a document.
///
/// Injects `Document`: the document of the message that was replied to.
pub fn reply_document(client: &Client, update: &Update) -> (flow: Flow)
    ensures
        flow@ == (match reply_of(*update) {
            Some(answered) => match media_of(answered) {
                Some(Media::Document(document)) => pass_with(Value::Document(document)),
                _ => stop(),
            },
            None => stop(),
        }),
{
    match reply_update(update) {
        Some(answered) => has_document(client, &answered),
        None => break_now(),
    }
}

/// Pass if the message is a reply to one with a sticker.
///
/// Injects `Sticker`: the sticker of the message that was replied to.
pub fn reply_sticker(client: &Client, update: &Update) -> (flow: Flow)
    ensures
        flow@ == (match reply_of(*update) {
            Some(answered) => match media_of(answered) {
                Some(Media::Sticker(sticker)) => pass_with(Value::Sticker(sticker)),
                _ => stop(),
            },
            None => stop(),
        }),
{
    match reply_update(update) {
        Some(answered) => has_sticker(client, &answered),
        None => break_now(),
    }
}

/// Pass if the message is a reply to one with a video.
///
/// Injects `Document`: the video of the message that was replied to.
pub fn reply_video(client: &Client, update: &Update) -> (flow: Flow)
    ensures
        flow@ == (match reply_of(*update) {
            Some(answered) => match media_of(answered) {
                Some(Media::Document(document)) => if mime_begins_with(document.mime_type, "video/"@) {
                    pass_with(Value::Document(document))
                } else {
                    stop()
                },
                _ => stop(),
            },
            None => stop(),
        }),
{
    match reply_update(update) {
        Some(answered) => has_video(client, &answered),
        None => break_now(),
    }
}

/// Pass if the message is a reply to one with an audio.
///
/// Injects `Document`: the audio of the message that was replied to.
pub fn reply_audio(client: &Client, update: &Update) -> (flow: Flow)
    ensures
        flow@ == (match reply_of(*update) {
            Some(answered) => match media_of(answered) {
                Some(Media::Document(document)) => if document.audio_title is Some || document.performer is Some
                    || mime_begins_with(document.mime_type, "audio/"@) {
                    pass_with(Value::Document(document))
                } else {
                    stop()
                },
                _ => stop(),
            },
            None => stop(),
        }),
{
    match reply_update(update) {
        Some(answered) => has_audio(client, &answered),
        None => break_now(),
    }
}

/// Pass if the message is a reply to one with an animated sticker.
///
/// Injects `Document`: the animated sticker of the message that was replied
/// to.
pub fn reply_animated_sticker(client: &Client, update: &Update) -> (flow: Flow)
    ensures
        flow@ == (match reply_of(*update) {
            Some(answered) => match media_of(answered) {
                Some(Media::Document(document)) => if document.is_animated {
                    pass_with(Value::Document(document))
                } else {
                    stop()
                },
                _ => stop(),
            },
            None => stop(),
        }),
{
    match reply_update(update) {
        Some(answered) => has_animated_sticker(client, &answered),
        None => break_now(),
    }
}

/// A filter that passes replies to messages whose text holds a given text.
pub struct ReplyText {
    /// The text that is looked for.
    pub pat: String,
}

/// The verdict on an update of a search for `pat` in the text of the message
/// that its message answers: go on with that message where it holds `pat`.
pub open spec fn reply_text_verdict(pat: Seq<char>, update: Update) -> Verdict {
    match reply_of(update) {
        Some(Update::NewMessage(message)) => if occurs_in(pat, message.text@) {
            pass_with(Value::Message(message))
        } else {
            stop()
        },
        _ => stop(),
    }
}

impl Filter for ReplyText {
    open spec fn answers(&self) -> Answers {
        |client: Client, update: Update, verdict: Verdict| verdict == reply_text_verdict(self.pat@, update)
    }

    fn check(&mut self, client: &Client, update: &Update) -> (flow: Flow)
        ensures
            flow@ == reply_text_verdict(old(self).pat@, *update),
            *final(self) == *old(self),
    {
        match reply_update(update) {
            Some(Update::NewMessage(message)) => {
                if contains(message.text.as_str(), self.pat.as_str()) {
                    continue_with(Value::Message(message))
                } else {
                    break_now()
                }
            },
            _ => break_now(),
        }
    }
}

/// Pass if the replied message contains the specified text.
///
/// Injects `Message`: the message that was replied to.
pub fn reply_text(pat: &str) -> (filter: ReplyText)
    ensures
        filter.pat@ == pat@,
{
    ReplyText { pat: String::from_str(pat) }
}

/// The standing of a member in a group or channel.
#[derive(Clone, Copy, Debug, PartialEq, Eq, Structural)]
pub enum Role {
    /// Who created the chat.
    Creator,
    /// An administrator.
    Admin,
    /// Any other member.
    Member,
}

/// Who caused an update that takes place in a chat: the sender of a message,
/// where it is known, or who pressed a button.
pub open spec fn sender_of(update: Update) -> Option<Chat> {
    match update {
        Update::NewMessage(m) => m.sender,
        Update::MessageEdited(m) => m.sender,
        Update::CallbackQuery(q) => Some(q.sender),
        _ => None,
    }
}

/// The verdict on whether the sender of an update administers its chat: in a
/// private chat the sender does; elsewhere a sender that is known does where
/// the lookup of its standing found a creator or an administrator.
pub open spec fn administrator_verdict(update: Update, standing: Option<Role>) -> Verdict {
    match chat_of(update) {
        Some(Chat::User(_)) => pass(),
        Some(_) => verdict_of_bool(
            sender_of(update) is Some && (standing == Some(Role::Creator) || standing == Some(Role::Admin)),
        ),
        None => stop(),
    }
}

/// Pass if the sender administers the chat. `standing` is what the lookup
/// of the sender's standing in the chat found, `None` where it found nothing
/// or was not made.
pub fn administrator(client: &Client, update: &Update, standing: Option<Role>) -> (flow: Flow)
    ensures
        flow@ == administrator_verdict(*update, standing),
{
    let known = match update {
        Update::NewMessage(m) | Update::MessageEdited(m) => m.sender.is_some(),
        Update::CallbackQuery(_) => true,
        _ => false,
    };
    match chat(update) {
        Some(Chat::User(_)) => continue_now(),
        Some(_) => {
            let high = match standing {
                Some(Role::Creator) => true,
                Some(Role::Admin) => true,
                _ => false,
            };
            Flow::from(known && high)
        },
        None => break_now(),
    }
}

} // verus!
