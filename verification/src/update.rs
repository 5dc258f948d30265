//! The incoming updates, as the dispatch core reads them.
//!
//! Every type here holds plain values: what the routing rules look at in an
//! update, and what the filters hand on to endpoints. Values that hold a list
//! are kept behind an `Arc`, so that handing one on is exact and cheap.

use std::sync::Arc;
use vstd::prelude::*;

verus! {

/// `Arc::clone` of std gives another handle to the same value: the two
/// handles are equal.
#[verifier::external_body]
pub(crate) fn share<T>(value: &Arc<T>) -> (r: Arc<T>)
    ensures
        r == *value,
{
    Arc::clone(value)
}

/// A copy of an optional string.
pub fn copy_text(v: &Option<String>) -> (r: Option<String>)
    ensures
        r == *v,
{
    match v {
        Some(s) => Some(s.clone()),
        None => None,
    }
}

/// The account behind the client handle, as far as routing reads it.
#[derive(Debug, PartialEq)]
pub struct Client {
    /// The account's identifier.
    pub user_id: i64,
    /// The account's public name, if it has one.
    pub username: Option<String>,
}

impl Clone for Client {
    fn clone(&self) -> (r: Client)
        ensures
            r == *self,
    {
        Client { user_id: self.user_id, username: copy_text(&self.username) }
    }
}

/// A user, a group or a channel: whoever a chat is held with.
#[derive(Debug, PartialEq)]
pub struct Peer {
    /// The peer's identifier.
    pub id: i64,
    /// Whether the peer is the client's own account.
    pub is_self: bool,
    /// The peer's main public name.
    pub username: Option<String>,
    /// The peer's further public names.
    pub usernames: Vec<String>,
}

/// A chat, by the kind of peer behind it.
#[derive(Debug, PartialEq)]
pub enum Chat {
    /// A private chat with a user.
    User(Arc<Peer>),
    /// A group.
    Group(Arc<Peer>),
    /// A channel.
    Channel(Arc<Peer>),
}

impl Chat {
    /// The peer behind the chat.
    pub open spec fn peer(&self) -> Arc<Peer> {
        match self {
            Chat::User(p) => *p,
            Chat::Group(p) => *p,
            Chat::Channel(p) => *p,
        }
    }

    /// The peer behind the chat.
    pub fn as_peer(&self) -> (p: &Arc<Peer>)
        ensures
            *p == self.peer(),
    {
        match self {
            Chat::User(p) => p,
            Chat::Group(p) => p,
            Chat::Channel(p) => p,
        }
    }

    /// Whether the chat is a user who is the client's own account.
    pub open spec fn is_own_account(&self) -> bool {
        self is User && self.peer().is_self
    }

    /// Whether the chat is a user who is the client's own account.
    pub fn from_own_account(&self) -> (b: bool)
        ensures
            b == self.is_own_account(),
    {
        match self {
            Chat::User(p) => p.is_self,
            _ => false,
        }
    }
}

impl Clone for Chat {
    fn clone(&self) -> (r: Chat)
        ensures
            r == *self,
    {
        match self {
            Chat::User(p) => Chat::User(share(p)),
            Chat::Group(p) => Chat::Group(share(p)),
            Chat::Channel(p) => Chat::Channel(share(p)),
        }
    }
}

/// A photo.
#[derive(Debug, PartialEq)]
pub struct Photo {
    /// The photo's identifier.
    pub id: i64,
}

/// A file: a video, a piece of audio, an animation or any other document.
#[derive(Debug, PartialEq)]
pub struct Document {
    /// The document's identifier.
    pub id: i64,
    /// The file's name.
    pub name: String,
    /// The file's media type, such as `video/mp4`.
    pub mime_type: Option<String>,
    /// The title of a piece of audio.
    pub audio_title: Option<String>,
    /// The performer of a piece of audio.
    pub performer: Option<String>,
    /// Whether the document is an animation.
    pub is_animated: bool,
}

/// A sticker.
#[derive(Debug, PartialEq)]
pub struct Sticker {
    /// The file behind the sticker.
    pub document: Arc<Document>,
    /// The emoji the sticker stands for.
    pub emoji: String,
}

/// A thrown dice.
#[derive(Debug, PartialEq)]
pub struct Dice {
    /// The emoji that was thrown.
    pub emoji: String,
    /// The value it landed on.
    pub value: i32,
}

/// A poll.
#[derive(Debug, PartialEq)]
pub struct Poll {
    /// The poll's question.
    pub question: String,
}

/// What a message carries besides its text.
#[derive(Debug, PartialEq)]
pub enum Media {
    /// A photo.
    Photo(Arc<Photo>),
    /// A document.
    Document(Arc<Document>),
    /// A sticker.
    Sticker(Arc<Sticker>),
    /// A dice.
    Dice(Arc<Dice>),
    /// A poll.
    Poll(Arc<Poll>),
    /// A kind of media that no filter looks at.
    Other,
}

/// A stretch of a message's text, counted in characters.
#[derive(Clone, Copy, Debug, PartialEq, Eq, Structural)]
pub struct Span {
    /// Where the stretch starts.
    pub offset: usize,
    /// How many characters it holds.
    pub length: usize,
}

/// A message.
#[derive(Debug, PartialEq)]
pub struct Message {
    /// The message's identifier.
    pub id: i32,
    /// The text or caption.
    pub text: String,
    /// The chat the message was sent to.
    pub chat: Chat,
    /// Who sent it, if known.
    pub sender: Option<Chat>,
    /// The media it carries.
    pub media: Option<Media>,
    /// The stretches of the text that are marked as links.
    pub url_entities: Vec<Span>,
    /// Whether the message was forwarded from elsewhere.
    pub forwarded: bool,
    /// The message this one answers, once it was looked up.
    pub reply: Option<Arc<Message>>,
}

/// A record of deleted messages.
#[derive(Debug, PartialEq)]
pub struct MessageDeletion {
    /// The identifiers of the deleted messages.
    pub messages: Vec<i32>,
    /// The channel they were deleted from, if it was one.
    pub channel_id: Option<i64>,
}

/// The press of a button under a message.
#[derive(Debug, PartialEq)]
pub struct CallbackQuery {
    /// The chat that holds the message.
    pub chat: Chat,
    /// Who pressed the button.
    pub sender: Chat,
    /// The data bound to the button.
    pub data: Vec<u8>,
    /// The text of the message that holds the button, once it was loaded.
    pub message_text: Option<String>,
}

/// A query typed after the bot's name in any chat.
#[derive(Debug, PartialEq)]
pub struct InlineQuery {
    /// Who typed it.
    pub sender: Arc<Peer>,
    /// What was typed.
    pub text: String,
}

/// The choice of one result of an inline query.
#[derive(Debug, PartialEq)]
pub struct InlineSend {
    /// Who chose it.
    pub sender: Arc<Peer>,
    /// The query that led to it.
    pub text: String,
}

/// What an update of no other kind is about.
#[derive(Clone, Copy, Debug, PartialEq, Eq, Structural)]
pub enum RawKind {
    /// A member joined a chat.
    ChatParticipantAdd,
    /// A member left a chat.
    ChatParticipantDelete,
    /// A user is typing in a private chat.
    UserTyping,
    /// A user is typing in a group.
    ChatUserTyping,
    /// Anything else.
    Other,
}

/// An update of no other kind.
#[derive(Debug, PartialEq)]
pub struct RawUpdate {
    /// What the update is about.
    pub kind: RawKind,
}

/// An incoming update.
#[derive(Debug, PartialEq)]
pub enum Update {
    /// A new message.
    NewMessage(Arc<Message>),
    /// A message was edited.
    MessageEdited(Arc<Message>),
    /// Messages were deleted.
    MessageDeleted(Arc<MessageDeletion>),
    /// A button was pressed.
    CallbackQuery(Arc<CallbackQuery>),
    /// An inline query was typed.
    InlineQuery(Arc<InlineQuery>),
    /// An inline result was chosen.
    InlineSend(Arc<InlineSend>),
    /// Any other update.
    Raw(Arc<RawUpdate>),
}

impl Clone for Update {
    fn clone(&self) -> (r: Update)
        ensures
            r == *self,
    {
        match self {
            Update::NewMessage(m) => Update::NewMessage(share(m)),
            Update::MessageEdited(m) => Update::MessageEdited(share(m)),
            Update::MessageDeleted(d) => Update::MessageDeleted(share(d)),
            Update::CallbackQuery(q) => Update::CallbackQuery(share(q)),
            Update::InlineQuery(q) => Update::InlineQuery(share(q)),
            Update::InlineSend(s) => Update::InlineSend(share(s)),
            Update::Raw(r) => Update::Raw(share(r)),
        }
    }
}

impl Update {
    /// The message of an update that is about one: a new or an edited message.
    pub open spec fn message(&self) -> Option<Arc<Message>> {
        match self {
            Update::NewMessage(m) => Some(*m),
            Update::MessageEdited(m) => Some(*m),
            _ => None,
        }
    }

    /// The message of an update that is about one.
    pub fn as_message(&self) -> (m: Option<&Arc<Message>>)
        ensures
            match m {
                Some(found) => self.message() == Some(*found),
                None => self.message() is None,
            },
    {
        match self {
            Update::NewMessage(m) => Some(m),
            Update::MessageEdited(m) => Some(m),
            _ => None,
        }
    }

    /// Whether the update was caused by the client's own account.
    ///
    /// A message counts by its sender, a pressed button by who pressed it, an
    /// inline query or choice by who made it; no other update has an author.
    pub open spec fn is_from_self(&self) -> bool {
        match self {
            Update::NewMessage(m) => m.sender is Some && m.sender->0.is_own_account(),
            Update::MessageEdited(m) => m.sender is Some && m.sender->0.is_own_account(),
            Update::CallbackQuery(q) => q.sender.is_own_account(),
            Update::InlineQuery(q) => q.sender.is_self,
            Update::InlineSend(s) => s.sender.is_self,
            _ => false,
        }
    }

    /// Whether the update was caused by the client's own account.
    pub fn from_self(&self) -> (b: bool)
        ensures
            b == self.is_from_self(),
    {
        match self {
            Update::NewMessage(m) | Update::MessageEdited(m) => match &m.sender {
                Some(sender) => sender.from_own_account(),
                None => false,
            },
            Update::CallbackQuery(q) => q.sender.from_own_account(),
            Update::InlineQuery(q) => q.sender.is_self,
            Update::InlineSend(s) => s.sender.is_self,
            _ => false,
        }
    }
}

} // verus!
