//! The context of an update: the client that received it and the update,
//! with what an endpoint most often reads of the two.

use vstd::prelude::*;
use crate::filters::{chat, chat_of};
use crate::update::{share, CallbackQuery, Chat, Client, InlineQuery, InlineSend, Message, Update};
use crate::utils::{bytes_to_string, lossy_text};
use std::sync::Arc;

verus! {

/// What an endpoint learns of the update it handles: the client and the
/// update.
#[derive(Debug, PartialEq)]
pub struct Context {
    /// The client that received the update.
    pub client: Client,
    /// The update.
    pub update: Update,
}

impl Clone for Context {
    fn clone(&self) -> (r: Context)
        ensures
            r == *self,
    {
        Context { client: self.client.clone(), update: self.update.clone() }
    }
}

/// Who caused an update: the sender of a message, where it is known, who
/// pressed a button, or who made an inline query or choice.
pub open spec fn author_of(update: Update) -> Option<Chat> {
    match update {
        Update::NewMessage(m) => m.sender,
        Update::MessageEdited(m) => m.sender,
        Update::CallbackQuery(q) => Some(q.sender),
        Update::InlineQuery(q) => Some(Chat::User(q.sender)),
        Update::InlineSend(s) => Some(Chat::User(s.sender)),
        _ => None,
    }
}

/// The query of an update: the data of a pressed button, read as text, or
/// the text of an inline query or choice.
pub open spec fn query_of(update: Update) -> Option<Seq<char>> {
    match update {
        Update::CallbackQuery(q) => Some(lossy_text(q.data@)),
        Update::InlineQuery(q) => Some(q.text@),
        Update::InlineSend(s) => Some(s.text@),
        _ => None,
    }
}

impl Context {
    /// The context of `update`, received by `client`.
    pub fn with(client: &Client, update: &Update) -> (context: Context)
        ensures
            context.client == *client,
            context.update == *update,
    {
        Context { client: client.clone(), update: update.clone() }
    }

    /// The context of another update, received by the same client.
    pub fn clone_with(&self, update: &Update) -> (context: Context)
        ensures
            context.client == self.client,
            context.update == *update,
    {
        Context { client: self.client.clone(), update: update.clone() }
    }

    /// Returns the client.
    pub fn client(&self) -> (client: &Client)
        ensures
            *client == self.client,
    {
        &self.client
    }

    /// Returns the update.
    pub fn update(&self) -> (update: &Update)
        ensures
            *update == self.update,
    {
        &self.update
    }

    /// Returns the chat: that of a message, or of the message under a
    /// pressed button.
    pub fn chat(&self) -> (found: Option<Chat>)
        ensures
            found == chat_of(self.update),
    {
        match chat(&self.update) {
            Some(found) => Some(found.clone()),
            None => None,
        }
    }

    /// Returns the text of the message.
    pub fn text(&self) -> (found: Option<String>)
        ensures
            match self.update.message() {
                Some(message) => found == Some(message.text),
                None => found is None,
            },
    {
        match self.update.as_message() {
            Some(message) => Some(message.text.clone()),
            None => None,
        }
    }

    /// Returns who caused the update.
    pub fn sender(&self) -> (found: Option<Chat>)
        ensures
            found == author_of(self.update),
    {
        match &self.update {
            Update::NewMessage(m) | Update::MessageEdited(m) => match &m.sender {
                Some(sender) => Some(sender.clone()),
                None => None,
            },
            Update::CallbackQuery(q) => Some(q.sender.clone()),
            Update::InlineQuery(q) => Some(Chat::User(share(&q.sender))),
            Update::InlineSend(s) => Some(Chat::User(share(&s.sender))),
            _ => None,
        }
    }

    /// Returns the query.
    pub fn query(&self) -> (found: Option<String>)
        ensures
            match found {
                Some(text) => query_of(self.update) == Some(text@),
                None => query_of(self.update) is None,
            },
    {
        match &self.update {
            Update::CallbackQuery(q) => Some(bytes_to_string(q.data.as_slice())),
            Update::InlineQuery(q) => Some(q.text.clone()),
            Update::InlineSend(s) => Some(s.text.clone()),
            _ => None,
        }
    }

    /// Returns the message of a new or edited message.
    pub fn message(&self) -> (found: Option<Arc<Message>>)
        ensures
            found == self.update.message(),
    {
        match self.update.as_message() {
            Some(message) => Some(share(message)),
            None => None,
        }
    }

    /// Returns the pressed button.
    pub fn callback_query(&self) -> (found: Option<Arc<CallbackQuery>>)
        ensures
            found == (match self.update {
                Update::CallbackQuery(q) => Some(q),
                _ => None,
            }),
    {
        match &self.update {
            Update::CallbackQuery(q) => Some(share(q)),
            _ => None,
        }
    }

    /// Returns the inline query.
    pub fn inline_query(&self) -> (found: Option<Arc<InlineQuery>>)
        ensures
            found == (match self.update {
                Update::InlineQuery(q) => Some(q),
                _ => None,
            }),
    {
        match &self.update {
            Update::InlineQuery(q) => Some(share(q)),
            _ => None,
        }
    }

    /// Returns the chosen inline result.
    pub fn inline_send(&self) -> (found: Option<Arc<InlineSend>>)
        ensures
            found == (match self.update {
                Update::InlineSend(s) => Some(s),
                _ => None,
            }),
    {
        match &self.update {
            Update::InlineSend(s) => Some(share(s)),
            _ => None,
        }
    }

    /// Whether the update takes place in a private chat.
    pub fn is_private(&self) -> (b: bool)
        ensures
            b == (chat_of(self.update) is Some && chat_of(self.update)->0 is User),
    {
        matches!(chat(&self.update), Some(Chat::User(_)))
    }

    /// Whether the update takes place in a group.
    pub fn is_group(&self) -> (b: bool)
        ensures
            b == (chat_of(self.update) is Some && chat_of(self.update)->0 is Group),
    {
        matches!(chat(&self.update), Some(Chat::Group(_)))
    }

    /// Whether the update takes place in a channel.
    pub fn is_channel(&self) -> (b: bool)
        ensures
            b == (chat_of(self.update) is Some && chat_of(self.update)->0 is Channel),
    {
        matches!(chat(&self.update), Some(Chat::Channel(_)))
    }

    /// Whether the update is a new message.
    pub fn is_message(&self) -> (b: bool)
        ensures
            b == (self.update is NewMessage),
    {
        matches!(self.update, Update::NewMessage(_))
    }

    /// Whether the update is an edited message.
    pub fn is_edited(&self) -> (b: bool)
        ensures
            b == (self.update is MessageEdited),
    {
        matches!(self.update, Update::MessageEdited(_))
    }

    /// Whether the update is a pressed button.
    pub fn is_callback_query(&self) -> (b: bool)
        ensures
            b == (self.update is CallbackQuery),
    {
        matches!(self.update, Update::CallbackQuery(_))
    }

    /// Whether the update is an inline query.
    pub fn is_inline_query(&self) -> (b: bool)
        ensures
            b == (self.update is InlineQuery),
    {
        matches!(self.update, Update::InlineQuery(_))
    }

    /// Whether the update is a chosen inline result.
    pub fn is_inline_send(&self) -> (b: bool)
        ensures
            b == (self.update is InlineSend),
    {
        matches!(self.update, Update::InlineSend(_))
    }

    /// Whether the update is of no other kind.
    pub fn is_raw(&self) -> (b: bool)
        ensures
            b == (self.update is Raw),
    {
        matches!(self.update, Update::Raw(_))
    }
}

} // verus!
