//! The cache of the chats that were seen, by their identifier.

use std::collections::HashMap;
use vstd::prelude::*;
use crate::update::Chat;

verus! {

/// The chats that were seen: for each identifier, the chat that was seen
/// under it first.
pub struct Cache {
    chats: HashMap<i64, Chat>,
}

/// `chats` after `chat` was seen: a chat whose identifier is known already
/// changes nothing.
pub open spec fn saved(chats: Map<i64, Chat>, chat: Chat) -> Map<i64, Chat> {
    if chats.contains_key(chat.peer().id) {
        chats
    } else {
        chats.insert(chat.peer().id, chat)
    }
}

/// `chats` after each of `seen`, from the `i`-th on, was seen in turn.
pub open spec fn saved_all(chats: Map<i64, Chat>, seen: Seq<Chat>, i: int) -> Map<i64, Chat>
    decreases seen.len() - i,
{
    if i < 0 || i >= seen.len() {
        chats
    } else {
        saved_all(saved(chats, seen[i]), seen, i + 1)
    }
}

impl Cache {
    #[verifier::type_invariant]
    spec fn by_id(self) -> bool {
        forall|id: i64| #[trigger] self.chats@.contains_key(id) ==> self.chats@[id].peer().id == id
    }

    /// The chats that were seen, by their identifier.
    pub closed spec fn view(&self) -> Map<i64, Chat> {
        self.chats@
    }

    /// A cache that holds no chat.
    pub fn new() -> (cache: Cache)
        ensures
            cache@ == Map::<i64, Chat>::empty(),
    {
        Cache { chats: HashMap::new() }
    }

    /// How many chats the cache holds.
    pub fn len(&self) -> (count: usize)
        ensures
            count == self@.len(),
    {
        self.chats.len()
    }

    /// Whether a chat with the identifier `chat_id` was seen.
    pub fn chat_exists(&self, chat_id: i64) -> (b: bool)
        ensures
            b == self@.contains_key(chat_id),
    {
        self.chats.contains_key(&chat_id)
    }

    /// The chat that was seen under `chat_id`.
    pub fn get_chat(&self, chat_id: i64) -> (found: Option<Chat>)
        ensures
            found == (if self@.contains_key(chat_id) {
                Some(self@[chat_id])
            } else {
                None
            }),
            found is Some ==> found->0.peer().id == chat_id,
    {
        proof {
            use_type_invariant(self);
        }
        match self.chats.get(&chat_id) {
            Some(chat) => Some(chat.clone()),
            None => None,
        }
    }

    /// Saves a chat, unless one with its identifier was saved before.
    pub fn save_chat(&mut self, chat: Chat)
        ensures
            final(self)@ == saved(old(self)@, chat),
    {
        proof {
            use_type_invariant(&*self);
        }
        let id = chat.as_peer().id;
        if !self.chats.contains_key(&id) {
            let mut chats: HashMap<i64, Chat> = HashMap::new();
            core::mem::swap(&mut self.chats, &mut chats);
            chats.insert(id, chat);
            self.chats = chats;
        }
    }
}

impl Default for Cache {
    fn default() -> (cache: Cache)
        ensures
            cache@ == Map::<i64, Chat>::empty(),
    {
        Cache::new()
    }
}

} // verus!
