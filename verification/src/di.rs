//! Dependency injection: a bag of values, queued by their type, from which
//! endpoints draw their arguments.

use std::collections::HashMap;
use std::collections::VecDeque;
use std::sync::Arc;
use vstd::prelude::*;
use vstd::relations::injective_on;
use vstd::set_lib::*;
use crate::error::{Error, ErrorKind};
use crate::context::Context;
use crate::update::{
    share, CallbackQuery, Chat, Client, Dice, Document, InlineQuery, InlineSend, Message,
    MessageDeletion, Peer, Photo, Poll, RawUpdate, Sticker, Update,
};

verus! {

/// How many types of value an injector tells apart.
pub const KINDS: u64 = 23;

/// The identity of an injectable type.
#[derive(Clone, Copy, Debug, PartialEq, Eq, Structural)]
pub enum Kind {
    /// The type of a truth value.
    Flag,
    /// The type of a number.
    Number,
    /// The type of a text.
    Text,
    /// The type of a list of texts.
    Texts,
    /// The type of a run of bytes.
    Bytes,
    /// The type of the client.
    Client,
    /// The type of the update itself.
    Update,
    /// The type of the context of the update.
    Context,
    /// The type of a message.
    Message,
    /// The type of a record of deleted messages.
    Deletion,
    /// The type of a pressed button.
    CallbackQuery,
    /// The type of an inline query.
    InlineQuery,
    /// The type of a chosen inline result.
    InlineSend,
    /// The type of an update of no other kind.
    Raw,
    /// The type of a photo.
    Photo,
    /// The type of a document.
    Document,
    /// The type of a sticker.
    Sticker,
    /// The type of a dice.
    Dice,
    /// The type of a poll.
    Poll,
    /// The type of a user.
    User,
    /// The type of a group.
    Group,
    /// The type of a channel.
    Channel,
    /// The type of a chat.
    Chat,
}

/// A value that can be injected: one of a closed set of types.
#[derive(Debug, PartialEq)]
pub enum Value {
    /// A truth value.
    Flag(bool),
    /// A number.
    Number(i64),
    /// A text.
    Text(String),
    /// A list of texts.
    Texts(Arc<Vec<String>>),
    /// A run of bytes.
    Bytes(Arc<Vec<u8>>),
    /// The client.
    Client(Client),
    /// The update itself.
    Update(Update),
    /// The context of the update.
    Context(Context),
    /// A message.
    Message(Arc<Message>),
    /// A record of deleted messages.
    Deletion(Arc<MessageDeletion>),
    /// A pressed button.
    CallbackQuery(Arc<CallbackQuery>),
    /// An inline query.
    InlineQuery(Arc<InlineQuery>),
    /// A chosen inline result.
    InlineSend(Arc<InlineSend>),
    /// An update of no other kind.
    Raw(Arc<RawUpdate>),
    /// A photo.
    Photo(Arc<Photo>),
    /// A document.
    Document(Arc<Document>),
    /// A sticker.
    Sticker(Arc<Sticker>),
    /// A dice.
    Dice(Arc<Dice>),
    /// A poll.
    Poll(Arc<Poll>),
    /// A user.
    User(Arc<Peer>),
    /// A group.
    Group(Arc<Peer>),
    /// A channel.
    Channel(Arc<Peer>),
    /// A chat.
    Chat(Chat),
}

impl Kind {
    /// The number under which values of this type are filed.
    pub open spec fn key(self) -> u64 {
        match self {
            Kind::Flag => 0,
            Kind::Number => 1,
            Kind::Text => 2,
            Kind::Texts => 3,
            Kind::Bytes => 4,
            Kind::Client => 5,
            Kind::Update => 6,
            Kind::Context => 7,
            Kind::Message => 8,
            Kind::Deletion => 9,
            Kind::CallbackQuery => 10,
            Kind::InlineQuery => 11,
            Kind::InlineSend => 12,
            Kind::Raw => 13,
            Kind::Photo => 14,
            Kind::Document => 15,
            Kind::Sticker => 16,
            Kind::Dice => 17,
            Kind::Poll => 18,
            Kind::User => 19,
            Kind::Group => 20,
            Kind::Channel => 21,
            Kind::Chat => 22,
        }
    }

    /// The type that is filed under `key`.
    pub open spec fn of_key(key: u64) -> Kind {
        if key == 0 {
            Kind::Flag
        } else if key == 1 {
            Kind::Number
        } else if key == 2 {
            Kind::Text
        } else if key == 3 {
            Kind::Texts
        } else if key == 4 {
            Kind::Bytes
        } else if key == 5 {
            Kind::Client
        } else if key == 6 {
            Kind::Update
        } else if key == 7 {
            Kind::Context
        } else if key == 8 {
            Kind::Message
        } else if key == 9 {
            Kind::Deletion
        } else if key == 10 {
            Kind::CallbackQuery
        } else if key == 11 {
            Kind::InlineQuery
        } else if key == 12 {
            Kind::InlineSend
        } else if key == 13 {
            Kind::Raw
        } else if key == 14 {
            Kind::Photo
        } else if key == 15 {
            Kind::Document
        } else if key == 16 {
            Kind::Sticker
        } else if key == 17 {
            Kind::Dice
        } else if key == 18 {
            Kind::Poll
        } else if key == 19 {
            Kind::User
        } else if key == 20 {
            Kind::Group
        } else if key == 21 {
            Kind::Channel
        } else {
            Kind::Chat
        }
    }

    /// The number under which values of this type are filed.
    pub fn index(self) -> (key: u64)
        ensures
            key == self.key(),
            key < KINDS,
            Kind::of_key(key) == self,
    {
        match self {
            Kind::Flag => 0,
            Kind::Number => 1,
            Kind::Text => 2,
            Kind::Texts => 3,
            Kind::Bytes => 4,
            Kind::Client => 5,
            Kind::Update => 6,
            Kind::Context => 7,
            Kind::Message => 8,
            Kind::Deletion => 9,
            Kind::CallbackQuery => 10,
            Kind::InlineQuery => 11,
            Kind::InlineSend => 12,
            Kind::Raw => 13,
            Kind::Photo => 14,
            Kind::Document => 15,
            Kind::Sticker => 16,
            Kind::Dice => 17,
            Kind::Poll => 18,
            Kind::User => 19,
            Kind::Group => 20,
            Kind::Channel => 21,
            Kind::Chat => 22,
        }
    }

    /// The type's name.
    pub open spec fn name_spec(self) -> Seq<char> {
        match self {
            Kind::Flag => "Flag"@,
            Kind::Number => "Number"@,
            Kind::Text => "Text"@,
            Kind::Texts => "Texts"@,
            Kind::Bytes => "Bytes"@,
            Kind::Client => "Client"@,
            Kind::Update => "Update"@,
            Kind::Context => "Context"@,
            Kind::Message => "Message"@,
            Kind::Deletion => "Deletion"@,
            Kind::CallbackQuery => "CallbackQuery"@,
            Kind::InlineQuery => "InlineQuery"@,
            Kind::InlineSend => "InlineSend"@,
            Kind::Raw => "Raw"@,
            Kind::Photo => "Photo"@,
            Kind::Document => "Document"@,
            Kind::Sticker => "Sticker"@,
            Kind::Dice => "Dice"@,
            Kind::Poll => "Poll"@,
            Kind::User => "User"@,
            Kind::Group => "Group"@,
            Kind::Channel => "Channel"@,
            Kind::Chat => "Chat"@,
        }
    }

    /// The type's name.
    pub fn name(self) -> (s: &'static str)
        ensures
            s@ == self.name_spec(),
    {
        match self {
            Kind::Flag => "Flag",
            Kind::Number => "Number",
            Kind::Text => "Text",
            Kind::Texts => "Texts",
            Kind::Bytes => "Bytes",
            Kind::Client => "Client",
            Kind::Update => "Update",
            Kind::Context => "Context",
            Kind::Message => "Message",
            Kind::Deletion => "Deletion",
            Kind::CallbackQuery => "CallbackQuery",
            Kind::InlineQuery => "InlineQuery",
            Kind::InlineSend => "InlineSend",
            Kind::Raw => "Raw",
            Kind::Photo => "Photo",
            Kind::Document => "Document",
            Kind::Sticker => "Sticker",
            Kind::Dice => "Dice",
            Kind::Poll => "Poll",
            Kind::User => "User",
            Kind::Group => "Group",
            Kind::Channel => "Channel",
            Kind::Chat => "Chat",
        }
    }
}

/// Every number below `KINDS` files one type, and each type is filed under
/// one such number.
pub proof fn lemma_keys_and_kinds()
    ensures
        forall|kind: Kind| #[trigger] kind.key() < KINDS && Kind::of_key(kind.key()) == kind,
        forall|key: u64| key < KINDS ==> (#[trigger] Kind::of_key(key)).key() == key,
{
}

impl Value {
    /// The type of the value.
    pub open spec fn kind(&self) -> Kind {
        match self {
            Value::Flag(_) => Kind::Flag,
            Value::Number(_) => Kind::Number,
            Value::Text(_) => Kind::Text,
            Value::Texts(_) => Kind::Texts,
            Value::Bytes(_) => Kind::Bytes,
            Value::Client(_) => Kind::Client,
            Value::Update(_) => Kind::Update,
            Value::Context(_) => Kind::Context,
            Value::Message(_) => Kind::Message,
            Value::Deletion(_) => Kind::Deletion,
            Value::CallbackQuery(_) => Kind::CallbackQuery,
            Value::InlineQuery(_) => Kind::InlineQuery,
            Value::InlineSend(_) => Kind::InlineSend,
            Value::Raw(_) => Kind::Raw,
            Value::Photo(_) => Kind::Photo,
            Value::Document(_) => Kind::Document,
            Value::Sticker(_) => Kind::Sticker,
            Value::Dice(_) => Kind::Dice,
            Value::Poll(_) => Kind::Poll,
            Value::User(_) => Kind::User,
            Value::Group(_) => Kind::Group,
            Value::Channel(_) => Kind::Channel,
            Value::Chat(_) => Kind::Chat,
        }
    }

    /// The type of the value.
    pub fn type_of(&self) -> (kind: Kind)
        ensures
            kind == self.kind(),
    {
        match self {
            Value::Flag(_) => Kind::Flag,
            Value::Number(_) => Kind::Number,
            Value::Text(_) => Kind::Text,
            Value::Texts(_) => Kind::Texts,
            Value::Bytes(_) => Kind::Bytes,
            Value::Client(_) => Kind::Client,
            Value::Update(_) => Kind::Update,
            Value::Context(_) => Kind::Context,
            Value::Message(_) => Kind::Message,
            Value::Deletion(_) => Kind::Deletion,
            Value::CallbackQuery(_) => Kind::CallbackQuery,
            Value::InlineQuery(_) => Kind::InlineQuery,
            Value::InlineSend(_) => Kind::InlineSend,
            Value::Raw(_) => Kind::Raw,
            Value::Photo(_) => Kind::Photo,
            Value::Document(_) => Kind::Document,
            Value::Sticker(_) => Kind::Sticker,
            Value::Dice(_) => Kind::Dice,
            Value::Poll(_) => Kind::Poll,
            Value::User(_) => Kind::User,
            Value::Group(_) => Kind::Group,
            Value::Channel(_) => Kind::Channel,
            Value::Chat(_) => Kind::Chat,
        }
    }
}

impl Clone for Value {
    fn clone(&self) -> (r: Value)
        ensures
            r == *self,
    {
        match self {
            Value::Flag(v) => Value::Flag(*v),
            Value::Number(v) => Value::Number(*v),
            Value::Text(v) => Value::Text(v.clone()),
            Value::Texts(v) => Value::Texts(share(v)),
            Value::Bytes(v) => Value::Bytes(share(v)),
            Value::Client(v) => Value::Client(v.clone()),
            Value::Update(v) => Value::Update(v.clone()),
            Value::Context(v) => Value::Context(v.clone()),
            Value::Message(v) => Value::Message(share(v)),
            Value::Deletion(v) => Value::Deletion(share(v)),
            Value::CallbackQuery(v) => Value::CallbackQuery(share(v)),
            Value::InlineQuery(v) => Value::InlineQuery(share(v)),
            Value::InlineSend(v) => Value::InlineSend(share(v)),
            Value::Raw(v) => Value::Raw(share(v)),
            Value::Photo(v) => Value::Photo(share(v)),
            Value::Document(v) => Value::Document(share(v)),
            Value::Sticker(v) => Value::Sticker(share(v)),
            Value::Dice(v) => Value::Dice(share(v)),
            Value::Poll(v) => Value::Poll(share(v)),
            Value::User(v) => Value::User(share(v)),
            Value::Group(v) => Value::Group(share(v)),
            Value::Channel(v) => Value::Channel(share(v)),
            Value::Chat(v) => Value::Chat(v.clone()),
        }
    }
}

/// A resource: a value as the injector files it.
#[derive(Debug, PartialEq)]
pub struct Resource {
    /// The value.
    pub value: Value,
}

impl Resource {
    /// Create a new injectable resource.
    pub fn new(value: Value) -> (r: Resource)
        ensures
            r.value == value,
    {
        Resource { value }
    }

    /// The value, if it is of type `kind`.
    pub fn to(self, kind: Kind) -> (r: Option<Value>)
        ensures
            r == (if self.value.kind() == kind {
                Some(self.value)
            } else {
                None
            }),
    {
        if self.value.type_of() == kind {
            Some(self.value)
        } else {
            None
        }
    }

    /// A reference to the value, if it is of type `kind`.
    pub fn to_ref(&self, kind: Kind) -> (r: Option<&Value>)
        ensures
            match r {
                Some(v) => self.value.kind() == kind && *v == self.value,
                None => self.value.kind() != kind,
            },
    {
        if self.value.type_of() == kind {
            Some(&self.value)
        } else {
            None
        }
    }
}

impl Clone for Resource {
    fn clone(&self) -> (r: Resource)
        ensures
            r == *self,
    {
        Resource { value: self.value.clone() }
    }
}

/// What an injector holds: for each type that was ever inserted, the queue of
/// its values, oldest first.
pub type Contents = Map<Kind, Seq<Value>>;

/// The queue of type `kind` in `contents`: empty where the type was never
/// inserted.
pub open spec fn queue(contents: Contents, kind: Kind) -> Seq<Value> {
    if contents.contains_key(kind) {
        contents[kind]
    } else {
        Seq::empty()
    }
}

/// `contents` after `value` joined the end of the queue of its type.
pub open spec fn inserted(contents: Contents, value: Value) -> Contents {
    contents.insert(value.kind(), queue(contents, value.kind()).push(value))
}

/// `contents` after the oldest value of type `kind` left.
pub open spec fn taken(contents: Contents, kind: Kind) -> Contents {
    if queue(contents, kind).len() > 0 {
        contents.insert(kind, contents[kind].skip(1))
    } else {
        contents
    }
}

/// `contents` after `value` was put before all others of its type.
pub open spec fn fronted(contents: Contents, value: Value) -> Contents {
    contents.insert(value.kind(), seq![value] + queue(contents, value.kind()))
}

/// `first` after the queues of `second` were appended to its own, type by
/// type.
pub open spec fn merged(first: Contents, second: Contents) -> Contents {
    Map::new(
        |kind: Kind| first.contains_key(kind) || second.contains_key(kind),
        |kind: Kind| queue(first, kind) + queue(second, kind),
    )
}

/// The values of a queue of resources.
pub open spec fn values(resources: Seq<Resource>) -> Seq<Value> {
    Seq::new(resources.len(), |i: int| resources[i].value)
}

/// First in, first out, type by type: of two values of one type inserted
/// where none of that type is held, the first insert is the first that a take
/// hands out, the second insert the second, and after the two no value of
/// that type is left.
pub proof fn lemma_first_in_first_out(contents: Contents, first: Value, second: Value)
    requires
        first.kind() == second.kind(),
        queue(contents, first.kind()).len() == 0,
    ensures
        ({
            let kind = first.kind();
            let both = inserted(inserted(contents, first), second);
            &&& queue(both, kind) == seq![first, second]
            &&& queue(taken(both, kind), kind) == seq![second]
            &&& queue(taken(taken(both, kind), kind), kind).len() == 0
        }),
{
    let kind = first.kind();
    let both = inserted(inserted(contents, first), second);
    assert(queue(both, kind) =~= seq![first, second]);
    assert(queue(taken(both, kind), kind) =~= seq![second]);
}

/// An insert touches the queue of its own type alone, and a value that is
/// inserted stands behind all that were there.
pub proof fn lemma_insert_is_behind(contents: Contents, value: Value, kind: Kind)
    ensures
        queue(inserted(contents, value), kind) == (if kind == value.kind() {
            queue(contents, kind).push(value)
        } else {
            queue(contents, kind)
        }),
{
}

/// Extending keeps the order within each type: the values that were there
/// come first, those that arrive stand behind them.
pub proof fn lemma_extend_keeps_order(first: Contents, second: Contents, kind: Kind)
    ensures
        queue(merged(first, second), kind) == queue(first, kind) + queue(second, kind),
{
    assert(queue(merged(first, second), kind) =~= queue(first, kind) + queue(second, kind));
}

/// Dependency injector.
///
/// Used to inject dependencies into handlers.
#[derive(Debug)]
pub struct Injector {
    resources: HashMap<u64, VecDeque<Resource>>,
}

/// Whether each queue of `resources` is filed under the number of a type
/// and holds values of that type only.
pub open spec fn filed(resources: Map<u64, VecDeque<Resource>>) -> bool {
    forall|key: u64| #[trigger]
        resources.contains_key(key) ==> key < KINDS && forall|i: int|
            0 <= i < resources[key]@.len() ==> (#[trigger] resources[key]@[i]).value.kind().key() == key
}

/// What `resources` holds, by type.
pub open spec fn contents_of(resources: Map<u64, VecDeque<Resource>>) -> Contents {
    Map::new(
        |kind: Kind| resources.contains_key(kind.key()),
        |kind: Kind| values(resources[kind.key()]@),
    )
}

proof fn lemma_count(resources: Map<u64, VecDeque<Resource>>)
    requires
        filed(resources),
        resources.dom().finite(),
    ensures
        contents_of(resources).dom().finite(),
        contents_of(resources).dom().len() == resources.dom().len(),
{
    let f = |key: u64| Kind::of_key(key);
    lemma_keys_and_kinds();
    assert(injective_on(f, resources.dom())) by {
        assert forall|a: u64, b: u64|
            resources.dom().contains(a) && resources.dom().contains(b) && #[trigger] f(a) == #[trigger] f(
                b,
            ) implies a == b by {
            assert(resources.contains_key(a) && resources.contains_key(b));
            assert(Kind::of_key(a).key() == a);
            assert(Kind::of_key(b).key() == b);
        }
    }
    assert(resources.dom().map(f) =~= contents_of(resources).dom()) by {
        assert forall|kind: Kind| resources.dom().map(f).contains(kind) == contents_of(
            resources,
        ).dom().contains(kind) by {
            if contents_of(resources).dom().contains(kind) {
                assert(resources.dom().contains(kind.key()));
                assert(f(kind.key()) == kind);
            }
            if resources.dom().map(f).contains(kind) {
                let key = choose|key: u64| resources.dom().contains(key) && kind == f(key);
                assert(resources.contains_key(key));
                assert(Kind::of_key(key).key() == key);
            }
        }
    }
    lemma_map_size(resources.dom(), contents_of(resources).dom(), f);
}

impl Injector {
    #[verifier::type_invariant]
    spec fn well_filed(self) -> bool {
        filed(self.resources@)
    }

    /// What the injector holds.
    pub closed spec fn view(&self) -> Contents {
        contents_of(self.resources@)
    }

    /// An injector that holds nothing.
    pub fn new() -> (injector: Injector)
        ensures
            injector@ == Map::<Kind, Seq<Value>>::empty(),
    {
        let injector = Injector { resources: HashMap::new() };
        assert(injector@ =~= Map::<Kind, Seq<Value>>::empty());
        injector
    }

    /// Count of the types that were inserted.
    pub fn len(&self) -> (count: usize)
        ensures
            self@.dom().finite(),
            count == self@.dom().len(),
    {
        proof {
            use_type_invariant(self);
            lemma_count(self.resources@);
        }
        self.resources.len()
    }

    /// Checks if the injector is empty: no type was ever inserted.
    pub fn is_empty(&self) -> (empty: bool)
        ensures
            empty == (self@ == Map::<Kind, Seq<Value>>::empty()),
    {
        proof {
            use_type_invariant(self);
            lemma_count(self.resources@);
            if self@.dom().len() == 0 {
                assert(self@ =~= Map::<Kind, Seq<Value>>::empty());
            }
        }
        self.resources.is_empty()
    }

    /// Inserts a new resource, behind the others of its type.
    pub fn insert(&mut self, value: Value)
        ensures
            final(self)@ == inserted(old(self)@, value),
    {
        proof {
            use_type_invariant(&*self);
        }
        let key = value.type_of().index();
        let mut resources: HashMap<u64, VecDeque<Resource>> = HashMap::new();
        core::mem::swap(&mut self.resources, &mut resources);
        let mut waiting = match resources.remove(&key) {
            Some(waiting) => waiting,
            None => VecDeque::new(),
        };
        let ghost before = waiting@;
        waiting.push_back(Resource::new(value));
        resources.insert(key, waiting);
        self.resources = resources;
        proof {
            lemma_keys_and_kinds();
            let kind = value.kind();
            let after = inserted(old(self)@, value);
            assert(values(before.push(Resource { value })) =~= values(before).push(value));
            assert(values(Seq::<Resource>::empty()) =~= Seq::<Value>::empty());
            assert(values(before) == queue(old(self)@, kind));
            assert forall|k: Kind| self@.contains_key(k) == after.contains_key(k) by {
                assert(Kind::of_key(k.key()) == k);
            }
            assert forall|k: Kind| self@.contains_key(k) implies self@[k] == after[k] by {
                assert(Kind::of_key(k.key()) == k);
            }
            assert(self@ =~= after);
        }
    }

    /// Inserts a new resource and hands the injector back.
    pub fn with(self, value: Value) -> (injector: Injector)
        ensures
            injector@ == inserted(self@, value),
    {
        let mut injector = self;
        injector.insert(value);
        injector
    }

    /// Removes the oldest resource of type `kind`, if there is one.
    pub fn take(&mut self, kind: Kind) -> (r: Option<Value>)
        ensures
            r == (if queue(old(self)@, kind).len() > 0 {
                Some(old(self)@[kind][0])
            } else {
                None
            }),
            r is Some ==> r->0.kind() == kind,
            final(self)@ == taken(old(self)@, kind),
    {
        proof {
            use_type_invariant(&*self);
        }
        let key = kind.index();
        let mut resources: HashMap<u64, VecDeque<Resource>> = HashMap::new();
        core::mem::swap(&mut self.resources, &mut resources);
        let r = match resources.remove(&key) {
            Some(mut waiting) => {
                let ghost before = waiting@;
                let first = waiting.pop_front();
                resources.insert(key, waiting);
                match first {
                    Some(resource) => {
                        proof {
                            assert(values(before.skip(1)) =~= values(before).skip(1));
                            assert(before[0].value.kind().key() == key);
                            lemma_keys_and_kinds();
                        }
                        Some(resource.value)
                    },
                    None => None,
                }
            },
            None => None,
        };
        self.resources = resources;
        proof {
            assert(self@ =~= taken(old(self)@, kind));
        }
        r
    }

    /// Gets a reference to the oldest resource of type `kind`, if there is one.
    pub fn get(&self, kind: Kind) -> (r: Option<&Value>)
        ensures
            match r {
                Some(v) => queue(self@, kind).len() > 0 && *v == self@[kind][0],
                None => queue(self@, kind).len() == 0,
            },
    {
        let key = kind.index();
        match self.resources.get(&key) {
            Some(waiting) => {
                if waiting.len() > 0 {
                    Some(&waiting[0].value)
                } else {
                    None
                }
            },
            None => None,
        }
    }
}

/// The error of an endpoint that asked for a value of type `kind` in vain.
pub open spec fn is_missing(error: Error, kind: Kind) -> bool {
    error.kind == ErrorKind::MissingDependency && error.message@
        == "Missing dependency: "@ + kind.name_spec()
}

/// A copy of a queue of resources.
fn copy_queue(waiting: &VecDeque<Resource>) -> (r: VecDeque<Resource>)
    ensures
        r@ == waiting@,
{
    let mut out: VecDeque<Resource> = VecDeque::new();
    let mut i: usize = 0;
    while i < waiting.len()
        invariant
            i <= waiting.len(),
            out@ == waiting@.take(i as int),
        decreases waiting.len() - i,
    {
        out.push_back(waiting[i].clone());
        assert(out@ =~= waiting@.take(i + 1));
        i = i + 1;
    }
    assert(waiting@.take(i as int) =~= waiting@);
    out
}

impl Injector {
    /// Extends the resources with the resources of another injector, which
    /// is left empty. Within each type the order stays: the queue of `other`
    /// goes behind the injector's own.
    pub fn extend(&mut self, other: &mut Injector)
        ensures
            final(self)@ == merged(old(self)@, old(other)@),
            final(other)@ == Map::<Kind, Seq<Value>>::empty(),
    {
        proof {
            use_type_invariant(&*self);
            use_type_invariant(&*other);
        }
        let mut mine: HashMap<u64, VecDeque<Resource>> = HashMap::new();
        core::mem::swap(&mut self.resources, &mut mine);
        let mut theirs: HashMap<u64, VecDeque<Resource>> = HashMap::new();
        core::mem::swap(&mut other.resources, &mut theirs);
        let ghost mine0 = mine@;
        let ghost theirs0 = theirs@;
        let mut key: u64 = 0;
        while key < KINDS
            invariant
                key <= KINDS,
                filed(mine0),
                filed(theirs0),
                filed(mine@),
                forall|k: u64| k >= key ==> theirs@.contains_key(k) == theirs0.contains_key(k),
                forall|k: u64| k >= key && theirs0.contains_key(k) ==> #[trigger] theirs@[k]@ == theirs0[k]@,
                forall|k: u64| k < key ==> !theirs@.contains_key(k),
                forall|k: u64| k >= key ==> mine@.contains_key(k) == mine0.contains_key(k),
                forall|k: u64| k >= key && mine0.contains_key(k) ==> #[trigger] mine@[k]@ == mine0[k]@,
                forall|k: u64|
                    k < key ==> mine@.contains_key(k) == (mine0.contains_key(k) || theirs0.contains_key(k)),
                forall|k: u64|
                    k < key && mine@.contains_key(k) ==> #[trigger] mine@[k]@ == (if mine0.contains_key(k) {
                        mine0[k]@
                    } else {
                        Seq::empty()
                    }) + (if theirs0.contains_key(k) {
                        theirs0[k]@
                    } else {
                        Seq::empty()
                    }),
            decreases KINDS - key,
        {
            match theirs.remove(&key) {
                Some(mut arriving) => {
                    let mut waiting = match mine.remove(&key) {
                        Some(waiting) => waiting,
                        None => VecDeque::new(),
                    };
                    waiting.append(&mut arriving);
                    mine.insert(key, waiting);
                },
                None => {},
            }
            proof {
                if mine0.contains_key(key) && !theirs0.contains_key(key) {
                    assert(mine@[key]@ =~= mine0[key]@ + Seq::<Resource>::empty());
                }
            }
            key = key + 1;
        }
        self.resources = mine;
        other.resources = theirs;
        proof {
            lemma_keys_and_kinds();
            assert(other@ =~= Map::<Kind, Seq<Value>>::empty());
            let goal = merged(old(self)@, old(other)@);
            assert forall|k: Kind| self@.contains_key(k) == goal.contains_key(k) by {
                assert(k.key() < KINDS);
            }
            assert forall|k: Kind| self@.contains_key(k) implies self@[k] == goal[k] by {
                let n = k.key();
                assert(n < KINDS);
                let a = if mine0.contains_key(n) {
                    mine0[n]@
                } else {
                    Seq::empty()
                };
                let b = if theirs0.contains_key(n) {
                    theirs0[n]@
                } else {
                    Seq::empty()
                };
                assert(values(a + b) =~= values(a) + values(b));
                assert(values(Seq::<Resource>::empty()) =~= Seq::<Value>::empty());
            }
            assert(self@ =~= goal);
        }
    }

    /// Updates the oldest resource of type `kind`: takes it, applies `f` to
    /// it and puts what `f` made of it before all others of its type.
    pub fn update<F: FnOnce(Value) -> Value>(&mut self, kind: Kind, f: F) -> (r: Result<(), Error>)
        requires
            queue(old(self)@, kind).len() > 0 ==> call_requires(f, (old(self)@[kind][0],)),
        ensures
            match r {
                Ok(_) => queue(old(self)@, kind).len() > 0 && exists|made: Value|
                    #![trigger call_ensures(f, (old(self)@[kind][0],), made)]
                    call_ensures(f, (old(self)@[kind][0],), made) && final(self)@ == fronted(
                        taken(old(self)@, kind),
                        made,
                    ),
                Err(e) => queue(old(self)@, kind).len() == 0 && is_missing(e, kind) && final(self)@
                    == old(self)@,
            },
    {
        match self.take(kind) {
            Some(value) => {
                let made = f(value);
                self.put_first(made);
                Ok(())
            },
            None => Err(Error::missing_dependency(kind.name())),
        }
    }

    /// Puts `value` before all others of its type.
    fn put_first(&mut self, value: Value)
        ensures
            final(self)@ == fronted(old(self)@, value),
    {
        proof {
            use_type_invariant(&*self);
        }
        let key = value.type_of().index();
        let mut resources: HashMap<u64, VecDeque<Resource>> = HashMap::new();
        core::mem::swap(&mut self.resources, &mut resources);
        let mut waiting = match resources.remove(&key) {
            Some(waiting) => waiting,
            None => VecDeque::new(),
        };
        let ghost before = waiting@;
        waiting.push_front(Resource::new(value));
        resources.insert(key, waiting);
        self.resources = resources;
        proof {
            lemma_keys_and_kinds();
            let kind = value.kind();
            let after = fronted(old(self)@, value);
            assert(values(seq![Resource { value }] + before) =~= seq![value] + values(before));
            assert(values(Seq::<Resource>::empty()) =~= Seq::<Value>::empty());
            assert(values(before) == queue(old(self)@, kind));
            assert forall|k: Kind| self@.contains_key(k) == after.contains_key(k) by {
                assert(Kind::of_key(k.key()) == k);
            }
            assert forall|k: Kind| self@.contains_key(k) implies self@[k] == after[k] by {
                assert(Kind::of_key(k.key()) == k);
            }
            assert(self@ =~= after);
        }
    }
}

impl Clone for Injector {
    fn clone(&self) -> (r: Injector)
        ensures
            r@ == self@,
    {
        proof {
            use_type_invariant(self);
        }
        let mut resources: HashMap<u64, VecDeque<Resource>> = HashMap::new();
        let mut key: u64 = 0;
        while key < KINDS
            invariant
                key <= KINDS,
                filed(self.resources@),
                forall|k: u64| resources@.contains_key(k) == (k < key && self.resources@.contains_key(k)),
                forall|k: u64| resources@.contains_key(k) ==> #[trigger] resources@[k]@ == self.resources@[k]@,
            decreases KINDS - key,
        {
            match self.resources.get(&key) {
                Some(waiting) => {
                    let copy = copy_queue(waiting);
                    resources.insert(key, copy);
                },
                None => {},
            }
            key = key + 1;
        }
        let r = Injector { resources };
        proof {
            assert(r@ =~= self@);
        }
        r
    }
}

impl Default for Injector {
    fn default() -> (injector: Injector)
        ensures
            injector@ == Map::<Kind, Seq<Value>>::empty(),
    {
        Injector::new()
    }
}

/// What an endpoint may do: from the injector's contents before it ran, the
/// results it can return and the contents it can leave.
pub type Outcomes = spec_fn(Contents, Result<(), Error>, Contents) -> bool;

/// Handler trait, used to handle the request.
pub trait Handler {
    /// What the endpoint can do. An endpoint that says nothing of its
    /// outcomes allows every outcome.
    open spec fn outcomes(&self) -> spec_fn(Contents, Result<(), Error>, Contents) -> bool {
        |before: Contents, result: Result<(), Error>, after: Contents| true
    }

    /// Handles the request. What it does is something that `outcomes`
    /// allows, and it leaves the endpoint with the outcomes it had.
    fn handle(&mut self, injector: &mut Injector) -> (result: Result<(), Error>)
        ensures
            old(self).outcomes()(old(injector)@, result, final(injector)@),
            final(self).outcomes() == old(self).outcomes(),
    ;
}

/// Endpoint type.
///
/// A boxed [`Handler`].
pub struct Endpoint {
    /// The handler.
    pub handler: Box<dyn Handler>,
}

/// What drawing the arguments of a function from an injector comes to.
pub struct Draw {
    /// The arguments drawn, in the order of the parameters.
    pub args: Seq<Value>,
    /// The first parameter type of which no value was left, if there is one.
    pub missing: Option<Kind>,
    /// What the injector holds afterwards.
    pub rest: Contents,
}

/// Draws one value for each of `params` from `contents`, in order, each the
/// oldest of its type; stops at the first type of which none is left.
pub open spec fn draw(params: Seq<Kind>, contents: Contents) -> Draw
    decreases params.len(),
{
    if params.len() == 0 {
        Draw { args: Seq::empty(), missing: None, rest: contents }
    } else if queue(contents, params[0]).len() == 0 {
        Draw { args: Seq::empty(), missing: Some(params[0]), rest: contents }
    } else {
        let later = draw(params.skip(1), taken(contents, params[0]));
        Draw {
            args: seq![contents[params[0]][0]] + later.args,
            missing: later.missing,
            rest: later.rest,
        }
    }
}

/// A function that asks for a type of which the injector holds no value is
/// not called: the draw of its arguments ends on a missing type.
pub proof fn lemma_draw_misses(params: Seq<Kind>, contents: Contents, i: int)
    requires
        0 <= i < params.len(),
        queue(contents, params[i]).len() == 0,
    ensures
        draw(params, contents).missing is Some,
    decreases params.len(),
{
    if queue(contents, params[0]).len() > 0 {
        assert(i >= 1);
        assert(params.skip(1)[i - 1] == params[i]);
        lemma_draw_misses(params.skip(1), taken(contents, params[0]), i - 1);
    }
}

/// Where the injector holds a value of every type that a function asks for,
/// each type asked for once, the function is called: the draw of its
/// arguments misses nothing.
pub proof fn lemma_draw_finds(params: Seq<Kind>, contents: Contents)
    requires
        forall|i: int| 0 <= i < params.len() ==> queue(contents, #[trigger] params[i]).len() > 0,
        forall|i: int, j: int| 0 <= i < j < params.len() ==> params[i] != params[j],
    ensures
        draw(params, contents).missing is None,
        draw(params, contents).args.len() == params.len(),
    decreases params.len(),
{
    if params.len() > 0 {
        let rest = params.skip(1);
        let after = taken(contents, params[0]);
        assert forall|i: int| 0 <= i < rest.len() implies queue(after, #[trigger] rest[i]).len() > 0 by {
            assert(rest[i] == params[i + 1]);
            assert(params[0] != params[i + 1]);
        }
        lemma_draw_finds(rest, after);
    }
}

/// Handler function holder: a function, and the types of its parameters.
pub struct HandlerFunc<F: Fn(Vec<Value>) -> Result<(), Error>> {
    /// The types of the parameters, in order.
    params: Vec<Kind>,
    /// The function.
    f: F,
}

impl<F: Fn(Vec<Value>) -> Result<(), Error>> HandlerFunc<F> {
    #[verifier::type_invariant]
    spec fn total(self) -> bool {
        forall|args: Vec<Value>| call_requires(self.f, (args,))
    }

    /// The types of the parameters, in order.
    pub closed spec fn params(&self) -> Seq<Kind> {
        self.params@
    }

    /// The function.
    pub closed spec fn function(&self) -> F {
        self.f
    }

    /// Holds `f`, which takes one value of each of `params`, in order.
    pub fn new(params: Vec<Kind>, f: F) -> (holder: HandlerFunc<F>)
        requires
            forall|args: Vec<Value>| call_requires(f, (args,)),
        ensures
            holder.params() == params@,
            holder.function() == f,
    {
        HandlerFunc { params, f }
    }
}

proof fn lemma_draw_step(params: Seq<Kind>, i: int, contents: Contents)
    requires
        0 <= i < params.len(),
    ensures
        queue(contents, params[i]).len() == 0 ==> draw(params.skip(i), contents) == (Draw {
            args: Seq::empty(),
            missing: Some(params[i]),
            rest: contents,
        }),
        queue(contents, params[i]).len() > 0 ==> draw(params.skip(i), contents) == ({
            let later = draw(params.skip(i + 1), taken(contents, params[i]));
            Draw {
                args: seq![contents[params[i]][0]] + later.args,
                missing: later.missing,
                rest: later.rest,
            }
        }),
{
    assert(params.skip(i).skip(1) =~= params.skip(i + 1));
    assert(params.skip(i)[0] == params[i]);
}

impl<F: Fn(Vec<Value>) -> Result<(), Error>> Handler for HandlerFunc<F> {
    /// Draws the arguments; where a type is missing, fails with the error
    /// that names it and leaves what was drawn before it out of the
    /// injector; else returns what the function returns for the arguments.
    open spec fn outcomes(&self) -> Outcomes {
        |before: Contents, result: Result<(), Error>, after: Contents|
            {
                let drawn = draw(self.params(), before);
                after == drawn.rest && match drawn.missing {
                    Some(kind) => result is Err && is_missing(result->Err_0, kind),
                    None => exists|args: Vec<Value>|
                        args@ == drawn.args && #[trigger] call_ensures(self.function(), (args,), result),
                }
            }
    }

    fn handle(&mut self, injector: &mut Injector) -> (result: Result<(), Error>) {
        proof {
            use_type_invariant(&*self);
        }
        let ghost start = injector@;
        let ghost params = self.params@;
        let mut args: Vec<Value> = Vec::new();
        let mut i: usize = 0;
        proof {
            assert(params.skip(0) =~= params);
            assert(args@ + draw(params, start).args =~= draw(params, start).args);
        }
        while i < self.params.len()
            invariant
                i <= self.params.len(),
                *self == *old(self),
                start == old(injector)@,
                params == self.params@,
                draw(params, start).args == args@ + draw(params.skip(i as int), injector@).args,
                draw(params, start).missing == draw(params.skip(i as int), injector@).missing,
                draw(params, start).rest == draw(params.skip(i as int), injector@).rest,
            decreases self.params.len() - i,
        {
            let kind = self.params[i];
            proof {
                lemma_draw_step(params, i as int, injector@);
            }
            let ghost before = injector@;
            match injector.take(kind) {
                Some(value) => {
                    proof {
                        let later = draw(params.skip(i + 1), injector@);
                        assert(args@.push(value) + later.args =~= args@ + (seq![value] + later.args));
                    }
                    args.push(value);
                },
                None => {
                    return Err(Error::missing_dependency(kind.name()));
                },
            }
            i = i + 1;
        }
        proof {
            assert(params.skip(i as int) =~= Seq::<Kind>::empty());
            assert(args@ + Seq::<Value>::empty() =~= args@);
        }
        let result = (self.f)(args);
        proof {
            assert(call_ensures(self.function(), (args,), result));
        }
        result
    }
}

} // verus!
