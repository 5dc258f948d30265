//! Conversations: a script of messages to send and answers to wait for,
//! taken one step at a time.
//!
//! A conversation does no sending and no waiting itself. It says what is to
//! be done next; whoever runs it does that and comes back with the answer.

use std::sync::Arc;
use vstd::prelude::*;
use vstd::string::*;
use crate::update::{share, CallbackQuery, InlineQuery, Message};

verus! {

/// What was answered in a conversation.
#[derive(Debug, PartialEq)]
pub enum Response {
    /// A message.
    Message(Arc<Message>),
    /// A pressed button.
    Callback(Arc<CallbackQuery>),
    /// An inline query.
    Inline(Arc<InlineQuery>),
}

impl Clone for Response {
    fn clone(&self) -> (r: Response)
        ensures
            r == *self,
    {
        match self {
            Response::Message(m) => Response::Message(share(m)),
            Response::Callback(q) => Response::Callback(share(q)),
            Response::Inline(q) => Response::Inline(share(q)),
        }
    }
}

/// What a step of a conversation does with the answer that came last.
pub trait Callback {
    /// Takes note of the answer that came last.
    fn call(&mut self, last: &Option<Response>);
}

/// A callback of any type, boxed.
pub struct BoxedCallback {
    /// The callback.
    pub callback: Box<dyn Callback>,
}

/// One step of a conversation.
pub enum Action {
    /// Hand the answer that came last to a callback.
    AndThen(BoxedCallback),
    /// Send a message.
    SendMessage(String),
    /// Send a question and wait for the reply to it.
    WaitReply(String),
    /// Wait for a message.
    WaitMessage,
    /// Wait for the press of a button.
    WaitCallback,
    /// Wait for an inline query.
    WaitInline,
}

/// What whoever runs a conversation is to do next.
#[derive(Debug, PartialEq)]
pub enum Request {
    /// Send this message, then come back without an answer.
    Send(String),
    /// Send this question, wait for the reply to it for so many seconds, then
    /// come back with the reply.
    Ask(String, u64),
    /// Wait for a message for so many seconds, then come back with it.
    Message(u64),
    /// Wait for the press of a button for so many seconds, then come back
    /// with it.
    Callback(u64),
    /// Wait for an inline query for so many seconds, then come back with it.
    Inline(u64),
    /// Nothing: the conversation is over.
    Done,
}

/// Whether a step hands its work to whoever runs the conversation.
pub open spec fn asks(action: Action) -> bool {
    !(action is AndThen)
}

/// The request that a step makes, with `timeout` seconds to wait.
pub open spec fn request_of(action: Action, timeout: u64) -> Request {
    match action {
        Action::AndThen(_) => Request::Done,
        Action::SendMessage(text) => Request::Send(text),
        Action::WaitReply(text) => Request::Ask(text, timeout),
        Action::WaitMessage => Request::Message(timeout),
        Action::WaitCallback => Request::Callback(timeout),
        Action::WaitInline => Request::Inline(timeout),
    }
}

/// Whether `answer` is what the step waits for: a message for a reply or a
/// message, a pressed button, an inline query; nothing for a message that is
/// only sent.
pub open spec fn answers(action: Action, answer: Option<Response>) -> bool {
    match action {
        Action::AndThen(_) => answer is None,
        Action::SendMessage(_) => answer is None,
        Action::WaitReply(_) => answer is Some && answer->0 is Message,
        Action::WaitMessage => answer is Some && answer->0 is Message,
        Action::WaitCallback => answer is Some && answer->0 is Callback,
        Action::WaitInline => answer is Some && answer->0 is Inline,
    }
}

/// The first step from the `i`-th on that hands its work out; the number of
/// steps where there is none.
pub open spec fn next_asking(actions: Seq<Action>, i: int) -> int
    decreases actions.len() - i,
{
    if i < 0 || i >= actions.len() {
        actions.len() as int
    } else if asks(actions[i]) {
        i
    } else {
        next_asking(actions, i + 1)
    }
}

/// A conversation.
pub struct Conversation {
    /// The steps, in order.
    actions: Vec<Action>,
    /// How many seconds a step waits for its answer.
    timeout: u64,
    /// The answer that came last.
    last_response: Option<Response>,
    /// How many steps are done.
    done: usize,
    /// Whether the step that was done last is still waiting for its answer.
    waiting: bool,
}

impl Conversation {
    #[verifier::type_invariant]
    spec fn in_step(self) -> bool {
        &&& self.done <= self.actions.len()
        &&& self.waiting ==> self.done > 0 && asks(self.actions@[self.done - 1])
    }

    /// The steps, in order.
    pub closed spec fn script(&self) -> Seq<Action> {
        self.actions@
    }

    /// How many seconds a step waits for its answer.
    pub closed spec fn patience(&self) -> u64 {
        self.timeout
    }

    /// The answer that came last.
    pub closed spec fn last(&self) -> Option<Response> {
        self.last_response
    }

    /// How many steps are done.
    pub closed spec fn done(&self) -> nat {
        self.done as nat
    }

    /// Whether the step that was done last is still waiting for its answer.
    pub closed spec fn waiting(&self) -> bool {
        self.waiting
    }

    /// A conversation with no step yet, whose steps wait `timeout` seconds.
    pub fn new(timeout: u64) -> (conversation: Conversation)
        ensures
            conversation.script().len() == 0,
            conversation.patience() == timeout,
            conversation.last() is None,
            conversation.done() == 0,
            !conversation.waiting(),
    {
        Conversation { actions: Vec::new(), timeout, last_response: None, done: 0, waiting: false }
    }

    /// The steps.
    pub fn actions(&self) -> (actions: &Vec<Action>)
        ensures
            actions@ == self.script(),
    {
        &self.actions
    }

    /// How many steps are done: no more than the script holds; and where
    /// the conversation waits, the step that was done last hands its work out.
    pub fn position(&self) -> (done: usize)
        ensures
            done == self.done(),
            done <= self.script().len(),
            self.waiting() ==> done > 0 && asks(self.script()[done - 1]),
    {
        proof {
            use_type_invariant(self);
        }
        self.done
    }

    /// Adds a step behind those that are there.
    pub fn add_action(&mut self, action: Action)
        ensures
            final(self).script() == old(self).script().push(action),
            final(self).patience() == old(self).patience(),
            final(self).last() == old(self).last(),
            final(self).done() == old(self).done(),
            final(self).waiting() == old(self).waiting(),
    {
        proof {
            use_type_invariant(&*self);
        }
        let waiting = self.waiting;
        let done = self.done;
        self.waiting = false;
        self.done = 0;
        let mut actions: Vec<Action> = Vec::new();
        core::mem::swap(&mut self.actions, &mut actions);
        actions.push(action);
        self.actions = actions;
        self.done = done;
        self.waiting = waiting;
    }

    /// Adds the step that sends a question and waits for the reply to it.
    pub fn ask(self, question: &str) -> (conversation: Conversation)
        ensures
            conversation.script().len() == self.script().len() + 1,
            conversation.script().drop_last() == self.script(),
            conversation.script().last() is WaitReply,
            conversation.script().last()->WaitReply_0@ == question@,
            conversation.patience() == self.patience(),
            conversation.last() == self.last(),
            conversation.done() == self.done(),
            conversation.waiting() == self.waiting(),
    {
        let mut conversation = self;
        conversation.add_action(Action::WaitReply(String::from_str(question)));
        assert(conversation.script().drop_last() =~= self.script());
        conversation
    }

    /// Adds the step that sends a message.
    pub fn send(self, message: &str) -> (conversation: Conversation)
        ensures
            conversation.script().len() == self.script().len() + 1,
            conversation.script().drop_last() == self.script(),
            conversation.script().last() is SendMessage,
            conversation.script().last()->SendMessage_0@ == message@,
            conversation.patience() == self.patience(),
            conversation.last() == self.last(),
            conversation.done() == self.done(),
            conversation.waiting() == self.waiting(),
    {
        let mut conversation = self;
        conversation.add_action(Action::SendMessage(String::from_str(message)));
        assert(conversation.script().drop_last() =~= self.script());
        conversation
    }

    /// Adds the step that hands the answer that came last to `callback`.
    pub fn and_then(self, callback: BoxedCallback) -> (conversation: Conversation)
        ensures
            conversation.script() == self.script().push(Action::AndThen(callback)),
            conversation.patience() == self.patience(),
            conversation.last() == self.last(),
            conversation.done() == self.done(),
            conversation.waiting() == self.waiting(),
    {
        let mut conversation = self;
        conversation.add_action(Action::AndThen(callback));
        conversation
    }

    /// The answer that came last.
    pub fn get_response(&self) -> (response: Option<&Response>)
        ensures
            match response {
                Some(found) => self.last() == Some(*found),
                None => self.last() is None,
            },
    {
        match &self.last_response {
            Some(found) => Some(found),
            None => None,
        }
    }

    /// Adds the step that waits for a message.
    pub fn wait_message(self) -> (conversation: Conversation)
        ensures
            conversation.script() == self.script().push(Action::WaitMessage),
            conversation.patience() == self.patience(),
            conversation.last() == self.last(),
            conversation.done() == self.done(),
            conversation.waiting() == self.waiting(),
    {
        let mut conversation = self;
        conversation.add_action(Action::WaitMessage);
        conversation
    }

    /// Adds the step that waits for the press of a button.
    pub fn wait_callback(self) -> (conversation: Conversation)
        ensures
            conversation.script() == self.script().push(Action::WaitCallback),
            conversation.patience() == self.patience(),
            conversation.last() == self.last(),
            conversation.done() == self.done(),
            conversation.waiting() == self.waiting(),
    {
        let mut conversation = self;
        conversation.add_action(Action::WaitCallback);
        conversation
    }

    /// Adds the step that waits for an inline query.
    pub fn wait_inline(self) -> (conversation: Conversation)
        ensures
            conversation.script() == self.script().push(Action::WaitInline),
            conversation.patience() == self.patience(),
            conversation.last() == self.last(),
            conversation.done() == self.done(),
            conversation.waiting() == self.waiting(),
    {
        let mut conversation = self;
        conversation.add_action(Action::WaitInline);
        conversation
    }

    /// Whether `answer` is what the conversation waits for: what the step
    /// that was done last asked for, where that step still waits; nothing
    /// else.
    pub open spec fn awaits(&self, answer: Option<Response>) -> bool {
        if self.waiting() {
            answers(self.script()[self.done() - 1], answer)
        } else {
            answer is None
        }
    }

    /// Whether `answer` is what the conversation waits for.
    pub fn expects(&self, answer: &Option<Response>) -> (b: bool)
        ensures
            b == self.awaits(*answer),
    {
        proof {
            use_type_invariant(self);
        }
        if self.waiting {
            match &self.actions[self.done - 1] {
                Action::AndThen(_) => answer.is_none(),
                Action::SendMessage(_) => answer.is_none(),
                Action::WaitReply(_) => matches!(answer, Some(Response::Message(_))),
                Action::WaitMessage => matches!(answer, Some(Response::Message(_))),
                Action::WaitCallback => matches!(answer, Some(Response::Callback(_))),
                Action::WaitInline => matches!(answer, Some(Response::Inline(_))),
            }
        } else {
            answer.is_none()
        }
    }

    /// Takes the conversation one step further. `answer` is what came of the
    /// request that the step before made: the message, button or query that
    /// it waited for, nothing after a message that was only sent, and nothing
    /// at the start.
    ///
    /// The answer, where there is one, becomes the answer that came last.
    /// The callbacks that stand next in the script are then handed that
    /// answer, each in turn, up to the first step that hands its work out:
    /// the request of that step is returned, and the step counts as done.
    /// Where no such step is left, the conversation is over.
    pub fn advance(&mut self, answer: Option<Response>) -> (request: Request)
        requires
            old(self).awaits(answer),
        ensures
            final(self).script().len() == old(self).script().len(),
            final(self).patience() == old(self).patience(),
            final(self).last() == (if answer is Some {
                answer
            } else {
                old(self).last()
            }),
            ({
                let next = next_asking(old(self).script(), old(self).done() as int);
                if next < old(self).script().len() {
                    &&& final(self).done() == next + 1
                    &&& final(self).waiting()
                    &&& request == request_of(old(self).script()[next], old(self).patience())
                    &&& forall|k: int|
                        next <= k < old(self).script().len() ==> final(self).script()[k] == old(self).script()[k]
                } else {
                    &&& final(self).done() == old(self).script().len()
                    &&& !final(self).waiting()
                    &&& request == Request::Done
                }
            }),
            forall|k: int| 0 <= k < old(self).done() ==> final(self).script()[k] == old(self).script()[k],
    {
        proof {
            use_type_invariant(&*self);
        }
        self.waiting = false;
        let start = self.done;
        self.done = 0;
        let mut actions: Vec<Action> = Vec::new();
        core::mem::swap(&mut self.actions, &mut actions);
        let last = match answer {
            Some(given) => Some(given),
            None => {
                let mut held: Option<Response> = None;
                core::mem::swap(&mut self.last_response, &mut held);
                held
            },
        };
        let timeout = self.timeout;
        let n = actions.len();
        let mut done = start;
        let mut request = Request::Done;
        let mut waiting = false;
        while !waiting && done < n
            invariant
                n == actions.len(),
                n == old(self).script().len(),
                start <= done <= n,
                start == old(self).done(),
                timeout == old(self).patience(),
                !waiting ==> request == Request::Done,
                !waiting ==> next_asking(old(self).script(), start as int) == next_asking(
                    old(self).script(),
                    done as int,
                ),
                waiting ==> done > 0 && asks(actions@[done - 1]) && done - 1 == next_asking(
                    old(self).script(),
                    start as int,
                ) && request == request_of(old(self).script()[done - 1], timeout),
                forall|k: int| 0 <= k < start ==> actions@[k] == old(self).script()[k],
                forall|k: int| done <= k < n ==> actions@[k] == old(self).script()[k],
                waiting ==> actions@[done - 1] == old(self).script()[done - 1],
            decreases n - done + (if waiting { 0int } else { 1int }),
        {
            let i = done;
            let asked = match &mut actions[i] {
                Action::AndThen(callback) => {
                    callback.callback.call(&last);
                    None
                },
                Action::SendMessage(text) => Some(Request::Send(text.clone())),
                Action::WaitReply(text) => Some(Request::Ask(text.clone(), timeout)),
                Action::WaitMessage => Some(Request::Message(timeout)),
                Action::WaitCallback => Some(Request::Callback(timeout)),
                Action::WaitInline => Some(Request::Inline(timeout)),
            };
            done = i + 1;
            match asked {
                Some(made) => {
                    request = made;
                    waiting = true;
                },
                None => {},
            }
        }
        self.actions = actions;
        self.done = done;
        self.waiting = waiting;
        self.last_response = last;
        request
    }

    /// Takes the conversation one step further where `answer` is what it
    /// waits for, and leaves it as it is where it is not.
    pub fn answer(&mut self, answer: Option<Response>) -> (request: Option<Request>)
        ensures
            request is Some == old(self).awaits(answer),
            !old(self).awaits(answer) ==> *final(self) == *old(self),
            old(self).awaits(answer) ==> {
                &&& final(self).script().len() == old(self).script().len()
                &&& final(self).patience() == old(self).patience()
                &&& final(self).last() == (if answer is Some {
                    answer
                } else {
                    old(self).last()
                })
                &&& ({
                    let next = next_asking(old(self).script(), old(self).done() as int);
                    if next < old(self).script().len() {
                        &&& final(self).done() == next + 1
                        &&& final(self).waiting()
                        &&& request == Some(request_of(old(self).script()[next], old(self).patience()))
                    } else {
                        &&& final(self).done() == old(self).script().len()
                        &&& !final(self).waiting()
                        &&& request == Some(Request::Done)
                    }
                })
            },
    {
        if self.expects(&answer) {
            Some(self.advance(answer))
        } else {
            None
        }
    }
}

} // verus!
