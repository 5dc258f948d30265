//! The verdict of a filter or of a middleware: go on or stop, with the
//! values it hands on.

use vstd::prelude::*;
use vstd::std_specs::convert::FromSpecImpl;
use crate::di::{inserted, queue, Contents, Injector, Kind, Value};
use crate::error::Error;

verus! {

/// Represents the next action that will be made in the handler.
#[derive(Clone, Copy, Debug, PartialEq, Eq, Structural)]
pub enum Action {
    /// Stop here.
    Break,
    /// Go on.
    Continue,
}

impl Default for Action {
    fn default() -> (action: Action)
        ensures
            action == Action::Continue,
    {
        Action::Continue
    }
}

/// Represents the control flow of a filter.
#[derive(Debug)]
pub struct Flow {
    /// The action.
    pub action: Action,
    /// The injector.
    pub injector: Injector,
}

/// What a flow says: whether to go on, and the values it carries.
pub struct Verdict {
    /// Whether the flow says to go on.
    pub proceed: bool,
    /// The values that the flow carries.
    pub items: Contents,
}

/// The verdict that stops and carries nothing.
pub open spec fn stop() -> Verdict {
    Verdict { proceed: false, items: Map::empty() }
}

/// The verdict that goes on and carries nothing.
pub open spec fn pass() -> Verdict {
    Verdict { proceed: true, items: Map::empty() }
}

/// The verdict that goes on and carries `value` alone.
pub open spec fn pass_with(value: Value) -> Verdict {
    Verdict { proceed: true, items: inserted(Map::empty(), value) }
}

impl View for Flow {
    type V = Verdict;

    open spec fn view(&self) -> Verdict {
        Verdict { proceed: self.action == Action::Continue, items: self.injector@ }
    }
}

impl Flow {
    /// Changes the current action to [`Action::Break`].
    pub fn to_break(&mut self)
        ensures
            final(self)@ == (Verdict { proceed: false, items: old(self)@.items }),
    {
        self.action = Action::Break;
    }

    /// Changes the current action to [`Action::Continue`].
    pub fn to_continue(&mut self)
        ensures
            final(self)@ == (Verdict { proceed: true, items: old(self)@.items }),
    {
        self.action = Action::Continue;
    }

    /// Injects a value.
    pub fn inject(&mut self, value: Value)
        ensures
            final(self)@ == (Verdict { proceed: old(self)@.proceed, items: inserted(old(self)@.items, value) }),
    {
        self.injector.insert(value);
    }

    /// Checks if the current action is [`Action::Break`].
    pub fn is_break(&self) -> (b: bool)
        ensures
            b == !self@.proceed,
    {
        self.action == Action::Break
    }

    /// Checks if the current action is [`Action::Continue`].
    pub fn is_continue(&self) -> (b: bool)
        ensures
            b == self@.proceed,
    {
        self.action == Action::Continue
    }
}

impl Default for Flow {
    fn default() -> (flow: Flow)
        ensures
            flow@ == pass(),
    {
        Flow { action: Action::Continue, injector: Injector::new() }
    }
}

/// Creates a new flow with action [`Action::Break`].
pub fn break_now() -> (flow: Flow)
    ensures
        flow@ == stop(),
{
    Flow { action: Action::Break, injector: Injector::new() }
}

/// Creates a new flow with action [`Action::Continue`].
pub fn continue_now() -> (flow: Flow)
    ensures
        flow@ == pass(),
{
    Flow { action: Action::Continue, injector: Injector::new() }
}

/// Creates a new flow with action [`Action::Continue`] and inject a value.
pub fn continue_with(value: Value) -> (flow: Flow)
    ensures
        flow@ == pass_with(value),
{
    let mut flow = continue_now();
    flow.inject(value);
    flow
}

/// The verdict that a truth value turns into.
pub open spec fn verdict_of_bool(value: bool) -> Verdict {
    if value {
        pass()
    } else {
        stop()
    }
}

/// The verdict that an optional value turns into.
pub open spec fn verdict_of_option(value: Option<Value>) -> Verdict {
    match value {
        Some(v) => pass_with(v),
        None => stop(),
    }
}

/// The verdict that the result of an extraction turns into.
pub open spec fn verdict_of_result(value: Result<Value, Error>) -> Verdict {
    match value {
        Ok(v) => pass_with(v),
        Err(_) => stop(),
    }
}

impl From<()> for Flow {
    fn from(value: ()) -> (flow: Flow)
        ensures
            flow@ == stop(),
    {
        break_now()
    }
}

/// A flow holds a hash map, of which no two are known to be the same value:
/// what the conversion gives is stated of its verdict, on `from` itself.
impl FromSpecImpl<()> for Flow {
    open spec fn obeys_from_spec() -> bool {
        false
    }

    open spec fn from_spec(value: ()) -> Flow {
        arbitrary()
    }
}

impl From<bool> for Flow {
    fn from(value: bool) -> (flow: Flow)
        ensures
            flow@ == verdict_of_bool(value),
    {
        if value {
            continue_now()
        } else {
            break_now()
        }
    }
}

/// What the conversion gives is stated of its verdict, on `from` itself.
impl FromSpecImpl<bool> for Flow {
    open spec fn obeys_from_spec() -> bool {
        false
    }

    open spec fn from_spec(value: bool) -> Flow {
        arbitrary()
    }
}

impl From<Option<Value>> for Flow {
    fn from(value: Option<Value>) -> (flow: Flow)
        ensures
            flow@ == verdict_of_option(value),
    {
        match value {
            Some(value) => continue_with(value),
            None => break_now(),
        }
    }
}

/// What the conversion gives is stated of its verdict, on `from` itself.
impl FromSpecImpl<Option<Value>> for Flow {
    open spec fn obeys_from_spec() -> bool {
        false
    }

    open spec fn from_spec(value: Option<Value>) -> Flow {
        arbitrary()
    }
}

impl From<Result<Value, Error>> for Flow {
    fn from(value: Result<Value, Error>) -> (flow: Flow)
        ensures
            flow@ == verdict_of_result(value),
    {
        match value {
            Ok(value) => continue_with(value),
            Err(_) => break_now(),
        }
    }
}

/// What the conversion gives is stated of its verdict, on `from` itself.
impl FromSpecImpl<Result<Value, Error>> for Flow {
    open spec fn obeys_from_spec() -> bool {
        false
    }

    open spec fn from_spec(value: Result<Value, Error>) -> Flow {
        arbitrary()
    }
}

/// A flow made from a value that is there says to go on and hands out that
/// value, and no other, to whoever takes one of its type; a flow made from
/// a value that is not there says to stop.
pub proof fn lemma_flow_of_option(value: Option<Value>)
    ensures
        verdict_of_option(value).proceed == (value is Some),
        value is Some ==> queue(verdict_of_option(value).items, value->0.kind()) == seq![value->0],
        value is None ==> verdict_of_option(value).items == Map::<Kind, Seq<Value>>::empty(),
{
    if value is Some {
        assert(Seq::<Value>::empty().push(value->0) =~= seq![value->0]);
    }
}

} // verus!
