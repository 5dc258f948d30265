//! Error handlers: what a handler falls back on when its endpoint fails.

use vstd::prelude::*;
use crate::error::Error;
use crate::flow::{Flow, Verdict};
use crate::update::{Client, Update};

verus! {

/// What an error handler may answer to an error of an endpoint.
pub type Recoveries = spec_fn(Client, Update, Error, Verdict) -> bool;

/// Update error filter.
///
/// Run when the handler's endpoint returns an error.
pub trait ErrorHandler {
    /// The answers that the error handler can give. An error handler that
    /// says nothing of its answers allows every answer.
    open spec fn recoveries(&self) -> spec_fn(Client, Update, Error, Verdict) -> bool {
        |client: Client, update: Update, error: Error, verdict: Verdict| true
    }

    /// Run the error handler. An answer that says to go on has the endpoint
    /// tried once more, with the values that the answer carries.
    fn run(&self, client: &Client, update: &Update, error: &Error) -> (flow: Flow)
        ensures
            self.recoveries()(*client, *update, *error, flow@),
    ;
}

/// A function from a client, an update and an error to a flow, held as an
/// error handler.
pub struct ErrorHandlerFn<F: Fn(&Client, &Update, &Error) -> Flow> {
    /// The function.
    f: F,
}

impl<F: Fn(&Client, &Update, &Error) -> Flow> ErrorHandlerFn<F> {
    #[verifier::type_invariant]
    spec fn total(self) -> bool {
        forall|client: &Client, update: &Update, error: &Error| call_requires(self.f, (client, update, error))
    }

    /// The function.
    pub closed spec fn function(&self) -> F {
        self.f
    }

    /// Holds `f` as an error handler.
    pub fn new(f: F) -> (handler: ErrorHandlerFn<F>)
        requires
            forall|client: &Client, update: &Update, error: &Error| call_requires(f, (client, update, error)),
        ensures
            handler.function() == f,
    {
        ErrorHandlerFn { f }
    }
}

impl<F: Fn(&Client, &Update, &Error) -> Flow> ErrorHandler for ErrorHandlerFn<F> {
    open spec fn recoveries(&self) -> Recoveries {
        |client: Client, update: Update, error: Error, verdict: Verdict|
            exists|flow: Flow| #[trigger]
                call_ensures(self.function(), (&client, &update, &error), flow) && flow@ == verdict
    }

    fn run(&self, client: &Client, update: &Update, error: &Error) -> (flow: Flow) {
        proof {
            use_type_invariant(self);
        }
        (self.f)(client, update, error)
    }
}

/// An error handler of any type, boxed.
pub struct BoxedErrorHandler {
    /// The error handler.
    pub handler: Box<dyn ErrorHandler>,
}

} // verus!
