//! Handlers: an update type, a filter, an endpoint and an error handler, and
//! what trying one on an update comes to.

use vstd::prelude::*;
use crate::di::{inserted, merged, Contents, Endpoint, Injector, Outcomes, Value};
use crate::error::Error;
use crate::error_handler::{BoxedErrorHandler, Recoveries};
use crate::filter::{always_passes, never_passes, Answers, BoxedFilter};
use crate::filters::{Command, CommandView};
use crate::flow::{break_now, continue_now, pass, stop, Flow, Verdict};
use crate::middleware::{after_runs, before_runs, never_lets_through, Hooks, MiddlewareStack};
use crate::update::{share, Client, Update};

verus! {

/// Update type.
#[derive(Clone, Copy, Debug, PartialEq, Eq, Structural)]
pub enum UpdateType {
    /// New message handler.
    NewMessage,
    /// Message edited handler.
    MessageEdited,
    /// Message deleted handler.
    MessageDeleted,
    /// Callback query handler.
    CallbackQuery,
    /// Inline query handler.
    InlineQuery,
    /// Inline send handler.
    InlineSend,
    /// Raw update handler.
    Raw,
}

impl Default for UpdateType {
    fn default() -> (update_type: UpdateType)
        ensures
            update_type == UpdateType::Raw,
    {
        UpdateType::Raw
    }
}

impl UpdateType {
    /// The type of `update`.
    pub open spec fn of(update: Update) -> UpdateType {
        match update {
            Update::NewMessage(_) => UpdateType::NewMessage,
            Update::MessageEdited(_) => UpdateType::MessageEdited,
            Update::MessageDeleted(_) => UpdateType::MessageDeleted,
            Update::CallbackQuery(_) => UpdateType::CallbackQuery,
            Update::InlineQuery(_) => UpdateType::InlineQuery,
            Update::InlineSend(_) => UpdateType::InlineSend,
            Update::Raw(_) => UpdateType::Raw,
        }
    }

    /// Whether `update` is of this type: its tag is this one, and no other.
    pub fn matches(&self, update: &Update) -> (b: bool)
        ensures
            b == (*self == UpdateType::of(*update)),
    {
        match self {
            UpdateType::NewMessage => matches!(update, Update::NewMessage(_)),
            UpdateType::MessageEdited => matches!(update, Update::MessageEdited(_)),
            UpdateType::MessageDeleted => matches!(update, Update::MessageDeleted(_)),
            UpdateType::CallbackQuery => matches!(update, Update::CallbackQuery(_)),
            UpdateType::InlineQuery => matches!(update, Update::InlineQuery(_)),
            UpdateType::InlineSend => matches!(update, Update::InlineSend(_)),
            UpdateType::Raw => matches!(update, Update::Raw(_)),
        }
    }
}

/// The value that an endpoint is handed for the update it handles: the
/// message, the record of the deletion, the query, or what else the update
/// is about.
pub open spec fn payload(update: Update) -> Value {
    match update {
        Update::NewMessage(m) => Value::Message(m),
        Update::MessageEdited(m) => Value::Message(m),
        Update::MessageDeleted(d) => Value::Deletion(d),
        Update::CallbackQuery(q) => Value::CallbackQuery(q),
        Update::InlineQuery(q) => Value::InlineQuery(q),
        Update::InlineSend(s) => Value::InlineSend(s),
        Update::Raw(r) => Value::Raw(r),
    }
}

/// The value that an endpoint is handed for the update it handles.
pub fn payload_of(update: &Update) -> (value: Value)
    ensures
        value == payload(*update),
{
    match update {
        Update::NewMessage(m) => Value::Message(share(m)),
        Update::MessageEdited(m) => Value::Message(share(m)),
        Update::MessageDeleted(d) => Value::Deletion(share(d)),
        Update::CallbackQuery(q) => Value::CallbackQuery(share(q)),
        Update::InlineQuery(q) => Value::InlineQuery(share(q)),
        Update::InlineSend(s) => Value::InlineSend(share(s)),
        Update::Raw(r) => Value::Raw(share(r)),
    }
}

/// What trying one handler on an update comes to.
#[derive(Debug, PartialEq)]
pub enum Step {
    /// The handler did not take the update: the next one is tried.
    Next,
    /// The handler took the update: dispatch ends with this result.
    Done(Result<bool, Error>),
}

/// A handler.
///
/// Stores a [`Filter`](crate::filter::Filter), an [`Endpoint`] and an
/// [`ErrorHandler`](crate::error_handler::ErrorHandler).
pub struct Handler {
    /// The type of update to handle.
    pub update_type: UpdateType,
    /// The filter.
    pub filter: Option<BoxedFilter>,
    /// The endpoint.
    pub endpoint: Option<Endpoint>,
    /// The error handler.
    pub err_handler: Option<BoxedErrorHandler>,
    /// The command that the handler answers, where it answers one.
    pub command: Option<Command>,
}

/// What a handler can do.
pub struct Conduct {
    /// The type of update that the handler takes.
    pub update_type: UpdateType,
    /// The answers of its filter, if it has one.
    pub filter: Option<Answers>,
    /// The outcomes of its endpoint, if it has one.
    pub endpoint: Option<Outcomes>,
    /// The answers of its error handler, if it has one.
    pub recovery: Option<Recoveries>,
}

/// The answers of a handler's check: an update of another type is turned
/// down; one of the handler's type passes where the handler has no filter,
/// and is the filter's to judge where it has one.
pub open spec fn guarded(conduct: Conduct) -> Answers {
    |client: Client, update: Update, verdict: Verdict|
        if conduct.update_type != UpdateType::of(update) {
            verdict == stop()
        } else {
            match conduct.filter {
                Some(answers) => answers(client, update, verdict),
                None => verdict == pass(),
            }
        }
}

/// The result of an endpoint, as dispatch reports it.
pub open spec fn settled(result: Result<(), Error>) -> Result<bool, Error> {
    match result {
        Ok(_) => Ok(true),
        Err(e) => Err(e),
    }
}

/// Whether, after the endpoint failed with `error` and left `contents`, the
/// handler can end with `step` and `left`. With no error handler, or with one
/// that says to stop, the error stands. Where the error handler says to go
/// on, the endpoint runs once more, with the values of that answer added, and
/// what it returns then stands.
pub open spec fn recovered(
    conduct: Conduct,
    client: Client,
    update: Update,
    error: Error,
    contents: Contents,
    step: Step,
    left: Contents,
) -> bool {
    match conduct.recovery {
        None => step == Step::Done(Err(error)) && left == contents,
        Some(recoveries) => exists|verdict: Verdict| #[trigger]
            recoveries(client, update, error, verdict) && if verdict.proceed {
                exists|again: Result<(), Error>, after: Contents| #[trigger]
                    conduct.endpoint->0(merged(contents, verdict.items), again, after) && step == Step::Done(
                        settled(again),
                    ) && left == after
            } else {
                step == Step::Done(Err(error)) && left == contents
            },
    }
}

/// Whether the endpoint, run on `contents`, can have the handler end with
/// `step` and `left`: its success is followed by the after-hooks and ends
/// dispatch as handled; its failure is the error handler's to judge.
pub open spec fn served(
    conduct: Conduct,
    hooks: Hooks,
    client: Client,
    update: Update,
    contents: Contents,
    step: Step,
    left: Contents,
) -> bool {
    exists|result: Result<(), Error>, after: Contents| #[trigger]
        conduct.endpoint->0(contents, result, after) && match result {
            Ok(_) => step == Step::Done(Ok(true)) && after_runs(hooks.after, 0, client, update, after, left),
            Err(error) => recovered(conduct, client, update, error, after, step, left),
        }
}

/// Whether the handler, once the before-hooks let the update through with
/// `hooked` and left `contents`, can end with `step` and `left`. Where its
/// check turns the update down, or it has no endpoint, the next handler is
/// tried. Else the endpoint runs on the contents joined by the values of the
/// check, then those of the hooks, then the update's own value.
pub open spec fn tried(
    conduct: Conduct,
    hooks: Hooks,
    client: Client,
    update: Update,
    hooked: Verdict,
    contents: Contents,
    step: Step,
    left: Contents,
) -> bool {
    exists|verdict: Verdict| #[trigger]
        guarded(conduct)(client, update, verdict) && if verdict.proceed && conduct.endpoint is Some {
            served(
                conduct,
                hooks,
                client,
                update,
                inserted(merged(contents, merged(verdict.items, hooked.items)), payload(update)),
                step,
                left,
            )
        } else {
            step == Step::Next && left == contents
        }
}

/// Whether one handler, tried on an update with the injector holding
/// `contents`, can end with `step` and `left`. The before-hooks run first;
/// where they say to stop, the handler is skipped.
pub open spec fn handler_step(
    conduct: Conduct,
    hooks: Hooks,
    client: Client,
    update: Update,
    contents: Contents,
    step: Step,
    left: Contents,
) -> bool {
    exists|hooked: Verdict, mid: Contents| #[trigger]
        before_runs(hooks.before, 0, client, update, contents, pass(), hooked, mid) && if hooked.proceed {
            tried(conduct, hooks, client, update, hooked, mid, step, left)
        } else {
            step == Step::Next && left == mid
        }
}

/// Whether a handler, under the hooks `hooks`, never takes the update: it
/// leaves it to the handlers behind it, whatever the injector holds.
pub open spec fn never_takes(conduct: Conduct, hooks: Hooks, client: Client, update: Update) -> bool {
    forall|contents: Contents, step: Step, left: Contents| #[trigger]
        handler_step(conduct, hooks, client, update, contents, step, left) ==> step is Next
}

/// Whether a handler, under the hooks `hooks`, always takes the update and
/// succeeds, whatever the injector holds.
pub open spec fn always_handles(conduct: Conduct, hooks: Hooks, client: Client, update: Update) -> bool {
    forall|contents: Contents, step: Step, left: Contents| #[trigger]
        handler_step(conduct, hooks, client, update, contents, step, left) ==> step == Step::Done(
            Ok::<bool, Error>(true),
        )
}

/// Whether the before-hooks, on whatever contents they run, end with a
/// verdict that says to go on.
pub open spec fn always_lets_through(hooks: Hooks, client: Client, update: Update) -> bool {
    forall|contents: Contents, out: Verdict, left: Contents| #[trigger]
        before_runs(hooks.before, 0, client, update, contents, pass(), out, left) ==> out.proceed
}

/// Whether an endpoint succeeds whatever the injector holds.
pub open spec fn always_succeeds(outcomes: Outcomes) -> bool {
    forall|contents: Contents, result: Result<(), Error>, left: Contents| #[trigger]
        outcomes(contents, result, left) ==> result is Ok
}

/// A handler whose check cannot pass never takes the update: neither one of
/// another type than the update, nor one whose filter turns the update down.
pub proof fn lemma_declining_handler(conduct: Conduct, hooks: Hooks, client: Client, update: Update)
    requires
        never_passes(guarded(conduct), client, update),
    ensures
        never_takes(conduct, hooks, client, update),
{
}

/// A handler of another type than the update never takes it.
pub proof fn lemma_other_type_declines(conduct: Conduct, hooks: Hooks, client: Client, update: Update)
    requires
        conduct.update_type != UpdateType::of(update),
    ensures
        never_takes(conduct, hooks, client, update),
{
}

/// A handler under hooks that never let the update through never takes it;
/// neither does a handler that has no endpoint.
pub proof fn lemma_skipped_handler(conduct: Conduct, hooks: Hooks, client: Client, update: Update)
    requires
        never_lets_through(hooks.before, client, update) || conduct.endpoint is None,
    ensures
        never_takes(conduct, hooks, client, update),
{
}

/// An error handler that always says to go on mends a failure where the
/// endpoint, run once more with the values that the error handler hands on,
/// always succeeds: the handler then ends with the update handled.
pub proof fn lemma_mended_by_error_handler(
    conduct: Conduct,
    client: Client,
    update: Update,
    error: Error,
    contents: Contents,
    step: Step,
    left: Contents,
)
    requires
        conduct.recovery is Some,
        conduct.endpoint is Some,
        forall|verdict: Verdict| #[trigger] conduct.recovery->0(client, update, error, verdict) ==> verdict.proceed,
        forall|verdict: Verdict, again: Result<(), Error>, after: Contents|
            conduct.recovery->0(client, update, error, verdict) && #[trigger] conduct.endpoint->0(
                merged(contents, verdict.items),
                again,
                after,
            ) ==> again is Ok,
        recovered(conduct, client, update, error, contents, step, left),
    ensures
        step == Step::Done(Ok::<bool, Error>(true)),
{
}

/// Where a handler has no error handler, or one that always says to stop,
/// the error of its endpoint stands.
pub proof fn lemma_error_stands(
    conduct: Conduct,
    client: Client,
    update: Update,
    error: Error,
    contents: Contents,
    step: Step,
    left: Contents,
)
    requires
        conduct.recovery is Some ==> forall|verdict: Verdict| #[trigger]
            conduct.recovery->0(client, update, error, verdict) ==> !verdict.proceed,
        recovered(conduct, client, update, error, contents, step, left),
    ensures
        step == Step::Done(Err::<bool, Error>(error)),
        left == contents,
{
}

/// A handler whose check always passes and whose endpoint always succeeds,
/// under hooks that always let the update through, always takes the update
/// and succeeds.
pub proof fn lemma_taking_handler(conduct: Conduct, hooks: Hooks, client: Client, update: Update)
    requires
        always_lets_through(hooks, client, update),
        always_passes(guarded(conduct), client, update),
        conduct.endpoint is Some,
        always_succeeds(conduct.endpoint->0),
    ensures
        always_handles(conduct, hooks, client, update),
{
}

/// The commands that the handlers from the `i`-th on answer, in order.
pub open spec fn handler_commands(handlers: Seq<Handler>, i: int) -> Seq<CommandView>
    decreases handlers.len() - i,
{
    if i < 0 || i >= handlers.len() {
        Seq::empty()
    } else {
        (match handlers[i].command {
            Some(command) => seq![command@],
            None => Seq::empty(),
        }) + handler_commands(handlers, i + 1)
    }
}

/// Handlers that answer the same commands, one by one, answer the same
/// commands as a whole.
pub proof fn lemma_same_commands(first: Seq<Handler>, second: Seq<Handler>, i: int)
    requires
        0 <= i,
        first.len() == second.len(),
        forall|k: int| 0 <= k < first.len() ==> (#[trigger] first[k]).command == second[k].command,
    ensures
        handler_commands(first, i) == handler_commands(second, i),
    decreases first.len() - i,
{
    if i < first.len() {
        assert(first[i].command == second[i].command);
        lemma_same_commands(first, second, i + 1);
    }
}

/// What each of a list of commands reads as.
pub open spec fn command_views(commands: Seq<Command>) -> Seq<CommandView> {
    Seq::new(commands.len(), |i: int| commands[i]@)
}

/// Adds the commands that `handlers` answer to `commands`, in order.
pub fn collect_commands(handlers: &Vec<Handler>, commands: &mut Vec<Command>)
    ensures
        command_views(final(commands)@) == command_views(old(commands)@) + handler_commands(handlers@, 0),
{
    let ghost start = command_views(commands@);
    let mut i: usize = 0;
    assert(start + handler_commands(handlers@, 0) =~= command_views(commands@) + handler_commands(
        handlers@,
        i as int,
    ));
    while i < handlers.len()
        invariant
            i <= handlers.len(),
            start == command_views(old(commands)@),
            command_views(commands@) + handler_commands(handlers@, i as int) == start + handler_commands(
                handlers@,
                0,
            ),
        decreases handlers.len() - i,
    {
        let ghost before = command_views(commands@);
        match &handlers[i].command {
            Some(command) => {
                let copy = command.clone();
                commands.push(copy);
                assert(command_views(commands@) =~= before + seq![command@]);
                assert(command_views(commands@) + handler_commands(handlers@, i + 1) =~= before
                    + handler_commands(handlers@, i as int));
            },
            None => {
                assert(command_views(commands@) + handler_commands(handlers@, i + 1) =~= before
                    + handler_commands(handlers@, i as int));
            },
        }
        i = i + 1;
    }
    assert(command_views(commands@) + handler_commands(handlers@, i as int) =~= command_views(commands@));
}

impl Handler {
    /// What the handler can do.
    pub open spec fn conduct(&self) -> Conduct {
        Conduct {
            update_type: self.update_type,
            filter: match self.filter {
                Some(f) => Some(f.filter.answers()),
                None => None,
            },
            endpoint: match self.endpoint {
                Some(e) => Some(e.handler.outcomes()),
                None => None,
            },
            recovery: match self.err_handler {
                Some(h) => Some(h.handler.recoveries()),
                None => None,
            },
        }
    }

    /// Creates a new [`UpdateType::NewMessage`] handler.
    pub fn new_message(filter: BoxedFilter) -> (handler: Handler)
        ensures
            handler.update_type == UpdateType::NewMessage,
            handler.filter == Some(filter),
            handler.endpoint is None,
            handler.err_handler is None,
        handler.command is None,
            handler.command is None,
    {
        Handler { update_type: UpdateType::NewMessage, filter: Some(filter), endpoint: None, err_handler: None, command: None }
    }

    /// Creates a new [`UpdateType::Raw`] handler.
    pub fn new_update(filter: BoxedFilter) -> (handler: Handler)
        ensures
            handler.update_type == UpdateType::Raw,
            handler.filter == Some(filter),
            handler.endpoint is None,
            handler.err_handler is None,
        handler.command is None,
            handler.command is None,
    {
        Handler { update_type: UpdateType::Raw, filter: Some(filter), endpoint: None, err_handler: None, command: None }
    }

    /// Creates a new [`UpdateType::MessageEdited`] handler.
    pub fn message_edited(filter: BoxedFilter) -> (handler: Handler)
        ensures
            handler.update_type == UpdateType::MessageEdited,
            handler.filter == Some(filter),
            handler.endpoint is None,
            handler.err_handler is None,
        handler.command is None,
            handler.command is None,
    {
        Handler {
            update_type: UpdateType::MessageEdited,
            filter: Some(filter),
            endpoint: None,
            err_handler: None,
            command: None,
        }
    }

    /// Creates a new [`UpdateType::MessageDeleted`] handler.
    pub fn message_deleted(filter: BoxedFilter) -> (handler: Handler)
        ensures
            handler.update_type == UpdateType::MessageDeleted,
            handler.filter == Some(filter),
            handler.endpoint is None,
            handler.err_handler is None,
        handler.command is None,
            handler.command is None,
    {
        Handler {
            update_type: UpdateType::MessageDeleted,
            filter: Some(filter),
            endpoint: None,
            err_handler: None,
            command: None,
        }
    }

    /// Creates a new [`UpdateType::CallbackQuery`] handler.
    pub fn callback_query(filter: BoxedFilter) -> (handler: Handler)
        ensures
            handler.update_type == UpdateType::CallbackQuery,
            handler.filter == Some(filter),
            handler.endpoint is None,
            handler.err_handler is None,
        handler.command is None,
            handler.command is None,
    {
        Handler {
            update_type: UpdateType::CallbackQuery,
            filter: Some(filter),
            endpoint: None,
            err_handler: None,
            command: None,
        }
    }

    /// Creates a new [`UpdateType::InlineQuery`] handler.
    pub fn inline_query(filter: BoxedFilter) -> (handler: Handler)
        ensures
            handler.update_type == UpdateType::InlineQuery,
            handler.filter == Some(filter),
            handler.endpoint is None,
            handler.err_handler is None,
        handler.command is None,
            handler.command is None,
    {
        Handler { update_type: UpdateType::InlineQuery, filter: Some(filter), endpoint: None, err_handler: None, command: None }
    }

    /// Sets the [`Endpoint`].
    pub fn then(self, endpoint: Endpoint) -> (handler: Handler)
        ensures
            handler.update_type == self.update_type,
            handler.filter == self.filter,
            handler.endpoint == Some(endpoint),
            handler.err_handler == self.err_handler,
            handler.command == self.command,
    {
        let mut handler = self;
        handler.endpoint = Some(endpoint);
        handler
    }

    /// Sets the error handler.
    ///
    /// Executed when the [`Endpoint`] returns an error. It can be used to
    /// try to run the [`Endpoint`] again, with other values injected.
    pub fn on_err(self, handler: BoxedErrorHandler) -> (changed: Handler)
        ensures
            changed.update_type == self.update_type,
            changed.filter == self.filter,
            changed.endpoint == self.endpoint,
            changed.err_handler == Some(handler),
            changed.command == self.command,
    {
        let mut changed = self;
        changed.err_handler = Some(handler);
        changed
    }

    /// Sets the command that the handler answers: what is told of the
    /// handler where the commands of a bot are listed.
    pub fn command(self, command: Command) -> (changed: Handler)
        ensures
            changed.update_type == self.update_type,
            changed.filter == self.filter,
            changed.endpoint == self.endpoint,
            changed.err_handler == self.err_handler,
            changed.command == Some(command),
    {
        let mut changed = self;
        changed.command = Some(command);
        changed
    }

    /// Checks if the update should be handled.
    pub fn check(&mut self, client: &Client, update: &Update) -> (flow: Flow)
        ensures
            guarded(old(self).conduct())(*client, *update, flow@),
            final(self).conduct() == old(self).conduct(),
            final(self).update_type == old(self).update_type,
            final(self).endpoint == old(self).endpoint,
            final(self).err_handler == old(self).err_handler,
            final(self).command == old(self).command,
            old(self).update_type != UpdateType::of(*update) ==> *final(self) == *old(self),
    {
        if self.update_type.matches(update) {
            match &mut self.filter {
                Some(filter) => filter.filter.check(client, update),
                None => continue_now(),
            }
        } else {
            break_now()
        }
    }

    /// Tries the handler on an update: runs the before-hooks, the check, the
    /// endpoint and, where it fails, the error handler.
    ///
    /// Beyond the step and what the injector is left with: the handler and
    /// the hooks can do afterwards what they could before; where the hooks
    /// cannot let the update through, the handler is left as it was; and where
    /// the check cannot pass, the endpoint is.
    pub fn run(
        &mut self,
        client: &Client,
        update: &Update,
        injector: &mut Injector,
        middlewares: &mut MiddlewareStack,
    ) -> (step: Step)
        ensures
            handler_step(
                old(self).conduct(),
                old(middlewares).hooks(),
                *client,
                *update,
                old(injector)@,
                step,
                final(injector)@,
            ),
            final(self).conduct() == old(self).conduct(),
            final(middlewares).hooks() == old(middlewares).hooks(),
            final(middlewares).before.len() == old(middlewares).before.len(),
            final(middlewares).after.len() == old(middlewares).after.len(),
            final(self).command == old(self).command,
            never_lets_through(old(middlewares).hooks().before, *client, *update) ==> *final(self)
                == *old(self),
            never_passes(guarded(old(self).conduct()), *client, *update)
                ==> final(self).endpoint == old(self).endpoint,
    {
        let ghost conduct = self.conduct();
        let ghost hooks = middlewares.hooks();
        let ghost start = injector@;
        let mut hooked = middlewares.handle_before(client, update, injector);
        let ghost mid = injector@;
        let ghost hooked_verdict = hooked@;
        if !hooked.is_continue() {
            return Step::Next;
        }
        let mut flow = self.check(client, update);
        let ghost verdict = flow@;
        flow.injector.extend(&mut hooked.injector);
        if !flow.is_continue() {
            proof {
                assert(tried(conduct, hooks, *client, *update, hooked_verdict, mid, Step::Next, mid));
            }
            return Step::Next;
        }
        let step = match &mut self.endpoint {
            None => {
                proof {
                    assert(tried(conduct, hooks, *client, *update, hooked_verdict, mid, Step::Next, mid));
                }
                Step::Next
            },
            Some(endpoint) => {
                injector.extend(&mut flow.injector);
                injector.insert(payload_of(update));
                let ghost ready = injector@;
                let ghost outcomes = endpoint.handler.outcomes();
                proof {
                    assert(ready == inserted(
                        merged(mid, merged(verdict.items, hooked_verdict.items)),
                        payload(*update),
                    ));
                    assert(conduct.endpoint == Some(outcomes));
                }
                let result = endpoint.handler.handle(injector);
                let ghost after = injector@;
                let step = match result {
                    Ok(_) => {
                        middlewares.handle_after(client, update, injector);
                        Step::Done(Ok(true))
                    },
                    Err(error) => {
                        match &self.err_handler {
                            None => {
                                proof {
                                    assert(conduct.recovery is None);
                                    assert(recovered(
                                        conduct,
                                        *client,
                                        *update,
                                        error,
                                        after,
                                        Step::Done(Err(error)),
                                        injector@,
                                    ));
                                }
                                Step::Done(Err(error))
                            },
                            Some(recovery) => {
                                let ghost recoveries = recovery.handler.recoveries();
                                proof {
                                    assert(conduct.recovery == Some(recoveries));
                                }
                                let mut answer = recovery.handler.run(client, update, &error);
                                let ghost answered = answer@;
                                proof {
                                    assert(recoveries(*client, *update, error, answered));
                                }
                                if answer.is_continue() {
                                    injector.extend(&mut answer.injector);
                                    let again = endpoint.handler.handle(injector);
                                    let step = match again {
                                        Ok(_) => Step::Done(Ok(true)),
                                        Err(later) => Step::Done(Err(later)),
                                    };
                                    proof {
                                        assert(conduct.recovery->0(*client, *update, error, answered));
                                        assert(conduct.endpoint->0(
                                            merged(after, answered.items),
                                            again,
                                            injector@,
                                        ));
                                        assert(step == Step::Done(settled(again)));
                                        assert(recovered(conduct, *client, *update, error, after, step, injector@));
                                    }
                                    step
                                } else {
                                    proof {
                                        assert(injector@ == after);
                                        assert(!answered.proceed);
                                        assert(conduct.recovery->0(*client, *update, error, answered));
                                        assert(recovered(
                                            conduct,
                                            *client,
                                            *update,
                                            error,
                                            after,
                                            Step::Done(Err(error)),
                                            injector@,
                                        ));
                                    }
                                    Step::Done(Err(error))
                                }
                            },
                        }
                    },
                };
                proof {
                    assert(conduct.endpoint->0(ready, result, after));
                    assert(served(conduct, hooks, *client, *update, ready, step, injector@));
                    assert(tried(conduct, hooks, *client, *update, hooked_verdict, mid, step, injector@));
                }
                step
            },
        };
        proof {
            assert(before_runs(hooks.before, 0, *client, *update, start, pass(), hooked_verdict, mid));
            assert(handler_step(conduct, hooks, *client, *update, start, step, injector@));
        }
        step
    }
}

/// Creates a new [`UpdateType::NewMessage`] handler.
///
/// Injects the message.
pub fn new_message(filter: BoxedFilter) -> (handler: Handler)
    ensures
        handler.update_type == UpdateType::NewMessage,
        handler.filter == Some(filter),
        handler.endpoint is None,
        handler.err_handler is None,
        handler.command is None,
{
    Handler::new_message(filter)
}

/// Creates a new [`UpdateType::Raw`] handler.
///
/// Injects the update.
pub fn new_update(filter: BoxedFilter) -> (handler: Handler)
    ensures
        handler.update_type == UpdateType::Raw,
        handler.filter == Some(filter),
        handler.endpoint is None,
        handler.err_handler is None,
        handler.command is None,
{
    Handler::new_update(filter)
}

/// Creates a new [`UpdateType::MessageEdited`] handler.
///
/// Injects the message.
pub fn message_edited(filter: BoxedFilter) -> (handler: Handler)
    ensures
        handler.update_type == UpdateType::MessageEdited,
        handler.filter == Some(filter),
        handler.endpoint is None,
        handler.err_handler is None,
        handler.command is None,
{
    Handler::message_edited(filter)
}

/// Creates a new [`UpdateType::MessageDeleted`] handler.
///
/// Injects the record of the deletion.
pub fn message_deleted(filter: BoxedFilter) -> (handler: Handler)
    ensures
        handler.update_type == UpdateType::MessageDeleted,
        handler.filter == Some(filter),
        handler.endpoint is None,
        handler.err_handler is None,
        handler.command is None,
{
    Handler::message_deleted(filter)
}

/// Creates a new [`UpdateType::CallbackQuery`] handler.
///
/// Injects the query.
pub fn callback_query(filter: BoxedFilter) -> (handler: Handler)
    ensures
        handler.update_type == UpdateType::CallbackQuery,
        handler.filter == Some(filter),
        handler.endpoint is None,
        handler.err_handler is None,
        handler.command is None,
{
    Handler::callback_query(filter)
}

/// Creates a new [`UpdateType::InlineQuery`] handler.
///
/// Injects the query.
pub fn inline_query(filter: BoxedFilter) -> (handler: Handler)
    ensures
        handler.update_type == UpdateType::InlineQuery,
        handler.filter == Some(filter),
        handler.endpoint is None,
        handler.err_handler is None,
        handler.command is None,
{
    Handler::inline_query(filter)
}

/// Creates a new [`UpdateType::Raw`] handler with no filter, which hands
/// every update of no other kind to `endpoint`.
pub fn then(endpoint: Endpoint) -> (handler: Handler)
    ensures
        handler.update_type == UpdateType::Raw,
        handler.filter is None,
        handler.endpoint == Some(endpoint),
        handler.err_handler is None,
        handler.command is None,
{
    Handler { update_type: UpdateType::Raw, filter: None, endpoint: Some(endpoint), err_handler: None, command: None }
}

} // verus!
