//! Filters: predicates over an update that may hand values on, and the three
//! ways to combine them.

use vstd::prelude::*;
use crate::di::{merged, Kind, Value};
use crate::flow::{break_now, stop, verdict_of_bool, Flow, Verdict};
use crate::update::{Client, Update};

verus! {

/// What a filter may answer: the verdicts that a check of an update, received
/// by a client, can end with.
pub type Answers = spec_fn(Client, Update, Verdict) -> bool;

/// A filter.
pub trait Filter {
    /// The answers that the filter can give. A filter that always gives the
    /// same answer to the same update allows that answer alone; one whose
    /// answer hangs on more than the update allows each answer it could give.
    /// A filter that says nothing of its answers allows every answer.
    open spec fn answers(&self) -> spec_fn(Client, Update, Verdict) -> bool {
        |client: Client, update: Update, verdict: Verdict| true
    }

    /// Checks if the update should be handled. The answer is one that
    /// `answers` allows, and the check leaves the filter with the answers it
    /// had.
    fn check(&mut self, client: &Client, update: &Update) -> (flow: Flow)
        ensures
            old(self).answers()(*client, *update, flow@),
            final(self).answers() == old(self).answers(),
    ;
}

/// A filter of any type, boxed.
pub struct BoxedFilter {
    /// The filter.
    pub filter: Box<dyn Filter>,
}

/// A function from a client and an update to a flow, held as a filter.
pub struct FilterFn<F: Fn(&Client, &Update) -> Flow> {
    /// The function.
    f: F,
}

impl<F: Fn(&Client, &Update) -> Flow> FilterFn<F> {
    #[verifier::type_invariant]
    spec fn total(self) -> bool {
        forall|client: &Client, update: &Update| call_requires(self.f, (client, update))
    }

    /// The function.
    pub closed spec fn function(&self) -> F {
        self.f
    }

    /// Holds `f` as a filter.
    pub fn new(f: F) -> (filter: FilterFn<F>)
        requires
            forall|client: &Client, update: &Update| call_requires(f, (client, update)),
        ensures
            filter.function() == f,
    {
        FilterFn { f }
    }
}

impl<F: Fn(&Client, &Update) -> Flow> Filter for FilterFn<F> {
    open spec fn answers(&self) -> Answers {
        |client: Client, update: Update, verdict: Verdict|
            exists|flow: Flow| #[trigger]
                call_ensures(self.function(), (&client, &update), flow) && flow@ == verdict
    }

    fn check(&mut self, client: &Client, update: &Update) -> (flow: Flow) {
        proof {
            use_type_invariant(&*self);
        }
        (self.f)(client, update)
    }
}

/// Whether `answers` never says to go on with `update`.
pub open spec fn never_passes(answers: Answers, client: Client, update: Update) -> bool {
    forall|verdict: Verdict| #[trigger] answers(client, update, verdict) ==> !verdict.proceed
}

/// Whether `answers` always says to go on with `update`.
pub open spec fn always_passes(answers: Answers, client: Client, update: Update) -> bool {
    forall|verdict: Verdict| #[trigger] answers(client, update, verdict) ==> verdict.proceed
}

/// The answers of two filters taken together: the second is asked only
/// where the first says to go on, and only where both do, the whole goes on,
/// with the values of the first followed by those of the second.
pub open spec fn both(first: Answers, second: Answers) -> Answers {
    |client: Client, update: Update, verdict: Verdict|
        exists|a: Verdict| #[trigger]
            first(client, update, a) && if a.proceed {
                exists|b: Verdict| #[trigger]
                    second(client, update, b) && verdict == (if b.proceed {
                        Verdict { proceed: true, items: merged(a.items, b.items) }
                    } else {
                        stop()
                    })
            } else {
                verdict == stop()
            }
}

/// The answers of a filter with a fallback: where the first says to go on,
/// its answer stands; else the other is asked, and its answer stands where it
/// says to go on.
pub open spec fn either(first: Answers, other: Answers) -> Answers {
    |client: Client, update: Update, verdict: Verdict|
        exists|a: Verdict| #[trigger]
            first(client, update, a) && if a.proceed {
                verdict == a
            } else {
                exists|b: Verdict| #[trigger]
                    other(client, update, b) && verdict == (if b.proceed {
                        b
                    } else {
                        stop()
                    })
            }
}

/// The answers of a filter turned round: it goes on where the filter stops,
/// and hands nothing on.
pub open spec fn negated(inner: Answers) -> Answers {
    |client: Client, update: Update, verdict: Verdict|
        exists|a: Verdict| #[trigger] inner(client, update, a) && verdict == verdict_of_bool(!a.proceed)
}

/// Passes if `first` and `second` pass.
pub struct And {
    /// The filter that is asked first.
    pub first: BoxedFilter,
    /// The filter that is asked where the first passes.
    pub second: BoxedFilter,
}

impl Filter for And {
    open spec fn answers(&self) -> Answers {
        both(self.first.filter.answers(), self.second.filter.answers())
    }

    /// Beyond what every filter promises: where the first filter cannot
    /// pass, the second is left as it was, for it was not asked.
    fn check(&mut self, client: &Client, update: &Update) -> (flow: Flow)
        ensures
            never_passes(old(self).first.filter.answers(), *client, *update) ==> final(self).second == old(self).second,
    {
        let mut first_flow = self.first.filter.check(client, update);
        if first_flow.is_continue() {
            let mut second_flow = self.second.filter.check(client, update);
            if second_flow.is_continue() {
                first_flow.injector.extend(&mut second_flow.injector);
                return first_flow;
            }
        }
        break_now()
    }
}

/// Passes if `first` or `other` pass.
pub struct Or {
    /// The filter that is asked first.
    pub first: BoxedFilter,
    /// The filter that is asked where the first stops.
    pub other: BoxedFilter,
}

impl Filter for Or {
    open spec fn answers(&self) -> Answers {
        either(self.first.filter.answers(), self.other.filter.answers())
    }

    /// Beyond what every filter promises: where the first filter cannot
    /// stop, the other is left as it was, for it was not asked.
    fn check(&mut self, client: &Client, update: &Update) -> (flow: Flow)
        ensures
            always_passes(old(self).first.filter.answers(), *client, *update) ==> final(self).other == old(self).other,
    {
        let first_flow = self.first.filter.check(client, update);
        if first_flow.is_continue() {
            first_flow
        } else {
            let other_flow = self.other.filter.check(client, update);
            if other_flow.is_continue() {
                other_flow
            } else {
                break_now()
            }
        }
    }
}

/// Passes if `filter` doesn't pass.
pub struct Not {
    /// The filter that is turned round.
    pub filter: BoxedFilter,
}

impl Filter for Not {
    open spec fn answers(&self) -> Answers {
        negated(self.filter.filter.answers())
    }

    fn check(&mut self, client: &Client, update: &Update) -> (flow: Flow) {
        let inner = self.filter.filter.check(client, update);
        Flow::from(inner.is_break())
    }
}

/// Wraps `first` and `second` into an [`And`] filter.
pub fn and(first: BoxedFilter, second: BoxedFilter) -> (filter: And)
    ensures
        filter.first == first,
        filter.second == second,
{
    And { first, second }
}

/// Wraps `first` and `other` into an [`Or`] filter.
pub fn or(first: BoxedFilter, other: BoxedFilter) -> (filter: Or)
    ensures
        filter.first == first,
        filter.other == other,
{
    Or { first, other }
}

/// Wraps `filter` into a [`Not`] filter.
pub fn not(filter: BoxedFilter) -> (negation: Not)
    ensures
        negation.filter == filter,
{
    Not { filter }
}

/// Where the first of two filters taken together cannot pass, the whole
/// stops and hands nothing on, whatever the second would have injected.
pub proof fn lemma_and_stops_with_first(
    first: Answers,
    second: Answers,
    client: Client,
    update: Update,
    verdict: Verdict,
)
    requires
        never_passes(first, client, update),
        both(first, second)(client, update, verdict),
    ensures
        verdict == stop(),
{
}

/// Where both of two filters taken together pass, the whole passes, and the
/// values of the first come before those of the second.
pub proof fn lemma_and_passes_with_both(
    first: Answers,
    second: Answers,
    client: Client,
    update: Update,
    verdict: Verdict,
)
    requires
        both(first, second)(client, update, verdict),
        verdict.proceed,
    ensures
        exists|a: Verdict, b: Verdict|
            #![trigger first(client, update, a), second(client, update, b)]
            first(client, update, a) && a.proceed && second(client, update, b) && b.proceed && verdict.items
                == merged(a.items, b.items),
{
    let a = choose|a: Verdict| #[trigger]
        first(client, update, a) && if a.proceed {
            exists|b: Verdict| #[trigger]
                second(client, update, b) && verdict == (if b.proceed {
                    Verdict { proceed: true, items: merged(a.items, b.items) }
                } else {
                    stop()
                })
        } else {
            verdict == stop()
        };
    let b = choose|b: Verdict| #[trigger]
        second(client, update, b) && verdict == (if b.proceed {
            Verdict { proceed: true, items: merged(a.items, b.items) }
        } else {
            stop()
        });
    assert(first(client, update, a) && second(client, update, b));
}

/// Where the first of a filter and its fallback cannot stop, the answer of
/// the whole is an answer of the first: it goes on, with the values of the
/// first alone.
pub proof fn lemma_or_keeps_first(
    first: Answers,
    other: Answers,
    client: Client,
    update: Update,
    verdict: Verdict,
)
    requires
        always_passes(first, client, update),
        either(first, other)(client, update, verdict),
    ensures
        verdict.proceed,
        first(client, update, verdict),
{
}

/// A filter turned round passes exactly where the filter can stop, and
/// hands nothing on.
pub proof fn lemma_not_flips(inner: Answers, client: Client, update: Update, verdict: Verdict)
    requires
        negated(inner)(client, update, verdict),
    ensures
        verdict.items == Map::<Kind, Seq<Value>>::empty(),
        exists|a: Verdict| #[trigger] inner(client, update, a) && verdict.proceed == !a.proceed,
{
}

} // verus!
