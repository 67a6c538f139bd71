//! Periodic re-emission of the latest stored transforms under new names.
//!
//! The transform store and the broadcaster are outside this library. Each
//! tick the surroundings look the configured pairs up, hand the outcomes in,
//! and carry out the actions that come back.

use vstd::prelude::*;
use crate::frames::{RemapConfig, RemapRule, RuleView, rule_views};
use crate::record::{RecordView, TransformRecord};

verus! {

/// What a tick asks of its surroundings for one rule.
#[derive(Clone, Debug, PartialEq)]
pub enum TickAction<P, E> {
    /// Hand this transform to the broadcaster.
    Broadcast(TransformRecord<P>),
    /// Report that the store had no transform for the rule.
    ReportLookupFailure(E),
}

/// A [`TickAction`] with the frame names as character sequences.
pub enum ActionView<P, E> {
    Broadcast(RecordView<P>),
    ReportLookupFailure(E),
}

impl<P, E> View for TickAction<P, E> {
    type V = ActionView<P, E>;

    open spec fn view(&self) -> ActionView<P, E> {
        match *self {
            TickAction::Broadcast(record) => ActionView::Broadcast(record@),
            TickAction::ReportLookupFailure(error) => ActionView::ReportLookupFailure(error),
        }
    }
}

/// The outcome of a store lookup with the frame names as character
/// sequences.
pub open spec fn outcome_view<P, E>(outcome: Result<TransformRecord<P>, E>) -> Result<
    RecordView<P>,
    E,
> {
    match outcome {
        Ok(transform) => Ok(transform@),
        Err(error) => Err(error),
    }
}

/// The action that the outcome of a rule's lookup calls for: a transform
/// that was found is broadcast between the rule's new frames with its
/// timestamp and pose untouched, and a failure is reported.
pub open spec fn reshaped<P, E>(rule: RuleView, outcome: Result<RecordView<P>, E>) -> ActionView<
    P,
    E,
> {
    match outcome {
        Ok(transform) => ActionView::Broadcast(transform.renamed(rule.target)),
        Err(error) => ActionView::ReportLookupFailure(error),
    }
}

/// `transform` between the new frames of `rule`.
pub fn relabel<P>(rule: &RemapRule, transform: TransformRecord<P>) -> (out: TransformRecord<P>)
    ensures
        out@ == transform@.renamed(rule@.target),
{
    TransformRecord {
        parent: rule.new_parent.clone(),
        child: rule.new_child.clone(),
        timestamp: transform.timestamp,
        rigid_transform: transform.rigid_transform,
    }
}

/// The action that `outcome`, the result of looking up the old frames of
/// `rule`, calls for.
pub fn reshape<P, E>(rule: &RemapRule, outcome: Result<TransformRecord<P>, E>) -> (action:
    TickAction<P, E>)
    ensures
        action@ == reshaped(rule@, outcome_view(outcome)),
{
    match outcome {
        Ok(transform) => TickAction::Broadcast(relabel(rule, transform)),
        Err(error) => TickAction::ReportLookupFailure(error),
    }
}

/// The timer-driven reshaper. It holds the rules and nothing else: every
/// tick starts afresh.
#[derive(Clone, Debug)]
pub struct BufferedReshaper {
    rules: Vec<RemapRule>,
}

impl View for BufferedReshaper {
    type V = Seq<RuleView>;

    closed spec fn view(&self) -> Seq<RuleView> {
        rule_views(self.rules@)
    }
}

impl BufferedReshaper {
    /// A reshaper for the rules of `config`, in their order.
    pub fn new(config: RemapConfig) -> (reshaper: BufferedReshaper)
        ensures
            reshaper@ == config@,
    {
        BufferedReshaper { rules: config.remaps }
    }

    /// The number of rules, which is the number of lookups in a tick.
    pub fn rule_count(&self) -> (count: usize)
        ensures
            count == self@.len(),
    {
        self.rules.len()
    }

    /// The rule whose old frames are to be looked up once `done` rules of
    /// the tick have been dealt with, or nothing when the tick is over.
    pub fn pending(&self, done: usize) -> (rule: Option<&RemapRule>)
        ensures
            match rule {
                Some(rule) => done < self@.len() && rule@ == self@[done as int],
                None => done >= self@.len(),
            },
    {
        if done < self.rules.len() {
            Some(&self.rules[done])
        } else {
            None
        }
    }

    /// Takes the outcome of the pending rule's lookup. Gives back the
    /// number of rules dealt with after it and the action to carry out.
    /// Whatever the outcome, the tick moves on to the next rule; a tick
    /// that is over stays so and asks for nothing.
    pub fn advance<P, E>(&self, done: usize, outcome: Result<TransformRecord<P>, E>) -> (step: (
        usize,
        Option<TickAction<P, E>>,
    ))
        ensures
            done < self@.len() ==> step.0 == done + 1 && step.1 is Some && step.1->0@ == reshaped(
                self@[done as int],
                outcome_view(outcome),
            ),
            done >= self@.len() ==> step.0 == done && step.1 is None,
    {
        if done < self.rules.len() {
            (done + 1, Some(reshape(&self.rules[done], outcome)))
        } else {
            (done, None)
        }
    }

    /// A whole tick, given the outcomes of the lookups in the order of the
    /// rules: one action for each rule whose outcome is at hand, in that
    /// order, each decided by its own outcome alone.
    pub fn tick<P, E>(&self, outcomes: Vec<Result<TransformRecord<P>, E>>) -> (actions: Vec<
        TickAction<P, E>,
    >)
        ensures
            actions@.len() == if self@.len() <= outcomes@.len() {
                self@.len()
            } else {
                outcomes@.len()
            },
            forall|i: int|
                0 <= i < actions@.len() ==> (#[trigger] actions@[i])@ == reshaped(
                    self@[i],
                    outcome_view(outcomes@[i]),
                ),
    {
        let mut actions: Vec<TickAction<P, E>> = Vec::new();
        let mut done: usize = 0;
        for outcome in it: outcomes.into_iter()
            invariant
                done == if it.index() <= self@.len() { it.index() } else { self@.len() as int },
                actions@.len() == done,
                forall|i: int| 0 <= i < done ==> (#[trigger] actions@[i])@ == reshaped(
                    self@[i],
                    outcome_view(it.seq()[i]),
                ),
        {
            let (next, action) = self.advance(done, outcome);
            match action {
                Some(action) => {
                    actions.push(action);
                },
                None => {},
            }
            done = next;
        }
        actions
    }
}

} // verus!
