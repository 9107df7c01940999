use crate::discovery::{all_variants, decision, LayoutVariant, RetryDecision, RetryPolicy};
use vstd::prelude::*;

verus! {

/// Where a collection run stands.
#[derive(Clone, Copy, Debug, PartialEq, Eq, Structural)]
pub enum Stage {
    /// The collection's name is not known yet.
    Start,
    /// Querying the records of the layout with this index, after this many
    /// failed attempts.
    Discovering(usize, u32),
    /// Every layout has been queried; the records are being resolved.
    Resolving,
    /// Every record has been resolved or skipped.
    Finalized,
    /// A record query failed more often than the retry policy allows.
    Abandoned,
}

/// What the outside world reports back.
#[derive(Clone, Copy, Debug, PartialEq, Eq, Structural)]
pub enum Event {
    /// The collection's name was looked up.
    NameResolved,
    /// The current record query failed.
    QueryFailed,
    /// The current record query returned its records.
    QueryReturned,
    /// The resolver pool has nothing queued or in flight.
    Drained,
}

/// What the driver should do next.
#[derive(Clone, Copy, Debug, PartialEq, Eq, Structural)]
pub enum Action {
    /// Query the records of this layout.
    Query(LayoutVariant),
    /// Wait this many seconds, then query this layout again.
    RetryAfter(u64, LayoutVariant),
    /// Resolve every record discovered.
    Resolve,
    /// Write the report.
    Finish,
    /// Stop without a report.
    Abort,
    /// The event does not apply here; nothing changes.
    Ignore,
}

/// One more failed attempt, without wrapping.
pub open spec fn bump(attempts: u32) -> u32 {
    if attempts < u32::MAX {
        (attempts + 1) as u32
    } else {
        attempts
    }
}

/// The next stage and action after `e` in stage `s`, failed queries being
/// retried as `policy` decides.
pub open spec fn transition(policy: RetryPolicy, s: Stage, e: Event) -> (Stage, Action) {
    let n = all_variants().len();
    match (s, e) {
        (Stage::Start, Event::NameResolved) => (
            Stage::Discovering(0, 0),
            Action::Query(all_variants()[0]),
        ),
        (Stage::Discovering(i, a), Event::QueryFailed) if i < n => match decision(
            policy,
            bump(a),
        ) {
            RetryDecision::RetryAfter(d) => (
                Stage::Discovering(i, bump(a)),
                Action::RetryAfter(d, all_variants()[i as int]),
            ),
            RetryDecision::GiveUp => (Stage::Abandoned, Action::Abort),
        },
        (Stage::Discovering(i, a), Event::QueryReturned) if i + 1 < n => (
            Stage::Discovering((i + 1) as usize, 0),
            Action::Query(all_variants()[i + 1]),
        ),
        (Stage::Discovering(i, a), Event::QueryReturned) if i + 1 == n => (
            Stage::Resolving,
            Action::Resolve,
        ),
        (Stage::Resolving, Event::Drained) => (Stage::Finalized, Action::Finish),
        _ => (s, Action::Ignore),
    }
}

/// How far a run has come: stages only move forward.
pub open spec fn progress(s: Stage) -> nat {
    match s {
        Stage::Start => 0,
        Stage::Discovering(i, _) => (1 + i) as nat,
        Stage::Resolving => 1 + all_variants().len(),
        Stage::Finalized => 2 + all_variants().len(),
        Stage::Abandoned => 2 + all_variants().len(),
    }
}

/// The move of a run on an event.
pub fn advance(policy: &RetryPolicy, s: Stage, e: Event) -> (r: (Stage, Action))
    ensures
        r == transition(*policy, s, e),
{
    let variants = LayoutVariant::all();
    let n = variants.len();
    match (s, e) {
        (Stage::Start, Event::NameResolved) => (Stage::Discovering(0, 0), Action::Query(variants[0])),
        (Stage::Discovering(i, a), Event::QueryFailed) => {
            if i < n {
                let attempts = if a < u32::MAX {
                    a + 1
                } else {
                    a
                };
                match policy.after_failure(attempts) {
                    RetryDecision::RetryAfter(d) => (
                        Stage::Discovering(i, attempts),
                        Action::RetryAfter(d, variants[i]),
                    ),
                    RetryDecision::GiveUp => (Stage::Abandoned, Action::Abort),
                }
            } else {
                (s, Action::Ignore)
            }
        },
        (Stage::Discovering(i, _), Event::QueryReturned) => {
            if i < n && i + 1 < n {
                (Stage::Discovering(i + 1, 0), Action::Query(variants[i + 1]))
            } else if i < n && i + 1 == n {
                (Stage::Resolving, Action::Resolve)
            } else {
                (s, Action::Ignore)
            }
        },
        (Stage::Resolving, Event::Drained) => (Stage::Finalized, Action::Finish),
        _ => (s, Action::Ignore),
    }
}

/// A run never moves back; under a policy without an attempt cap a failed
/// query keeps it on the same layout; it is finalized only from resolving,
/// which it reaches only once the last layout's query has returned.
pub proof fn lemma_run_moves_forward(policy: RetryPolicy, s: Stage, e: Event)
    ensures
        progress(transition(policy, s, e).0) >= progress(s),
        policy.max_attempts is None && e == Event::QueryFailed && s is Discovering
            && s->Discovering_0 < all_variants().len() ==> transition(policy, s, e).0
            == Stage::Discovering(s->Discovering_0, bump(s->Discovering_1)),
        transition(policy, s, e).0 == Stage::Finalized ==> s == Stage::Finalized || (s
            == Stage::Resolving && e == Event::Drained),
        transition(policy, s, e).0 == Stage::Resolving && s != Stage::Resolving ==> s
            is Discovering && s->Discovering_0 == all_variants().len() - 1 && e
            == Event::QueryReturned,
{
}

} // verus!
