//! What protecting a dirty document means: how its state moves as it is edited,
//! checkpointed and retired.

use crate::checkpoint::{
    CheckpointOutcome, CheckpointResult, DocumentFacts, DocumentRecoveryState, DueVerdict,
    RecoveryAttempt,
};
use crate::effect::{
    AttemptId, AttemptTiming, CheckpointError, Effect, Instant, Notice, ScheduleStep, TokenId,
};
use crate::scope::{DocumentId, RecoveryKey};
use vstd::prelude::*;

verus! {

/// The protection of each dirty document.
pub type States = Map<DocumentId, DocumentRecoveryState>;

/// Whether two attempts are the same one, whatever has happened to its flag.
pub open spec fn same_attempt(a: RecoveryAttempt, b: RecoveryAttempt) -> bool {
    a.id == b.id && a.token == b.token && a.revision == b.revision && a.timing == b.timing
}

/// Whether some document is not protected.
pub open spec fn unprotected(states: States) -> bool {
    exists|id: DocumentId| #[trigger] states.contains_key(id) && states[id].protection_warning
}

/// Whether a document whose text does not fit is known to be unprotected, and
/// nothing is under way for it.
pub open spec fn warned_if_suppressed(state: DocumentRecoveryState) -> bool {
    state.suppressed_oversized_revision == Some(state.revision) ==> state.protection_warning
        && state.in_flight is None
}

/// Whether every document whose text does not fit is known to be unprotected.
pub open spec fn all_warned(states: States) -> bool {
    forall|id: DocumentId| #[trigger] states.contains_key(id) ==> warned_if_suppressed(states[id])
}

/// The state of a document that has not been seen before, or not under `key`.
pub open spec fn fresh_state(key: RecoveryKey, revision: u64) -> DocumentRecoveryState {
    DocumentRecoveryState {
        key,
        revision,
        suppressed_oversized_revision: None,
        token: None,
        in_flight: None,
        deadline_reported: false,
        protection_warning: false,
    }
}

/// `state` with the flag of its attempt, if it has one, raised.
pub open spec fn flagged(state: DocumentRecoveryState) -> DocumentRecoveryState {
    match state.in_flight {
        Some(attempt) => DocumentRecoveryState {
            in_flight: Some(RecoveryAttempt { cancelled: true, ..attempt }),
            ..state
        },
        None => state,
    }
}

/// Raises the flag of the attempt of `state`, if it has one.
pub open spec fn cancellation(state: DocumentRecoveryState) -> Seq<Effect> {
    match state.in_flight {
        Some(attempt) => seq![Effect::CancelAttempt { attempt: attempt.id }],
        None => Seq::empty(),
    }
}

/// The state that protects `revision` under `key`, where `before` protected the
/// document until now.
pub open spec fn tracked_state(
    before: Option<DocumentRecoveryState>,
    key: RecoveryKey,
    revision: u64,
) -> DocumentRecoveryState {
    match before {
        None => fresh_state(key, revision),
        Some(state) => if state.key != key {
            fresh_state(key, revision)
        } else if state.revision != revision {
            DocumentRecoveryState {
                revision,
                suppressed_oversized_revision: None,
                ..flagged(state)
            }
        } else {
            state
        },
    }
}

/// Moves the schedule of `document`.
pub open spec fn moved(document: DocumentId, step: ScheduleStep) -> Seq<Effect> {
    seq![Effect::Schedule { document, step }]
}

/// What arming recovery asks of the host.
pub open spec fn arming_effects(
    before: Option<DocumentRecoveryState>,
    document: DocumentId,
    key: RecoveryKey,
    revision: u64,
    now: Instant,
    store_ready: bool,
) -> Seq<Effect> {
    let activation = if store_ready {
        seq![Effect::ActivateToken { document, key }]
    } else {
        Seq::empty()
    };
    let dirty = moved(document, ScheduleStep::MarkDirty { now });
    let reset = moved(document, ScheduleStep::Reset);
    let steps = match before {
        None => reset + dirty + activation,
        Some(state) => if state.key != key {
            cancellation(state) + seq![
                Effect::Invalidate { key: state.key, document: Some(document) },
            ] + activation + reset + dirty
        } else {
            (if state.revision != revision {
                cancellation(state) + (if state.suppressed_oversized_revision is Some {
                    reset
                } else {
                    Seq::empty()
                })
            } else {
                Seq::empty()
            }) + (if state.token is None {
                activation
            } else {
                Seq::empty()
            }) + dirty
        },
    };
    steps.push(Effect::RescheduleTimer)
}

/// Whether the attempt of `state` has run out of time and nobody has said so.
pub open spec fn overdue(state: DocumentRecoveryState, now: Instant) -> bool {
    state.in_flight matches Some(attempt) && now >= attempt.timing.durable_complete_by
        && !state.deadline_reported
}

/// A dirty document's state once a pass has looked at it.
pub open spec fn visited_state(
    before: Option<DocumentRecoveryState>,
    facts: DocumentFacts,
    now: Instant,
) -> DocumentRecoveryState {
    let state = tracked_state(before, facts.key, facts.revision);
    if overdue(state, now) {
        DocumentRecoveryState { deadline_reported: true, protection_warning: true, ..flagged(state) }
    } else {
        state
    }
}

/// What looking at a dirty document asks of the host.
pub open spec fn visit_effects(
    before: Option<DocumentRecoveryState>,
    facts: DocumentFacts,
    now: Instant,
) -> Seq<Effect> {
    let document = facts.id;
    let activation = seq![Effect::ActivateToken { document, key: facts.key }];
    let dirty = moved(document, ScheduleStep::MarkDirty { now });
    let reset = moved(document, ScheduleStep::Reset);
    let following = match before {
        None => reset + dirty + activation,
        Some(state) => if state.key != facts.key {
            cancellation(state) + seq![
                Effect::Invalidate { key: state.key, document: Some(document) },
            ] + activation + reset + dirty
        } else if state.revision != facts.revision {
            cancellation(state) + (if state.suppressed_oversized_revision is Some {
                reset
            } else {
                Seq::empty()
            }) + dirty
        } else {
            Seq::empty()
        },
    };
    let state = tracked_state(before, facts.key, facts.revision);
    if overdue(state, now) {
        following + cancellation(state) + moved(
            document,
            ScheduleStep::DeadlineMissed { timing: state.in_flight->0.timing, now },
        )
    } else {
        following
    }
}

/// The verdict on a dirty document, where its schedule says `due` and the store
/// admits texts of up to `ceiling` bytes.
pub open spec fn due_verdict(
    state: DocumentRecoveryState,
    facts: DocumentFacts,
    due: bool,
    worker_active: bool,
    ceiling: u64,
) -> DueVerdict {
    if state.in_flight is Some || !due {
        DueVerdict::Nothing
    } else if state.suppressed_oversized_revision == Some(facts.revision) {
        DueVerdict::Suppressed
    } else if worker_active {
        DueVerdict::WorkerBusy
    } else if facts.text_bytes > ceiling {
        DueVerdict::TooLarge
    } else {
        DueVerdict::Dispatch
    }
}

/// A document's state after its verdict.
pub open spec fn judged_state(
    state: DocumentRecoveryState,
    facts: DocumentFacts,
    verdict: DueVerdict,
) -> DocumentRecoveryState {
    match verdict {
        DueVerdict::WorkerBusy => DocumentRecoveryState {
            deadline_reported: true,
            protection_warning: true,
            ..state
        },
        DueVerdict::TooLarge => DocumentRecoveryState {
            suppressed_oversized_revision: Some(facts.revision),
            protection_warning: true,
            ..state
        },
        _ => state,
    }
}

/// `map` at `id`.
pub open spec fn entry(states: States, id: DocumentId) -> Option<DocumentRecoveryState> {
    if states.contains_key(id) {
        Some(states[id])
    } else {
        None
    }
}

/// `states` once the store has made the record `key` of `document` active.
pub open spec fn activated_states(
    states: States,
    document: DocumentId,
    key: RecoveryKey,
    token: TokenId,
    protection_deferred: bool,
) -> States {
    if states.contains_key(document) && states[document].key == key {
        let state = states[document];
        states.insert(
            document,
            DocumentRecoveryState {
                token: Some(token),
                protection_warning: state.protection_warning || protection_deferred,
                ..state
            },
        )
    } else {
        states
    }
}

/// A document's state once `attempt` is on its way to the store.
pub open spec fn dispatched_state(
    state: DocumentRecoveryState,
    attempt: RecoveryAttempt,
) -> DocumentRecoveryState {
    DocumentRecoveryState {
        token: Some(attempt.token),
        in_flight: Some(attempt),
        deadline_reported: false,
        ..state
    }
}

/// What the last decision on a buffer asks of the host.
pub open spec fn retiring_effects(
    before: Option<DocumentRecoveryState>,
    document: DocumentId,
    fallback: Option<RecoveryKey>,
) -> Seq<Effect> {
    let key = match before {
        Some(state) => Some(state.key),
        None => fallback,
    };
    let stopped = match before {
        Some(state) => cancellation(state),
        None => Seq::empty(),
    }.push(Effect::RescheduleTimer);
    match key {
        Some(key) => stopped.push(Effect::Invalidate { key, document: Some(document) }),
        None => stopped,
    }
}

/// `state` once nothing may be written under `keys` any more.
pub open spec fn grounded(
    state: DocumentRecoveryState,
    keys: Set<RecoveryKey>,
    now: Instant,
) -> DocumentRecoveryState {
    if keys.contains(state.key) {
        DocumentRecoveryState {
            in_flight: None,
            token: None,
            protection_warning: state.protection_warning || (state.in_flight matches Some(attempt)
                && now >= attempt.timing.durable_complete_by),
            ..state
        }
    } else {
        state
    }
}

/// Every state once nothing may be written under `keys` any more.
pub open spec fn grounded_states(states: States, keys: Set<RecoveryKey>, now: Instant) -> States {
    states.map_values(|state: DocumentRecoveryState| grounded(state, keys, now))
}

/// What grounding the documents of `order` asks of the host.
pub open spec fn grounding_effects(
    order: Seq<DocumentId>,
    states: States,
    keys: Set<RecoveryKey>,
    now: Instant,
) -> Seq<Effect>
    decreases order.len(),
{
    if order.len() == 0 {
        Seq::empty()
    } else {
        let document = order.last();
        let state = states[document];
        grounding_effects(order.drop_last(), states, keys, now) + (if keys.contains(state.key) {
            match state.in_flight {
                Some(attempt) => cancellation(state) + moved(
                    document,
                    if now >= attempt.timing.durable_complete_by {
                        ScheduleStep::DeadlineMissed { timing: attempt.timing, now }
                    } else {
                        ScheduleStep::Cancelled { timing: attempt.timing, now }
                    },
                ),
                None => Seq::empty(),
            }
        } else {
            Seq::empty()
        })
    }
}

/// The states that are not kept under any of `keys`.
pub open spec fn without_keys(states: States, keys: Set<RecoveryKey>) -> States {
    states.restrict(
        Set::new(|id: DocumentId| states.contains_key(id) && !keys.contains(states[id].key)),
    )
}

/// Raises the flags of those documents of `order` that are kept under `keys`.
pub open spec fn cancellations(
    order: Seq<DocumentId>,
    states: States,
    keys: Set<RecoveryKey>,
) -> Seq<Effect>
    decreases order.len(),
{
    if order.len() == 0 {
        Seq::empty()
    } else {
        let state = states[order.last()];
        cancellations(order.drop_last(), states, keys) + (if keys.contains(state.key) {
            cancellation(state)
        } else {
            Seq::empty()
        })
    }
}

/// The attempt that a pass sends on its way.
pub open spec fn launched(
    facts: DocumentFacts,
    token: TokenId,
    timing: AttemptTiming,
    attempt: AttemptId,
) -> RecoveryAttempt {
    RecoveryAttempt { id: attempt, token, revision: facts.revision, timing, cancelled: false }
}

/// Whether `result` belongs to an attempt that is still in flight.
pub open spec fn attempt_is_current(states: States, result: CheckpointResult) -> bool {
    states.contains_key(result.document) && (states[result.document].in_flight matches Some(attempt)
        && same_attempt(attempt, result.attempt))
}

/// Whether the store refused a checkpoint because of its size.
pub open spec fn is_oversized(outcome: CheckpointOutcome) -> bool {
    outcome matches CheckpointOutcome::Failed { error } && error is Oversized
}

/// A document's state once its attempt `current` has come back.
pub open spec fn settled_state(
    state: DocumentRecoveryState,
    current: RecoveryAttempt,
    outcome: CheckpointOutcome,
    returned_at: Instant,
) -> DocumentRecoveryState {
    let landed = DocumentRecoveryState { in_flight: None, deadline_reported: false, ..state };
    if state.revision == current.revision && is_oversized(outcome) {
        DocumentRecoveryState {
            suppressed_oversized_revision: Some(current.revision),
            protection_warning: true,
            ..landed
        }
    } else if returned_at > current.timing.durable_complete_by {
        DocumentRecoveryState { protection_warning: true, ..landed }
    } else {
        match outcome {
            CheckpointOutcome::Written => DocumentRecoveryState {
                protection_warning: state.protection_warning && state.revision != current.revision,
                ..landed
            },
            CheckpointOutcome::Superseded => landed,
            _ => DocumentRecoveryState {
                protection_warning: state.protection_warning || !state.deadline_reported,
                ..landed
            },
        }
    }
}

/// How a document's schedule moves once its attempt `current` has come back.
pub open spec fn settled_schedule(
    state: DocumentRecoveryState,
    current: RecoveryAttempt,
    outcome: CheckpointOutcome,
    returned_at: Instant,
) -> Option<ScheduleStep> {
    let timing = current.timing;
    if state.revision == current.revision && is_oversized(outcome) {
        None
    } else if state.deadline_reported {
        if returned_at <= timing.durable_complete_by && outcome is Written && state.revision
            == current.revision {
            Some(ScheduleStep::MarkDurableBaseline { at: timing.snapshot_at })
        } else {
            None
        }
    } else if returned_at > timing.durable_complete_by {
        Some(ScheduleStep::DeadlineMissed { timing, now: returned_at })
    } else {
        match outcome {
            CheckpointOutcome::Written => Some(ScheduleStep::Written { timing }),
            CheckpointOutcome::Superseded => Some(
                if current.cancelled {
                    ScheduleStep::Cancelled { timing, now: returned_at }
                } else {
                    ScheduleStep::Superseded { timing }
                },
            ),
            _ => Some(ScheduleStep::Failed { timing, now: returned_at }),
        }
    }
}

/// `states` after one result.
pub open spec fn settled_once(
    states: States,
    result: CheckpointResult,
    returned_at: Instant,
) -> States {
    if attempt_is_current(states, result) {
        let state = states[result.document];
        states.insert(
            result.document,
            settled_state(state, state.in_flight->0, result.outcome, returned_at),
        )
    } else {
        states
    }
}

/// What one result asks of the host.
pub open spec fn settling_step(
    states: States,
    result: CheckpointResult,
    returned_at: Instant,
) -> Seq<Effect> {
    if attempt_is_current(states, result) {
        let state = states[result.document];
        match settled_schedule(state, state.in_flight->0, result.outcome, returned_at) {
            Some(step) => moved(result.document, step),
            None => Seq::empty(),
        }
    } else {
        Seq::empty()
    }
}

/// `states` after every result, in order.
pub open spec fn settled_states(
    states: States,
    results: Seq<CheckpointResult>,
    returned_at: Instant,
) -> States
    decreases results.len(),
{
    if results.len() == 0 {
        states
    } else {
        settled_once(
            settled_states(states, results.drop_last(), returned_at),
            results.last(),
            returned_at,
        )
    }
}

/// What the results ask of the host, in order.
pub open spec fn settling_effects(
    states: States,
    results: Seq<CheckpointResult>,
    returned_at: Instant,
) -> Seq<Effect>
    decreases results.len(),
{
    if results.len() == 0 {
        Seq::empty()
    } else {
        settling_effects(states, results.drop_last(), returned_at) + settling_step(
            settled_states(states, results.drop_last(), returned_at),
            results.last(),
            returned_at,
        )
    }
}

/// The last error of an attempt that was still in flight.
pub open spec fn last_error(
    states: States,
    results: Seq<CheckpointResult>,
    returned_at: Instant,
) -> Option<CheckpointError>
    decreases results.len(),
{
    if results.len() == 0 {
        None
    } else {
        let earlier = settled_states(states, results.drop_last(), returned_at);
        match (results.last().outcome, attempt_is_current(earlier, results.last())) {
            (CheckpointOutcome::Failed { error }, true) => Some(error),
            _ => last_error(states, results.drop_last(), returned_at),
        }
    }
}

/// The status line for a finished batch, if it has anything to say.
pub open spec fn batch_report(issues: u64, error: Option<CheckpointError>) -> Seq<Effect> {
    if issues > 0 || error is Some {
        seq![Effect::Report { notice: Notice::CheckpointBatch { issues, error } }]
    } else {
        Seq::empty()
    }
}

/// When a document has to be looked at, where `next` is the next deadline of
/// its schedule: at the end of a running attempt's time, or when a checkpoint
/// falls due; never again for a deadline already reported, for a revision that
/// does not fit, or where there is neither a store nor anything left to say.
pub open spec fn waking(
    state: DocumentRecoveryState,
    store_ready: bool,
    worker_active: bool,
    next: Option<Instant>,
) -> Option<Instant> {
    if state.suppressed_oversized_revision == Some(state.revision) {
        None
    } else {
        match state.in_flight {
            Some(attempt) => if state.deadline_reported {
                None
            } else {
                Some(attempt.timing.durable_complete_by)
            },
            None => if worker_active && state.deadline_reported {
                None
            } else if store_ready || !state.protection_warning {
                next
            } else {
                None
            },
        }
    }
}

/// The time from `now` to `deadline`; none if it has passed.
pub open spec fn time_until(deadline: Instant, now: Instant) -> int {
    if deadline > now {
        deadline - now
    } else {
        0
    }
}

} // verus!
