//! What protecting a dirty document promises, whatever its state.

use crate::checkpoint::{
    CheckpointOutcome, CheckpointResult, DocumentFacts, DocumentRecoveryState, DueVerdict,
    RecoveryAttempt,
};
use crate::effect::{
    AttemptId, AttemptTiming, CheckpointError, Effect, Instant, Notice, ScheduleStep, TokenId,
};
use crate::protection::{
    activated_states, arming_effects, attempt_is_current, batch_report, cancellation,
    cancellations, dispatched_state, due_verdict, grounded, grounding_effects, judged_state,
    last_error, launched, overdue, retiring_effects, same_attempt, settled_once, settled_schedule,
    settled_state, settled_states, settling_effects, settling_step, time_until, tracked_state,
    unprotected, visit_effects, visited_state, waking, States,
};
use crate::requests::{group_requests, in_order, lemma_in_order, lemma_times_contains, times};
use crate::scope::{lemma_push_contains, DocumentId, RecoveryKey};
use vstd::prelude::*;

verus! {

broadcast use group_requests;

/// Every edit gets a deadline. Whatever protected the document until now, its
/// schedule is told exactly once that the text is dirty, after any fresh start;
/// no other document's schedule is touched, and the wake-up is looked at again
/// when all of that is done.
#[verifier::spinoff_prover]
#[verifier::rlimit(60)]
pub proof fn law_every_edit_gets_a_deadline(
    before: Option<DocumentRecoveryState>,
    document: DocumentId,
    key: RecoveryKey,
    revision: u64,
    now: Instant,
    store_ready: bool,
)
    ensures
        ({
            let effects = arming_effects(before, document, key, revision, now, store_ready);
            let dirty = Effect::Schedule { document, step: ScheduleStep::MarkDirty { now } };
            let fresh = Effect::Schedule { document, step: ScheduleStep::Reset };
            &&& times(effects, dirty) == 1
            &&& times(effects, fresh) <= 1
            &&& in_order(effects, fresh, dirty)
            &&& forall|other: DocumentId, step: ScheduleStep| #[trigger]
                effects.contains(Effect::Schedule { document: other, step }) ==> other == document
                    && (step is Reset || step == (ScheduleStep::MarkDirty { now }))
            &&& times(effects, Effect::RescheduleTimer) == 1
            &&& effects.last() == Effect::RescheduleTimer
        }),
{
    lemma_dirty_after_reset(before, document, key, revision, now, store_ready);
    lemma_only_its_own_schedule(before, document, key, revision, now, store_ready);
    let effects = arming_effects(before, document, key, revision, now, store_ready);
    let steps = effects.drop_last();
    assert(effects =~= steps.push(Effect::RescheduleTimer));
    let dirty = Effect::Schedule { document, step: ScheduleStep::MarkDirty { now } };
    let fresh = Effect::Schedule { document, step: ScheduleStep::Reset };
    assert(times(effects, dirty) == 1);
    assert(times(effects, fresh) <= 1);
    assert(times(effects, Effect::RescheduleTimer) == 1);
}

proof fn lemma_only_its_own_schedule(
    before: Option<DocumentRecoveryState>,
    document: DocumentId,
    key: RecoveryKey,
    revision: u64,
    now: Instant,
    store_ready: bool,
)
    ensures
        forall|other: DocumentId, step: ScheduleStep| #[trigger]
            arming_effects(before, document, key, revision, now, store_ready).contains(
                Effect::Schedule { document: other, step },
            ) ==> other == document && (step is Reset || step == (ScheduleStep::MarkDirty { now })),
{
}

#[verifier::spinoff_prover]
#[verifier::rlimit(60)]
proof fn lemma_dirty_after_reset(
    before: Option<DocumentRecoveryState>,
    document: DocumentId,
    key: RecoveryKey,
    revision: u64,
    now: Instant,
    store_ready: bool,
)
    ensures
        in_order(
            arming_effects(before, document, key, revision, now, store_ready),
            Effect::Schedule { document, step: ScheduleStep::Reset },
            Effect::Schedule { document, step: ScheduleStep::MarkDirty { now } },
        ),
{
    let effects = arming_effects(before, document, key, revision, now, store_ready);
    let dirty = Effect::Schedule { document, step: ScheduleStep::MarkDirty { now } };
    let fresh = Effect::Schedule { document, step: ScheduleStep::Reset };
    let back = if before is None && store_ready {
        seq![dirty, Effect::ActivateToken { document, key }, Effect::RescheduleTimer]
    } else {
        seq![dirty, Effect::RescheduleTimer]
    };
    let front = effects.take(effects.len() - back.len());
    assert(effects =~= front + back);
    assert(!back.contains(fresh));
    assert(times(effects, dirty) == 1);
    assert(times(front + back, dirty) == times(front, dirty) + times(back, dirty));
    lemma_times_contains(front, dirty);
    lemma_in_order(front, back, fresh, dirty);
}

/// A schedule starts over exactly where the old one says nothing about the text
/// any more: the document is new to recovery, its record is another one, or a
/// revision that did not fit has been edited.
pub proof fn law_a_schedule_starts_over_only_for_a_new_beginning(
    before: Option<DocumentRecoveryState>,
    document: DocumentId,
    key: RecoveryKey,
    revision: u64,
    now: Instant,
    store_ready: bool,
)
    ensures
        arming_effects(before, document, key, revision, now, store_ready).contains(
            Effect::Schedule { document, step: ScheduleStep::Reset },
        ) <==> (match before {
            None => true,
            Some(state) => state.key != key || (state.revision != revision
                && state.suppressed_oversized_revision is Some),
        }),
{
}

/// The store is asked for a token exactly where it is there and the document
/// has none for its record.
pub proof fn law_a_token_is_asked_for_where_there_is_none(
    before: Option<DocumentRecoveryState>,
    document: DocumentId,
    key: RecoveryKey,
    revision: u64,
    now: Instant,
    store_ready: bool,
    other: DocumentId,
    record: RecoveryKey,
)
    ensures
        arming_effects(before, document, key, revision, now, store_ready).contains(
            Effect::ActivateToken { document: other, key: record },
        ) <==> other == document && record == key && store_ready && !(before matches Some(state)
            && state.key == key && state.token is Some),
{
}

/// Arming retires a record exactly where the document has moved to another one,
/// and stops an attempt exactly where the document has moved on from what the
/// attempt writes. It asks for nothing else.
pub proof fn law_arming_clears_away_what_is_out_of_date(
    before: Option<DocumentRecoveryState>,
    document: DocumentId,
    key: RecoveryKey,
    revision: u64,
    now: Instant,
    store_ready: bool,
    record: RecoveryKey,
    scope: Option<DocumentId>,
    attempt: AttemptId,
)
    ensures
        ({
            let effects = arming_effects(before, document, key, revision, now, store_ready);
            &&& effects.contains(Effect::Invalidate { key: record, document: scope }) <==> (
            before matches Some(state) && state.key != key && record == state.key && scope == Some(
                document,
            ))
            &&& effects.contains(Effect::CancelAttempt { attempt }) <==> (
            before matches Some(state) && (state.in_flight matches Some(running) && running.id
                == attempt) && (state.key != key || state.revision != revision))
            &&& forall|effect: Effect| #[trigger]
                effects.contains(effect) ==> effect is Schedule || effect is ActivateToken
                    || effect is Invalidate || effect is CancelAttempt || effect is RescheduleTimer
        }),
{
}

/// An edit keeps what still holds: under the same record the token and the
/// warning stay, and an attempt stays in flight, stopped if the text has moved
/// on. Under another record, or for a document new to recovery, nothing is
/// carried over.
pub proof fn law_an_edit_keeps_what_still_holds(
    before: Option<DocumentRecoveryState>,
    key: RecoveryKey,
    revision: u64,
)
    ensures
        ({
            let after = tracked_state(before, key, revision);
            &&& after.key == key
            &&& after.revision == revision
            &&& match before {
                Some(state) => if state.key == key {
                    &&& after.token == state.token
                    &&& after.protection_warning == state.protection_warning
                    &&& after.deadline_reported == state.deadline_reported
                    &&& after.in_flight is Some == state.in_flight is Some
                    &&& state.in_flight matches Some(old) ==> (after.in_flight matches Some(new)
                        && same_attempt(old, new) && new.cancelled == (old.cancelled
                        || state.revision != revision))
                    &&& after.suppressed_oversized_revision == (if state.revision == revision {
                        state.suppressed_oversized_revision
                    } else {
                        None
                    })
                } else {
                    carries_nothing(after)
                },
                None => carries_nothing(after),
            }
        }),
{
}

/// Whether a state holds nothing but its record and its revision.
pub open spec fn carries_nothing(state: DocumentRecoveryState) -> bool {
    &&& state.token is None
    &&& state.in_flight is None
    &&& state.suppressed_oversized_revision is None
    &&& !state.deadline_reported
    &&& !state.protection_warning
}

/// Whether the text of a document has moved on since `before` was kept for it.
pub open spec fn moved_on(before: Option<DocumentRecoveryState>, facts: DocumentFacts) -> bool {
    match before {
        None => true,
        Some(state) => state.key != facts.key || state.revision != facts.revision,
    }
}

/// A pass that finds new text tells its schedule, exactly once and after any
/// fresh start; a pass that finds nothing new leaves the schedule to its
/// deadline. A document without a schedule for its record gets one, with a
/// token to write under.
#[verifier::spinoff_prover]
#[verifier::rlimit(60)]
pub proof fn law_a_pass_catches_up_with_every_edit(
    before: Option<DocumentRecoveryState>,
    facts: DocumentFacts,
    now: Instant,
)
    ensures
        ({
            let effects = visit_effects(before, facts, now);
            let document = facts.id;
            let dirty = Effect::Schedule { document, step: ScheduleStep::MarkDirty { now } };
            let fresh = Effect::Schedule { document, step: ScheduleStep::Reset };
            let unknown = !(before matches Some(state) && state.key == facts.key);
            &&& times(effects, dirty) == (if moved_on(before, facts) {
                1nat
            } else {
                0
            })
            &&& in_order(effects, fresh, dirty)
            &&& effects.contains(fresh) <==> unknown || (before matches Some(state)
                && state.revision != facts.revision && state.suppressed_oversized_revision is Some)
            &&& forall|other: DocumentId, key: RecoveryKey| #[trigger]
                effects.contains(Effect::ActivateToken { document: other, key }) <==> unknown
                    && other == document && key == facts.key
            &&& forall|other: DocumentId, step: ScheduleStep| #[trigger]
                effects.contains(Effect::Schedule { document: other, step }) ==> other == document
                    && (step is Reset || step == (ScheduleStep::MarkDirty { now })
                    || step is DeadlineMissed)
        }),
{
    lemma_visit_in_order(before, facts, now);
    lemma_visit_schedules(before, facts, now);
}

proof fn lemma_visit_schedules(
    before: Option<DocumentRecoveryState>,
    facts: DocumentFacts,
    now: Instant,
)
    ensures
        forall|other: DocumentId, step: ScheduleStep| #[trigger]
            visit_effects(before, facts, now).contains(
                Effect::Schedule { document: other, step },
            ) ==> other == facts.id && (step is Reset || step == (ScheduleStep::MarkDirty { now })
                || step is DeadlineMissed),
        forall|other: DocumentId, key: RecoveryKey| #[trigger]
            visit_effects(before, facts, now).contains(
                Effect::ActivateToken { document: other, key },
            ) <==> !(before matches Some(state) && state.key == facts.key) && other == facts.id
                && key == facts.key,
{
}

#[verifier::spinoff_prover]
#[verifier::rlimit(60)]
proof fn lemma_visit_in_order(
    before: Option<DocumentRecoveryState>,
    facts: DocumentFacts,
    now: Instant,
)
    ensures
        in_order(
            visit_effects(before, facts, now),
            Effect::Schedule { document: facts.id, step: ScheduleStep::Reset },
            Effect::Schedule { document: facts.id, step: ScheduleStep::MarkDirty { now } },
        ),
        times(
            visit_effects(before, facts, now),
            Effect::Schedule { document: facts.id, step: ScheduleStep::MarkDirty { now } },
        ) == (if moved_on(before, facts) {
            1nat
        } else {
            0
        }),
{
    let effects = visit_effects(before, facts, now);
    let document = facts.id;
    let dirty = Effect::Schedule { document, step: ScheduleStep::MarkDirty { now } };
    let fresh = Effect::Schedule { document, step: ScheduleStep::Reset };
    let state = tracked_state(before, facts.key, facts.revision);
    let late = if overdue(state, now) {
        cancellation(state) + seq![
            Effect::Schedule {
                document,
                step: ScheduleStep::DeadlineMissed { timing: state.in_flight->0.timing, now },
            },
        ]
    } else {
        Seq::empty()
    };
    assert(times(late, dirty) == 0);
    assert(!late.contains(fresh));
    if moved_on(before, facts) {
        let back = if before is None {
            seq![dirty, Effect::ActivateToken { document, key: facts.key }] + late
        } else {
            seq![dirty] + late
        };
        let front = effects.take(effects.len() - back.len());
        assert(effects =~= front + back);
        assert(!back.contains(fresh));
        assert(times(effects, dirty) == 1);
        assert(times(front + back, dirty) == times(front, dirty) + times(back, dirty));
        lemma_times_contains(front, dirty);
        lemma_in_order(front, back, fresh, dirty);
    } else {
        assert(effects =~= late);
        lemma_in_order(Seq::empty(), effects, fresh, dirty);
        assert(Seq::empty() + effects =~= effects);
    }
}

/// A pass stops an attempt exactly where the text has moved on or its time is
/// over, says the latter to the schedule exactly once, and retires a record
/// exactly where the document has moved to another one.
pub proof fn law_a_pass_stops_what_is_late_or_out_of_date(
    before: Option<DocumentRecoveryState>,
    facts: DocumentFacts,
    now: Instant,
    record: RecoveryKey,
    scope: Option<DocumentId>,
    attempt: AttemptId,
)
    ensures
        ({
            let effects = visit_effects(before, facts, now);
            let running = if before matches Some(state) && state.in_flight is Some {
                before->0.in_flight
            } else {
                None
            };
            let late = before matches Some(state) && state.key == facts.key
                && !state.deadline_reported && (state.in_flight matches Some(own) && now
                >= own.timing.durable_complete_by);
            &&& effects.contains(Effect::CancelAttempt { attempt }) <==> (running matches Some(own)
                && own.id == attempt && (moved_on(before, facts) || late))
            &&& effects.contains(Effect::Invalidate { key: record, document: scope }) <==> (
            before matches Some(state) && state.key != facts.key && record == state.key && scope
                == Some(facts.id))
            &&& late ==> times(
                effects,
                Effect::Schedule {
                    document: facts.id,
                    step: ScheduleStep::DeadlineMissed { timing: running->0.timing, now },
                },
            ) == 1
            &&& !late ==> forall|other: DocumentId, step: ScheduleStep| #[trigger]
                effects.contains(Effect::Schedule { document: other, step }) ==> !(step
                    is DeadlineMissed)
            &&& visited_state(before, facts, now).protection_warning == (late || (
            before matches Some(state) && state.key == facts.key && state.protection_warning))
            &&& visited_state(before, facts, now).deadline_reported == (late || (
            before matches Some(state) && state.key == facts.key && state.deadline_reported))
        }),
{
}

/// A due text goes on its way whenever it can: nothing is under way for the
/// document, the worker is idle, and the text fits and is not known not to.
pub proof fn law_a_due_text_is_sent_whenever_it_can_be(
    state: DocumentRecoveryState,
    facts: DocumentFacts,
    due: bool,
    worker_active: bool,
    ceiling: u64,
)
    ensures
        ({
            let verdict = due_verdict(state, facts, due, worker_active, ceiling);
            &&& due && state.in_flight is None && !worker_active && facts.text_bytes <= ceiling
                && state.suppressed_oversized_revision != Some(facts.revision) ==> verdict
                == DueVerdict::Dispatch
            &&& verdict == DueVerdict::Dispatch ==> due && facts.text_bytes <= ceiling
        }),
{
}

/// A due text that cannot go is reported unprotected, unless its document
/// already has an attempt under way or its revision was reported before; a text
/// that is not due is left alone. Judging never touches a document's record,
/// revision, token or attempt.
pub proof fn law_a_due_text_that_cannot_go_is_reported(
    state: DocumentRecoveryState,
    facts: DocumentFacts,
    due: bool,
    worker_active: bool,
    ceiling: u64,
)
    ensures
        ({
            let verdict = due_verdict(state, facts, due, worker_active, ceiling);
            let after = judged_state(state, facts, verdict);
            let stuck = due && state.in_flight is None && (worker_active || facts.text_bytes
                > ceiling) && state.suppressed_oversized_revision != Some(facts.revision);
            &&& after.protection_warning == (state.protection_warning || stuck)
            &&& after.key == state.key
            &&& after.revision == state.revision
            &&& after.token == state.token
            &&& after.in_flight == state.in_flight
            &&& !stuck ==> after == state
            &&& stuck && worker_active ==> after.deadline_reported
                && after.suppressed_oversized_revision == state.suppressed_oversized_revision
            &&& stuck && !worker_active ==> after.suppressed_oversized_revision == Some(
                facts.revision,
            ) && after.deadline_reported == state.deadline_reported
        }),
{
}

/// The last decision on a buffer retires the record that protected it, or the
/// one it is told of where none did; it stops the buffer's attempt and no other,
/// looks at the wake-up again, and asks for nothing else.
pub proof fn law_the_last_decision_retires_the_record(
    before: Option<DocumentRecoveryState>,
    document: DocumentId,
    fallback: Option<RecoveryKey>,
    record: RecoveryKey,
    scope: Option<DocumentId>,
    attempt: AttemptId,
)
    ensures
        ({
            let effects = retiring_effects(before, document, fallback);
            &&& effects.contains(Effect::Invalidate { key: record, document: scope }) <==> scope
                == Some(document) && (match before {
                Some(state) => record == state.key,
                None => fallback == Some(record),
            })
            &&& times(effects, Effect::Invalidate { key: record, document: scope }) <= 1
            &&& effects.contains(Effect::CancelAttempt { attempt }) <==> (
            before matches Some(state) && (state.in_flight matches Some(running) && running.id
                == attempt))
            &&& times(effects, Effect::RescheduleTimer) == 1
            &&& forall|effect: Effect| #[trigger]
                effects.contains(effect) ==> effect is Invalidate || effect is CancelAttempt
                    || effect is RescheduleTimer
        }),
{
}

/// A token reaches the one document that asked for it, if it is still kept under
/// that record. It can raise a warning and never takes one back.
pub proof fn law_a_token_reaches_its_document(
    states: States,
    document: DocumentId,
    key: RecoveryKey,
    token: TokenId,
    protection_deferred: bool,
    other: DocumentId,
)
    ensures
        ({
            let after = activated_states(states, document, key, token, protection_deferred);
            &&& after.contains_key(other) == states.contains_key(other)
            &&& states.contains_key(other) ==> {
                let served = other == document && states[other].key == key;
                &&& served ==> after[other].token == Some(token)
                &&& after[other].protection_warning == (states[other].protection_warning || (served
                    && protection_deferred))
                &&& !served ==> after[other] == states[other]
                &&& after[other].key == states[other].key
                &&& after[other].revision == states[other].revision
                &&& after[other].in_flight == states[other].in_flight
                &&& after[other].deadline_reported == states[other].deadline_reported
                &&& after[other].suppressed_oversized_revision
                    == states[other].suppressed_oversized_revision
            }
        }),
{
}

/// An attempt carries the text, the token and the time it was sent with, and
/// its flag is down; sending it starts a new deadline and says nothing about
/// whether the text is protected.
pub proof fn law_an_attempt_carries_what_it_was_sent_with(
    state: DocumentRecoveryState,
    facts: DocumentFacts,
    token: TokenId,
    timing: AttemptTiming,
    attempt: AttemptId,
)
    ensures
        ({
            let sent = launched(facts, token, timing, attempt);
            let after = dispatched_state(state, sent);
            &&& sent.id == attempt
            &&& sent.token == token
            &&& sent.revision == facts.revision
            &&& sent.timing == timing
            &&& !sent.cancelled
            &&& after.in_flight == Some(sent)
            &&& after.token == Some(token)
            &&& !after.deadline_reported
            &&& after.key == state.key
            &&& after.revision == state.revision
            &&& after.protection_warning == state.protection_warning
            &&& after.suppressed_oversized_revision == state.suppressed_oversized_revision
        }),
{
}

/// However an attempt ends, it is no longer in flight, the next deadline can be
/// reported again, and the document's record, revision and token stay.
pub proof fn law_an_attempt_that_ends_makes_room(
    state: DocumentRecoveryState,
    attempt: RecoveryAttempt,
    outcome: CheckpointOutcome,
    returned_at: Instant,
)
    ensures
        ({
            let after = settled_state(state, attempt, outcome, returned_at);
            &&& after.in_flight is None
            &&& !after.deadline_reported
            &&& after.key == state.key
            &&& after.revision == state.revision
            &&& after.token == state.token
            &&& after.suppressed_oversized_revision == (if state.revision == attempt.revision && (
            outcome matches CheckpointOutcome::Failed { error } && error is Oversized) {
                Some(state.revision)
            } else {
                state.suppressed_oversized_revision
            })
        }),
{
}

/// What an attempt says about protection. In time and of the current text, a
/// write makes it protected. Late, or refused for its size, it leaves the text
/// unprotected whatever came of it. A failure is a warning unless the deadline
/// was one already, and an attempt that made way for another says nothing.
pub proof fn law_an_attempt_says_whether_the_text_is_protected(
    state: DocumentRecoveryState,
    attempt: RecoveryAttempt,
    outcome: CheckpointOutcome,
    returned_at: Instant,
)
    ensures
        ({
            let after = settled_state(state, attempt, outcome, returned_at);
            let current = state.revision == attempt.revision;
            let late = returned_at > attempt.timing.durable_complete_by;
            let too_large = outcome matches CheckpointOutcome::Failed { error } && error
                is Oversized;
            &&& late ==> after.protection_warning
            &&& current && too_large ==> after.protection_warning
            &&& !late && outcome is Written && current ==> !after.protection_warning
            &&& !late && outcome is Written && !current ==> after.protection_warning
                == state.protection_warning
            &&& !late && outcome is Superseded ==> after.protection_warning
                == state.protection_warning
            &&& !late && !(current && too_large) && (outcome is Failed || outcome is Deferred)
                ==> after.protection_warning == (state.protection_warning
                || !state.deadline_reported)
        }),
{
}

/// The schedule hears of every attempt that ends, once. Only a text that does
/// not fit gets no new deadline, and only a deadline already reported is not
/// reported again: what comes back after it counts only if it made the current
/// text durable in time.
pub proof fn law_the_schedule_hears_how_an_attempt_ended(
    state: DocumentRecoveryState,
    attempt: RecoveryAttempt,
    outcome: CheckpointOutcome,
    returned_at: Instant,
)
    ensures
        ({
            let step = settled_schedule(state, attempt, outcome, returned_at);
            let timing = attempt.timing;
            let current = state.revision == attempt.revision;
            let in_time = returned_at <= timing.durable_complete_by;
            let stuck = current && (outcome matches CheckpointOutcome::Failed { error } && error
                is Oversized);
            &&& stuck ==> step is None
            &&& !stuck && !state.deadline_reported && !in_time ==> step == Some(
                ScheduleStep::DeadlineMissed { timing, now: returned_at },
            )
            &&& !stuck && !state.deadline_reported && in_time && outcome is Written ==> step
                == Some(ScheduleStep::Written { timing })
            &&& !stuck && !state.deadline_reported && in_time && outcome is Superseded
                && attempt.cancelled ==> step == Some(
                ScheduleStep::Cancelled { timing, now: returned_at },
            )
            &&& !stuck && !state.deadline_reported && in_time && outcome is Superseded
                && !attempt.cancelled ==> step == Some(ScheduleStep::Superseded { timing })
            &&& !stuck && !state.deadline_reported && in_time && (outcome is Failed || outcome
                is Deferred) ==> step == Some(ScheduleStep::Failed { timing, now: returned_at })
            &&& state.deadline_reported && in_time && outcome is Written && current ==> step
                == Some(ScheduleStep::MarkDurableBaseline { at: timing.snapshot_at })
            &&& state.deadline_reported && !(in_time && outcome is Written && current) ==> step
                is None
        }),
{
}

/// A result belongs to an attempt by the attempt's identity, token, revision and
/// time; that its flag has been raised meanwhile makes no difference.
pub proof fn law_a_result_finds_its_attempt(
    states: States,
    result: CheckpointResult,
    attempt: RecoveryAttempt,
)
    requires
        states.contains_key(result.document),
        states[result.document].in_flight == Some(attempt),
    ensures
        attempt_is_current(states, result) <==> attempt.id == result.attempt.id && attempt.token
            == result.attempt.token && attempt.revision == result.attempt.revision
            && attempt.timing == result.attempt.timing,
{
}

/// A batch moves the schedule of exactly the documents whose attempts it ends,
/// and asks for nothing but that.
pub proof fn law_a_batch_moves_only_schedules_of_its_documents(
    states: States,
    results: Seq<CheckpointResult>,
    returned_at: Instant,
    effect: Effect,
)
    requires
        settling_effects(states, results, returned_at).contains(effect),
    ensures
        effect matches Effect::Schedule { document, step } && exists|i: int|
            0 <= i < results.len() && (#[trigger] results[i]).document == document
                && attempt_is_current(states, results[i]),
    decreases results.len(),
{
    if results.len() > 0 {
        let rest = results.drop_last();
        let last = results.last();
        let earlier = settled_states(states, rest, returned_at);
        if settling_effects(states, rest, returned_at).contains(effect) {
            law_a_batch_moves_only_schedules_of_its_documents(states, rest, returned_at, effect);
            let document = effect->Schedule_document;
            let i = choose|i: int|
                0 <= i < rest.len() && (#[trigger] rest[i]).document == document
                    && attempt_is_current(states, rest[i]);
            assert(results[i] == rest[i]);
        } else {
            assert(settling_step(earlier, last, returned_at).contains(effect));
            lemma_settled_is_older(states, rest, returned_at, last.document);
            assert(attempt_is_current(states, last));
            assert(results[results.len() - 1] == last);
        }
    }
}

/// Settling never puts an attempt in flight: one that is in flight afterwards
/// was in flight before, unchanged.
proof fn lemma_settled_is_older(
    states: States,
    results: Seq<CheckpointResult>,
    returned_at: Instant,
    document: DocumentId,
)
    ensures
        settled_states(states, results, returned_at).dom() == states.dom(),
        states.contains_key(document) && settled_states(
            states,
            results,
            returned_at,
        )[document].in_flight is Some ==> settled_states(states, results, returned_at)[document]
            == states[document],
    decreases results.len(),
{
    if results.len() > 0 {
        let rest = results.drop_last();
        lemma_settled_is_older(states, rest, returned_at, document);
        let earlier = settled_states(states, rest, returned_at);
        assert(settled_once(earlier, results.last(), returned_at).dom() =~= earlier.dom());
    }
}

/// Every attempt that a batch ends and whose schedule has something to hear is
/// heard of.
pub proof fn law_a_batch_tells_the_schedule_of_each_attempt(
    states: States,
    results: Seq<CheckpointResult>,
    returned_at: Instant,
    at: int,
    step: ScheduleStep,
)
    requires
        0 <= at < results.len(),
        attempt_is_current(states, results[at]),
        forall|i: int|
            0 <= i < results.len() && i != at ==> (#[trigger] results[i]).document
                != results[at].document,
        settled_schedule(
            states[results[at].document],
            states[results[at].document].in_flight->0,
            results[at].outcome,
            returned_at,
        ) == Some(step),
    ensures
        settling_effects(states, results, returned_at).contains(
            Effect::Schedule { document: results[at].document, step },
        ),
        settled_states(states, results, returned_at)[results[at].document] == settled_state(
            states[results[at].document],
            states[results[at].document].in_flight->0,
            results[at].outcome,
            returned_at,
        ),
    decreases results.len(),
{
    let rest = results.drop_last();
    let document = results[at].document;
    if at < rest.len() {
        assert(rest[at] == results[at]);
        assert forall|i: int| 0 <= i < rest.len() && i != at implies (#[trigger] rest[i]).document
            != rest[at].document by {
            assert(rest[i] == results[i]);
        }
        law_a_batch_tells_the_schedule_of_each_attempt(states, rest, returned_at, at, step);
        assert(results[results.len() - 1].document != document);
    } else {
        lemma_untouched(states, rest, returned_at, document);
    }
}

proof fn lemma_untouched(
    states: States,
    results: Seq<CheckpointResult>,
    returned_at: Instant,
    document: DocumentId,
)
    requires
        states.contains_key(document),
        forall|i: int| 0 <= i < results.len() ==> (#[trigger] results[i]).document != document,
    ensures
        settled_states(states, results, returned_at).contains_key(document),
        settled_states(states, results, returned_at)[document] == states[document],
    decreases results.len(),
{
    if results.len() > 0 {
        let rest = results.drop_last();
        assert forall|i: int| 0 <= i < rest.len() implies (#[trigger] rest[i]).document
            != document by {
            assert(rest[i] == results[i]);
        }
        lemma_untouched(states, rest, returned_at, document);
        assert(results[results.len() - 1].document != document);
    }
}

/// An error of a batch is told exactly where an attempt in flight has failed,
/// and it is the error of one that did.
pub proof fn law_a_failure_is_told(
    states: States,
    results: Seq<CheckpointResult>,
    returned_at: Instant,
)
    requires
        forall|i: int, j: int|
            #![trigger results[i], results[j]]
            0 <= i < j < results.len() ==> results[i].document != results[j].document,
    ensures
        last_error(states, results, returned_at) is Some <==> exists|i: int|
            0 <= i < results.len() && (#[trigger] results[i]).outcome is Failed
                && attempt_is_current(states, results[i]),
        last_error(states, results, returned_at) matches Some(error) ==> exists|i: int|
            0 <= i < results.len() && (#[trigger] results[i]).outcome == (
            CheckpointOutcome::Failed { error }) && attempt_is_current(states, results[i]),
    decreases results.len(),
{
    if results.len() > 0 {
        let rest = results.drop_last();
        let last = results.last();
        assert forall|i: int, j: int|
            #![trigger rest[i], rest[j]]
            0 <= i < j < rest.len() implies rest[i].document != rest[j].document by {
            assert(rest[i] == results[i] && rest[j] == results[j]);
        }
        law_a_failure_is_told(states, rest, returned_at);
        let earlier = settled_states(states, rest, returned_at);
        assert(results[results.len() - 1] == last);
        assert forall|i: int| 0 <= i < rest.len() implies (#[trigger] rest[i]).document
            != last.document by {
            assert(rest[i] == results[i]);
        }
        assert(attempt_is_current(earlier, last) == attempt_is_current(states, last)) by {
            lemma_settled_is_older(states, rest, returned_at, last.document);
            if states.contains_key(last.document) {
                lemma_untouched(states, rest, returned_at, last.document);
            }
        }
        assert forall|i: int| 0 <= i < rest.len() implies #[trigger] rest[i] == results[i] by {}
        if exists|i: int|
            0 <= i < results.len() && (#[trigger] results[i]).outcome is Failed
                && attempt_is_current(states, results[i]) {
            let i = choose|i: int|
                0 <= i < results.len() && (#[trigger] results[i]).outcome is Failed
                    && attempt_is_current(states, results[i]);
            if i < rest.len() {
                assert(rest[i].outcome is Failed && attempt_is_current(states, rest[i]));
            }
        }
    }
}

/// A batch that went well says nothing; one that met an error or a maintenance
/// issue says so in one line.
pub proof fn law_a_batch_speaks_only_of_trouble(issues: u64, error: Option<CheckpointError>)
    ensures
        batch_report(issues, error).len() == 0 <==> issues == 0 && error is None,
        issues > 0 || error is Some ==> times(
            batch_report(issues, error),
            Effect::Report { notice: Notice::CheckpointBatch { issues, error } },
        ) == 1,
        batch_report(issues, error).len() <= 1,
{
}

/// A running attempt is looked at when its time is over, once; an idle document
/// at its next deadline, as long as there is a store to write to or its user
/// has not been told yet.
pub proof fn law_no_deadline_is_slept_through(
    state: DocumentRecoveryState,
    store_ready: bool,
    worker_active: bool,
    next: Option<Instant>,
)
    requires
        state.suppressed_oversized_revision != Some(state.revision),
    ensures
        ({
            let wake = waking(state, store_ready, worker_active, next);
            &&& state.in_flight matches Some(attempt) ==> wake == (if state.deadline_reported {
                None
            } else {
                Some(attempt.timing.durable_complete_by)
            })
            &&& state.in_flight is None && !(worker_active && state.deadline_reported) && (
            store_ready || !state.protection_warning) ==> wake == next
            &&& state.in_flight is None && worker_active && state.deadline_reported ==> wake is None
            &&& state.in_flight is None && !store_ready && state.protection_warning ==> wake is None
        }),
{
}

/// A wake-up comes when its deadline does, and at once if that has passed.
pub proof fn law_a_wake_up_comes_on_time(deadline: Instant, now: Instant)
    ensures
        0 <= time_until(deadline, now),
        now <= deadline ==> now + time_until(deadline, now) == deadline,
        deadline < now ==> time_until(deadline, now) == 0,
{
}

/// The user is warned as long as one document is not protected, and no longer.
pub proof fn law_one_unprotected_document_is_a_warning(states: States, document: DocumentId)
    ensures
        states.contains_key(document) && states[document].protection_warning ==> unprotected(states),
        (forall|id: DocumentId| #[trigger]
            states.contains_key(id) ==> !states[id].protection_warning) ==> !unprotected(states),
{
}

/// Grounding an attempt tells its schedule whether it was in time, and warns
/// exactly if it was not. Nothing else about the document changes.
pub proof fn law_a_grounded_attempt_counts_as_late_or_cancelled(
    state: DocumentRecoveryState,
    keys: Set<RecoveryKey>,
    now: Instant,
)
    requires
        keys.contains(state.key),
    ensures
        ({
            let after = grounded(state, keys, now);
            let late = state.in_flight matches Some(attempt) && now
                >= attempt.timing.durable_complete_by;
            &&& after.protection_warning == (state.protection_warning || late)
            &&& after.key == state.key
            &&& after.revision == state.revision
            &&& after.deadline_reported == state.deadline_reported
            &&& after.suppressed_oversized_revision == state.suppressed_oversized_revision
        }),
{
}

/// Every schedule whose attempt is grounded hears of it, and no other does.
pub proof fn law_a_grounded_schedule_hears_of_it(
    order: Seq<DocumentId>,
    states: States,
    keys: Set<RecoveryKey>,
    now: Instant,
    document: DocumentId,
    step: ScheduleStep,
)
    ensures
        grounding_effects(order, states, keys, now).contains(Effect::Schedule { document, step })
            <==> order.contains(document) && keys.contains(states[document].key) && (
        states[document].in_flight matches Some(attempt) && step == (if now
            >= attempt.timing.durable_complete_by {
            ScheduleStep::DeadlineMissed { timing: attempt.timing, now }
        } else {
            ScheduleStep::Cancelled { timing: attempt.timing, now }
        })),
    decreases order.len(),
{
    if order.len() > 0 {
        let rest = order.drop_last();
        law_a_grounded_schedule_hears_of_it(rest, states, keys, now, document, step);
        assert(order =~= rest.push(order.last()));
        lemma_push_contains(rest, order.last());
    } else {
        assert(!order.contains(document));
    }
}

/// Forgetting records stops every attempt under them, and no other.
pub proof fn law_forgetting_records_stops_their_attempts(
    order: Seq<DocumentId>,
    states: States,
    keys: Set<RecoveryKey>,
    effect: Effect,
)
    ensures
        cancellations(order, states, keys).contains(effect) <==> exists|i: int|
            0 <= i < order.len() && keys.contains(states[#[trigger] order[i]].key) && (
            states[order[i]].in_flight matches Some(running) && effect == (Effect::CancelAttempt {
                attempt: running.id,
            })),
    decreases order.len(),
{
    if order.len() > 0 {
        let rest = order.drop_last();
        law_forgetting_records_stops_their_attempts(rest, states, keys, effect);
        let stopped = |id: DocumentId|
            keys.contains(states[id].key) && (states[id].in_flight matches Some(running) && effect
                == (Effect::CancelAttempt { attempt: running.id }));
        if exists|i: int| 0 <= i < rest.len() && stopped(#[trigger] rest[i]) {
            let i = choose|i: int| 0 <= i < rest.len() && stopped(#[trigger] rest[i]);
            assert(stopped(order[i]));
        }
        if exists|i: int| 0 <= i < order.len() && stopped(#[trigger] order[i]) {
            let i = choose|i: int| 0 <= i < order.len() && stopped(#[trigger] order[i]);
            if i < rest.len() {
                assert(stopped(rest[i]));
            }
        }
        assert(order[order.len() - 1] == order.last());
    }
}

} // verus!
