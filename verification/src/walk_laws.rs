//! What a walk from a destructive request to its end promises: nothing that was
//! decided is forgotten, and nothing is taken away early.

use crate::destructive::{
    asked_again, called_off, discarded, entered, resumed, retired, scanned, with_batch, DiscardStep,
};
use crate::effect::{
    BatchId, DestructiveAction, Effect, Instant, Notice, ScheduleStep, TextId, TicketId,
};
use crate::lifecycle::{clearance, demanded, Lifecycle, Next, RequestId, Resolution, Stage, Step};
use crate::requests::{group_requests, lemma_times_contains, times};
use crate::retirement::{
    began_effects, queued_invalidations, Completion, RetirementRequest, Retirements,
};
use crate::scope::{
    law_scope_is_unanimous, lemma_listed_keys, lemma_push_contains, named, DocumentId, RecoveryKey,
    ScopedKey, Scopes,
};
use vstd::prelude::*;

verus! {

broadcast use group_requests;

/// Entering a decision drops nothing that was decided before: as long as the
/// walk goes on, the records handled so far come first, and the current one
/// joins them. The walk itself goes on with the next question or with the final
/// scan, and never straight to its action.
pub proof fn law_a_decision_drops_no_record(
    before: &Lifecycle,
    after: &Lifecycle,
    request: RequestId,
    current: Option<ScopedKey>,
    resolution: Resolution,
    stage: Stage,
    next: Next,
)
    requires
        entered(before, after, request, current, resolution, stage, next),
        resolution is Prompt || resolution is Proceed,
    ensures
        before.interlock.handled@.is_prefix_of(after.interlock.handled@),
        after.interlock.handled@.len() == before.interlock.handled@.len() + (if current is Some {
            1int
        } else {
            0
        }),
        current matches Some(entry) ==> after.interlock.handled@.contains(entry),
        resolution is Prompt ==> next == (Next::Prompt { request }) && after.interlock.pending
            == Some(request),
        resolution is Proceed ==> (next matches Next::Revalidate { request: walk, keys, stage: why }
            && walk == request && keys@.len() == 0 && why == stage),
{
}

/// One decision of a walk.
pub struct Decision {
    pub request: RequestId,
    /// The record of the document that was decided, if it has one.
    pub entry: Option<ScopedKey>,
    pub resolution: Resolution,
    pub stage: Stage,
    pub next: Next,
}

/// Over a whole walk that is neither cancelled nor fails, the record of every
/// document that was decided is handed to the end of the walk, together with
/// whatever the walk had handled before.
pub proof fn law_a_walk_hands_over_every_decided_record(
    walk: Seq<Lifecycle>,
    decisions: Seq<Decision>,
)
    requires
        walk.len() == decisions.len() + 1,
        forall|i: int|
            0 <= i < decisions.len() ==> {
                let decision = #[trigger] decisions[i];
                &&& decision.resolution is Prompt || decision.resolution is Proceed
                &&& entered(
                    &walk[i],
                    &walk[i + 1],
                    decision.request,
                    decision.entry,
                    decision.resolution,
                    decision.stage,
                    decision.next,
                )
            },
    ensures
        walk[0].interlock.handled@.is_prefix_of(walk.last().interlock.handled@),
        forall|i: int|
            0 <= i < decisions.len() && (#[trigger] decisions[i]).entry is Some
                ==> walk.last().interlock.handled@.contains(decisions[i].entry->0),
    decreases decisions.len(),
{
    if decisions.len() > 0 {
        let shorter = walk.drop_last();
        let rest = decisions.drop_last();
        let last = decisions.last();
        assert forall|i: int| 0 <= i < rest.len() implies {
            let decision = #[trigger] rest[i];
            &&& decision.resolution is Prompt || decision.resolution is Proceed
            &&& entered(
                &shorter[i],
                &shorter[i + 1],
                decision.request,
                decision.entry,
                decision.resolution,
                decision.stage,
                decision.next,
            )
        } by {
            assert(rest[i] == decisions[i]);
        }
        law_a_walk_hands_over_every_decided_record(shorter, rest);
        assert(decisions[decisions.len() - 1] == last);
        let before = shorter.last();
        let after = walk.last();
        law_a_decision_drops_no_record(
            &before,
            &after,
            last.request,
            last.entry,
            last.resolution,
            last.stage,
            last.next,
        );
        assert forall|i: int|
            0 <= i < decisions.len() && (#[trigger] decisions[i]).entry
                is Some implies after.interlock.handled@.contains(decisions[i].entry->0) by {
            if i < rest.len() {
                assert(rest[i] == decisions[i]);
                let entry = decisions[i].entry->0;
                let at = before.interlock.handled@.index_of(entry);
                assert(after.interlock.handled@[at] == entry);
            }
        }
        let first = walk[0].interlock.handled@;
        assert(shorter[0] == walk[0]);
        assert forall|i: int| 0 <= i < first.len() implies first[i]
            == after.interlock.handled@[i] by {
            assert(first[i] == before.interlock.handled@[i]);
        }
        assert(first =~= after.interlock.handled@.take(first.len() as int));
    }
}

/// What an action has to see retired: every record of the walk, and every
/// queued record that the action concerns. The closing of a tab concerns the
/// records of its own document and those of unknown origin; the other actions
/// concern all of them.
pub proof fn law_an_action_demands_every_record_it_concerns(
    pending: Scopes,
    action: DestructiveAction,
    keys: Seq<ScopedKey>,
    key: RecoveryKey,
)
    ensures
        demanded(pending, action, keys).contains_key(key) <==> (exists|i: int|
            0 <= i < keys.len() && (#[trigger] keys[i]).0 == key) || (pending.contains_key(key) && (
        action matches DestructiveAction::CloseTab { document } ==> pending[key] is None
            || pending[key] == Some(document))),
{
    law_scope_is_unanimous(Map::empty(), keys, key, None);
}

/// No record that an action demands is left behind. Unless a retirement of it
/// is already running, it goes into the walk's batch, waits with the walk, or
/// stays queued where there is no store for it; only with every one of them
/// under retirement does the action go ahead.
pub proof fn law_no_demanded_record_is_left_behind(
    before: &Lifecycle,
    after: &Lifecycle,
    request: RequestId,
    action: DestructiveAction,
    keys: Seq<ScopedKey>,
    dirty: Set<RecoveryKey>,
    now: Instant,
    step: Step,
    key: RecoveryKey,
)
    requires
        clearance(before, after, request, action, keys, dirty, now, step),
        demanded(before.retirements.pending@, action, keys).contains_key(key),
        !before.retirements.tickets@.contains_key(key),
        !before.retirements.batches@.contains_key(key),
    ensures
        match step.next {
            Next::BeginRetirements { request: walk, keys: batch } => {
                &&& walk == request
                &&& before.store_ready
                &&& after.retirements.pending@.contains_key(key)
                &&& exists|i: int| 0 <= i < batch@.len() && (#[trigger] batch@[i]).0 == key
            },
            Next::ResumeLater => {
                &&& after.interlock.waiting matches Some(waiting)
                &&& waiting.request == request
                &&& exists|i: int| 0 <= i < waiting.keys@.len() && (#[trigger] waiting.keys@[i]).0
                    == key
            },
            Next::Done => {
                &&& !before.store_ready
                &&& after.retirements.pending@.contains_key(key)
                &&& before.startup_recovery_pending ==> (
                after.interlock.waiting matches Some(waiting) && waiting.request == request
                    && exists|i: int|
                    0 <= i < waiting.keys@.len() && (#[trigger] waiting.keys@[i]).0 == key)
            },
            _ => false,
        },
{
    let wanted = before.demands(action, keys);
    let open = before.retirements.unowned(wanted);
    assert(open.contains_key(key));
    assert(open.dom().contains(key));
    match step.next {
        Next::BeginRetirements { request: walk, keys: batch } => {
            lemma_listed_keys(batch@, open);
        },
        Next::ResumeLater => {
            let waiting = after.interlock.waiting->0;
            if before.retirements.held_up(wanted, dirty) {
                lemma_listed_keys(waiting.keys@, wanted);
            } else {
                lemma_listed_keys(waiting.keys@, open);
            }
        },
        Next::Done => {
            if before.startup_recovery_pending {
                lemma_listed_keys(after.interlock.waiting->0.keys@, open);
            }
        },
        _ => {},
    }
}

/// A walk waits for a reason, and only for a reason: a record it demands is being
/// retired by an older decision, or is to be tried again. With none of that, it
/// goes ahead, begins the missing retirements, or lacks a store for them.
pub proof fn law_a_walk_waits_only_for_a_reason(
    before: &Lifecycle,
    after: &Lifecycle,
    request: RequestId,
    action: DestructiveAction,
    keys: Seq<ScopedKey>,
    dirty: Set<RecoveryKey>,
    now: Instant,
    step: Step,
)
    requires
        clearance(before, after, request, action, keys, dirty, now, step),
    ensures
        step.next is ResumeLater <==> exists|key: RecoveryKey| #[trigger]
            demanded(before.retirements.pending@, action, keys).contains_key(key) && (
            if before.retirements.tickets@.contains_key(key)
                || before.retirements.batches@.contains_key(key) {
                before.retirements.pending@.contains_key(key) || dirty.contains(key)
            } else {
                before.retirements.retries@.contains(key)
            }),
        (forall|key: RecoveryKey| #[trigger]
            demanded(before.retirements.pending@, action, keys).contains_key(key)
                ==> before.retirements.tickets@.contains_key(key)
                || before.retirements.batches@.contains_key(key)) && !(step.next is ResumeLater)
            ==> step.next == (Next::Perform { action }) && step.effects@.len() == 0,
        step.next is ResumeLater ==> after.same_but_interlock(before) && times(
            step.effects@,
            Effect::Report { notice: Notice::WaitingForRecoveryCleanup },
        ) == 1,
        step.next is Done ==> step.effects@.contains(
            Effect::Report {
                notice: if before.startup_recovery_pending {
                    Notice::WaitingForRecoveryStorage
                } else {
                    Notice::RecoveryStorageUnavailable
                },
            },
        ),
{
    let wanted = before.demands(action, keys);
    let open = before.retirements.unowned(wanted);
    assert forall|key: RecoveryKey| #[trigger]
        demanded(before.retirements.pending@, action, keys).contains_key(key) && (
        if before.retirements.tickets@.contains_key(key) || before.retirements.batches@.contains_key(
            key,
        ) {
            before.retirements.pending@.contains_key(key) || dirty.contains(key)
        } else {
            before.retirements.retries@.contains(key)
        }) implies step.next is ResumeLater by {
        assert(wanted.contains_key(key));
        if !before.retirements.is_owned(key) {
            assert(open.contains_key(key));
        }
    }
    if before.retirements.held_up(wanted, dirty) {
        let key = choose|key: RecoveryKey| #[trigger]
            wanted.contains_key(key) && before.retirements.is_owned(key) && (
            before.retirements.pending@.contains_key(key) || dirty.contains(key));
        assert(demanded(before.retirements.pending@, action, keys).contains_key(key));
    } else if before.retirements.awaits_retry(open) {
        let key = choose|key: RecoveryKey| #[trigger]
            open.contains_key(key) && before.retirements.retries@.contains(key);
        assert(demanded(before.retirements.pending@, action, keys).contains_key(key));
    }
    if forall|key: RecoveryKey| #[trigger]
        demanded(before.retirements.pending@, action, keys).contains_key(key)
            ==> before.retirements.tickets@.contains_key(key)
            || before.retirements.batches@.contains_key(key) {
        assert forall|key: RecoveryKey| !open.dom().contains(key) by {
            if open.dom().contains(key) {
                assert(demanded(before.retirements.pending@, action, keys).contains_key(key));
            }
        }
        assert(open.dom() =~= Set::empty());
    }
}

/// Clearing the way for an action touches nothing that the action does not
/// concern: what was queued stays queued, running retirements go on, and the
/// protection of a document under any other record stays as it is.
pub proof fn law_clearing_the_way_touches_only_what_is_demanded(
    before: &Lifecycle,
    after: &Lifecycle,
    request: RequestId,
    action: DestructiveAction,
    keys: Seq<ScopedKey>,
    dirty: Set<RecoveryKey>,
    now: Instant,
    step: Step,
    document: DocumentId,
    record: RecoveryKey,
)
    requires
        clearance(before, after, request, action, keys, dirty, now, step),
    ensures
        before.retirements.pending@.contains_key(record) ==> after.retirements.pending@.contains_key(
            record,
        ),
        after.retirements.pending@.contains_key(record) ==> before.retirements.pending@.contains_key(
            record,
        ) || demanded(before.retirements.pending@, action, keys).contains_key(record),
        after.retirements.tickets == before.retirements.tickets,
        after.retirements.batches == before.retirements.batches,
        after.retirements.retries == before.retirements.retries,
        before.checkpoints.states@.contains_key(document) && !demanded(
            before.retirements.pending@,
            action,
            keys,
        ).contains_key(before.checkpoints.states@[document].key) ==> {
            &&& after.checkpoints.states@.contains_key(document)
            &&& after.checkpoints.states@[document] == before.checkpoints.states@[document]
        },
        !before.checkpoints.states@.contains_key(document)
            ==> !after.checkpoints.states@.contains_key(document),
{
}

/// A walk that begins its retirements, or queues them where there is no store,
/// first stops whatever writes the records they are about: each attempt under
/// one of them is cancelled. Where they begin, the documents stay known but can
/// no longer be written; where there is no store, their protection ends with the
/// decision.
pub proof fn law_clearing_the_way_stops_what_it_retires(
    before: &Lifecycle,
    after: &Lifecycle,
    request: RequestId,
    action: DestructiveAction,
    keys: Seq<ScopedKey>,
    dirty: Set<RecoveryKey>,
    now: Instant,
    step: Step,
    document: DocumentId,
)
    requires
        clearance(before, after, request, action, keys, dirty, now, step),
        step.next is BeginRetirements || step.next is Done,
        before.checkpoints.states@.contains_key(document),
        demanded(before.retirements.pending@, action, keys).contains_key(
            before.checkpoints.states@[document].key,
        ),
        !before.retirements.is_owned(before.checkpoints.states@[document].key),
    ensures
        before.checkpoints.states@[document].in_flight matches Some(attempt)
            ==> step.effects@.contains(Effect::CancelAttempt { attempt: attempt.id }),
        step.next is BeginRetirements ==> {
            &&& after.checkpoints.states@.contains_key(document)
            &&& after.checkpoints.states@[document].in_flight is None
            &&& after.checkpoints.states@[document].token is None
            &&& after.checkpoints.states@[document].revision
                == before.checkpoints.states@[document].revision
            &&& before.checkpoints.states@[document].in_flight matches Some(attempt) ==> {
                let late = now >= attempt.timing.durable_complete_by;
                step.effects@.contains(
                    Effect::Schedule {
                        document,
                        step: if late {
                            ScheduleStep::DeadlineMissed { timing: attempt.timing, now }
                        } else {
                            ScheduleStep::Cancelled { timing: attempt.timing, now }
                        },
                    },
                )
            }
        },
        step.next is Done ==> {
            &&& !after.checkpoints.states@.contains_key(document)
            &&& step.effects@.contains(Effect::RescheduleTimer)
        },
{
    let states = before.checkpoints.states@;
    let open = before.retirements.unowned(before.demands(action, keys));
    let state = states[document];
    assert(open.contains_key(state.key));
    assert(open.dom().contains(state.key));
    if step.next is BeginRetirements {
        let order = choose|order: Seq<DocumentId>|
            crate::scope::enumerates(order, states.dom()) && step.effects@
                == #[trigger] crate::protection::grounding_effects(
                order,
                states,
                open.dom(),
                now,
            );
        assert(order.to_set().contains(document));
        assert(order[order.index_of(document)] == document);
        if let Some(attempt) = state.in_flight {
            crate::laws::law_retiring_stops_exactly_its_attempts(
                order,
                states,
                open.dom(),
                now,
                attempt.id,
            );
            let heard = if now >= attempt.timing.durable_complete_by {
                ScheduleStep::DeadlineMissed { timing: attempt.timing, now }
            } else {
                ScheduleStep::Cancelled { timing: attempt.timing, now }
            };
            crate::recovery_laws::law_a_grounded_schedule_hears_of_it(
                order,
                states,
                open.dom(),
                now,
                document,
                heard,
            );
        }
    } else {
        let told = if before.startup_recovery_pending {
            Notice::WaitingForRecoveryStorage
        } else {
            Notice::RecoveryStorageUnavailable
        };
        let rest = seq![Effect::RescheduleTimer, Effect::Report { notice: told }];
        let order = choose|order: Seq<DocumentId>|
            crate::scope::enumerates(order, states.dom()) && step.effects@
                == #[trigger] crate::protection::cancellations(order, states, open.dom()) + rest;
        assert(order.to_set().contains(document));
        assert(order[order.index_of(document)] == document);
        assert(rest[0] == Effect::RescheduleTimer);
        assert(rest.contains(Effect::RescheduleTimer));
        if let Some(attempt) = state.in_flight {
            crate::recovery_laws::law_forgetting_records_stops_their_attempts(
                order,
                states,
                open.dom(),
                Effect::CancelAttempt { attempt: attempt.id },
            );
        }
    }
}

/// Clearing the way never changes which walk the user is asked about. A walk is
/// left waiting only by one that has to wait itself, or whose retirements need a
/// store that startup has not opened yet.
pub proof fn law_clearing_the_way_keeps_the_question(
    before: &Lifecycle,
    after: &Lifecycle,
    request: RequestId,
    action: DestructiveAction,
    keys: Seq<ScopedKey>,
    dirty: Set<RecoveryKey>,
    now: Instant,
    step: Step,
)
    requires
        clearance(before, after, request, action, keys, dirty, now, step),
    ensures
        after.interlock.pending == before.interlock.pending,
        step.next is Perform || step.next is BeginRetirements || (step.next is Done
            && !before.startup_recovery_pending) ==> after.interlock.waiting
            == before.interlock.waiting,
        step.next is Perform || step.next is BeginRetirements || step.next is ResumeLater
            || step.next is Done,
        after.checkpoints.worker_active == before.checkpoints.worker_active,
        after.checkpoints.timer_generation == before.checkpoints.timer_generation,
{
}

/// The final scan takes every record of the walk to its end. A document that
/// became dirty meanwhile is asked about first, with nothing forgotten; a walk
/// that was called off takes nothing away and retires nothing.
pub proof fn law_the_final_scan_forgets_nothing(
    before: &Lifecycle,
    after: &Lifecycle,
    request: RequestId,
    forget_on_cancel: bool,
    resolution: Resolution,
    dirty: Set<RecoveryKey>,
    now: Instant,
    step: Step,
    at: int,
)
    requires
        scanned(before, after, request, forget_on_cancel, resolution, dirty, now, step),
    ensures
        match resolution {
            Resolution::Prompt => {
                &&& after.interlock.handled == before.interlock.handled
                &&& after.interlock.pending == Some(request)
                &&& after.interlock.waiting == before.interlock.waiting
                &&& step.effects@.len() == 0
                &&& step.next == (Next::Prompt { request })
                &&& after.same_but_interlock(before)
            },
            Resolution::Proceed { action } => {
                let key = before.interlock.handled@[at].0;
                &&& after.interlock.handled@.len() == 0
                &&& clearance(
                    before,
                    after,
                    request,
                    action,
                    before.interlock.handled@,
                    dirty,
                    now,
                    step,
                )
                &&& step.next is Perform ==> step.next == (Next::Perform { action })
                &&& 0 <= at < before.interlock.handled@.len() ==> {
                    &&& demanded(
                        before.retirements.pending@,
                        action,
                        before.interlock.handled@,
                    ).contains_key(key)
                    &&& step.next is Perform ==> before.retirements.is_owned(key)
                }
            },
            _ => {
                &&& step.next is Done
                &&& step.effects@.len() == 0
                &&& after.same_but_interlock(before)
                &&& after.interlock.pending == before.interlock.pending
                &&& after.interlock.waiting == before.interlock.waiting
                &&& forget_on_cancel ==> after.interlock.handled@.len() == 0
                &&& !forget_on_cancel ==> after.interlock.handled == before.interlock.handled
            },
        },
{
    let asked = 0 <= at < before.interlock.handled@.len();
    if resolution is Proceed && asked {
        let action = resolution->Proceed_action;
        let handled = before.interlock.handled@;
        law_an_action_demands_every_record_it_concerns(
            before.retirements.pending@,
            action,
            handled,
            handled[at].0,
        );
        if !before.retirements.is_owned(handled[at].0) {
            law_no_demanded_record_is_left_behind(
                before,
                after,
                request,
                action,
                handled,
                dirty,
                now,
                step,
                handled[at].0,
            );
        }
    }
}

/// A walk that has waited, or whose records are retired, forgets nothing
/// either. If it asks again, its records stay with it and every dirty document
/// is protected again; if it was called off, they are protected again and
/// nothing is taken away.
pub proof fn law_a_walk_that_waited_forgets_nothing(
    before: &Lifecycle,
    after: &Lifecycle,
    request: RequestId,
    keys: Seq<ScopedKey>,
    cleanup_error: Option<TextId>,
    resolution: Resolution,
    dirty: Set<RecoveryKey>,
    now: Instant,
    step: Step,
)
    requires
        resumed(before, after, request, keys, resolution, dirty, now, step) || retired(
            before,
            after,
            request,
            keys,
            cleanup_error,
            resolution,
            step,
        ),
        !(resolution is Proceed),
    ensures
        after.same_but_interlock(before),
        times(step.effects@, Effect::RearmDirtyDocuments) == 1,
        step.effects@.len() == 1,
        resolution is Prompt ==> {
            &&& step.next == (Next::Prompt { request })
            &&& after.interlock.pending == Some(request)
            &&& before.interlock.handled@.is_prefix_of(after.interlock.handled@)
            &&& forall|i: int|
                0 <= i < keys.len() ==> after.interlock.handled@.contains(#[trigger] keys[i])
        },
        !(resolution is Prompt) ==> step.next is Done && *after == *before,
{
    if resolution is Prompt {
        assert(asked_again(before, after, request, keys, step));
        let handled = before.interlock.handled@;
        assert((handled + keys).take(handled.len() as int) =~= handled);
    } else {
        assert(called_off(before, after, step));
    }
}

/// Once its records are retired, a walk carries out its own action. The
/// protection of the documents under those records goes, that of every other
/// document stays, and a cleanup that is not finished is reported.
pub proof fn law_a_retired_walk_carries_out_its_action(
    before: &Lifecycle,
    after: &Lifecycle,
    request: RequestId,
    keys: Seq<ScopedKey>,
    cleanup_error: Option<TextId>,
    action: DestructiveAction,
    step: Step,
    document: DocumentId,
)
    requires
        retired(
            before,
            after,
            request,
            keys,
            cleanup_error,
            Resolution::Proceed { action },
            step,
        ),
    ensures
        step.next == (Next::Perform { action }),
        after.retirements == before.retirements,
        after.interlock == before.interlock,
        after.checkpoints.worker_active == before.checkpoints.worker_active,
        after.checkpoints.timer_generation == before.checkpoints.timer_generation,
        after.checkpoints.warning <==> exists|id: DocumentId| #[trigger]
            after.checkpoints.states@.contains_key(id)
                && after.checkpoints.states@[id].protection_warning,
        after.checkpoints.states@.contains_key(document) <==> before.checkpoints.states@.contains_key(
            document,
        ) && !(exists|i: int|
            0 <= i < keys.len() && (#[trigger] keys[i]).0
                == before.checkpoints.states@[document].key),
        after.checkpoints.states@.contains_key(document) ==> after.checkpoints.states@[document]
            == before.checkpoints.states@[document],
        step.effects@.contains(Effect::RescheduleTimer),
        forall|error: TextId| #[trigger]
            step.effects@.contains(
                Effect::Report { notice: Notice::CheckpointCleanupPending { error } },
            ) <==> cleanup_error == Some(error),
{
    let names = named(keys);
    let states = before.checkpoints.states@;
    let order = choose|order: Seq<DocumentId>|
        crate::scope::enumerates(order, states.dom()) && step.effects@
            == #[trigger] crate::protection::cancellations(order, states, names.to_set()) + seq![
            Effect::RescheduleTimer,
        ] + crate::destructive::cleanup_report(cleanup_error);
    let stops = crate::protection::cancellations(order, states, names.to_set());
    assert forall|error: TextId| !(#[trigger] stops.contains(
        Effect::Report { notice: Notice::CheckpointCleanupPending { error } },
    )) by {
        crate::recovery_laws::law_forgetting_records_stops_their_attempts(
            order,
            states,
            names.to_set(),
            Effect::Report { notice: Notice::CheckpointCleanupPending { error } },
        );
    }
    if states.contains_key(document) {
        let key = states[document].key;
        if exists|i: int| 0 <= i < keys.len() && (#[trigger] keys[i]).0 == key {
            let i = choose|i: int| 0 <= i < keys.len() && (#[trigger] keys[i]).0 == key;
            assert(names[i] == key);
            assert(names.contains(key));
        }
        if names.contains(key) {
            assert(keys[names.index_of(key)].0 == key);
        }
    }
}

/// The records that are asked to be retired once more are exactly those of a
/// list that are queued, each with the document it is queued for.
pub proof fn law_every_queued_record_is_asked_for(
    keys: Seq<RecoveryKey>,
    pending: Scopes,
    effect: Effect,
)
    ensures
        queued_invalidations(keys, pending).contains(effect) <==> (
        effect matches Effect::Invalidate { key, document } && keys.contains(key)
            && pending.contains_key(key) && document == pending[key]),
    decreases keys.len(),
{
    if keys.len() > 0 {
        let rest = keys.drop_last();
        law_every_queued_record_is_asked_for(rest, pending, effect);
        assert(keys =~= rest.push(keys.last()));
        lemma_push_contains(rest, keys.last());
    } else {
        assert(forall|key: RecoveryKey| !keys.contains(key));
    }
}

/// A retirement that has begun is completed, once and without delay, under its
/// own ticket; the queued mates that its batch loses are asked for again.
pub proof fn law_a_retirement_that_began_is_completed(
    request: RetirementRequest,
    ticket: TicketId,
    mates: Seq<RecoveryKey>,
    pending: Scopes,
    effect: Effect,
)
    ensures
        times(
            began_effects(request, ticket, mates, pending),
            Effect::CompleteRetirement {
                key: request.key,
                ticket,
                document: request.document,
                delayed: false,
            },
        ) == 1,
        began_effects(request, ticket, mates, pending).contains(effect) <==> effect == (
        Effect::CompleteRetirement {
            key: request.key,
            ticket,
            document: request.document,
            delayed: false,
        }) || (effect matches Effect::Invalidate { key, document } && mates.contains(key)
            && pending.contains_key(key) && document == pending[key]),
{
    let own = Effect::CompleteRetirement {
        key: request.key,
        ticket,
        document: request.document,
        delayed: false,
    };
    law_every_queued_record_is_asked_for(mates, pending, effect);
    law_every_queued_record_is_asked_for(mates, pending, own);
    lemma_times_contains(queued_invalidations(mates, pending), own);
}

/// A record is retired by at most one batch, and its mates are exactly the
/// records of that batch, itself among them.
pub proof fn law_batch_mates_share_a_batch(
    retirements: &Retirements,
    key: RecoveryKey,
    other: RecoveryKey,
)
    ensures
        retirements.batch_mates(key).contains(other) <==> retirements.batches@.contains_key(key)
            && retirements.batches@.contains_key(other) && retirements.batches@[other]
            == retirements.batches@[key],
        retirements.batches@.contains_key(key) ==> retirements.batch_mates(key).contains(key),
{
}

/// A batch takes over exactly the records it is given.
pub proof fn law_a_batch_takes_over_its_records(
    batches: Map<RecoveryKey, BatchId>,
    keys: Set<RecoveryKey>,
    batch: BatchId,
    key: RecoveryKey,
)
    ensures
        keys.contains(key) ==> with_batch(batches, keys, batch).contains_key(key) && with_batch(
            batches,
            keys,
            batch,
        )[key] == batch,
        !keys.contains(key) ==> with_batch(batches, keys, batch).contains_key(key)
            == batches.contains_key(key) && (batches.contains_key(key) ==> with_batch(
            batches,
            keys,
            batch,
        )[key] == batches[key]),
{
}

/// A batch that comes back never carries the action out by itself. If another
/// owner has taken one of its records, nothing changes and the walk takes the
/// matter up with that owner. If it failed, the walk ends with every dirty
/// document protected again.
pub proof fn law_a_batch_that_comes_back_destroys_nothing(
    before: &Lifecycle,
    after: &Lifecycle,
    keys: Vec<ScopedKey>,
    batch: BatchId,
    completion: Completion,
    step: DiscardStep,
    key: RecoveryKey,
)
    requires
        discarded(before, after, keys, batch, completion, step),
    ensures
        !(step.next is Perform),
        before.interlock.pending is None ==> step.next is Done && after.retirements
            == before.retirements && step.effects@.len() == 0 && !step.retry_batch,
        before.interlock.pending is Some && (exists|i: int|
            0 <= i < keys@.len() && !(before.retirements.batches@.contains_key(
                (#[trigger] keys@[i]).0,
            ) && before.retirements.batches@[keys@[i].0] == batch)) ==> {
            &&& after.retirements == before.retirements
            &&& step.effects@.len() == 0
            &&& !step.retry_batch
            &&& step.next == (Next::Revalidate {
                request: before.interlock.pending->0,
                keys,
                stage: Stage::Resumed,
            })
        },
        before.interlock.pending is Some && (forall|i: int|
            0 <= i < keys@.len() ==> before.retirements.batches@.contains_key(
                (#[trigger] keys@[i]).0,
            ) && before.retirements.batches@[keys@[i].0] == batch) ==> {
            &&& completion is Failed ==> {
                &&& step.next is Done
                &&& step.effects@.contains(Effect::RearmDirtyDocuments)
                &&& step.effects@.contains(
                    Effect::Report {
                        notice: Notice::CouldNotClearCheckpointKeptOpen {
                            error: completion->Failed_error,
                        },
                    },
                )
            }
            &&& completion is Retired ==> step.next == (Next::CheckReplayed {
                request: before.interlock.pending->0,
                keys,
            })
            &&& completion matches Completion::CleanupPending { error } ==> step.next == (
            Next::Revalidate {
                request: before.interlock.pending->0,
                keys,
                stage: Stage::Retired { cleanup_error: Some(error) },
            })
            &&& !(completion is CleanupPending) ==> {
                &&& after.retirements.batches@.contains_key(key)
                    <==> before.retirements.batches@.contains_key(key) && !(exists|i: int|
                    0 <= i < keys@.len() && (#[trigger] keys@[i]).0 == key)
                &&& after.retirements.retries@.contains(key)
                    <==> before.retirements.retries@.contains(key) && !(exists|i: int|
                    0 <= i < keys@.len() && (#[trigger] keys@[i]).0 == key)
                &&& (exists|i: int| 0 <= i < keys@.len() && (#[trigger] keys@[i]).0 == key)
                    && before.retirements.pending@.contains_key(key) ==> step.effects@.contains(
                    Effect::Invalidate { key, document: before.retirements.pending@[key] },
                )
            }
            &&& !(completion is CleanupPending) ==> !step.retry_batch
            &&& completion is CleanupPending ==> {
                &&& after.retirements.batches == before.retirements.batches
                &&& step.effects@.len() == 0
                &&& step.retry_batch <==> before.store_ready && keys@.len() > 0 && forall|i: int|
                    0 <= i < keys@.len() ==> !before.retirements.retries@.contains(
                        (#[trigger] keys@[i]).0,
                    )
                &&& after.retirements.retries@.contains(key)
                    <==> before.retirements.retries@.contains(key) || (step.retry_batch && (
                exists|i: int| 0 <= i < keys@.len() && (#[trigger] keys@[i]).0 == key))
            }
        },
        after.retirements.pending@ == before.retirements.pending@,
        after.retirements.tickets == before.retirements.tickets,
{
    let names = named(keys@);
    assert forall|i: int| 0 <= i < names.len() implies #[trigger] names[i] == keys@[i].0 by {}
    if exists|i: int| 0 <= i < keys@.len() && (#[trigger] keys@[i]).0 == key {
        let i = choose|i: int| 0 <= i < keys@.len() && (#[trigger] keys@[i]).0 == key;
        assert(names[i] == key);
        assert(names.contains(key));
    }
    if names.contains(key) {
        assert(keys@[names.index_of(key)].0 == key);
    }
    if exists|i: int|
        0 <= i < keys@.len() && !(before.retirements.batches@.contains_key((#[trigger] keys@[i]).0)
            && before.retirements.batches@[keys@[i].0] == batch) {
        let i = choose|i: int|
            0 <= i < keys@.len() && !(before.retirements.batches@.contains_key(
                (#[trigger] keys@[i]).0,
            ) && before.retirements.batches@[keys@[i].0] == batch);
        assert(names[i] == keys@[i].0);
        assert(!before.retirements.all_in_batch(names, batch));
    } else {
        assert(before.retirements.all_in_batch(names, batch));
    }
    if before.retirements.retries@.disjoint(names.to_set()) {
        assert forall|i: int| 0 <= i < keys@.len() implies !before.retirements.retries@.contains(
            (#[trigger] keys@[i]).0,
        ) by {
            assert(names[i] == keys@[i].0);
            assert(names.to_set().contains(names[i]));
        }
    } else {
        let held = choose|held: RecoveryKey|
            before.retirements.retries@.contains(held) && names.to_set().contains(held);
        assert(keys@[names.index_of(held)].0 == held);
    }
    if before.retirements.pending@.contains_key(key) {
        law_every_queued_record_is_asked_for(
            names,
            before.retirements.pending@,
            Effect::Invalidate { key, document: before.retirements.pending@[key] },
        );
    }
}

} // verus!
