//! What stays as it is: the parts of the window that an operation leaves alone,
//! spelled out field by field.

use crate::checkpoint::{CheckpointPass, Checkpoints, DocumentFacts, DocumentRecoveryState};
use crate::destructive::revalidates;
use crate::effect::{BatchId, Instant, PathId, TicketId};
use crate::lifecycle::{Interlock, Lifecycle, Next, RequestId, Stage};
use crate::protection::{entry, same_attempt, visited_state, States};
use crate::retirement::Retirements;
use crate::save_as::{same_but_lifecycle, same_but_save_as_keys};
use crate::scope::{enumerates, DocumentId, RecoveryKey, ScopedKey};
use crate::welcome::{first_recent, RecentFacts};
use crate::workspace::Workspace;
use vstd::prelude::*;

verus! {

/// Where only the interlock moves, every record, every document's protection and
/// everything that is known about storage stays.
pub proof fn law_only_the_interlock_moves(before: &Lifecycle, after: &Lifecycle)
    requires
        after.same_but_interlock(before),
    ensures
        after.retirements == before.retirements,
        after.checkpoints == before.checkpoints,
        after.store_ready == before.store_ready,
        after.startup_recovery_pending == before.startup_recovery_pending,
        after.startup_recovery_keys == before.startup_recovery_keys,
        after.save_as_recovery_keys == before.save_as_recovery_keys,
{
}

/// Where only the checkpoints move, every record and every decision stays.
pub proof fn law_only_the_checkpoints_move(before: &Lifecycle, after: &Lifecycle, states: States)
    ensures
        after.same_but_checkpoints(before) ==> {
            &&& after.retirements == before.retirements
            &&& after.interlock == before.interlock
            &&& after.store_ready == before.store_ready
            &&& after.startup_recovery_pending == before.startup_recovery_pending
            &&& after.startup_recovery_keys == before.startup_recovery_keys
            &&& after.save_as_recovery_keys == before.save_as_recovery_keys
        },
        after.protects(before, states) ==> {
            &&& after.checkpoints.states@ == states
            &&& after.checkpoints.worker_active == before.checkpoints.worker_active
            &&& after.checkpoints.timer_generation == before.checkpoints.timer_generation
            &&& after.checkpoints.warning <==> exists|id: DocumentId| #[trigger]
                states.contains_key(id) && states[id].protection_warning
        },
{
}

/// What is known about storage is whether there is any, whether the startup
/// scan is over, and which records documents came with.
pub proof fn law_storage_stays_known(before: &Lifecycle, after: &Lifecycle)
    requires
        after.same_storage(before),
    ensures
        after.store_ready == before.store_ready,
        after.startup_recovery_pending == before.startup_recovery_pending,
        after.startup_recovery_keys == before.startup_recovery_keys,
        after.save_as_recovery_keys == before.save_as_recovery_keys,
{
}

/// A walk never changes how far the closing of the window has come.
pub proof fn law_the_window_stays_as_it_is(before: &Interlock, after: &Interlock)
    requires
        after.same_window(before),
    ensures
        after.window_close_pending == before.window_close_pending,
        after.window_close_ready == before.window_close_ready,
{
}

/// A command that moves one part of the window leaves all others alone.
pub proof fn law_one_part_of_the_window_moves(before: &Workspace, after: &Workspace)
    ensures
        after.same_but_chrome(before) ==> {
            &&& after.lifecycle == before.lifecycle
            &&& after.root == before.root
            &&& after.preview == before.preview
            &&& after.status == before.status
        },
        same_but_lifecycle(before, after) ==> {
            &&& after.chrome == before.chrome
            &&& after.root == before.root
            &&& after.preview == before.preview
            &&& after.status == before.status
        },
        after.same_but_translating(before) ==> {
            &&& after.lifecycle == before.lifecycle
            &&& after.root == before.root
            &&& after.preview == before.preview
            &&& after.status == before.status
            &&& after.chrome.show_welcome == before.chrome.show_welcome
            &&& after.chrome.settings_open == before.chrome.settings_open
            &&& after.chrome.left_panel_open == before.chrome.left_panel_open
            &&& after.chrome.right_panel_open == before.chrome.right_panel_open
            &&& after.chrome.side_panel == before.chrome.side_panel
        },
{
}

/// A Save As that is about to write moves nothing but the record it remembers.
pub proof fn law_a_save_as_moves_only_its_record(before: &Lifecycle, after: &Lifecycle)
    requires
        same_but_save_as_keys(before, after),
    ensures
        after.retirements == before.retirements,
        after.checkpoints == before.checkpoints,
        after.interlock == before.interlock,
        after.store_ready == before.store_ready,
        after.startup_recovery_pending == before.startup_recovery_pending,
        after.startup_recovery_keys == before.startup_recovery_keys,
{
}

/// What every operation keeps: a record has one owner, a walk is asked about or
/// waits but not both, a text that does not fit is known to be unprotected, and
/// there is no store before startup is over nor a startup key after it.
pub proof fn law_what_every_operation_keeps(
    lifecycle: &Lifecycle,
    key: RecoveryKey,
    document: DocumentId,
)
    requires
        lifecycle.well_formed(),
    ensures
        !(lifecycle.retirements.tickets@.contains_key(key)
            && lifecycle.retirements.batches@.contains_key(key)),
        lifecycle.interlock.pending is None || lifecycle.interlock.waiting is None,
        lifecycle.startup_recovery_pending ==> !lifecycle.store_ready,
        !lifecycle.startup_recovery_pending ==> !lifecycle.startup_recovery_keys@.contains_key(
            document,
        ),
        lifecycle.checkpoints.states@.contains_key(document)
            && lifecycle.checkpoints.states@[document].suppressed_oversized_revision == Some(
            lifecycle.checkpoints.states@[document].revision,
        ) ==> lifecycle.checkpoints.states@[document].protection_warning
            && lifecycle.checkpoints.states@[document].in_flight is None,
{
}

/// A window starts with nothing open, nothing decided and nothing retired,
/// before its startup scan.
pub proof fn law_a_window_starts_empty(
    lifecycle: &Lifecycle,
    key: RecoveryKey,
    document: DocumentId,
)
    requires
        lifecycle.is_new(),
    ensures
        !lifecycle.retirements.pending@.contains_key(key),
        !lifecycle.retirements.tickets@.contains_key(key),
        !lifecycle.retirements.batches@.contains_key(key),
        !lifecycle.retirements.retries@.contains(key),
        !lifecycle.checkpoints.states@.contains_key(document),
        !lifecycle.checkpoints.worker_active,
        !lifecycle.checkpoints.warning,
        !lifecycle.is_deciding(),
        lifecycle.interlock.handled@.len() == 0,
        !lifecycle.interlock.window_close_pending,
        !lifecycle.interlock.window_close_ready,
        !lifecycle.store_ready,
        lifecycle.startup_recovery_pending,
        !lifecycle.startup_recovery_keys@.contains_key(document),
        !lifecycle.save_as_recovery_keys@.contains_key(document),
{
}

/// A walk that is validated again is the same walk, carries what it carried, and
/// remembers at which stage it was.
pub proof fn law_a_walk_is_validated_as_it_stands(
    next: Next,
    request: RequestId,
    keys: Seq<ScopedKey>,
    stage: Stage,
)
    requires
        revalidates(next, request, keys, stage),
    ensures
        next matches Next::Revalidate { request: asked, keys: carried, stage: at } && asked
            == request && at == stage && carried@.len() == keys.len() && forall|i: int|
            0 <= i < keys.len() ==> #[trigger] carried@[i] == keys[i],
{
}

/// An action is being decided exactly while the user is asked or a walk waits.
pub proof fn law_an_action_is_decided_while_it_is_asked_or_waits(lifecycle: &Lifecycle)
    ensures
        lifecycle.is_deciding() <==> lifecycle.interlock.pending is Some
            || lifecycle.interlock.waiting is Some,
{
}

/// A record is owned by its ticket or by its batch, a ticket owns its record as
/// long as it is the one that is known, and a batch owns a list of records as
/// long as it owns each of them.
pub proof fn law_a_retirement_has_an_owner(
    retirements: &Retirements,
    key: RecoveryKey,
    ticket: TicketId,
    keys: Seq<RecoveryKey>,
    batch: BatchId,
)
    ensures
        retirements.is_owned(key) <==> retirements.tickets@.contains_key(key)
            || retirements.batches@.contains_key(key),
        retirements.ticket_is_current(key, ticket) <==> retirements.tickets@.contains_pair(
            key,
            ticket,
        ),
        retirements.all_in_batch(keys, batch) <==> forall|other: RecoveryKey|
            keys.contains(other) ==> #[trigger] retirements.batches@.contains_pair(other, batch),
{
    if retirements.all_in_batch(keys, batch) {
        assert forall|other: RecoveryKey|
            keys.contains(other) implies #[trigger] retirements.batches@.contains_pair(
            other,
            batch,
        ) by {
            assert(keys[keys.index_of(other)] == other);
        }
    }
    if forall|other: RecoveryKey|
        keys.contains(other) ==> #[trigger] retirements.batches@.contains_pair(other, batch) {
        assert forall|i: int| 0 <= i < keys.len() implies retirements.batches@.contains_key(
            #[trigger] keys[i],
        ) && retirements.batches@[keys[i]] == batch by {
            assert(keys.contains(keys[i]));
            assert(retirements.batches@.contains_pair(keys[i], batch));
        }
    }
}

/// A walk finds one of its records queued exactly where one is.
pub proof fn law_a_queued_record_is_found(lifecycle: &Lifecycle, keys: Seq<ScopedKey>)
    ensures
        lifecycle.any_queued(keys) <==> exists|entry: ScopedKey| #[trigger]
            keys.contains(entry) && lifecycle.retirements.pending@.contains_key(entry.0),
{
    if lifecycle.any_queued(keys) {
        let i = choose|i: int|
            0 <= i < keys.len() && lifecycle.retirements.pending@.contains_key(
                (#[trigger] keys[i]).0,
            );
        assert(keys.contains(keys[i]));
    }
    if exists|entry: ScopedKey| #[trigger]
        keys.contains(entry) && lifecycle.retirements.pending@.contains_key(entry.0) {
        let entry = choose|entry: ScopedKey| #[trigger]
            keys.contains(entry) && lifecycle.retirements.pending@.contains_key(entry.0);
        assert(keys[keys.index_of(entry)] == entry);
    }
}

/// An enumeration holds each element once, and nothing else.
pub proof fn law_an_enumeration_holds_each_element_once(
    order: Seq<RecoveryKey>,
    keys: Set<RecoveryKey>,
    key: RecoveryKey,
)
    requires
        enumerates(order, keys),
    ensures
        order.contains(key) <==> keys.contains(key),
        forall|i: int, j: int|
            0 <= i < j < order.len() ==> #[trigger] order[i] != #[trigger] order[j],
{
    assert(order.contains(key) <==> order.to_set().contains(key));
}

/// A visit changes nothing about a document's protection but what is late.
pub proof fn law_a_visit_changes_only_what_is_late(
    state: DocumentRecoveryState,
    facts: DocumentFacts,
    now: Instant,
)
    requires
        state.key == facts.key,
    ensures
        ({
            let after = visited_state(Some(state), facts, now);
            &&& after.key == facts.key
            &&& after.revision == facts.revision
            &&& after.token == state.token
            &&& after.in_flight is Some == state.in_flight is Some
            &&& state.in_flight matches Some(attempt) ==> same_attempt(
                attempt,
                after.in_flight->0,
            )
            &&& after.suppressed_oversized_revision == (if state.revision == facts.revision {
                state.suppressed_oversized_revision
            } else {
                None
            })
        }),
{
}

/// A document's entry is its state, if it has one.
pub proof fn law_an_entry_is_a_document_s_state(states: States, document: DocumentId)
    ensures
        states.contains_key(document) ==> entry(states, document) == Some(states[document]),
        !states.contains_key(document) ==> entry(states, document) is None,
{
}

/// A text may go on its way exactly where the worker is idle, its document is
/// protected, nothing is under way for it, and its revision is not known not to
/// fit. While the worker is occupied, a pass has nothing to hand to it.
pub proof fn law_a_text_goes_only_where_there_is_room(
    checkpoints: &Checkpoints,
    pass: &CheckpointPass,
    document: DocumentId,
)
    ensures
        checkpoints.may_dispatch(pass, document) <==> {
            &&& !pass.worker_active
            &&& checkpoints.states@.contains_key(document)
            &&& checkpoints.states@[document].in_flight is None
            &&& checkpoints.states@[document].suppressed_oversized_revision != Some(
                checkpoints.states@[document].revision,
            )
        },
        pass.well_formed() && pass.worker_active ==> pass.due@.len() == 0,
{
}

/// Every protected document with something to look at has a wake-up: a running
/// attempt at the end of its time, an idle document at its next deadline.
pub proof fn law_every_document_is_woken_for(
    checkpoints: &Checkpoints,
    document: DocumentId,
    store_ready: bool,
    deadlines: Map<DocumentId, Instant>,
)
    requires
        checkpoints.states@.contains_key(document),
        checkpoints.states@[document].suppressed_oversized_revision != Some(
            checkpoints.states@[document].revision,
        ),
        !checkpoints.states@[document].deadline_reported,
    ensures
        ({
            let state = checkpoints.states@[document];
            let wake = checkpoints.wakes(document, store_ready, deadlines);
            &&& state.in_flight matches Some(attempt) ==> wake == Some(
                attempt.timing.durable_complete_by,
            )
            &&& state.in_flight is None && (store_ready || !state.protection_warning)
                && deadlines.contains_key(document) ==> wake == Some(deadlines[document])
            &&& state.in_flight is None && !deadlines.contains_key(document) ==> wake is None
        }),
{
}

/// A recent target that is listed is found at its first place.
pub proof fn law_a_recent_target_is_found(recents: Seq<RecentFacts>, path: PathId) -> (at: int)
    requires
        exists|i: int| 0 <= i < recents.len() && (#[trigger] recents[i]).target.path == path,
    ensures
        first_recent(recents, path, at),
        0 <= at < recents.len(),
        recents[at].target.path == path,
        forall|i: int| 0 <= i < at ==> (#[trigger] recents[i]).target.path != path,
    decreases recents.len(),
{
    let rest = recents.drop_last();
    if exists|i: int| 0 <= i < rest.len() && (#[trigger] rest[i]).target.path == path {
        let at = law_a_recent_target_is_found(rest, path);
        assert forall|i: int| 0 <= i < at implies (#[trigger] recents[i]).target.path != path by {
            assert(rest[i] == recents[i]);
        }
        assert(recents[at] == rest[at]);
        at
    } else {
        let at = recents.len() - 1;
        let i = choose|i: int|
            0 <= i < recents.len() && (#[trigger] recents[i]).target.path == path;
        if i < rest.len() {
            assert(rest[i] == recents[i]);
        }
        assert forall|i: int| 0 <= i < at implies (#[trigger] recents[i]).target.path != path by {
            assert(rest[i] == recents[i]);
        }
        at
    }
}

} // verus!
