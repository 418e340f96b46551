//! What holds of the workspace as a whole.

use crate::checkpoint::{
    CheckpointOutcome, CheckpointResult, DocumentFacts, DocumentRecoveryState, DueVerdict,
    RecoveryAttempt,
};
use crate::destructive::entered;
use crate::documents::rearmed_states;
use crate::effect::{DestructiveAction, Effect, Instant, PathId};
use crate::lifecycle::{clearance, Lifecycle, Next, RequestId, Resolution, Stage, Step};
use crate::protection::{
    arming_effects, attempt_is_current, due_verdict, grounded, grounded_states, grounding_effects,
    settled_once, settled_state, settled_states, settling_step, tracked_state, waking,
    without_keys, States,
};
use crate::retirement::concerning;
use crate::scope::{lemma_listed_keys, DocumentId, RecoveryKey, ScopedKey};
use crate::startup::PreparedRecord;
use crate::workspace::{
    all_released, asked, file_opening, focusing, preview_replaced, shows, OpenStep, OpenTab,
    Workspace,
};
use vstd::prelude::*;

verus! {

/// An action takes documents away only once every record it concerns is being
/// durably retired, none of them was queued again, and no document it takes has
/// unsaved text under a record that is being retired. The decision itself
/// changes nothing.
pub proof fn law_nothing_is_taken_before_its_records_are_retired(
    before: &Lifecycle,
    after: &Lifecycle,
    request: RequestId,
    action: DestructiveAction,
    keys: Seq<ScopedKey>,
    dirty: Set<RecoveryKey>,
    now: Instant,
    step: Step,
)
    requires
        clearance(before, after, request, action, keys, dirty, now, step),
        step.next is Perform,
    ensures
        forall|key: RecoveryKey| #[trigger]
            before.demands(action, keys).contains_key(key) ==> {
                &&& before.retirements.is_owned(key)
                &&& !before.retirements.pending@.contains_key(key)
                &&& !dirty.contains(key)
            },
        concerning(before.retirements.pending@, action).dom() == Set::<RecoveryKey>::empty(),
        after.same_but_interlock(before),
{
    let wanted = before.demands(action, keys);
    let open = before.retirements.unowned(wanted);
    assert forall|key: RecoveryKey| #[trigger] wanted.contains_key(key) implies {
        &&& before.retirements.is_owned(key)
        &&& !before.retirements.pending@.contains_key(key)
        &&& !dirty.contains(key)
    } by {
        if !before.retirements.is_owned(key) {
            assert(open.dom().contains(key));
        }
    }
    let queued = concerning(before.retirements.pending@, action);
    assert forall|key: RecoveryKey| !queued.dom().contains(key) by {
        if queued.dom().contains(key) {
            assert(wanted.contains_key(key));
        }
    }
    assert(queued.dom() =~= Set::empty());
}

/// A queued record that belongs to another document does not hold up the
/// closing of a tab.
pub proof fn law_unrelated_records_do_not_block_a_tab(
    before: &Lifecycle,
    after: &Lifecycle,
    request: RequestId,
    document: DocumentId,
    dirty: Set<RecoveryKey>,
    now: Instant,
    step: Step,
)
    requires
        clearance(
            before,
            after,
            request,
            DestructiveAction::CloseTab { document },
            Seq::empty(),
            dirty,
            now,
            step,
        ),
        forall|key: RecoveryKey| #[trigger]
            before.retirements.pending@.contains_key(key) ==> {
                &&& before.retirements.pending@[key] is Some
                &&& before.retirements.pending@[key] != Some(document)
            },
    ensures
        step.next == (Next::Perform { action: DestructiveAction::CloseTab { document } }),
        step.effects@.len() == 0,
{
    let action = DestructiveAction::CloseTab { document };
    let wanted = before.demands(action, Seq::empty());
    assert forall|key: RecoveryKey| !wanted.contains_key(key) by {
        assert(!concerning(before.retirements.pending@, action).contains_key(key));
    }
    assert(before.retirements.unowned(wanted).dom() =~= Set::empty());
}

/// Closing the window or replacing the workspace waits for every queued record,
/// whichever document it belongs to.
pub proof fn law_whole_workspace_actions_wait_for_every_record(
    lifecycle: &Lifecycle,
    action: DestructiveAction,
    keys: Seq<ScopedKey>,
    key: RecoveryKey,
)
    requires
        action is CloseWindow || action is ReplaceWorkspace,
        lifecycle.retirements.pending@.contains_key(key),
    ensures
        lifecycle.demands(action, keys).contains_key(key),
{
    assert(concerning(lifecycle.retirements.pending@, action).contains_key(key));
}

/// A record of unknown origin holds up every action.
pub proof fn law_unknown_records_hold_up_every_action(
    lifecycle: &Lifecycle,
    action: DestructiveAction,
    keys: Seq<ScopedKey>,
    key: RecoveryKey,
)
    requires
        lifecycle.retirements.pending@.contains_key(key),
        lifecycle.retirements.pending@[key] is None,
    ensures
        lifecycle.demands(action, keys).contains_key(key),
{
    assert(concerning(lifecycle.retirements.pending@, action).contains_key(key));
}

/// The records that a walk sends to a batch have no other owner, so that no
/// record is retired twice at once.
pub proof fn law_a_batch_takes_only_records_without_an_owner(
    before: &Lifecycle,
    after: &Lifecycle,
    request: RequestId,
    action: DestructiveAction,
    keys: Seq<ScopedKey>,
    dirty: Set<RecoveryKey>,
    now: Instant,
    step: Step,
    at: int,
)
    requires
        clearance(before, after, request, action, keys, dirty, now, step),
        step.next is BeginRetirements,
        0 <= at < step.next->BeginRetirements_keys@.len(),
    ensures
        !before.retirements.is_owned(step.next->BeginRetirements_keys@[at].0),
        after.retirements.pending@.contains_key(step.next->BeginRetirements_keys@[at].0),
{
    let open = before.retirements.unowned(before.demands(action, keys));
    let sent = step.next->BeginRetirements_keys@;
    lemma_listed_keys(sent, open);
    assert(open.contains_key(sent[at].0));
}

/// Cancelling a walk, or failing to save in it, ends it. Whatever was decided
/// before about other documents is forgotten, and every record stays.
pub proof fn law_cancelling_keeps_every_record(
    before: &Lifecycle,
    after: &Lifecycle,
    request: RequestId,
    current: Option<ScopedKey>,
    resolution: Resolution,
    stage: Stage,
    next: Next,
)
    requires
        after.same_but_interlock(before),
        entered(before, after, request, current, resolution, stage, next),
        resolution is Cancelled || resolution is SaveFailed,
    ensures
        next is Done,
        after.interlock.handled@.len() == 0,
        after.retirements == before.retirements,
        after.checkpoints == before.checkpoints,
{
}

/// The result of an attempt that is no longer in flight changes nothing.
pub proof fn law_stale_results_change_nothing(
    states: States,
    result: CheckpointResult,
    returned_at: Instant,
)
    requires
        !attempt_is_current(states, result),
    ensures
        settled_once(states, result, returned_at) == states,
        settling_step(states, result, returned_at).len() == 0,
{
}

/// The result of an attempt concerns its own document alone.
pub proof fn law_results_touch_one_document(
    states: States,
    result: CheckpointResult,
    returned_at: Instant,
    other: DocumentId,
)
    requires
        other != result.document,
    ensures
        settled_once(states, result, returned_at).contains_key(other) == states.contains_key(other),
        states.contains_key(other) ==> settled_once(states, result, returned_at)[other]
            == states[other],
{
}

/// Once a batch has come back, none of its attempts is in flight any more.
pub proof fn law_a_finished_batch_leaves_nothing_in_flight(
    states: States,
    results: Seq<CheckpointResult>,
    returned_at: Instant,
    document: DocumentId,
)
    requires
        exists|i: int|
            0 <= i < results.len() && (#[trigger] results[i]).document == document
                && attempt_is_current(states, results[i]),
    ensures
        settled_states(states, results, returned_at).contains_key(document),
        settled_states(states, results, returned_at)[document].in_flight is None,
    decreases results.len(),
{
    let rest = results.drop_last();
    let earlier = settled_states(states, rest, returned_at);
    let at = choose|i: int|
        0 <= i < results.len() && (#[trigger] results[i]).document == document
            && attempt_is_current(states, results[i]);
    if exists|i: int|
        0 <= i < rest.len() && (#[trigger] rest[i]).document == document && attempt_is_current(
            states,
            rest[i],
        ) {
        law_a_finished_batch_leaves_nothing_in_flight(states, rest, returned_at, document);
    } else {
        if at < rest.len() {
            assert(rest[at] == results[at]);
        }
        lemma_unsettled(states, rest, returned_at, document);
    }
}

/// A document whose attempt is in none of `results` is left alone by them.
proof fn lemma_unsettled(
    states: States,
    results: Seq<CheckpointResult>,
    returned_at: Instant,
    document: DocumentId,
)
    requires
        states.contains_key(document),
        !(exists|i: int|
            0 <= i < results.len() && (#[trigger] results[i]).document == document
                && attempt_is_current(states, results[i])),
    ensures
        settled_states(states, results, returned_at).contains_key(document),
        settled_states(states, results, returned_at)[document] == states[document],
    decreases results.len(),
{
    if results.len() > 0 {
        let rest = results.drop_last();
        assert forall|i: int| 0 <= i < rest.len() implies !((#[trigger] rest[i]).document
            == document && attempt_is_current(states, rest[i])) by {
            assert(rest[i] == results[i]);
        }
        lemma_unsettled(states, rest, returned_at, document);
        let last = results[results.len() - 1];
        assert(!(last.document == document && attempt_is_current(states, last)));
    }
}

/// A warning goes away only when the text that is there now was written in
/// time.
pub proof fn law_only_current_writes_clear_a_warning(
    state: DocumentRecoveryState,
    attempt: RecoveryAttempt,
    outcome: CheckpointOutcome,
    returned_at: Instant,
)
    requires
        state.protection_warning,
        !settled_state(state, attempt, outcome, returned_at).protection_warning,
    ensures
        outcome is Written,
        state.revision == attempt.revision,
        returned_at <= attempt.timing.durable_complete_by,
{
}

/// A revision that does not fit is neither sent again nor waited for, and an
/// edit lifts the ban.
pub proof fn law_oversized_revisions_wait_for_an_edit(
    state: DocumentRecoveryState,
    facts: DocumentFacts,
    due: bool,
    worker_active: bool,
    ceiling: u64,
    store_ready: bool,
    next: Option<Instant>,
    edited: u64,
)
    requires
        state.suppressed_oversized_revision == Some(state.revision),
        facts.revision == state.revision,
        edited != state.revision,
    ensures
        due_verdict(state, facts, due, worker_active, ceiling) is Nothing || due_verdict(
            state,
            facts,
            due,
            worker_active,
            ceiling,
        ) is Suppressed,
        waking(state, store_ready, worker_active, next) is None,
        tracked_state(Some(state), state.key, edited).suppressed_oversized_revision is None,
        tracked_state(Some(state), state.key, edited).revision == edited,
{
}

/// A pass sends nothing on its way while the worker is occupied, nor for a
/// document that has an attempt in flight.
pub proof fn law_one_worker_and_one_attempt(
    state: DocumentRecoveryState,
    facts: DocumentFacts,
    due: bool,
    worker_active: bool,
    ceiling: u64,
)
    requires
        worker_active || state.in_flight is Some,
    ensures
        due_verdict(state, facts, due, worker_active, ceiling) != DueVerdict::Dispatch,
{
}

/// However often a document is edited while an attempt runs, what follows is
/// one attempt at its latest revision. Going back to the very revision that an
/// attempt is under way for, or that does not fit, is another matter: the edit
/// in between has stopped the attempt and lifted the ban.
pub proof fn law_repeated_edits_coalesce(
    before: Option<DocumentRecoveryState>,
    key: RecoveryKey,
    earlier: u64,
    latest: u64,
)
    requires
        !(before matches Some(state) && state.key == key && state.revision == latest && earlier
            != latest && (state.suppressed_oversized_revision is Some || (
        state.in_flight matches Some(attempt) && !attempt.cancelled))),
    ensures
        tracked_state(Some(tracked_state(before, key, earlier)), key, latest) == tracked_state(
            before,
            key,
            latest,
        ),
{
}

/// Editing a document stops no attempt but its own.
pub proof fn law_edits_stop_only_their_own_attempt(
    before: Option<DocumentRecoveryState>,
    document: DocumentId,
    key: RecoveryKey,
    revision: u64,
    now: Instant,
    store_ready: bool,
    attempt: u64,
)
    requires
        arming_effects(before, document, key, revision, now, store_ready).contains(
            Effect::CancelAttempt { attempt },
        ),
    ensures
        before matches Some(state) && (state.in_flight matches Some(running) && running.id
            == attempt),
{
    let effects = arming_effects(before, document, key, revision, now, store_ready);
    let at = effects.index_of(Effect::CancelAttempt { attempt });
    assert(effects[at] == Effect::CancelAttempt { attempt });
}

/// Retiring records leaves every document alone that is kept under another one.
pub proof fn law_retiring_touches_its_own_records(
    states: States,
    keys: Set<RecoveryKey>,
    now: Instant,
    document: DocumentId,
)
    requires
        states.contains_key(document),
        !keys.contains(states[document].key),
    ensures
        grounded(states[document], keys, now) == states[document],
        grounded_states(states, keys, now).contains_key(document),
        grounded_states(states, keys, now)[document] == states[document],
        without_keys(states, keys).contains_key(document),
        without_keys(states, keys)[document] == states[document],
{
}

/// Once records are being retired, no attempt under them is in flight and no
/// token to write them is left.
pub proof fn law_retired_records_cannot_be_written(
    states: States,
    keys: Set<RecoveryKey>,
    now: Instant,
    document: DocumentId,
)
    requires
        states.contains_key(document),
        keys.contains(states[document].key),
    ensures
        grounded_states(states, keys, now)[document].in_flight is None,
        grounded_states(states, keys, now)[document].token is None,
        !without_keys(states, keys).contains_key(document),
{
}

/// Retiring records stops every attempt under them, and no other.
pub proof fn law_retiring_stops_exactly_its_attempts(
    order: Seq<DocumentId>,
    states: States,
    keys: Set<RecoveryKey>,
    now: Instant,
    attempt: u64,
)
    ensures
        grounding_effects(order, states, keys, now).contains(Effect::CancelAttempt { attempt })
            <==> exists|i: int|
            0 <= i < order.len() && keys.contains(states[#[trigger] order[i]].key) && (
            states[order[i]].in_flight matches Some(running) && running.id == attempt),
    decreases order.len(),
{
    let effects = grounding_effects(order, states, keys, now);
    let cancel = Effect::CancelAttempt { attempt };
    if order.len() == 0 {
        assert(!effects.contains(cancel));
    } else {
        let rest = order.drop_last();
        let document = order.last();
        let earlier = grounding_effects(rest, states, keys, now);
        let added = effects.skip(earlier.len() as int);
        law_retiring_stops_exactly_its_attempts(rest, states, keys, now, attempt);
        assert(effects =~= earlier + added);
        let own = keys.contains(states[document].key) && (states[document].in_flight matches Some(
            running,
        ) && running.id == attempt);
        assert(added.contains(cancel) <==> own) by {
            if own {
                assert(added[0] == cancel);
            }
            if added.contains(cancel) {
                let at = added.index_of(cancel);
                assert(added[at] == cancel);
            }
        }
        assert(effects.contains(cancel) <==> earlier.contains(cancel) || added.contains(cancel)) by {
            if effects.contains(cancel) {
                let at = effects.index_of(cancel);
                if at < earlier.len() {
                    assert(earlier[at] == cancel);
                } else {
                    assert(added[at - earlier.len()] == cancel);
                }
            }
            if earlier.contains(cancel) {
                assert(effects[earlier.index_of(cancel)] == cancel);
            }
            if added.contains(cancel) {
                assert(effects[earlier.len() + added.index_of(cancel)] == cancel);
            }
        }
        if exists|i: int|
            0 <= i < rest.len() && keys.contains(states[#[trigger] rest[i]].key) && (
            states[rest[i]].in_flight matches Some(running) && running.id == attempt) {
            let i = choose|i: int|
                0 <= i < rest.len() && keys.contains(states[#[trigger] rest[i]].key) && (
                states[rest[i]].in_flight matches Some(running) && running.id == attempt);
            assert(order[i] == rest[i]);
        }
        if own {
            assert(order[order.len() - 1] == document);
        }
        if exists|i: int|
            0 <= i < order.len() && keys.contains(states[#[trigger] order[i]].key) && (
            states[order[i]].in_flight matches Some(running) && running.id == attempt) {
            let i = choose|i: int|
                0 <= i < order.len() && keys.contains(states[#[trigger] order[i]].key) && (
                states[order[i]].in_flight matches Some(running) && running.id == attempt);
            if i < rest.len() {
                assert(rest[i] == order[i]);
            }
        }
    }
}

/// After an action that came to nothing, every dirty document is protected at
/// its current revision and under its current record.
pub proof fn law_every_dirty_document_is_protected_again(
    states: States,
    documents: Seq<DocumentFacts>,
    at: int,
)
    requires
        0 <= at < documents.len(),
        documents[at].dirty,
        forall|i: int, j: int|
            #![trigger documents[i], documents[j]]
            0 <= i < j < documents.len() ==> documents[i].id != documents[j].id,
    ensures
        rearmed_states(states, documents).contains_key(documents[at].id),
        rearmed_states(states, documents)[documents[at].id].key == documents[at].key,
        rearmed_states(states, documents)[documents[at].id].revision == documents[at].revision,
    decreases documents.len(),
{
    let rest = documents.drop_last();
    if at < rest.len() {
        assert(rest[at] == documents[at]);
        assert forall|i: int, j: int|
            #![trigger rest[i], rest[j]]
            0 <= i < j < rest.len() implies rest[i].id != rest[j].id by {
            assert(rest[i] == documents[i] && rest[j] == documents[j]);
        }
        law_every_dirty_document_is_protected_again(states, rest, at);
        assert(documents[at].id != documents[documents.len() - 1].id);
    }
}

/// A preview whose text is not saved, or whose record is not durably retired,
/// keeps its tab when another preview takes its place.
pub proof fn law_a_preview_with_something_to_lose_is_kept(
    before: &Workspace,
    after: &Workspace,
    path: PathId,
    open: bool,
    facts: DocumentFacts,
    step: OpenStep,
)
    requires
        file_opening(before, after, path, true, open, Some(facts), step),
        before.lifecycle.keeps_preview(facts),
    ensures
        after.lifecycle == before.lifecycle,
        forall|document: DocumentId|
            !(#[trigger] asked(step).contains(Effect::CloseTab { document })),
{
    assert forall|document: DocumentId|
        !(#[trigger] asked(step).contains(Effect::CloseTab { document })) by {
        if asked(step).contains(Effect::CloseTab { document }) {
            law_only_the_preview_gives_way(
                before,
                after,
                path,
                true,
                open,
                Some(facts),
                step,
                document,
            );
        }
    }
}

/// Opening a file closes no tab but that of the preview whose place it takes,
/// and that only where nothing would be lost with it.
pub proof fn law_only_the_preview_gives_way(
    before: &Workspace,
    after: &Workspace,
    path: PathId,
    preview: bool,
    open: bool,
    outgoing: Option<DocumentFacts>,
    step: OpenStep,
    document: DocumentId,
)
    requires
        file_opening(before, after, path, preview, open, outgoing, step),
        asked(step).contains(Effect::CloseTab { document }),
    ensures
        preview,
        before.preview is Some,
        before.preview != Some(path),
        outgoing matches Some(facts) && facts.id == document && !before.lifecycle.keeps_preview(
            facts,
        ),
{
    let close = Effect::CloseTab { document };
    let at = asked(step).index_of(close);
    assert(asked(step)[at] == close);
    if before.preview != Some(path) && preview && before.preview is Some {
        let closing = choose|closing: Seq<Effect>|
            #![trigger shows(step, path, open, closing)]
            preview_replaced(
                &before.lifecycle,
                &after.lifecycle,
                before.preview->0,
                outgoing,
                closing,
            ) && shows(step, path, open, closing);
        assert(at < closing.len()) by {
            if at >= closing.len() {
                assert(asked(step)[at] == focusing(path)[at - closing.len()]);
            }
        }
        assert(closing[at] == close);
    }
}

/// A file that is open and is not the preview was opened for good. Opening it
/// again, even as a preview, does not make it the preview.
pub proof fn law_an_open_tab_stays_pinned(
    before: &Workspace,
    after: &Workspace,
    path: PathId,
    preview: bool,
    outgoing: Option<DocumentFacts>,
    step: OpenStep,
)
    requires
        file_opening(before, after, path, preview, true, outgoing, step),
        before.preview != Some(path),
    ensures
        after.preview is None,
{
}

/// A tab that was opened for good stays until the user closes it: opening its
/// file again as a preview, and then another file as a preview, closes nothing.
pub proof fn law_a_pinned_tab_outlives_previews(
    before: &Workspace,
    between: &Workspace,
    after: &Workspace,
    path: PathId,
    first: OpenStep,
    first_outgoing: Option<DocumentFacts>,
    other: PathId,
    open: bool,
    outgoing: Option<DocumentFacts>,
    second: OpenStep,
    document: DocumentId,
)
    requires
        before.preview != Some(path),
        file_opening(before, between, path, true, true, first_outgoing, first),
        file_opening(between, after, other, true, open, outgoing, second),
    ensures
        !asked(second).contains(Effect::CloseTab { document }),
        after.lifecycle == between.lifecycle,
{
    law_an_open_tab_stays_pinned(before, between, path, true, first_outgoing, first);
    if asked(second).contains(Effect::CloseTab { document }) {
        law_only_the_preview_gives_way(
            between,
            after,
            other,
            true,
            open,
            outgoing,
            second,
            document,
        );
    }
}

/// Once a workspace is replaced, nothing is kept for the documents it held, and
/// nothing has changed for any other.
pub proof fn law_replacing_releases_every_document(
    states: States,
    tabs: Seq<OpenTab>,
    document: DocumentId,
)
    ensures
        (exists|i: int| 0 <= i < tabs.len() && (#[trigger] tabs[i]).document == document)
            ==> !all_released(states, tabs).contains_key(document),
        !(exists|i: int| 0 <= i < tabs.len() && (#[trigger] tabs[i]).document == document) ==> {
            &&& all_released(states, tabs).contains_key(document) == states.contains_key(document)
            &&& states.contains_key(document) ==> all_released(states, tabs)[document]
                == states[document]
        },
    decreases tabs.len(),
{
    if tabs.len() > 0 {
        let rest = tabs.drop_last();
        let last = tabs.last();
        law_replacing_releases_every_document(states.remove(last.document), rest, document);
        lemma_released_stays_released(states.remove(last.document), rest, last.document);
        if exists|i: int| 0 <= i < tabs.len() && (#[trigger] tabs[i]).document == document {
            let i = choose|i: int| 0 <= i < tabs.len() && (#[trigger] tabs[i]).document == document;
            if i < rest.len() {
                assert(rest[i].document == document);
            }
        } else {
            assert forall|i: int| 0 <= i < rest.len() implies (#[trigger] rest[i]).document
                != document by {
                assert(rest[i] == tabs[i]);
            }
            assert(tabs[tabs.len() - 1].document != document);
        }
    }
}

proof fn lemma_released_stays_released(states: States, tabs: Seq<OpenTab>, document: DocumentId)
    requires
        !states.contains_key(document),
    ensures
        !all_released(states, tabs).contains_key(document),
    decreases tabs.len(),
{
    if tabs.len() > 0 {
        lemma_released_stays_released(
            states.remove(tabs.last().document),
            tabs.drop_last(),
            document,
        );
    }
}

/// A record that the user has decided to do without never comes back as a
/// document.
pub proof fn law_discarded_records_do_not_come_back(
    lifecycle: &Lifecycle,
    records: Seq<PreparedRecord>,
    at: int,
)
    requires
        0 <= at < records.filter(|record: PreparedRecord| lifecycle.may_restore(record)).len(),
    ensures
        !lifecycle.retirements.pending@.contains_key(
            records.filter(|record: PreparedRecord| lifecycle.may_restore(record))[at].key,
        ),
{
    records.lemma_filter_pred(|record: PreparedRecord| lifecycle.may_restore(record), at);
}

} // verus!
