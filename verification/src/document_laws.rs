//! What holds of a document from the moment it gets a tab until the tab goes.

use crate::checkpoint::DocumentFacts;
use crate::documents::{
    dirty_changed, edited, inserted, rearmed_states, rearming_effects, tab_closed,
};
use crate::effect::{Effect, Instant, PathId, ScheduleStep};
use crate::lifecycle::Lifecycle;
use crate::protection::{arming_effects, entry, States};
use crate::recovery_laws::{
    law_arming_clears_away_what_is_out_of_date, law_every_edit_gets_a_deadline,
    law_the_last_decision_retires_the_record,
};
use crate::requests::{group_requests, lemma_times_contains, times};
use crate::scope::{DocumentId, RecoveryKey};
use vstd::prelude::*;

verus! {

broadcast use group_requests;

/// Typing protects the new text and gets it a deadline. The decision to do
/// without the document's record is withdrawn where it is only queued; every
/// other decision, running retirement and document is left alone.
pub proof fn law_typing_protects_the_text(
    before: &Lifecycle,
    after: &Lifecycle,
    facts: DocumentFacts,
    now: Instant,
    effects: Seq<Effect>,
    other: DocumentId,
    record: RecoveryKey,
)
    requires
        edited(before, after, facts, now, effects),
    ensures
        after.checkpoints.states@.contains_key(facts.id),
        after.checkpoints.states@[facts.id].key == facts.key,
        after.checkpoints.states@[facts.id].revision == facts.revision,
        times(
            effects,
            Effect::Schedule { document: facts.id, step: ScheduleStep::MarkDirty { now } },
        ) == 1,
        !after.retirements.pending@.contains_key(facts.key),
        record != facts.key ==> after.retirements.pending@.contains_key(record)
            == before.retirements.pending@.contains_key(record),
        record != facts.key && before.retirements.pending@.contains_key(record)
            ==> after.retirements.pending@[record] == before.retirements.pending@[record],
        after.retirements.tickets == before.retirements.tickets,
        after.retirements.batches == before.retirements.batches,
        after.retirements.retries == before.retirements.retries,
        after.interlock == before.interlock,
        other != facts.id ==> entry(after.checkpoints.states@, other) == entry(
            before.checkpoints.states@,
            other,
        ),
{
    law_every_edit_gets_a_deadline(
        entry(before.checkpoints.states@, facts.id),
        facts.id,
        facts.key,
        facts.revision,
        now,
        before.store_ready,
    );
}

/// A document that becomes clean is no longer protected, and the record that
/// protected it is retired: the one it is kept under or, where nothing protects
/// it, the one it opened with during startup, else the one a Save As left
/// behind, else its own. A document that becomes dirty changes nothing here.
pub proof fn law_a_clean_document_gives_up_its_record(
    before: &Lifecycle,
    after: &Lifecycle,
    facts: DocumentFacts,
    effects: Seq<Effect>,
    other: DocumentId,
    record: RecoveryKey,
)
    requires
        dirty_changed(before, after, facts, effects),
    ensures
        facts.dirty ==> *after == *before && effects.len() == 0,
        !facts.dirty ==> {
            &&& !after.checkpoints.states@.contains_key(facts.id)
            &&& effects.contains(Effect::Invalidate { key: record, document: Some(facts.id) })
                <==> record == (if before.checkpoints.states@.contains_key(facts.id) {
                before.checkpoints.states@[facts.id].key
            } else if before.startup_recovery_keys@.contains_key(facts.id) {
                before.startup_recovery_keys@[facts.id]
            } else if before.save_as_recovery_keys@.contains_key(facts.id) {
                before.save_as_recovery_keys@[facts.id]
            } else {
                facts.key
            })
            &&& !after.startup_recovery_keys@.contains_key(facts.id)
            &&& !before.startup_recovery_keys@.contains_key(facts.id)
                ==> !after.save_as_recovery_keys@.contains_key(facts.id)
        },
        other != facts.id ==> {
            &&& entry(after.checkpoints.states@, other) == entry(before.checkpoints.states@, other)
            &&& after.startup_recovery_keys@.contains_key(other)
                == before.startup_recovery_keys@.contains_key(other)
            &&& after.save_as_recovery_keys@.contains_key(other)
                == before.save_as_recovery_keys@.contains_key(other)
            &&& before.startup_recovery_keys@.contains_key(other)
                ==> after.startup_recovery_keys@[other] == before.startup_recovery_keys@[other]
            &&& before.save_as_recovery_keys@.contains_key(other)
                ==> after.save_as_recovery_keys@[other] == before.save_as_recovery_keys@[other]
        },
        after.retirements == before.retirements,
        after.interlock == before.interlock,
        after.store_ready == before.store_ready,
        after.startup_recovery_pending == before.startup_recovery_pending,
{
    if !facts.dirty {
        law_the_last_decision_retires_the_record(
            entry(before.checkpoints.states@, facts.id),
            facts.id,
            Some(before.saved_key(facts)),
            record,
            Some(facts.id),
            0,
        );
    }
}

/// A tab that is taken away takes the protection of its document with it, and
/// of no other; the record that protected it is retired, and Back will not find
/// the file again.
pub proof fn law_a_closed_tab_leaves_nothing_behind(
    before: &Lifecycle,
    after: &Lifecycle,
    document: DocumentId,
    path: Option<PathId>,
    effects: Seq<Effect>,
    other: DocumentId,
    record: RecoveryKey,
    visited: PathId,
)
    requires
        tab_closed(before, after, document, path, effects),
    ensures
        !after.checkpoints.states@.contains_key(document),
        other != document ==> entry(after.checkpoints.states@, other) == entry(
            before.checkpoints.states@,
            other,
        ),
        times(effects, Effect::CloseTab { document }) == 1,
        effects.contains(Effect::CloseTab { document: other }) ==> other == document,
        effects.contains(Effect::ForgetVisits { path: visited }) <==> path == Some(visited),
        effects.contains(Effect::SyncDocumentWatches),
        effects.contains(Effect::RefreshWeb),
        effects.contains(Effect::Invalidate { key: record, document: Some(document) })
            <==> before.checkpoints.states@.contains_key(document) && record
            == before.checkpoints.states@[document].key,
        after.save_as_recovery_keys == before.save_as_recovery_keys,
        after.startup_recovery_keys == before.startup_recovery_keys,
        after.store_ready == before.store_ready,
        after.retirements == before.retirements,
        after.interlock == before.interlock,
{
    let held = entry(before.checkpoints.states@, document);
    law_the_last_decision_retires_the_record(held, document, None, record, Some(document), 0);
    let retiring = crate::protection::retiring_effects(held, document, None);
    assert(!retiring.contains(Effect::CloseTab { document }));
    assert(!retiring.contains(Effect::CloseTab { document: other }));
    assert(!retiring.contains(Effect::ForgetVisits { path: visited }));
    let close = Effect::CloseTab { document };
    lemma_times_contains(retiring, close);
    let visits = match path {
        Some(path) => seq![Effect::ForgetVisits { path }],
        None => Seq::empty(),
    };
    assert(times(visits, close) == 0);
    let rest = seq![Effect::SyncDocumentWatches, Effect::RefreshWeb];
    assert(times(seq![close], close) == 1);
    assert(rest =~= seq![Effect::SyncDocumentWatches].push(Effect::RefreshWeb));
    assert(times(rest, close) == 0);
    assert(times(seq![close] + visits + rest, close) == 1);
}

/// A document that gets a tab is protected at once if it is dirty and is to be
/// armed. One that opens during startup is remembered under the record it opened
/// with, whatever it is called later; every other document is left alone.
pub proof fn law_a_new_tab_protects_its_document(
    before: &Lifecycle,
    after: &Lifecycle,
    facts: DocumentFacts,
    path: Option<PathId>,
    arm_dirty: bool,
    now: Instant,
    effects: Seq<Effect>,
    other: DocumentId,
    visited: PathId,
)
    requires
        inserted(before, after, facts, path, arm_dirty, now, effects),
    ensures
        arm_dirty && facts.dirty ==> {
            &&& after.checkpoints.states@.contains_key(facts.id)
            &&& after.checkpoints.states@[facts.id].key == facts.key
            &&& after.checkpoints.states@[facts.id].revision == facts.revision
            &&& times(
                effects,
                Effect::Schedule { document: facts.id, step: ScheduleStep::MarkDirty { now } },
            ) == 1
        },
        !(arm_dirty && facts.dirty) ==> after.checkpoints == before.checkpoints,
        other != facts.id ==> entry(after.checkpoints.states@, other) == entry(
            before.checkpoints.states@,
            other,
        ),
        effects.contains(Effect::RecordVisit { path: visited, offset: 0 }) <==> path == Some(
            visited,
        ),
        effects.contains(Effect::SyncDocumentWatches),
        effects.contains(Effect::RefreshWeb),
        before.startup_recovery_pending ==> {
            &&& after.startup_recovery_keys@.contains_key(facts.id)
            &&& after.startup_recovery_keys@[facts.id]
                == (if before.startup_recovery_keys@.contains_key(facts.id) {
                before.startup_recovery_keys@[facts.id]
            } else {
                facts.key
            })
            &&& other != facts.id ==> after.startup_recovery_keys@.contains_key(other)
                == before.startup_recovery_keys@.contains_key(other)
            &&& other != facts.id && before.startup_recovery_keys@.contains_key(other)
                ==> after.startup_recovery_keys@[other] == before.startup_recovery_keys@[other]
        },
        !before.startup_recovery_pending ==> after.startup_recovery_keys@
            == before.startup_recovery_keys@,
        after.save_as_recovery_keys == before.save_as_recovery_keys,
        after.startup_recovery_pending == before.startup_recovery_pending,
        after.store_ready == before.store_ready,
        after.retirements == before.retirements,
        after.interlock == before.interlock,
{
    let held = entry(before.checkpoints.states@, facts.id);
    let visit = Effect::RecordVisit { path: visited, offset: 0 };
    law_every_edit_gets_a_deadline(
        held,
        facts.id,
        facts.key,
        facts.revision,
        now,
        before.store_ready,
    );
    law_arming_clears_away_what_is_out_of_date(
        held,
        facts.id,
        facts.key,
        facts.revision,
        now,
        before.store_ready,
        0,
        None,
        0,
    );
    let armed = arming_effects(
        held,
        facts.id,
        facts.key,
        facts.revision,
        now,
        before.store_ready,
    );
    assert(!armed.contains(visit));
    let dirty = Effect::Schedule { document: facts.id, step: ScheduleStep::MarkDirty { now } };
    let visits = match path {
        Some(path) => seq![Effect::RecordVisit { path, offset: 0 }],
        None => Seq::empty(),
    };
    assert(times(visits, dirty) == 0);
    let rest = seq![Effect::SyncDocumentWatches, Effect::RefreshWeb];
    assert(rest =~= seq![Effect::SyncDocumentWatches].push(Effect::RefreshWeb));
    assert(times(rest, dirty) == 0);
    assert(times(visits + rest, dirty) == 0);
    assert(times(armed + (visits + rest), dirty) == 1);
}

/// After an action that came to nothing, every dirty document gets its deadline
/// back, and no schedule but theirs is touched.
pub proof fn law_every_dirty_document_gets_its_deadline_back(
    states: States,
    documents: Seq<DocumentFacts>,
    now: Instant,
    store_ready: bool,
    document: DocumentId,
)
    ensures
        (exists|i: int|
            0 <= i < documents.len() && (#[trigger] documents[i]).dirty && documents[i].id
                == document) <==> rearming_effects(states, documents, now, store_ready).contains(
            Effect::Schedule { document, step: ScheduleStep::MarkDirty { now } },
        ),
    decreases documents.len(),
{
    let dirty = Effect::Schedule { document, step: ScheduleStep::MarkDirty { now } };
    if documents.len() > 0 {
        let rest = documents.drop_last();
        let facts = documents.last();
        let earlier = rearmed_states(states, rest);
        law_every_dirty_document_gets_its_deadline_back(states, rest, now, store_ready, document);
        let held = entry(earlier, facts.id);
        law_every_edit_gets_a_deadline(
            held,
            facts.id,
            facts.key,
            facts.revision,
            now,
            store_ready,
        );
        let armed = arming_effects(held, facts.id, facts.key, facts.revision, now, store_ready);
        lemma_times_contains(armed, dirty);
        assert(documents[documents.len() - 1] == facts);
        if exists|i: int|
            0 <= i < rest.len() && (#[trigger] rest[i]).dirty && rest[i].id == document {
            let i = choose|i: int|
                0 <= i < rest.len() && (#[trigger] rest[i]).dirty && rest[i].id == document;
            assert(documents[i] == rest[i]);
        }
        if exists|i: int|
            0 <= i < documents.len() && (#[trigger] documents[i]).dirty && documents[i].id
                == document {
            let i = choose|i: int|
                0 <= i < documents.len() && (#[trigger] documents[i]).dirty && documents[i].id
                    == document;
            if i < rest.len() {
                assert(rest[i] == documents[i]);
            }
        }
    }
}

/// Arming every dirty document again leaves each other one as it was.
pub proof fn law_rearming_leaves_clean_documents_alone(
    states: States,
    documents: Seq<DocumentFacts>,
    other: DocumentId,
)
    requires
        forall|i: int|
            0 <= i < documents.len() && (#[trigger] documents[i]).dirty ==> documents[i].id
                != other,
    ensures
        entry(rearmed_states(states, documents), other) == entry(states, other),
    decreases documents.len(),
{
    if documents.len() > 0 {
        let rest = documents.drop_last();
        assert forall|i: int| 0 <= i < rest.len() && (#[trigger] rest[i]).dirty implies rest[i].id
            != other by {
            assert(rest[i] == documents[i]);
        }
        law_rearming_leaves_clean_documents_alone(states, rest, other);
        assert(documents[documents.len() - 1] == documents.last());
    }
}

/// A preview gives way only if its text is saved and no decision on its record
/// could still be lost.
pub proof fn law_a_preview_is_kept_for_what_it_could_lose(
    lifecycle: &Lifecycle,
    facts: DocumentFacts,
)
    ensures
        facts.dirty ==> lifecycle.keeps_preview(facts),
        !lifecycle.startup_recovery_keys@.contains_key(facts.id) && !facts.dirty
            ==> lifecycle.keeps_preview(facts) == lifecycle.retirements.pending@.contains_key(
            facts.key,
        ),
        lifecycle.startup_recovery_keys@.contains_key(facts.id) && !facts.dirty
            ==> lifecycle.keeps_preview(facts) == lifecycle.retirements.pending@.contains_key(
            lifecycle.startup_recovery_keys@[facts.id],
        ),
{
}

} // verus!
