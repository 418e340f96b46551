//! Documents coming, changing and going, and what that does to their recovery.

use crate::checkpoint::{Checkpoints, DocumentFacts};
use crate::effect::{report, BatchId, Effect, Instant, Notice, PathId, PlaceId, TextId, TicketId};
use crate::lifecycle::{Interlock, Lifecycle};
use crate::protection::{
    arming_effects, entry, retiring_effects, tracked_state, unprotected, States,
};
use crate::retirement::Retirements;
use crate::scope::{DocumentId, RecoveryKey};
use std::collections::BTreeMap;
use vstd::prelude::*;

verus! {

broadcast use vstd::std_specs::btree::group_btree_axioms;

/// Something that has happened in a document.
#[derive(Clone, Copy, Debug, PartialEq, Eq, Structural)]
pub enum DocumentEvent {
    /// It has something to say.
    Status { text: TextId },
    /// Its file has changed on disk under unsaved text.
    Conflict,
    /// It has to be saved, and has no file yet.
    SaveAsRequested,
    /// Its text has changed.
    Edited,
    /// It has become dirty or clean.
    DirtyChanged,
    /// Its editor was scrolled, and the embedded browser follows.
    ScrollWebPreview { place: PlaceId },
}

/// `states` once every dirty document of `documents` is armed.
pub open spec fn rearmed_states(states: States, documents: Seq<DocumentFacts>) -> States
    decreases documents.len(),
{
    if documents.len() == 0 {
        states
    } else {
        let earlier = rearmed_states(states, documents.drop_last());
        let facts = documents.last();
        if facts.dirty {
            earlier.insert(
                facts.id,
                tracked_state(entry(earlier, facts.id), facts.key, facts.revision),
            )
        } else {
            earlier
        }
    }
}

/// What arming every dirty document of `documents` asks of the host.
pub open spec fn rearming_effects(
    states: States,
    documents: Seq<DocumentFacts>,
    now: Instant,
    store_ready: bool,
) -> Seq<Effect>
    decreases documents.len(),
{
    if documents.len() == 0 {
        Seq::empty()
    } else {
        let earlier = rearmed_states(states, documents.drop_last());
        let facts = documents.last();
        rearming_effects(states, documents.drop_last(), now, store_ready) + (if facts.dirty {
            arming_effects(
                entry(earlier, facts.id),
                facts.id,
                facts.key,
                facts.revision,
                now,
                store_ready,
            )
        } else {
            Seq::empty()
        })
    }
}

/// Remembers a visit to the start of a document that has a path.
pub open spec fn visit_of(path: Option<PathId>) -> Seq<Effect> {
    match path {
        Some(path) => seq![Effect::RecordVisit { path, offset: 0 }],
        None => Seq::empty(),
    }
}

/// Takes a tab away. Back must not reopen what was just closed.
pub open spec fn tab_closing(document: DocumentId, path: Option<PathId>) -> Seq<Effect> {
    seq![Effect::CloseTab { document }] + (match path {
        Some(path) => seq![Effect::ForgetVisits { path }],
        None => Seq::empty(),
    }) + seq![Effect::SyncDocumentWatches, Effect::RefreshWeb]
}

/// The keys that startup recovery may still hold records under, once a document
/// is open.
pub open spec fn with_startup_key(
    keys: Map<DocumentId, RecoveryKey>,
    document: DocumentId,
    key: RecoveryKey,
) -> Map<DocumentId, RecoveryKey> {
    if keys.contains_key(document) {
        keys
    } else {
        keys.insert(document, key)
    }
}

impl Lifecycle {
    /// Whether nothing has happened yet: no document is open, and the startup
    /// scan is still to come.
    pub open spec fn is_new(&self) -> bool {
        &&& self.retirements.pending@ == Map::<RecoveryKey, Option<DocumentId>>::empty()
        &&& self.retirements.tickets@ == Map::<RecoveryKey, TicketId>::empty()
        &&& self.retirements.batches@ == Map::<RecoveryKey, BatchId>::empty()
        &&& self.retirements.retries@ == Set::<RecoveryKey>::empty()
        &&& self.checkpoints.states@ == States::empty()
        &&& !self.checkpoints.worker_active
        &&& !self.checkpoints.warning
        &&& self.checkpoints.timer_generation == 0
        &&& self.interlock.pending is None
        &&& self.interlock.waiting is None
        &&& self.interlock.handled@.len() == 0
        &&& !self.interlock.window_close_pending
        &&& !self.interlock.window_close_ready
        &&& !self.store_ready
        &&& self.startup_recovery_pending
        &&& self.startup_recovery_keys@ == Map::<DocumentId, RecoveryKey>::empty()
        &&& self.save_as_recovery_keys@ == Map::<DocumentId, RecoveryKey>::empty()
    }

    /// No document is open, and the startup scan is still to come.
    pub fn new() -> (lifecycle: Self)
        ensures
            lifecycle.is_new(),
            lifecycle.well_formed(),
    {
        Lifecycle {
            retirements: Retirements::new(),
            checkpoints: Checkpoints::new(),
            interlock: Interlock::new(),
            store_ready: false,
            startup_recovery_pending: true,
            startup_recovery_keys: BTreeMap::new(),
            save_as_recovery_keys: BTreeMap::new(),
        }
    }

    /// Whether nothing but the checkpoints has changed since `before`.
    pub open spec fn same_but_checkpoints(&self, before: &Lifecycle) -> bool {
        &&& self.retirements == before.retirements
        &&& self.interlock == before.interlock
        &&& self.same_storage(before)
    }

    /// Whether the checkpoints hold `states`, and all else about them is as in
    /// `before` with the warning brought up to date.
    pub open spec fn protects(&self, before: &Lifecycle, states: States) -> bool {
        &&& self.checkpoints.states@ == states
        &&& self.checkpoints.worker_active == before.checkpoints.worker_active
        &&& self.checkpoints.timer_generation == before.checkpoints.timer_generation
        &&& self.checkpoints.warning == unprotected(states)
    }

    /// Protect the text that a dirty document has now.
    pub fn arm_document_recovery(&mut self, facts: DocumentFacts, now: Instant) -> (effects: Vec<
        Effect,
    >)
        ensures
            old(self).well_formed() ==> final(self).well_formed(),
            final(self).same_but_checkpoints(old(self)),
            final(self).protects(
                old(self),
                old(self).checkpoints.states@.insert(
                    facts.id,
                    tracked_state(
                        entry(old(self).checkpoints.states@, facts.id),
                        facts.key,
                        facts.revision,
                    ),
                ),
            ),
            effects@ == arming_effects(
                entry(old(self).checkpoints.states@, facts.id),
                facts.id,
                facts.key,
                facts.revision,
                now,
                old(self).store_ready,
            ),
    {
        self.checkpoints.arm_document_recovery_at(
            facts.id,
            facts.revision,
            facts.key,
            now,
            self.store_ready,
        )
    }

    /// Protect every dirty document again, after an action that would have
    /// taken them away came to nothing.
    pub fn rearm_dirty_recovery(&mut self, documents: &Vec<DocumentFacts>, now: Instant) -> (effects:
        Vec<Effect>)
        ensures
            old(self).well_formed() ==> final(self).well_formed(),
            final(self).same_but_checkpoints(old(self)),
            final(self).checkpoints.states@ == rearmed_states(
                old(self).checkpoints.states@,
                documents@,
            ),
            final(self).checkpoints.worker_active == old(self).checkpoints.worker_active,
            final(self).checkpoints.timer_generation == old(self).checkpoints.timer_generation,
            final(self).checkpoints.warning == (if exists|i: int|
                0 <= i < documents.len() && (#[trigger] documents[i]).dirty {
                unprotected(final(self).checkpoints.states@)
            } else {
                old(self).checkpoints.warning
            }),
            effects@ == rearming_effects(
                old(self).checkpoints.states@,
                documents@,
                now,
                old(self).store_ready,
            ),
    {
        let mut effects: Vec<Effect> = Vec::new();
        let mut i: usize = 0;
        while i < documents.len()
            invariant
                i <= documents.len(),
                old(self).well_formed() ==> self.well_formed(),
                self.same_but_checkpoints(old(self)),
                self.checkpoints.states@ == rearmed_states(
                    old(self).checkpoints.states@,
                    documents@.take(i as int),
                ),
                self.checkpoints.worker_active == old(self).checkpoints.worker_active,
                self.checkpoints.timer_generation == old(self).checkpoints.timer_generation,
                self.checkpoints.warning == (if exists|j: int|
                    0 <= j < i && (#[trigger] documents[j]).dirty {
                    unprotected(self.checkpoints.states@)
                } else {
                    old(self).checkpoints.warning
                }),
                effects@ == rearming_effects(
                    old(self).checkpoints.states@,
                    documents@.take(i as int),
                    now,
                    old(self).store_ready,
                ),
            decreases documents.len() - i,
        {
            let facts: DocumentFacts = documents[i];
            proof {
                assert(documents@.take(i + 1).drop_last() =~= documents@.take(i as int));
                assert(documents@.take(i + 1).last() == facts);
            }
            if facts.dirty {
                let mut more = self.arm_document_recovery(facts, now);
                effects.append(&mut more);
                assert(documents[i as int].dirty);
            }
            proof {
                assert(effects@ =~= rearming_effects(
                    old(self).checkpoints.states@,
                    documents@.take(i + 1),
                    now,
                    old(self).store_ready,
                ));
                if exists|j: int| 0 <= j < i && (#[trigger] documents[j]).dirty {
                    let j = choose|j: int| 0 <= j < i && (#[trigger] documents[j]).dirty;
                    assert(0 <= j < i + 1 && documents[j].dirty);
                }
            }
            i = i + 1;
        }
        assert(documents@.take(documents.len() as int) =~= documents@);
        effects
    }

    /// A document has got a tab. One that opens before startup recovery is
    /// ready keeps the key it had; a dirty one is armed if `arm_dirty`.
    pub fn document_inserted(
        &mut self,
        facts: DocumentFacts,
        path: Option<PathId>,
        arm_dirty: bool,
        now: Instant,
    ) -> (effects: Vec<Effect>)
        ensures
            old(self).well_formed() ==> final(self).well_formed(),
            inserted(old(self), final(self), facts, path, arm_dirty, now, effects@),
    {
        if self.startup_recovery_pending && !self.startup_recovery_keys.contains_key(&facts.id) {
            self.startup_recovery_keys.insert(facts.id, facts.key);
        }
        let mut effects: Vec<Effect> = if arm_dirty && facts.dirty {
            self.arm_document_recovery(facts, now)
        } else {
            Vec::new()
        };
        let ghost armed = effects@;
        match path {
            Some(path) => {
                effects.push(Effect::RecordVisit { path, offset: 0 });
            },
            None => {},
        }
        effects.push(Effect::SyncDocumentWatches);
        effects.push(Effect::RefreshWeb);
        proof {
            let settled = visit_of(path) + seq![Effect::SyncDocumentWatches, Effect::RefreshWeb];
            assert(effects@ =~= armed + settled);
            if armed.len() == 0 {
                assert(effects@ =~= settled);
            }
        }
        effects
    }

    /// The user has typed: a retirement that is only queued is withdrawn, and
    /// the new text is protected. A retirement that runs is left to its owner.
    pub fn document_edited(&mut self, facts: DocumentFacts, now: Instant) -> (effects: Vec<Effect>)
        ensures
            old(self).well_formed() ==> final(self).well_formed(),
            edited(old(self), final(self), facts, now, effects@),
    {
        self.retirements.pending.remove(&facts.key);
        self.arm_document_recovery(facts, now)
    }

    /// The record to retire for a document that has become clean: the one it
    /// had when it opened during startup, else the one a Save As left behind,
    /// else its own.
    pub open spec fn saved_key(&self, facts: DocumentFacts) -> RecoveryKey {
        if self.startup_recovery_keys@.contains_key(facts.id) {
            self.startup_recovery_keys@[facts.id]
        } else if self.save_as_recovery_keys@.contains_key(facts.id) {
            self.save_as_recovery_keys@[facts.id]
        } else {
            facts.key
        }
    }

    /// A document has become dirty or clean. A clean one needs no protection.
    pub fn document_dirty_changed(&mut self, facts: DocumentFacts) -> (effects: Vec<Effect>)
        ensures
            old(self).well_formed() ==> final(self).well_formed(),
            dirty_changed(old(self), final(self), facts, effects@),
    {
        if facts.dirty {
            return Vec::new();
        }
        let key: RecoveryKey = match self.startup_recovery_keys.remove(&facts.id) {
            Some(key) => key,
            None => match self.save_as_recovery_keys.remove(&facts.id) {
                Some(key) => key,
                None => facts.key,
            },
        };
        assert(old(self).startup_recovery_keys@ == Map::<DocumentId, RecoveryKey>::empty()
            ==> self.startup_recovery_keys@ =~= Map::<DocumentId, RecoveryKey>::empty());
        self.checkpoints.retire_document_recovery(facts.id, Some(key))
    }

    /// Something has happened in a document.
    pub fn document_event(&mut self, event: DocumentEvent, facts: DocumentFacts, now: Instant) -> (
    effects: Vec<Effect>)
        ensures
            old(self).well_formed() ==> final(self).well_formed(),
            match event {
                DocumentEvent::Status { text } => {
                    &&& *final(self) == *old(self)
                    &&& effects@ == seq![Effect::Report { notice: Notice::Message { text } }]
                },
                DocumentEvent::Conflict => {
                    &&& *final(self) == *old(self)
                    &&& effects@ == seq![Effect::Report { notice: Notice::FileChangedOnDisk }]
                },
                DocumentEvent::SaveAsRequested => {
                    &&& *final(self) == *old(self)
                    &&& effects@ == seq![Effect::PromptSaveAs { document: facts.id }]
                },
                DocumentEvent::Edited => edited(old(self), final(self), facts, now, effects@),
                DocumentEvent::DirtyChanged => dirty_changed(
                    old(self),
                    final(self),
                    facts,
                    effects@,
                ),
                DocumentEvent::ScrollWebPreview { place } => {
                    &&& *final(self) == *old(self)
                    &&& effects@ == seq![Effect::ScrollWeb { place }]
                },
            },
    {
        match event {
            DocumentEvent::Status { text } => report(Notice::Message { text }),
            DocumentEvent::Conflict => report(Notice::FileChangedOnDisk),
            DocumentEvent::SaveAsRequested => {
                let mut effects: Vec<Effect> = Vec::new();
                effects.push(Effect::PromptSaveAs { document: facts.id });
                assert(effects@ =~= seq![Effect::PromptSaveAs { document: facts.id }]);
                effects
            },
            DocumentEvent::Edited => self.document_edited(facts, now),
            DocumentEvent::DirtyChanged => self.document_dirty_changed(facts),
            DocumentEvent::ScrollWebPreview { place } => {
                let mut effects: Vec<Effect> = Vec::new();
                effects.push(Effect::ScrollWeb { place });
                assert(effects@ =~= seq![Effect::ScrollWeb { place }]);
                effects
            },
        }
    }

    /// A tab is taken away, after the interlock has granted it.
    pub fn close_tab_unchecked(&mut self, document: DocumentId, path: Option<PathId>) -> (effects:
        Vec<Effect>)
        ensures
            old(self).well_formed() ==> final(self).well_formed(),
            tab_closed(old(self), final(self), document, path, effects@),
    {
        let mut effects = self.checkpoints.retire_document_recovery(document, None);
        let ghost retired = effects@;
        effects.push(Effect::CloseTab { document });
        match path {
            Some(path) => {
                effects.push(Effect::ForgetVisits { path });
            },
            None => {},
        }
        effects.push(Effect::SyncDocumentWatches);
        effects.push(Effect::RefreshWeb);
        assert(effects@ =~= retired + tab_closing(document, path));
        effects
    }

    /// Whether a preview tab has to be kept when another preview replaces it:
    /// its text is not saved, or the retirement of its record is not durable.
    pub open spec fn keeps_preview(&self, facts: DocumentFacts) -> bool {
        facts.dirty || self.retirements.pending@.contains_key(
            if self.startup_recovery_keys@.contains_key(facts.id) {
                self.startup_recovery_keys@[facts.id]
            } else {
                facts.key
            },
        )
    }

    /// Whether a preview tab has to be kept when another preview replaces it.
    pub fn preserves_preview(&self, facts: DocumentFacts) -> (preserve: bool)
        ensures
            preserve == self.keeps_preview(facts),
    {
        let key: RecoveryKey = match self.startup_recovery_keys.get(&facts.id) {
            Some(key) => *key,
            None => facts.key,
        };
        facts.dirty || self.retirements.is_undurable_recovery_retirement(key)
    }
}

/// How a document that has got a tab changes the lifecycle.
pub open spec fn inserted(
    before: &Lifecycle,
    after: &Lifecycle,
    facts: DocumentFacts,
    path: Option<PathId>,
    arm_dirty: bool,
    now: Instant,
    effects: Seq<Effect>,
) -> bool {
    let held = entry(before.checkpoints.states@, facts.id);
    let settled = visit_of(path) + seq![Effect::SyncDocumentWatches, Effect::RefreshWeb];
    &&& after.retirements == before.retirements
    &&& after.interlock == before.interlock
    &&& after.store_ready == before.store_ready
    &&& after.startup_recovery_pending == before.startup_recovery_pending
    &&& after.save_as_recovery_keys == before.save_as_recovery_keys
    &&& after.startup_recovery_keys@ == (if before.startup_recovery_pending {
        with_startup_key(before.startup_recovery_keys@, facts.id, facts.key)
    } else {
        before.startup_recovery_keys@
    })
    &&& if arm_dirty && facts.dirty {
        &&& after.protects(
            before,
            before.checkpoints.states@.insert(
                facts.id,
                tracked_state(held, facts.key, facts.revision),
            ),
        )
        &&& effects == arming_effects(
            held,
            facts.id,
            facts.key,
            facts.revision,
            now,
            before.store_ready,
        ) + settled
    } else {
        &&& after.checkpoints == before.checkpoints
        &&& effects == settled
    }
}

/// How typing changes the lifecycle: the queued decision on the document's
/// record is withdrawn, and its text is protected.
pub open spec fn edited(
    before: &Lifecycle,
    after: &Lifecycle,
    facts: DocumentFacts,
    now: Instant,
    effects: Seq<Effect>,
) -> bool {
    let held = entry(before.checkpoints.states@, facts.id);
    &&& after.retirements.pending@ == before.retirements.pending@.remove(facts.key)
    &&& after.retirements.tickets == before.retirements.tickets
    &&& after.retirements.batches == before.retirements.batches
    &&& after.retirements.retries == before.retirements.retries
    &&& after.interlock == before.interlock
    &&& after.same_storage(before)
    &&& after.protects(
        before,
        before.checkpoints.states@.insert(
            facts.id,
            tracked_state(held, facts.key, facts.revision),
        ),
    )
    &&& effects == arming_effects(
        held,
        facts.id,
        facts.key,
        facts.revision,
        now,
        before.store_ready,
    )
}

/// How a document that has become dirty or clean changes the lifecycle.
pub open spec fn dirty_changed(
    before: &Lifecycle,
    after: &Lifecycle,
    facts: DocumentFacts,
    effects: Seq<Effect>,
) -> bool {
    if facts.dirty {
        *after == *before && effects.len() == 0
    } else {
        &&& after.retirements == before.retirements
        &&& after.interlock == before.interlock
        &&& after.store_ready == before.store_ready
        &&& after.startup_recovery_pending == before.startup_recovery_pending
        &&& after.startup_recovery_keys@ == before.startup_recovery_keys@.remove(facts.id)
        &&& after.save_as_recovery_keys@ == (if before.startup_recovery_keys@.contains_key(
            facts.id,
        ) {
            before.save_as_recovery_keys@
        } else {
            before.save_as_recovery_keys@.remove(facts.id)
        })
        &&& after.protects(before, before.checkpoints.states@.remove(facts.id))
        &&& effects == retiring_effects(
            entry(before.checkpoints.states@, facts.id),
            facts.id,
            Some(before.saved_key(facts)),
        )
    }
}

/// How a tab that is taken away changes the lifecycle.
pub open spec fn tab_closed(
    before: &Lifecycle,
    after: &Lifecycle,
    document: DocumentId,
    path: Option<PathId>,
    effects: Seq<Effect>,
) -> bool {
    &&& after.same_but_checkpoints(before)
    &&& after.protects(before, before.checkpoints.states@.remove(document))
    &&& effects == retiring_effects(
        entry(before.checkpoints.states@, document),
        document,
        None,
    ) + tab_closing(document, path)
}

} // verus!
