//! Checkpoints of dirty documents: when one is taken, what cancels it, and when
//! the user has to be told that text is not protected.

use crate::effect::{
    AttemptId, AttemptTiming, CheckpointError, Effect, Instant, Notice, ScheduleStep, TokenId,
};
use crate::protection::{
    activated_states, all_warned, arming_effects, attempt_is_current, batch_report,
    cancellation, cancellations, dispatched_state, due_verdict, entry, flagged, fresh_state,
    grounded, grounded_states, grounding_effects, judged_state, last_error, launched,
    retiring_effects, same_attempt, settled_once, settled_states, settling_effects,
    settling_step, time_until, tracked_state, unprotected, visit_effects, visited_state, waking,
    without_keys, States,
};
use crate::scope::{enumerates, keys_of, lemma_push_contains, DocumentId, RecoveryKey};
use std::collections::{BTreeMap, BTreeSet};
use vstd::prelude::*;

verus! {

broadcast use vstd::std_specs::btree::group_btree_axioms;

/// One checkpoint on its way to the store.
#[derive(Clone, Copy, Debug, PartialEq, Eq, Structural)]
pub struct RecoveryAttempt {
    pub id: AttemptId,
    pub token: TokenId,
    pub revision: u64,
    pub timing: AttemptTiming,
    /// The flag named by `id` has been raised.
    pub cancelled: bool,
}

/// How a dirty document is protected.
#[derive(Clone, Copy, Debug, PartialEq, Eq, Structural)]
pub struct DocumentRecoveryState {
    pub key: RecoveryKey,
    pub revision: u64,
    /// A revision that is known not to fit into the store.
    pub suppressed_oversized_revision: Option<u64>,
    pub token: Option<TokenId>,
    pub in_flight: Option<RecoveryAttempt>,
    /// The current due boundary has already cancelled or warned while the
    /// worker remains occupied.
    pub deadline_reported: bool,
    pub protection_warning: bool,
}

/// What a checkpoint came to in the store.
#[derive(Clone, Copy, Debug, PartialEq, Eq, Structural)]
pub enum CheckpointOutcome {
    Written,
    Superseded,
    Deferred,
    Failed { error: CheckpointError },
}

/// One document's part of a finished batch of checkpoints.
#[derive(Clone, Copy, Debug, PartialEq, Eq, Structural)]
pub struct CheckpointResult {
    pub document: DocumentId,
    pub attempt: RecoveryAttempt,
    pub outcome: CheckpointOutcome,
}

/// What a checkpoint pass reads of an open document.
#[derive(Clone, Copy, Debug, PartialEq, Eq, Structural)]
pub struct DocumentFacts {
    pub id: DocumentId,
    pub dirty: bool,
    pub revision: u64,
    pub key: RecoveryKey,
    pub text_bytes: u64,
}

/// A checkpoint that a pass has decided to take.
#[derive(Clone, Copy, Debug, PartialEq, Eq, Structural)]
pub struct DueCheckpoint {
    pub document: DocumentId,
    pub attempt: RecoveryAttempt,
}

/// One walk over the open documents in search of due checkpoints.
pub struct CheckpointPass {
    pub now: Instant,
    pub worker_active: bool,
    pub open: BTreeSet<DocumentId>,
    pub active_keys: BTreeSet<RecoveryKey>,
    pub due: Vec<DueCheckpoint>,
    pub preflight_error: Option<CheckpointError>,
}

impl CheckpointPass {
    /// While the worker is occupied, a pass sends nothing on its way.
    pub open spec fn well_formed(&self) -> bool {
        self.worker_active ==> self.due@.len() == 0
    }
}

/// What ends a pass.
pub struct PassOutcome {
    pub effects: Vec<Effect>,
    /// The due checkpoints are to be written by the one background worker.
    pub run_worker: bool,
}

/// A wake-up for the earliest checkpoint deadline.
#[derive(Clone, Copy, Debug, PartialEq, Eq, Structural)]
pub struct TimerPlan {
    pub generation: u64,
    pub delay: Instant,
}

/// The protection of every dirty document.
pub struct Checkpoints {
    pub states: BTreeMap<DocumentId, DocumentRecoveryState>,
    /// The one batch of checkpoints this workspace may run is running.
    pub worker_active: bool,
    /// The user is being told that some dirty document is not protected.
    pub warning: bool,
    /// Bumped whenever the wake-up is replaced, so that one that fires late can
    /// be told from the current one.
    pub timer_generation: u64,
}

/// What becomes of a document whose checkpoint is due.
#[derive(Clone, Copy, Debug, PartialEq, Eq, Structural)]
pub enum DueVerdict {
    /// An attempt is running, or nothing is due.
    Nothing,
    /// This revision does not fit, and nothing has changed since.
    Suppressed,
    /// The worker is occupied; the user is told.
    WorkerBusy,
    /// This revision does not fit; the user is told.
    TooLarge,
    /// A checkpoint is to be taken now.
    Dispatch,
}

impl RecoveryAttempt {
    /// Whether `other` is this attempt, whatever has happened to its flag.
    pub fn is_same(&self, other: &RecoveryAttempt) -> (same: bool)
        ensures
            same == same_attempt(*self, *other),
    {
        self.id == other.id && self.token == other.token && self.revision == other.revision
            && self.timing == other.timing
    }
}

/// Whether a written checkpoint holds the text the document has now.
pub fn current_checkpoint_write_completed(
    attempt_is_current: bool,
    state_revision: u64,
    attempt_revision: u64,
    outcome: &CheckpointOutcome,
) -> (completed: bool)
    ensures
        completed == (attempt_is_current && state_revision == attempt_revision
            && *outcome is Written),
{
    attempt_is_current && state_revision == attempt_revision && matches!(
        outcome,
        CheckpointOutcome::Written
    )
}

impl Checkpoints {
    /// What every operation keeps: a revision that does not fit is known to be
    /// unprotected, and nothing is under way for it.
    pub open spec fn well_formed(&self) -> bool {
        all_warned(self.states@)
    }

    /// No document is dirty.
    pub fn new() -> (checkpoints: Self)
        ensures
            checkpoints.well_formed(),
            checkpoints.states@ == States::empty(),
            !checkpoints.worker_active,
            !checkpoints.warning,
            checkpoints.timer_generation == 0,
    {
        Checkpoints {
            states: BTreeMap::new(),
            worker_active: false,
            warning: false,
            timer_generation: 0,
        }
    }

    /// The state of `document`, if it is protected.
    pub fn state_of(&self, document: DocumentId) -> (state: Option<DocumentRecoveryState>)
        ensures
            state == entry(self.states@, document),
    {
        match self.states.get(&document) {
            Some(state) => Some(*state),
            None => None,
        }
    }

    /// Tell the user exactly while some dirty document is not protected.
    pub fn refresh_recovery_warning(&mut self)
        ensures
            old(self).well_formed() ==> final(self).well_formed(),
            final(self).states == old(self).states,
            final(self).worker_active == old(self).worker_active,
            final(self).timer_generation == old(self).timer_generation,
            final(self).warning == unprotected(old(self).states@),
    {
        let ids = keys_of(&self.states);
        let mut i: usize = 0;
        while i < ids.len()
            invariant
                i <= ids.len(),
                *self == *old(self),
                forall|j: int| 0 <= j < ids.len() ==> self.states@.contains_key(#[trigger] ids[j]),
                forall|j: int| 0 <= j < i ==> !self.states@[#[trigger] ids[j]].protection_warning,
            decreases ids.len() - i,
        {
            let id: DocumentId = ids[i];
            match self.states.get(&id) {
                Some(state) => {
                    if state.protection_warning {
                        self.warning = true;
                        return;
                    }
                },
                None => {},
            }
            i = i + 1;
        }
        self.warning = false;
        proof {
            assert forall|id: DocumentId| #[trigger] self.states@.contains_key(
                id,
            ) implies !self.states@[id].protection_warning by {
                assert(ids@.contains(id));
                assert(ids@[ids@.index_of(id)] == id);
            }
        }
    }

    /// Protect `revision` of a dirty document under `key`.
    pub fn arm_document_recovery_at(
        &mut self,
        document: DocumentId,
        revision: u64,
        key: RecoveryKey,
        now: Instant,
        store_ready: bool,
    ) -> (effects: Vec<Effect>)
        ensures
            old(self).well_formed() ==> final(self).well_formed(),
            final(self).states@ == old(self).states@.insert(
                document,
                tracked_state(entry(old(self).states@, document), key, revision),
            ),
            final(self).worker_active == old(self).worker_active,
            final(self).timer_generation == old(self).timer_generation,
            final(self).warning == unprotected(final(self).states@),
            effects@ == arming_effects(
                entry(old(self).states@, document),
                document,
                key,
                revision,
                now,
                store_ready,
            ),
    {
        let mut effects: Vec<Effect> = Vec::new();
        let before = self.state_of(document);
        let activate = Effect::ActivateToken { document, key };
        let reset = Effect::Schedule { document, step: ScheduleStep::Reset };
        let dirty = Effect::Schedule { document, step: ScheduleStep::MarkDirty { now } };
        let state = match before {
            None => {
                effects.push(reset);
                effects.push(dirty);
                if store_ready {
                    effects.push(activate);
                }
                new_state(key, revision)
            },
            Some(state) => {
                if state.key != key {
                    push_cancellation(&state, &mut effects);
                    effects.push(Effect::Invalidate { key: state.key, document: Some(document) });
                    if store_ready {
                        effects.push(activate);
                    }
                    effects.push(reset);
                    effects.push(dirty);
                    new_state(key, revision)
                } else {
                    let mut state = state;
                    if state.revision != revision {
                        push_cancellation(&state, &mut effects);
                        if state.suppressed_oversized_revision.is_some() {
                            effects.push(reset);
                        }
                        state = raise_flag(state);
                        state.suppressed_oversized_revision = None;
                        state.revision = revision;
                    }
                    if state.token.is_none() && store_ready {
                        effects.push(activate);
                    }
                    effects.push(dirty);
                    state
                }
            },
        };
        self.states.insert(document, state);
        self.refresh_recovery_warning();
        effects.push(Effect::RescheduleTimer);
        assert(effects@ =~= arming_effects(
            entry(old(self).states@, document),
            document,
            key,
            revision,
            now,
            store_ready,
        ));
        effects
    }

    /// The store has made `key` active. Where it could not promise protection
    /// yet, the user is told.
    pub fn token_activated(
        &mut self,
        document: DocumentId,
        key: RecoveryKey,
        token: TokenId,
        protection_deferred: bool,
    )
        ensures
            old(self).well_formed() ==> final(self).well_formed(),
            final(self).states@ == activated_states(
                old(self).states@,
                document,
                key,
                token,
                protection_deferred,
            ),
            final(self).worker_active == old(self).worker_active,
            final(self).timer_generation == old(self).timer_generation,
            final(self).warning == unprotected(final(self).states@),
    {
        match self.state_of(document) {
            Some(state) => {
                if state.key == key {
                    let mut state = state;
                    state.token = Some(token);
                    if protection_deferred {
                        state.protection_warning = true;
                    }
                    self.states.insert(document, state);
                }
            },
            None => {},
        }
        self.refresh_recovery_warning();
    }

    /// A document restored from a checkpoint that is already durable.
    pub fn register_restored_recovery(
        &mut self,
        document: DocumentId,
        key: RecoveryKey,
        revision: u64,
        now: Instant,
        store_ready: bool,
    ) -> (effects: Vec<Effect>)
        ensures
            old(self).well_formed() ==> final(self).well_formed(),
            !store_ready ==> *final(self) == *old(self) && effects@.len() == 0,
            store_ready ==> {
                &&& final(self).states@ == old(self).states@.insert(
                    document,
                    fresh_state(key, revision),
                )
                &&& final(self).worker_active == old(self).worker_active
                &&& final(self).timer_generation == old(self).timer_generation
                &&& final(self).warning == unprotected(final(self).states@)
                &&& effects@ == seq![
                    Effect::ActivateToken { document, key },
                    Effect::Schedule { document, step: ScheduleStep::Reset },
                    Effect::Schedule {
                        document,
                        step: ScheduleStep::MarkDurableBaseline { at: now },
                    },
                    Effect::RescheduleTimer,
                ]
            },
    {
        let mut effects: Vec<Effect> = Vec::new();
        if !store_ready {
            return effects;
        }
        effects.push(Effect::ActivateToken { document, key });
        effects.push(Effect::Schedule { document, step: ScheduleStep::Reset });
        effects.push(
            Effect::Schedule { document, step: ScheduleStep::MarkDurableBaseline { at: now } },
        );
        self.states.insert(document, new_state(key, revision));
        effects.push(Effect::RescheduleTimer);
        self.refresh_recovery_warning();
        effects
    }

    /// Stop protecting one document.
    pub fn remove_recovery_schedule(&mut self, document: DocumentId, effects: &mut Vec<Effect>) -> (
    key: Option<RecoveryKey>)
        ensures
            old(self).well_formed() ==> final(self).well_formed(),
            final(self).states@ == old(self).states@.remove(document),
            final(self).worker_active == old(self).worker_active,
            final(self).timer_generation == old(self).timer_generation,
            final(self).warning == unprotected(final(self).states@),
            key == (match entry(old(self).states@, document) {
                Some(state) => Some(state.key),
                None => None,
            }),
            final(effects)@ == old(effects)@ + (match entry(old(self).states@, document) {
                Some(state) => cancellation(state),
                None => Seq::empty(),
            }).push(Effect::RescheduleTimer),
    {
        let key = match self.state_of(document) {
            Some(state) => {
                push_cancellation(&state, effects);
                Some(state.key)
            },
            None => None,
        };
        self.states.remove(&document);
        effects.push(Effect::RescheduleTimer);
        self.refresh_recovery_warning();
        assert(effects@ =~= old(effects)@ + (match entry(old(self).states@, document) {
            Some(state) => cancellation(state),
            None => Seq::empty(),
        }).push(Effect::RescheduleTimer));
        key
    }

    /// The last intentional decision on a buffer: its deadline goes, then the
    /// record that protected it, or `fallback` where none did.
    pub fn retire_document_recovery(
        &mut self,
        document: DocumentId,
        fallback: Option<RecoveryKey>,
    ) -> (effects: Vec<Effect>)
        ensures
            old(self).well_formed() ==> final(self).well_formed(),
            final(self).states@ == old(self).states@.remove(document),
            final(self).worker_active == old(self).worker_active,
            final(self).timer_generation == old(self).timer_generation,
            final(self).warning == unprotected(final(self).states@),
            effects@ == retiring_effects(entry(old(self).states@, document), document, fallback),
    {
        let mut effects: Vec<Effect> = Vec::new();
        let key = match self.remove_recovery_schedule(document, &mut effects) {
            Some(key) => Some(key),
            None => fallback,
        };
        match key {
            Some(key) => {
                effects.push(Effect::Invalidate { key, document: Some(document) });
            },
            None => {},
        }
        assert(effects@ =~= retiring_effects(
            entry(old(self).states@, document),
            document,
            fallback,
        ));
        effects
    }

    /// Take every attempt that writes under one of `keys` out of flight,
    /// together with the capability to start another one.
    pub fn cancel_recovery_attempts_for_keys(
        &mut self,
        keys: &BTreeSet<RecoveryKey>,
        now: Instant,
        effects: &mut Vec<Effect>,
    )
        ensures
            old(self).well_formed() ==> final(self).well_formed(),
            final(self).states@ == grounded_states(old(self).states@, keys@, now),
            final(self).worker_active == old(self).worker_active,
            final(self).timer_generation == old(self).timer_generation,
            final(self).warning == old(self).warning,
            exists|order: Seq<DocumentId>|
                enumerates(order, old(self).states@.dom()) && final(effects)@ == old(effects)@
                    + #[trigger] grounding_effects(order, old(self).states@, keys@, now),
    {
        let ids = keys_of(&self.states);
        let ghost before = self.states@;
        let mut i: usize = 0;
        while i < ids.len()
            invariant
                i <= ids.len(),
                ids@.no_duplicates(),
                before == old(self).states@,
                forall|j: int| 0 <= j < ids.len() ==> before.contains_key(#[trigger] ids[j]),
                self.worker_active == old(self).worker_active,
                self.timer_generation == old(self).timer_generation,
                self.warning == old(self).warning,
                self.states@.dom() == before.dom(),
                forall|id: DocumentId| #[trigger]
                    before.contains_key(id) ==> self.states@[id] == (if ids@.take(
                        i as int,
                    ).contains(id) {
                        grounded(before[id], keys@, now)
                    } else {
                        before[id]
                    }),
                effects@ == old(effects)@ + grounding_effects(
                    ids@.take(i as int),
                    before,
                    keys@,
                    now,
                ),
            decreases ids.len() - i,
        {
            let id: DocumentId = ids[i];
            proof {
                assert(ids@.take(i + 1) =~= ids@.take(i as int).push(id));
                assert(ids@.take(i + 1).drop_last() =~= ids@.take(i as int));
                lemma_push_contains(ids@.take(i as int), id);
                assert(!ids@.take(i as int).contains(id));
                assert(before.contains_key(id));
            }
            match self.state_of(id) {
                Some(state) => {
                    if keys.contains(&state.key) {
                        let mut state = state;
                        match state.in_flight {
                            Some(attempt) => {
                                effects.push(Effect::CancelAttempt { attempt: attempt.id });
                                let timing = attempt.timing;
                                if now >= timing.durable_complete_by {
                                    effects.push(
                                        Effect::Schedule {
                                            document: id,
                                            step: ScheduleStep::DeadlineMissed { timing, now },
                                        },
                                    );
                                    state.protection_warning = true;
                                } else {
                                    effects.push(
                                        Effect::Schedule {
                                            document: id,
                                            step: ScheduleStep::Cancelled { timing, now },
                                        },
                                    );
                                }
                                state.in_flight = None;
                            },
                            None => {},
                        }
                        state.token = None;
                        self.states.insert(id, state);
                        assert(self.states@.dom() =~= before.dom());
                    }
                },
                None => {},
            }
            assert(effects@ =~= old(effects)@ + grounding_effects(
                ids@.take(i + 1),
                before,
                keys@,
                now,
            ));
            i = i + 1;
        }
        proof {
            assert(ids@.take(ids.len() as int) =~= ids@);
            assert(self.states@ =~= grounded_states(before, keys@, now));
            assert(enumerates(ids@, before.dom()));
        }
    }

    /// Stop protecting every document under one of `keys`.
    pub fn remove_recovery_state_for_keys(
        &mut self,
        keys: &BTreeSet<RecoveryKey>,
        effects: &mut Vec<Effect>,
    )
        ensures
            old(self).well_formed() ==> final(self).well_formed(),
            final(self).states@ == without_keys(old(self).states@, keys@),
            final(self).worker_active == old(self).worker_active,
            final(self).timer_generation == old(self).timer_generation,
            final(self).warning == unprotected(final(self).states@),
            exists|order: Seq<DocumentId>|
                enumerates(order, old(self).states@.dom()) && final(effects)@ == (old(effects)@
                    + #[trigger] cancellations(order, old(self).states@, keys@)).push(
                    Effect::RescheduleTimer,
                ),
    {
        let ids = keys_of(&self.states);
        let ghost before = self.states@;
        let mut i: usize = 0;
        while i < ids.len()
            invariant
                i <= ids.len(),
                ids@.no_duplicates(),
                before == old(self).states@,
                forall|j: int| 0 <= j < ids.len() ==> before.contains_key(#[trigger] ids[j]),
                self.worker_active == old(self).worker_active,
                self.timer_generation == old(self).timer_generation,
                forall|id: DocumentId|
                    self.states@.contains_key(id) <==> before.contains_key(id) && !(ids@.take(
                        i as int,
                    ).contains(id) && keys@.contains(before[id].key)),
                forall|id: DocumentId| #[trigger]
                    self.states@.contains_key(id) ==> self.states@[id] == before[id],
                effects@ == old(effects)@ + cancellations(ids@.take(i as int), before, keys@),
            decreases ids.len() - i,
        {
            let id: DocumentId = ids[i];
            proof {
                assert(ids@.take(i + 1) =~= ids@.take(i as int).push(id));
                assert(ids@.take(i + 1).drop_last() =~= ids@.take(i as int));
                lemma_push_contains(ids@.take(i as int), id);
                assert(!ids@.take(i as int).contains(id));
                assert(before.contains_key(id));
            }
            match self.state_of(id) {
                Some(state) => {
                    if keys.contains(&state.key) {
                        push_cancellation(&state, effects);
                        self.states.remove(&id);
                    }
                },
                None => {},
            }
            assert(effects@ =~= old(effects)@ + cancellations(ids@.take(i + 1), before, keys@));
            i = i + 1;
        }
        proof {
            assert(ids@.take(ids.len() as int) =~= ids@);
            assert forall|id: DocumentId| before.contains_key(id) implies ids@.contains(id) by {}
            assert(self.states@ =~= without_keys(before, keys@));
            assert(enumerates(ids@, before.dom()));
        }
        effects.push(Effect::RescheduleTimer);
        self.refresh_recovery_warning();
    }

    /// Without a store nothing can be written: say so of every document whose
    /// schedule is due.
    pub fn checkpoint_without_store(&mut self, due: &BTreeSet<DocumentId>) -> (effects: Vec<Effect>)
        ensures
            old(self).well_formed() ==> final(self).well_formed(),
            final(self).states@ == old(self).states@.map_entries(
                |id: DocumentId, state: DocumentRecoveryState|
                    DocumentRecoveryState {
                        protection_warning: state.protection_warning || (state.in_flight is None
                            && due@.contains(id)),
                        ..state
                    },
            ),
            final(self).worker_active == old(self).worker_active,
            final(self).timer_generation == old(self).timer_generation,
            final(self).warning == unprotected(final(self).states@),
            effects@ == seq![Effect::RescheduleTimer],
    {
        let ids = keys_of(&self.states);
        let ghost before = self.states@;
        let ghost warned = |id: DocumentId, state: DocumentRecoveryState|
            DocumentRecoveryState {
                protection_warning: state.protection_warning || (state.in_flight is None
                    && due@.contains(id)),
                ..state
            };
        let mut i: usize = 0;
        while i < ids.len()
            invariant
                i <= ids.len(),
                ids@.no_duplicates(),
                before == old(self).states@,
                forall|id: DocumentId, state: DocumentRecoveryState| #[trigger]
                    warned(id, state) == (DocumentRecoveryState {
                        protection_warning: state.protection_warning || (state.in_flight is None
                            && due@.contains(id)),
                        ..state
                    }),
                forall|j: int| 0 <= j < ids.len() ==> before.contains_key(#[trigger] ids[j]),
                self.worker_active == old(self).worker_active,
                self.timer_generation == old(self).timer_generation,
                self.states@.dom() == before.dom(),
                forall|id: DocumentId| #[trigger]
                    before.contains_key(id) ==> self.states@[id] == (if ids@.take(
                        i as int,
                    ).contains(id) {
                        warned(id, before[id])
                    } else {
                        before[id]
                    }),
            decreases ids.len() - i,
        {
            let id: DocumentId = ids[i];
            proof {
                assert(ids@.take(i + 1) =~= ids@.take(i as int).push(id));
                lemma_push_contains(ids@.take(i as int), id);
                assert(!ids@.take(i as int).contains(id));
                assert(before.contains_key(id));
            }
            match self.state_of(id) {
                Some(state) => {
                    if state.in_flight.is_none() && due.contains(&id) {
                        let mut state = state;
                        state.protection_warning = true;
                        self.states.insert(id, state);
                        assert(self.states@.dom() =~= before.dom());
                    }
                },
                None => {},
            }
            i = i + 1;
        }
        proof {
            assert(ids@.take(ids.len() as int) =~= ids@);
            assert(self.states@ =~= before.map_entries(warned));
        }
        self.refresh_recovery_warning();
        let mut effects: Vec<Effect> = Vec::new();
        effects.push(Effect::RescheduleTimer);
        effects
    }

    /// Start a walk over the open documents.
    pub fn begin_checkpoint_pass(&self, now: Instant) -> (pass: CheckpointPass)
        ensures
            pass.now == now,
            pass.worker_active == self.worker_active,
            pass.open@ == Set::<DocumentId>::empty(),
            pass.active_keys@ == Set::<RecoveryKey>::empty(),
            pass.due@.len() == 0,
            pass.preflight_error is None,
            pass.well_formed(),
    {
        CheckpointPass {
            now,
            worker_active: self.worker_active,
            open: BTreeSet::new(),
            active_keys: BTreeSet::new(),
            due: Vec::new(),
            preflight_error: None,
        }
    }

    /// Look at one open document. A clean one is no longer protected and its
    /// record is retired; a dirty one is brought up to date, and an attempt
    /// that has run out of time is cancelled and reported once.
    pub fn visit_document(&mut self, pass: &mut CheckpointPass, facts: DocumentFacts) -> (effects:
        Vec<Effect>)
        ensures
            old(self).well_formed() ==> final(self).well_formed(),
            final(pass).now == old(pass).now,
            final(pass).worker_active == old(pass).worker_active,
            final(pass).due == old(pass).due,
            old(pass).well_formed() ==> final(pass).well_formed(),
            final(pass).preflight_error == old(pass).preflight_error,
            final(pass).open@ == old(pass).open@.insert(facts.id),
            final(pass).active_keys@ == (if facts.dirty {
                old(pass).active_keys@.insert(facts.key)
            } else {
                old(pass).active_keys@
            }),
            final(self).worker_active == old(self).worker_active,
            final(self).timer_generation == old(self).timer_generation,
            final(self).warning == old(self).warning,
            final(self).states@ == (if facts.dirty {
                old(self).states@.insert(
                    facts.id,
                    visited_state(entry(old(self).states@, facts.id), facts, old(pass).now),
                )
            } else {
                old(self).states@.remove(facts.id)
            }),
            effects@ == (if facts.dirty {
                visit_effects(entry(old(self).states@, facts.id), facts, old(pass).now)
            } else {
                match entry(old(self).states@, facts.id) {
                    Some(state) => seq![
                        Effect::Invalidate { key: state.key, document: Some(facts.id) },
                    ],
                    None => Seq::empty(),
                }
            }),
    {
        let mut effects: Vec<Effect> = Vec::new();
        let document = facts.id;
        let now: Instant = pass.now;
        pass.open.insert(document);
        let before = self.state_of(document);
        if !facts.dirty {
            match before {
                Some(state) => {
                    self.states.remove(&document);
                    effects.push(Effect::Invalidate { key: state.key, document: Some(document) });
                },
                None => {},
            }
            assert(self.states@ =~= old(self).states@.remove(document));
            return effects;
        }
        pass.active_keys.insert(facts.key);
        let activate = Effect::ActivateToken { document, key: facts.key };
        let reset = Effect::Schedule { document, step: ScheduleStep::Reset };
        let dirty = Effect::Schedule { document, step: ScheduleStep::MarkDirty { now } };
        let state = match before {
            None => {
                effects.push(reset);
                effects.push(dirty);
                effects.push(activate);
                new_state(facts.key, facts.revision)
            },
            Some(state) => {
                if state.key != facts.key {
                    push_cancellation(&state, &mut effects);
                    effects.push(Effect::Invalidate { key: state.key, document: Some(document) });
                    effects.push(activate);
                    effects.push(reset);
                    effects.push(dirty);
                    new_state(facts.key, facts.revision)
                } else if state.revision != facts.revision {
                    push_cancellation(&state, &mut effects);
                    if state.suppressed_oversized_revision.is_some() {
                        effects.push(reset);
                    }
                    effects.push(dirty);
                    let mut state = raise_flag(state);
                    state.suppressed_oversized_revision = None;
                    state.revision = facts.revision;
                    state
                } else {
                    state
                }
            },
        };
        assert(state == tracked_state(before, facts.key, facts.revision));
        let mut state = state;
        match state.in_flight {
            Some(attempt) => {
                let timing = attempt.timing;
                if now >= timing.durable_complete_by && !state.deadline_reported {
                    effects.push(Effect::CancelAttempt { attempt: attempt.id });
                    effects.push(
                        Effect::Schedule {
                            document,
                            step: ScheduleStep::DeadlineMissed { timing, now },
                        },
                    );
                    state = raise_flag(state);
                    state.deadline_reported = true;
                    state.protection_warning = true;
                }
            },
            None => {},
        }
        self.states.insert(document, state);
        assert(effects@ =~= visit_effects(before, facts, now));
        effects
    }

    /// Decide on a document that was just visited, where its schedule says
    /// `due` and the store admits texts of up to `ceiling` bytes.
    pub fn judge_document(
        &mut self,
        pass: &mut CheckpointPass,
        facts: DocumentFacts,
        due: bool,
        ceiling: u64,
    ) -> (verdict: DueVerdict)
        ensures
            old(self).well_formed() ==> final(self).well_formed(),
            final(pass).now == old(pass).now,
            final(pass).worker_active == old(pass).worker_active,
            final(pass).due == old(pass).due,
            old(pass).well_formed() ==> final(pass).well_formed(),
            final(pass).open == old(pass).open,
            final(pass).active_keys == old(pass).active_keys,
            final(pass).preflight_error == (if verdict is TooLarge {
                Some(CheckpointError::Oversized { bytes: facts.text_bytes, limit: ceiling })
            } else {
                old(pass).preflight_error
            }),
            final(self).worker_active == old(self).worker_active,
            final(self).timer_generation == old(self).timer_generation,
            final(self).warning == old(self).warning,
            match entry(old(self).states@, facts.id) {
                Some(state) => {
                    &&& verdict == due_verdict(
                        state,
                        facts,
                        due,
                        old(pass).worker_active,
                        ceiling,
                    )
                    &&& final(self).states@ == old(self).states@.insert(
                        facts.id,
                        judged_state(state, facts, verdict),
                    )
                },
                None => verdict is Nothing && final(self).states@ == old(self).states@,
            },
    {
        match self.state_of(facts.id) {
            Some(state) => {
                let mut state = state;
                let verdict = if state.in_flight.is_some() || !due {
                    DueVerdict::Nothing
                } else if state.suppressed_oversized_revision == Some(facts.revision) {
                    DueVerdict::Suppressed
                } else if pass.worker_active {
                    state.deadline_reported = true;
                    state.protection_warning = true;
                    DueVerdict::WorkerBusy
                } else if facts.text_bytes > ceiling {
                    state.suppressed_oversized_revision = Some(facts.revision);
                    state.protection_warning = true;
                    pass.preflight_error = Some(
                        CheckpointError::Oversized { bytes: facts.text_bytes, limit: ceiling },
                    );
                    DueVerdict::TooLarge
                } else {
                    DueVerdict::Dispatch
                };
                self.states.insert(facts.id, state);
                verdict
            },
            None => DueVerdict::Nothing,
        }
    }

    /// Whether a document's text may go on its way to the store.
    pub open spec fn may_dispatch(&self, pass: &CheckpointPass, document: DocumentId) -> bool {
        !pass.worker_active && (entry(self.states@, document) matches Some(state)
            && state.in_flight is None && state.suppressed_oversized_revision != Some(
            state.revision,
        ))
    }

    /// Send a document's text on its way to the store, under the token that is
    /// current now. Nothing is sent while the worker is occupied, while an
    /// attempt for the document is under way, or of a revision that does not
    /// fit.
    pub fn dispatch_checkpoint(
        &mut self,
        pass: &mut CheckpointPass,
        facts: DocumentFacts,
        token: TokenId,
        timing: AttemptTiming,
        attempt: AttemptId,
    ) -> (dispatched: bool)
        ensures
            old(self).well_formed() ==> final(self).well_formed(),
            dispatched == old(self).may_dispatch(old(pass), facts.id),
            !dispatched ==> *final(self) == *old(self) && *final(pass) == *old(pass),
            dispatched ==> {
                &&& final(pass).now == old(pass).now
                &&& final(pass).worker_active == old(pass).worker_active
                &&& final(pass).open == old(pass).open
                &&& final(pass).active_keys == old(pass).active_keys
                &&& final(pass).preflight_error == old(pass).preflight_error
                &&& final(pass).due@ == old(pass).due@.push(
                    DueCheckpoint {
                        document: facts.id,
                        attempt: launched(facts, token, timing, attempt),
                    },
                )
                &&& final(self).worker_active == old(self).worker_active
                &&& final(self).timer_generation == old(self).timer_generation
                &&& final(self).warning == old(self).warning
                &&& final(self).states@ == old(self).states@.insert(
                    facts.id,
                    dispatched_state(
                        old(self).states@[facts.id],
                        launched(facts, token, timing, attempt),
                    ),
                )
            },
            old(pass).well_formed() ==> final(pass).well_formed(),
    {
        if pass.worker_active {
            return false;
        }
        match self.state_of(facts.id) {
            Some(state) => {
                if state.in_flight.is_some() || state.suppressed_oversized_revision == Some(
                    state.revision,
                ) {
                    return false;
                }
                let attempt = RecoveryAttempt {
                    id: attempt,
                    token,
                    revision: facts.revision,
                    timing,
                    cancelled: false,
                };
                let mut state = state;
                state.token = Some(token);
                state.in_flight = Some(attempt);
                state.deadline_reported = false;
                self.states.insert(facts.id, state);
                pass.due.push(DueCheckpoint { document: facts.id, attempt });
                true
            },
            None => false,
        }
    }

    /// End a walk: documents that are no longer open are forgotten, and what is
    /// due is handed to the one background worker.
    pub fn finish_checkpoint_pass(&mut self, pass: &CheckpointPass) -> (outcome: PassOutcome)
        ensures
            old(self).well_formed() ==> final(self).well_formed(),
            final(self).states@ == old(self).states@.restrict(pass.open@),
            final(self).timer_generation == old(self).timer_generation,
            final(self).warning == unprotected(final(self).states@),
            outcome.run_worker == (pass.due@.len() > 0),
            pass.well_formed() && outcome.run_worker ==> !pass.worker_active,
            final(self).worker_active == (old(self).worker_active || outcome.run_worker),
            outcome.effects@ == (match pass.preflight_error {
                Some(error) => seq![
                    Effect::Report {
                        notice: Notice::CheckpointBatch { issues: 0, error: Some(error) },
                    },
                ],
                None => Seq::empty(),
            }).push(Effect::RescheduleTimer),
    {
        let ids = keys_of(&self.states);
        let ghost before = self.states@;
        let mut i: usize = 0;
        while i < ids.len()
            invariant
                i <= ids.len(),
                ids@.no_duplicates(),
                before == old(self).states@,
                forall|j: int| 0 <= j < ids.len() ==> before.contains_key(#[trigger] ids[j]),
                self.worker_active == old(self).worker_active,
                self.timer_generation == old(self).timer_generation,
                forall|id: DocumentId|
                    self.states@.contains_key(id) <==> before.contains_key(id) && !(ids@.take(
                        i as int,
                    ).contains(id) && !pass.open@.contains(id)),
                forall|id: DocumentId| #[trigger]
                    self.states@.contains_key(id) ==> self.states@[id] == before[id],
            decreases ids.len() - i,
        {
            let id: DocumentId = ids[i];
            proof {
                assert(ids@.take(i + 1) =~= ids@.take(i as int).push(id));
                lemma_push_contains(ids@.take(i as int), id);
            }
            if !pass.open.contains(&id) {
                self.states.remove(&id);
            }
            i = i + 1;
        }
        proof {
            assert(ids@.take(ids.len() as int) =~= ids@);
            let kept = before.restrict(pass.open@);
            assert forall|id: DocumentId| #[trigger] self.states@.contains_key(id)
                <==> kept.contains_key(id) by {
                if before.contains_key(id) {
                    assert(ids@.contains(id));
                }
            }
            assert(self.states@ =~= kept);
        }
        self.refresh_recovery_warning();
        let mut effects: Vec<Effect> = Vec::new();
        match pass.preflight_error {
            Some(error) => {
                effects.push(
                    Effect::Report {
                        notice: Notice::CheckpointBatch { issues: 0, error: Some(error) },
                    },
                );
            },
            None => {},
        }
        let run_worker = pass.due.len() > 0;
        if run_worker {
            self.worker_active = true;
        }
        effects.push(Effect::RescheduleTimer);
        PassOutcome { effects, run_worker }
    }

    /// A batch of checkpoints has come back from the store at
    /// `store_returned_at`. Only an attempt that is still in flight changes
    /// anything; a worker that this releases makes room for another pass.
    pub fn finish_recovery_checkpoints(
        &mut self,
        results: &Vec<CheckpointResult>,
        maintenance_issues: u64,
        store_returned_at: Instant,
        now: Instant,
    ) -> (effects: Vec<Effect>)
        ensures
            old(self).well_formed() ==> final(self).well_formed(),
            final(self).states@ == settled_states(old(self).states@, results@, store_returned_at),
            !final(self).worker_active,
            final(self).timer_generation == old(self).timer_generation,
            final(self).warning == unprotected(final(self).states@),
            effects@ == settling_effects(old(self).states@, results@, store_returned_at)
                + batch_report(
                maintenance_issues,
                last_error(old(self).states@, results@, store_returned_at),
            ) + (if old(self).worker_active {
                seq![Effect::CheckpointDue { now }]
            } else {
                seq![Effect::RescheduleTimer]
            }),
    {
        let worker_released = self.worker_active;
        self.worker_active = false;
        let mut effects: Vec<Effect> = Vec::new();
        let mut last: Option<CheckpointError> = None;
        let ghost before = self.states@;
        let mut i: usize = 0;
        while i < results.len()
            invariant
                i <= results.len(),
                before == old(self).states@,
                old(self).well_formed() ==> self.well_formed(),
                !self.worker_active,
                self.timer_generation == old(self).timer_generation,
                self.states@ == settled_states(before, results@.take(i as int), store_returned_at),
                effects@ == settling_effects(before, results@.take(i as int), store_returned_at),
                last == last_error(before, results@.take(i as int), store_returned_at),
            decreases results.len() - i,
        {
            let result: CheckpointResult = results[i];
            proof {
                assert(results@.take(i + 1).drop_last() =~= results@.take(i as int));
                assert(results@.take(i + 1).last() == result);
            }
            self.settle_result(&result, store_returned_at, &mut effects, &mut last);
            i = i + 1;
        }
        assert(results@.take(results.len() as int) =~= results@);
        if maintenance_issues > 0 || last.is_some() {
            effects.push(
                Effect::Report {
                    notice: Notice::CheckpointBatch { issues: maintenance_issues, error: last },
                },
            );
        }
        self.refresh_recovery_warning();
        if worker_released {
            effects.push(Effect::CheckpointDue { now });
        } else {
            effects.push(Effect::RescheduleTimer);
        }
        assert(effects@ =~= settling_effects(before, results@, store_returned_at) + batch_report(
            maintenance_issues,
            last_error(before, results@, store_returned_at),
        ) + (if old(self).worker_active {
            seq![Effect::CheckpointDue { now }]
        } else {
            seq![Effect::RescheduleTimer]
        }));
        effects
    }

    /// Take one document's part of a batch.
    fn settle_result(
        &mut self,
        result: &CheckpointResult,
        store_returned_at: Instant,
        effects: &mut Vec<Effect>,
        last: &mut Option<CheckpointError>,
    )
        ensures
            old(self).well_formed() ==> final(self).well_formed(),
            final(self).states@ == settled_once(old(self).states@, *result, store_returned_at),
            final(self).worker_active == old(self).worker_active,
            final(self).timer_generation == old(self).timer_generation,
            final(self).warning == old(self).warning,
            final(effects)@ == old(effects)@ + settling_step(
                old(self).states@,
                *result,
                store_returned_at,
            ),
            *final(last) == (match (result.outcome, attempt_is_current(old(self).states@, *result)) {
                (CheckpointOutcome::Failed { error }, true) => Some(error),
                _ => *old(last),
            }),
    {
        let document: DocumentId = result.document;
        let state = match self.state_of(document) {
            Some(state) => state,
            None => {
                return ;
            },
        };
        let current = match state.in_flight {
            Some(attempt) => attempt,
            None => {
                return ;
            },
        };
        if !current.is_same(&result.attempt) {
            return ;
        }
        let mut state = state;
        let timing = current.timing;
        let deadline_reported = state.deadline_reported;
        state.in_flight = None;
        state.deadline_reported = false;
        let same_revision = state.revision == current.revision;
        let oversized = match result.outcome {
            CheckpointOutcome::Failed { error } => match error {
                CheckpointError::Oversized { bytes: _, limit: _ } => true,
                CheckpointError::Reported { text: _ } => false,
            },
            _ => false,
        };
        let mut step: Option<ScheduleStep> = None;
        if same_revision && oversized {
            state.suppressed_oversized_revision = Some(current.revision);
            state.protection_warning = true;
        } else if store_returned_at > timing.durable_complete_by {
            if !deadline_reported {
                step = Some(ScheduleStep::DeadlineMissed { timing, now: store_returned_at });
            }
            state.protection_warning = true;
        } else {
            match result.outcome {
                CheckpointOutcome::Written => {
                    if deadline_reported && same_revision {
                        step = Some(ScheduleStep::MarkDurableBaseline { at: timing.snapshot_at });
                    } else if !deadline_reported {
                        step = Some(ScheduleStep::Written { timing });
                    }
                    if same_revision {
                        state.protection_warning = false;
                    }
                },
                CheckpointOutcome::Superseded => {
                    if !deadline_reported {
                        step = Some(
                            if current.cancelled {
                                ScheduleStep::Cancelled { timing, now: store_returned_at }
                            } else {
                                ScheduleStep::Superseded { timing }
                            },
                        );
                    }
                },
                CheckpointOutcome::Deferred => {
                    if !deadline_reported {
                        step = Some(ScheduleStep::Failed { timing, now: store_returned_at });
                        state.protection_warning = true;
                    }
                },
                CheckpointOutcome::Failed { error: _ } => {
                    if !deadline_reported {
                        step = Some(ScheduleStep::Failed { timing, now: store_returned_at });
                        state.protection_warning = true;
                    }
                },
            }
        }
        match step {
            Some(step) => {
                effects.push(Effect::Schedule { document, step });
            },
            None => {},
        }
        match result.outcome {
            CheckpointOutcome::Failed { error } => {
                *last = Some(error);
            },
            _ => {},
        }
        self.states.insert(document, state);
        assert(effects@ =~= old(effects)@ + settling_step(
            old(self).states@,
            *result,
            store_returned_at,
        ));
    }

    /// Replace the wake-up. `deadlines` holds the next deadline of each
    /// document's schedule that has one.
    pub fn schedule_recovery_timer(
        &mut self,
        store_ready: bool,
        deadlines: &BTreeMap<DocumentId, Instant>,
        now: Instant,
    ) -> (plan: Option<TimerPlan>)
        ensures
            old(self).well_formed() ==> final(self).well_formed(),
            final(self).states == old(self).states,
            final(self).worker_active == old(self).worker_active,
            final(self).warning == old(self).warning,
            final(self).timer_generation == old(self).timer_generation.wrapping_add(1),
            final(self).timer_generation != old(self).timer_generation,
            match plan {
                Some(plan) => {
                    &&& plan.generation == final(self).timer_generation
                    &&& exists|document: DocumentId| #[trigger]
                        old(self).wakes(document, store_ready, deadlines@) is Some && plan.delay
                            == time_until(
                            old(self).wakes(document, store_ready, deadlines@)->0,
                            now,
                        )
                    &&& forall|document: DocumentId| #[trigger]
                        old(self).wakes(document, store_ready, deadlines@) is Some ==> plan.delay
                            <= time_until(
                            old(self).wakes(document, store_ready, deadlines@)->0,
                            now,
                        )
                },
                None => forall|document: DocumentId|
                    (#[trigger] old(self).wakes(document, store_ready, deadlines@)) is None,
            },
    {
        self.timer_generation = self.timer_generation.wrapping_add(1);
        let ids = keys_of(&self.states);
        let mut earliest: Option<Instant> = None;
        let ghost mut witness: DocumentId = 0;
        let mut i: usize = 0;
        while i < ids.len()
            invariant
                i <= ids.len(),
                self.states == old(self).states,
                self.worker_active == old(self).worker_active,
                self.warning == old(self).warning,
                self.timer_generation == old(self).timer_generation.wrapping_add(1),
                forall|j: int| 0 <= j < ids.len() ==> self.states@.contains_key(#[trigger] ids[j]),
                match earliest {
                    Some(deadline) => {
                        &&& old(self).wakes(witness, store_ready, deadlines@) == Some(deadline)
                        &&& forall|j: int|
                            0 <= j < i && old(self).wakes(
                                #[trigger] ids[j],
                                store_ready,
                                deadlines@,
                            ) is Some ==> deadline <= old(self).wakes(
                                ids[j],
                                store_ready,
                                deadlines@,
                            )->0
                    },
                    None => forall|j: int|
                        0 <= j < i ==> old(self).wakes(
                            #[trigger] ids[j],
                            store_ready,
                            deadlines@,
                        ) is None,
                },
            decreases ids.len() - i,
        {
            let id: DocumentId = ids[i];
            assert(self.states@.contains_key(ids[i as int]));
            match self.state_of(id) {
                Some(state) => {
                    let next = match deadlines.get(&id) {
                        Some(deadline) => Some(*deadline),
                        None => None,
                    };
                    let wake = wake_deadline(&state, store_ready, self.worker_active, next);
                    assert(wake == old(self).wakes(id, store_ready, deadlines@));
                    match wake {
                        Some(deadline) => {
                            let sooner = match earliest {
                                Some(current) => deadline < current,
                                None => true,
                            };
                            if sooner {
                                earliest = Some(deadline);
                                proof {
                                    witness = id;
                                }
                            }
                        },
                        None => {},
                    }
                },
                None => {},
            }
            i = i + 1;
        }
        proof {
            assert forall|document: DocumentId|
                old(self).states@.contains_key(document) implies ids@.contains(document) by {}
            assert forall|document: DocumentId| (#[trigger] old(self).wakes(
                document,
                store_ready,
                deadlines@,
            )) is Some implies ids@.contains(document) && ids[ids@.index_of(document)]
                == document by {
                assert(old(self).states@.contains_key(document));
            }
        }
        match earliest {
            Some(deadline) => {
                let delay = if deadline > now {
                    deadline - now
                } else {
                    0
                };
                Some(TimerPlan { generation: self.timer_generation, delay })
            },
            None => None,
        }
    }

    /// Whether a wake-up that fires is the current one.
    pub fn timer_is_current(&self, generation: u64) -> (current: bool)
        ensures
            current == (self.timer_generation == generation),
    {
        self.timer_generation == generation
    }

    /// The deadline that `document` has to be looked at, if it has one.
    pub open spec fn wakes(
        &self,
        document: DocumentId,
        store_ready: bool,
        deadlines: Map<DocumentId, Instant>,
    ) -> Option<Instant> {
        if self.states@.contains_key(document) {
            waking(
                self.states@[document],
                store_ready,
                self.worker_active,
                if deadlines.contains_key(document) {
                    Some(deadlines[document])
                } else {
                    None
                },
            )
        } else {
            None
        }
    }
}

/// The state of a document that has not been seen before, or not under `key`.
fn new_state(key: RecoveryKey, revision: u64) -> (state: DocumentRecoveryState)
    ensures
        state == fresh_state(key, revision),
{
    DocumentRecoveryState {
        key,
        revision,
        suppressed_oversized_revision: None,
        token: None,
        in_flight: None,
        deadline_reported: false,
        protection_warning: false,
    }
}

/// `state` with the flag of its attempt, if it has one, raised.
fn raise_flag(state: DocumentRecoveryState) -> (raised: DocumentRecoveryState)
    ensures
        raised == flagged(state),
{
    let mut raised = state;
    match state.in_flight {
        Some(attempt) => {
            let mut attempt = attempt;
            attempt.cancelled = true;
            raised.in_flight = Some(attempt);
        },
        None => {},
    }
    raised
}

/// When a document has to be looked at, where `next` is the next deadline of
/// its schedule.
fn wake_deadline(
    state: &DocumentRecoveryState,
    store_ready: bool,
    worker_active: bool,
    next: Option<Instant>,
) -> (deadline: Option<Instant>)
    ensures
        deadline == waking(*state, store_ready, worker_active, next),
{
    if state.suppressed_oversized_revision == Some(state.revision) {
        return None;
    }
    match state.in_flight {
        Some(attempt) => if state.deadline_reported {
            None
        } else {
            Some(attempt.timing.durable_complete_by)
        },
        None => if worker_active && state.deadline_reported {
            None
        } else if store_ready || !state.protection_warning {
            next
        } else {
            None
        },
    }
}

/// Ask for the flag of the attempt of `state`, if it has one, to be raised.
fn push_cancellation(state: &DocumentRecoveryState, effects: &mut Vec<Effect>)
    ensures
        final(effects)@ == old(effects)@ + cancellation(*state),
{
    match state.in_flight {
        Some(attempt) => {
            effects.push(Effect::CancelAttempt { attempt: attempt.id });
        },
        None => {},
    }
}

} // verus!
