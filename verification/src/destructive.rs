//! The walk from a destructive request to its end: asking about each dirty
//! document, saving or discarding it, and retiring what protected it.

use crate::effect::{BatchId, DestructiveAction, Effect, Instant, Notice, TextId};
use crate::lifecycle::{
    clearance, DirtyDecision, Interlock, Lifecycle, Next, PendingDestructive, RequestId,
    Resolution, Stage, Step,
};
use crate::protection::{cancellations, unprotected, without_keys};
use crate::retirement::{concerning, queued_invalidations, Completion};
use crate::scope::{
    enumerates, key_set, keys_in, lemma_listed_keys, lemma_push_contains, named, remove_each,
    DocumentId, RecoveryKey, ScopedKey,
};
use std::collections::{BTreeMap, BTreeSet};
use vstd::prelude::*;

verus! {

broadcast use vstd::std_specs::btree::group_btree_axioms;

/// What follows the completion of a batch of retirements.
pub struct DiscardStep {
    pub effects: Vec<Effect>,
    /// The batch is to be completed once more, after a second.
    pub retry_batch: bool,
    pub next: Next,
}

/// What the interlock reads of the walk's current document.
#[derive(Clone, Copy, Debug, PartialEq, Eq, Structural)]
pub struct PromptedDocument {
    pub id: DocumentId,
    pub on_disk: bool,
}

/// The records that `batch` retires, added to those of other batches.
pub open spec fn with_batch(
    batches: Map<RecoveryKey, BatchId>,
    keys: Set<RecoveryKey>,
    batch: BatchId,
) -> Map<RecoveryKey, BatchId> {
    Map::new(
        |key: RecoveryKey| batches.contains_key(key) || keys.contains(key),
        |key: RecoveryKey|
            if keys.contains(key) {
                batch
            } else {
                batches[key]
            },
    )
}

impl Interlock {
    /// No destructive action.
    pub fn new() -> (interlock: Self)
        ensures
            interlock.pending is None,
            interlock.waiting is None,
            interlock.handled@.len() == 0,
            !interlock.window_close_pending,
            !interlock.window_close_ready,
    {
        Interlock {
            pending: None,
            waiting: None,
            handled: Vec::new(),
            window_close_pending: false,
            window_close_ready: false,
        }
    }

    /// Whether the window's closing stands as in `other`.
    pub open spec fn same_window(&self, other: &Interlock) -> bool {
        self.window_close_pending == other.window_close_pending && self.window_close_ready
            == other.window_close_ready
    }
}

impl Lifecycle {
    /// Start one Save / Discard / Cancel walk, unless one is under way.
    /// `initial` is where a walk over the documents that are open now stands.
    pub fn request_destructive(
        &mut self,
        action: DestructiveAction,
        request: RequestId,
        initial: Resolution,
        dirty: &BTreeSet<RecoveryKey>,
        now: Instant,
    ) -> (step: Step)
        ensures
            old(self).well_formed() ==> final(self).well_formed(),
            final(self).same_storage(old(self)),
            final(self).interlock.same_window(&old(self).interlock),
            old(self).is_deciding() ==> *final(self) == *old(self) && step.effects@.len() == 0
                && step.next is Done,
            !old(self).is_deciding() ==> {
                &&& final(self).interlock.handled@.len() == 0
                &&& match initial {
                    Resolution::Proceed { action: decided } => {
                        &&& concerning(old(self).retirements.pending@, action).dom() == Set::<
                            RecoveryKey,
                        >::empty() ==> {
                            &&& final(self).same_but_interlock(old(self))
                            &&& final(self).interlock.pending is None
                            &&& final(self).interlock.waiting is None
                            &&& step.effects@.len() == 0
                            &&& step.next == (Next::Perform { action })
                        }
                        &&& concerning(old(self).retirements.pending@, action).dom() != Set::<
                            RecoveryKey,
                        >::empty() ==> exists|keys: Seq<ScopedKey>|
                            crate::scope::lists(
                                keys,
                                concerning(old(self).retirements.pending@, action),
                            ) && #[trigger] clearance(
                                old(self),
                                final(self),
                                request,
                                decided,
                                keys,
                                dirty@,
                                now,
                                step,
                            )
                    },
                    Resolution::Prompt => {
                        &&& final(self).same_but_interlock(old(self))
                        &&& final(self).interlock.pending == Some(request)
                        &&& final(self).interlock.waiting is None
                        &&& step.effects@.len() == 0
                        &&& step.next == (Next::Prompt { request })
                    },
                    _ => {
                        &&& final(self).same_but_interlock(old(self))
                        &&& final(self).interlock.pending is None
                        &&& final(self).interlock.waiting is None
                        &&& step.effects@.len() == 0
                        &&& step.next is Done
                    },
                }
            },
    {
        if self.interlock.pending.is_some() || self.interlock.waiting.is_some() {
            return Step { effects: Vec::new(), next: Next::Done };
        }
        self.interlock.handled = Vec::new();
        match initial {
            Resolution::Proceed { action: decided } => {
                let keys = self.retirements.pending_recovery_keys(action);
                proof {
                    lemma_listed_keys(keys@, concerning(self.retirements.pending@, action));
                }
                if keys.len() == 0 {
                    Step { effects: Vec::new(), next: Next::Perform { action } }
                } else {
                    let step = self.perform_after_discard_retirement(
                        request,
                        decided,
                        &keys,
                        dirty,
                        now,
                    );
                    assert(clearance(
                        old(self),
                        self,
                        request,
                        decided,
                        keys@,
                        dirty@,
                        now,
                        step,
                    ));
                    step
                }
            },
            Resolution::Prompt => {
                self.interlock.pending = Some(request);
                Step { effects: Vec::new(), next: Next::Prompt { request } }
            },
            Resolution::Cancelled => Step { effects: Vec::new(), next: Next::Done },
            Resolution::SaveFailed => Step { effects: Vec::new(), next: Next::Done },
        }
    }

    /// Whether a destructive action is being decided, or waits.
    pub open spec fn is_deciding(&self) -> bool {
        self.interlock.pending is Some || self.interlock.waiting is Some
    }

    /// Ask about the walk's `current` document, if it is still `open`.
    pub fn prompt_destructive(&self, current: Option<DocumentId>, open: bool) -> (step: PromptStep)
        ensures
            step == (match current {
                Some(document) => if self.interlock.pending is None {
                    PromptStep::Nothing
                } else if open {
                    PromptStep::Ask { document }
                } else {
                    PromptStep::Discard
                },
                None => PromptStep::Nothing,
            }),
    {
        match current {
            Some(document) => if self.interlock.pending.is_none() {
                PromptStep::Nothing
            } else if open {
                PromptStep::Ask { document }
            } else {
                PromptStep::Discard
            },
            None => PromptStep::Nothing,
        }
    }

    /// The user has answered. `prompt_matches` says whether the document still
    /// is what the user was asked about.
    pub fn resolve_destructive(
        &mut self,
        decision: DirtyDecision,
        prompt_matches: bool,
        document: Option<PromptedDocument>,
    ) -> (next: Next)
        ensures
            old(self).well_formed() ==> final(self).well_formed(),
            final(self).same_but_interlock(old(self)),
            final(self).interlock.same_window(&old(self).interlock),
            final(self).interlock.waiting == old(self).interlock.waiting,
            final(self).interlock.handled == old(self).interlock.handled,
            match old(self).interlock.pending {
                None => final(self).interlock.pending is None && next is Done,
                Some(request) => if !prompt_matches {
                    &&& final(self).interlock.pending is None
                    &&& revalidates(next, request, Seq::empty(), Stage::Answered)
                } else if decision is Save && (document matches Some(prompted) && !prompted.on_disk) {
                    &&& final(self).interlock.pending == Some(request)
                    &&& next == (Next::PromptSaveAs { document: document->0.id })
                } else {
                    &&& final(self).interlock.pending is None
                    &&& next == (Next::Decide {
                        request,
                        save: decision is Save && document is Some,
                    })
                },
            },
    {
        let request = match self.interlock.pending {
            Some(request) => request,
            None => {
                return Next::Done;
            },
        };
        if !prompt_matches {
            self.interlock.pending = None;
            return Next::Revalidate { request, keys: Vec::new(), stage: Stage::Answered };
        }
        let saving = match decision {
            DirtyDecision::Save => true,
            DirtyDecision::Discard => false,
            DirtyDecision::Cancel => false,
        };
        match document {
            Some(prompted) => {
                if saving && !prompted.on_disk {
                    return Next::PromptSaveAs { document: prompted.id };
                }
            },
            None => {},
        }
        self.interlock.pending = None;
        Next::Decide { request, save: saving && document.is_some() }
    }

    /// The decision about `current` is entered. Its record joins those that the
    /// walk retires at its end, unless the walk has ended here.
    pub fn destructive_decided(
        &mut self,
        request: RequestId,
        decision: DirtyDecision,
        current: Option<DocumentId>,
        key: Option<RecoveryKey>,
        resolution: Resolution,
    ) -> (next: Next)
        ensures
            old(self).well_formed() && !old(self).is_deciding() ==> final(self).well_formed(),
            final(self).same_but_interlock(old(self)),
            final(self).interlock.same_window(&old(self).interlock),
            final(self).interlock.waiting == old(self).interlock.waiting,
            entered(
                old(self),
                final(self),
                request,
                match (current, key) {
                    (Some(document), Some(key)) => if decision is Cancel {
                        None
                    } else {
                        Some((key, Some(document)))
                    },
                    _ => None,
                },
                resolution,
                Stage::Answered,
                next,
            ),
            resolution is Prompt || resolution is Proceed ==> {
                &&& old(self).interlock.handled@.is_prefix_of(final(self).interlock.handled@)
                &&& !(decision is Cancel) && current is Some && key is Some
                    ==> final(self).interlock.handled@.contains((key->0, current))
            },
    {
        let entry: Option<ScopedKey> = match (current, key) {
            (Some(document), Some(key)) => match decision {
                DirtyDecision::Save => Some((key, Some(document))),
                DirtyDecision::Discard => Some((key, Some(document))),
                DirtyDecision::Cancel => None,
            },
            _ => None,
        };
        let next = self.enter_decision(request, entry, resolution, Stage::Answered);
        proof {
            if let Some(entry) = entry {
                lemma_push_contains(old(self).interlock.handled@, entry);
            }
        }
        next
    }

    /// A Save As that the walk waited for has succeeded: it counts as Save.
    pub fn save_as_decided(
        &mut self,
        request: RequestId,
        document: DocumentId,
        key: RecoveryKey,
        resolution: Resolution,
    ) -> (next: Next)
        ensures
            old(self).well_formed() && !old(self).is_deciding() ==> final(self).well_formed(),
            final(self).same_but_interlock(old(self)),
            final(self).interlock.same_window(&old(self).interlock),
            final(self).interlock.waiting == old(self).interlock.waiting,
            entered(
                old(self),
                final(self),
                request,
                Some((key, Some(document))),
                resolution,
                Stage::SavedAs,
                next,
            ),
            resolution is Prompt || resolution is Proceed ==> {
                &&& old(self).interlock.handled@.is_prefix_of(final(self).interlock.handled@)
                &&& final(self).interlock.handled@.contains((key, Some(document)))
            },
    {
        let next = self.enter_decision(
            request,
            Some((key, Some(document))),
            resolution,
            Stage::SavedAs,
        );
        proof {
            lemma_push_contains(old(self).interlock.handled@, (key, Some(document)));
        }
        next
    }

    fn enter_decision(
        &mut self,
        request: RequestId,
        current: Option<ScopedKey>,
        resolution: Resolution,
        stage: Stage,
    ) -> (next: Next)
        ensures
            final(self).same_but_interlock(old(self)),
            final(self).interlock.same_window(&old(self).interlock),
            final(self).interlock.waiting == old(self).interlock.waiting,
            entered(
                old(self),
                final(self),
                request,
                current,
                resolution,
                stage,
                next,
            ),
    {
        match resolution {
            Resolution::Cancelled => {
                self.interlock.handled = Vec::new();
                return Next::Done;
            },
            Resolution::SaveFailed => {
                self.interlock.handled = Vec::new();
                return Next::Done;
            },
            _ => {},
        }
        match current {
            Some(entry) => {
                self.interlock.handled.push(entry);
            },
            None => {},
        }
        match resolution {
            Resolution::Prompt => {
                self.interlock.pending = Some(request);
                Next::Prompt { request }
            },
            _ => Next::Revalidate { request, keys: Vec::new(), stage },
        }
    }

    /// The walk was validated against the documents that are open now.
    pub fn destructive_revalidated(
        &mut self,
        request: RequestId,
        keys: Vec<ScopedKey>,
        stage: Stage,
        resolution: Resolution,
        dirty: &BTreeSet<RecoveryKey>,
        now: Instant,
    ) -> (step: Step)
        ensures
            old(self).well_formed() && !old(self).is_deciding() ==> final(self).well_formed(),
            final(self).same_storage(old(self)),
            final(self).interlock.same_window(&old(self).interlock),
            match stage {
                Stage::Answered => scanned(
                    old(self),
                    final(self),
                    request,
                    false,
                    resolution,
                    dirty@,
                    now,
                    step,
                ),
                Stage::SavedAs => scanned(
                    old(self),
                    final(self),
                    request,
                    true,
                    resolution,
                    dirty@,
                    now,
                    step,
                ),
                Stage::Resumed => resumed(
                    old(self),
                    final(self),
                    request,
                    keys@,
                    resolution,
                    dirty@,
                    now,
                    step,
                ),
                Stage::Retired { cleanup_error } => retired(
                    old(self),
                    final(self),
                    request,
                    keys@,
                    cleanup_error,
                    resolution,
                    step,
                ),
            },
    {
        match stage {
            Stage::Answered => self.finish_scan(request, false, resolution, dirty, now),
            Stage::SavedAs => self.finish_scan(request, true, resolution, dirty, now),
            Stage::Resumed => self.resume_recovery_destructive(
                request,
                keys,
                resolution,
                dirty,
                now,
            ),
            Stage::Retired { cleanup_error } => self.finish_retired(
                request,
                keys,
                cleanup_error,
                resolution,
            ),
        }
    }

    /// The final scan, immediately before anything is destroyed: a document can
    /// become dirty while another one's prompt is open.
    fn finish_scan(
        &mut self,
        request: RequestId,
        forget_on_cancel: bool,
        resolution: Resolution,
        dirty: &BTreeSet<RecoveryKey>,
        now: Instant,
    ) -> (step: Step)
        ensures
            final(self).same_storage(old(self)),
            final(self).interlock.same_window(&old(self).interlock),
            scanned(
                old(self),
                final(self),
                request,
                forget_on_cancel,
                resolution,
                dirty@,
                now,
                step,
            ),
    {
        match resolution {
            Resolution::Prompt => {
                self.interlock.pending = Some(request);
                Step { effects: Vec::new(), next: Next::Prompt { request } }
            },
            Resolution::Proceed { action } => {
                let mut keys: Vec<ScopedKey> = Vec::new();
                std::mem::swap(&mut keys, &mut self.interlock.handled);
                self.perform_after_discard_retirement(request, action, &keys, dirty, now)
            },
            _ => {
                if forget_on_cancel {
                    self.interlock.handled = Vec::new();
                }
                Step { effects: Vec::new(), next: Next::Done }
            },
        }
    }

    /// Ask again about a document that became dirty while the walk waited; the
    /// records decided so far stay with the walk.
    fn ask_again(&mut self, request: RequestId, keys: Vec<ScopedKey>) -> (step: Step)
        ensures
            final(self).same_but_interlock(old(self)),
            final(self).interlock.same_window(&old(self).interlock),
            final(self).interlock.waiting == old(self).interlock.waiting,
            final(self).interlock.handled@ == old(self).interlock.handled@ + keys@,
            final(self).interlock.pending == Some(request),
            step.effects@ == seq![Effect::RearmDirtyDocuments],
            step.next == (Next::Prompt { request }),
    {
        let mut keys = keys;
        self.interlock.handled.append(&mut keys);
        self.interlock.pending = Some(request);
        let mut effects: Vec<Effect> = Vec::new();
        effects.push(Effect::RearmDirtyDocuments);
        Step { effects, next: Next::Prompt { request } }
    }

    fn resume_recovery_destructive(
        &mut self,
        request: RequestId,
        keys: Vec<ScopedKey>,
        resolution: Resolution,
        dirty: &BTreeSet<RecoveryKey>,
        now: Instant,
    ) -> (step: Step)
        ensures
            final(self).same_storage(old(self)),
            final(self).interlock.same_window(&old(self).interlock),
            resumed(
                old(self),
                final(self),
                request,
                keys@,
                resolution,
                dirty@,
                now,
                step,
            ),
    {
        match resolution {
            Resolution::Prompt => self.ask_again(request, keys),
            Resolution::Proceed { action } => self.perform_after_discard_retirement(
                request,
                action,
                &keys,
                dirty,
                now,
            ),
            _ => {
                let mut effects: Vec<Effect> = Vec::new();
                effects.push(Effect::RearmDirtyDocuments);
                Step { effects, next: Next::Done }
            },
        }
    }

    fn finish_retired(
        &mut self,
        request: RequestId,
        keys: Vec<ScopedKey>,
        cleanup_error: Option<TextId>,
        resolution: Resolution,
    ) -> (step: Step)
        ensures
            final(self).same_storage(old(self)),
            final(self).interlock.same_window(&old(self).interlock),
            retired(
                old(self),
                final(self),
                request,
                keys@,
                cleanup_error,
                resolution,
                step,
            ),
    {
        match resolution {
            Resolution::Prompt => self.ask_again(request, keys),
            Resolution::Proceed { action } => {
                let set = key_set(&keys);
                let mut effects: Vec<Effect> = Vec::new();
                self.checkpoints.remove_recovery_state_for_keys(&set, &mut effects);
                let ghost order = choose|order: Seq<DocumentId>|
                    enumerates(order, old(self).checkpoints.states@.dom()) && effects@ == (Seq::<
                        Effect,
                    >::empty() + #[trigger] cancellations(
                        order,
                        old(self).checkpoints.states@,
                        set@,
                    )).push(Effect::RescheduleTimer);
                match cleanup_error {
                    Some(error) => {
                        effects.push(
                            Effect::Report { notice: Notice::CheckpointCleanupPending { error } },
                        );
                    },
                    None => {},
                }
                proof {
                    assert(effects@ =~= cancellations(
                        order,
                        old(self).checkpoints.states@,
                        named(keys@).to_set(),
                    ) + seq![Effect::RescheduleTimer] + cleanup_report(cleanup_error));
                }
                Step { effects, next: Next::Perform { action } }
            },
            _ => {
                let mut effects: Vec<Effect> = Vec::new();
                effects.push(Effect::RearmDirtyDocuments);
                Step { effects, next: Next::Done }
            },
        }
    }

    /// The store has one durable marker for all of `keys`: the batch owns them,
    /// and the walk goes on when it is complete.
    pub fn retirements_began(
        &mut self,
        request: RequestId,
        keys: &Vec<ScopedKey>,
        batch: BatchId,
    ) -> (effects: Vec<Effect>)
        ensures
            old(self).well_formed() && !old(self).is_deciding() && (forall|i: int|
                0 <= i < keys.len() ==> !old(self).retirements.tickets@.contains_key(
                    (#[trigger] keys[i]).0,
                )) ==> final(self).well_formed(),
            final(self).same_storage(old(self)),
            final(self).interlock.same_window(&old(self).interlock),
            final(self).interlock.waiting == old(self).interlock.waiting,
            final(self).interlock.handled == old(self).interlock.handled,
            final(self).interlock.pending == Some(request),
            final(self).retirements.pending@ == old(self).retirements.pending@.remove_keys(
                named(keys@).to_set(),
            ),
            final(self).retirements.tickets == old(self).retirements.tickets,
            final(self).retirements.batches@ == with_batch(
                old(self).retirements.batches@,
                named(keys@).to_set(),
                batch,
            ),
            final(self).retirements.retries == old(self).retirements.retries,
            final(self).checkpoints.states == old(self).checkpoints.states,
            final(self).checkpoints.worker_active == old(self).checkpoints.worker_active,
            final(self).checkpoints.timer_generation == old(self).checkpoints.timer_generation,
            final(self).checkpoints.warning == unprotected(final(self).checkpoints.states@),
            effects@ == seq![Effect::RescheduleTimer],
    {
        let names = keys_in(keys);
        remove_each(&mut self.retirements.pending, &names);
        insert_each(&mut self.retirements.batches, &names, batch);
        self.interlock.pending = Some(request);
        let mut effects: Vec<Effect> = Vec::new();
        effects.push(Effect::RescheduleTimer);
        self.checkpoints.refresh_recovery_warning();
        effects
    }

    /// The store could not write the marker: nothing was destroyed, and the
    /// documents are protected again.
    pub fn retirements_refused(&self, error: TextId) -> (effects: Vec<Effect>)
        ensures
            effects@ == seq![
                Effect::RearmDirtyDocuments,
                Effect::Report { notice: Notice::CouldNotClearCheckpointKeptOpen { error } },
            ],
    {
        let mut effects: Vec<Effect> = Vec::new();
        effects.push(Effect::RearmDirtyDocuments);
        effects.push(Effect::Report { notice: Notice::CouldNotClearCheckpointKeptOpen { error } });
        effects
    }

    /// The batch that the walk waits for has come back. Where another owner has
    /// taken one of the records over, the walk goes on through that owner.
    pub fn finish_discard_retirements(
        &mut self,
        keys: Vec<ScopedKey>,
        batch: BatchId,
        completion: Completion,
    ) -> (step: DiscardStep)
        ensures
            old(self).well_formed() ==> final(self).well_formed(),
            final(self).same_storage(old(self)),
            final(self).checkpoints == old(self).checkpoints,
            final(self).interlock.same_window(&old(self).interlock),
            final(self).interlock.waiting == old(self).interlock.waiting,
            final(self).interlock.handled == old(self).interlock.handled,
            final(self).interlock.pending is None,
            discarded(old(self), final(self), keys, batch, completion, step),
    {
        let names = keys_in(&keys);
        let current = self.retirements.batch_is_current(&names, batch);
        let request = match self.interlock.pending {
            Some(request) => request,
            None => {
                return DiscardStep { effects: Vec::new(), retry_batch: false, next: Next::Done };
            },
        };
        self.interlock.pending = None;
        if !current {
            return DiscardStep {
                effects: Vec::new(),
                retry_batch: false,
                next: Next::Revalidate { request, keys, stage: Stage::Resumed },
            };
        }
        match completion {
            Completion::Retired => {
                let effects = self.retirements.finish_recovery_retirement_batch(&names, batch);
                DiscardStep {
                    effects,
                    retry_batch: false,
                    next: Next::CheckReplayed { request, keys },
                }
            },
            Completion::CleanupPending { error } => {
                let retry_batch = self.retirements.schedule_recovery_retirement_batch_retry(
                    &names,
                    self.store_ready,
                );
                DiscardStep {
                    effects: Vec::new(),
                    retry_batch,
                    next: Next::Revalidate {
                        request,
                        keys,
                        stage: Stage::Retired { cleanup_error: Some(error) },
                    },
                }
            },
            Completion::Failed { error } => {
                let mut effects = self.retirements.finish_recovery_retirement_batch(&names, batch);
                effects.push(Effect::RearmDirtyDocuments);
                effects.push(
                    Effect::Report { notice: Notice::CouldNotClearCheckpointKeptOpen { error } },
                );
                assert(effects@ =~= queued_invalidations(
                    named(keys@),
                    old(self).retirements.pending@,
                ) + seq![
                    Effect::RearmDirtyDocuments,
                    Effect::Report { notice: Notice::CouldNotClearCheckpointKeptOpen { error } },
                ]);
                DiscardStep { effects, retry_batch: false, next: Next::Done }
            },
        }
    }

    /// Records that were queued again while their batch ran have been offered
    /// to the store. Where one is still queued, the walk waits for it.
    pub fn check_replayed(&mut self, request: RequestId, keys: Vec<ScopedKey>) -> (step: Step)
        ensures
            old(self).well_formed() && !old(self).is_deciding() ==> final(self).well_formed(),
            final(self).same_but_interlock(old(self)),
            final(self).interlock.same_window(&old(self).interlock),
            final(self).interlock.pending == old(self).interlock.pending,
            final(self).interlock.handled == old(self).interlock.handled,
            old(self).any_queued(keys@) ==> {
                &&& final(self).interlock.waiting == Some(PendingDestructive { request, keys })
                &&& step.effects@ == seq![
                    Effect::Report { notice: Notice::WaitingForRecoveryCleanup },
                ]
                &&& step.next is ResumeLater
            },
            !old(self).any_queued(keys@) ==> {
                &&& final(self).interlock.waiting == old(self).interlock.waiting
                &&& step.effects@.len() == 0
                &&& step.next == (Next::Revalidate {
                    request,
                    keys,
                    stage: Stage::Retired { cleanup_error: None },
                })
            },
    {
        let mut i: usize = 0;
        while i < keys.len()
            invariant
                i <= keys.len(),
                *self == *old(self),
                forall|j: int|
                    0 <= j < i ==> !self.retirements.pending@.contains_key((#[trigger] keys[j]).0),
            decreases keys.len() - i,
        {
            let key: RecoveryKey = keys[i].0;
            if self.retirements.is_undurable_recovery_retirement(key) {
                assert(self.retirements.pending@.contains_key(keys[i as int].0));
                return self.schedule_destructive_retirement_continuation(request, keys);
            }
            i = i + 1;
        }
        Step {
            effects: Vec::new(),
            next: Next::Revalidate { request, keys, stage: Stage::Retired { cleanup_error: None } },
        }
    }

    /// Whether one of `keys` is queued for retirement.
    pub open spec fn any_queued(&self, keys: Seq<ScopedKey>) -> bool {
        exists|i: int|
            0 <= i < keys.len() && self.retirements.pending@.contains_key((#[trigger] keys[i]).0)
    }

    /// A second has passed, or recovery storage is there: take up the walk that
    /// waits, if it still does.
    pub fn take_waiting(&mut self) -> (next: Next)
        ensures
            old(self).well_formed() ==> final(self).well_formed(),
            final(self).same_but_interlock(old(self)),
            final(self).interlock.same_window(&old(self).interlock),
            final(self).interlock.pending == old(self).interlock.pending,
            final(self).interlock.handled == old(self).interlock.handled,
            final(self).interlock.waiting is None,
            next == (match old(self).interlock.waiting {
                Some(waiting) => Next::Revalidate {
                    request: waiting.request,
                    keys: waiting.keys,
                    stage: Stage::Resumed,
                },
                None => Next::Done,
            }),
    {
        match self.interlock.waiting.take() {
            Some(waiting) => Next::Revalidate {
                request: waiting.request,
                keys: waiting.keys,
                stage: Stage::Resumed,
            },
            None => Next::Done,
        }
    }

    /// Whether a Save As of `document` still writes what the user was asked
    /// about. `current` and `prompt_matches` describe the walk, if there is one.
    pub fn save_as_snapshot_is_current(
        &self,
        document: DocumentId,
        current: Option<DocumentId>,
        prompt_matches: bool,
    ) -> (is_current: bool)
        ensures
            is_current == (self.interlock.pending is None || (current == Some(document)
                && prompt_matches)),
    {
        self.interlock.pending.is_none() || (current == Some(document) && prompt_matches)
    }

    /// A Save As of `document` came to nothing: a walk that waited for it ends,
    /// and every document it had decided stays protected.
    pub fn cancel_pending_destructive_save_as(
        &mut self,
        document: DocumentId,
        current: Option<DocumentId>,
    )
        ensures
            old(self).well_formed() ==> final(self).well_formed(),
            final(self).same_but_interlock(old(self)),
            final(self).interlock.same_window(&old(self).interlock),
            final(self).interlock.waiting == old(self).interlock.waiting,
            old(self).interlock.pending is Some && current == Some(document) ==> {
                &&& final(self).interlock.pending is None
                &&& final(self).interlock.handled@.len() == 0
            },
            !(old(self).interlock.pending is Some && current == Some(document)) ==> *final(self)
                == *old(self),
    {
        if self.interlock.pending.is_some() && current == Some(document) {
            self.interlock.pending = None;
            self.interlock.handled = Vec::new();
        }
    }

    /// A Save As of `document` has succeeded: the walk that waited for it, if
    /// one did, is to be decided as saved.
    pub fn complete_pending_destructive_save_as(
        &mut self,
        document: DocumentId,
        current: Option<DocumentId>,
    ) -> (request: Option<RequestId>)
        ensures
            old(self).well_formed() ==> final(self).well_formed(),
            final(self).same_but_interlock(old(self)),
            final(self).interlock.same_window(&old(self).interlock),
            final(self).interlock.waiting == old(self).interlock.waiting,
            final(self).interlock.handled == old(self).interlock.handled,
            old(self).interlock.pending is Some && current == Some(document) ==> {
                &&& request == old(self).interlock.pending
                &&& final(self).interlock.pending is None
            },
            !(old(self).interlock.pending is Some && current == Some(document)) ==> {
                &&& request is None
                &&& final(self).interlock.pending == old(self).interlock.pending
            },
    {
        if current == Some(document) {
            self.interlock.pending.take()
        } else {
            None
        }
    }

    /// The platform asks whether the window may close. The first request that
    /// gets through the interlock only starts draining the focused input.
    pub fn request_window_close(&self) -> (answer: WindowClose)
        ensures
            answer == (if self.interlock.window_close_ready {
                WindowClose::Allow
            } else if self.interlock.window_close_pending {
                WindowClose::Refuse
            } else {
                WindowClose::Ask
            }),
    {
        if self.interlock.window_close_ready {
            WindowClose::Allow
        } else if self.interlock.window_close_pending {
            WindowClose::Refuse
        } else {
            WindowClose::Ask
        }
    }

    /// Closing is authorized. Whether the host is to drop focus and wait for
    /// two frames, which only the first authorization does.
    pub fn close_window_after_input_drain(&mut self) -> (drain: bool)
        ensures
            old(self).well_formed() ==> final(self).well_formed(),
            final(self).same_but_interlock(old(self)),
            final(self).interlock == (Interlock {
                window_close_pending: true,
                ..old(self).interlock
            }),
            drain == !old(self).interlock.window_close_pending,
    {
        let drain = !self.interlock.window_close_pending;
        self.interlock.window_close_pending = true;
        drain
    }

    /// The focused input has drained.
    pub fn input_drained(&mut self)
        ensures
            old(self).well_formed() ==> final(self).well_formed(),
            final(self).same_but_interlock(old(self)),
            final(self).interlock == (Interlock {
                window_close_ready: true,
                ..old(self).interlock
            }),
    {
        self.interlock.window_close_ready = true;
    }
}

/// How a walk comes to its next answer.
#[derive(Clone, Copy, Debug, PartialEq, Eq, Structural)]
pub enum PromptStep {
    /// There is nothing to ask about.
    Nothing,
    /// The document is gone: resolve the walk as discarded.
    Discard,
    /// Ask the user about the document.
    Ask { document: DocumentId },
}

/// The second line of the question about a dirty document.
pub const SAVE_CHANGES_DETAIL: &'static str = "Your changes will be lost if you discard them.";

/// What the answers to the question about a dirty document are called, in order.
pub fn prompt_answers() -> (answers: [&'static str; 3])
    ensures
        answers@.len() == 3,
        answers@[0]@ == "Save"@,
        answers@[1]@ == "Discard"@,
        answers@[2]@ == "Cancel"@,
{
    ["Save", "Discard", "Cancel"]
}

/// The decision behind an answer. Without one, nothing is decided.
pub fn decision_of(answer: Option<usize>) -> (decision: DirtyDecision)
    ensures
        decision == (match answer {
            Some(answer) => if answer == 0 {
                DirtyDecision::Save
            } else if answer == 1 {
                DirtyDecision::Discard
            } else {
                DirtyDecision::Cancel
            },
            None => DirtyDecision::Cancel,
        }),
{
    match answer {
        Some(answer) => if answer == 0 {
            DirtyDecision::Save
        } else if answer == 1 {
            DirtyDecision::Discard
        } else {
            DirtyDecision::Cancel
        },
        None => DirtyDecision::Cancel,
    }
}

/// What the platform is told about its request to close the window.
#[derive(Clone, Copy, Debug, PartialEq, Eq, Structural)]
pub enum WindowClose {
    /// Close it.
    Allow,
    /// Keep it; closing is already on its way.
    Refuse,
    /// Keep it, and put the action to the interlock.
    Ask,
}

/// Send every key of `keys` to `batch`.
fn insert_each(
    batches: &mut BTreeMap<RecoveryKey, BatchId>,
    keys: &Vec<RecoveryKey>,
    batch: BatchId,
)
    ensures
        final(batches)@ == with_batch(old(batches)@, keys@.to_set(), batch),
{
    let mut i: usize = 0;
    assert(batches@ =~= with_batch(batches@, keys@.take(0).to_set(), batch));
    while i < keys.len()
        invariant
            i <= keys.len(),
            batches@ == with_batch(old(batches)@, keys@.take(i as int).to_set(), batch),
        decreases keys.len() - i,
    {
        let key: RecoveryKey = keys[i];
        batches.insert(key, batch);
        proof {
            assert(keys@.take(i + 1) =~= keys@.take(i as int).push(key));
            lemma_push_contains(keys@.take(i as int), key);
            assert(batches@ =~= with_batch(old(batches)@, keys@.take(i + 1).to_set(), batch));
        }
        i = i + 1;
    }
    assert(keys@.take(keys.len() as int) =~= keys@);
}

/// How a completed batch goes on.
pub open spec fn discarded(
    before: &Lifecycle,
    after: &Lifecycle,
    keys: Vec<ScopedKey>,
    batch: BatchId,
    completion: Completion,
    step: DiscardStep,
) -> bool {
    let names = named(keys@);
    match before.interlock.pending {
        None => {
            &&& after.retirements == before.retirements
            &&& step.effects@.len() == 0
            &&& !step.retry_batch
            &&& step.next is Done
        },
        Some(request) => if !before.retirements.all_in_batch(names, batch) {
            &&& after.retirements == before.retirements
            &&& step.effects@.len() == 0
            &&& !step.retry_batch
            &&& step.next == (Next::Revalidate { request, keys, stage: Stage::Resumed })
        } else {
            &&& after.retirements.pending == before.retirements.pending
            &&& after.retirements.tickets == before.retirements.tickets
            &&& match completion {
                Completion::CleanupPending { error } => {
                    &&& after.retirements.batches == before.retirements.batches
                    &&& step.retry_batch == (before.store_ready && names.len() > 0
                        && before.retirements.retries@.disjoint(names.to_set()))
                    &&& after.retirements.retries@ == (if step.retry_batch {
                        before.retirements.retries@.union(names.to_set())
                    } else {
                        before.retirements.retries@
                    })
                    &&& step.effects@.len() == 0
                    &&& step.next == (Next::Revalidate {
                        request,
                        keys,
                        stage: Stage::Retired { cleanup_error: Some(error) },
                    })
                },
                Completion::Retired => {
                    &&& after.batch_is_gone(before, names)
                    &&& !step.retry_batch
                    &&& step.effects@ == queued_invalidations(names, before.retirements.pending@)
                    &&& step.next == (Next::CheckReplayed { request, keys })
                },
                Completion::Failed { error } => {
                    &&& after.batch_is_gone(before, names)
                    &&& !step.retry_batch
                    &&& step.effects@ == queued_invalidations(names, before.retirements.pending@)
                        + seq![
                        Effect::RearmDirtyDocuments,
                        Effect::Report {
                            notice: Notice::CouldNotClearCheckpointKeptOpen { error },
                        },
                    ]
                    &&& step.next is Done
                },
            }
        },
    }
}

impl Lifecycle {
    /// Whether `keys` have left their batch since `before`.
    pub open spec fn batch_is_gone(&self, before: &Lifecycle, keys: Seq<RecoveryKey>) -> bool {
        &&& self.retirements.batches@ == before.retirements.batches@.remove_keys(keys.to_set())
        &&& self.retirements.retries@ == before.retirements.retries@.difference(keys.to_set())
    }
}

/// Whether `next` is to validate the walk `request`, which carries `keys`.
pub open spec fn revalidates(
    next: Next,
    request: RequestId,
    keys: Seq<ScopedKey>,
    stage: Stage,
) -> bool {
    next matches Next::Revalidate { request: asked, keys: carried, stage: why } && asked == request
        && carried@ == keys && why == stage
}

/// How a decision is entered: a cancelled or failed walk forgets the records of
/// the documents decided before; otherwise the current one is added to them.
pub open spec fn entered(
    before: &Lifecycle,
    after: &Lifecycle,
    request: RequestId,
    current: Option<ScopedKey>,
    resolution: Resolution,
    stage: Stage,
    next: Next,
) -> bool {
    let handled = match current {
        Some(entry) => before.interlock.handled@.push(entry),
        None => before.interlock.handled@,
    };
    match resolution {
        Resolution::Prompt => {
            &&& after.interlock.pending == Some(request)
            &&& after.interlock.handled@ == handled
            &&& next == (Next::Prompt { request })
        },
        Resolution::Proceed { .. } => {
            &&& after.interlock.pending == before.interlock.pending
            &&& after.interlock.handled@ == handled
            &&& revalidates(next, request, Seq::empty(), stage)
        },
        _ => {
            &&& after.interlock.pending == before.interlock.pending
            &&& after.interlock.handled@.len() == 0
            &&& next is Done
        },
    }
}

/// How the final scan ends: with another question, with the retirement of every
/// record the walk has handled, or with nothing.
pub open spec fn scanned(
    before: &Lifecycle,
    after: &Lifecycle,
    request: RequestId,
    forget_on_cancel: bool,
    resolution: Resolution,
    dirty: Set<RecoveryKey>,
    now: Instant,
    step: Step,
) -> bool {
    match resolution {
        Resolution::Prompt => {
            &&& after.same_but_interlock(before)
            &&& after.interlock.waiting == before.interlock.waiting
            &&& after.interlock.handled == before.interlock.handled
            &&& after.interlock.pending == Some(request)
            &&& step.effects@.len() == 0
            &&& step.next == (Next::Prompt { request })
        },
        Resolution::Proceed { action } => {
            &&& after.interlock.handled@.len() == 0
            &&& clearance(
                before,
                after,
                request,
                action,
                before.interlock.handled@,
                dirty,
                now,
                step,
            )
        },
        _ => {
            &&& after.same_but_interlock(before)
            &&& after.interlock.waiting == before.interlock.waiting
            &&& after.interlock.pending == before.interlock.pending
            &&& if forget_on_cancel {
                after.interlock.handled@.len() == 0
            } else {
                after.interlock.handled == before.interlock.handled
            }
            &&& step.effects@.len() == 0
            &&& step.next is Done
        },
    }
}

/// How a walk that waited asks again, where a document became dirty meanwhile.
pub open spec fn asked_again(
    before: &Lifecycle,
    after: &Lifecycle,
    request: RequestId,
    keys: Seq<ScopedKey>,
    step: Step,
) -> bool {
    &&& after.same_but_interlock(before)
    &&& after.interlock.waiting == before.interlock.waiting
    &&& after.interlock.handled@ == before.interlock.handled@ + keys
    &&& after.interlock.pending == Some(request)
    &&& step.effects@ == seq![Effect::RearmDirtyDocuments]
    &&& step.next == (Next::Prompt { request })
}

/// How a walk that was called off leaves its documents: protected again.
pub open spec fn called_off(before: &Lifecycle, after: &Lifecycle, step: Step) -> bool {
    &&& *after == *before
    &&& step.effects@ == seq![Effect::RearmDirtyDocuments]
    &&& step.next is Done
}

/// How a walk goes on that has waited for recovery storage or its cleanup.
pub open spec fn resumed(
    before: &Lifecycle,
    after: &Lifecycle,
    request: RequestId,
    keys: Seq<ScopedKey>,
    resolution: Resolution,
    dirty: Set<RecoveryKey>,
    now: Instant,
    step: Step,
) -> bool {
    match resolution {
        Resolution::Prompt => asked_again(before, after, request, keys, step),
        Resolution::Proceed { action } => {
            &&& after.interlock.handled == before.interlock.handled
            &&& clearance(before, after, request, action, keys, dirty, now, step)
        },
        _ => called_off(before, after, step),
    }
}

/// The status line for a cleanup that is not finished.
pub open spec fn cleanup_report(cleanup_error: Option<TextId>) -> Seq<Effect> {
    match cleanup_error {
        Some(error) => seq![Effect::Report { notice: Notice::CheckpointCleanupPending { error } }],
        None => Seq::empty(),
    }
}

/// How a walk goes on whose records are durably retired: only now may its
/// action be carried out.
pub open spec fn retired(
    before: &Lifecycle,
    after: &Lifecycle,
    request: RequestId,
    keys: Seq<ScopedKey>,
    cleanup_error: Option<TextId>,
    resolution: Resolution,
    step: Step,
) -> bool {
    match resolution {
        Resolution::Prompt => asked_again(before, after, request, keys, step),
        Resolution::Proceed { action } => {
            &&& after.retirements == before.retirements
            &&& after.interlock == before.interlock
            &&& after.checkpoints.states@ == without_keys(
                before.checkpoints.states@,
                named(keys).to_set(),
            )
            &&& after.checkpoints.worker_active == before.checkpoints.worker_active
            &&& after.checkpoints.timer_generation == before.checkpoints.timer_generation
            &&& after.checkpoints.warning == unprotected(after.checkpoints.states@)
            &&& exists|order: Seq<DocumentId>|
                enumerates(order, before.checkpoints.states@.dom()) && step.effects@
                    == #[trigger] cancellations(
                    order,
                    before.checkpoints.states@,
                    named(keys).to_set(),
                ) + seq![Effect::RescheduleTimer] + cleanup_report(cleanup_error)
            &&& step.next == (Next::Perform { action })
        },
        _ => called_off(before, after, step),
    }
}

} // verus!
