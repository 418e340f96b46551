//! The interlock between destructive actions and recovery: nothing is taken
//! away from the user before the decision to do so is durable.

use crate::checkpoint::Checkpoints;
use crate::effect::{report, DestructiveAction, Effect, Instant, Notice, TextId};
use crate::protection::{
    cancellations, entry, grounded_states, grounding_effects, unprotected, without_keys,
};
use crate::retirement::{concerning, Retirements};
use crate::scope::{
    claim_each, enumerates, key_set, keys_in, lemma_listed_claims, lemma_listed_keys, lists,
    scoped_list, with_claims, with_scopes, DocumentId, RecoveryKey, ScopedKey, Scopes,
};
use std::collections::{BTreeMap, BTreeSet};
use vstd::prelude::*;

verus! {

broadcast use vstd::std_specs::btree::group_btree_axioms;

/// Handle of a Save / Discard / Cancel walk, which the host keeps.
pub type RequestId = u64;

/// Where a walk over the dirty documents stands.
#[derive(Clone, Copy, Debug, PartialEq, Eq, Structural)]
pub enum Resolution {
    /// The user has to decide about a document.
    Prompt,
    /// Every document is decided.
    Proceed { action: DestructiveAction },
    Cancelled,
    SaveFailed,
}

/// The user's answer about one dirty document.
#[derive(Clone, Copy, Debug, PartialEq, Eq, Structural)]
pub enum DirtyDecision {
    Save,
    Discard,
    Cancel,
}

/// A fully decided walk that waits for its retirements.
pub struct PendingDestructive {
    pub request: RequestId,
    pub keys: Vec<ScopedKey>,
}

/// The destructive action that is being decided, if any.
pub struct Interlock {
    /// A walk in which the user is being asked, or whose retirements run.
    pub pending: Option<RequestId>,
    /// A decided walk that waits for recovery storage or for its cleanup.
    pub waiting: Option<PendingDestructive>,
    /// Records of the documents decided so far, retired only if the walk gets
    /// to its end.
    pub handled: Vec<ScopedKey>,
    /// Closing is authorized, and the focused input is draining.
    pub window_close_pending: bool,
    /// The input has drained; the next close request goes through.
    pub window_close_ready: bool,
}

/// Documents, their recovery records, and the actions that threaten them.
pub struct Lifecycle {
    pub retirements: Retirements,
    pub checkpoints: Checkpoints,
    pub interlock: Interlock,
    /// The recovery store can be used.
    pub store_ready: bool,
    /// The startup scan has neither completed nor failed yet.
    pub startup_recovery_pending: bool,
    /// Keys that documents had when they were opened during startup.
    pub startup_recovery_keys: BTreeMap<DocumentId, RecoveryKey>,
    /// Keys that a running Save As is to retire.
    pub save_as_recovery_keys: BTreeMap<DocumentId, RecoveryKey>,
}

/// Why a walk is validated once more.
#[derive(Clone, Copy, Debug, PartialEq, Eq, Structural)]
pub enum Stage {
    /// The user has answered, and documents may have changed meanwhile.
    Answered,
    /// The current document was saved under another name.
    SavedAs,
    /// The walk has waited for recovery storage.
    Resumed,
    /// The walk's records are durably retired; an error of their cleanup is
    /// still to be reported.
    Retired { cleanup_error: Option<TextId> },
}

/// How a destructive action goes on.
pub enum Next {
    /// Nothing more to do.
    Done,
    /// Ask the user about the walk's current document.
    Prompt { request: RequestId },
    /// Ask the user where to save a document that has no path.
    PromptSaveAs { document: DocumentId },
    /// Save the walk's current document if `save`, and enter the decision.
    Decide { request: RequestId, save: bool },
    /// Validate the walk against the documents that are open now.
    Revalidate { request: RequestId, keys: Vec<ScopedKey>, stage: Stage },
    /// Carry the action out.
    Perform { action: DestructiveAction },
    /// Write one durable marker for all of these records.
    BeginRetirements { request: RequestId, keys: Vec<ScopedKey> },
    /// Once the effects are carried out, see whether the records are retired.
    CheckReplayed { request: RequestId, keys: Vec<ScopedKey> },
    /// Resume the walk that waits, in a second.
    ResumeLater,
}

/// Effects, and then how the action goes on.
pub struct Step {
    pub effects: Vec<Effect>,
    pub next: Next,
}

/// Every record that has to be retired before `action`: those of the walk, and
/// those of earlier decisions that the action has to wait for.
pub open spec fn demanded(
    pending: Scopes,
    action: DestructiveAction,
    keys: Seq<ScopedKey>,
) -> Scopes {
    with_scopes(with_claims(Map::empty(), keys), concerning(pending, action))
}

impl Retirements {
    /// Whether a running retirement of one of `scopes` does not cover the
    /// decision that is to be made durable: the record was queued again, or its
    /// document is dirty again.
    pub open spec fn held_up(&self, scopes: Scopes, dirty: Set<RecoveryKey>) -> bool {
        exists|key: RecoveryKey| #[trigger]
            scopes.contains_key(key) && self.is_owned(key) && (self.pending@.contains_key(key)
                || dirty.contains(key))
    }

    /// The entries of `scopes` that nothing retires yet.
    pub open spec fn unowned(&self, scopes: Scopes) -> Scopes {
        scopes.restrict(Set::new(|key: RecoveryKey| !self.is_owned(key)))
    }

    /// Whether one of `scopes` waits for a delayed attempt.
    pub open spec fn awaits_retry(&self, scopes: Scopes) -> bool {
        exists|key: RecoveryKey| #[trigger]
            scopes.contains_key(key) && self.retries@.contains(key)
    }

    fn is_held_up(
        &self,
        list: &Vec<ScopedKey>,
        dirty: &BTreeSet<RecoveryKey>,
        Ghost(scopes): Ghost<Scopes>,
    ) -> (held: bool)
        requires
            lists(list@, scopes),
        ensures
            held == self.held_up(scopes, dirty@),
    {
        proof {
            lemma_listed_keys(list@, scopes);
        }
        let mut i: usize = 0;
        while i < list.len()
            invariant
                i <= list.len(),
                lists(list@, scopes),
                forall|j: int|
                    #![trigger list[j]]
                    0 <= j < i ==> !(self.is_owned(list[j].0) && (self.pending@.contains_key(
                        list[j].0,
                    ) || dirty@.contains(list[j].0))),
            decreases list.len() - i,
        {
            let key: RecoveryKey = list[i].0;
            if self.owned(key) && (self.pending.contains_key(&key) || dirty.contains(&key)) {
                assert(scopes.contains_key(list[i as int].0));
                return true;
            }
            i = i + 1;
        }
        false
    }

    fn without_owned(&self, list: &Vec<ScopedKey>, Ghost(scopes): Ghost<Scopes>) -> (rest: Vec<
        ScopedKey,
    >)
        requires
            lists(list@, scopes),
        ensures
            lists(rest@, self.unowned(scopes)),
    {
        let mut rest: Vec<ScopedKey> = Vec::new();
        let mut i: usize = 0;
        while i < list.len()
            invariant
                i <= list.len(),
                lists(list@, scopes),
                forall|j: int|
                    #![trigger rest[j]]
                    0 <= j < rest.len() ==> exists|k: int|
                        0 <= k < i && #[trigger] list[k] == rest[j],
                forall|j: int, k: int|
                    #![trigger rest[j], rest[k]]
                    0 <= j < k < rest.len() ==> rest[j].0 != rest[k].0,
                forall|j: int|
                    #![trigger rest[j]]
                    0 <= j < rest.len() ==> !self.is_owned(rest[j].0),
                forall|k: int|
                    #![trigger list[k]]
                    0 <= k < i && !self.is_owned(list[k].0) ==> rest@.contains(list[k]),
            decreases list.len() - i,
        {
            let entry: ScopedKey = list[i];
            let ghost before = rest@;
            if !self.owned(entry.0) {
                rest.push(entry);
                proof {
                    assert(rest@[rest@.len() - 1] == list[i as int]);
                    assert forall|k: int|
                        #![trigger list[k]]
                        0 <= k < i + 1 && !self.is_owned(list[k].0) implies rest@.contains(
                        list[k],
                    ) by {
                        if k < i {
                            let at = before.index_of(list[k]);
                            assert(rest@[at] == list[k]);
                        }
                    }
                    assert forall|j: int|
                        #![trigger rest[j]]
                        0 <= j < rest.len() implies exists|k: int|
                        0 <= k < i + 1 && #[trigger] list[k] == rest[j] by {
                        if j < before.len() {
                            assert(rest[j] == before[j]);
                            let k = choose|k: int| 0 <= k < i && #[trigger] list[k] == before[j];
                            assert(0 <= k < i + 1 && list[k] == rest[j]);
                        } else {
                            assert(list[i as int] == rest[j]);
                        }
                    }
                    assert forall|j: int, k: int|
                        #![trigger rest[j], rest[k]]
                        0 <= j < k < rest.len() implies rest[j].0 != rest[k].0 by {
                        assert(rest[j] == before[j]);
                        let l = choose|l: int| 0 <= l < i && #[trigger] list[l] == before[j];
                        if k == before.len() {
                            assert(list[l].0 != list[i as int].0);
                        } else {
                            assert(rest[k] == before[k]);
                        }
                    }
                }
            }
            i = i + 1;
        }
        proof {
            let wanted = self.unowned(scopes);
            assert forall|key: RecoveryKey| #[trigger] wanted.contains_key(key) implies rest@.contains(
                (key, wanted[key]),
            ) by {
                assert(scopes.contains_key(key));
                let at = list@.index_of((key, scopes[key]));
                assert(list[at].0 == key);
            }
        }
        rest
    }
}

impl Lifecycle {
    /// What every operation keeps. A record has one owner. A text that does not
    /// fit the store is known to be unprotected. A walk is asked about or waits,
    /// but not both; while the host takes it a step further it does neither. The
    /// store comes with the end of startup, and so does the end of the keys that
    /// only startup needs.
    pub open spec fn well_formed(&self) -> bool {
        &&& self.retirements.well_formed()
        &&& self.checkpoints.well_formed()
        &&& !(self.interlock.pending is Some && self.interlock.waiting is Some)
        &&& self.startup_recovery_pending ==> !self.store_ready
        &&& !self.startup_recovery_pending ==> self.startup_recovery_keys@ == Map::<
            DocumentId,
            RecoveryKey,
        >::empty()
    }

    /// What `perform_after_discard_retirement` has to retire.
    pub open spec fn demands(
        &self,
        action: DestructiveAction,
        keys: Seq<ScopedKey>,
    ) -> Scopes {
        demanded(self.retirements.pending@, action, keys)
    }

    /// Wait for cleanup, then resume the walk.
    pub(crate) fn schedule_destructive_retirement_continuation(
        &mut self,
        request: RequestId,
        keys: Vec<ScopedKey>,
    ) -> (step: Step)
        ensures
            final(self).interlock.waiting == Some(PendingDestructive { request, keys }),
            final(self).interlock.pending == old(self).interlock.pending,
            final(self).interlock.handled == old(self).interlock.handled,
            final(self).interlock.window_close_pending
                == old(self).interlock.window_close_pending,
            final(self).interlock.window_close_ready == old(self).interlock.window_close_ready,
            final(self).same_but_interlock(old(self)),
            step.next is ResumeLater,
            step.effects@ == seq![Effect::Report { notice: Notice::WaitingForRecoveryCleanup }],
    {
        self.interlock.waiting = Some(PendingDestructive { request, keys });
        Step { effects: report(Notice::WaitingForRecoveryCleanup), next: Next::ResumeLater }
    }

    /// Whether everything but the interlock is as in `other`.
    pub open spec fn same_but_interlock(&self, other: &Lifecycle) -> bool {
        &&& self.retirements == other.retirements
        &&& self.checkpoints == other.checkpoints
        &&& self.same_storage(other)
    }

    /// Whether what is known about recovery storage is as in `other`.
    pub open spec fn same_storage(&self, other: &Lifecycle) -> bool {
        &&& self.store_ready == other.store_ready
        &&& self.startup_recovery_pending == other.startup_recovery_pending
        &&& self.startup_recovery_keys == other.startup_recovery_keys
        &&& self.save_as_recovery_keys == other.save_as_recovery_keys
    }

    /// Whether only the walk that waits has changed since `before`, and the
    /// walk `request` now waits for `scopes`.
    pub open spec fn waits_for(
        &self,
        before: &Lifecycle,
        request: RequestId,
        scopes: Scopes,
    ) -> bool {
        &&& self.same_but_interlock(before)
        &&& self.interlock.pending == before.interlock.pending
        &&& self.interlock.waiting matches Some(waiting) && waiting.request == request && lists(
            waiting.keys@,
            scopes,
        )
    }

    /// Carry out `action` once every record it concerns is durably retired.
    /// `keys` are the records of the walk itself, `dirty` those of documents
    /// with unsaved text.
    pub fn perform_after_discard_retirement(
        &mut self,
        request: RequestId,
        action: DestructiveAction,
        keys: &Vec<ScopedKey>,
        dirty: &BTreeSet<RecoveryKey>,
        now: Instant,
    ) -> (step: Step)
        ensures
            old(self).well_formed() && !old(self).is_deciding() ==> final(self).well_formed(),
            final(self).same_storage(old(self)),
            final(self).interlock.handled == old(self).interlock.handled,
            final(self).interlock.window_close_pending
                == old(self).interlock.window_close_pending,
            final(self).interlock.window_close_ready == old(self).interlock.window_close_ready,
            clearance(old(self), final(self), request, action, keys@, dirty@, now, step),
    {
        let mut merged: BTreeMap<RecoveryKey, Option<DocumentId>> = BTreeMap::new();
        claim_each(&mut merged, keys);
        let queued = self.retirements.pending_recovery_keys(action);
        let ghost own = merged@;
        claim_each(&mut merged, &queued);
        let ghost wanted = self.demands(action, keys@);
        proof {
            lemma_listed_claims(own, queued@, concerning(self.retirements.pending@, action));
            assert(merged@ == wanted);
        }
        let list = scoped_list(&merged);
        if self.retirements.is_held_up(&list, dirty, Ghost(wanted)) {
            return self.schedule_destructive_retirement_continuation(request, list);
        }
        let rest = self.retirements.without_owned(&list, Ghost(wanted));
        let ghost open = self.retirements.unowned(wanted);
        proof {
            lemma_listed_keys(rest@, open);
        }
        let rest_keys = keys_in(&rest);
        let retrying = self.retirements.any_retrying(&rest_keys);
        proof {
            assert(retrying == self.retirements.awaits_retry(open)) by {
                let key_seq = rest_keys@;
                if retrying {
                    let key = choose|key: RecoveryKey|
                        self.retirements.retries@.contains(key) && key_seq.to_set().contains(key);
                    assert(open.contains_key(key));
                }
            }
        }
        if retrying {
            return self.schedule_destructive_retirement_continuation(request, rest);
        }
        let mut effects: Vec<Effect> = Vec::new();
        if rest.len() == 0 {
            return Step { effects, next: Next::Perform { action } };
        }
        let set = key_set(&rest);
        claim_each(&mut self.retirements.pending, &rest);
        proof {
            lemma_listed_claims(old(self).retirements.pending@, rest@, open);
        }
        if !self.store_ready {
            self.checkpoints.remove_recovery_state_for_keys(&set, &mut effects);
            let ghost order = choose|order: Seq<DocumentId>|
                enumerates(order, old(self).checkpoints.states@.dom()) && effects@ == (Seq::<
                    Effect,
                >::empty() + #[trigger] cancellations(
                    order,
                    old(self).checkpoints.states@,
                    set@,
                )).push(Effect::RescheduleTimer);
            let notice = if self.startup_recovery_pending {
                self.interlock.waiting = Some(PendingDestructive { request, keys: rest });
                Notice::WaitingForRecoveryStorage
            } else {
                Notice::RecoveryStorageUnavailable
            };
            effects.push(Effect::Report { notice });
            proof {
                assert(effects@ =~= cancellations(
                    order,
                    old(self).checkpoints.states@,
                    open.dom(),
                ) + seq![Effect::RescheduleTimer, Effect::Report { notice }]);
            }
            return Step { effects, next: Next::Done };
        }
        self.checkpoints.cancel_recovery_attempts_for_keys(&set, now, &mut effects);
        proof {
            let order = choose|order: Seq<DocumentId>|
                enumerates(order, old(self).checkpoints.states@.dom()) && effects@ == Seq::<
                    Effect,
                >::empty() + #[trigger] grounding_effects(
                    order,
                    old(self).checkpoints.states@,
                    set@,
                    now,
                );
            assert(effects@ =~= grounding_effects(
                order,
                old(self).checkpoints.states@,
                open.dom(),
                now,
            ));
        }
        Step { effects, next: Next::BeginRetirements { request, keys: rest } }
    }
}

/// How `perform_after_discard_retirement` decides: it waits for a retirement
/// that does not cover the decision, or for one that is to be tried again;
/// where everything is durably retired it lets the action go ahead; otherwise
/// the missing retirements are queued and, if there is a store, begun together.
pub open spec fn clearance(
    before: &Lifecycle,
    after: &Lifecycle,
    request: RequestId,
    action: DestructiveAction,
    keys: Seq<ScopedKey>,
    dirty: Set<RecoveryKey>,
    now: Instant,
    step: Step,
) -> bool {
    let wanted = before.demands(action, keys);
    let open = before.retirements.unowned(wanted);
    let waiting = seq![Effect::Report { notice: Notice::WaitingForRecoveryCleanup }];
    if before.retirements.held_up(wanted, dirty) {
        &&& after.waits_for(before, request, wanted)
        &&& step.effects@ == waiting
        &&& step.next is ResumeLater
    } else if before.retirements.awaits_retry(open) {
        &&& after.waits_for(before, request, open)
        &&& step.effects@ == waiting
        &&& step.next is ResumeLater
    } else if open.dom() == Set::<RecoveryKey>::empty() {
        &&& after.same_but_interlock(before)
        &&& after.interlock.pending == before.interlock.pending
        &&& after.interlock.waiting == before.interlock.waiting
        &&& step.effects@.len() == 0
        &&& step.next == (Next::Perform { action })
    } else {
        &&& after.retirements.pending@ == with_scopes(before.retirements.pending@, open)
        &&& after.retirements.tickets == before.retirements.tickets
        &&& after.retirements.batches == before.retirements.batches
        &&& after.retirements.retries == before.retirements.retries
        &&& after.checkpoints.worker_active == before.checkpoints.worker_active
        &&& after.checkpoints.timer_generation == before.checkpoints.timer_generation
        &&& after.interlock.pending == before.interlock.pending
        &&& if before.store_ready {
            &&& begins(step.next, request, open)
            &&& after.interlock.waiting == before.interlock.waiting
            &&& after.checkpoints.warning == before.checkpoints.warning
            &&& after.checkpoints.states@ == grounded_states(
                before.checkpoints.states@,
                open.dom(),
                now,
            )
            &&& exists|order: Seq<DocumentId>|
                enumerates(order, before.checkpoints.states@.dom()) && step.effects@
                    == #[trigger] grounding_effects(
                    order,
                    before.checkpoints.states@,
                    open.dom(),
                    now,
                )
        } else {
            &&& step.next is Done
            &&& if before.startup_recovery_pending {
                after.interlock.waiting matches Some(waiting) && waiting.request == request && lists(
                    waiting.keys@,
                    open,
                )
            } else {
                after.interlock.waiting == before.interlock.waiting
            }
            &&& after.checkpoints.states@ == without_keys(before.checkpoints.states@, open.dom())
            &&& after.checkpoints.warning == unprotected(after.checkpoints.states@)
            &&& exists|order: Seq<DocumentId>|
                enumerates(order, before.checkpoints.states@.dom()) && step.effects@
                    == #[trigger] cancellations(
                    order,
                    before.checkpoints.states@,
                    open.dom(),
                ) + seq![
                    Effect::RescheduleTimer,
                    Effect::Report {
                        notice: if before.startup_recovery_pending {
                            Notice::WaitingForRecoveryStorage
                        } else {
                            Notice::RecoveryStorageUnavailable
                        },
                    },
                ]
        }
    }
}

/// Whether `next` is to begin the retirement of each entry of `scopes`.
pub open spec fn begins(next: Next, request: RequestId, scopes: Scopes) -> bool {
    next matches Next::BeginRetirements { request: asked, keys } && asked == request && lists(
        keys@,
        scopes,
    )
}

} // verus!
