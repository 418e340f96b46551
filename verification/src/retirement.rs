//! Durable retirement of recovery records after an intentional Save or Discard.
//!
//! A decision is queued until the recovery store has a durable marker for it.
//! From then on a ticket, or a batch that covers several records at once, owns
//! the record's retirement until the store has cleaned up behind it.

use crate::effect::{BatchId, DestructiveAction, Effect, Notice, TextId, TicketId};
use crate::scope::{
    claimed_scope, enter_each, enumerates, insert_scoped_recovery_key, keys_of, keys_with_value,
    lemma_push_contains, lists, remove_each, with_claim, withdraw_each, DocumentId, RecoveryKey,
    ScopedKey, Scopes,
};
use std::collections::{BTreeMap, BTreeSet};
use vstd::prelude::*;

verus! {

broadcast use vstd::std_specs::btree::group_btree_axioms;

/// Retirements that are wanted, running, or waiting to be tried again.
pub struct Retirements {
    /// Save or Discard decisions that still need a durable marker.
    pub pending: BTreeMap<RecoveryKey, Option<DocumentId>>,
    /// Records whose own retirement is running.
    pub tickets: BTreeMap<RecoveryKey, TicketId>,
    /// Records whose retirement runs as part of a batch.
    pub batches: BTreeMap<RecoveryKey, BatchId>,
    /// Records with a delayed attempt on its way.
    pub retries: BTreeSet<RecoveryKey>,
}

/// A retirement the host is to begin in the recovery store.
#[derive(Clone, Copy, Debug, PartialEq, Eq, Structural)]
pub struct RetirementRequest {
    pub key: RecoveryKey,
    pub document: Option<DocumentId>,
}

/// How far a retirement got in the store.
#[derive(Clone, Copy, Debug, PartialEq, Eq, Structural)]
pub enum Completion {
    Retired,
    CleanupPending { error: TextId },
    Failed { error: TextId },
}

/// What follows a delayed attempt to complete a batch.
pub struct BatchRetry {
    pub effects: Vec<Effect>,
    /// The batch is to be completed once more, after another second.
    pub again: bool,
}

/// The retirements that are due for those of `keys` that are queued.
pub open spec fn queued_invalidations(keys: Seq<RecoveryKey>, pending: Scopes) -> Seq<Effect>
    decreases keys.len(),
{
    if keys.len() == 0 {
        Seq::empty()
    } else {
        let earlier = queued_invalidations(keys.drop_last(), pending);
        let key = keys.last();
        if pending.contains_key(key) {
            earlier.push(Effect::Invalidate { key, document: pending[key] })
        } else {
            earlier
        }
    }
}

/// Whether `action` has to wait for a queued retirement with this scope. A
/// retirement of unknown origin holds up every action.
pub open spec fn concerns(action: DestructiveAction, scope: Option<DocumentId>) -> bool {
    match action {
        DestructiveAction::CloseTab { document } => scope is None || scope == Some(document),
        DestructiveAction::CloseWindow => true,
        DestructiveAction::ReplaceWorkspace { .. } => true,
    }
}

/// The entries of `scopes` that `action` has to wait for.
pub open spec fn concerning(scopes: Scopes, action: DestructiveAction) -> Scopes {
    scopes.restrict(
        Set::new(
            |key: RecoveryKey| scopes.contains_key(key) && concerns(action, scopes[key]),
        ),
    )
}

impl Retirements {
    /// No record is retired by a ticket of its own and by a batch at once.
    pub open spec fn well_formed(&self) -> bool {
        self.tickets@.dom().disjoint(self.batches@.dom())
    }

    /// Whether a retirement of `key` is running.
    pub open spec fn is_owned(&self, key: RecoveryKey) -> bool {
        self.tickets@.contains_key(key) || self.batches@.contains_key(key)
    }

    /// The records that are retired together with `key`.
    pub open spec fn batch_mates(&self, key: RecoveryKey) -> Set<RecoveryKey> {
        if self.batches@.contains_key(key) {
            self.batches@.dom().filter(
                |other: RecoveryKey| self.batches@[other] == self.batches@[key],
            )
        } else {
            Set::empty()
        }
    }

    /// Whether every key of `keys` is retired by `batch`.
    pub open spec fn all_in_batch(&self, keys: Seq<RecoveryKey>, batch: BatchId) -> bool {
        forall|i: int|
            0 <= i < keys.len() ==> self.batches@.contains_key(#[trigger] keys[i])
                && self.batches@[keys[i]] == batch
    }

    /// Nothing to retire.
    pub fn new() -> (retirements: Self)
        ensures
            retirements.well_formed(),
            retirements.pending@ == Map::<RecoveryKey, Option<DocumentId>>::empty(),
            retirements.tickets@ == Map::<RecoveryKey, TicketId>::empty(),
            retirements.batches@ == Map::<RecoveryKey, BatchId>::empty(),
            retirements.retries@ == Set::<RecoveryKey>::empty(),
    {
        Retirements {
            pending: BTreeMap::new(),
            tickets: BTreeMap::new(),
            batches: BTreeMap::new(),
            retries: BTreeSet::new(),
        }
    }

    /// Whether a retirement of `key` is running.
    pub fn owned(&self, key: RecoveryKey) -> (owned: bool)
        ensures
            owned == self.is_owned(key),
    {
        self.tickets.contains_key(&key) || self.batches.contains_key(&key)
    }

    /// Whether the decision to retire `key` could still be lost.
    pub fn is_undurable_recovery_retirement(&self, key: RecoveryKey) -> (undurable: bool)
        ensures
            undurable == self.pending@.contains_key(key),
    {
        self.pending.contains_key(&key)
    }

    /// Whether every key of `keys` is retired by `batch`.
    pub fn batch_is_current(&self, keys: &Vec<RecoveryKey>, batch: BatchId) -> (current: bool)
        ensures
            current == self.all_in_batch(keys@, batch),
    {
        let mut i: usize = 0;
        while i < keys.len()
            invariant
                i <= keys.len(),
                self.all_in_batch(keys@.take(i as int), batch),
            decreases keys.len() - i,
        {
            let key: RecoveryKey = keys[i];
            let current = match self.batches.get(&key) {
                Some(found) => *found == batch,
                None => false,
            };
            if !current {
                assert(!(self.batches@.contains_key(keys[i as int]) && self.batches@[keys[i as int]]
                    == batch));
                return false;
            }
            proof {
                let longer = keys@.take(i + 1);
                assert forall|j: int| 0 <= j < longer.len() implies self.batches@.contains_key(
                    #[trigger] longer[j],
                ) && self.batches@[longer[j]] == batch by {
                    if j < i {
                        assert(longer[j] == keys@.take(i as int)[j]);
                    }
                }
            }
            i = i + 1;
        }
        assert(keys@.take(keys.len() as int) =~= keys@);
        true
    }

    /// Ask for the retirement of those of `keys` that are queued.
    fn replay_queued(&self, keys: &Vec<RecoveryKey>, effects: &mut Vec<Effect>)
        ensures
            final(effects)@ == old(effects)@ + queued_invalidations(keys@, self.pending@),
    {
        let mut i: usize = 0;
        while i < keys.len()
            invariant
                i <= keys.len(),
                effects@ == old(effects)@ + queued_invalidations(
                    keys@.take(i as int),
                    self.pending@,
                ),
            decreases keys.len() - i,
        {
            let key: RecoveryKey = keys[i];
            proof {
                assert(keys@.take(i + 1).drop_last() =~= keys@.take(i as int));
                assert(keys@.take(i + 1).last() == key);
            }
            match self.pending.get(&key) {
                Some(document) => {
                    effects.push(Effect::Invalidate { key, document: *document });
                },
                None => {},
            }
            proof {
                assert(effects@ =~= old(effects)@ + queued_invalidations(
                    keys@.take(i + 1),
                    self.pending@,
                ));
            }
            i = i + 1;
        }
        assert(keys@.take(keys.len() as int) =~= keys@);
    }

    /// Queue the retirement of `key`, and begin it if the store is there.
    pub fn invalidate_recovery(
        &mut self,
        key: RecoveryKey,
        document: Option<DocumentId>,
        store_ready: bool,
    ) -> (request: Option<RetirementRequest>)
        ensures
            old(self).well_formed() ==> final(self).well_formed(),
            final(self).pending@ == with_claim(old(self).pending@, key, document),
            final(self).tickets == old(self).tickets,
            final(self).batches == old(self).batches,
            final(self).retries == old(self).retries,
            request == (if store_ready {
                Some(
                    RetirementRequest {
                        key,
                        document: claimed_scope(old(self).pending@, key, document),
                    },
                )
            } else {
                None
            }),
    {
        let document = insert_scoped_recovery_key(&mut self.pending, key, document);
        if store_ready {
            Some(RetirementRequest { key, document })
        } else {
            None
        }
    }

    /// The store has a durable marker for `request`: the key leaves the queue
    /// and a ticket owns it. A batch the key belonged to is dissolved, and the
    /// batch's other records that are queued are retired one by one.
    pub fn retirement_began(&mut self, request: RetirementRequest, ticket: TicketId) -> (effects:
        Vec<Effect>)
        ensures
            old(self).well_formed() ==> final(self).well_formed(),
            final(self).pending@ == old(self).pending@.remove(request.key),
            final(self).tickets@ == old(self).tickets@.insert(request.key, ticket),
            final(self).batches@ == old(self).batches@.remove_keys(
                old(self).batch_mates(request.key),
            ),
            final(self).retries@ == old(self).retries@.difference(
                old(self).batch_mates(request.key),
            ),
            exists|order: Seq<RecoveryKey>|
                enumerates(order, old(self).batch_mates(request.key)) && effects@
                    == #[trigger] began_effects(request, ticket, order, final(self).pending@),
    {
        let key: RecoveryKey = request.key;
        self.pending.remove(&key);
        let mates = match self.batches.get(&key) {
            Some(batch) => keys_with_value(&self.batches, *batch),
            None => Vec::new(),
        };
        assert(mates@.to_set() =~= old(self).batch_mates(key));
        remove_each(&mut self.batches, &mates);
        withdraw_each(&mut self.retries, &mates);
        self.tickets.insert(key, ticket);
        let mut effects: Vec<Effect> = Vec::new();
        effects.push(
            Effect::CompleteRetirement {
                key,
                ticket,
                document: request.document,
                delayed: false,
            },
        );
        self.replay_queued(&mates, &mut effects);
        assert(effects@ =~= began_effects(request, ticket, mates@, self.pending@));
        effects
    }

    /// The store could not write a marker for `request`. The key stays queued;
    /// unless something else already owns it, it is tried again later.
    pub fn retirement_refused(&mut self, request: RetirementRequest, error: TextId) -> (effects:
        Vec<Effect>)
        ensures
            old(self).well_formed() ==> final(self).well_formed(),
            final(self).pending == old(self).pending,
            final(self).tickets == old(self).tickets,
            final(self).batches == old(self).batches,
            final(self).retries@ == (if old(self).is_owned(request.key) {
                old(self).retries@
            } else {
                old(self).retries@.insert(request.key)
            }),
            effects@ == seq![
                Effect::Report { notice: Notice::CouldNotClearCheckpoint { error } },
            ] + (if old(self).is_owned(request.key) || old(self).retries@.contains(request.key) {
                Seq::empty()
            } else {
                seq![Effect::RetryRetirement { key: request.key }]
            }),
    {
        let mut effects: Vec<Effect> = Vec::new();
        effects.push(Effect::Report { notice: Notice::CouldNotClearCheckpoint { error } });
        if !self.owned(request.key) {
            self.schedule_recovery_retirement_retry(request.key, &mut effects);
        }
        effects
    }

    /// Try `key` again in a second, unless that is already arranged.
    fn schedule_recovery_retirement_retry(&mut self, key: RecoveryKey, effects: &mut Vec<Effect>)
        ensures
            final(self).pending == old(self).pending,
            final(self).tickets == old(self).tickets,
            final(self).batches == old(self).batches,
            final(self).retries@ == old(self).retries@.insert(key),
            final(effects)@ == old(effects)@ + (if old(self).retries@.contains(key) {
                Seq::empty()
            } else {
                seq![Effect::RetryRetirement { key }]
            }),
    {
        if self.retries.insert(key) {
            effects.push(Effect::RetryRetirement { key });
        }
    }

    /// A second has passed since the retirement of `key` could not begin. A key
    /// that something owns by now is left to its owner.
    pub fn retirement_retry_elapsed(&mut self, key: RecoveryKey) -> (effects: Vec<Effect>)
        ensures
            old(self).well_formed() ==> final(self).well_formed(),
            final(self).pending == old(self).pending,
            final(self).tickets == old(self).tickets,
            final(self).batches == old(self).batches,
            final(self).retries@ == (if old(self).is_owned(key) {
                old(self).retries@
            } else {
                old(self).retries@.remove(key)
            }),
            effects@ == (if !old(self).is_owned(key) && old(self).pending@.contains_key(key) {
                seq![Effect::Invalidate { key, document: old(self).pending@[key] }]
            } else {
                Seq::empty()
            }),
    {
        let mut effects: Vec<Effect> = Vec::new();
        if self.owned(key) {
            return effects;
        }
        self.retries.remove(&key);
        match self.pending.get(&key) {
            Some(document) => {
                effects.push(Effect::Invalidate { key, document: *document });
            },
            None => {},
        }
        effects
    }

    /// The store has finished with `ticket`. A ticket that no longer owns `key`
    /// changes nothing.
    pub fn finish_recovery_retirement(
        &mut self,
        key: RecoveryKey,
        ticket: TicketId,
        document: Option<DocumentId>,
        completion: Completion,
    ) -> (effects: Vec<Effect>)
        ensures
            old(self).well_formed() ==> final(self).well_formed(),
            !old(self).ticket_is_current(key, ticket) ==> *final(self) == *old(self)
                && effects@.len() == 0,
            old(self).ticket_is_current(key, ticket) ==> {
                &&& final(self).batches == old(self).batches
                &&& final(self).tickets@ == (match completion {
                    Completion::CleanupPending { .. } => old(self).tickets@,
                    _ => old(self).tickets@.remove(key),
                })
                &&& final(self).pending@ == (match completion {
                    Completion::Failed { .. } => with_claim(old(self).pending@, key, document),
                    _ => old(self).pending@,
                })
                &&& final(self).retries@ == (match completion {
                    Completion::Retired => old(self).retries@.remove(key),
                    _ => old(self).retries@.insert(key),
                })
                &&& effects@ == (match completion {
                    Completion::Retired => if old(self).pending@.contains_key(key) {
                        seq![Effect::Invalidate { key, document: old(self).pending@[key] }]
                    } else {
                        Seq::empty()
                    },
                    Completion::CleanupPending { error } => seq![
                        Effect::Report { notice: Notice::CheckpointCleanupPending { error } },
                        Effect::CompleteRetirement { key, ticket, document, delayed: true },
                    ],
                    Completion::Failed { error } => seq![
                        Effect::Report { notice: Notice::CouldNotClearCheckpoint { error } },
                        Effect::RetryRetirement { key },
                    ],
                })
            },
    {
        let mut effects: Vec<Effect> = Vec::new();
        let current = match self.tickets.get(&key) {
            Some(found) => *found == ticket,
            None => false,
        };
        if !current {
            return effects;
        }
        self.retries.remove(&key);
        match completion {
            Completion::Retired => {
                self.tickets.remove(&key);
                match self.pending.get(&key) {
                    Some(scope) => {
                        effects.push(Effect::Invalidate { key, document: *scope });
                    },
                    None => {},
                }
            },
            Completion::CleanupPending { error } => {
                effects.push(Effect::Report { notice: Notice::CheckpointCleanupPending { error } });
                self.schedule_recovery_retirement_completion_retry(
                    key,
                    ticket,
                    document,
                    &mut effects,
                );
                assert(self.retries@ =~= old(self).retries@.insert(key));
            },
            Completion::Failed { error } => {
                self.tickets.remove(&key);
                insert_scoped_recovery_key(&mut self.pending, key, document);
                effects.push(Effect::Report { notice: Notice::CouldNotClearCheckpoint { error } });
                self.schedule_recovery_retirement_retry(key, &mut effects);
                assert(self.retries@ =~= old(self).retries@.insert(key));
            },
        }
        effects
    }

    /// Whether `ticket` owns the retirement of `key`.
    pub open spec fn ticket_is_current(&self, key: RecoveryKey, ticket: TicketId) -> bool {
        self.tickets@.contains_key(key) && self.tickets@[key] == ticket
    }

    /// Complete `ticket` again in a second, unless that is already arranged.
    fn schedule_recovery_retirement_completion_retry(
        &mut self,
        key: RecoveryKey,
        ticket: TicketId,
        document: Option<DocumentId>,
        effects: &mut Vec<Effect>,
    )
        ensures
            final(self).pending == old(self).pending,
            final(self).tickets == old(self).tickets,
            final(self).batches == old(self).batches,
            final(self).retries@ == old(self).retries@.insert(key),
            final(effects)@ == old(effects)@ + (if old(self).retries@.contains(key) {
                Seq::empty()
            } else {
                seq![Effect::CompleteRetirement { key, ticket, document, delayed: true }]
            }),
    {
        if self.retries.insert(key) {
            effects.push(Effect::CompleteRetirement { key, ticket, document, delayed: true });
        }
    }

    /// `batch` no longer owns `keys`; those that were queued meanwhile are
    /// retired again. A batch that does not own all of them changes nothing.
    pub fn finish_recovery_retirement_batch(&mut self, keys: &Vec<RecoveryKey>, batch: BatchId) -> (
    effects: Vec<Effect>)
        ensures
            old(self).well_formed() ==> final(self).well_formed(),
            final(self).pending == old(self).pending,
            final(self).tickets == old(self).tickets,
            !old(self).all_in_batch(keys@, batch) ==> *final(self) == *old(self)
                && effects@.len() == 0,
            old(self).all_in_batch(keys@, batch) ==> {
                &&& final(self).batches@ == old(self).batches@.remove_keys(keys@.to_set())
                &&& final(self).retries@ == old(self).retries@.difference(keys@.to_set())
                &&& effects@ == queued_invalidations(keys@, old(self).pending@)
            },
    {
        let mut effects: Vec<Effect> = Vec::new();
        if !self.batch_is_current(keys, batch) {
            return effects;
        }
        remove_each(&mut self.batches, keys);
        withdraw_each(&mut self.retries, keys);
        self.replay_queued(keys, &mut effects);
        assert(effects@ =~= queued_invalidations(keys@, old(self).pending@));
        effects
    }

    /// Whether the host is to complete a batch again in a second: not without a
    /// store, and not where one of its records already waits.
    pub fn schedule_recovery_retirement_batch_retry(
        &mut self,
        keys: &Vec<RecoveryKey>,
        store_ready: bool,
    ) -> (scheduled: bool)
        ensures
            old(self).well_formed() ==> final(self).well_formed(),
            final(self).pending == old(self).pending,
            final(self).tickets == old(self).tickets,
            final(self).batches == old(self).batches,
            scheduled == (store_ready && keys.len() > 0 && old(self).retries@.disjoint(
                keys@.to_set(),
            )),
            final(self).retries@ == (if scheduled {
                old(self).retries@.union(keys@.to_set())
            } else {
                old(self).retries@
            }),
    {
        if keys.len() == 0 || self.any_retrying(keys) || !store_ready {
            return false;
        }
        enter_each(&mut self.retries, keys);
        true
    }

    /// Whether one of `keys` waits for a delayed attempt.
    pub fn any_retrying(&self, keys: &Vec<RecoveryKey>) -> (waiting: bool)
        ensures
            waiting == !self.retries@.disjoint(keys@.to_set()),
    {
        let mut i: usize = 0;
        while i < keys.len()
            invariant
                i <= keys.len(),
                forall|j: int| 0 <= j < i ==> !self.retries@.contains(#[trigger] keys[j]),
            decreases keys.len() - i,
        {
            let key: RecoveryKey = keys[i];
            if self.retries.contains(&key) {
                assert(keys@.to_set().contains(keys@[i as int]));
                return true;
            }
            i = i + 1;
        }
        assert forall|key: RecoveryKey| keys@.to_set().contains(key) implies !self.retries@.contains(
            key,
        ) by {
            assert(keys@[keys@.index_of(key)] == key);
        }
        false
    }

    /// A delayed attempt to complete `batch` has come back.
    pub fn batch_retry_completed(
        &mut self,
        keys: &Vec<RecoveryKey>,
        batch: BatchId,
        completion: Completion,
        store_ready: bool,
    ) -> (retry: BatchRetry)
        ensures
            old(self).well_formed() ==> final(self).well_formed(),
            final(self).pending == old(self).pending,
            final(self).tickets == old(self).tickets,
            !old(self).all_in_batch(keys@, batch) ==> *final(self) == *old(self)
                && retry.effects@.len() == 0 && !retry.again,
            old(self).all_in_batch(keys@, batch) ==> {
                &&& retry.again == (completion is CleanupPending && store_ready && keys.len() > 0)
                &&& final(self).batches@ == (if completion is CleanupPending {
                    old(self).batches@
                } else {
                    old(self).batches@.remove_keys(keys@.to_set())
                })
                &&& final(self).retries@ == (if retry.again {
                    old(self).retries@.union(keys@.to_set())
                } else {
                    old(self).retries@.difference(keys@.to_set())
                })
                &&& retry.effects@ == (match completion {
                    Completion::Retired => queued_invalidations(keys@, old(self).pending@),
                    Completion::CleanupPending { error } => seq![
                        Effect::Report { notice: Notice::CheckpointCleanupPending { error } },
                    ],
                    Completion::Failed { error } => queued_invalidations(
                        keys@,
                        old(self).pending@,
                    ) + seq![
                        Effect::RearmDirtyDocuments,
                        Effect::Report { notice: Notice::CouldNotFinishCleanup { error } },
                    ],
                })
            },
    {
        if !self.batch_is_current(keys, batch) {
            return BatchRetry { effects: Vec::new(), again: false };
        }
        withdraw_each(&mut self.retries, keys);
        match completion {
            Completion::Retired => {
                let effects = self.finish_recovery_retirement_batch(keys, batch);
                assert(self.retries@ =~= old(self).retries@.difference(keys@.to_set()));
                BatchRetry { effects, again: false }
            },
            Completion::CleanupPending { error } => {
                let mut effects: Vec<Effect> = Vec::new();
                effects.push(Effect::Report { notice: Notice::CheckpointCleanupPending { error } });
                let again = self.schedule_recovery_retirement_batch_retry(keys, store_ready);
                assert(old(self).retries@.difference(keys@.to_set()).union(keys@.to_set())
                    =~= old(self).retries@.union(keys@.to_set()));
                BatchRetry { effects, again }
            },
            Completion::Failed { error } => {
                let mut effects = self.finish_recovery_retirement_batch(keys, batch);
                effects.push(Effect::RearmDirtyDocuments);
                effects.push(Effect::Report { notice: Notice::CouldNotFinishCleanup { error } });
                assert(self.retries@ =~= old(self).retries@.difference(keys@.to_set()));
                BatchRetry { effects, again: false }
            },
        }
    }

    /// Ask for every queued retirement, now that there is a store for them.
    pub fn flush_pending_recovery_retirements(&self) -> (effects: Vec<Effect>)
        ensures
            exists|order: Seq<RecoveryKey>|
                enumerates(order, self.pending@.dom()) && effects@
                    == #[trigger] queued_invalidations(order, self.pending@),
    {
        let keys = keys_of(&self.pending);
        let mut effects: Vec<Effect> = Vec::new();
        self.replay_queued(&keys, &mut effects);
        assert(effects@ =~= queued_invalidations(keys@, self.pending@));
        assert(enumerates(keys@, self.pending@.dom()));
        effects
    }

    /// The queued retirements that `action` has to wait for.
    pub fn pending_recovery_keys(&self, action: DestructiveAction) -> (keys: Vec<ScopedKey>)
        ensures
            lists(keys@, concerning(self.pending@, action)),
    {
        let all = keys_of(&self.pending);
        let mut keys: Vec<ScopedKey> = Vec::new();
        let mut i: usize = 0;
        while i < all.len()
            invariant
                i <= all.len(),
                all@.no_duplicates(),
                forall|j: int| 0 <= j < all.len() ==> self.pending@.contains_key(#[trigger] all[j]),
                forall|j: int|
                    0 <= j < keys.len() ==> all@.take(i as int).contains((#[trigger] keys[j]).0),
                forall|j: int, k: int|
                    #![trigger keys[j], keys[k]]
                    0 <= j < k < keys.len() ==> keys[j].0 != keys[k].0,
                forall|j: int|
                    #![trigger keys[j]]
                    0 <= j < keys.len() ==> self.pending@.contains_key(keys[j].0)
                        && self.pending@[keys[j].0] == keys[j].1 && concerns(action, keys[j].1),
                forall|key: RecoveryKey| #[trigger]
                    all@.take(i as int).contains(key) && concerns(action, self.pending@[key])
                        ==> keys@.contains((key, self.pending@[key])),
            decreases all.len() - i,
        {
            let key: RecoveryKey = all[i];
            let ghost earlier = keys@;
            proof {
                assert(all@.take(i + 1) =~= all@.take(i as int).push(key));
                lemma_push_contains(all@.take(i as int), key);
                assert(!all@.take(i as int).contains(key));
                lemma_push_contains(keys@, (key, self.pending@[key]));
            }
            match self.pending.get(&key) {
                Some(scope) => {
                    let concerned = match action {
                        DestructiveAction::CloseTab { document } => match *scope {
                            None => true,
                            Some(owner) => owner == document,
                        },
                        DestructiveAction::CloseWindow => true,
                        DestructiveAction::ReplaceWorkspace { path: _ } => true,
                    };
                    if concerned {
                        keys.push((key, *scope));
                    }
                },
                None => {},
            }
            i = i + 1;
        }
        proof {
            assert(all@.take(all.len() as int) =~= all@);
            let wanted = concerning(self.pending@, action);
            assert forall|key: RecoveryKey| #[trigger] wanted.contains_key(key) implies keys@.contains(
                (key, wanted[key]),
            ) by {
                assert(all@.contains(key));
            }
        }
        keys
    }
}

/// What a retirement that has begun asks for: its own completion, then the
/// retirement of its former batch mates that are queued.
pub open spec fn began_effects(
    request: RetirementRequest,
    ticket: TicketId,
    mates: Seq<RecoveryKey>,
    pending: Scopes,
) -> Seq<Effect> {
    seq![
        Effect::CompleteRetirement {
            key: request.key,
            ticket,
            document: request.document,
            delayed: false,
        },
    ] + queued_invalidations(mates, pending)
}

} // verus!
