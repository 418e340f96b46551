//! Restoring documents from the checkpoints that an earlier session left.

use crate::checkpoint::DocumentFacts;
use crate::effect::{Effect, Notice, PathId, TextId};
use crate::lifecycle::{Interlock, Lifecycle, PendingDestructive};
use crate::protection::entry;
use crate::retirement::queued_invalidations;
use crate::scope::{enumerates, lemma_push_contains, DocumentId, RecoveryKey};
use std::collections::BTreeMap;
use vstd::prelude::*;

verus! {

broadcast use vstd::std_specs::btree::group_btree_axioms;

/// A checkpoint that is ready to become a document.
#[derive(Clone, Copy, Debug, PartialEq, Eq, Structural)]
pub struct PreparedRecord {
    pub key: RecoveryKey,
    /// `None` for a document that was never saved.
    pub path: Option<PathId>,
}

/// A document as it was when startup recovery began.
#[derive(Clone, Copy, Debug, PartialEq, Eq, Structural)]
pub struct StartupTarget {
    pub document: DocumentId,
    pub revision: u64,
}

/// An open tab, as far as startup recovery reads it.
#[derive(Clone, Copy, Debug, PartialEq, Eq, Structural)]
pub struct StartupTab {
    pub path: Option<PathId>,
    pub document: DocumentId,
    pub revision: u64,
}

/// What to do with one prepared checkpoint.
#[derive(Clone, Copy, Debug, PartialEq, Eq, Structural)]
pub enum RestoreStep {
    /// Its file is open, and nothing is known about how it opened.
    Skip,
    /// Offer it to the open document, which takes it only if it is still as
    /// `expected` says.
    Offer { expected: Option<StartupTarget> },
    /// Give it a tab of its own, and make that tab known.
    Insert,
}

/// How many checkpoints were restored and how many were not.
#[derive(Clone, Copy, Debug, PartialEq, Eq, Structural)]
pub struct RestoreTally {
    pub restored: u64,
    pub skipped: u64,
}

/// What follows the restoring of documents.
pub struct StartupStep {
    pub effects: Vec<Effect>,
    /// The walk that waited for storage is to be resumed.
    pub resume: bool,
}

/// What the recovery store found when it was opened and scanned.
pub struct RecoveryScan {
    /// Records that the scan could not read.
    pub issues: u64,
    /// The records it read, with `None` for one that makes no document.
    pub records: Vec<Option<PreparedRecord>>,
}

/// What came of opening the recovery store.
pub enum StoreOpening {
    Refused { error: TextId },
    /// It is open, and opening it met `maintenance_issues`.
    Opened { maintenance_issues: u64, scan: Result<RecoveryScan, TextId> },
}

/// What startup recovery starts from.
pub struct StartupRecovery {
    pub store_ready: bool,
    pub documents: Vec<PreparedRecord>,
    pub issue_count: u64,
    pub error: Option<TextId>,
}

/// The records that make documents, in order.
pub open spec fn prepared(records: Seq<Option<PreparedRecord>>) -> Seq<PreparedRecord>
    decreases records.len(),
{
    if records.len() == 0 {
        Seq::empty()
    } else {
        let earlier = prepared(records.drop_last());
        match records.last() {
            Some(record) => earlier.push(record),
            None => earlier,
        }
    }
}

/// Every record either makes a document or counts as skipped.
pub proof fn law_no_record_goes_missing(records: Seq<Option<PreparedRecord>>)
    ensures
        prepared(records).len() <= records.len(),
        forall|i: int|
            0 <= i < records.len() && records[i] is Some ==> prepared(records).contains(
                (#[trigger] records[i])->0,
            ),
    decreases records.len(),
{
    if records.len() > 0 {
        law_no_record_goes_missing(records.drop_last());
        let earlier = prepared(records.drop_last());
        assert forall|i: int| 0 <= i < records.len() && records[i] is Some implies prepared(
            records,
        ).contains((#[trigger] records[i])->0) by {
            if records.last() is Some {
                lemma_push_contains(earlier, records.last()->0);
            }
            if i < records.len() - 1 {
                assert(records.drop_last()[i] == records[i]);
            }
        }
    }
}

/// The records that make documents, and how many do not.
pub fn prepare_recovery_records(records: &Vec<Option<PreparedRecord>>) -> (split: (
    Vec<PreparedRecord>,
    usize,
))
    ensures
        split.0@ == prepared(records@),
        split.1 == records.len() - prepared(records@).len(),
{
    let mut documents: Vec<PreparedRecord> = Vec::new();
    let mut skipped: usize = 0;
    let mut i: usize = 0;
    while i < records.len()
        invariant
            i <= records.len(),
            documents@ == prepared(records@.take(i as int)),
            skipped == i - documents.len(),
        decreases records.len() - i,
    {
        let record: Option<PreparedRecord> = records[i];
        proof {
            assert(records@.take(i + 1).drop_last() =~= records@.take(i as int));
            assert(records@.take(i + 1).last() == record);
        }
        match record {
            Some(record) => {
                documents.push(record);
            },
            None => {
                skipped = skipped + 1;
            },
        }
        i = i + 1;
    }
    assert(records@.take(records.len() as int) =~= records@);
    (documents, skipped)
}

/// How many records of `opening` come to nothing.
pub open spec fn issues_in(opening: StoreOpening) -> int {
    match opening {
        StoreOpening::Refused { .. } => 0,
        StoreOpening::Opened { maintenance_issues, scan } => match scan {
            Ok(scan) => maintenance_issues + scan.issues + scan.records.len() - prepared(
                scan.records@,
            ).len(),
            Err(_) => maintenance_issues as int,
        },
    }
}

/// What startup recovery starts from. A store that cannot be scanned can still
/// protect new work; without a store, editing goes on all the same.
pub fn startup_recovery(opening: StoreOpening) -> (startup: StartupRecovery)
    requires
        issues_in(opening) <= u64::MAX,
    ensures
        startup.store_ready == opening is Opened,
        startup.issue_count == issues_in(opening),
        startup.documents@ == (match opening {
            StoreOpening::Opened { scan: Ok(scan), .. } => prepared(scan.records@),
            _ => Seq::empty(),
        }),
        startup.error == (match opening {
            StoreOpening::Refused { error } => Some(error),
            StoreOpening::Opened { scan: Err(error), .. } => Some(error),
            StoreOpening::Opened { scan: Ok(_), .. } => None,
        }),
{
    match opening {
        StoreOpening::Refused { error } => StartupRecovery {
            store_ready: false,
            documents: Vec::new(),
            issue_count: 0,
            error: Some(error),
        },
        StoreOpening::Opened { maintenance_issues, scan } => match scan {
            Ok(scan) => {
                let (documents, skipped) = prepare_recovery_records(&scan.records);
                proof {
                    law_no_record_goes_missing(scan.records@);
                }
                StartupRecovery {
                    store_ready: true,
                    documents,
                    issue_count: maintenance_issues + scan.issues + skipped as u64,
                    error: None,
                }
            },
            Err(error) => StartupRecovery {
                store_ready: true,
                documents: Vec::new(),
                issue_count: maintenance_issues,
                error: Some(error),
            },
        },
    }
}

/// Which file each open document shows; of two tabs with one path the later.
pub open spec fn startup_targets(tabs: Seq<StartupTab>) -> Map<PathId, StartupTarget>
    decreases tabs.len(),
{
    if tabs.len() == 0 {
        Map::empty()
    } else {
        let earlier = startup_targets(tabs.drop_last());
        let tab = tabs.last();
        match tab.path {
            Some(path) => earlier.insert(
                path,
                StartupTarget { document: tab.document, revision: tab.revision },
            ),
            None => earlier,
        }
    }
}

/// Which file each open document shows.
pub fn startup_recovery_targets(tabs: &Vec<StartupTab>) -> (targets: BTreeMap<PathId, StartupTarget>)
    ensures
        targets@ == startup_targets(tabs@),
{
    let mut targets: BTreeMap<PathId, StartupTarget> = BTreeMap::new();
    let mut i: usize = 0;
    while i < tabs.len()
        invariant
            i <= tabs.len(),
            targets@ == startup_targets(tabs@.take(i as int)),
        decreases tabs.len() - i,
    {
        let tab: StartupTab = tabs[i];
        assert(tabs@.take(i + 1).drop_last() =~= tabs@.take(i as int));
        match tab.path {
            Some(path) => {
                targets.insert(
                    path,
                    StartupTarget { document: tab.document, revision: tab.revision },
                );
            },
            None => {},
        }
        i = i + 1;
    }
    assert(tabs@.take(tabs.len() as int) =~= tabs@);
    targets
}

/// What to do with a checkpoint of `path`, where `open` says whether a tab
/// already shows that path.
pub fn restore_step(
    path: Option<PathId>,
    open: bool,
    targets: &Option<BTreeMap<PathId, StartupTarget>>,
) -> (step: RestoreStep)
    ensures
        step == (match path {
            Some(path) if open => match *targets {
                None => RestoreStep::Skip,
                Some(targets) => RestoreStep::Offer {
                    expected: if targets@.contains_key(path) {
                        Some(targets@[path])
                    } else {
                        None
                    },
                },
            },
            _ => RestoreStep::Insert,
        }),
{
    match path {
        Some(path) => {
            if open {
                match targets {
                    None => RestoreStep::Skip,
                    Some(targets) => RestoreStep::Offer {
                        expected: match targets.get(&path) {
                            Some(target) => Some(*target),
                            None => None,
                        },
                    },
                }
            } else {
                RestoreStep::Insert
            }
        },
        None => RestoreStep::Insert,
    }
}

/// How many checkpoints were restored, and how many were not, once one more has
/// been counted.
pub open spec fn counted(restored: int, skipped: int, outcome: bool) -> (int, int) {
    if outcome {
        (restored + 1, skipped)
    } else {
        (restored, skipped + 1)
    }
}

/// How many checkpoints were restored, and how many were not, once the ones
/// with these outcomes have been counted.
pub open spec fn tallied(restored: int, skipped: int, outcomes: Seq<bool>) -> (int, int)
    decreases outcomes.len(),
{
    if outcomes.len() == 0 {
        (restored, skipped)
    } else {
        let earlier = tallied(restored, skipped, outcomes.drop_last());
        counted(earlier.0, earlier.1, outcomes.last())
    }
}

/// Every checkpoint that is put to the documents counts once, as restored or as
/// skipped.
pub proof fn law_every_checkpoint_is_counted_once(
    restored: int,
    skipped: int,
    outcomes: Seq<bool>,
)
    ensures
        tallied(restored, skipped, outcomes).0 + tallied(restored, skipped, outcomes).1 == restored
            + skipped + outcomes.len(),
        tallied(restored, skipped, outcomes).0 == restored + outcomes.filter(
            |outcome: bool| outcome,
        ).len(),
    decreases outcomes.len(),
{
    reveal(Seq::filter);
    if outcomes.len() > 0 {
        law_every_checkpoint_is_counted_once(restored, skipped, outcomes.drop_last());
    }
}

impl RestoreTally {
    /// Nothing restored, and `skipped` records that could not be prepared.
    pub fn new(skipped: u64) -> (tally: Self)
        ensures
            tally.restored == 0,
            tally.skipped == skipped,
    {
        RestoreTally { restored: 0, skipped }
    }

    /// Count one checkpoint.
    pub fn count(&mut self, restored: bool)
        requires
            old(self).restored < u64::MAX,
            old(self).skipped < u64::MAX,
        ensures
            (final(self).restored as int, final(self).skipped as int) == counted(
                old(self).restored as int,
                old(self).skipped as int,
                restored,
            ),
    {
        if restored {
            self.restored = self.restored + 1;
        } else {
            self.skipped = self.skipped + 1;
        }
    }

    /// The status line, if there is anything to tell.
    pub fn report(&self, error: Option<TextId>) -> (effects: Vec<Effect>)
        ensures
            effects@ == (if self.restored > 0 || self.skipped > 0 || error is Some {
                seq![
                    Effect::Report {
                        notice: Notice::StartupRecovery {
                            restored: self.restored,
                            skipped: self.skipped,
                            error,
                        },
                    },
                ]
            } else {
                Seq::empty()
            }),
    {
        let mut effects: Vec<Effect> = Vec::new();
        if self.restored > 0 || self.skipped > 0 || error.is_some() {
            effects.push(
                Effect::Report {
                    notice: Notice::StartupRecovery {
                        restored: self.restored,
                        skipped: self.skipped,
                        error,
                    },
                },
            );
        }
        effects
    }
}

impl Lifecycle {
    /// Whether a checkpoint of `key` may come back: not if the user has already
    /// decided to do without it.
    pub open spec fn may_restore(&self, record: PreparedRecord) -> bool {
        !self.retirements.pending@.contains_key(record.key)
    }

    /// The checkpoints that may come back, in order.
    pub fn restorable(&self, records: &Vec<PreparedRecord>) -> (kept: Vec<PreparedRecord>)
        ensures
            kept@ == records@.filter(|record: PreparedRecord| self.may_restore(record)),
    {
        let mut kept: Vec<PreparedRecord> = Vec::new();
        let mut i: usize = 0;
        let ghost wanted = |record: PreparedRecord| self.may_restore(record);
        proof {
            reveal(Seq::filter);
            assert(kept@ =~= records@.take(0).filter(wanted));
        }
        while i < records.len()
            invariant
                i <= records.len(),
                wanted == (|record: PreparedRecord| self.may_restore(record)),
                kept@ == records@.take(i as int).filter(wanted),
            decreases records.len() - i,
        {
            let record: PreparedRecord = records[i];
            proof {
                reveal(Seq::filter);
                assert(records@.take(i + 1).drop_last() =~= records@.take(i as int));
                assert(records@.take(i + 1).last() == record);
            }
            if !self.retirements.is_undurable_recovery_retirement(record.key) {
                kept.push(record);
            }
            i = i + 1;
        }
        assert(records@.take(records.len() as int) =~= records@);
        kept
    }

    /// The startup scan is over, with or without a store. Documents that open
    /// from now on need no startup key, and the walk that waited is handed out.
    pub fn begin_startup_restore(&mut self, store_ready: bool) -> (waiting: Option<
        PendingDestructive,
    >)
        ensures
            old(self).well_formed() ==> final(self).well_formed(),
            final(self).retirements == old(self).retirements,
            final(self).checkpoints == old(self).checkpoints,
            final(self).save_as_recovery_keys == old(self).save_as_recovery_keys,
            final(self).store_ready == store_ready,
            !final(self).startup_recovery_pending,
            final(self).startup_recovery_keys@ == Map::<DocumentId, RecoveryKey>::empty(),
            final(self).interlock == (Interlock { waiting: None, ..old(self).interlock }),
            waiting == old(self).interlock.waiting,
    {
        self.store_ready = store_ready;
        self.startup_recovery_pending = false;
        self.startup_recovery_keys.clear();
        self.interlock.waiting.take()
    }

    /// The documents are restored. With a store the walk that waited goes on,
    /// or else the queued retirements begin; without one, whatever needed it is
    /// told so and stays as it is.
    pub fn finish_startup_restore(&self, walk_waited: bool) -> (step: StartupStep)
        ensures
            step.resume == (self.store_ready && walk_waited),
            self.store_ready && walk_waited ==> step.effects@.len() == 0,
            self.store_ready && !walk_waited ==> exists|order: Seq<RecoveryKey>|
                enumerates(order, self.retirements.pending@.dom()) && step.effects@
                    == #[trigger] queued_invalidations(order, self.retirements.pending@),
            !self.store_ready ==> step.effects@ == (if walk_waited
                || !self.retirements.pending@.is_empty() {
                seq![Effect::Report { notice: Notice::RecoveryStorageUnavailable }]
            } else {
                Seq::empty()
            }),
    {
        if !self.store_ready {
            let mut effects: Vec<Effect> = Vec::new();
            if walk_waited || !self.retirements.pending.is_empty() {
                effects.push(Effect::Report { notice: Notice::RecoveryStorageUnavailable });
            }
            return StartupStep { effects, resume: false };
        }
        if walk_waited {
            StartupStep { effects: Vec::new(), resume: true }
        } else {
            let effects = self.retirements.flush_pending_recovery_retirements();
            StartupStep { effects, resume: false }
        }
    }

    /// Whether a document has to be armed once the store is there: it is dirty,
    /// nothing retires its record, and nothing protects it yet.
    pub open spec fn lacks_protection(&self, facts: DocumentFacts) -> bool {
        &&& facts.dirty
        &&& !self.retirements.pending@.contains_key(facts.key)
        &&& !self.retirements.is_owned(facts.key)
        &&& match entry(self.checkpoints.states@, facts.id) {
            Some(state) => state.token is None,
            None => true,
        }
    }

    /// The documents to arm once the store is there, in order.
    pub fn unprotected_documents(&self, documents: &Vec<DocumentFacts>) -> (wanting: Vec<
        DocumentFacts,
    >)
        ensures
            wanting@ == documents@.filter(|facts: DocumentFacts| self.lacks_protection(facts)),
    {
        let mut wanting: Vec<DocumentFacts> = Vec::new();
        let mut i: usize = 0;
        let ghost lacking = |facts: DocumentFacts| self.lacks_protection(facts);
        proof {
            reveal(Seq::filter);
            assert(wanting@ =~= documents@.take(0).filter(lacking));
        }
        while i < documents.len()
            invariant
                i <= documents.len(),
                lacking == (|facts: DocumentFacts| self.lacks_protection(facts)),
                wanting@ == documents@.take(i as int).filter(lacking),
            decreases documents.len() - i,
        {
            let facts: DocumentFacts = documents[i];
            proof {
                reveal(Seq::filter);
                assert(documents@.take(i + 1).drop_last() =~= documents@.take(i as int));
                assert(documents@.take(i + 1).last() == facts);
            }
            let unprotected = match self.checkpoints.state_of(facts.id) {
                Some(state) => state.token.is_none(),
                None => true,
            };
            if facts.dirty && !self.retirements.is_undurable_recovery_retirement(facts.key)
                && !self.retirements.owned(facts.key) && unprotected {
                wanting.push(facts);
            }
            i = i + 1;
        }
        assert(documents@.take(documents.len() as int) =~= documents@);
        wanting
    }
}

/// The records that make documents are exactly those that can, in the order in
/// which they were found.
pub proof fn law_prepared_records_keep_their_order(records: Seq<Option<PreparedRecord>>)
    ensures
        prepared(records) == records.filter(
            |record: Option<PreparedRecord>| record is Some,
        ).map_values(|record: Option<PreparedRecord>| record->0),
    decreases records.len(),
{
    let usable = |record: Option<PreparedRecord>| record is Some;
    let taken = |record: Option<PreparedRecord>| record->0;
    reveal(Seq::filter);
    if records.len() > 0 {
        let rest = records.drop_last();
        law_prepared_records_keep_their_order(rest);
        let earlier = rest.filter(usable);
        assert(earlier.push(records.last()).map_values(taken) =~= earlier.map_values(taken).push(
            taken(records.last()),
        ));
    } else {
        assert(prepared(records) =~= records.filter(usable).map_values(taken));
    }
}

/// Every record that was found makes a document or counts as an issue, on top of
/// the issues of opening and scanning; a store that could not be scanned has
/// only the former, and one that could not be opened has none.
pub proof fn law_each_issue_counts_once(opening: StoreOpening)
    ensures
        match opening {
            StoreOpening::Refused { error } => issues_in(opening) == 0,
            StoreOpening::Opened { maintenance_issues, scan } => match scan {
                Ok(scan) => issues_in(opening) + prepared(scan.records@).len()
                    == maintenance_issues + scan.issues + scan.records@.len(),
                Err(error) => issues_in(opening) == maintenance_issues,
            },
        },
{
}

/// A file is known by the last tab that shows it, and only files that a tab
/// shows are known.
pub proof fn law_a_file_is_known_by_its_last_tab(tabs: Seq<StartupTab>, path: PathId, at: int)
    ensures
        startup_targets(tabs).contains_key(path) <==> exists|i: int|
            0 <= i < tabs.len() && (#[trigger] tabs[i]).path == Some(path),
        0 <= at < tabs.len() && tabs[at].path == Some(path) && (forall|i: int|
            at < i < tabs.len() ==> (#[trigger] tabs[i]).path != Some(path)) ==> startup_targets(
            tabs,
        )[path] == (StartupTarget { document: tabs[at].document, revision: tabs[at].revision }),
    decreases tabs.len(),
{
    if tabs.len() > 0 {
        let rest = tabs.drop_last();
        law_a_file_is_known_by_its_last_tab(rest, path, at);
        assert(tabs[tabs.len() - 1] == tabs.last());
        assert forall|i: int| 0 <= i < rest.len() implies #[trigger] rest[i] == tabs[i] by {}
        if exists|i: int| 0 <= i < rest.len() && (#[trigger] rest[i]).path == Some(path) {
            let i = choose|i: int| 0 <= i < rest.len() && (#[trigger] rest[i]).path == Some(path);
            assert(tabs[i].path == Some(path));
        }
        if exists|i: int| 0 <= i < tabs.len() && (#[trigger] tabs[i]).path == Some(path) {
            let i = choose|i: int| 0 <= i < tabs.len() && (#[trigger] tabs[i]).path == Some(path);
            if i < rest.len() {
                assert(rest[i].path == Some(path));
            }
        }
    }
}

/// A checkpoint comes back unless the user has decided to do without it. Once
/// the store is there, a dirty document is armed unless its record is being
/// retired, is to be, or already has a token.
pub proof fn law_what_startup_leaves_unprotected_is_armed(
    lifecycle: &Lifecycle,
    record: PreparedRecord,
    facts: DocumentFacts,
)
    ensures
        lifecycle.may_restore(record) <==> !lifecycle.retirements.pending@.contains_key(record.key),
        lifecycle.lacks_protection(facts) <==> {
            &&& facts.dirty
            &&& !lifecycle.retirements.pending@.contains_key(facts.key)
            &&& !lifecycle.retirements.tickets@.contains_key(facts.key)
            &&& !lifecycle.retirements.batches@.contains_key(facts.key)
            &&& !(lifecycle.checkpoints.states@.contains_key(facts.id)
                && lifecycle.checkpoints.states@[facts.id].token is Some)
        },
{
}

} // verus!
