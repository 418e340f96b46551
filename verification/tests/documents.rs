use markturbo::checkpoint::DocumentFacts;
use markturbo::documents::DocumentEvent;
use markturbo::effect::{Effect, Notice};
use markturbo::lifecycle::Lifecycle;
use markturbo::startup::{
    prepare_recovery_records, restore_step, startup_recovery, startup_recovery_targets,
    PreparedRecord, RecoveryScan, RestoreStep, RestoreTally, StartupTab, StartupTarget,
    StoreOpening,
};

fn facts(id: u64, dirty: bool) -> DocumentFacts {
    DocumentFacts { id, dirty, revision: 1, key: 100 + id, text_bytes: 10 }
}

fn record(key: u64, path: Option<u64>) -> PreparedRecord {
    PreparedRecord { key, path }
}

#[test]
fn typing_withdraws_only_the_queued_decision() {
    let mut lifecycle = Lifecycle::new();
    lifecycle.retirements.pending.insert(101, Some(1));
    lifecycle.retirements.pending.insert(102, Some(2));
    lifecycle.retirements.tickets.insert(101, 50);
    lifecycle.document_edited(facts(1, true), 0);
    assert!(!lifecycle.retirements.is_undurable_recovery_retirement(101));
    assert!(lifecycle.retirements.is_undurable_recovery_retirement(102));
    assert!(lifecycle.retirements.owned(101));
    assert!(lifecycle.checkpoints.state_of(1).is_some());
}

#[test]
fn a_saved_document_is_retired_under_the_key_it_opened_with() {
    let mut lifecycle = Lifecycle::new();
    lifecycle.document_inserted(facts(1, false), Some(5), true, 0);
    let renamed = DocumentFacts { key: 900, ..facts(1, false) };
    let effects = lifecycle.document_dirty_changed(renamed);
    assert_eq!(
        effects,
        [Effect::RescheduleTimer, Effect::Invalidate { key: 101, document: Some(1) }]
    );
    // From now on its own key counts.
    let effects = lifecycle.document_dirty_changed(renamed);
    assert_eq!(effects[1], Effect::Invalidate { key: 900, document: Some(1) });
}

#[test]
fn a_document_saved_under_another_name_retires_its_old_record() {
    let mut lifecycle = Lifecycle::new();
    lifecycle.begin_startup_restore(true);
    lifecycle.save_as_recovery_keys.insert(1, 101);
    let renamed = DocumentFacts { key: 900, ..facts(1, false) };
    let effects = lifecycle.document_dirty_changed(renamed);
    assert_eq!(effects[1], Effect::Invalidate { key: 101, document: Some(1) });
    assert!(lifecycle.save_as_recovery_keys.is_empty());
}

#[test]
fn becoming_dirty_retires_nothing() {
    let mut lifecycle = Lifecycle::new();
    assert!(lifecycle.document_dirty_changed(facts(1, true)).is_empty());
}

#[test]
fn only_dirty_documents_are_armed_again() {
    let mut lifecycle = Lifecycle::new();
    let effects = lifecycle.rearm_dirty_recovery(&vec![facts(1, false), facts(2, true)], 0);
    assert!(lifecycle.checkpoints.state_of(1).is_none());
    assert!(lifecycle.checkpoints.state_of(2).is_some());
    assert_eq!(effects.last(), Some(&Effect::RescheduleTimer));
    assert!(lifecycle.rearm_dirty_recovery(&vec![facts(1, false)], 0).is_empty());
}

#[test]
fn records_that_make_no_document_are_counted() {
    let records = vec![Some(record(1, None)), None, Some(record(2, Some(9))), None];
    let (documents, skipped) = prepare_recovery_records(&records);
    assert_eq!(documents, [record(1, None), record(2, Some(9))]);
    assert_eq!(skipped, 2);
}

#[test]
fn startup_counts_each_issue_once() {
    let scan = RecoveryScan { issues: 3, records: vec![None, Some(record(1, None))] };
    let startup = startup_recovery(StoreOpening::Opened { maintenance_issues: 2, scan: Ok(scan) });
    assert!(startup.store_ready);
    assert_eq!(startup.documents, [record(1, None)]);
    assert_eq!(startup.issue_count, 6);
    assert_eq!(startup.error, None);
}

#[test]
fn a_store_that_cannot_be_scanned_still_protects() {
    let startup = startup_recovery(StoreOpening::Opened { maintenance_issues: 2, scan: Err(8) });
    assert!(startup.store_ready && startup.documents.is_empty());
    assert_eq!((startup.issue_count, startup.error), (2, Some(8)));
}

#[test]
fn a_store_that_cannot_be_opened_is_an_error_and_nothing_more() {
    let startup = startup_recovery(StoreOpening::Refused { error: 8 });
    assert!(!startup.store_ready && startup.documents.is_empty());
    assert_eq!((startup.issue_count, startup.error), (0, Some(8)));
}

#[test]
fn a_decided_record_does_not_come_back() {
    let mut lifecycle = Lifecycle::new();
    lifecycle.retirements.pending.insert(2, Some(1));
    let records = vec![record(1, None), record(2, Some(9)), record(3, Some(8))];
    assert_eq!(lifecycle.restorable(&records), [record(1, None), record(3, Some(8))]);
}

#[test]
fn a_record_finds_the_document_that_shows_its_file() {
    let tabs = vec![
        StartupTab { path: Some(9), document: 1, revision: 4 },
        StartupTab { path: None, document: 2, revision: 1 },
    ];
    let targets = Some(startup_recovery_targets(&tabs));
    assert_eq!(
        restore_step(Some(9), true, &targets),
        RestoreStep::Offer { expected: Some(StartupTarget { document: 1, revision: 4 }) }
    );
    // Opened later, during startup.
    assert_eq!(restore_step(Some(8), true, &targets), RestoreStep::Offer { expected: None });
    assert_eq!(restore_step(Some(8), false, &targets), RestoreStep::Insert);
    assert_eq!(restore_step(None, false, &targets), RestoreStep::Insert);
    assert_eq!(restore_step(Some(9), true, &None), RestoreStep::Skip);
}

#[test]
fn startup_tells_what_it_restored() {
    let mut tally = RestoreTally::new(1);
    tally.count(true);
    tally.count(false);
    assert_eq!(tally, RestoreTally { restored: 1, skipped: 2 });
    assert_eq!(
        tally.report(Some(3)),
        [Effect::Report {
            notice: Notice::StartupRecovery { restored: 1, skipped: 2, error: Some(3) }
        }]
    );
    assert!(RestoreTally::new(0).report(None).is_empty());
}

#[test]
fn the_end_of_startup_frees_later_documents_from_startup_keys() {
    let mut lifecycle = Lifecycle::new();
    lifecycle.document_inserted(facts(1, false), Some(5), true, 0);
    assert!(lifecycle.startup_recovery_keys.contains_key(&1));
    assert!(lifecycle.begin_startup_restore(true).is_none());
    assert!(!lifecycle.startup_recovery_pending);
    assert!(lifecycle.startup_recovery_keys.is_empty());
    lifecycle.document_inserted(facts(2, false), Some(6), true, 0);
    assert!(lifecycle.startup_recovery_keys.is_empty());
}

#[test]
fn queued_records_are_retired_once_startup_is_over() {
    let mut lifecycle = Lifecycle::new();
    lifecycle.retirements.pending.insert(2, Some(1));
    lifecycle.begin_startup_restore(true);
    let step = lifecycle.finish_startup_restore(false);
    assert_eq!(step.effects, [Effect::Invalidate { key: 2, document: Some(1) }]);
    assert!(!step.resume);
}

#[test]
fn startup_without_a_store_and_without_decisions_says_nothing() {
    let mut lifecycle = Lifecycle::new();
    lifecycle.begin_startup_restore(false);
    assert!(lifecycle.finish_startup_restore(false).effects.is_empty());
}

#[test]
fn documents_edited_during_startup_are_armed_with_the_store() {
    let mut lifecycle = Lifecycle::new();
    lifecycle.document_inserted(facts(1, true), None, true, 0);
    lifecycle.document_inserted(facts(2, true), None, true, 0);
    lifecycle.document_inserted(facts(3, true), None, true, 0);
    lifecycle.begin_startup_restore(true);
    lifecycle.checkpoints.token_activated(2, 102, 7, false);
    lifecycle.retirements.pending.insert(103, Some(3));
    let documents = vec![facts(1, true), facts(2, true), facts(3, true), facts(4, false)];
    assert_eq!(lifecycle.unprotected_documents(&documents), [facts(1, true)]);
}

#[test]
fn a_document_is_heard() {
    let mut lifecycle = Lifecycle::new();
    let mut event = |event| lifecycle.document_event(event, facts(1, true), 5);
    assert_eq!(
        event(DocumentEvent::Status { text: 3 }),
        [Effect::Report { notice: Notice::Message { text: 3 } }]
    );
    assert_eq!(
        event(DocumentEvent::Conflict),
        [Effect::Report { notice: Notice::FileChangedOnDisk }]
    );
    assert_eq!(event(DocumentEvent::SaveAsRequested), [Effect::PromptSaveAs { document: 1 }]);
    assert!(event(DocumentEvent::DirtyChanged).is_empty());
    assert_eq!(
        event(DocumentEvent::ScrollWebPreview { place: 9 }),
        [Effect::ScrollWeb { place: 9 }]
    );
    assert_eq!(event(DocumentEvent::Edited).last(), Some(&Effect::RescheduleTimer));
    assert!(lifecycle.checkpoints.state_of(1).is_some());
    let clean = lifecycle.document_event(DocumentEvent::DirtyChanged, facts(1, false), 6);
    assert_eq!(clean[1], Effect::Invalidate { key: 101, document: Some(1) });
}
