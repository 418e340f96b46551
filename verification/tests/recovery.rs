use markturbo::checkpoint::{
    current_checkpoint_write_completed, CheckpointOutcome, CheckpointResult, Checkpoints,
    DocumentFacts, DueVerdict, RecoveryAttempt,
};
use markturbo::effect::{AttemptTiming, CheckpointError, Effect, Notice, ScheduleStep};
use std::collections::{BTreeMap, BTreeSet};

const CEILING: u64 = 1000;

fn facts(id: u64, revision: u64) -> DocumentFacts {
    DocumentFacts { id, dirty: true, revision, key: 100 + id, text_bytes: 10 }
}

fn timing(snapshot_at: u64) -> AttemptTiming {
    AttemptTiming { snapshot_at, durable_complete_by: snapshot_at + 2000 }
}

fn schedule(document: u64, step: ScheduleStep) -> Effect {
    Effect::Schedule { document, step }
}

/// Checkpoints whose document 1, at revision 1, has attempt 50 in flight since
/// the time 1000.
fn in_flight() -> (Checkpoints, RecoveryAttempt) {
    let mut checkpoints = Checkpoints::new();
    checkpoints.arm_document_recovery_at(1, 1, 101, 0, true);
    checkpoints.token_activated(1, 101, 7, false);
    let mut pass = checkpoints.begin_checkpoint_pass(1000);
    checkpoints.visit_document(&mut pass, facts(1, 1));
    let verdict = checkpoints.judge_document(&mut pass, facts(1, 1), true, CEILING);
    assert_eq!(verdict, DueVerdict::Dispatch);
    assert!(checkpoints.dispatch_checkpoint(&mut pass, facts(1, 1), 7, timing(1000), 50));
    let attempt = pass.due[0].attempt;
    let outcome = checkpoints.finish_checkpoint_pass(&pass);
    assert!(outcome.run_worker);
    (checkpoints, attempt)
}

fn result(attempt: RecoveryAttempt, outcome: CheckpointOutcome) -> Vec<CheckpointResult> {
    vec![CheckpointResult { document: 1, attempt, outcome }]
}

#[test]
fn stale_written_checkpoint_does_not_signal_current_durability() {
    let written = CheckpointOutcome::Written;
    assert!(current_checkpoint_write_completed(true, 7, 7, &written));
    assert!(!current_checkpoint_write_completed(true, 8, 7, &written));
    assert!(!current_checkpoint_write_completed(false, 7, 7, &written));
    assert!(!current_checkpoint_write_completed(true, 7, 7, &CheckpointOutcome::Deferred));
}

#[test]
fn a_first_edit_starts_a_schedule_and_asks_for_a_token() {
    let mut checkpoints = Checkpoints::new();
    let effects = checkpoints.arm_document_recovery_at(1, 3, 101, 40, true);
    assert_eq!(
        effects,
        [
            schedule(1, ScheduleStep::Reset),
            schedule(1, ScheduleStep::MarkDirty { now: 40 }),
            Effect::ActivateToken { document: 1, key: 101 },
            Effect::RescheduleTimer
        ]
    );
    let state = checkpoints.state_of(1).unwrap();
    assert_eq!((state.key, state.revision, state.token), (101, 3, None));
    checkpoints.token_activated(1, 101, 7, false);
    assert_eq!(checkpoints.state_of(1).unwrap().token, Some(7));
}

#[test]
fn an_edit_before_the_store_is_there_keeps_its_deadline() {
    let mut checkpoints = Checkpoints::new();
    checkpoints.arm_document_recovery_at(1, 3, 101, 40, false);
    assert_eq!(checkpoints.state_of(1).unwrap().token, None);
    // Once the store is there, the same revision only needs its token.
    let effects = checkpoints.arm_document_recovery_at(1, 3, 101, 60, true);
    assert_eq!(
        effects,
        [
            Effect::ActivateToken { document: 1, key: 101 },
            schedule(1, ScheduleStep::MarkDirty { now: 60 }),
            Effect::RescheduleTimer
        ]
    );
}

#[test]
fn recovery_activation_registers_created_and_repaired_dirty_schedules() {
    let mut checkpoints = Checkpoints::new();
    let created = checkpoints.arm_document_recovery_at(1, 3, 101, 40, true);
    assert!(created.contains(&Effect::ActivateToken { document: 1, key: 101 }));
    let repaired = checkpoints.arm_document_recovery_at(1, 4, 900, 50, true);
    assert!(repaired.contains(&Effect::ActivateToken { document: 1, key: 900 }));
    assert!(!repaired.contains(&Effect::ActivateToken { document: 1, key: 101 }));
}

#[test]
fn a_document_under_a_new_key_leaves_its_old_record() {
    let (mut checkpoints, _) = in_flight();
    let effects = checkpoints.arm_document_recovery_at(1, 2, 900, 1100, true);
    assert_eq!(
        effects,
        [
            Effect::CancelAttempt { attempt: 50 },
            Effect::Invalidate { key: 101, document: Some(1) },
            Effect::ActivateToken { document: 1, key: 900 },
            schedule(1, ScheduleStep::Reset),
            schedule(1, ScheduleStep::MarkDirty { now: 1100 }),
            Effect::RescheduleTimer
        ]
    );
    let state = checkpoints.state_of(1).unwrap();
    assert_eq!((state.key, state.in_flight), (900, None));
}

#[test]
fn a_deferred_protection_is_told_until_it_is_written() {
    let mut checkpoints = Checkpoints::new();
    checkpoints.arm_document_recovery_at(1, 1, 101, 0, true);
    checkpoints.token_activated(1, 101, 7, true);
    assert!(checkpoints.warning);
    let (mut checkpoints, attempt) = {
        let mut pass = checkpoints.begin_checkpoint_pass(1000);
        checkpoints.visit_document(&mut pass, facts(1, 1));
        checkpoints.judge_document(&mut pass, facts(1, 1), true, CEILING);
        checkpoints.dispatch_checkpoint(&mut pass, facts(1, 1), 7, timing(1000), 50);
        let attempt = pass.due[0].attempt;
        checkpoints.finish_checkpoint_pass(&pass);
        (checkpoints, attempt)
    };
    assert!(checkpoints.warning);
    checkpoints.finish_recovery_checkpoints(&result(attempt, CheckpointOutcome::Written), 0, 1500, 1500);
    assert!(!checkpoints.warning);
}

#[test]
fn a_written_checkpoint_frees_the_worker_and_looks_again() {
    let (mut checkpoints, attempt) = in_flight();
    assert!(checkpoints.worker_active);
    let effects = checkpoints.finish_recovery_checkpoints(
        &result(attempt, CheckpointOutcome::Written),
        0,
        1500,
        1600,
    );
    assert_eq!(
        effects,
        [
            schedule(1, ScheduleStep::Written { timing: timing(1000) }),
            Effect::CheckpointDue { now: 1600 }
        ]
    );
    assert!(!checkpoints.worker_active);
    assert_eq!(checkpoints.state_of(1).unwrap().in_flight, None);
    assert!(!checkpoints.warning);
}

#[test]
fn a_stale_completion_cannot_clear_a_newer_attempt() {
    let (mut checkpoints, attempt) = in_flight();
    let stale = RecoveryAttempt { id: 49, ..attempt };
    let before = checkpoints.state_of(1);
    let effects = checkpoints.finish_recovery_checkpoints(
        &result(stale, CheckpointOutcome::Written),
        0,
        1500,
        1500,
    );
    assert_eq!(effects, [Effect::CheckpointDue { now: 1500 }]);
    assert_eq!(checkpoints.state_of(1), before);
}

#[test]
fn an_edit_stops_its_own_attempt_and_no_other() {
    let (mut checkpoints, attempt) = in_flight();
    let effects = checkpoints.arm_document_recovery_at(2, 1, 102, 1100, true);
    assert!(!effects.contains(&Effect::CancelAttempt { attempt: 50 }));
    assert_eq!(checkpoints.state_of(1).unwrap().in_flight, Some(attempt));

    let effects = checkpoints.arm_document_recovery_at(1, 2, 101, 1200, true);
    assert_eq!(
        effects,
        [
            Effect::CancelAttempt { attempt: 50 },
            schedule(1, ScheduleStep::MarkDirty { now: 1200 }),
            Effect::RescheduleTimer
        ]
    );
    assert!(checkpoints.state_of(1).unwrap().in_flight.unwrap().cancelled);
}

#[test]
fn a_cancelled_attempt_that_comes_back_lets_the_document_catch_up() {
    let (mut checkpoints, attempt) = in_flight();
    checkpoints.arm_document_recovery_at(1, 2, 101, 1200, true);
    let effects = checkpoints.finish_recovery_checkpoints(
        &result(attempt, CheckpointOutcome::Superseded),
        0,
        1300,
        1300,
    );
    assert_eq!(
        effects,
        [
            schedule(1, ScheduleStep::Cancelled { timing: timing(1000), now: 1300 }),
            Effect::CheckpointDue { now: 1300 }
        ]
    );
    assert_eq!(checkpoints.state_of(1).unwrap().in_flight, None);
}

#[test]
fn repeated_edits_lead_to_one_attempt_at_the_latest_revision() {
    let (mut checkpoints, _) = in_flight();
    for revision in 2..6 {
        checkpoints.arm_document_recovery_at(1, revision, 101, 1000 + revision, true);
    }
    let coalesced = checkpoints.state_of(1);
    let (mut once, _) = in_flight();
    once.arm_document_recovery_at(1, 5, 101, 1005, true);
    assert_eq!(coalesced, once.state_of(1));
}

#[test]
fn a_busy_worker_takes_no_second_batch_and_the_user_is_told_once() {
    let (mut checkpoints, _) = in_flight();
    checkpoints.arm_document_recovery_at(2, 1, 102, 1100, true);
    checkpoints.token_activated(2, 102, 8, false);
    let mut pass = checkpoints.begin_checkpoint_pass(1500);
    assert!(pass.worker_active);
    checkpoints.visit_document(&mut pass, facts(1, 1));
    assert_eq!(
        checkpoints.judge_document(&mut pass, facts(1, 1), true, CEILING),
        DueVerdict::Nothing
    );
    checkpoints.visit_document(&mut pass, facts(2, 1));
    assert_eq!(
        checkpoints.judge_document(&mut pass, facts(2, 1), true, CEILING),
        DueVerdict::WorkerBusy
    );
    assert!(!checkpoints.dispatch_checkpoint(&mut pass, facts(2, 1), 8, timing(1500), 51));
    let outcome = checkpoints.finish_checkpoint_pass(&pass);
    assert!(!outcome.run_worker);
    assert!(checkpoints.worker_active && checkpoints.warning);
    // A reported deadline does not wake anybody while the worker is occupied.
    let mut deadlines = BTreeMap::new();
    deadlines.insert(2, 1400);
    let plan = checkpoints.schedule_recovery_timer(true, &deadlines, 1500).unwrap();
    assert_eq!(plan.delay, 1500);
}

#[test]
fn an_overdue_attempt_is_stopped_and_reported_once() {
    let (mut checkpoints, _) = in_flight();
    let mut pass = checkpoints.begin_checkpoint_pass(3000);
    let effects = checkpoints.visit_document(&mut pass, facts(1, 1));
    assert_eq!(
        effects,
        [
            Effect::CancelAttempt { attempt: 50 },
            schedule(1, ScheduleStep::DeadlineMissed { timing: timing(1000), now: 3000 })
        ]
    );
    checkpoints.finish_checkpoint_pass(&pass);
    assert!(checkpoints.warning);
    let mut pass = checkpoints.begin_checkpoint_pass(3100);
    assert!(checkpoints.visit_document(&mut pass, facts(1, 1)).is_empty());
}

#[test]
fn a_checkpoint_that_returns_late_keeps_the_warning() {
    let (mut checkpoints, attempt) = in_flight();
    let effects = checkpoints.finish_recovery_checkpoints(
        &result(attempt, CheckpointOutcome::Written),
        0,
        3001,
        3001,
    );
    assert_eq!(
        effects[0],
        schedule(1, ScheduleStep::DeadlineMissed { timing: timing(1000), now: 3001 })
    );
    assert!(checkpoints.warning);
}

#[test]
fn a_checkpoint_in_time_clears_a_warning_that_came_early() {
    let (mut checkpoints, attempt) = in_flight();
    let mut pass = checkpoints.begin_checkpoint_pass(3000);
    checkpoints.visit_document(&mut pass, facts(1, 1));
    checkpoints.finish_checkpoint_pass(&pass);
    assert!(checkpoints.warning);
    // The store had finished in time; only the news of it came late.
    let effects = checkpoints.finish_recovery_checkpoints(
        &result(attempt, CheckpointOutcome::Written),
        0,
        2900,
        3200,
    );
    assert_eq!(
        effects,
        [
            schedule(1, ScheduleStep::MarkDurableBaseline { at: 1000 }),
            Effect::CheckpointDue { now: 3200 }
        ]
    );
    assert!(!checkpoints.warning);
}

#[test]
fn a_written_checkpoint_of_an_older_text_keeps_the_warning() {
    let (mut checkpoints, attempt) = in_flight();
    checkpoints.token_activated(1, 101, 7, true);
    assert!(checkpoints.warning);
    checkpoints.arm_document_recovery_at(1, 2, 101, 1200, true);
    checkpoints.finish_recovery_checkpoints(&result(attempt, CheckpointOutcome::Written), 0, 1500, 1500);
    assert!(checkpoints.warning);
}

#[test]
fn a_failed_checkpoint_is_tried_again_and_reported() {
    let (mut checkpoints, attempt) = in_flight();
    let error = CheckpointError::Reported { text: 5 };
    let effects = checkpoints.finish_recovery_checkpoints(
        &result(attempt, CheckpointOutcome::Failed { error }),
        2,
        1500,
        1500,
    );
    assert_eq!(
        effects,
        [
            schedule(1, ScheduleStep::Failed { timing: timing(1000), now: 1500 }),
            Effect::Report { notice: Notice::CheckpointBatch { issues: 2, error: Some(error) } },
            Effect::CheckpointDue { now: 1500 }
        ]
    );
    assert!(checkpoints.warning);
}

#[test]
fn an_obviously_oversized_text_is_not_sent_until_it_is_edited() {
    let mut checkpoints = Checkpoints::new();
    let large = DocumentFacts { text_bytes: CEILING + 1, ..facts(1, 1) };
    checkpoints.arm_document_recovery_at(1, 1, 101, 0, true);
    let mut pass = checkpoints.begin_checkpoint_pass(1000);
    checkpoints.visit_document(&mut pass, large);
    assert_eq!(
        checkpoints.judge_document(&mut pass, large, true, CEILING),
        DueVerdict::TooLarge
    );
    let error = CheckpointError::Oversized { bytes: CEILING + 1, limit: CEILING };
    let outcome = checkpoints.finish_checkpoint_pass(&pass);
    assert_eq!(
        outcome.effects,
        [
            Effect::Report { notice: Notice::CheckpointBatch { issues: 0, error: Some(error) } },
            Effect::RescheduleTimer
        ]
    );
    assert!(!outcome.run_worker && checkpoints.warning);

    // Nothing is waited for, and nothing is said again.
    let mut deadlines = BTreeMap::new();
    deadlines.insert(1, 1000);
    assert_eq!(checkpoints.schedule_recovery_timer(true, &deadlines, 1000), None);
    let mut pass = checkpoints.begin_checkpoint_pass(2000);
    checkpoints.visit_document(&mut pass, large);
    assert_eq!(
        checkpoints.judge_document(&mut pass, large, true, CEILING),
        DueVerdict::Suppressed
    );
    assert!(!checkpoints.dispatch_checkpoint(&mut pass, large, 7, timing(2000), 51));
    assert!(checkpoints.state_of(1).unwrap().protection_warning);
    assert_eq!(pass.preflight_error, None);

    // A smaller text goes through.
    let edited = facts(1, 2);
    let effects = checkpoints.arm_document_recovery_at(1, 2, 101, 2500, true);
    assert_eq!(effects[0], schedule(1, ScheduleStep::Reset));
    let mut pass = checkpoints.begin_checkpoint_pass(3000);
    checkpoints.visit_document(&mut pass, edited);
    assert_eq!(
        checkpoints.judge_document(&mut pass, edited, true, CEILING),
        DueVerdict::Dispatch
    );
}

#[test]
fn a_text_that_the_store_finds_too_large_is_not_retried() {
    let (mut checkpoints, attempt) = in_flight();
    let error = CheckpointError::Oversized { bytes: 2000, limit: 1500 };
    let effects = checkpoints.finish_recovery_checkpoints(
        &result(attempt, CheckpointOutcome::Failed { error }),
        0,
        1500,
        1500,
    );
    assert_eq!(
        effects,
        [
            Effect::Report { notice: Notice::CheckpointBatch { issues: 0, error: Some(error) } },
            Effect::CheckpointDue { now: 1500 }
        ]
    );
    assert_eq!(checkpoints.state_of(1).unwrap().suppressed_oversized_revision, Some(1));
    assert!(checkpoints.warning);
}

#[test]
fn a_clean_document_is_no_longer_protected() {
    let (mut checkpoints, _) = in_flight();
    let clean = DocumentFacts { dirty: false, ..facts(1, 1) };
    let mut pass = checkpoints.begin_checkpoint_pass(1200);
    let effects = checkpoints.visit_document(&mut pass, clean);
    assert_eq!(effects, [Effect::Invalidate { key: 101, document: Some(1) }]);
    assert_eq!(checkpoints.state_of(1), None);
}

#[test]
fn a_document_that_is_gone_is_forgotten_at_the_end_of_a_pass() {
    let (mut checkpoints, _) = in_flight();
    let pass = checkpoints.begin_checkpoint_pass(1200);
    checkpoints.finish_checkpoint_pass(&pass);
    assert_eq!(checkpoints.state_of(1), None);
}

#[test]
fn after_a_pass_exactly_the_dirty_documents_are_protected() {
    let (mut checkpoints, _) = in_flight();
    checkpoints.arm_document_recovery_at(2, 1, 102, 0, true);
    checkpoints.arm_document_recovery_at(3, 1, 103, 0, true);
    // The first was edited, the second saved, the third closed, and the fourth
    // is new; the worker is still occupied.
    let looks = [facts(1, 2), DocumentFacts { dirty: false, ..facts(2, 1) }, facts(4, 6)];
    let mut pass = checkpoints.begin_checkpoint_pass(1200);
    for look in looks {
        checkpoints.visit_document(&mut pass, look);
        let verdict = checkpoints.judge_document(&mut pass, look, look.dirty, CEILING);
        assert_ne!(verdict, DueVerdict::Dispatch);
        assert!(!checkpoints.dispatch_checkpoint(&mut pass, look, 7, timing(1200), 51));
    }
    assert!(!checkpoints.finish_checkpoint_pass(&pass).run_worker);
    let protected: Vec<u64> = checkpoints.states.keys().copied().collect();
    assert_eq!(protected, [1, 4]);
    let state = checkpoints.state_of(1).unwrap();
    assert_eq!((state.key, state.revision), (101, 2));
    assert_eq!(state.in_flight.map(|attempt| attempt.id), Some(50));
    let state = checkpoints.state_of(4).unwrap();
    assert_eq!((state.key, state.revision, state.in_flight), (104, 6, None));
}

#[test]
fn without_a_store_due_documents_are_reported_unprotected() {
    let mut checkpoints = Checkpoints::new();
    checkpoints.arm_document_recovery_at(1, 1, 101, 0, false);
    checkpoints.arm_document_recovery_at(2, 1, 102, 0, false);
    let due: BTreeSet<u64> = [2].into_iter().collect();
    assert_eq!(checkpoints.checkpoint_without_store(&due), [Effect::RescheduleTimer]);
    assert!(!checkpoints.state_of(1).unwrap().protection_warning);
    assert!(checkpoints.state_of(2).unwrap().protection_warning);
    assert!(checkpoints.warning);
    // There is nothing left to say of document 2, so only document 1 wakes.
    let mut deadlines = BTreeMap::new();
    deadlines.insert(1, 900);
    deadlines.insert(2, 100);
    let plan = checkpoints.schedule_recovery_timer(false, &deadlines, 400).unwrap();
    assert_eq!(plan.delay, 500);
}

#[test]
fn the_earliest_deadline_wakes_and_late_timers_are_told_apart() {
    let mut checkpoints = Checkpoints::new();
    checkpoints.arm_document_recovery_at(1, 1, 101, 0, true);
    checkpoints.arm_document_recovery_at(2, 1, 102, 0, true);
    let mut deadlines = BTreeMap::new();
    deadlines.insert(1, 800);
    deadlines.insert(2, 300);
    let first = checkpoints.schedule_recovery_timer(true, &deadlines, 100).unwrap();
    assert_eq!(first.delay, 200);
    let second = checkpoints.schedule_recovery_timer(true, &deadlines, 500).unwrap();
    assert_eq!(second.delay, 0);
    assert!(!checkpoints.timer_is_current(first.generation));
    assert!(checkpoints.timer_is_current(second.generation));
    assert_eq!(checkpoints.schedule_recovery_timer(true, &BTreeMap::new(), 500), None);
}

#[test]
fn a_restored_document_starts_from_its_durable_text() {
    let mut checkpoints = Checkpoints::new();
    assert!(checkpoints.register_restored_recovery(1, 101, 4, 70, false).is_empty());
    assert_eq!(checkpoints.state_of(1), None);
    let effects = checkpoints.register_restored_recovery(1, 101, 4, 70, true);
    assert_eq!(
        effects,
        [
            Effect::ActivateToken { document: 1, key: 101 },
            schedule(1, ScheduleStep::Reset),
            schedule(1, ScheduleStep::MarkDurableBaseline { at: 70 }),
            Effect::RescheduleTimer
        ]
    );
    assert_eq!(checkpoints.state_of(1).unwrap().revision, 4);
}

#[test]
fn retiring_a_record_stops_its_attempt_and_takes_its_token() {
    let (mut checkpoints, attempt) = in_flight();
    checkpoints.arm_document_recovery_at(2, 1, 102, 0, true);
    checkpoints.token_activated(2, 102, 8, false);
    let keys: BTreeSet<u64> = [101].into_iter().collect();
    let mut effects = Vec::new();
    checkpoints.cancel_recovery_attempts_for_keys(&keys, 1500, &mut effects);
    assert_eq!(
        effects,
        [
            Effect::CancelAttempt { attempt: 50 },
            schedule(1, ScheduleStep::Cancelled { timing: timing(1000), now: 1500 })
        ]
    );
    let state = checkpoints.state_of(1).unwrap();
    assert_eq!((state.in_flight, state.token), (None, None));
    assert_eq!(checkpoints.state_of(2).unwrap().token, Some(8));
    // Whatever the attempt comes to now is nobody's business.
    let later = checkpoints.finish_recovery_checkpoints(
        &result(attempt, CheckpointOutcome::Written),
        0,
        1600,
        1600,
    );
    assert_eq!(later, [Effect::CheckpointDue { now: 1600 }]);
}

#[test]
fn attempts_are_told_apart_by_what_they_write() {
    let (_, attempt) = in_flight();
    assert!(attempt.is_same(&attempt));
    assert!(attempt.is_same(&RecoveryAttempt { cancelled: true, ..attempt }));
    assert!(!attempt.is_same(&RecoveryAttempt { revision: 2, ..attempt }));
    assert!(!attempt.is_same(&RecoveryAttempt { id: 51, ..attempt }));
}

#[test]
fn the_result_of_one_document_leaves_the_others_in_flight() {
    let mut checkpoints = Checkpoints::new();
    let mut pass = checkpoints.begin_checkpoint_pass(1000);
    for id in [1, 2] {
        checkpoints.visit_document(&mut pass, facts(id, 1));
        checkpoints.judge_document(&mut pass, facts(id, 1), true, CEILING);
        assert!(checkpoints.dispatch_checkpoint(&mut pass, facts(id, 1), 7, timing(1000), 50 + id));
    }
    checkpoints.finish_checkpoint_pass(&pass);
    let results: Vec<CheckpointResult> = pass
        .due
        .iter()
        .map(|due| CheckpointResult {
            document: due.document,
            attempt: due.attempt,
            outcome: CheckpointOutcome::Written,
        })
        .collect();
    checkpoints.finish_recovery_checkpoints(&results[..1].to_vec(), 0, 1500, 1500);
    assert_eq!(checkpoints.state_of(1).unwrap().in_flight, None);
    assert!(checkpoints.state_of(2).unwrap().in_flight.is_some());
    checkpoints.finish_recovery_checkpoints(&results[1..].to_vec(), 0, 1600, 1600);
    assert_eq!(checkpoints.state_of(2).unwrap().in_flight, None);
}

#[test]
fn an_attempt_in_flight_is_not_sent_twice() {
    let (mut checkpoints, attempt) = in_flight();
    checkpoints.worker_active = false;
    let mut pass = checkpoints.begin_checkpoint_pass(1500);
    checkpoints.visit_document(&mut pass, facts(1, 1));
    assert!(!checkpoints.dispatch_checkpoint(&mut pass, facts(1, 1), 7, timing(1500), 51));
    assert_eq!(checkpoints.state_of(1).unwrap().in_flight, Some(attempt));
    assert!(pass.due.is_empty());
}
