use omm::command::MAX_DRAIN_PER_BLOCK;
use omm::rt_scheduler::{RtCommandScheduleRequest, RtCommandScheduler, RtCommandSchedulerError};
use omm::schedule::{ActionOrigin, ScheduleValidationError, ScheduledActionId};

const SAMPLE_RATE: u32 = 48_000;

/// Commands are numbered, so that the order they come out in can be checked.
fn indexed_command(index: u32) -> u32 {
    index
}

fn request(id: &str, origin: ActionOrigin, trigger_frame: u64) -> RtCommandScheduleRequest<u32> {
    request_with_command(id, origin, trigger_frame, 0)
}

fn request_with_command(
    id: &str,
    origin: ActionOrigin,
    trigger_frame: u64,
    command: u32,
) -> RtCommandScheduleRequest<u32> {
    RtCommandScheduleRequest {
        action_id: ScheduledActionId::new(id),
        origin,
        trigger_frame,
        command,
    }
}

#[test]
fn planned_commands_before_thirty_seconds_are_rejected() {
    let mut scheduler = RtCommandScheduler::<u32>::default();
    let err = scheduler
        .schedule(
            request("too-soon", ActionOrigin::PlannedLlm, 1_000),
            0,
            SAMPLE_RATE,
        )
        .expect_err("planned action before now+30s must be rejected");

    assert!(matches!(
        err,
        RtCommandSchedulerError::Validation(ScheduleValidationError::PlannedActionTooSoon { .. })
    ));
    assert!(scheduler.is_empty());
}

#[test]
fn immediate_commands_can_be_due_now() {
    let mut scheduler = RtCommandScheduler::<u32>::default();
    scheduler
        .schedule(request("manual-now", ActionOrigin::Manual, 0), 0, SAMPLE_RATE)
        .expect("manual action can be immediate");

    let mut drained = Vec::new();
    let count = scheduler.drain_due(0, MAX_DRAIN_PER_BLOCK, &mut drained);

    assert_eq!(count, 1);
    assert_eq!(drained.len(), 1);
    assert!(scheduler.is_empty());
}

#[test]
fn future_commands_drain_in_engine_time_order() {
    let mut scheduler = RtCommandScheduler::<u32>::default();
    scheduler
        .schedule(request("z-late", ActionOrigin::Test, 200), 0, SAMPLE_RATE)
        .expect("late action accepted");
    scheduler
        .schedule(request("a-early", ActionOrigin::Test, 100), 0, SAMPLE_RATE)
        .expect("early action accepted");

    let mut drained = Vec::new();
    assert_eq!(scheduler.drain_due(99, MAX_DRAIN_PER_BLOCK, &mut drained), 0);
    assert_eq!(scheduler.drain_due(100, MAX_DRAIN_PER_BLOCK, &mut drained), 1);
    assert_eq!(drained.len(), 1);
    assert_eq!(scheduler.len(), 1);
    assert_eq!(scheduler.drain_due(200, MAX_DRAIN_PER_BLOCK, &mut drained), 1);
    assert_eq!(drained.len(), 2);
    assert!(scheduler.is_empty());
}

#[test]
fn commands_due_in_same_block_drain_by_trigger_then_id() {
    let mut scheduler = RtCommandScheduler::<u32>::default();
    scheduler
        .schedule(
            request_with_command("z-second", ActionOrigin::Test, 200, indexed_command(2)),
            0,
            SAMPLE_RATE,
        )
        .expect("second action accepted");
    scheduler
        .schedule(
            request_with_command("a-third", ActionOrigin::Test, 200, indexed_command(3)),
            0,
            SAMPLE_RATE,
        )
        .expect("third action accepted");
    scheduler
        .schedule(
            request_with_command("m-first", ActionOrigin::Test, 100, indexed_command(1)),
            0,
            SAMPLE_RATE,
        )
        .expect("first action accepted");

    let mut drained = Vec::new();
    let count = scheduler.drain_due(200, MAX_DRAIN_PER_BLOCK, &mut drained);

    assert_eq!(count, 3);
    assert_eq!(drained, vec![1, 3, 2]);
}

#[test]
fn due_drain_is_bounded_and_defers_excess_commands() {
    let mut scheduler = RtCommandScheduler::<u32>::default();

    for index in 0..=MAX_DRAIN_PER_BLOCK {
        scheduler
            .schedule(
                request_with_command(
                    &format!("action-{index:03}"),
                    ActionOrigin::Test,
                    0,
                    indexed_command(index as u32),
                ),
                0,
                SAMPLE_RATE,
            )
            .expect("due action accepted");
    }

    let mut first_block = Vec::new();
    assert_eq!(
        scheduler.drain_due(0, MAX_DRAIN_PER_BLOCK, &mut first_block),
        MAX_DRAIN_PER_BLOCK
    );
    assert_eq!(first_block.len(), MAX_DRAIN_PER_BLOCK);
    assert_eq!(scheduler.len(), 1);

    let mut second_block = Vec::new();
    assert_eq!(scheduler.drain_due(0, MAX_DRAIN_PER_BLOCK, &mut second_block), 1);
    assert_eq!(second_block, vec![MAX_DRAIN_PER_BLOCK as u32]);
    assert!(scheduler.is_empty());
}

#[test]
fn due_drain_advances_frontier_without_scanning_future_actions() {
    let mut scheduler = RtCommandScheduler::<u32>::default();
    scheduler
        .schedule(
            request_with_command("due-now", ActionOrigin::Test, 100, indexed_command(1)),
            0,
            SAMPLE_RATE,
        )
        .expect("due action accepted");

    for index in 0..128 {
        scheduler
            .schedule(
                request_with_command(
                    &format!("future-{index:03}"),
                    ActionOrigin::Test,
                    10_000 + index as u64,
                    indexed_command(100 + index),
                ),
                0,
                SAMPLE_RATE,
            )
            .expect("future action accepted");
    }

    let mut drained = Vec::new();
    assert_eq!(scheduler.drain_due(100, MAX_DRAIN_PER_BLOCK, &mut drained), 1);
    assert_eq!(drained, vec![1]);
    assert_eq!(scheduler.debug_due_frontier_position(), 1);
    assert_eq!(scheduler.len(), 128);

    let mut ignored = Vec::new();
    assert_eq!(scheduler.drain_due(100, MAX_DRAIN_PER_BLOCK, &mut ignored), 0);
    assert_eq!(scheduler.debug_due_frontier_position(), 1);

    scheduler
        .schedule(
            request_with_command("future-new", ActionOrigin::Test, 11_000, indexed_command(300)),
            0,
            SAMPLE_RATE,
        )
        .expect("non-render mutation reclaims dispatched prefix");
    assert_eq!(scheduler.debug_due_frontier_position(), 0);
    assert_eq!(scheduler.debug_due_index_len(), 129);
}

#[test]
fn dispatched_metadata_can_be_reclaimed_off_render_path() {
    let mut scheduler = RtCommandScheduler::<u32>::default();
    scheduler
        .schedule(request("reclaim-me", ActionOrigin::Test, 0), 0, SAMPLE_RATE)
        .expect("due action accepted");

    let mut ignored = Vec::new();
    assert_eq!(scheduler.drain_due(0, MAX_DRAIN_PER_BLOCK, &mut ignored), 1);
    assert_eq!(scheduler.len(), 0);
    assert_eq!(scheduler.debug_due_frontier_position(), 1);
    assert_eq!(scheduler.debug_due_index_len(), 1);

    assert_eq!(scheduler.reclaim_dispatched_metadata(), 1);
    assert_eq!(scheduler.debug_due_frontier_position(), 0);
    assert_eq!(scheduler.debug_due_index_len(), 0);
    assert!(scheduler.is_empty());
}

#[test]
fn duplicate_and_empty_action_ids_are_rejected() {
    let mut scheduler = RtCommandScheduler::<u32>::default();
    scheduler
        .schedule(request("same", ActionOrigin::Test, 0), 0, SAMPLE_RATE)
        .expect("first action accepted");

    assert!(matches!(
        scheduler.schedule(request("same", ActionOrigin::Test, 10), 0, SAMPLE_RATE),
        Err(RtCommandSchedulerError::DuplicateAction { action_id }) if action_id == "same"
    ));
    assert!(matches!(
        scheduler.schedule(request("", ActionOrigin::Manual, 0), 0, SAMPLE_RATE),
        Err(RtCommandSchedulerError::Validation(ScheduleValidationError::EmptyActionId))
    ));
}

#[test]
fn successful_trigger_modification_reindexes_due_order() {
    let mut scheduler = RtCommandScheduler::<u32>::default();
    let modified_id = ScheduledActionId::new("modified");
    scheduler
        .schedule(
            request_with_command(modified_id.as_str(), ActionOrigin::Test, 100, indexed_command(1)),
            0,
            SAMPLE_RATE,
        )
        .expect("action accepted");
    scheduler
        .schedule(
            request_with_command("other", ActionOrigin::Test, 200, indexed_command(2)),
            0,
            SAMPLE_RATE,
        )
        .expect("other action accepted");

    scheduler
        .modify_trigger_frame(&modified_id, 300, 0, SAMPLE_RATE)
        .expect("test-origin action can move later");

    let mut drained = Vec::new();
    assert_eq!(scheduler.drain_due(100, MAX_DRAIN_PER_BLOCK, &mut drained), 0);
    assert_eq!(scheduler.drain_due(200, MAX_DRAIN_PER_BLOCK, &mut drained), 1);
    assert_eq!(drained, vec![2]);
    assert_eq!(scheduler.drain_due(300, MAX_DRAIN_PER_BLOCK, &mut drained), 1);
    assert_eq!(drained, vec![2, 1]);
    assert!(scheduler.is_empty());
}

#[test]
fn cancel_and_modify_paths_report_errors() {
    let mut scheduler = RtCommandScheduler::<u32>::default();
    let id = ScheduledActionId::new("planned");
    scheduler
        .schedule(
            RtCommandScheduleRequest {
                action_id: id.clone(),
                ..request("planned", ActionOrigin::PlannedPi, 1_440_000)
            },
            0,
            SAMPLE_RATE,
        )
        .expect("planned action accepted at now+30s");

    assert!(matches!(
        scheduler.modify_trigger_frame(&id, 10, 0, SAMPLE_RATE),
        Err(RtCommandSchedulerError::Validation(ScheduleValidationError::PlannedActionTooSoon { .. }))
    ));
    assert_eq!(scheduler.len(), 1, "failed modification restores action");

    let canceled = scheduler.cancel(&id).expect("existing action canceled");
    assert_eq!(canceled.action_id, id);
    assert!(matches!(
        scheduler.cancel(&ScheduledActionId::new("missing")),
        Err(RtCommandSchedulerError::ActionNotFound { .. })
    ));
    assert!(matches!(
        scheduler.modify_trigger_frame(&ScheduledActionId::new("missing"), 10, 0, SAMPLE_RATE),
        Err(RtCommandSchedulerError::ActionNotFound { .. })
    ));
}

#[test]
fn cancel_right_after_schedule_restores_pending_actions() {
    let mut scheduler = RtCommandScheduler::<u32>::default();
    for (id, frame, command) in [("b", 50u64, 5u32), ("d", 70, 7), ("a", 90, 9)] {
        scheduler
            .schedule(request_with_command(id, ActionOrigin::Test, frame, command), 0, SAMPLE_RATE)
            .expect("accepted");
    }
    scheduler
        .schedule(request_with_command("c", ActionOrigin::Test, 60, 6), 0, SAMPLE_RATE)
        .expect("accepted");
    let canceled = scheduler
        .cancel(&ScheduledActionId::new("c"))
        .expect("just scheduled");
    assert_eq!(canceled.action_id.as_str(), "c");
    assert_eq!(canceled.trigger_frame, 60);
    assert_eq!(canceled.command, 6);
    assert_eq!(canceled.origin, ActionOrigin::Test);

    let mut drained = Vec::new();
    assert_eq!(scheduler.drain_due(u64::MAX, MAX_DRAIN_PER_BLOCK, &mut drained), 3);
    assert_eq!(drained, vec![5, 7, 9]);
}

#[test]
fn pop_next_due_takes_only_the_head_when_it_is_due() {
    let mut scheduler = RtCommandScheduler::<u32>::default();
    scheduler
        .schedule(request_with_command("x", ActionOrigin::Test, 10, 1), 0, SAMPLE_RATE)
        .expect("accepted");
    scheduler
        .schedule(request_with_command("y", ActionOrigin::Test, 20, 2), 0, SAMPLE_RATE)
        .expect("accepted");
    assert_eq!(scheduler.pop_next_due(9), None);
    assert_eq!(scheduler.pop_next_due(15), Some(1));
    assert_eq!(scheduler.pop_next_due(15), None);
    assert_eq!(scheduler.pop_next_due(20), Some(2));
    assert!(scheduler.is_empty());
    assert_eq!(scheduler.debug_due_frontier_position(), 2);
}

#[test]
fn drain_with_zero_budget_dispatches_nothing() {
    let mut scheduler = RtCommandScheduler::<u32>::default();
    scheduler
        .schedule(request_with_command("x", ActionOrigin::Test, 0, 1), 0, SAMPLE_RATE)
        .expect("accepted");
    let mut drained = vec![42u32];
    assert_eq!(scheduler.drain_due(0, 0, &mut drained), 0);
    assert_eq!(drained, vec![42]);
    assert_eq!(scheduler.len(), 1);
}
