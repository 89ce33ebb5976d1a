use omm::channel::{frames_to_ms, ChannelTransport, StopAction};
use omm::command::MAX_DRAIN_PER_BLOCK;
use omm::params::SourceId;
use omm::rt_scheduler::{RtCommandScheduleRequest, RtCommandSchedulerError};
use omm::runtime::{
    admit_file_source_instance, check_new_legacy_channel, file_start_offset_frames,
    find_instance_channel, find_legacy_channel, require_instance_channel, require_supported,
    AudioRuntimeConfig, ChannelError, RuntimeControl, SourceInstanceError,
};
use omm::schedule::{
    frames_for_duration_ms, ActionOrigin, ScheduleValidationError, ScheduledActionId,
};
use omm::channel::file_timeline;
use omm::source_timeline::{
    PlaybackState, PlaybackStatusAuthority, SourceInstanceId, SourceKind, SourcePlaybackStatus,
    SourceTimelineValidationError,
};

const SAMPLE_RATE: u32 = 48_000;

fn file_channel(id: &str) -> ChannelTransport {
    ChannelTransport::new_timeline_source(
        SourceInstanceId::new(id),
        SourceKind::File,
        None,
        file_timeline(0, 0),
    )
}

#[test]
fn legacy_channels_are_unique_per_source() {
    let channels = vec![ChannelTransport::new_legacy(SourceId::Mic)];
    assert_eq!(
        check_new_legacy_channel(&channels, SourceId::Mic),
        Err(ChannelError::DuplicateSourceId { source_id: SourceId::Mic })
    );
    assert_eq!(check_new_legacy_channel(&channels, SourceId::Glicol), Ok(()));
    assert_eq!(find_legacy_channel(&channels, SourceId::Mic), Some(0));
    assert_eq!(find_legacy_channel(&channels, SourceId::Player), None);
}

#[test]
fn file_instances_are_admitted_once_and_not_under_the_legacy_prefix() {
    let channels = vec![ChannelTransport::new_legacy(SourceId::Player), file_channel("deck-a")];
    assert!(admit_file_source_instance(&channels, &SourceInstanceId::new("deck-b")).is_ok());
    assert!(matches!(
        admit_file_source_instance(&channels, &SourceInstanceId::new("deck-a")),
        Err(SourceInstanceError::DuplicateSourceInstance { source_instance_id }) if source_instance_id == "deck-a"
    ));
    assert!(matches!(
        admit_file_source_instance(&channels, &SourceInstanceId::new("legacy:other")),
        Err(SourceInstanceError::ReservedSourceInstanceId { source_instance_id }) if source_instance_id == "legacy:other"
    ));
    assert!(matches!(
        admit_file_source_instance(&channels, &SourceInstanceId::new("")),
        Err(SourceInstanceError::Validation(SourceTimelineValidationError::EmptySourceInstanceId))
    ));
    assert!(matches!(
        admit_file_source_instance(&channels, &SourceInstanceId::new("bad id")),
        Err(SourceInstanceError::Validation(SourceTimelineValidationError::InvalidSourceInstanceId { .. }))
    ));
    assert_eq!(find_instance_channel(&channels, &SourceInstanceId::new("deck-a")), Some(1));
    assert_eq!(
        find_instance_channel(&channels, &SourceInstanceId::new("legacy:player")),
        Some(0)
    );
}

#[test]
fn start_offset_must_lie_inside_the_file() {
    assert_eq!(file_start_offset_frames(500, 48_000, SAMPLE_RATE).unwrap(), 24_000);
    assert!(matches!(
        file_start_offset_frames(1_000, 48_000, SAMPLE_RATE),
        Err(SourceInstanceError::StartOffsetBeyondDuration { start_offset_ms: 1_000, duration_ms: 1_000 })
    ));
    assert!(matches!(
        file_start_offset_frames(2_500, 36_000, SAMPLE_RATE),
        Err(SourceInstanceError::StartOffsetBeyondDuration { start_offset_ms: 2_500, duration_ms: 750 })
    ));
}

#[test]
fn missing_and_unsupported_instances_report_their_id() {
    let channels = vec![file_channel("deck-a")];
    assert_eq!(require_instance_channel(&channels, &SourceInstanceId::new("deck-a")).unwrap(), 0);
    assert!(matches!(
        require_instance_channel(&channels, &SourceInstanceId::new("nope")),
        Err(SourceInstanceError::SourceInstanceNotFound { source_instance_id }) if source_instance_id == "nope"
    ));
    assert!(require_supported(true, &SourceInstanceId::new("deck-a"), "reverse").is_ok());
    assert!(matches!(
        require_supported(false, &SourceInstanceId::new("deck-a"), "playback_rate"),
        Err(SourceInstanceError::UnsupportedSourceOperation { source_instance_id, operation: "playback_rate" }) if source_instance_id == "deck-a"
    ));
}

#[test]
fn frames_to_ms_rounds_down_and_zero_rate_is_zero() {
    assert_eq!(frames_to_ms(47_999, SAMPLE_RATE), 999);
    assert_eq!(frames_to_ms(96_000, SAMPLE_RATE), 2_000);
    assert_eq!(frames_to_ms(96_000, 0), 0);
}

#[test]
fn stop_with_fade_counts_down_then_stops() {
    let mut t = file_channel("deck-a");
    assert_eq!(t.stop(1_000), StopAction::FadeOut { fade_frames: 1_000 });
    assert!(t.enabled);
    assert!(!t.finish_block(512, false));
    assert_eq!(t.pending_stop_after_frames, Some(488));
    assert_eq!(t.playback_state, PlaybackState::Playing);
    assert!(t.finish_block(512, false));
    assert!(!t.enabled);
    assert_eq!(t.playback_state, PlaybackState::Stopped);
    assert_eq!(t.pending_stop_after_frames, None);
}

#[test]
fn stop_without_fade_disables_at_once() {
    let mut t = file_channel("deck-a");
    assert_eq!(t.stop(0), StopAction::DisableNow);
    assert!(!t.enabled);
    assert_eq!(t.playback_state, PlaybackState::Stopped);
    t.set_enabled(true);
    assert!(t.enabled);
    assert_eq!(t.playback_state, PlaybackState::Playing);
}

#[test]
fn exhausted_source_marks_the_channel_ended() {
    let mut t = file_channel("deck-a");
    assert!(!t.finish_block(256, true));
    assert_eq!(t.playback_state, PlaybackState::Ended);
    assert!(t.enabled);
}

#[test]
fn playback_status_depends_on_authority() {
    let mut legacy = ChannelTransport::new_legacy(SourceId::Mic);
    assert_eq!(
        legacy.playback_status(96_000, SAMPLE_RATE, Some(10)),
        SourcePlaybackStatus::legacy_enabled(true)
    );
    legacy.set_enabled(false);
    assert_eq!(
        legacy.playback_status(96_000, SAMPLE_RATE, None).state,
        PlaybackState::Stopped
    );

    let file = file_channel("deck-a");
    let status = file.playback_status(96_000, SAMPLE_RATE, Some(24_000));
    assert_eq!(status.state, PlaybackState::Playing);
    assert_eq!(status.authority, PlaybackStatusAuthority::TimelineTransport);
    assert_eq!(status.timeline_position_ms, Some(2_000));
    assert_eq!(status.source_position_ms, Some(500));
    assert!(!status.loop_enabled);
}

fn request(id: &str, origin: ActionOrigin, trigger_frame: u64, command: u32) -> RtCommandScheduleRequest<u32> {
    RtCommandScheduleRequest {
        action_id: ScheduledActionId::new(id),
        origin,
        trigger_frame,
        command,
    }
}

#[test]
fn immediate_and_scheduled_commands_share_one_block_budget() {
    let (mut control, mut queue) = RuntimeControl::<u32>::new(AudioRuntimeConfig { sample_rate: SAMPLE_RATE });
    for index in 0..40u32 {
        queue.enqueue(index).unwrap();
    }
    for index in 0..40u32 {
        control
            .schedule_rt_command(request(&format!("s-{index:02}"), ActionOrigin::Test, 0, 100 + index))
            .unwrap();
    }
    let mut sink = Vec::with_capacity(MAX_DRAIN_PER_BLOCK);
    assert_eq!(control.drain_block_commands(&mut sink), (40, 24));
    assert_eq!(sink.len(), MAX_DRAIN_PER_BLOCK);
    assert_eq!(sink[0], 0);
    assert_eq!(sink[39], 39);
    assert_eq!(sink[40], 100);
    assert_eq!(sink[63], 123);
    assert_eq!(control.scheduled_rt_command_count(), 16);

    let mut next = Vec::new();
    assert_eq!(control.drain_block_commands(&mut next), (0, 16));
    assert_eq!(next[0], 124);
    assert_eq!(control.scheduled_rt_command_count(), 0);
    assert_eq!(control.reclaim_dispatched_scheduled_rt_commands(), 40);
}

#[test]
fn scheduled_commands_wait_for_the_engine_clock() {
    let (mut control, _queue) = RuntimeControl::<u32>::new(AudioRuntimeConfig { sample_rate: SAMPLE_RATE });
    control.schedule_rt_command(request("later", ActionOrigin::Test, 1_000, 7)).unwrap();
    let mut sink = Vec::new();
    assert_eq!(control.drain_block_commands(&mut sink), (0, 0));
    control.advance(512);
    control.advance(512);
    assert_eq!(control.rendered_frames(), 1_024);
    assert_eq!(control.drain_block_commands(&mut sink), (0, 1));
    assert_eq!(sink, vec![7]);
}

#[test]
fn planned_commands_are_checked_against_the_current_engine_frame() {
    let (mut control, _queue) = RuntimeControl::<u32>::new(AudioRuntimeConfig { sample_rate: SAMPLE_RATE });
    control.advance(48_000);
    assert!(matches!(
        control.schedule_rt_command(request("planned", ActionOrigin::PlannedLlm, 1_440_000, 1)),
        Err(RtCommandSchedulerError::Validation(ScheduleValidationError::PlannedActionTooSoon {
            trigger_frame: 1_440_000,
            minimum_trigger_frame: 1_488_000,
        }))
    ));
    assert!(control
        .schedule_rt_command(request("planned", ActionOrigin::PlannedLlm, 1_488_000, 1))
        .is_ok());
    assert!(matches!(
        control.modify_scheduled_rt_command_trigger(&ScheduledActionId::new("planned"), 48_001),
        Err(RtCommandSchedulerError::Validation(ScheduleValidationError::PlannedActionTooSoon { .. }))
    ));
    let canceled = control
        .cancel_scheduled_rt_command(&ScheduledActionId::new("planned"))
        .unwrap();
    assert_eq!(canceled.trigger_frame, 1_488_000);
    assert_eq!(control.scheduled_rt_command_count(), 0);
}

#[test]
fn engine_clock_saturates() {
    let (mut control, _queue) = RuntimeControl::<u32>::new(AudioRuntimeConfig { sample_rate: SAMPLE_RATE });
    assert_eq!(control.sample_rate(), SAMPLE_RATE);
    control.advance(usize::MAX);
    control.advance(usize::MAX);
    assert_eq!(control.rendered_frames(), u64::MAX);
}

use omm::command::RtCommand;
use omm::params::ParamId;
use omm::runtime::{
    plan_automation, prepare_file_instance, route_command, AutomationStep, ChannelOp,
    CommandRoute, MasterOp, SourceAutomationRamp, SourceAutomationTarget,
};
use omm::source_timeline::SourceAssetRef;

#[test]
fn rt_command_defines_expected_variants() {
    let commands = [
        RtCommand::SetMasterGainDb { db: -6.0f32, ramp_frames: 4800 },
        RtCommand::SetMasterPan { pan: 0.5, ramp_frames: 4800 },
        RtCommand::SetMasterLowpassHz { hz: 18_000.0 },
        RtCommand::SetMasterHighpassHz { hz: 20.0 },
        RtCommand::SetChannelGainDb { source_id: SourceId::System, db: -3.0, ramp_frames: 9600 },
        RtCommand::SetChannelPan { source_id: SourceId::Mic, pan: -0.25, ramp_frames: 9600 },
        RtCommand::SetChannelLowpassHz { source_id: SourceId::Player, hz: 12_000.0 },
        RtCommand::SetChannelHighpassHz { source_id: SourceId::Glicol, hz: 60.0 },
        RtCommand::SetChannelEnabled { source_id: SourceId::System, enabled: true },
        RtCommand::SetSourceInstanceGainDb {
            source_instance_id: SourceInstanceId::new("file:loop"),
            db: -6.0,
            ramp_frames: 4800,
        },
        RtCommand::SetSourceInstancePan {
            source_instance_id: SourceInstanceId::new("file:loop"),
            pan: 0.25,
            ramp_frames: 4800,
        },
        RtCommand::SetSourceInstanceHighpassHz {
            source_instance_id: SourceInstanceId::new("file:loop"),
            hz: 80.0,
        },
        RtCommand::SetSourceInstanceLowpassHz {
            source_instance_id: SourceInstanceId::new("file:loop"),
            hz: 12_000.0,
        },
        RtCommand::SetSourceInstanceEq {
            source_instance_id: SourceInstanceId::new("file:loop"),
            low_db: 3.0,
            mid_db: -2.0,
            high_db: 1.0,
            ramp_frames: 4800,
        },
        RtCommand::SetSourceInstanceReverbSendDb {
            source_instance_id: SourceInstanceId::new("file:loop"),
            send_db: -12.0,
            ramp_frames: 4800,
        },
        RtCommand::SetSourceInstancePlaybackRate {
            source_instance_id: SourceInstanceId::new("file:loop"),
            rate: 1.5,
            ramp_frames: 4800,
        },
        RtCommand::SetSourceInstanceReverse {
            source_instance_id: SourceInstanceId::new("file:loop"),
            reverse: true,
        },
    ];

    assert_eq!(commands.len(), 17);
}

#[test]
fn commands_route_to_the_first_matching_channel_or_are_dropped() {
    let channels = vec![
        ChannelTransport::new_legacy(SourceId::Glicol),
        file_channel("deck-a"),
        ChannelTransport::new_legacy(SourceId::Glicol),
    ];
    assert_eq!(
        route_command(&channels, RtCommand::SetMasterGainDb { db: -3.0f32, ramp_frames: 10 }),
        CommandRoute::Master(MasterOp::GainDb { db: -3.0, ramp_frames: 10 })
    );
    assert_eq!(
        route_command(&channels, RtCommand::SetChannelEnabled { source_id: SourceId::Glicol, enabled: false }),
        CommandRoute::<f32>::Channel { index: 0, op: ChannelOp::Enabled { enabled: false } }
    );
    assert_eq!(
        route_command(&channels, RtCommand::SetChannelPan { source_id: SourceId::Mic, pan: 0.5f32, ramp_frames: 1 }),
        CommandRoute::Unrouted
    );
    assert_eq!(
        route_command(
            &channels,
            RtCommand::SetSourceInstanceEq {
                source_instance_id: SourceInstanceId::new("deck-a"),
                low_db: 1.0f32,
                mid_db: 2.0,
                high_db: 3.0,
                ramp_frames: 4,
            }
        ),
        CommandRoute::Channel {
            index: 1,
            op: ChannelOp::Eq { low_db: 1.0, mid_db: 2.0, high_db: 3.0, ramp_frames: 4 }
        }
    );
    assert_eq!(
        route_command(
            &channels,
            RtCommand::SetSourceInstanceReverse {
                source_instance_id: SourceInstanceId::new("legacy:glicol"),
                reverse: true,
            }
        ),
        CommandRoute::<f32>::Channel { index: 0, op: ChannelOp::Reverse { reverse: true } }
    );
    assert_eq!(
        route_command(
            &channels,
            RtCommand::SetSourceInstanceGainDb {
                source_instance_id: SourceInstanceId::new("missing"),
                db: 0.0f32,
                ramp_frames: 0,
            }
        ),
        CommandRoute::Unrouted
    );
}

#[test]
fn automation_picks_the_operation_and_clamp_for_each_target() {
    let channels = vec![file_channel("deck-a")];
    let id = SourceInstanceId::new("deck-a");
    let ramp = |target| SourceAutomationRamp { target, end_value: 2.5f32, duration_frames: 480 };
    assert_eq!(
        plan_automation(&channels, &id, ramp(SourceAutomationTarget::GainDb)).unwrap(),
        (0, AutomationStep { op: ChannelOp::GainDb { db: 2.5, ramp_frames: 480 }, clamp: Some(ParamId::GainDb) })
    );
    assert_eq!(
        plan_automation(&channels, &id, ramp(SourceAutomationTarget::Pan)).unwrap().1.clamp,
        Some(ParamId::Pan)
    );
    assert_eq!(
        plan_automation(&channels, &id, ramp(SourceAutomationTarget::EqMidGainDb)).unwrap().1,
        AutomationStep { op: ChannelOp::EqMid { db: 2.5, ramp_frames: 480 }, clamp: None }
    );
    assert_eq!(
        plan_automation(&channels, &id, ramp(SourceAutomationTarget::PlaybackRate)).unwrap().1,
        AutomationStep { op: ChannelOp::PlaybackRate { rate: 2.5, ramp_frames: 480 }, clamp: None }
    );
    assert!(matches!(
        plan_automation(&channels, &SourceInstanceId::new("nope"), ramp(SourceAutomationTarget::Pan)),
        Err(SourceInstanceError::SourceInstanceNotFound { .. })
    ));
}

#[test]
fn file_instances_open_their_window_at_the_current_engine_time() {
    let (seek, t) = prepare_file_instance(
        SourceInstanceId::new("deck-a"),
        "file:///a.wav".to_string(),
        500,
        96_000,
        48_000 * 60,
        SAMPLE_RATE,
    )
    .unwrap();
    assert_eq!(seek, 24_000);
    assert_eq!(t.source_instance_id.as_str(), "deck-a");
    assert_eq!(t.source_kind, SourceKind::File);
    assert_eq!(
        t.asset_ref,
        Some(SourceAssetRef::File {
            uri: "file:///a.wav".to_string(),
            content_hash: None,
            duration_ms: Some(2_000),
        })
    );
    assert_eq!(t.timeline.active_windows[0].timeline_start_ms, 60_000);
    assert_eq!(t.timeline.active_windows[0].source_start_offset_ms, 500);
    assert_eq!(t.playback_authority, PlaybackStatusAuthority::TimelineTransport);
    assert!(matches!(
        prepare_file_instance(SourceInstanceId::new("deck-a"), String::new(), 2_000, 96_000, 0, SAMPLE_RATE),
        Err(SourceInstanceError::StartOffsetBeyondDuration { start_offset_ms: 2_000, duration_ms: 2_000 })
    ));
}

#[test]
fn start_offsets_round_trip_through_frames_at_audio_rates() {
    for rate in [8_000u32, 44_100, 48_000, 96_000] {
        for ms in [0u64, 1, 7, 999, 1_000, 123_457] {
            assert_eq!(frames_to_ms(frames_for_duration_ms(ms, rate), rate), ms);
        }
    }
    // Below 1 kHz a frame spans more than a millisecond.
    assert_eq!(frames_to_ms(frames_for_duration_ms(1, 1), 1), 1_000);
}
