use vstd::prelude::*;

use crate::channel::{file_timeline, frames_in_ms, frames_to_ms, ChannelTransport};
use crate::command::{
    new_command_channel, CommandQueue, CommandReceiver, RtCommand, MAX_DRAIN_PER_BLOCK,
};
use crate::params::ParamId;
use crate::params::SourceId;
use crate::rt_scheduler::{
    due_prefix_len, has_id, index_of_id, insert_in_due_order, request_action,
    RtCommandScheduleRequest, RtCommandScheduler, RtCommandSchedulerError, ScheduledRtCommand,
};
use crate::schedule::{
    frames_for_duration, frames_for_duration_ms, schedule_request_error, ScheduleRequestTiming,
    ScheduledActionId,
};
use crate::source_timeline::{
    instance_id_valid, legacy_prefix, PlaybackState, PlaybackStatusAuthority, SourceAssetRef,
    SourceInstanceId, SourceKind, SourceTimelineValidationError, TimelineActiveWindow,
};
use crate::sources::PlayerSourceError;
use crate::text::{same_text, starts_with_text};

verus! {

#[derive(Debug, Clone, Copy, PartialEq, Eq, Structural)]
pub enum ChannelError {
    DuplicateSourceId { source_id: SourceId },
}

/// Parameter of a source instance that an automation ramp drives.
#[derive(Debug, Clone, Copy, PartialEq, Eq, Structural)]
pub enum SourceAutomationTarget {
    GainDb,
    Pan,
    EqLowGainDb,
    EqMidGainDb,
    EqHighGainDb,
    ReverbSendDb,
    PlaybackRate,
}

#[derive(Debug)]
pub enum SourceInstanceError {
    Validation(SourceTimelineValidationError),
    DuplicateSourceInstance { source_instance_id: String },
    ReservedSourceInstanceId { source_instance_id: String },
    StartOffsetBeyondDuration { start_offset_ms: u64, duration_ms: u64 },
    Player(PlayerSourceError),
    SourceInstanceNotFound { source_instance_id: String },
    UnsupportedSourceOperation { source_instance_id: String, operation: &'static str },
}

#[derive(Debug, Clone, Copy, PartialEq, Eq, Structural)]
pub struct AudioRuntimeConfig {
    pub sample_rate: u32,
}

/// The first channel whose legacy source is `source_id`, if any.
pub fn find_legacy_channel(channels: &[ChannelTransport], source_id: SourceId) -> (r: Option<usize>)
    ensures
        match r {
            Some(i) => i < channels@.len() && channels@[i as int].legacy_source_id == Some(
                source_id,
            ) && forall|j: int|
                0 <= j < i ==> (#[trigger] channels@[j]).legacy_source_id != Some(source_id),
            None => forall|j: int|
                0 <= j < channels@.len() ==> (#[trigger] channels@[j]).legacy_source_id != Some(
                    source_id,
                ),
        },
{
    let mut i: usize = 0;
    while i < channels.len()
        invariant
            0 <= i <= channels@.len(),
            forall|j: int| 0 <= j < i ==> (#[trigger] channels@[j]).legacy_source_id != Some(source_id),
        decreases channels.len() - i,
    {
        if channels[i].legacy_source_id == Some(source_id) {
            return Some(i);
        }
        i = i + 1;
    }
    None
}

/// The first channel whose instance id is `id`, if any.
pub fn find_instance_channel(channels: &[ChannelTransport], id: &SourceInstanceId) -> (r: Option<
    usize,
>)
    ensures
        match r {
            Some(i) => i < channels@.len() && channels@[i as int].source_instance_id@ == id@
                && forall|j: int| 0 <= j < i ==> (#[trigger] channels@[j]).source_instance_id@ != id@,
            None => forall|j: int|
                0 <= j < channels@.len() ==> (#[trigger] channels@[j]).source_instance_id@ != id@,
        },
{
    let mut i: usize = 0;
    while i < channels.len()
        invariant
            0 <= i <= channels@.len(),
            forall|j: int| 0 <= j < i ==> (#[trigger] channels@[j]).source_instance_id@ != id@,
        decreases channels.len() - i,
    {
        if same_text(channels[i].source_instance_id.as_str(), id.as_str()) {
            return Some(i);
        }
        i = i + 1;
    }
    None
}

/// A new legacy channel is refused when one for the same source already exists.
pub fn check_new_legacy_channel(channels: &[ChannelTransport], source_id: SourceId) -> (r: Result<
    (),
    ChannelError,
>)
    ensures
        r is Ok <==> forall|j: int|
            0 <= j < channels@.len() ==> (#[trigger] channels@[j]).legacy_source_id != Some(source_id),
        r is Err ==> r == Err::<(), ChannelError>(ChannelError::DuplicateSourceId { source_id }),
{
    match find_legacy_channel(channels, source_id) {
        Some(_) => Err(ChannelError::DuplicateSourceId { source_id }),
        None => Ok(()),
    }
}

/// Some channel carries an instance id equal to `id`.
pub open spec fn has_instance(channels: Seq<ChannelTransport>, id: Seq<char>) -> bool {
    exists|j: int| 0 <= j < channels.len() && (#[trigger] channels[j]).source_instance_id@ == id
}

/// Whether a file instance with this id may join `channels`, checked in order: the id must
/// be valid, must not use the prefix reserved for legacy channels, and must be unused.
pub fn admit_file_source_instance(channels: &[ChannelTransport], id: &SourceInstanceId) -> (r:
    Result<(), SourceInstanceError>)
    ensures
        id@.len() == 0 ==> r matches Err(
            SourceInstanceError::Validation(SourceTimelineValidationError::EmptySourceInstanceId),
        ),
        id@.len() > 0 && !instance_id_valid(id@) ==> (r matches Err(
            SourceInstanceError::Validation(
                SourceTimelineValidationError::InvalidSourceInstanceId { value },
            ),
        ) && value@ == id@),
        instance_id_valid(id@) && id@.len() >= legacy_prefix().len() && id@.subrange(
            0,
            legacy_prefix().len() as int,
        ) == legacy_prefix() ==> (r matches Err(
            SourceInstanceError::ReservedSourceInstanceId { source_instance_id },
        ) && source_instance_id@ == id@),
        instance_id_valid(id@) && !(id@.len() >= legacy_prefix().len() && id@.subrange(
            0,
            legacy_prefix().len() as int,
        ) == legacy_prefix()) && has_instance(channels@, id@) ==> (r matches Err(
            SourceInstanceError::DuplicateSourceInstance { source_instance_id },
        ) && source_instance_id@ == id@),
        r is Ok <==> instance_id_valid(id@) && !(id@.len() >= legacy_prefix().len() && id@.subrange(
            0,
            legacy_prefix().len() as int,
        ) == legacy_prefix()) && !has_instance(channels@, id@),
{
    match id.validate() {
        Ok(()) => {},
        Err(e) => {
            return Err(SourceInstanceError::Validation(e));
        },
    }
    let value = id.as_str();
    proof {
        reveal_strlit("legacy:");
    }
    if starts_with_text(value, "legacy:") {
        return Err(
            SourceInstanceError::ReservedSourceInstanceId { source_instance_id: value.to_owned() },
        );
    }
    match find_instance_channel(channels, id) {
        Some(j) => {
            proof {
                assert(channels@[j as int].source_instance_id@ == id@);
            }
            Err(
                SourceInstanceError::DuplicateSourceInstance {
                    source_instance_id: value.to_owned(),
                },
            )
        },
        None => Ok(()),
    }
}

/// Where in a file of `duration_frames` frames an instance starting `start_offset_ms` into
/// it begins: the offset in frames, which must lie before the end of the file.
pub fn file_start_offset_frames(start_offset_ms: u64, duration_frames: u64, sample_rate: u32) -> (r:
    Result<u64, SourceInstanceError>)
    ensures
        frames_for_duration(start_offset_ms as nat, sample_rate) < duration_frames ==> r == Ok::<
            u64,
            SourceInstanceError,
        >(frames_for_duration(start_offset_ms as nat, sample_rate) as u64),
        frames_for_duration(start_offset_ms as nat, sample_rate) >= duration_frames ==> (r matches Err(
            SourceInstanceError::StartOffsetBeyondDuration { start_offset_ms: s, duration_ms },
        ) && s == start_offset_ms && duration_ms == frames_in_ms(duration_frames, sample_rate)),
{
    let start_offset_frames = frames_for_duration_ms(start_offset_ms, sample_rate);
    if start_offset_frames >= duration_frames {
        return Err(
            SourceInstanceError::StartOffsetBeyondDuration {
                start_offset_ms,
                duration_ms: frames_to_ms(duration_frames, sample_rate),
            },
        );
    }
    Ok(start_offset_frames)
}

/// The transport of a decoded file instance joining the timeline at `engine_frame`, and
/// the frame its source starts at: the instance plays from `start_offset_ms` into the
/// file, which must lie before the file's end, and opens its one timeline window now.
pub fn prepare_file_instance(
    id: SourceInstanceId,
    uri: String,
    start_offset_ms: u64,
    duration_frames: u64,
    engine_frame: u64,
    sample_rate: u32,
) -> (r: Result<(u64, ChannelTransport), SourceInstanceError>)
    ensures
        frames_for_duration(start_offset_ms as nat, sample_rate) >= duration_frames ==> (r matches Err(
            SourceInstanceError::StartOffsetBeyondDuration { start_offset_ms: s, duration_ms },
        ) && s == start_offset_ms && duration_ms == frames_in_ms(duration_frames, sample_rate)),
        frames_for_duration(start_offset_ms as nat, sample_rate) < duration_frames ==> (r matches Ok(
            (seek, t),
        ) && seek == frames_for_duration(start_offset_ms as nat, sample_rate) && t.legacy_source_id
            is None && t.source_instance_id == id && t.source_kind == SourceKind::File
            && t.asset_ref == Some(
            SourceAssetRef::File {
                uri,
                content_hash: None,
                duration_ms: Some(frames_in_ms(duration_frames, sample_rate)),
            },
        ) && t.timeline.active_windows@ == seq![
            TimelineActiveWindow {
                timeline_start_ms: frames_in_ms(engine_frame, sample_rate),
                timeline_end_ms: None,
                source_start_offset_ms: start_offset_ms,
            },
        ] && t.playback_authority == PlaybackStatusAuthority::TimelineTransport
            && t.playback_state == PlaybackState::Playing && t.enabled
            && t.pending_stop_after_frames is None),
{
    let seek = match file_start_offset_frames(start_offset_ms, duration_frames, sample_rate) {
        Ok(seek) => seek,
        Err(e) => {
            return Err(e);
        },
    };
    let duration_ms = frames_to_ms(duration_frames, sample_rate);
    let timeline_start_ms = frames_to_ms(engine_frame, sample_rate);
    let transport = ChannelTransport::new_timeline_source(
        id,
        SourceKind::File,
        Some(SourceAssetRef::File { uri, content_hash: None, duration_ms: Some(duration_ms) }),
        file_timeline(timeline_start_ms, start_offset_ms),
    );
    Ok((seek, transport))
}

/// A start offset survives its conversion to frames: rounding the offset up to whole
/// frames and reading those frames back as milliseconds gives the offset again, at any
/// rate of at least 1 kHz (below that, one frame spans more than a millisecond).
pub proof fn lemma_start_offset_round_trips(start_offset_ms: u64, sample_rate: u32)
    requires
        sample_rate >= 1000,
        start_offset_ms * sample_rate + 999 <= u64::MAX * 1000,
    ensures
        frames_in_ms(frames_for_duration(start_offset_ms as nat, sample_rate) as u64, sample_rate)
            == start_offset_ms,
{
    let ms = start_offset_ms as int;
    let sr = sample_rate as int;
    let f = (ms * sr + 999) / 1000;
    assert(f <= u64::MAX) by (nonlinear_arith)
        requires
            f == (ms * sr + 999) / 1000,
            ms * sr + 999 <= u64::MAX * 1000,
            ms >= 0,
            sr >= 0,
    ;
    assert(frames_for_duration(start_offset_ms as nat, sample_rate) == f);
    assert(ms * sr <= f * 1000 && f * 1000 <= ms * sr + 999) by (nonlinear_arith)
        requires
            f == (ms * sr + 999) / 1000,
            ms >= 0,
            sr >= 0,
    ;
    assert((f * 1000) / sr == ms) by (nonlinear_arith)
        requires
            ms * sr <= f * 1000,
            f * 1000 <= ms * sr + 999,
            sr >= 1000,
            ms >= 0,
    ;
}

/// The error for a source instance id no channel carries.
pub fn instance_not_found(id: &SourceInstanceId) -> (e: SourceInstanceError)
    ensures
        e matches SourceInstanceError::SourceInstanceNotFound { source_instance_id }
            && source_instance_id@ == id@,
{
    SourceInstanceError::SourceInstanceNotFound { source_instance_id: id.as_str().to_owned() }
}

/// The channel carrying `id`, or `SourceInstanceNotFound`.
pub fn require_instance_channel(channels: &[ChannelTransport], id: &SourceInstanceId) -> (r: Result<
    usize,
    SourceInstanceError,
>)
    ensures
        match r {
            Ok(i) => i < channels@.len() && channels@[i as int].source_instance_id@ == id@
                && forall|j: int| 0 <= j < i ==> (#[trigger] channels@[j]).source_instance_id@ != id@,
            Err(e) => !has_instance(channels@, id@) && (e matches SourceInstanceError::SourceInstanceNotFound {
                source_instance_id,
            } && source_instance_id@ == id@),
        },
{
    match find_instance_channel(channels, id) {
        Some(i) => Ok(i),
        None => Err(instance_not_found(id)),
    }
}

/// `Ok` when the source took the operation, otherwise `UnsupportedSourceOperation` naming
/// the instance and the operation.
pub fn require_supported(supported: bool, id: &SourceInstanceId, operation: &'static str) -> (r:
    Result<(), SourceInstanceError>)
    ensures
        supported ==> r is Ok,
        !supported ==> (r matches Err(
            SourceInstanceError::UnsupportedSourceOperation { source_instance_id, operation: op },
        ) && source_instance_id@ == id@ && op@ == operation@),
{
    if supported {
        Ok(())
    } else {
        Err(
            SourceInstanceError::UnsupportedSourceOperation {
                source_instance_id: id.as_str().to_owned(),
                operation,
            },
        )
    }
}

/// A change to the master bus.
#[derive(Debug, Clone, Copy, PartialEq)]
pub enum MasterOp<F> {
    GainDb { db: F, ramp_frames: u32 },
    Pan { pan: F, ramp_frames: u32 },
    LowpassHz { hz: F },
    HighpassHz { hz: F },
}

/// A change to one channel.
#[derive(Debug, Clone, Copy, PartialEq)]
pub enum ChannelOp<F> {
    GainDb { db: F, ramp_frames: u32 },
    Pan { pan: F, ramp_frames: u32 },
    LowpassHz { hz: F },
    HighpassHz { hz: F },
    Enabled { enabled: bool },
    Eq { low_db: F, mid_db: F, high_db: F, ramp_frames: u32 },
    EqLow { db: F, ramp_frames: u32 },
    EqMid { db: F, ramp_frames: u32 },
    EqHigh { db: F, ramp_frames: u32 },
    ReverbSendDb { send_db: F, ramp_frames: u32 },
    PlaybackRate { rate: F, ramp_frames: u32 },
    Reverse { reverse: bool },
}

/// Where a command applies: the master bus, the channel at `index`, or nowhere because
/// no channel has the address it names (such a command is dropped).
#[derive(Debug, Clone, Copy, PartialEq)]
pub enum CommandRoute<F> {
    Master(MasterOp<F>),
    Channel { index: usize, op: ChannelOp<F> },
    Unrouted,
}

/// The address a command names.
pub enum CommandTarget {
    Master,
    Legacy(SourceId),
    Instance(Seq<char>),
}

pub open spec fn command_target<F>(cmd: RtCommand<F>) -> CommandTarget {
    match cmd {
        RtCommand::SetMasterGainDb { .. } | RtCommand::SetMasterPan { .. }
        | RtCommand::SetMasterLowpassHz { .. } | RtCommand::SetMasterHighpassHz { .. } =>
            CommandTarget::Master,
        RtCommand::SetChannelGainDb { source_id, .. } => CommandTarget::Legacy(source_id),
        RtCommand::SetChannelPan { source_id, .. } => CommandTarget::Legacy(source_id),
        RtCommand::SetChannelLowpassHz { source_id, .. } => CommandTarget::Legacy(source_id),
        RtCommand::SetChannelHighpassHz { source_id, .. } => CommandTarget::Legacy(source_id),
        RtCommand::SetChannelEnabled { source_id, .. } => CommandTarget::Legacy(source_id),
        RtCommand::SetSourceInstanceGainDb { source_instance_id, .. } => CommandTarget::Instance(
            source_instance_id@,
        ),
        RtCommand::SetSourceInstancePan { source_instance_id, .. } => CommandTarget::Instance(
            source_instance_id@,
        ),
        RtCommand::SetSourceInstanceHighpassHz { source_instance_id, .. } =>
            CommandTarget::Instance(source_instance_id@),
        RtCommand::SetSourceInstanceLowpassHz { source_instance_id, .. } =>
            CommandTarget::Instance(source_instance_id@),
        RtCommand::SetSourceInstanceEq { source_instance_id, .. } => CommandTarget::Instance(
            source_instance_id@,
        ),
        RtCommand::SetSourceInstanceReverbSendDb { source_instance_id, .. } =>
            CommandTarget::Instance(source_instance_id@),
        RtCommand::SetSourceInstancePlaybackRate { source_instance_id, .. } =>
            CommandTarget::Instance(source_instance_id@),
        RtCommand::SetSourceInstanceReverse { source_instance_id, .. } => CommandTarget::Instance(
            source_instance_id@,
        ),
    }
}

/// The master change a master command makes.
pub open spec fn master_op<F>(cmd: RtCommand<F>) -> MasterOp<F>
    recommends
        command_target(cmd) is Master,
{
    match cmd {
        RtCommand::SetMasterGainDb { db, ramp_frames } => MasterOp::GainDb { db, ramp_frames },
        RtCommand::SetMasterPan { pan, ramp_frames } => MasterOp::Pan { pan, ramp_frames },
        RtCommand::SetMasterLowpassHz { hz } => MasterOp::LowpassHz { hz },
        RtCommand::SetMasterHighpassHz { hz } => MasterOp::HighpassHz { hz },
        _ => arbitrary(),
    }
}

/// The channel change a channel command makes.
pub open spec fn channel_op<F>(cmd: RtCommand<F>) -> ChannelOp<F>
    recommends
        !(command_target(cmd) is Master),
{
    match cmd {
        RtCommand::SetChannelGainDb { db, ramp_frames, .. } => ChannelOp::GainDb { db, ramp_frames },
        RtCommand::SetChannelPan { pan, ramp_frames, .. } => ChannelOp::Pan { pan, ramp_frames },
        RtCommand::SetChannelLowpassHz { hz, .. } => ChannelOp::LowpassHz { hz },
        RtCommand::SetChannelHighpassHz { hz, .. } => ChannelOp::HighpassHz { hz },
        RtCommand::SetChannelEnabled { enabled, .. } => ChannelOp::Enabled { enabled },
        RtCommand::SetSourceInstanceGainDb { db, ramp_frames, .. } => ChannelOp::GainDb {
            db,
            ramp_frames,
        },
        RtCommand::SetSourceInstancePan { pan, ramp_frames, .. } => ChannelOp::Pan {
            pan,
            ramp_frames,
        },
        RtCommand::SetSourceInstanceHighpassHz { hz, .. } => ChannelOp::HighpassHz { hz },
        RtCommand::SetSourceInstanceLowpassHz { hz, .. } => ChannelOp::LowpassHz { hz },
        RtCommand::SetSourceInstanceEq { low_db, mid_db, high_db, ramp_frames, .. } =>
            ChannelOp::Eq { low_db, mid_db, high_db, ramp_frames },
        RtCommand::SetSourceInstanceReverbSendDb { send_db, ramp_frames, .. } =>
            ChannelOp::ReverbSendDb { send_db, ramp_frames },
        RtCommand::SetSourceInstancePlaybackRate { rate, ramp_frames, .. } =>
            ChannelOp::PlaybackRate { rate, ramp_frames },
        RtCommand::SetSourceInstanceReverse { reverse, .. } => ChannelOp::Reverse { reverse },
        _ => arbitrary(),
    }
}

/// `index` is the first channel bridging legacy source `source_id`.
pub open spec fn first_with_legacy(channels: Seq<ChannelTransport>, source_id: SourceId, index: int) -> bool {
    &&& 0 <= index < channels.len()
    &&& channels[index].legacy_source_id == Some(source_id)
    &&& forall|j: int| 0 <= j < index ==> (#[trigger] channels[j]).legacy_source_id != Some(source_id)
}

/// `index` is the first channel carrying instance id `id`.
pub open spec fn first_with_instance(channels: Seq<ChannelTransport>, id: Seq<char>, index: int) -> bool {
    &&& 0 <= index < channels.len()
    &&& channels[index].source_instance_id@ == id
    &&& forall|j: int| 0 <= j < index ==> (#[trigger] channels[j]).source_instance_id@ != id
}

/// Some channel bridges legacy source `source_id`.
pub open spec fn has_legacy(channels: Seq<ChannelTransport>, source_id: SourceId) -> bool {
    exists|j: int| 0 <= j < channels.len() && (#[trigger] channels[j]).legacy_source_id == Some(source_id)
}

/// Decides where `cmd` applies among `channels`: master commands go to the master bus;
/// legacy-channel and instance commands go to the first channel with the address they
/// name, and are dropped when there is none.
pub fn route_command<F>(channels: &[ChannelTransport], cmd: RtCommand<F>) -> (r: CommandRoute<F>)
    ensures
        command_target(cmd) is Master ==> r == CommandRoute::Master(master_op(cmd)),
        command_target(cmd) matches CommandTarget::Legacy(source_id) ==> {
            ||| r matches CommandRoute::Channel { index, op } && op == channel_op(cmd)
                && first_with_legacy(channels@, source_id, index as int)
            ||| r is Unrouted && !has_legacy(channels@, source_id)
        },
        command_target(cmd) matches CommandTarget::Instance(id) ==> {
            ||| r matches CommandRoute::Channel { index, op } && op == channel_op(cmd)
                && first_with_instance(channels@, id, index as int)
            ||| r is Unrouted && !has_instance(channels@, id)
        },
        cmd matches RtCommand::SetSourceInstanceHighpassHz { hz, .. } ==> (r is Unrouted || r
            == CommandRoute::Channel { index: r->index, op: ChannelOp::HighpassHz { hz } }),
        cmd matches RtCommand::SetSourceInstanceLowpassHz { hz, .. } ==> (r is Unrouted || r
            == CommandRoute::Channel { index: r->index, op: ChannelOp::LowpassHz { hz } }),
        cmd matches RtCommand::SetChannelHighpassHz { hz, .. } ==> (r is Unrouted || r
            == CommandRoute::Channel { index: r->index, op: ChannelOp::HighpassHz { hz } }),
        cmd matches RtCommand::SetChannelLowpassHz { hz, .. } ==> (r is Unrouted || r
            == CommandRoute::Channel { index: r->index, op: ChannelOp::LowpassHz { hz } }),
        cmd matches RtCommand::SetMasterHighpassHz { hz } ==> r == CommandRoute::Master(
            MasterOp::HighpassHz { hz },
        ),
        cmd matches RtCommand::SetMasterLowpassHz { hz } ==> r == CommandRoute::Master(
            MasterOp::LowpassHz { hz },
        ),
{
    let target = match &cmd {
        RtCommand::SetMasterGainDb { .. } | RtCommand::SetMasterPan { .. }
        | RtCommand::SetMasterLowpassHz { .. } | RtCommand::SetMasterHighpassHz { .. } => None,
        RtCommand::SetChannelGainDb { source_id, .. } | RtCommand::SetChannelPan { source_id, .. }
        | RtCommand::SetChannelLowpassHz { source_id, .. }
        | RtCommand::SetChannelHighpassHz { source_id, .. }
        | RtCommand::SetChannelEnabled { source_id, .. } => Some(
            find_legacy_channel(channels, *source_id),
        ),
        RtCommand::SetSourceInstanceGainDb { source_instance_id, .. }
        | RtCommand::SetSourceInstancePan { source_instance_id, .. }
        | RtCommand::SetSourceInstanceHighpassHz { source_instance_id, .. }
        | RtCommand::SetSourceInstanceLowpassHz { source_instance_id, .. }
        | RtCommand::SetSourceInstanceEq { source_instance_id, .. }
        | RtCommand::SetSourceInstanceReverbSendDb { source_instance_id, .. }
        | RtCommand::SetSourceInstancePlaybackRate { source_instance_id, .. }
        | RtCommand::SetSourceInstanceReverse { source_instance_id, .. } => Some(
            find_instance_channel(channels, source_instance_id),
        ),
    };
    match target {
        None => CommandRoute::Master(
            match cmd {
                RtCommand::SetMasterGainDb { db, ramp_frames } => MasterOp::GainDb { db, ramp_frames },
                RtCommand::SetMasterPan { pan, ramp_frames } => MasterOp::Pan { pan, ramp_frames },
                RtCommand::SetMasterLowpassHz { hz } => MasterOp::LowpassHz { hz },
                RtCommand::SetMasterHighpassHz { hz } => MasterOp::HighpassHz { hz },
                _ => {
                    proof {
                        assert(false);
                    }
                    return CommandRoute::Unrouted;
                },
            },
        ),
        Some(None) => CommandRoute::Unrouted,
        Some(Some(index)) => {
            let op = match cmd {
                RtCommand::SetChannelGainDb { db, ramp_frames, .. } => ChannelOp::GainDb {
                    db,
                    ramp_frames,
                },
                RtCommand::SetChannelPan { pan, ramp_frames, .. } => ChannelOp::Pan { pan, ramp_frames },
                RtCommand::SetChannelLowpassHz { hz, .. } => ChannelOp::LowpassHz { hz },
                RtCommand::SetChannelHighpassHz { hz, .. } => ChannelOp::HighpassHz { hz },
                RtCommand::SetChannelEnabled { enabled, .. } => ChannelOp::Enabled { enabled },
                RtCommand::SetSourceInstanceGainDb { db, ramp_frames, .. } => ChannelOp::GainDb {
                    db,
                    ramp_frames,
                },
                RtCommand::SetSourceInstancePan { pan, ramp_frames, .. } => ChannelOp::Pan {
                    pan,
                    ramp_frames,
                },
                RtCommand::SetSourceInstanceHighpassHz { hz, .. } => ChannelOp::HighpassHz { hz },
                RtCommand::SetSourceInstanceLowpassHz { hz, .. } => ChannelOp::LowpassHz { hz },
                RtCommand::SetSourceInstanceEq { low_db, mid_db, high_db, ramp_frames, .. } =>
                    ChannelOp::Eq { low_db, mid_db, high_db, ramp_frames },
                RtCommand::SetSourceInstanceReverbSendDb { send_db, ramp_frames, .. } =>
                    ChannelOp::ReverbSendDb { send_db, ramp_frames },
                RtCommand::SetSourceInstancePlaybackRate { rate, ramp_frames, .. } =>
                    ChannelOp::PlaybackRate { rate, ramp_frames },
                RtCommand::SetSourceInstanceReverse { reverse, .. } => ChannelOp::Reverse {
                    reverse,
                },
                _ => {
                    proof {
                        assert(false);
                    }
                    return CommandRoute::Unrouted;
                },
            };
            CommandRoute::Channel { index, op }
        },
    }
}

/// An automation ramp: drive `target` of a source instance to `end_value` over
/// `duration_frames` frames.
#[derive(Debug, Clone, Copy, PartialEq)]
pub struct SourceAutomationRamp<F> {
    pub target: SourceAutomationTarget,
    pub end_value: F,
    pub duration_frames: u32,
}

/// How an automation ramp applies: the change to make and, for gain and pan, the
/// parameter whose range the end value is first clamped to (a non-finite value falls back
/// to zero).
#[derive(Debug, Clone, Copy, PartialEq)]
pub struct AutomationStep<F> {
    pub op: ChannelOp<F>,
    pub clamp: Option<ParamId>,
}

pub open spec fn automation_step<F>(ramp: SourceAutomationRamp<F>) -> AutomationStep<F> {
    let v = ramp.end_value;
    let d = ramp.duration_frames;
    match ramp.target {
        SourceAutomationTarget::GainDb => AutomationStep {
            op: ChannelOp::GainDb { db: v, ramp_frames: d },
            clamp: Some(ParamId::GainDb),
        },
        SourceAutomationTarget::Pan => AutomationStep {
            op: ChannelOp::Pan { pan: v, ramp_frames: d },
            clamp: Some(ParamId::Pan),
        },
        SourceAutomationTarget::EqLowGainDb => AutomationStep {
            op: ChannelOp::EqLow { db: v, ramp_frames: d },
            clamp: None,
        },
        SourceAutomationTarget::EqMidGainDb => AutomationStep {
            op: ChannelOp::EqMid { db: v, ramp_frames: d },
            clamp: None,
        },
        SourceAutomationTarget::EqHighGainDb => AutomationStep {
            op: ChannelOp::EqHigh { db: v, ramp_frames: d },
            clamp: None,
        },
        SourceAutomationTarget::ReverbSendDb => AutomationStep {
            op: ChannelOp::ReverbSendDb { send_db: v, ramp_frames: d },
            clamp: None,
        },
        SourceAutomationTarget::PlaybackRate => AutomationStep {
            op: ChannelOp::PlaybackRate { rate: v, ramp_frames: d },
            clamp: None,
        },
    }
}

/// Plans an automation ramp on the source instance `id`: the channel it applies to and
/// the step to take, or `SourceInstanceNotFound`.
pub fn plan_automation<F>(channels: &[ChannelTransport], id: &SourceInstanceId, ramp: SourceAutomationRamp<F>) -> (r: Result<
    (usize, AutomationStep<F>),
    SourceInstanceError,
>)
    ensures
        match r {
            Ok((index, step)) => first_with_instance(channels@, id@, index as int) && step
                == automation_step(ramp),
            Err(e) => !has_instance(channels@, id@) && (e matches SourceInstanceError::SourceInstanceNotFound {
                source_instance_id,
            } && source_instance_id@ == id@),
        },
{
    let index = match require_instance_channel(channels, id) {
        Ok(index) => index,
        Err(e) => {
            return Err(e);
        },
    };
    let v = ramp.end_value;
    let d = ramp.duration_frames;
    let step = match ramp.target {
        SourceAutomationTarget::GainDb => AutomationStep {
            op: ChannelOp::GainDb { db: v, ramp_frames: d },
            clamp: Some(ParamId::GainDb),
        },
        SourceAutomationTarget::Pan => AutomationStep {
            op: ChannelOp::Pan { pan: v, ramp_frames: d },
            clamp: Some(ParamId::Pan),
        },
        SourceAutomationTarget::EqLowGainDb => AutomationStep {
            op: ChannelOp::EqLow { db: v, ramp_frames: d },
            clamp: None,
        },
        SourceAutomationTarget::EqMidGainDb => AutomationStep {
            op: ChannelOp::EqMid { db: v, ramp_frames: d },
            clamp: None,
        },
        SourceAutomationTarget::EqHighGainDb => AutomationStep {
            op: ChannelOp::EqHigh { db: v, ramp_frames: d },
            clamp: None,
        },
        SourceAutomationTarget::ReverbSendDb => AutomationStep {
            op: ChannelOp::ReverbSendDb { send_db: v, ramp_frames: d },
            clamp: None,
        },
        SourceAutomationTarget::PlaybackRate => AutomationStep {
            op: ChannelOp::PlaybackRate { rate: v, ramp_frames: d },
            clamp: None,
        },
    };
    Ok((index, step))
}

/// A routed command keeps its setting: each command becomes the channel or master change
/// of the same parameter, carrying the command's own value and ramp. In particular a
/// high-pass command sets a high-pass and a low-pass command a low-pass, at the cutoff
/// it names.
pub proof fn lemma_routed_commands_keep_their_setting<F>(
    source_id: SourceId,
    id: SourceInstanceId,
    value: F,
    low: F,
    mid: F,
    high: F,
    ramp: u32,
    flag: bool,
)
    ensures
        master_op(RtCommand::SetMasterGainDb { db: value, ramp_frames: ramp }) == (MasterOp::GainDb {
            db: value,
            ramp_frames: ramp,
        }),
        master_op(RtCommand::SetMasterPan { pan: value, ramp_frames: ramp }) == (MasterOp::Pan {
            pan: value,
            ramp_frames: ramp,
        }),
        master_op(RtCommand::SetMasterLowpassHz { hz: value }) == (MasterOp::LowpassHz { hz: value }),
        master_op(RtCommand::SetMasterHighpassHz { hz: value }) == (MasterOp::HighpassHz { hz: value }),
        channel_op(RtCommand::SetChannelGainDb { source_id, db: value, ramp_frames: ramp })
            == (ChannelOp::GainDb { db: value, ramp_frames: ramp }),
        channel_op(RtCommand::SetChannelPan { source_id, pan: value, ramp_frames: ramp })
            == (ChannelOp::Pan { pan: value, ramp_frames: ramp }),
        channel_op(RtCommand::SetChannelLowpassHz { source_id, hz: value }) == (ChannelOp::LowpassHz {
            hz: value,
        }),
        channel_op(RtCommand::SetChannelHighpassHz { source_id, hz: value })
            == (ChannelOp::HighpassHz { hz: value }),
        channel_op(RtCommand::<F>::SetChannelEnabled { source_id, enabled: flag })
            == (ChannelOp::<F>::Enabled { enabled: flag }),
        channel_op(
            RtCommand::SetSourceInstanceGainDb { source_instance_id: id, db: value, ramp_frames: ramp },
        ) == (ChannelOp::GainDb { db: value, ramp_frames: ramp }),
        channel_op(
            RtCommand::SetSourceInstancePan { source_instance_id: id, pan: value, ramp_frames: ramp },
        ) == (ChannelOp::Pan { pan: value, ramp_frames: ramp }),
        channel_op(RtCommand::SetSourceInstanceHighpassHz { source_instance_id: id, hz: value })
            == (ChannelOp::HighpassHz { hz: value }),
        channel_op(RtCommand::SetSourceInstanceLowpassHz { source_instance_id: id, hz: value })
            == (ChannelOp::LowpassHz { hz: value }),
        channel_op(
            RtCommand::SetSourceInstanceEq {
                source_instance_id: id,
                low_db: low,
                mid_db: mid,
                high_db: high,
                ramp_frames: ramp,
            },
        ) == (ChannelOp::Eq { low_db: low, mid_db: mid, high_db: high, ramp_frames: ramp }),
        channel_op(
            RtCommand::SetSourceInstanceReverbSendDb {
                source_instance_id: id,
                send_db: value,
                ramp_frames: ramp,
            },
        ) == (ChannelOp::ReverbSendDb { send_db: value, ramp_frames: ramp }),
        channel_op(
            RtCommand::SetSourceInstancePlaybackRate {
                source_instance_id: id,
                rate: value,
                ramp_frames: ramp,
            },
        ) == (ChannelOp::PlaybackRate { rate: value, ramp_frames: ramp }),
        channel_op(RtCommand::<F>::SetSourceInstanceReverse { source_instance_id: id, reverse: flag })
            == (ChannelOp::<F>::Reverse { reverse: flag }),
{
}

/// An automation ramp drives the parameter it names, to its end value over its duration:
/// a low-band ramp moves the low band, a high-band ramp the high band, and so on. Gain and
/// pan ramps have their end value clamped to that parameter's range; the others do not.
pub proof fn lemma_automation_drives_the_named_parameter<F>(value: F, frames: u32)
    ensures
        automation_step(
            SourceAutomationRamp {
                target: SourceAutomationTarget::GainDb,
                end_value: value,
                duration_frames: frames,
            },
        ) == (AutomationStep { op: ChannelOp::GainDb { db: value, ramp_frames: frames }, clamp: Some(ParamId::GainDb) }),
        automation_step(
            SourceAutomationRamp {
                target: SourceAutomationTarget::Pan,
                end_value: value,
                duration_frames: frames,
            },
        ) == (AutomationStep { op: ChannelOp::Pan { pan: value, ramp_frames: frames }, clamp: Some(ParamId::Pan) }),
        automation_step(
            SourceAutomationRamp {
                target: SourceAutomationTarget::EqLowGainDb,
                end_value: value,
                duration_frames: frames,
            },
        ) == (AutomationStep { op: ChannelOp::EqLow { db: value, ramp_frames: frames }, clamp: None }),
        automation_step(
            SourceAutomationRamp {
                target: SourceAutomationTarget::EqMidGainDb,
                end_value: value,
                duration_frames: frames,
            },
        ) == (AutomationStep { op: ChannelOp::EqMid { db: value, ramp_frames: frames }, clamp: None }),
        automation_step(
            SourceAutomationRamp {
                target: SourceAutomationTarget::EqHighGainDb,
                end_value: value,
                duration_frames: frames,
            },
        ) == (AutomationStep { op: ChannelOp::EqHigh { db: value, ramp_frames: frames }, clamp: None }),
        automation_step(
            SourceAutomationRamp {
                target: SourceAutomationTarget::ReverbSendDb,
                end_value: value,
                duration_frames: frames,
            },
        ) == (AutomationStep { op: ChannelOp::ReverbSendDb { send_db: value, ramp_frames: frames }, clamp: None }),
        automation_step(
            SourceAutomationRamp {
                target: SourceAutomationTarget::PlaybackRate,
                end_value: value,
                duration_frames: frames,
            },
        ) == (AutomationStep { op: ChannelOp::PlaybackRate { rate: value, ramp_frames: frames }, clamp: None }),
{
}

/// The control state of the audio runtime: its engine clock, the scheduled commands and
/// the render-side end of the immediate command queue. Commands are of type `C`.
#[verifier::reject_recursive_types(C)]
pub struct RuntimeControl<C> {
    sample_rate: u32,
    rendered_frames: u64,
    scheduler: RtCommandScheduler<C>,
    command_rx: CommandReceiver<C>,
}

impl<C> RuntimeControl<C> {
    pub closed spec fn wf(&self) -> bool {
        self.scheduler.wf()
    }

    /// Frames rendered so far: the current engine frame.
    pub closed spec fn engine_frame(&self) -> u64 {
        self.rendered_frames
    }

    pub closed spec fn spec_sample_rate(&self) -> u32 {
        self.sample_rate
    }

    /// The scheduled actions not yet dispatched, in due order.
    pub closed spec fn pending(&self) -> Seq<ScheduledRtCommand<C>> {
        self.scheduler@
    }

    /// Scheduled commands dispatched since their metadata was last reclaimed.
    pub closed spec fn dispatched(&self) -> nat {
        self.scheduler.dispatched()
    }

    /// A runtime at engine frame zero with nothing scheduled, and the control-side end of
    /// its command queue.
    pub fn new(config: AudioRuntimeConfig) -> (r: (Self, CommandQueue<C>))
        ensures
            r.0.wf(),
            r.0.engine_frame() == 0,
            r.0.spec_sample_rate() == config.sample_rate,
            r.0.pending() == Seq::<ScheduledRtCommand<C>>::empty(),
            r.0.dispatched() == 0,
    {
        let (queue, receiver) = new_command_channel();
        let control = RuntimeControl {
            sample_rate: config.sample_rate,
            rendered_frames: 0,
            scheduler: RtCommandScheduler::new(),
            command_rx: receiver,
        };
        (control, queue)
    }

    pub fn sample_rate(&self) -> (r: u32)
        ensures
            r == self.spec_sample_rate(),
    {
        self.sample_rate
    }

    pub fn rendered_frames(&self) -> (r: u64)
        ensures
            r == self.engine_frame(),
    {
        self.rendered_frames
    }

    /// Advances the engine clock past a rendered block, saturating at `u64::MAX`.
    pub fn advance(&mut self, frames: usize)
        requires
            old(self).wf(),
        ensures
            final(self).wf(),
            final(self).engine_frame() == if old(self).engine_frame() + frames > u64::MAX {
                u64::MAX
            } else {
                (old(self).engine_frame() + frames) as u64
            },
            final(self).pending() == old(self).pending(),
            final(self).dispatched() == old(self).dispatched(),
            final(self).spec_sample_rate() == old(self).spec_sample_rate(),
    {
        self.rendered_frames = self.rendered_frames.saturating_add(frames as u64);
    }

    /// Schedules `request` against the current engine frame (a control-side operation).
    pub fn schedule_rt_command(&mut self, request: RtCommandScheduleRequest<C>) -> (r: Result<
        (),
        RtCommandSchedulerError,
    >)
        requires
            old(self).wf(),
        ensures
            final(self).wf(),
            final(self).engine_frame() == old(self).engine_frame(),
            final(self).spec_sample_rate() == old(self).spec_sample_rate(),
            final(self).dispatched() == 0,
            match schedule_request_error(
                request.action_id@,
                request.origin,
                ScheduleRequestTiming {
                    submitted_at_frame: old(self).engine_frame(),
                    trigger_frame: request.trigger_frame,
                },
                old(self).spec_sample_rate(),
            ) {
                Some(e) => r == Err::<(), RtCommandSchedulerError>(
                    RtCommandSchedulerError::Validation(e),
                ) && final(self).pending() == old(self).pending(),
                None => if has_id(old(self).pending(), request.action_id@) {
                    &&& r matches Err(RtCommandSchedulerError::DuplicateAction { action_id })
                    &&& action_id@ == request.action_id@
                    &&& final(self).pending() == old(self).pending()
                } else {
                    &&& r is Ok
                    &&& final(self).pending() == insert_in_due_order(
                        old(self).pending(),
                        request_action(request),
                    )
                },
            },
    {
        self.scheduler.schedule(request, self.rendered_frames, self.sample_rate)
    }

    /// Cancels a scheduled command (a control-side operation).
    pub fn cancel_scheduled_rt_command(&mut self, action_id: &ScheduledActionId) -> (r: Result<
        ScheduledRtCommand<C>,
        RtCommandSchedulerError,
    >)
        requires
            old(self).wf(),
        ensures
            final(self).wf(),
            final(self).engine_frame() == old(self).engine_frame(),
            final(self).spec_sample_rate() == old(self).spec_sample_rate(),
            final(self).dispatched() == 0,
            has_id(old(self).pending(), action_id@) ==> {
                let k = index_of_id(old(self).pending(), action_id@);
                &&& r == Ok::<ScheduledRtCommand<C>, RtCommandSchedulerError>(old(self).pending()[k])
                &&& final(self).pending() == old(self).pending().remove(k)
            },
            !has_id(old(self).pending(), action_id@) ==> {
                &&& r matches Err(RtCommandSchedulerError::ActionNotFound { action_id: missing })
                &&& missing@ == action_id@
                &&& final(self).pending() == old(self).pending()
            },
    {
        self.scheduler.cancel(action_id)
    }

    /// Moves a scheduled command to `new_trigger_frame`, revalidated against the current
    /// engine frame (a control-side operation).
    pub fn modify_scheduled_rt_command_trigger(
        &mut self,
        action_id: &ScheduledActionId,
        new_trigger_frame: u64,
    ) -> (r: Result<(), RtCommandSchedulerError>)
        requires
            old(self).wf(),
        ensures
            final(self).wf(),
            final(self).engine_frame() == old(self).engine_frame(),
            final(self).spec_sample_rate() == old(self).spec_sample_rate(),
            final(self).dispatched() == 0,
            !has_id(old(self).pending(), action_id@) ==> {
                &&& r matches Err(RtCommandSchedulerError::ActionNotFound { action_id: missing })
                &&& missing@ == action_id@
                &&& final(self).pending() == old(self).pending()
            },
            has_id(old(self).pending(), action_id@) ==> {
                let k = index_of_id(old(self).pending(), action_id@);
                let a = old(self).pending()[k];
                match schedule_request_error(
                    a.action_id@,
                    a.origin,
                    ScheduleRequestTiming {
                        submitted_at_frame: old(self).engine_frame(),
                        trigger_frame: new_trigger_frame,
                    },
                    old(self).spec_sample_rate(),
                ) {
                    Some(e) => r == Err::<(), RtCommandSchedulerError>(
                        RtCommandSchedulerError::Validation(e),
                    ) && final(self).pending() == old(self).pending(),
                    None => r is Ok && final(self).pending() == insert_in_due_order(
                        old(self).pending().remove(k),
                        ScheduledRtCommand { trigger_frame: new_trigger_frame, ..a },
                    ),
                }
            },
    {
        self.scheduler.modify_trigger_frame(
            action_id,
            new_trigger_frame,
            self.rendered_frames,
            self.sample_rate,
        )
    }

    pub fn scheduled_rt_command_count(&self) -> (n: usize)
        requires
            self.wf(),
        ensures
            n == self.pending().len(),
    {
        self.scheduler.len()
    }

    /// Reclaims the metadata of dispatched scheduled commands (a control-side operation);
    /// returns how many entries it reclaimed.
    pub fn reclaim_dispatched_scheduled_rt_commands(&mut self) -> (n: usize)
        requires
            old(self).wf(),
        ensures
            final(self).wf(),
            final(self).pending() == old(self).pending(),
            final(self).engine_frame() == old(self).engine_frame(),
            final(self).spec_sample_rate() == old(self).spec_sample_rate(),
            n == old(self).dispatched(),
            final(self).dispatched() == 0,
    {
        self.scheduler.reclaim_dispatched_metadata()
    }

    /// Collects the commands to apply before rendering a block, in the order to apply
    /// them: first up to `MAX_DRAIN_PER_BLOCK` immediate commands, then as many scheduled
    /// commands due at the current engine frame as the rest of that one budget allows.
    /// Returns how many of each were appended to `sink`.
    pub fn drain_block_commands(&mut self, sink: &mut Vec<C>) -> (r: (usize, usize))
        requires
            old(self).wf(),
        ensures
            final(self).wf(),
            final(self).engine_frame() == old(self).engine_frame(),
            final(self).spec_sample_rate() == old(self).spec_sample_rate(),
            r.0 <= MAX_DRAIN_PER_BLOCK,
            r.1 == due_prefix_len(
                old(self).pending(),
                old(self).engine_frame(),
                (MAX_DRAIN_PER_BLOCK - r.0) as nat,
            ),
            r.0 + r.1 <= MAX_DRAIN_PER_BLOCK,
            final(self).pending() == old(self).pending().skip(r.1 as int),
            final(self).dispatched() == old(self).dispatched() + r.1,
            final(sink)@.len() == old(sink)@.len() + r.0 + r.1,
            final(sink)@.subrange(0, old(sink)@.len() as int) == old(sink)@,
            forall|i: int|
                0 <= i < r.1 ==> final(sink)@[old(sink)@.len() + r.0 + i] == (#[trigger] old(
                    self,
                ).pending()[i]).command && old(self).pending()[i].trigger_frame
                    <= old(self).engine_frame(),
    {
        let ghost start = sink@;
        let immediate = self.command_rx.drain(sink, MAX_DRAIN_PER_BLOCK);
        let ghost mid = sink@;
        let scheduled = self.scheduler.drain_due(
            self.rendered_frames,
            MAX_DRAIN_PER_BLOCK - immediate,
            sink,
        );
        proof {
            assert(sink@.subrange(0, start.len() as int) =~= mid.subrange(0, start.len() as int));
        }
        (immediate, scheduled)
    }
}

} // verus!
