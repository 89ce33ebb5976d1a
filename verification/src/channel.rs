use vstd::prelude::*;

use crate::params::SourceId;
use crate::source_timeline::{
    legacy_asset_ref, legacy_asset_ref_matches, legacy_kind, legacy_prefix, legacy_slug,
    PlaybackState, PlaybackStatusAuthority, SourceAssetRef, SourceInstanceId, SourceKind,
    SourcePlaybackStatus, SourceTimelinePlacement, TimelineActiveWindow,
};

verus! {

/// Milliseconds in `frames` frames at `sample_rate`, rounded down; zero for a zero rate.
/// A result beyond `u64::MAX` keeps its low 64 bits.
pub open spec fn frames_in_ms(frames: u64, sample_rate: u32) -> u64 {
    if sample_rate == 0 {
        0
    } else {
        (frames as int * 1000 / sample_rate as int) as u64
    }
}

pub fn frames_to_ms(frames: u64, sample_rate: u32) -> (ms: u64)
    ensures
        ms == frames_in_ms(frames, sample_rate),
{
    if sample_rate == 0 {
        return 0;
    }
    assert(frames as u128 * 1000 <= 0xffff_ffff_ffff_ffffu128 * 1000) by (nonlinear_arith)
        requires
            frames <= 0xffff_ffff_ffff_ffffu64,
    ;
    ((frames as u128 * 1000) / sample_rate as u128) as u64
}

/// The placement of a file instance: one window opening at `start_ms` that plays the file
/// from `source_start_offset_ms` and never closes.
pub fn file_timeline(start_ms: u64, source_start_offset_ms: u64) -> (p: SourceTimelinePlacement)
    ensures
        p.active_windows@ == seq![
            TimelineActiveWindow {
                timeline_start_ms: start_ms,
                timeline_end_ms: None,
                source_start_offset_ms,
            },
        ],
{
    SourceTimelinePlacement {
        active_windows: vec![
            TimelineActiveWindow {
                timeline_start_ms: start_ms,
                timeline_end_ms: None,
                source_start_offset_ms,
            },
        ],
    }
}

/// What a stop request asks of the audio path.
#[derive(Debug, Clone, Copy, PartialEq, Eq, Structural)]
pub enum StopAction {
    /// The channel is disabled at once; its source must be disabled too.
    DisableNow,
    /// The channel fades its gain to silence over this many frames, then stops.
    FadeOut { fade_frames: u32 },
}

/// The identity, placement and transport state of one mixer channel: everything about a
/// channel but its signal processing.
pub struct ChannelTransport {
    pub legacy_source_id: Option<SourceId>,
    pub source_instance_id: SourceInstanceId,
    pub source_kind: SourceKind,
    pub asset_ref: Option<SourceAssetRef>,
    pub timeline: SourceTimelinePlacement,
    pub playback_authority: PlaybackStatusAuthority,
    pub playback_state: PlaybackState,
    pub enabled: bool,
    /// Frames left before a fading stop completes.
    pub pending_stop_after_frames: Option<usize>,
}

/// The transport after one rendered block of `frames` frames: an exhausted source marks
/// the channel ended, and a pending stop either counts down or, once the block covers it,
/// disables the channel and marks it stopped.
pub open spec fn after_block(t: ChannelTransport, frames: nat, source_finished: bool) -> ChannelTransport {
    let state = if source_finished { PlaybackState::Ended } else { t.playback_state };
    match t.pending_stop_after_frames {
        Some(left) => if frames >= left {
            ChannelTransport {
                enabled: false,
                pending_stop_after_frames: None,
                playback_state: PlaybackState::Stopped,
                ..t
            }
        } else {
            ChannelTransport {
                pending_stop_after_frames: Some((left - frames) as usize),
                playback_state: state,
                ..t
            }
        },
        None => ChannelTransport { playback_state: state, ..t },
    }
}

/// The transport after `set_enabled(enabled)`.
pub open spec fn with_enabled(t: ChannelTransport, enabled: bool) -> ChannelTransport {
    ChannelTransport {
        enabled,
        pending_stop_after_frames: None,
        playback_state: if enabled { PlaybackState::Playing } else { PlaybackState::Stopped },
        ..t
    }
}

impl ChannelTransport {
    /// A fixed legacy channel: always on the timeline, its status following its enabled flag.
    pub fn new_legacy(source_id: SourceId) -> (t: Self)
        ensures
            t.legacy_source_id == Some(source_id),
            t.source_instance_id@ == legacy_prefix() + legacy_slug(source_id),
            t.source_kind == legacy_kind(source_id),
            legacy_asset_ref_matches(source_id, t.asset_ref),
            t.timeline.active_windows@ == seq![TimelineActiveWindow::open_from_start_spec()],
            t.playback_authority == PlaybackStatusAuthority::LegacyChannelEnabled,
            t.playback_state == PlaybackState::Playing,
            t.enabled,
            t.pending_stop_after_frames.is_none(),
    {
        ChannelTransport {
            legacy_source_id: Some(source_id),
            source_instance_id: SourceInstanceId::legacy(source_id),
            source_kind: SourceKind::from_legacy_source(source_id),
            asset_ref: legacy_asset_ref(source_id),
            timeline: SourceTimelinePlacement::legacy_always_on(),
            playback_authority: PlaybackStatusAuthority::LegacyChannelEnabled,
            playback_state: PlaybackState::Playing,
            enabled: true,
            pending_stop_after_frames: None,
        }
    }

    /// A timeline source instance, playing, whose status the timeline transport reports.
    pub fn new_timeline_source(
        source_instance_id: SourceInstanceId,
        source_kind: SourceKind,
        asset_ref: Option<SourceAssetRef>,
        timeline: SourceTimelinePlacement,
    ) -> (t: Self)
        ensures
            t == (ChannelTransport {
                legacy_source_id: None,
                source_instance_id,
                source_kind,
                asset_ref,
                timeline,
                playback_authority: PlaybackStatusAuthority::TimelineTransport,
                playback_state: PlaybackState::Playing,
                enabled: true,
                pending_stop_after_frames: None,
            }),
    {
        ChannelTransport {
            legacy_source_id: None,
            source_instance_id,
            source_kind,
            asset_ref,
            timeline,
            playback_authority: PlaybackStatusAuthority::TimelineTransport,
            playback_state: PlaybackState::Playing,
            enabled: true,
            pending_stop_after_frames: None,
        }
    }

    pub fn legacy_source_id(&self) -> (id: Option<SourceId>)
        ensures
            id == self.legacy_source_id,
    {
        self.legacy_source_id
    }

    pub fn source_instance_id(&self) -> (id: &SourceInstanceId)
        ensures
            *id == self.source_instance_id,
    {
        &self.source_instance_id
    }

    /// Enables or disables the channel; either way a pending stop is dropped.
    pub fn set_enabled(&mut self, enabled: bool)
        ensures
            *final(self) == with_enabled(*old(self), enabled),
    {
        self.enabled = enabled;
        self.pending_stop_after_frames = None;
        self.playback_state = if enabled {
            PlaybackState::Playing
        } else {
            PlaybackState::Stopped
        };
    }

    /// Stops the channel: at once for a zero fade, otherwise after `fade_frames` more
    /// rendered frames.
    pub fn stop(&mut self, fade_frames: u32) -> (a: StopAction)
        ensures
            fade_frames == 0 ==> a == StopAction::DisableNow && *final(self) == with_enabled(
                *old(self),
                false,
            ),
            fade_frames > 0 ==> a == (StopAction::FadeOut { fade_frames }) && *final(self) == (
            ChannelTransport {
                pending_stop_after_frames: Some(fade_frames as usize),
                ..*old(self)
            }),
    {
        if fade_frames == 0 {
            self.set_enabled(false);
            return StopAction::DisableNow;
        }
        self.pending_stop_after_frames = Some(fade_frames as usize);
        StopAction::FadeOut { fade_frames }
    }

    /// Records that a block of `frames` frames was rendered. Returns `true` when the
    /// block completed a pending stop, so that the source must now be disabled.
    pub fn finish_block(&mut self, frames: usize, source_finished: bool) -> (stopped: bool)
        ensures
            *final(self) == after_block(*old(self), frames as nat, source_finished),
            stopped == (old(self).pending_stop_after_frames matches Some(left) && frames >= left),
    {
        if source_finished {
            self.playback_state = PlaybackState::Ended;
        }
        match self.pending_stop_after_frames {
            Some(frames_left) => {
                if frames >= frames_left {
                    self.enabled = false;
                    self.pending_stop_after_frames = None;
                    self.playback_state = PlaybackState::Stopped;
                    true
                } else {
                    self.pending_stop_after_frames = Some(frames_left - frames);
                    false
                }
            },
            None => false,
        }
    }

    /// The playback status reported at `engine_frame`: a legacy channel reports its enabled
    /// flag; a timeline source reports its state with the timeline position and, where the
    /// source has one, its own position.
    pub fn playback_status(
        &self,
        engine_frame: u64,
        sample_rate: u32,
        source_position_frames: Option<u64>,
    ) -> (s: SourcePlaybackStatus)
        ensures
            self.playback_authority == PlaybackStatusAuthority::LegacyChannelEnabled ==> s == (
            SourcePlaybackStatus {
                state: if self.enabled {
                    PlaybackState::Playing
                } else {
                    PlaybackState::Stopped
                },
                authority: PlaybackStatusAuthority::LegacyChannelEnabled,
                timeline_position_ms: None,
                source_position_ms: None,
                loop_enabled: false,
            }),
            self.playback_authority != PlaybackStatusAuthority::LegacyChannelEnabled ==> s == (
            SourcePlaybackStatus {
                state: self.playback_state,
                authority: self.playback_authority,
                timeline_position_ms: Some(frames_in_ms(engine_frame, sample_rate)),
                source_position_ms: match source_position_frames {
                    Some(f) => Some(frames_in_ms(f, sample_rate)),
                    None => None,
                },
                loop_enabled: false,
            }),
    {
        if self.playback_authority == PlaybackStatusAuthority::LegacyChannelEnabled {
            return SourcePlaybackStatus::legacy_enabled(self.enabled);
        }
        let source_position_ms = match source_position_frames {
            Some(f) => Some(frames_to_ms(f, sample_rate)),
            None => None,
        };
        SourcePlaybackStatus {
            state: self.playback_state,
            authority: self.playback_authority,
            timeline_position_ms: Some(frames_to_ms(engine_frame, sample_rate)),
            source_position_ms,
            loop_enabled: false,
        }
    }
}

/// The transport after rendering blocks of the given sizes; a block rendered while the
/// channel is disabled changes nothing.
pub open spec fn after_blocks(t: ChannelTransport, blocks: Seq<nat>, finished: bool) -> ChannelTransport
    decreases blocks.len(),
{
    if blocks.len() == 0 {
        t
    } else {
        let prev = after_blocks(t, blocks.drop_last(), finished);
        if prev.enabled {
            after_block(prev, blocks.last(), finished)
        } else {
            prev
        }
    }
}

/// Total frames of a run of blocks.
pub open spec fn total_frames(blocks: Seq<nat>) -> nat
    decreases blocks.len(),
{
    if blocks.len() == 0 {
        0
    } else {
        total_frames(blocks.drop_last()) + blocks.last()
    }
}

/// A fading stop completes: once the channel has rendered at least the fade's length in
/// blocks, it is disabled and reports `Stopped`, whatever its source did meanwhile.
/// Before that, the countdown holds exactly the frames still to go.
pub proof fn lemma_fade_out_completes(t: ChannelTransport, blocks: Seq<nat>, finished: bool)
    requires
        t.enabled,
        t.pending_stop_after_frames matches Some(f) && f > 0,
    ensures
        ({
            let f = t.pending_stop_after_frames->0 as nat;
            let r = after_blocks(t, blocks, finished);
            &&& total_frames(blocks) >= f ==> !r.enabled && r.playback_state
                == PlaybackState::Stopped && r.pending_stop_after_frames.is_none()
            &&& total_frames(blocks) < f ==> r.enabled && r.pending_stop_after_frames == Some(
                (f - total_frames(blocks)) as usize,
            )
        }),
    decreases blocks.len(),
{
    if blocks.len() > 0 {
        lemma_fade_out_completes(t, blocks.drop_last(), finished);
    }
}

} // verus!
