use vstd::prelude::*;
use vstd::string::StrSliceExecFns;
use vstd::string::StringExecFns;

use crate::params::SourceId;

verus! {

/// Stable identifier of an audible source instance, such as `legacy:mic`.
#[derive(Debug, Clone, PartialEq, Eq, Hash)]
pub struct SourceInstanceId(String);

impl View for SourceInstanceId {
    type V = Seq<char>;

    closed spec fn view(&self) -> Seq<char> {
        self.0@
    }
}

/// Characters an instance id may hold: ASCII letters and digits, `:`, `-`, `_` and `.`.
pub open spec fn is_instance_id_char(c: char) -> bool {
    ('a' <= c && c <= 'z') || ('A' <= c && c <= 'Z') || ('0' <= c && c <= '9') || c == ':'
        || c == '-' || c == '_' || c == '.'
}

/// A non-empty id made only of namespace-safe characters.
pub open spec fn instance_id_valid(s: Seq<char>) -> bool {
    s.len() > 0 && forall|i: int| 0 <= i < s.len() ==> is_instance_id_char(#[trigger] s[i])
}

/// The slug each fixed legacy source is known by.
pub open spec fn legacy_slug(source_id: SourceId) -> Seq<char> {
    match source_id {
        SourceId::System => "system"@,
        SourceId::Mic => "mic"@,
        SourceId::Player => "player"@,
        SourceId::Glicol => "glicol"@,
    }
}

/// Prefix reserved for the ids of fixed legacy channels.
pub open spec fn legacy_prefix() -> Seq<char> {
    "legacy:"@
}

impl SourceInstanceId {
    pub fn new(value: &str) -> (id: Self)
        ensures
            id@ == value@,
    {
        SourceInstanceId(value.to_owned())
    }

    pub fn validate(&self) -> (r: Result<(), SourceTimelineValidationError>)
        ensures
            self@.len() == 0 ==> r == Err::<(), SourceTimelineValidationError>(
                SourceTimelineValidationError::EmptySourceInstanceId,
            ),
            self@.len() > 0 && !instance_id_valid(self@) ==> (r matches Err(
                SourceTimelineValidationError::InvalidSourceInstanceId { value },
            ) && value@ == self@),
            instance_id_valid(self@) ==> r is Ok,
    {
        validate_instance_id(self.as_str())
    }

    pub fn legacy(source_id: SourceId) -> (id: Self)
        ensures
            id@ == legacy_prefix() + legacy_slug(source_id),
    {
        let prefix = String::from_str("legacy:");
        SourceInstanceId(prefix.concat(legacy_source_slug(source_id)))
    }

    pub fn as_str(&self) -> (s: &str)
        ensures
            s@ == self@,
    {
        self.0.as_str()
    }
}

#[derive(Debug, Clone, Copy, PartialEq, Eq, Hash, Structural)]
pub enum SourceKind {
    System,
    Mic,
    File,
    Generated,
}

pub open spec fn legacy_kind(source_id: SourceId) -> SourceKind {
    match source_id {
        SourceId::System => SourceKind::System,
        SourceId::Mic => SourceKind::Mic,
        SourceId::Player => SourceKind::File,
        SourceId::Glicol => SourceKind::Generated,
    }
}

impl SourceKind {
    pub fn from_legacy_source(source_id: SourceId) -> (kind: Self)
        ensures
            kind == legacy_kind(source_id),
    {
        match source_id {
            SourceId::System => SourceKind::System,
            SourceId::Mic => SourceKind::Mic,
            SourceId::Player => SourceKind::File,
            SourceId::Glicol => SourceKind::Generated,
        }
    }
}

#[derive(Debug, Clone, PartialEq, Eq)]
pub enum SourceAssetRef {
    LiveInput { label: String },
    File { uri: String, content_hash: Option<String>, duration_ms: Option<u64> },
    Generated { engine: GeneratedEngine, code_ref: Option<String> },
}

#[derive(Debug, Clone, PartialEq, Eq)]
pub enum GeneratedEngine {
    Glicol,
    Other { label: String },
}

/// One span of the timeline during which a source plays.
#[derive(Debug, Clone, Copy, PartialEq, Eq, Structural)]
pub struct TimelineActiveWindow {
    pub timeline_start_ms: u64,
    pub timeline_end_ms: Option<u64>,
    pub source_start_offset_ms: u64,
}

/// `timeline_ms` lies in `[start, end)`, where a missing end means "until forever".
pub open spec fn window_active(w: TimelineActiveWindow, timeline_ms: u64) -> bool {
    &&& w.timeline_start_ms <= timeline_ms
    &&& match w.timeline_end_ms {
        Some(end_ms) => timeline_ms < end_ms,
        None => true,
    }
}

impl TimelineActiveWindow {
    pub fn open_from_start() -> (w: Self)
        ensures
            w == (TimelineActiveWindow {
                timeline_start_ms: 0,
                timeline_end_ms: None,
                source_start_offset_ms: 0,
            }),
    {
        TimelineActiveWindow {
            timeline_start_ms: 0,
            timeline_end_ms: None,
            source_start_offset_ms: 0,
        }
    }

    pub fn validate(&self) -> (r: Result<(), SourceTimelineValidationError>)
        ensures
            r == (match self.timeline_end_ms {
                Some(end_ms) => if end_ms <= self.timeline_start_ms {
                    Err(
                        SourceTimelineValidationError::InvalidWindowRange {
                            timeline_start_ms: self.timeline_start_ms,
                            timeline_end_ms: end_ms,
                        },
                    )
                } else {
                    Ok(())
                },
                None => Ok(()),
            }),
    {
        if let Some(end_ms) = self.timeline_end_ms {
            if end_ms <= self.timeline_start_ms {
                return Err(
                    SourceTimelineValidationError::InvalidWindowRange {
                        timeline_start_ms: self.timeline_start_ms,
                        timeline_end_ms: end_ms,
                    },
                );
            }
        }
        Ok(())
    }

    pub fn is_active_at(&self, timeline_ms: u64) -> (r: bool)
        ensures
            r == window_active(*self, timeline_ms),
    {
        timeline_ms >= self.timeline_start_ms && match self.timeline_end_ms {
            Some(end_ms) => timeline_ms < end_ms,
            None => true,
        }
    }
}

/// Where on the timeline a source plays: its active windows, in order.
#[derive(Debug, Clone, PartialEq, Eq)]
pub struct SourceTimelinePlacement {
    pub active_windows: Vec<TimelineActiveWindow>,
}

/// The problem, if any, that the placement check reports at window `i`, in the order the
/// checks are made: the window's own range, ordering against the previous window, overlap
/// with the previous window, and an open end before the last window.
pub open spec fn window_error(ws: Seq<TimelineActiveWindow>, i: int) -> Option<
    SourceTimelineValidationError,
> {
    let w = ws[i];
    if w.timeline_end_ms is Some && w.timeline_end_ms->0 <= w.timeline_start_ms {
        Some(
            SourceTimelineValidationError::InvalidWindowRange {
                timeline_start_ms: w.timeline_start_ms,
                timeline_end_ms: w.timeline_end_ms->0,
            },
        )
    } else if i > 0 && w.timeline_start_ms < ws[i - 1].timeline_start_ms {
        Some(SourceTimelineValidationError::UnsortedActiveWindows)
    } else if i > 0 && ws[i - 1].timeline_end_ms is Some && w.timeline_start_ms < ws[i
        - 1].timeline_end_ms->0 {
        Some(SourceTimelineValidationError::OverlappingActiveWindows)
    } else if w.timeline_end_ms is None && i + 1 < ws.len() {
        Some(SourceTimelineValidationError::OpenEndedWindowMustBeLast)
    } else {
        None
    }
}

/// The first problem found scanning the windows from index `i` on.
pub open spec fn first_window_error(ws: Seq<TimelineActiveWindow>, i: int) -> Option<
    SourceTimelineValidationError,
>
    decreases ws.len() - i,
{
    if i < 0 || i >= ws.len() {
        None
    } else {
        match window_error(ws, i) {
            Some(e) => Some(e),
            None => first_window_error(ws, i + 1),
        }
    }
}

/// The result of checking a list of active windows.
pub open spec fn placement_validation(ws: Seq<TimelineActiveWindow>) -> Result<
    (),
    SourceTimelineValidationError,
> {
    if ws.len() == 0 {
        Err(SourceTimelineValidationError::EmptyActiveWindows)
    } else {
        match first_window_error(ws, 0) {
            Some(e) => Err(e),
            None => Ok(()),
        }
    }
}

proof fn lemma_first_error_skips_clean_prefix(ws: Seq<TimelineActiveWindow>, i: int)
    requires
        0 <= i <= ws.len(),
        forall|j: int| 0 <= j < i ==> window_error(ws, j) is None,
    ensures
        first_window_error(ws, 0) == first_window_error(ws, i),
    decreases i,
{
    if i > 0 {
        lemma_first_error_skips_clean_prefix(ws, i - 1);
    }
}

proof fn lemma_no_first_error_means_clean(ws: Seq<TimelineActiveWindow>, i: int)
    requires
        0 <= i <= ws.len(),
        first_window_error(ws, i) is None,
    ensures
        forall|j: int| i <= j < ws.len() ==> window_error(ws, j) is None,
    decreases ws.len() - i,
{
    if i < ws.len() {
        lemma_no_first_error_means_clean(ws, i + 1);
    }
}

impl SourceTimelinePlacement {
    pub fn legacy_always_on() -> (p: Self)
        ensures
            p.active_windows@ == seq![TimelineActiveWindow::open_from_start_spec()],
    {
        SourceTimelinePlacement { active_windows: vec![TimelineActiveWindow::open_from_start()] }
    }

    pub fn validate(&self) -> (r: Result<(), SourceTimelineValidationError>)
        ensures
            r == placement_validation(self.active_windows@),
    {
        let n = self.active_windows.len();
        if n == 0 {
            return Err(SourceTimelineValidationError::EmptyActiveWindows);
        }
        let ghost ws = self.active_windows@;
        let mut index: usize = 0;
        while index < n
            invariant
                n == ws.len(),
                ws == self.active_windows@,
                0 <= index <= n,
                forall|j: int| 0 <= j < index ==> window_error(ws, j) is None,
            decreases n - index,
        {
            let window = self.active_windows[index];
            let own = window.validate();
            if let Err(e) = own {
                proof {
                    lemma_first_error_skips_clean_prefix(ws, index as int);
                }
                return Err(e);
            }
            if index > 0 {
                let previous = self.active_windows[index - 1];
                if window.timeline_start_ms < previous.timeline_start_ms {
                    proof {
                        lemma_first_error_skips_clean_prefix(ws, index as int);
                    }
                    return Err(SourceTimelineValidationError::UnsortedActiveWindows);
                }
                if let Some(end_ms) = previous.timeline_end_ms {
                    if window.timeline_start_ms < end_ms {
                        proof {
                            lemma_first_error_skips_clean_prefix(ws, index as int);
                        }
                        return Err(SourceTimelineValidationError::OverlappingActiveWindows);
                    }
                }
            }
            if window.timeline_end_ms.is_none() && index + 1 < n {
                proof {
                    lemma_first_error_skips_clean_prefix(ws, index as int);
                }
                return Err(SourceTimelineValidationError::OpenEndedWindowMustBeLast);
            }
            index = index + 1;
        }
        proof {
            lemma_first_error_skips_clean_prefix(ws, n as int);
        }
        Ok(())
    }

    pub fn is_active_at(&self, timeline_ms: u64) -> (r: bool)
        ensures
            r == exists|i: int|
                0 <= i < self.active_windows@.len() && window_active(
                    #[trigger] self.active_windows@[i],
                    timeline_ms,
                ),
    {
        let n = self.active_windows.len();
        let mut index: usize = 0;
        while index < n
            invariant
                n == self.active_windows@.len(),
                0 <= index <= n,
                forall|j: int| 0 <= j < index ==> !window_active(#[trigger] self.active_windows@[j], timeline_ms),
            decreases n - index,
        {
            if self.active_windows[index].is_active_at(timeline_ms) {
                return true;
            }
            index = index + 1;
        }
        false
    }
}

impl TimelineActiveWindow {
    pub open spec fn open_from_start_spec() -> TimelineActiveWindow {
        TimelineActiveWindow { timeline_start_ms: 0, timeline_end_ms: None, source_start_offset_ms: 0 }
    }
}

/// In a placement that passes validation, every window but the last is closed, each
/// window's range is non-empty, and each window ends no later than any later window starts.
pub proof fn lemma_valid_placement_is_ordered(ws: Seq<TimelineActiveWindow>, i: int, j: int)
    requires
        placement_validation(ws) is Ok,
        0 <= i < j < ws.len(),
    ensures
        ws[i].timeline_end_ms is Some,
        ws[i].timeline_start_ms < ws[i].timeline_end_ms->0,
        ws[i].timeline_end_ms->0 <= ws[j].timeline_start_ms,
    decreases j - i,
{
    lemma_no_first_error_means_clean(ws, 0);
    assert(window_error(ws, i) is None);
    assert(window_error(ws, i + 1) is None);
    if j > i + 1 {
        lemma_valid_placement_is_ordered(ws, i + 1, j);
    }
}

/// Windows of a validated placement never overlap: at any timeline position at most one
/// of them is active.
pub proof fn lemma_valid_placement_has_one_active_window(
    ws: Seq<TimelineActiveWindow>,
    timeline_ms: u64,
    i: int,
    j: int,
)
    requires
        placement_validation(ws) is Ok,
        0 <= i < ws.len(),
        0 <= j < ws.len(),
        window_active(ws[i], timeline_ms),
        window_active(ws[j], timeline_ms),
    ensures
        i == j,
{
    if i < j {
        lemma_valid_placement_is_ordered(ws, i, j);
    } else if j < i {
        lemma_valid_placement_is_ordered(ws, j, i);
    }
}

#[derive(Debug, Clone, Copy, PartialEq, Eq, Structural)]
pub enum PlaybackState {
    Pending,
    Queued,
    Playing,
    Paused,
    Stopped,
    Ended,
    Failed,
}

#[derive(Debug, Clone, Copy, PartialEq, Eq, Structural)]
pub enum PlaybackStatusAuthority {
    TimelineTransport,
    LegacyChannelEnabled,
}

#[derive(Debug, Clone, PartialEq, Eq, Structural)]
pub struct SourcePlaybackStatus {
    pub state: PlaybackState,
    pub authority: PlaybackStatusAuthority,
    pub timeline_position_ms: Option<u64>,
    pub source_position_ms: Option<u64>,
    pub loop_enabled: bool,
}

impl SourcePlaybackStatus {
    pub fn legacy_enabled(enabled: bool) -> (s: Self)
        ensures
            s == (SourcePlaybackStatus {
                state: if enabled {
                    PlaybackState::Playing
                } else {
                    PlaybackState::Stopped
                },
                authority: PlaybackStatusAuthority::LegacyChannelEnabled,
                timeline_position_ms: None,
                source_position_ms: None,
                loop_enabled: false,
            }),
    {
        SourcePlaybackStatus {
            state: if enabled {
                PlaybackState::Playing
            } else {
                PlaybackState::Stopped
            },
            authority: PlaybackStatusAuthority::LegacyChannelEnabled,
            timeline_position_ms: None,
            source_position_ms: None,
            loop_enabled: false,
        }
    }

    pub fn playing() -> (s: Self)
        ensures
            s == (SourcePlaybackStatus {
                state: PlaybackState::Playing,
                authority: PlaybackStatusAuthority::TimelineTransport,
                timeline_position_ms: None,
                source_position_ms: None,
                loop_enabled: false,
            }),
    {
        SourcePlaybackStatus {
            state: PlaybackState::Playing,
            authority: PlaybackStatusAuthority::TimelineTransport,
            timeline_position_ms: None,
            source_position_ms: None,
            loop_enabled: false,
        }
    }

    pub fn stopped() -> (s: Self)
        ensures
            s == (SourcePlaybackStatus {
                state: PlaybackState::Stopped,
                authority: PlaybackStatusAuthority::TimelineTransport,
                timeline_position_ms: None,
                source_position_ms: None,
                loop_enabled: false,
            }),
    {
        SourcePlaybackStatus {
            state: PlaybackState::Stopped,
            authority: PlaybackStatusAuthority::TimelineTransport,
            timeline_position_ms: None,
            source_position_ms: None,
            loop_enabled: false,
        }
    }
}

#[derive(Debug, Clone, Copy, PartialEq, Eq, Structural)]
pub struct LegacySourceBridge {
    pub source_id: SourceId,
}

/// One audible stream of the timeline. `E` is the source's effect status, which the
/// timeline model carries without reading.
#[derive(Debug, Clone, PartialEq)]
pub struct TimelineSourceInstance<E> {
    pub source_instance_id: SourceInstanceId,
    pub source_kind: SourceKind,
    pub asset_ref: Option<SourceAssetRef>,
    pub timeline: SourceTimelinePlacement,
    pub playback: SourcePlaybackStatus,
    pub effects: E,
    pub legacy_bridge: Option<LegacySourceBridge>,
}

impl<E> TimelineSourceInstance<E> {
    pub fn validate(&self) -> (r: Result<(), SourceTimelineValidationError>)
        ensures
            self.source_instance_id@.len() == 0 ==> r == Err::<(), SourceTimelineValidationError>(
                SourceTimelineValidationError::EmptySourceInstanceId,
            ),
            self.source_instance_id@.len() > 0 && !instance_id_valid(self.source_instance_id@) ==> (r matches Err(
                SourceTimelineValidationError::InvalidSourceInstanceId { value },
            ) && value@ == self.source_instance_id@),
            instance_id_valid(self.source_instance_id@) ==> r == placement_validation(
                self.timeline.active_windows@,
            ),
    {
        self.source_instance_id.validate()?;
        self.timeline.validate()
    }

    pub fn legacy_channel(source_id: SourceId, playback: SourcePlaybackStatus, effects: E) -> (s:
        Self)
        ensures
            s.source_instance_id@ == legacy_prefix() + legacy_slug(source_id),
            s.source_kind == legacy_kind(source_id),
            legacy_asset_ref_matches(source_id, s.asset_ref),
            s.timeline.active_windows@ == seq![TimelineActiveWindow::open_from_start_spec()],
            s.playback == playback,
            s.effects == effects,
            s.legacy_bridge == Some(LegacySourceBridge { source_id }),
    {
        TimelineSourceInstance {
            source_instance_id: SourceInstanceId::legacy(source_id),
            source_kind: SourceKind::from_legacy_source(source_id),
            asset_ref: legacy_asset_ref(source_id),
            timeline: SourceTimelinePlacement::legacy_always_on(),
            playback,
            effects,
            legacy_bridge: Some(LegacySourceBridge { source_id }),
        }
    }
}

/// The timeline sources the engine reports at one engine frame.
#[derive(Debug, Clone, PartialEq)]
pub struct SourceTimelineSnapshot<E> {
    pub engine_frame: u64,
    pub sample_rate: u32,
    pub sources: Vec<TimelineSourceInstance<E>>,
}

#[derive(Debug, Clone, PartialEq, Eq)]
pub enum SourceTimelineValidationError {
    EmptySourceInstanceId,
    InvalidSourceInstanceId { value: String },
    EmptyActiveWindows,
    InvalidWindowRange { timeline_start_ms: u64, timeline_end_ms: u64 },
    UnsortedActiveWindows,
    OpenEndedWindowMustBeLast,
    OverlappingActiveWindows,
}

fn instance_id_char(c: char) -> (r: bool)
    ensures
        r == is_instance_id_char(c),
{
    ('a' <= c && c <= 'z') || ('A' <= c && c <= 'Z') || ('0' <= c && c <= '9') || c == ':'
        || c == '-' || c == '_' || c == '.'
}

fn validate_instance_id(value: &str) -> (r: Result<(), SourceTimelineValidationError>)
    ensures
        value@.len() == 0 ==> r == Err::<(), SourceTimelineValidationError>(
            SourceTimelineValidationError::EmptySourceInstanceId,
        ),
        value@.len() > 0 && !instance_id_valid(value@) ==> (r matches Err(
            SourceTimelineValidationError::InvalidSourceInstanceId { value: v },
        ) && v@ == value@),
        instance_id_valid(value@) ==> r is Ok,
{
    if value.is_empty() {
        return Err(SourceTimelineValidationError::EmptySourceInstanceId);
    }
    let n = value.unicode_len();
    let mut index: usize = 0;
    while index < n
        invariant
            n == value@.len(),
            0 <= index <= n,
            forall|j: int| 0 <= j < index ==> is_instance_id_char(#[trigger] value@[j]),
        decreases n - index,
    {
        let c = value.get_char(index);
        if !instance_id_char(c) {
            return Err(
                SourceTimelineValidationError::InvalidSourceInstanceId {
                    value: value.to_owned(),
                },
            );
        }
        index = index + 1;
    }
    Ok(())
}

/// What asset each legacy source points at: a live-input label, nothing for the player,
/// and the Glicol engine for generated sound.
pub open spec fn legacy_asset_ref_matches(source_id: SourceId, r: Option<SourceAssetRef>) -> bool {
    match source_id {
        SourceId::System => r matches Some(SourceAssetRef::LiveInput { label }) && label@
            == "system"@,
        SourceId::Mic => r matches Some(SourceAssetRef::LiveInput { label }) && label@ == "mic"@,
        SourceId::Player => r is None,
        SourceId::Glicol => r == Some(
            SourceAssetRef::Generated { engine: GeneratedEngine::Glicol, code_ref: None },
        ),
    }
}

pub(crate) fn legacy_asset_ref(source_id: SourceId) -> (r: Option<SourceAssetRef>)
    ensures
        legacy_asset_ref_matches(source_id, r),
{
    match source_id {
        SourceId::System => Some(SourceAssetRef::LiveInput { label: String::from_str("system") }),
        SourceId::Mic => Some(SourceAssetRef::LiveInput { label: String::from_str("mic") }),
        SourceId::Player => None,
        SourceId::Glicol => Some(
            SourceAssetRef::Generated { engine: GeneratedEngine::Glicol, code_ref: None },
        ),
    }
}

fn legacy_source_slug(source_id: SourceId) -> (slug: &'static str)
    ensures
        slug@ == legacy_slug(source_id),
{
    match source_id {
        SourceId::System => "system",
        SourceId::Mic => "mic",
        SourceId::Player => "player",
        SourceId::Glicol => "glicol",
    }
}

/// Instance ids use exactly this alphabet, by code point: the ASCII digits, upper- and
/// lower-case ASCII letters, and `-` `.` `:` `_`. Nothing else (space, `/`, non-ASCII) is
/// allowed.
pub proof fn lemma_instance_id_alphabet(c: char)
    ensures
        is_instance_id_char(c) <==> {
            let u = c as u32;
            ||| 0x30 <= u <= 0x39
            ||| 0x41 <= u <= 0x5a
            ||| 0x61 <= u <= 0x7a
            ||| u == 0x2d
            ||| u == 0x2e
            ||| u == 0x3a
            ||| u == 0x5f
        },
{
}

/// Any non-empty id spelled with ASCII letters of either case, digits and the four
/// separators passes validation; e.g. "Deck-A" is a valid id.
pub proof fn lemma_alphanumeric_ids_are_valid(s: Seq<char>)
    requires
        s.len() > 0,
        forall|i: int|
            0 <= i < s.len() ==> {
                let u = #[trigger] s[i] as u32;
                ||| 0x30 <= u <= 0x39
                ||| 0x41 <= u <= 0x5a
                ||| 0x61 <= u <= 0x7a
                ||| u == 0x2d
                ||| u == 0x2e
                ||| u == 0x3a
                ||| u == 0x5f
            },
    ensures
        instance_id_valid(s),
{
    assert forall|i: int| 0 <= i < s.len() implies is_instance_id_char(#[trigger] s[i]) by {
        lemma_instance_id_alphabet(s[i]);
    }
}

/// Every legacy id passes instance-id validation.
pub proof fn lemma_legacy_ids_are_valid(source_id: SourceId)
    ensures
        instance_id_valid(legacy_prefix() + legacy_slug(source_id)),
{
    reveal_strlit("legacy:");
    reveal_strlit("system");
    reveal_strlit("mic");
    reveal_strlit("player");
    reveal_strlit("glicol");
    let s = legacy_prefix() + legacy_slug(source_id);
    assert forall|i: int| 0 <= i < s.len() implies is_instance_id_char(#[trigger] s[i]) by {
        if i < 7 {
            assert(s[i] == legacy_prefix()[i]);
        } else {
            assert(s[i] == legacy_slug(source_id)[i - 7]);
        }
    }
}

} // verus!
