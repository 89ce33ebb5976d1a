use vstd::prelude::*;

use crate::features::{OfflineFeatureConfig, Trend, DEFAULT_FEATURE_WINDOW_MS};
use crate::sources::PlayerSourceError;

verus! {

/// Version of the semantic understanding document.
pub const AUDIO_UNDERSTANDING_SCHEMA_VERSION: u32 = 1;

/// Shortest section the boundary selection will create, in milliseconds.
pub const MIN_SECTION_MS: u64 = 2_000;

/// The explicit beat grid never holds more markers than this.
pub const MAX_EXPLICIT_BEAT_MARKERS: usize = 512;

/// Longest input the path analysis accepts by default (15 minutes).
pub const DEFAULT_MAX_ANALYSIS_DURATION_MS: u64 = 900_000;

/// How many of the strongest change points are considered as section boundaries.
pub const MAX_SECTION_CHANGE_CANDIDATES: usize = 3;

#[derive(Debug, Clone, Copy, PartialEq, Eq, Structural)]
pub enum EvidenceFeature {
    Dynamics,
    Spectrum,
    Rhythm,
    Texture,
    Trend,
}

#[derive(Debug, Clone, Copy, PartialEq, Eq, Structural)]
pub enum SectionLabel {
    Intro,
    Groove,
    Build,
    Break,
    Plateau,
    Outro,
}

#[derive(Debug, Clone, Copy, PartialEq, Eq, Structural)]
pub enum BeatMarkerKind {
    Beat,
    Downbeat,
    Bar,
    Phrase,
}

#[derive(Debug, Clone, Copy, PartialEq, Eq, Structural)]
pub enum MoodDescriptor {
    Bright,
    Warm,
    Dense,
    Sparse,
    Tense,
    Settled,
    Rising,
    Falling,
}

#[derive(Debug, Clone, Copy, PartialEq, Eq, Structural)]
pub enum MusicalComponent {
    Drums,
    Bass,
    Pad,
    Lead,
    VocalLike,
    NoiseTexture,
}

/// Inclusive range of feature-window indices an evidence entry covers.
#[derive(Debug, Clone, Copy, PartialEq, Eq, Structural)]
pub struct FrameRange {
    pub start_index: usize,
    pub end_index: usize,
}

/// Compact description of a regular beat grid running from `grid_start_ms` to
/// `grid_end_ms`.
#[derive(Debug, Clone, Copy, PartialEq, Eq, Structural)]
pub struct BeatGridSummary {
    pub interval_ms: u64,
    pub beat_count: u64,
    pub grid_start_ms: u64,
    pub grid_end_ms: u64,
    pub truncated: bool,
}

/// Position and kind of one explicit beat-grid marker.
#[derive(Debug, Clone, Copy, PartialEq, Eq, Structural)]
pub struct BeatSlot {
    pub position_ms: u64,
    pub kind: BeatMarkerKind,
}

#[derive(Debug, Clone, Copy, PartialEq, Eq, Structural)]
pub struct AudioUnderstandingConfig {
    pub sample_rate: u32,
    pub feature_config: OfflineFeatureConfig,
    pub max_analysis_duration_ms: u64,
}

impl Default for AudioUnderstandingConfig {
    fn default() -> (c: Self)
        ensures
            c == (AudioUnderstandingConfig {
                sample_rate: 48_000,
                feature_config: OfflineFeatureConfig {
                    window_ms: DEFAULT_FEATURE_WINDOW_MS,
                    hop_ms: 500,
                },
                max_analysis_duration_ms: DEFAULT_MAX_ANALYSIS_DURATION_MS,
            }),
    {
        AudioUnderstandingConfig {
            sample_rate: 48_000,
            feature_config: OfflineFeatureConfig::default(),
            max_analysis_duration_ms: DEFAULT_MAX_ANALYSIS_DURATION_MS,
        }
    }
}

#[derive(Debug)]
pub enum AudioUnderstandingError {
    Decode(PlayerSourceError),
    InputTooLong { duration_ms: u64, max_duration_ms: u64 },
}

/// Offline analyzer: holds the configuration that every analysis runs with.
pub struct OfflineAudioUnderstandingAnalyzer {
    config: AudioUnderstandingConfig,
}

impl OfflineAudioUnderstandingAnalyzer {
    pub closed spec fn spec_config(&self) -> AudioUnderstandingConfig {
        self.config
    }

    pub fn new(config: AudioUnderstandingConfig) -> (a: Self)
        ensures
            a.spec_config() == config,
    {
        OfflineAudioUnderstandingAnalyzer { config }
    }

    pub fn config(&self) -> (c: AudioUnderstandingConfig)
        ensures
            c == self.spec_config(),
    {
        self.config
    }

    /// Checks a decoded input of `frame_count` frames against the configured duration
    /// limit, at the configured sample rate.
    pub fn check_frame_count(&self, frame_count: usize) -> (r: Result<(), AudioUnderstandingError>)
        ensures
            r matches Ok(()) <==> duration_ms_of_frames(frame_count as nat, self.spec_config().sample_rate)
                <= self.spec_config().max_analysis_duration_ms,
            r matches Err(AudioUnderstandingError::InputTooLong { duration_ms, max_duration_ms })
                ==> duration_ms == duration_ms_of_frames(frame_count as nat, self.spec_config().sample_rate)
                && max_duration_ms == self.spec_config().max_analysis_duration_ms,
            !(r matches Err(AudioUnderstandingError::Decode(_))),
    {
        validate_analysis_frame_count(
            frame_count,
            self.config.sample_rate,
            self.config.max_analysis_duration_ms,
        )
    }
}

/// Milliseconds covered by `frames` frames at `sample_rate` (a rate of zero counts as
/// one), rounded down and capped at `u64::MAX`.
pub open spec fn duration_ms_of_frames(frames: nat, sample_rate: u32) -> nat {
    let rate: nat = if sample_rate == 0 { 1 } else { sample_rate as nat };
    let ms = frames * 1000 / rate;
    if ms > u64::MAX { u64::MAX as nat } else { ms }
}

pub fn duration_ms_for_frames(frame_count: usize, sample_rate: u32) -> (ms: u64)
    ensures
        ms == duration_ms_of_frames(frame_count as nat, sample_rate),
{
    let rate: u128 = if sample_rate == 0 { 1 } else { sample_rate as u128 };
    assert(frame_count as u128 * 1000 <= 0xffff_ffff_ffff_ffffu128 * 1000) by (nonlinear_arith)
        requires
            frame_count <= 0xffff_ffff_ffff_ffffu64,
    ;
    let total: u128 = frame_count as u128 * 1000;
    let ms: u128 = total / rate;
    if ms > u64::MAX as u128 {
        u64::MAX
    } else {
        ms as u64
    }
}

/// Rejects inputs whose duration exceeds `max_duration_ms`, reporting both numbers.
pub fn validate_analysis_frame_count(frame_count: usize, sample_rate: u32, max_duration_ms: u64) -> (r:
    Result<(), AudioUnderstandingError>)
    ensures
        r matches Ok(()) <==> duration_ms_of_frames(frame_count as nat, sample_rate) <= max_duration_ms,
        r matches Err(AudioUnderstandingError::InputTooLong { duration_ms, max_duration_ms: m })
            ==> duration_ms == duration_ms_of_frames(frame_count as nat, sample_rate) && m
            == max_duration_ms,
        !(r matches Err(AudioUnderstandingError::Decode(_))),
{
    let duration_ms = duration_ms_for_frames(frame_count, sample_rate);
    if duration_ms > max_duration_ms {
        return Err(AudioUnderstandingError::InputTooLong { duration_ms, max_duration_ms });
    }
    Ok(())
}

/// Milliseconds covered by `samples` mono samples at `sample_rate` (zero counts as one).
pub open spec fn mono_duration_ms(samples: nat, sample_rate: u32) -> nat {
    let rate: nat = if sample_rate == 0 { 1 } else { sample_rate as nat };
    samples * 1000 / rate
}

pub fn mono_samples_duration_ms(sample_count: usize, sample_rate: u32) -> (ms: u64)
    requires
        sample_count * 1000 <= u64::MAX,
    ensures
        ms == mono_duration_ms(sample_count as nat, sample_rate),
{
    let rate: u64 = if sample_rate == 0 { 1 } else { sample_rate as u64 };
    (sample_count as u64 * 1000) / rate
}

/// Number of entries of `trends` equal to `t`.
pub open spec fn trend_count(trends: Seq<Trend>, t: Trend) -> nat
    decreases trends.len(),
{
    if trends.len() == 0 {
        0
    } else {
        trend_count(trends.drop_last(), t) + if trends.last() == t { 1nat } else { 0nat }
    }
}

/// The trend that occurs strictly more often than the opposite one; stable on a tie.
pub open spec fn dominant(trends: Seq<Trend>) -> Trend {
    let rising = trend_count(trends, Trend::Rising);
    let falling = trend_count(trends, Trend::Falling);
    if rising > falling {
        Trend::Rising
    } else if falling > rising {
        Trend::Falling
    } else {
        Trend::Stable
    }
}

proof fn lemma_trend_count_bounded(trends: Seq<Trend>, t: Trend)
    ensures
        trend_count(trends, t) <= trends.len(),
    decreases trends.len(),
{
    if trends.len() > 0 {
        lemma_trend_count_bounded(trends.drop_last(), t);
    }
}

pub fn dominant_trend(trends: &[Trend]) -> (t: Trend)
    ensures
        t == dominant(trends@),
{
    let mut rising: usize = 0;
    let mut falling: usize = 0;
    let mut i: usize = 0;
    while i < trends.len()
        invariant
            0 <= i <= trends.len(),
            rising == trend_count(trends@.subrange(0, i as int), Trend::Rising),
            falling == trend_count(trends@.subrange(0, i as int), Trend::Falling),
        decreases trends.len() - i,
    {
        proof {
            let s = trends@.subrange(0, i as int + 1);
            assert(s.drop_last() =~= trends@.subrange(0, i as int));
            lemma_trend_count_bounded(trends@.subrange(0, i as int), Trend::Rising);
            lemma_trend_count_bounded(trends@.subrange(0, i as int), Trend::Falling);
        }
        match trends[i] {
            Trend::Rising => rising = rising + 1,
            Trend::Falling => falling = falling + 1,
            Trend::Stable => {},
        }
        i = i + 1;
    }
    assert(trends@.subrange(0, trends.len() as int) =~= trends@);
    if rising > falling && rising > 0 {
        Trend::Rising
    } else if falling > rising && falling > 0 {
        Trend::Falling
    } else {
        Trend::Stable
    }
}

/// Kind of the explicit marker at `index`: the first beat is the downbeat, every
/// sixteenth beat opens a phrase, every fourth a bar.
pub open spec fn beat_kind(index: nat) -> BeatMarkerKind {
    if index == 0 {
        BeatMarkerKind::Downbeat
    } else if index % 16 == 0 {
        BeatMarkerKind::Phrase
    } else if index % 4 == 0 {
        BeatMarkerKind::Bar
    } else {
        BeatMarkerKind::Beat
    }
}

/// Marker kinds by beat index: only the first beat is the downbeat; every later
/// sixteenth beat opens a phrase; every other fourth beat starts a bar; every beat that is
/// not a multiple of four is a plain beat.
pub proof fn lemma_beat_kinds_follow_the_meter(index: nat)
    ensures
        beat_kind(index) is Downbeat <==> index == 0,
        beat_kind(index) is Phrase <==> index > 0 && index % 16 == 0,
        beat_kind(index) is Bar <==> index % 4 == 0 && index % 16 != 0,
        beat_kind(index) is Beat <==> index % 4 != 0,
{
    if index % 16 == 0 {
        assert(index % 4 == 0) by (nonlinear_arith)
            requires
                index % 16 == 0,
        ;
    }
}

/// Beats on a grid of `interval_ms` through `duration_ms`, the one at zero included.
pub open spec fn grid_beat_count(interval_ms: u64, duration_ms: u64) -> nat {
    (duration_ms / interval_ms + 1) as nat
}

/// Number of explicit markers: the beat count, capped.
pub open spec fn explicit_marker_count(interval_ms: u64, duration_ms: u64) -> nat {
    let n = grid_beat_count(interval_ms, duration_ms);
    if n > MAX_EXPLICIT_BEAT_MARKERS { MAX_EXPLICIT_BEAT_MARKERS as nat } else { n }
}

/// Lays a beat grid of `interval_ms` over `duration_ms`: the explicit markers (at most
/// `MAX_EXPLICIT_BEAT_MARKERS`) and the summary that extends them to the end.
pub fn plan_beat_grid(interval_ms: u64, duration_ms: u64) -> (r: (Vec<BeatSlot>, BeatGridSummary))
    requires
        interval_ms >= 1,
        duration_ms / interval_ms < u64::MAX,
    ensures
        r.0.len() == explicit_marker_count(interval_ms, duration_ms),
        forall|i: int|
            0 <= i < r.0.len() ==> (#[trigger] r.0[i]).position_ms == interval_ms * i
                && r.0[i].position_ms <= duration_ms && r.0[i].kind == beat_kind(i as nat),
        r.1 == (BeatGridSummary {
            interval_ms,
            beat_count: grid_beat_count(interval_ms, duration_ms) as u64,
            grid_start_ms: 0,
            grid_end_ms: duration_ms,
            truncated: grid_beat_count(interval_ms, duration_ms) > MAX_EXPLICIT_BEAT_MARKERS,
        }),
{
    let beat_count: u64 = duration_ms / interval_ms + 1;
    let explicit: u64 = if beat_count > MAX_EXPLICIT_BEAT_MARKERS as u64 {
        MAX_EXPLICIT_BEAT_MARKERS as u64
    } else {
        beat_count
    };
    let mut grid: Vec<BeatSlot> = Vec::new();
    let mut index: u64 = 0;
    while index < explicit
        invariant
            explicit == explicit_marker_count(interval_ms, duration_ms),
            explicit <= MAX_EXPLICIT_BEAT_MARKERS,
            0 <= index <= explicit,
            grid.len() == index,
            interval_ms >= 1,
            explicit <= duration_ms / interval_ms + 1,
            forall|i: int|
                0 <= i < grid.len() ==> (#[trigger] grid[i]).position_ms == interval_ms * i
                    && grid[i].position_ms <= duration_ms && grid[i].kind == beat_kind(i as nat),
        decreases explicit - index,
    {
        assert(interval_ms * index <= duration_ms) by (nonlinear_arith)
            requires
                index < explicit,
                explicit <= duration_ms / interval_ms + 1,
                interval_ms >= 1,
        ;
        let position_ms = interval_ms * index;
        let kind = if index == 0 {
            BeatMarkerKind::Downbeat
        } else if index % 16 == 0 {
            BeatMarkerKind::Phrase
        } else if index % 4 == 0 {
            BeatMarkerKind::Bar
        } else {
            BeatMarkerKind::Beat
        };
        grid.push(BeatSlot { position_ms, kind });
        index = index + 1;
    }
    let summary = BeatGridSummary {
        interval_ms,
        beat_count,
        grid_start_ms: 0,
        grid_end_ms: duration_ms,
        truncated: beat_count > explicit,
    };
    (grid, summary)
}

/// Distance between two millisecond positions.
pub open spec fn ms_gap(a: u64, b: u64) -> nat {
    if a >= b { (a - b) as nat } else { (b - a) as nat }
}

/// Whether `boundary` may split a track of `duration_ms` already split at `accepted`:
/// it leaves `MIN_SECTION_MS` on both ends and keeps that distance from every boundary.
pub open spec fn boundary_acceptable(boundary: u64, duration_ms: u64, accepted: Seq<u64>) -> bool {
    &&& boundary >= MIN_SECTION_MS
    &&& duration_ms - boundary >= MIN_SECTION_MS
    &&& forall|k: int| 0 <= k < accepted.len() ==> ms_gap(#[trigger] accepted[k], boundary) >= MIN_SECTION_MS
}

/// The boundaries after the first `k` candidates, in the order they were accepted: the
/// track's two ends, then each candidate (clamped to the track) that is acceptable.
pub open spec fn accepted_boundaries(candidates: Seq<u64>, duration_ms: u64, k: nat) -> Seq<u64>
    decreases k,
{
    if k == 0 {
        seq![0u64, duration_ms]
    } else {
        let prev = accepted_boundaries(candidates, duration_ms, (k - 1) as nat);
        let c = candidates[k - 1];
        let b = if c < duration_ms { c } else { duration_ms };
        if boundary_acceptable(b, duration_ms, prev) {
            prev.push(b)
        } else {
            prev
        }
    }
}

/// How many leading candidates are considered.
pub open spec fn considered_candidates(candidates: Seq<u64>) -> nat {
    if candidates.len() > MAX_SECTION_CHANGE_CANDIDATES {
        MAX_SECTION_CHANGE_CANDIDATES as nat
    } else {
        candidates.len()
    }
}

/// Distance from `s[i]` up to the next element.
pub open spec fn adjacent_gap(s: Seq<u64>, i: int) -> int {
    s[i + 1] - s[i]
}

/// Whether `s` is strictly increasing.
pub open spec fn strictly_increasing(s: Seq<u64>) -> bool {
    forall|i: int, j: int| 0 <= i < j < s.len() ==> s[i] < s[j]
}

/// Every boundary accepted after the track's two ends lies `MIN_SECTION_MS` inside the
/// track and keeps that distance from every boundary accepted before it.
proof fn lemma_accepted_spacing(candidates: Seq<u64>, duration_ms: u64, k: nat)
    requires
        k <= candidates.len(),
    ensures
        accepted_boundaries(candidates, duration_ms, k).len() >= 2,
        accepted_boundaries(candidates, duration_ms, k)[0] == 0,
        accepted_boundaries(candidates, duration_ms, k)[1] == duration_ms,
        forall|i: int|
            2 <= i < accepted_boundaries(candidates, duration_ms, k).len() ==> (
            #[trigger] accepted_boundaries(candidates, duration_ms, k)[i]) >= MIN_SECTION_MS
                && duration_ms - accepted_boundaries(candidates, duration_ms, k)[i] >= MIN_SECTION_MS,
        forall|i: int, j: int|
            0 <= i < j < accepted_boundaries(candidates, duration_ms, k).len() && j >= 2 ==> ms_gap(
                #[trigger] accepted_boundaries(candidates, duration_ms, k)[i],
                #[trigger] accepted_boundaries(candidates, duration_ms, k)[j],
            ) >= MIN_SECTION_MS,
    decreases k,
{
    if k > 0 {
        lemma_accepted_spacing(candidates, duration_ms, (k - 1) as nat);
        let prev = accepted_boundaries(candidates, duration_ms, (k - 1) as nat);
        let a = accepted_boundaries(candidates, duration_ms, k);
        assert forall|i: int, j: int| 0 <= i < j < a.len() && j >= 2 implies ms_gap(
            #[trigger] a[i],
            #[trigger] a[j],
        ) >= MIN_SECTION_MS by {
            if j < prev.len() {
                assert(a[i] == prev[i] && a[j] == prev[j]);
            } else {
                assert(a[i] == prev[i]);
            }
        }
    }
}

/// Section boundaries of a track of `duration_ms`, from candidate change points given
/// strongest first: the accepted boundaries in increasing order, each once.
#[verifier::rlimit(50)]
#[verifier::spinoff_prover]
pub fn select_section_boundaries(candidates: &Vec<u64>, duration_ms: u64) -> (b: Vec<u64>)
    ensures
        strictly_increasing(b@),
        forall|x: u64|
            b@.contains(x) <==> accepted_boundaries(
                candidates@,
                duration_ms,
                considered_candidates(candidates@),
            ).contains(x),
        1 <= b@.len() <= 2 + MAX_SECTION_CHANGE_CANDIDATES,
        b@[0] == 0,
        b@[b@.len() - 1] == duration_ms,
        b@.len() > 2 ==> forall|i: int|
            0 <= i < b@.len() - 1 ==> #[trigger] adjacent_gap(b@, i) >= MIN_SECTION_MS,
{
    let mut out: Vec<u64> = Vec::new();
    out.push(0);
    if duration_ms > 0 {
        out.push(duration_ms);
    }
    let limit: usize = if candidates.len() > MAX_SECTION_CHANGE_CANDIDATES {
        MAX_SECTION_CHANGE_CANDIDATES
    } else {
        candidates.len()
    };
    let ghost mut acc: Seq<u64> = seq![0u64, duration_ms];
    proof {
        assert(acc =~= accepted_boundaries(candidates@, duration_ms, 0));
        assert forall|x: u64| out@.contains(x) <==> acc.contains(x) by {
            if acc.contains(x) {
                let k = choose|k: int| 0 <= k < acc.len() && acc[k] == x;
                if k == 0 {
                    assert(out@[0] == x);
                } else {
                    assert(out@[out@.len() - 1] == x);
                }
            }
            if out@.contains(x) {
                let k = choose|k: int| 0 <= k < out@.len() && out@[k] == x;
                assert(acc[0] == 0 && acc[1] == duration_ms);
                if k == 0 {
                    assert(acc[0] == x);
                } else {
                    assert(acc[1] == x);
                }
            }
        }
    }
    let mut i: usize = 0;
    while i < limit
        invariant
            limit == considered_candidates(candidates@),
            limit <= candidates.len(),
            0 <= i <= limit,
            acc == accepted_boundaries(candidates@, duration_ms, i as nat),
            out@.len() <= acc.len() <= 2 + i,
            strictly_increasing(out@),
            forall|x: u64| out@.contains(x) <==> acc.contains(x),
        decreases limit - i,
    {
        let c = candidates[i];
        let boundary = if c < duration_ms { c } else { duration_ms };
        let mut acceptable = boundary >= MIN_SECTION_MS && duration_ms - boundary >= MIN_SECTION_MS;
        let mut j: usize = 0;
        while j < out.len()
            invariant
                0 <= j <= out.len(),
                acceptable ==> forall|k: int| 0 <= k < j ==> ms_gap(#[trigger] out@[k], boundary) >= MIN_SECTION_MS,
                (acceptable || !(boundary >= MIN_SECTION_MS && duration_ms - boundary >= MIN_SECTION_MS))
                    || exists|k: int| 0 <= k < j && ms_gap(#[trigger] out@[k], boundary) < MIN_SECTION_MS,
                !(boundary >= MIN_SECTION_MS && duration_ms - boundary >= MIN_SECTION_MS) ==> !acceptable,
            decreases out.len() - j,
        {
            let e = out[j];
            let gap = if e >= boundary { e - boundary } else { boundary - e };
            if gap < MIN_SECTION_MS {
                acceptable = false;
            }
            j = j + 1;
        }
        proof {
            if acceptable {
                assert forall|k: int| 0 <= k < acc.len() implies ms_gap(#[trigger] acc[k], boundary) >= MIN_SECTION_MS by {
                    assert(acc.contains(acc[k]));
                    assert(out@.contains(acc[k]));
                    let m = choose|m: int| 0 <= m < out@.len() && out@[m] == acc[k];
                    assert(ms_gap(out@[m], boundary) >= MIN_SECTION_MS);
                }
                assert(boundary_acceptable(boundary, duration_ms, acc));
            } else if boundary >= MIN_SECTION_MS && duration_ms - boundary >= MIN_SECTION_MS {
                let m = choose|m: int| 0 <= m < out@.len() && ms_gap(#[trigger] out@[m], boundary) < MIN_SECTION_MS;
                assert(out@.contains(out@[m]));
                assert(acc.contains(out@[m]));
                let k = choose|k: int| 0 <= k < acc.len() && acc[k] == out@[m];
                assert(ms_gap(acc[k], boundary) < MIN_SECTION_MS);
                assert(!boundary_acceptable(boundary, duration_ms, acc));
            }
        }
        if acceptable {
            let mut pos: usize = 0;
            while pos < out.len() && out[pos] < boundary
                invariant
                    0 <= pos <= out.len(),
                    forall|k: int| 0 <= k < pos ==> out@[k] < boundary,
                decreases out.len() - pos,
            {
                pos = pos + 1;
            }
            let ghost old_out = out@;
            proof {
                if pos < out.len() {
                    assert(ms_gap(out@[pos as int], boundary) >= MIN_SECTION_MS);
                    assert(out@[pos as int] > boundary);
                }
            }
            out.insert(pos, boundary);
            proof {
                assert forall|a: int, z: int| 0 <= a < z < out@.len() implies out@[a] < out@[z] by {
                    if z < pos {
                    } else if z == pos {
                    } else if a < pos {
                        assert(out@[z] == old_out[z - 1]);
                        if pos < old_out.len() {
                            assert(old_out[pos as int] <= old_out[z - 1]);
                        }
                    } else if a == pos {
                        assert(out@[z] == old_out[z - 1]);
                        assert(old_out[pos as int] <= old_out[z - 1]);
                        assert(old_out[pos as int] > boundary);
                    } else {
                        assert(out@[z] == old_out[z - 1]);
                        assert(out@[a] == old_out[a - 1]);
                    }
                }
                let new_acc = acc.push(boundary);
                assert forall|x: u64| out@.contains(x) <==> new_acc.contains(x) by {
                    if out@.contains(x) {
                        let k = choose|k: int| 0 <= k < out@.len() && out@[k] == x;
                        if k < pos {
                            assert(old_out.contains(x));
                        } else if k > pos {
                            assert(old_out[k - 1] == x);
                            assert(old_out.contains(x));
                        } else {
                            assert(new_acc[acc.len() as int] == x);
                        }
                        if x != boundary {
                            assert(acc.contains(x));
                            let q = choose|q: int| 0 <= q < acc.len() && acc[q] == x;
                            assert(new_acc[q] == x);
                        } else {
                            assert(new_acc[acc.len() as int] == x);
                        }
                    }
                    if new_acc.contains(x) {
                        let q = choose|q: int| 0 <= q < new_acc.len() && new_acc[q] == x;
                        if q < acc.len() {
                            assert(acc[q] == x);
                            assert(acc.contains(x));
                            assert(old_out.contains(x));
                            let m = choose|m: int| 0 <= m < old_out.len() && old_out[m] == x;
                            if m < pos {
                                assert(out@[m] == x);
                            } else {
                                assert(out@[m + 1] == x);
                            }
                        } else {
                            assert(out@[pos as int] == x);
                        }
                    }
                }
                acc = new_acc;
            }
        }
        i = i + 1;
    }
    proof {
        lemma_accepted_spacing(candidates@, duration_ms, limit as nat);
        assert(acc.contains(acc[0]));
        assert(acc.contains(acc[1]));
        let m0 = choose|m: int| 0 <= m < out@.len() && out@[m] == 0u64;
        let m1 = choose|m: int| 0 <= m < out@.len() && out@[m] == duration_ms;
        let last = out@.len() - 1;
        assert(out@.contains(out@[0]));
        assert(out@.contains(out@[last]));
        assert(out@[0] <= out@[m0]);
        assert(out@[last] >= out@[m1]);
        assert(acc.contains(out@[last]));
        let q = choose|q: int| 0 <= q < acc.len() && acc[q] == out@[last];
        if q >= 2 {
            assert(acc[q] <= duration_ms);
        }
        if out@.len() > 2 {
            assert forall|i: int| 0 <= i < out@.len() - 1 implies #[trigger] adjacent_gap(out@, i) >= MIN_SECTION_MS by {
                assert(out@.contains(out@[i]));
                assert(out@.contains(out@[i + 1]));
                assert(acc.contains(out@[i]));
                assert(acc.contains(out@[i + 1]));
                let p = choose|p: int| 0 <= p < acc.len() && acc[p] == out@[i];
                let r = choose|r: int| 0 <= r < acc.len() && acc[r] == out@[i + 1];
                if p < r && r >= 2 {
                    assert(ms_gap(acc[p], acc[r]) >= MIN_SECTION_MS);
                } else if r < p && p >= 2 {
                    assert(ms_gap(acc[r], acc[p]) >= MIN_SECTION_MS);
                } else {
                    assert(p == 0 && r == 1);
                    let other: int = if i == 0 { 2 } else { 0 };
                    assert(out@.contains(out@[other]));
                    assert(acc.contains(out@[other]));
                    let t = choose|t: int| 0 <= t < acc.len() && acc[t] == out@[other];
                    if t >= 2 {
                        assert(acc[t] >= MIN_SECTION_MS && duration_ms - acc[t] >= MIN_SECTION_MS);
                    }
                    if other == 2 {
                        assert(out@[2] > out@[1]);
                    } else {
                        assert(out@[0] < out@[i]);
                    }
                }
            }
        }
    }
    out
}

/// How a track is divided into sections.
#[derive(Debug, Clone, PartialEq, Eq)]
pub enum SectionPlan {
    /// An empty track has no sections.
    NoSections,
    /// One section covers the whole track, from zero to `end_ms`.
    Whole { end_ms: u64 },
    /// Sections run between consecutive boundaries.
    Bounded(Vec<u64>),
}

/// Divides a track of `duration_ms` analysed in `feature_frame_count` windows, given the
/// window start of each change point, strongest first. Tracks too short for two
/// sections of `MIN_SECTION_MS`, or without feature windows, form one section.
pub fn plan_sections(feature_frame_count: usize, change_starts: &Vec<u64>, duration_ms: u64) -> (p:
    SectionPlan)
    ensures
        duration_ms == 0 ==> p == SectionPlan::NoSections,
        duration_ms > 0 && (feature_frame_count == 0 || duration_ms <= 2 * MIN_SECTION_MS) ==> p
            == (SectionPlan::Whole { end_ms: duration_ms }),
        duration_ms > 0 && feature_frame_count > 0 && duration_ms > 2 * MIN_SECTION_MS ==> (
        p matches SectionPlan::Bounded(b) && strictly_increasing(b@) && 2 <= b@.len() <= 2
            + MAX_SECTION_CHANGE_CANDIDATES && b@[0] == 0 && b@[b@.len() - 1] == duration_ms && (
        forall|i: int| 0 <= i < b@.len() - 1 ==> #[trigger] adjacent_gap(b@, i) >= MIN_SECTION_MS)
            && (forall|x: u64|
            b@.contains(x) <==> accepted_boundaries(
                change_starts@,
                duration_ms,
                considered_candidates(change_starts@),
            ).contains(x))),
{
    if duration_ms == 0 {
        return SectionPlan::NoSections;
    }
    if feature_frame_count == 0 || duration_ms <= 2 * MIN_SECTION_MS {
        return SectionPlan::Whole { end_ms: duration_ms };
    }
    let b = select_section_boundaries(change_starts, duration_ms);
    proof {
        if b@.len() == 2 {
            assert(adjacent_gap(b@, 0) == duration_ms);
        }
    }
    SectionPlan::Bounded(b)
}

/// One piece of evidence the understanding cites: `F` is the type of its strength.
#[derive(Debug, Clone, PartialEq)]
pub struct EvidenceEntry<F> {
    pub id: String,
    pub feature: EvidenceFeature,
    pub frame_range: FrameRange,
    pub summary: String,
    pub strength: F,
}

/// Ids of the entries about one of `features`, in entry order.
pub open spec fn cited_ids<F>(entries: Seq<EvidenceEntry<F>>, features: Seq<EvidenceFeature>) -> Seq<Seq<char>>
    decreases entries.len(),
{
    if entries.len() == 0 {
        Seq::empty()
    } else {
        let rest = cited_ids(entries.drop_last(), features);
        if features.contains(entries.last().feature) {
            rest.push(entries.last().id@)
        } else {
            rest
        }
    }
}

/// Evidence cited for `features` is exactly the ids of the entries about one of them, in
/// entry order: keeping those entries and taking their ids.
pub proof fn lemma_cited_ids_are_the_matching_entries<F>(
    entries: Seq<EvidenceEntry<F>>,
    features: Seq<EvidenceFeature>,
)
    ensures
        cited_ids(entries, features) == entries.filter(
            |e: EvidenceEntry<F>| features.contains(e.feature),
        ).map_values(|e: EvidenceEntry<F>| e.id@),
    decreases entries.len(),
{
    let pred = |e: EvidenceEntry<F>| features.contains(e.feature);
    let id_of = |e: EvidenceEntry<F>| e.id@;
    reveal(Seq::filter);
    if entries.len() > 0 {
        lemma_cited_ids_are_the_matching_entries(entries.drop_last(), features);
        let kept = entries.drop_last().filter(pred);
        assert(entries.filter(pred) == if pred(entries.last()) {
            kept.push(entries.last())
        } else {
            kept
        });
        assert(kept.push(entries.last()).map_values(id_of) =~= kept.map_values(id_of).push(
            entries.last().id@,
        ));
    } else {
        assert(entries.filter(pred) =~= Seq::<EvidenceEntry<F>>::empty());
        assert(entries.filter(pred).map_values(id_of) =~= Seq::<Seq<char>>::empty());
    }
}

/// Entry `j` is about one of `features` and has id `id`.
pub open spec fn entry_cites<F>(
    entries: Seq<EvidenceEntry<F>>,
    features: Seq<EvidenceFeature>,
    j: int,
    id: Seq<char>,
) -> bool {
    0 <= j < entries.len() && features.contains(entries[j].feature) && entries[j].id@ == id
}

/// Some entry about one of `features` has id `id`.
pub open spec fn cited_by_some_entry<F>(
    entries: Seq<EvidenceEntry<F>>,
    features: Seq<EvidenceFeature>,
    id: Seq<char>,
) -> bool {
    exists|j: int| entry_cites(entries, features, j, id)
}

/// The index of an entry behind the `k`-th cited id.
proof fn cited_entry_index<F>(entries: Seq<EvidenceEntry<F>>, features: Seq<EvidenceFeature>, k: int) -> (j: int)
    requires
        0 <= k < cited_ids(entries, features).len(),
    ensures
        entry_cites(entries, features, j, cited_ids(entries, features)[k]),
    decreases entries.len(),
{
    let init = entries.drop_last();
    let rest = cited_ids(init, features);
    let c = cited_ids(entries, features);
    if k < rest.len() {
        assert(c[k] == rest[k]);
        let j = cited_entry_index(init, features, k);
        assert(entries[j] == init[j]);
        j
    } else {
        let j = entries.len() - 1;
        assert(features.contains(entries.last().feature));
        assert(c == rest.push(entries.last().id@));
        assert(entries[j] == entries.last());
        j
    }
}

/// Every cited id comes from an entry about one of `features`, and every such entry's id
/// is cited.
pub proof fn lemma_cited_ids_are_sound_and_complete<F>(
    entries: Seq<EvidenceEntry<F>>,
    features: Seq<EvidenceFeature>,
)
    ensures
        forall|k: int|
            0 <= k < cited_ids(entries, features).len() ==> cited_by_some_entry(
                entries,
                features,
                #[trigger] cited_ids(entries, features)[k],
            ),
        forall|j: int|
            0 <= j < entries.len() && features.contains(#[trigger] entries[j].feature) ==> cited_ids(
                entries,
                features,
            ).contains(entries[j].id@),
    decreases entries.len(),
{
    assert forall|k: int| 0 <= k < cited_ids(entries, features).len() implies cited_by_some_entry(
        entries,
        features,
        #[trigger] cited_ids(entries, features)[k],
    ) by {
        let j = cited_entry_index(entries, features, k);
    }
    if entries.len() > 0 {
        let init = entries.drop_last();
        lemma_cited_ids_are_sound_and_complete(init, features);
        let rest = cited_ids(init, features);
        let c = cited_ids(entries, features);
        assert forall|j: int|
            0 <= j < entries.len() && features.contains(#[trigger] entries[j].feature) implies c.contains(
            entries[j].id@,
        ) by {
            if j < init.len() {
                assert(entries[j] == init[j]);
                assert(features.contains(init[j].feature));
                assert(rest.contains(init[j].id@));
                let m = choose|m: int| 0 <= m < rest.len() && rest[m] == init[j].id@;
                assert(c[m] == rest[m]);
            } else {
                assert(entries[j] == entries.last());
                assert(c[c.len() - 1] == entries[j].id@);
            }
        }
    }
}

/// The ids of the evidence entries about any of `features`, in the order of the entries.
pub fn evidence_ids<F>(entries: &Vec<EvidenceEntry<F>>, features: &[EvidenceFeature]) -> (ids: Vec<String>)
    ensures
        ids@.len() == cited_ids(entries@, features@).len(),
        forall|i: int| 0 <= i < ids@.len() ==> (#[trigger] ids@[i])@ == cited_ids(entries@, features@)[i],
{
    let mut ids: Vec<String> = Vec::new();
    let mut i: usize = 0;
    while i < entries.len()
        invariant
            0 <= i <= entries@.len(),
            ids@.len() == cited_ids(entries@.subrange(0, i as int), features@).len(),
            forall|k: int|
                0 <= k < ids@.len() ==> (#[trigger] ids@[k])@ == cited_ids(
                    entries@.subrange(0, i as int),
                    features@,
                )[k],
        decreases entries.len() - i,
    {
        let entry = &entries[i];
        let mut wanted = false;
        let mut j: usize = 0;
        while j < features.len()
            invariant
                0 <= j <= features@.len(),
                wanted == exists|k: int| 0 <= k < j && features@[k] == entry.feature,
            decreases features.len() - j,
        {
            if features[j] == entry.feature {
                wanted = true;
            }
            j = j + 1;
        }
        proof {
            let s = entries@.subrange(0, i as int + 1);
            assert(s.drop_last() =~= entries@.subrange(0, i as int));
            assert(s.last() == entries@[i as int]);
            if wanted {
                let k = choose|k: int| 0 <= k < features@.len() && features@[k] == entry.feature;
                assert(features@.contains(entry.feature));
            }
        }
        if wanted {
            ids.push(entry.id.clone());
        }
        i = i + 1;
    }
    assert(entries@.subrange(0, entries@.len() as int) =~= entries@);
    ids
}

} // verus!
