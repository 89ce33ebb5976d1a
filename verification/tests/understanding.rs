use omm::features::Trend;
use omm::understanding::{
    dominant_trend, duration_ms_for_frames, mono_samples_duration_ms, plan_beat_grid,
    plan_sections, select_section_boundaries, validate_analysis_frame_count,
    AudioUnderstandingConfig, AudioUnderstandingError, BeatGridSummary, BeatMarkerKind,
    OfflineAudioUnderstandingAnalyzer, SectionPlan, DEFAULT_MAX_ANALYSIS_DURATION_MS,
    MAX_EXPLICIT_BEAT_MARKERS, MIN_SECTION_MS,
};

const SAMPLE_RATE: u32 = 48_000;

#[test]
fn path_analysis_guard_rejects_inputs_beyond_configured_duration() {
    let err = validate_analysis_frame_count((SAMPLE_RATE as usize) * 3, SAMPLE_RATE, 2_000)
        .expect_err("duration guard should reject inputs above the configured limit");

    match err {
        AudioUnderstandingError::InputTooLong {
            duration_ms,
            max_duration_ms,
        } => {
            assert_eq!(duration_ms, 3_000);
            assert_eq!(max_duration_ms, 2_000);
        }
        other => panic!("unexpected error: {other:?}"),
    }
}

#[test]
fn analysis_guard_accepts_inputs_at_the_limit() {
    assert!(validate_analysis_frame_count((SAMPLE_RATE as usize) * 2, SAMPLE_RATE, 2_000).is_ok());
    assert!(validate_analysis_frame_count(0, SAMPLE_RATE, 0).is_ok());
}

#[test]
fn default_config_allows_fifteen_minutes_at_48k() {
    let config = AudioUnderstandingConfig::default();
    assert_eq!(config.sample_rate, 48_000);
    assert_eq!(config.max_analysis_duration_ms, 15 * 60 * 1_000);
    assert_eq!(DEFAULT_MAX_ANALYSIS_DURATION_MS, 900_000);
    assert_eq!(config.feature_config.window_ms, 2_000);
    assert_eq!(config.feature_config.hop_ms, 500);
    let analyzer = OfflineAudioUnderstandingAnalyzer::new(config);
    assert_eq!(analyzer.config(), config);
    assert!(analyzer.check_frame_count(48_000 * 900).is_ok());
    assert!(matches!(
        analyzer.check_frame_count(48_000 * 900 + 48),
        Err(AudioUnderstandingError::InputTooLong { duration_ms: 900_001, max_duration_ms: 900_000 })
    ));
}

#[test]
fn frame_durations_round_down_and_treat_zero_rate_as_one() {
    assert_eq!(duration_ms_for_frames(47_999, SAMPLE_RATE), 999);
    assert_eq!(duration_ms_for_frames(3, 0), 3_000);
    assert_eq!(mono_samples_duration_ms(24_000, SAMPLE_RATE), 500);
    assert_eq!(mono_samples_duration_ms(2, 0), 2_000);
}

#[test]
fn dominant_trend_needs_a_strict_majority_over_the_opposite() {
    assert_eq!(dominant_trend(&[]), Trend::Stable);
    assert_eq!(
        dominant_trend(&[Trend::Rising, Trend::Stable, Trend::Stable]),
        Trend::Rising
    );
    assert_eq!(
        dominant_trend(&[Trend::Rising, Trend::Falling, Trend::Falling]),
        Trend::Falling
    );
    assert_eq!(dominant_trend(&[Trend::Rising, Trend::Falling]), Trend::Stable);
}

#[test]
fn beat_grid_marks_downbeat_bars_and_phrases() {
    let (grid, summary) = plan_beat_grid(500, 8_000);
    assert_eq!(grid.len(), 17);
    assert_eq!(grid[0].kind, BeatMarkerKind::Downbeat);
    assert_eq!(grid[1].kind, BeatMarkerKind::Beat);
    assert_eq!(grid[4].kind, BeatMarkerKind::Bar);
    assert_eq!(grid[16].kind, BeatMarkerKind::Phrase);
    assert_eq!(grid[16].position_ms, 8_000);
    assert_eq!(
        summary,
        BeatGridSummary {
            interval_ms: 500,
            beat_count: 17,
            grid_start_ms: 0,
            grid_end_ms: 8_000,
            truncated: false,
        }
    );
}

#[test]
fn long_beat_grids_are_capped_and_flagged() {
    let (grid, summary) = plan_beat_grid(500, 360_000);
    assert_eq!(grid.len(), MAX_EXPLICIT_BEAT_MARKERS);
    assert_eq!(summary.beat_count, 721);
    assert!(summary.truncated);
    assert_eq!(summary.grid_end_ms, 360_000);
    assert_eq!(grid[MAX_EXPLICIT_BEAT_MARKERS - 1].position_ms, 511 * 500);
}

#[test]
fn beat_positions_reach_the_end_of_huge_grids() {
    let (grid, summary) = plan_beat_grid(u64::MAX / 2, u64::MAX - 1);
    assert_eq!(summary.beat_count, 3);
    assert_eq!(grid[1].position_ms, u64::MAX / 2);
    assert_eq!(grid[2].position_ms, u64::MAX - 1);
}

#[test]
fn section_boundaries_keep_minimum_spacing() {
    let b = select_section_boundaries(&vec![6_000, 7_000, 3_000, 9_000], 10_000);
    assert_eq!(b, vec![0, 3_000, 6_000, 10_000]);
    for pair in b.windows(2) {
        assert!(pair[1] - pair[0] >= MIN_SECTION_MS);
    }
}

#[test]
fn boundaries_too_close_to_the_ends_are_dropped() {
    assert_eq!(select_section_boundaries(&vec![1_000, 9_500], 10_000), vec![0, 10_000]);
    assert_eq!(select_section_boundaries(&vec![20_000], 10_000), vec![0, 10_000]);
}

#[test]
fn only_three_strongest_candidates_count() {
    let b = select_section_boundaries(&vec![2_000, 4_000, 6_000, 8_000], 20_000);
    assert_eq!(b, vec![0, 2_000, 4_000, 6_000, 20_000]);
}

#[test]
fn short_or_empty_tracks_form_one_section() {
    assert_eq!(plan_sections(4, &vec![1_000], 0), SectionPlan::NoSections);
    assert_eq!(plan_sections(4, &vec![1_000], 4_000), SectionPlan::Whole { end_ms: 4_000 });
    assert_eq!(plan_sections(0, &vec![3_000], 9_000), SectionPlan::Whole { end_ms: 9_000 });
    assert_eq!(
        plan_sections(4, &vec![4_000], 9_000),
        SectionPlan::Bounded(vec![0, 4_000, 9_000])
    );
}
