use omm::features::{
    plan_offline_feature_windows, plan_stream_windows, streaming_window_samples,
    window_start_ms, OfflineFeatureConfig, HOP_SIZE,
};
use omm::sources::{
    compute_input_chunk_frames, mic_resample_plan, resampled_len, GlicolBlockCursor,
    MicSourceError, GLICOL_BLOCK_SIZE,
};

#[test]
fn invalid_constructor_inputs_return_typed_errors() {
    assert!(matches!(
        mic_resample_plan(0, 48_000, 48_000),
        Err(MicSourceError::InvalidInputChannels)
    ));
    assert!(matches!(
        mic_resample_plan(1, 0, 48_000),
        Err(MicSourceError::InvalidInputRate)
    ));
    assert!(matches!(
        mic_resample_plan(1, 48_000, 0),
        Err(MicSourceError::InvalidTargetRate)
    ));
}

#[test]
fn mic_resampling_is_planned_only_between_different_rates() {
    assert!(matches!(mic_resample_plan(2, 48_000, 48_000), Ok(None)));
    assert!(matches!(mic_resample_plan(1, 22_050, 48_000), Ok(Some(59))));
    assert_eq!(compute_input_chunk_frames(44_100, 48_000), 118);
    assert_eq!(compute_input_chunk_frames(1, 48_000), 1);
}

#[test]
fn resampled_length_rounds_up() {
    assert_eq!(resampled_len(44_100, 44_100, 48_000), 48_000);
    assert_eq!(resampled_len(3, 2, 3), 5);
    assert_eq!(resampled_len(0, 44_100, 48_000), 0);
}

fn render(cursor: &mut GlicolBlockCursor, frames: usize) -> (usize, usize) {
    let mut written = 0;
    let mut refills = 0;
    while written < frames {
        let span = cursor.next_span(frames - written);
        if span.refill {
            refills += 1;
        }
        written += span.count;
    }
    (written, refills)
}

#[test]
fn block_cursor_reuses_buffered_frames_across_short_renders() {
    let mut cursor = GlicolBlockCursor::new();
    assert_eq!(render(&mut cursor, 100), (100, 1));
    assert_eq!(cursor.buffered_len(), GLICOL_BLOCK_SIZE);
    assert_eq!(cursor.offset(), 100);
    assert_eq!(render(&mut cursor, 100), (100, 1));
    assert_eq!(cursor.buffered_len(), GLICOL_BLOCK_SIZE);
    assert_eq!(cursor.offset(), 72);
}

#[test]
fn block_cursor_renders_four_blocks_for_512_frames() {
    let mut cursor = GlicolBlockCursor::new();
    assert_eq!(render(&mut cursor, 512), (512, 4));
    assert_eq!(cursor.buffered_len(), 0);
    assert_eq!(cursor.offset(), 0);
}

#[test]
fn clearing_the_cursor_forces_a_fresh_block() {
    let mut cursor = GlicolBlockCursor::new();
    render(&mut cursor, 10);
    cursor.clear();
    let span = cursor.next_span(5);
    assert!(span.refill);
    assert_eq!(span.from, 0);
    assert_eq!(span.count, 5);
}

#[test]
fn live_windows_start_every_hop_while_a_window_fits() {
    let window = streaming_window_samples(48_000);
    assert_eq!(window, 96_000);
    assert_eq!(streaming_window_samples(0), 2);
    let (offsets, consumed) = plan_stream_windows(window + 2 * HOP_SIZE + 5, window);
    assert_eq!(offsets, vec![0, HOP_SIZE, 2 * HOP_SIZE]);
    assert_eq!(consumed, 3 * HOP_SIZE);
    let (none, nothing) = plan_stream_windows(window - 1, window);
    assert!(none.is_empty());
    assert_eq!(nothing, 0);
    let (small, all) = plan_stream_windows(1_500, 600);
    assert_eq!(small, vec![0]);
    assert_eq!(all, 1_024);
    let (tiny, everything) = plan_stream_windows(3, 1);
    assert_eq!(tiny, vec![0]);
    assert_eq!(everything, 3);
}

#[test]
fn window_starts_convert_to_milliseconds() {
    assert_eq!(window_start_ms(48_000, 48_000), 1_000);
    assert_eq!(window_start_ms(1_023, 48_000), 21);
    assert_eq!(window_start_ms(u64::MAX, 1_000), u64::MAX / 1_000);
}

#[test]
fn offline_tail_window_reports_real_duration() {
    let sample_rate = 48_000;
    let sample_count = sample_rate as usize * 5 / 2;
    let windows = plan_offline_feature_windows(
        sample_count,
        sample_rate,
        OfflineFeatureConfig {
            window_ms: 2_000,
            hop_ms: 1_500,
        },
    );

    assert_eq!(window_start_ms(windows[0].start_sample as u64, sample_rate), 0);
    assert_eq!(windows[0].duration_ms, 2_000);
    assert_eq!(window_start_ms(windows[1].start_sample as u64, sample_rate), 1_500);
    assert_eq!(windows[1].duration_ms, 1_000);
}
