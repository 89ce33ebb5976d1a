use omm::engine::{
    callback_frame_count, is_ci_env_value, parse_engine_args, supports_target_config,
    usage_text, CliCommand, OutputConfigRange, TARGET_CHANNELS, TARGET_SAMPLE_RATE,
};

#[test]
fn usage_text_lists_all_subcommands() {
    let text = usage_text();
    assert!(
        text.contains("test-tone"),
        "usage missing test-tone: {text}"
    );
    assert!(text.contains("glicol"), "usage missing glicol: {text}");
    assert!(text.contains("mix-demo"), "usage missing mix-demo: {text}");
    assert!(
        text.contains("timeline-demo"),
        "usage missing timeline-demo: {text}"
    );
    assert!(text.contains("mic-test"), "usage missing mic-test: {text}");
    assert!(
        text.contains("mic-monitor"),
        "usage missing mic-monitor: {text}"
    );
}

#[test]
fn is_ci_env_value_recognizes_true_and_one() {
    assert!(is_ci_env_value(Some("true")));
    assert!(is_ci_env_value(Some("1")));
    assert!(!is_ci_env_value(Some("false")));
    assert!(!is_ci_env_value(Some("0")));
    assert!(!is_ci_env_value(Some("")));
    assert!(!is_ci_env_value(Some("yes")));
    assert!(!is_ci_env_value(None));
}

#[test]
fn usage_text_starts_with_the_banner() {
    let text = usage_text();
    assert!(text.starts_with("oh-my-music engine\n\nUsage:\n"));
    assert!(text.ends_with("  omm-engine mic-monitor\n"));
}

fn args(list: &[&str]) -> Vec<String> {
    list.iter().map(|s| s.to_string()).collect()
}

#[test]
fn engine_arguments_select_a_command() {
    assert_eq!(parse_engine_args(&args(&["omm-engine"])), CliCommand::Usage);
    assert_eq!(parse_engine_args(&args(&["omm-engine", "test-tone"])), CliCommand::TestTone);
    assert_eq!(
        parse_engine_args(&args(&["omm-engine", "glicol"])),
        CliCommand::GlicolMissingCode
    );
    assert_eq!(
        parse_engine_args(&args(&["omm-engine", "glicol", "out: sin 440"])),
        CliCommand::Glicol { code: "out: sin 440".to_string() }
    );
    assert_eq!(parse_engine_args(&args(&["omm-engine", "mix-demo"])), CliCommand::MixDemo);
    assert_eq!(
        parse_engine_args(&args(&["omm-engine", "timeline-demo"])),
        CliCommand::TimelineDemo
    );
    assert_eq!(parse_engine_args(&args(&["omm-engine", "mic-test"])), CliCommand::MicTest);
    assert_eq!(
        parse_engine_args(&args(&["omm-engine", "mic-monitor"])),
        CliCommand::MicMonitor
    );
    assert_eq!(
        parse_engine_args(&args(&["omm-engine", "dance"])),
        CliCommand::Unknown { name: "dance".to_string() }
    );
}

#[test]
fn output_needs_a_stereo_f32_range_covering_48k() {
    let good = OutputConfigRange {
        sample_format_is_f32: true,
        channels: TARGET_CHANNELS,
        min_sample_rate: 44_100,
        max_sample_rate: 96_000,
    };
    let mono = OutputConfigRange { channels: 1, ..good };
    let int_samples = OutputConfigRange { sample_format_is_f32: false, ..good };
    let too_slow = OutputConfigRange { max_sample_rate: TARGET_SAMPLE_RATE - 1, ..good };
    assert!(!supports_target_config(&[]));
    assert!(!supports_target_config(&[mono, int_samples, too_slow]));
    assert!(supports_target_config(&[mono, good]));
}

#[test]
fn callbacks_render_whole_stereo_frames_only() {
    assert_eq!(callback_frame_count(0), None);
    assert_eq!(callback_frame_count(7), None);
    assert_eq!(callback_frame_count(1_024), Some(512));
}
