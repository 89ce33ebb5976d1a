use vstd::prelude::*;
use vstd::string::StringExecFns;

use crate::text::same_text;

verus! {

/// Sample rate the output stream is opened at.
pub const TARGET_SAMPLE_RATE: u32 = 48_000;

/// Channel count of the output stream (interleaved stereo).
pub const TARGET_CHANNELS: u16 = 2;

#[derive(Debug, Clone, PartialEq, Eq)]
pub enum CpalOutputError {
    NoDevice,
    UnsupportedConfig(String),
    BuildStream(String),
    StartStream(String),
}

/// The help text, line by line.
pub open spec fn usage_spec() -> Seq<char> {
    "oh-my-music engine\n\n"@ + "Usage:\n"@ + "  omm-engine test-tone\n"@
        + "  omm-engine glicol \"<glicol code>\"\n"@ + "  omm-engine mix-demo\n"@
        + "  omm-engine timeline-demo\n"@ + "  omm-engine mic-test\n\n"@
        + "  omm-engine mic-monitor\n\n"@ + "Examples:\n"@ + "  omm-engine test-tone\n"@
        + "  omm-engine glicol \"out: sin 440 >> mul 0.1\"\n"@ + "  omm-engine mix-demo\n"@
        + "  omm-engine timeline-demo\n"@ + "  omm-engine mic-test\n"@
        + "  omm-engine mic-monitor\n"@
}

/// The engine's help text: its subcommands and an example of each.
pub fn usage_text() -> (text: String)
    ensures
        text@ == usage_spec(),
{
    let mut text = String::new();
    text.append("oh-my-music engine\n\n");
    text.append("Usage:\n");
    text.append("  omm-engine test-tone\n");
    text.append("  omm-engine glicol \"<glicol code>\"\n");
    text.append("  omm-engine mix-demo\n");
    text.append("  omm-engine timeline-demo\n");
    text.append("  omm-engine mic-test\n\n");
    text.append("  omm-engine mic-monitor\n\n");
    text.append("Examples:\n");
    text.append("  omm-engine test-tone\n");
    text.append("  omm-engine glicol \"out: sin 440 >> mul 0.1\"\n");
    text.append("  omm-engine mix-demo\n");
    text.append("  omm-engine timeline-demo\n");
    text.append("  omm-engine mic-test\n");
    text.append("  omm-engine mic-monitor\n");
    proof {
        assert(text@ =~= usage_spec());
    }
    text
}

/// Whether the value of the `CI` environment variable marks a CI run: exactly `true` or
/// `1`.
pub fn is_ci_env_value(value: Option<&str>) -> (r: bool)
    ensures
        r == (value matches Some(s) && (s@ == "true"@ || s@ == "1"@)),
{
    match value {
        Some(s) => same_text(s, "true") || same_text(s, "1"),
        None => false,
    }
}

/// What the engine was asked to do on its command line.
#[derive(Debug, Clone, PartialEq, Eq)]
pub enum CliCommand {
    /// No subcommand: print the help text and exit successfully.
    Usage,
    TestTone,
    Glicol { code: String },
    /// `glicol` without its code argument: an error.
    GlicolMissingCode,
    MixDemo,
    TimelineDemo,
    MicTest,
    MicMonitor,
    /// An unknown subcommand: an error, after which the help text is printed.
    Unknown { name: String },
}

/// Reads the subcommand from `args`, whose first entry is the program name.
pub fn parse_engine_args(args: &Vec<String>) -> (c: CliCommand)
    ensures
        args@.len() < 2 ==> c == CliCommand::Usage,
        args@.len() >= 2 && args@[1]@ == "test-tone"@ ==> c == CliCommand::TestTone,
        args@.len() == 2 && args@[1]@ == "glicol"@ ==> c == CliCommand::GlicolMissingCode,
        args@.len() >= 3 && args@[1]@ == "glicol"@ ==> (c matches CliCommand::Glicol { code }
            && code@ == args@[2]@),
        args@.len() >= 2 && args@[1]@ == "mix-demo"@ ==> c == CliCommand::MixDemo,
        args@.len() >= 2 && args@[1]@ == "timeline-demo"@ ==> c == CliCommand::TimelineDemo,
        args@.len() >= 2 && args@[1]@ == "mic-test"@ ==> c == CliCommand::MicTest,
        args@.len() >= 2 && args@[1]@ == "mic-monitor"@ ==> c == CliCommand::MicMonitor,
        args@.len() >= 2 && args@[1]@ != "test-tone"@ && args@[1]@ != "glicol"@ && args@[1]@
            != "mix-demo"@ && args@[1]@ != "timeline-demo"@ && args@[1]@ != "mic-test"@
            && args@[1]@ != "mic-monitor"@ ==> (c matches CliCommand::Unknown { name }
            && name@ == args@[1]@),
{
    if args.len() < 2 {
        return CliCommand::Usage;
    }
    let name = args[1].as_str();
    proof {
        reveal_strlit("test-tone");
        reveal_strlit("glicol");
        reveal_strlit("mix-demo");
        reveal_strlit("timeline-demo");
        reveal_strlit("mic-test");
        reveal_strlit("mic-monitor");
        assert("test-tone"@.len() == 9);
        assert("glicol"@.len() == 6);
        assert("mix-demo"@.len() == 8);
        assert("timeline-demo"@.len() == 13);
        assert("mic-test"@.len() == 8);
        assert("mic-monitor"@.len() == 11);
        assert("mix-demo"@[2] != "mic-test"@[2]);
    }
    if same_text(name, "test-tone") {
        CliCommand::TestTone
    } else if same_text(name, "glicol") {
        if args.len() < 3 {
            CliCommand::GlicolMissingCode
        } else {
            CliCommand::Glicol { code: args[2].clone() }
        }
    } else if same_text(name, "mix-demo") {
        CliCommand::MixDemo
    } else if same_text(name, "timeline-demo") {
        CliCommand::TimelineDemo
    } else if same_text(name, "mic-test") {
        CliCommand::MicTest
    } else if same_text(name, "mic-monitor") {
        CliCommand::MicMonitor
    } else {
        CliCommand::Unknown { name: name.to_owned() }
    }
}

/// One supported output configuration range a device reports.
#[derive(Debug, Clone, Copy, PartialEq, Eq, Structural)]
pub struct OutputConfigRange {
    pub sample_format_is_f32: bool,
    pub channels: u16,
    pub min_sample_rate: u32,
    pub max_sample_rate: u32,
}

/// A range covers the stream the engine opens: f32 samples, stereo, 48 kHz.
pub open spec fn covers_target(r: OutputConfigRange) -> bool {
    r.sample_format_is_f32 && r.channels == TARGET_CHANNELS && r.min_sample_rate
        <= TARGET_SAMPLE_RATE && r.max_sample_rate >= TARGET_SAMPLE_RATE
}

/// Whether any reported range covers the target stream.
pub fn supports_target_config(ranges: &[OutputConfigRange]) -> (r: bool)
    ensures
        r == exists|i: int| 0 <= i < ranges@.len() && covers_target(#[trigger] ranges@[i]),
{
    let mut i: usize = 0;
    while i < ranges.len()
        invariant
            0 <= i <= ranges@.len(),
            forall|j: int| 0 <= j < i ==> !covers_target(#[trigger] ranges@[j]),
        decreases ranges.len() - i,
    {
        let c = ranges[i];
        if c.sample_format_is_f32 && c.channels == TARGET_CHANNELS && c.min_sample_rate
            <= TARGET_SAMPLE_RATE && c.max_sample_rate >= TARGET_SAMPLE_RATE {
            return true;
        }
        i = i + 1;
    }
    false
}

/// Frames an output callback of `sample_count` interleaved samples asks for; `None` for
/// an empty buffer or one that does not hold whole stereo frames, which is left alone.
pub fn callback_frame_count(sample_count: usize) -> (r: Option<usize>)
    ensures
        sample_count == 0 || sample_count % 2 != 0 ==> r is None,
        sample_count > 0 && sample_count % 2 == 0 ==> r == Some((sample_count / 2) as usize),
{
    let channels = TARGET_CHANNELS as usize;
    if sample_count == 0 || sample_count % channels != 0 {
        return None;
    }
    Some(sample_count / channels)
}

} // verus!
