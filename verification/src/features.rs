use vstd::prelude::*;

verus! {

/// FFT frame the spectral features use; offline windows are never shorter.
pub const FFT_SIZE: usize = 2048;

/// Hop of the live analysis windows.
pub const HOP_SIZE: usize = 1024;

/// Length of one feature window.
pub const DEFAULT_FEATURE_WINDOW_MS: u32 = 2000;

#[derive(Debug, Clone, Copy, PartialEq, Eq, Structural)]
pub enum Trend {
    Rising,
    Stable,
    Falling,
}

#[derive(Debug, Clone, Copy, PartialEq, Eq, Structural)]
pub enum EnergyLabel {
    Silent,
    Quiet,
    Moderate,
    Loud,
    Peak,
}

#[derive(Debug, Clone, Copy, PartialEq, Eq, Structural)]
pub enum BrightnessLabel {
    Dark,
    Warm,
    Neutral,
    Bright,
}

#[derive(Debug, Clone, Copy, PartialEq, Eq, Structural)]
pub enum TextureLabel {
    Tonal,
    Mixed,
    Noisy,
}

/// Window and hop, in milliseconds, of offline feature extraction.
#[derive(Debug, Clone, Copy, PartialEq, Eq, Structural)]
pub struct OfflineFeatureConfig {
    pub window_ms: u32,
    pub hop_ms: u32,
}

impl Default for OfflineFeatureConfig {
    fn default() -> (c: Self)
        ensures
            c == (OfflineFeatureConfig { window_ms: DEFAULT_FEATURE_WINDOW_MS, hop_ms: 500 }),
    {
        OfflineFeatureConfig { window_ms: DEFAULT_FEATURE_WINDOW_MS, hop_ms: 500 }
    }
}

/// Samples in `ms` milliseconds (rounded down, at least one).
pub open spec fn samples_for_ms(ms: nat, sample_rate: nat) -> nat {
    let n = sample_rate * ms / 1000;
    if n == 0 { 1 } else { n }
}

/// Duration of `samples` samples in milliseconds, rounded up.
pub open spec fn duration_ms_of_samples(samples: nat, sample_rate: u32) -> nat {
    if samples == 0 {
        0
    } else {
        let rate: nat = if sample_rate == 0 { 1 } else { sample_rate as nat };
        ((samples * 1000 + rate - 1) as nat) / rate
    }
}

pub fn ms_to_samples(ms: u32, sample_rate: u32) -> (n: usize)
    requires
        samples_for_ms(ms as nat, sample_rate as nat) <= usize::MAX,
    ensures
        n == samples_for_ms(ms as nat, sample_rate as nat),
{
    assert(sample_rate as u64 * ms as u64 <= 0xffff_ffffu64 * 0xffff_ffffu64) by (nonlinear_arith)
        requires
            sample_rate <= 0xffff_ffffu32,
            ms <= 0xffff_ffffu32,
    ;
    let n: u64 = (sample_rate as u64 * ms as u64) / 1000;
    if n == 0 {
        1
    } else {
        n as usize
    }
}

pub fn samples_to_duration_ms(samples: usize, sample_rate: u32) -> (ms: u32)
    requires
        samples * 1000 <= u64::MAX,
    ensures
        ms == duration_ms_of_samples(samples as nat, sample_rate) as u32,
{
    if samples == 0 {
        return 0;
    }
    let rate: u64 = if sample_rate == 0 { 1 } else { sample_rate as u64 };
    let total: u64 = samples as u64 * 1000;
    let rounded: u64 = total / rate + if total % rate == 0 { 0 } else { 1 };
    assert(rounded == (samples * 1000 + rate - 1) / rate as int) by (nonlinear_arith)
        requires
            rate > 0,
            total == samples * 1000,
            rounded == total / rate + if total % rate == 0 { 0int } else { 1int },
    ;
    rounded as u32
}

/// Capacity of a channel's analysis ring: two feature windows plus four hops.
pub open spec fn analysis_capacity(sample_rate: u32) -> nat {
    let window = sample_rate as nat * DEFAULT_FEATURE_WINDOW_MS as nat / 1000;
    (if window == 0 { 1 } else { window }) * 2 + HOP_SIZE as nat * 4
}

pub fn analysis_ringbuf_capacity(sample_rate: u32) -> (n: usize)
    requires
        sample_rate as nat * DEFAULT_FEATURE_WINDOW_MS as nat <= usize::MAX,
        analysis_capacity(sample_rate) <= usize::MAX,
    ensures
        n == analysis_capacity(sample_rate),
{
    let window = (sample_rate as usize) * (DEFAULT_FEATURE_WINDOW_MS as usize) / 1000;
    let window = if window == 0 { 1 } else { window };
    window * 2 + HOP_SIZE * 4
}

/// One window of offline feature extraction: samples `[start_sample, end_sample)` zero-padded
/// to `padded_len`, lasting `duration_ms` of real audio.
#[derive(Debug, Clone, Copy, PartialEq, Eq, Structural)]
pub struct OfflineFeatureWindow {
    pub start_sample: usize,
    pub end_sample: usize,
    pub padded_len: usize,
    pub duration_ms: u32,
}

/// Samples per offline window: the configured window, never shorter than one FFT frame.
pub open spec fn offline_window_samples(sample_rate: u32, config: OfflineFeatureConfig) -> nat {
    let rate: nat = if sample_rate == 0 { 1 } else { sample_rate as nat };
    let ms: nat = if config.window_ms == 0 { 1 } else { config.window_ms as nat };
    let n = samples_for_ms(ms, rate);
    if n < FFT_SIZE { FFT_SIZE as nat } else { n }
}

/// Samples between the starts of consecutive offline windows (at least one).
pub open spec fn offline_hop_samples(sample_rate: u32, config: OfflineFeatureConfig) -> nat {
    let rate: nat = if sample_rate == 0 { 1 } else { sample_rate as nat };
    let ms: nat = if config.hop_ms == 0 { 1 } else { config.hop_ms as nat };
    samples_for_ms(ms, rate)
}

/// Number of windows offline extraction makes over `count` samples: one for silence, else
/// one per hop until a window's hop reaches the end.
pub open spec fn offline_window_count(count: nat, hop: nat) -> nat {
    if count == 0 {
        1
    } else {
        ((count + hop - 1) as nat) / hop
    }
}

/// The `k`-th offline window.
pub open spec fn offline_window(
    count: nat,
    sample_rate: u32,
    config: OfflineFeatureConfig,
    k: nat,
) -> OfflineFeatureWindow {
    let window = offline_window_samples(sample_rate, config);
    let hop = offline_hop_samples(sample_rate, config);
    let rate: u32 = if sample_rate == 0 { 1 } else { sample_rate };
    if count == 0 {
        OfflineFeatureWindow { start_sample: 0, end_sample: 0, padded_len: window as usize, duration_ms: 0 }
    } else {
        let start = k * hop;
        let end = if start + window < count { start + window } else { count };
        OfflineFeatureWindow {
            start_sample: start as usize,
            end_sample: end as usize,
            padded_len: window as usize,
            duration_ms: duration_ms_of_samples((end - start) as nat, rate) as u32,
        }
    }
}

/// Windows over which offline features are computed for `sample_count` samples: a window of
/// silence when there are none, else windows starting every hop from sample 0, each cut at
/// the end of the input and zero-padded to the window length.
pub fn plan_offline_feature_windows(
    sample_count: usize,
    sample_rate: u32,
    config: OfflineFeatureConfig,
) -> (windows: Vec<OfflineFeatureWindow>)
    requires
        offline_window_samples(sample_rate, config) * 1000 <= u64::MAX,
        sample_count + offline_window_samples(sample_rate, config) <= usize::MAX,
        sample_count + offline_hop_samples(sample_rate, config) <= usize::MAX,
    ensures
        windows@.len() == offline_window_count(
            sample_count as nat,
            offline_hop_samples(sample_rate, config),
        ),
        forall|k: int|
            0 <= k < windows@.len() ==> #[trigger] windows@[k] == offline_window(
                sample_count as nat,
                sample_rate,
                config,
                k as nat,
            ),
{
    let rate: u32 = if sample_rate == 0 { 1 } else { sample_rate };
    let window_ms: u32 = if config.window_ms == 0 { 1 } else { config.window_ms };
    let hop_ms: u32 = if config.hop_ms == 0 { 1 } else { config.hop_ms };
    let by_config = ms_to_samples(window_ms, rate);
    let window_samples = if by_config < FFT_SIZE { FFT_SIZE } else { by_config };
    let hop_samples = ms_to_samples(hop_ms, rate);
    let mut windows: Vec<OfflineFeatureWindow> = Vec::new();
    if sample_count == 0 {
        windows.push(
            OfflineFeatureWindow {
                start_sample: 0,
                end_sample: 0,
                padded_len: window_samples,
                duration_ms: 0,
            },
        );
        return windows;
    }
    let ghost count = sample_count as nat;
    let ghost hop = hop_samples as nat;
    let mut start: usize = 0;
    let mut k: usize = 0;
    loop
        invariant_except_break
            hop == offline_hop_samples(sample_rate, config),
            hop == hop_samples,
            rate == (if sample_rate == 0 { 1 } else { sample_rate }),
            window_samples == offline_window_samples(sample_rate, config),
            hop >= 1,
            sample_count > 0,
            count == sample_count,
            start == k * hop,
            k <= start,
            start < sample_count,
            windows@.len() == k,
            window_samples * 1000 <= u64::MAX,
            sample_count + window_samples <= usize::MAX,
            sample_count + hop <= usize::MAX,
            forall|j: int|
                0 <= j < k ==> #[trigger] windows@[j] == offline_window(
                    count,
                    sample_rate,
                    config,
                    j as nat,
                ),
        ensures
            windows@.len() == offline_window_count(count, hop),
            forall|j: int|
                0 <= j < windows@.len() ==> #[trigger] windows@[j] == offline_window(
                    count,
                    sample_rate,
                    config,
                    j as nat,
                ),
        decreases sample_count - start,
    {
        let end = if start + window_samples < sample_count {
            start + window_samples
        } else {
            sample_count
        };
        let duration_ms = samples_to_duration_ms(end - start, rate);
        windows.push(
            OfflineFeatureWindow {
                start_sample: start,
                end_sample: end,
                padded_len: window_samples,
                duration_ms,
            },
        );
        if start + hop_samples >= sample_count {
            proof {
                let kk: nat = (k + 1) as nat;
                assert(kk * hop == k * hop + hop) by (nonlinear_arith)
                    requires
                        kk == k + 1,
                ;
                lemma_window_count_exact(count, hop, kk);
            }
            break;
        }
        proof {
            let kk: nat = (k + 1) as nat;
            assert(kk * hop == k * hop + hop) by (nonlinear_arith)
                requires
                    kk == k + 1,
            ;
            assert(kk <= kk * hop) by (nonlinear_arith)
                requires
                    hop >= 1,
            ;
        }
        start = start + hop_samples;
        k = k + 1;
    }
    windows
}

proof fn lemma_window_count_exact(count: nat, hop: nat, k: nat)
    requires
        count > 0,
        hop >= 1,
        k >= 1,
        (k - 1) * hop < count,
        k * hop >= count,
    ensures
        offline_window_count(count, hop) == k,
{
    assert(((count + hop - 1) as nat) / hop == k) by (nonlinear_arith)
        requires
            hop >= 1,
            k >= 1,
            (k - 1) * hop < count,
            k * hop >= count,
    {
        assert(k * hop <= count + hop - 1);
        assert(count + hop - 1 < (k + 1) * hop);
    }
}

/// Samples in one live analysis window at `sample_rate` (zero counts as one): the window
/// length in samples, at least one.
pub open spec fn live_window_samples(sample_rate: u32) -> nat {
    let rate: nat = if sample_rate == 0 { 1 } else { sample_rate as nat };
    let n = rate * DEFAULT_FEATURE_WINDOW_MS as nat / 1000;
    if n == 0 { 1 } else { n }
}

pub fn streaming_window_samples(sample_rate: u32) -> (n: usize)
    requires
        live_window_samples(sample_rate) <= usize::MAX,
    ensures
        n == live_window_samples(sample_rate),
{
    let rate: u64 = if sample_rate == 0 { 1 } else { sample_rate as u64 };
    let n: u64 = rate * (DEFAULT_FEATURE_WINDOW_MS as u64) / 1000;
    if n == 0 {
        1
    } else {
        n as usize
    }
}

/// Start of a window, in milliseconds, from its first sample; the product saturates.
pub open spec fn window_start_ms_of(start_samples: u64, sample_rate: u32) -> u64 {
    let product: nat = if start_samples * 1000 > u64::MAX {
        u64::MAX as nat
    } else {
        (start_samples * 1000) as nat
    };
    (product / sample_rate as nat) as u64
}

pub fn window_start_ms(start_samples: u64, sample_rate: u32) -> (ms: u64)
    requires
        sample_rate > 0,
    ensures
        ms == window_start_ms_of(start_samples, sample_rate),
{
    let product: u64 = match start_samples.checked_mul(1000) {
        Some(p) => p,
        None => u64::MAX,
    };
    product / sample_rate as u64
}

/// The live windows ready in `buffered` samples: windows of `window_samples` start every
/// `HOP_SIZE` samples for as long as a whole window fits. Returns the offsets of their
/// starts and how many samples they consume (one hop each, at most what is buffered).
pub fn plan_stream_windows(buffered: usize, window_samples: usize) -> (r: (Vec<usize>, usize))
    requires
        window_samples >= 1,
    ensures
        forall|i: int|
            0 <= i < r.0.len() ==> (#[trigger] r.0[i]) == i * HOP_SIZE && r.0[i] + window_samples
                <= buffered,
        r.0.len() * HOP_SIZE + window_samples > buffered,
        r.1 == if r.0.len() * HOP_SIZE <= buffered {
            r.0.len() * HOP_SIZE
        } else {
            buffered as int
        },
{
    let mut offsets: Vec<usize> = Vec::new();
    let mut offset: usize = 0;
    let mut remaining: usize = buffered;
    while remaining >= window_samples
        invariant
            window_samples >= 1,
            offset + remaining == buffered,
            offset == if offsets.len() * HOP_SIZE <= buffered {
                offsets.len() * HOP_SIZE
            } else {
                buffered as int
            },
            forall|i: int|
                0 <= i < offsets.len() ==> (#[trigger] offsets[i]) == i * HOP_SIZE && offsets[i]
                    + window_samples <= buffered,
        decreases remaining,
    {
        proof {
            assert(offsets.len() * HOP_SIZE <= buffered);
            assert((offsets.len() + 1) * HOP_SIZE == offsets.len() * HOP_SIZE + HOP_SIZE);
        }
        offsets.push(offset);
        let consumed = if HOP_SIZE < remaining { HOP_SIZE } else { remaining };
        offset = offset + consumed;
        remaining = remaining - consumed;
    }
    proof {
        if offsets.len() * HOP_SIZE <= buffered {
        } else {
            assert(offsets.len() * HOP_SIZE + window_samples > buffered);
        }
    }
    (offsets, offset)
}

} // verus!
