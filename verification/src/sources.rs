use vstd::prelude::*;

verus! {

/// Declares std's `io::Error` to Verus as an opaque type, so that a player error can
/// carry the I/O error it came from. Nothing is claimed of its contents.
#[verifier::external_type_specification]
#[verifier::external_body]
pub struct ExIoError(std::io::Error);

/// Frames the mic resampler aims to produce per chunk.
pub const RESAMPLE_TARGET_CHUNK_FRAMES: usize = 128;

#[derive(Debug)]
pub enum MicSourceError {
    InvalidInputChannels,
    InvalidInputRate,
    InvalidTargetRate,
    Resampler(String),
}

#[derive(Debug)]
pub enum PlayerSourceError {
    InvalidTargetRate,
    Io(std::io::Error),
    Decode(String),
    NoAudioFrames,
    MissingSampleRate,
    Resampler(String),
}

#[derive(Debug)]
pub enum GlicolError {
    LoadFailed(String),
}

/// Input frames per resampler chunk: enough input for `RESAMPLE_TARGET_CHUNK_FRAMES`
/// output frames, rounded up, and at least one.
pub open spec fn input_chunk_frames(input_rate: u32, target_rate: u32) -> nat {
    let n = ((RESAMPLE_TARGET_CHUNK_FRAMES as nat * input_rate as nat + target_rate as nat
        - 1) as nat) / target_rate as nat;
    if n == 0 { 1 } else { n }
}

pub fn compute_input_chunk_frames(input_rate: u32, target_rate: u32) -> (n: u64)
    requires
        target_rate > 0,
    ensures
        n == input_chunk_frames(input_rate, target_rate),
{
    let chunk: u64 = RESAMPLE_TARGET_CHUNK_FRAMES as u64;
    assert(chunk * input_rate <= 128 * 0xffff_ffffu64) by (nonlinear_arith)
        requires
            chunk == 128,
            input_rate <= 0xffff_ffffu32,
    ;
    let total: u64 = chunk * input_rate as u64;
    let rate: u64 = target_rate as u64;
    assert(total / rate <= total) by (nonlinear_arith)
        requires
            rate > 0,
    ;
    let frames: u64 = total / rate + if total % rate == 0 { 0 } else { 1 };
    assert(frames == ((total + rate - 1) as nat) / rate as nat) by (nonlinear_arith)
        requires
            rate > 0,
            frames == total / rate + if total % rate == 0 { 0int } else { 1int },
    ;
    if frames == 0 {
        1
    } else {
        frames
    }
}

/// The mic's resampling setup: `Ok(None)` when input and target rates agree, otherwise
/// `Ok(Some(chunk))` with the resampler's input chunk size. Zero channels or rates are
/// rejected, checked in that order.
pub fn mic_resample_plan(input_channels: usize, input_rate: u32, target_rate: u32) -> (r: Result<
    Option<u64>,
    MicSourceError,
>)
    ensures
        input_channels == 0 ==> r matches Err(MicSourceError::InvalidInputChannels),
        input_channels > 0 && input_rate == 0 ==> r matches Err(MicSourceError::InvalidInputRate),
        input_channels > 0 && input_rate > 0 && target_rate == 0 ==> r matches Err(
            MicSourceError::InvalidTargetRate,
        ),
        input_channels > 0 && input_rate > 0 && target_rate > 0 && input_rate == target_rate
            ==> r matches Ok(None),
        input_channels > 0 && input_rate > 0 && target_rate > 0 && input_rate != target_rate
            ==> (r matches Ok(Some(chunk)) && chunk == input_chunk_frames(input_rate, target_rate)),
{
    if input_channels == 0 {
        return Err(MicSourceError::InvalidInputChannels);
    }
    if input_rate == 0 {
        return Err(MicSourceError::InvalidInputRate);
    }
    if target_rate == 0 {
        return Err(MicSourceError::InvalidTargetRate);
    }
    if input_rate == target_rate {
        Ok(None)
    } else {
        Ok(Some(compute_input_chunk_frames(input_rate, target_rate)))
    }
}

/// Length of `input_len` frames resampled from `input_rate` to `target_rate`, rounded up.
pub open spec fn resampled_length(input_len: nat, input_rate: u32, target_rate: u32) -> nat {
    ((input_len * target_rate as nat + input_rate as nat - 1) as nat) / input_rate as nat
}

pub fn resampled_len(input_len: usize, input_rate: u32, target_rate: u32) -> (n: usize)
    requires
        input_rate > 0,
        resampled_length(input_len as nat, input_rate, target_rate) <= usize::MAX,
    ensures
        n == resampled_length(input_len as nat, input_rate, target_rate),
{
    assert(input_len as u128 * target_rate as u128 <= 0xffff_ffff_ffff_ffffu128 * 0xffff_ffffu128) by (nonlinear_arith)
        requires
            input_len <= 0xffff_ffff_ffff_ffffu64,
            target_rate <= 0xffff_ffffu32,
    ;
    let total: u128 = input_len as u128 * target_rate as u128;
    let rate: u128 = input_rate as u128;
    let n: u128 = total / rate + if total % rate == 0 { 0 } else { 1 };
    assert(n == ((total + rate - 1) as nat) / rate as nat) by (nonlinear_arith)
        requires
            rate > 0,
            n == total / rate + if total % rate == 0 { 0int } else { 1int },
    ;
    n as usize
}

/// Frames the Glicol engine renders per block.
pub const GLICOL_BLOCK_SIZE: usize = 128;

/// One step of copying rendered frames out of the Glicol block buffer: first render a
/// fresh block if `refill`, then copy `count` frames starting at `from`.
#[derive(Debug, Clone, Copy, PartialEq, Eq, Structural)]
pub struct BlockSpan {
    pub refill: bool,
    pub from: usize,
    pub count: usize,
}

/// Read position in the Glicol block buffer: frames `[offset, len)` are rendered and not
/// yet handed out. An exhausted buffer is reset to empty.
pub struct GlicolBlockCursor {
    offset: usize,
    len: usize,
}

impl GlicolBlockCursor {
    pub closed spec fn wf(&self) -> bool {
        &&& self.len == 0 || self.len == GLICOL_BLOCK_SIZE
        &&& (self.len == 0 ==> self.offset == 0)
        &&& (self.len > 0 ==> self.offset < self.len)
    }

    /// Rendered frames not yet handed out.
    pub closed spec fn available(&self) -> nat {
        (self.len - self.offset) as nat
    }

    pub closed spec fn spec_offset(&self) -> usize {
        self.offset
    }

    pub fn new() -> (c: Self)
        ensures
            c.wf(),
            c.available() == 0,
    {
        GlicolBlockCursor { offset: 0, len: 0 }
    }

    /// Drops whatever is buffered (after new code is loaded).
    pub fn clear(&mut self)
        ensures
            final(self).wf(),
            final(self).available() == 0,
    {
        self.offset = 0;
        self.len = 0;
    }

    pub fn offset(&self) -> (n: usize)
        ensures
            n == self.spec_offset(),
    {
        self.offset
    }

    pub fn buffered_len(&self) -> (n: usize)
        requires
            self.wf(),
        ensures
            n == self.spec_offset() + self.available(),
    {
        self.len
    }

    /// The next span for an output with `wanted > 0` frames still to fill: buffered frames
    /// first, a fresh block only once the buffer is exhausted.
    pub fn next_span(&mut self, wanted: usize) -> (span: BlockSpan)
        requires
            old(self).wf(),
            wanted > 0,
        ensures
            final(self).wf(),
            span.refill == (old(self).available() == 0),
            span.from == if span.refill { 0 } else { old(self).spec_offset() as int },
            span.count == if span.refill {
                if wanted < GLICOL_BLOCK_SIZE { wanted as int } else { GLICOL_BLOCK_SIZE as int }
            } else {
                if wanted < old(self).available() { wanted as int } else { old(self).available() as int }
            },
            span.count > 0,
            span.from + span.count <= GLICOL_BLOCK_SIZE,
            final(self).available() == (if span.refill {
                GLICOL_BLOCK_SIZE as int
            } else {
                old(self).available() as int
            }) - span.count,
            final(self).available() > 0 ==> final(self).spec_offset() == span.from + span.count,
    {
        let refill = self.offset >= self.len;
        if refill {
            self.offset = 0;
            self.len = GLICOL_BLOCK_SIZE;
        }
        let available = self.len - self.offset;
        let count = if wanted < available { wanted } else { available };
        let from = self.offset;
        self.offset = self.offset + count;
        if self.offset >= self.len {
            self.offset = 0;
            self.len = 0;
        }
        BlockSpan { refill, from, count }
    }
}

} // verus!
