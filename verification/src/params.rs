use vstd::prelude::*;

verus! {

/// The fixed legacy source channels.
#[derive(Debug, Clone, Copy, PartialEq, Eq, Hash, Structural)]
pub enum SourceId {
    System,
    Mic,
    Player,
    Glicol,
}

#[derive(Debug, Clone, Copy, PartialEq, Eq, Hash, Structural)]
pub enum RtTarget {
    Master,
    Source(SourceId),
    Bus(BusId),
}

#[derive(Debug, Clone, Copy, PartialEq, Eq, Hash, Structural)]
pub enum BusId {
    System,
    Mic,
    Player,
    Glicol,
    Generated,
    FxReturn,
    Master,
}

#[derive(Debug, Clone, Copy, PartialEq, Eq, Hash, Structural)]
pub enum ParamId {
    GainDb,
    Pan,
    Width,
    HighpassHz,
    LowpassHz,
    EqLowGainDb,
    EqMidGainDb,
    EqHighGainDb,
    ReverbSendDb,
    DelaySendDb,
    CompressorThresholdDb,
    CompressorRatio,
    DuckingAmountDb,
    MasterLimiterCeilingDb,
}

} // verus!
