use vstd::prelude::*;

verus! {

#[derive(Debug, Clone, PartialEq, Eq, Structural)]
pub enum MessageSource {
    Engine,
    Agent,
    Tui,
    Discord,
}

#[derive(Debug, Clone, PartialEq, Eq, Structural)]
pub enum MessagePriority {
    Realtime,
    Normal,
    Telemetry,
}

/// Framing shared by every IPC message.
#[derive(Debug, Clone, PartialEq)]
pub struct Envelope<T> {
    pub v: u16,
    pub msg_id: u64,
    pub corr_id: Option<u64>,
    pub session_id: String,
    pub source: MessageSource,
    pub kind: String,
    pub priority: MessagePriority,
    pub sent_at_ns: u64,
    pub body: T,
}

#[derive(Debug, Clone, PartialEq, Eq, Structural)]
pub enum SessionMode {
    Tui,
    Discord,
}

#[derive(Debug, Clone, PartialEq, Eq)]
pub enum OutputRoute {
    LocalCpal { device_id: Option<String> },
    DiscordPcmIpc { client_id: String },
}

} // verus!
