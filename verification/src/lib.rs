pub mod command;
pub mod envelope;
pub mod params;
pub mod rt_scheduler;
pub mod schedule;
pub mod source_timeline;
pub mod text;
pub mod features;
pub mod sources;
pub mod understanding;
pub mod channel;
pub mod runtime;
pub mod engine;
pub mod pcm;
