use ringbuf::traits::{Consumer, Producer, Split};
use vstd::prelude::*;

use crate::params::SourceId;
use crate::source_timeline::SourceInstanceId;

verus! {

/// Capacity of the lock-free command queue.
pub const RT_QUEUE_CAPACITY: usize = 1024;

/// Most commands the render path applies per block.
pub const MAX_DRAIN_PER_BLOCK: usize = 64;

/// A real-time control command. `F` is the type of the continuous parameter values
/// (gains, pans, cutoffs, rates), which the command carries without reading.
#[derive(Debug, Clone, PartialEq)]
pub enum RtCommand<F> {
    SetMasterGainDb { db: F, ramp_frames: u32 },
    SetMasterPan { pan: F, ramp_frames: u32 },
    SetMasterLowpassHz { hz: F },
    SetMasterHighpassHz { hz: F },
    SetChannelGainDb { source_id: SourceId, db: F, ramp_frames: u32 },
    SetChannelPan { source_id: SourceId, pan: F, ramp_frames: u32 },
    SetChannelLowpassHz { source_id: SourceId, hz: F },
    SetChannelHighpassHz { source_id: SourceId, hz: F },
    SetChannelEnabled { source_id: SourceId, enabled: bool },
    SetSourceInstanceGainDb { source_instance_id: SourceInstanceId, db: F, ramp_frames: u32 },
    SetSourceInstancePan { source_instance_id: SourceInstanceId, pan: F, ramp_frames: u32 },
    SetSourceInstanceHighpassHz { source_instance_id: SourceInstanceId, hz: F },
    SetSourceInstanceLowpassHz { source_instance_id: SourceInstanceId, hz: F },
    SetSourceInstanceEq {
        source_instance_id: SourceInstanceId,
        low_db: F,
        mid_db: F,
        high_db: F,
        ramp_frames: u32,
    },
    SetSourceInstanceReverbSendDb { source_instance_id: SourceInstanceId, send_db: F, ramp_frames: u32 },
    SetSourceInstancePlaybackRate { source_instance_id: SourceInstanceId, rate: F, ramp_frames: u32 },
    SetSourceInstanceReverse { source_instance_id: SourceInstanceId, reverse: bool },
}

/// Control-side end of the single-producer/single-consumer command queue. It holds
/// ringbuf's producer, a type Verus cannot declare, so the struct is opaque.
#[verifier::external_body]
#[verifier::reject_recursive_types(C)]
pub struct CommandQueue<C> {
    producer: ringbuf::HeapProd<C>,
}

/// Render-side end of the command queue. It holds ringbuf's consumer, so it is opaque
/// too.
#[verifier::external_body]
#[verifier::reject_recursive_types(C)]
pub struct CommandReceiver<C> {
    consumer: ringbuf::HeapCons<C>,
}

/// The queue had no vacant slot.
#[derive(Debug, Clone, Copy, PartialEq, Eq, Structural)]
pub struct QueueFull;

/// Calls `HeapRb::new(capacity).split()` from ringbuf: a fresh heap ring buffer of
/// `capacity` slots, split into its producer and consumer, each wrapped in its end of the
/// queue. ringbuf panics on a zero capacity, which `requires` rules out. Nothing is stated
/// of the two ends.
#[verifier::external_body]
fn heap_ring_split<C>(capacity: usize) -> (CommandQueue<C>, CommandReceiver<C>)
    requires
        capacity > 0,
{
    let (producer, consumer) = ringbuf::HeapRb::<C>::new(capacity).split();
    (CommandQueue { producer }, CommandReceiver { consumer })
}

/// Calls ringbuf's `Producer::try_push`: stores `item` if the buffer has a vacant slot,
/// and otherwise hands `item` back unchanged in `Err`. Whether a slot is vacant depends on
/// the consumer thread, so the contract claims only that an `Err` carries `item`.
#[verifier::external_body]
fn producer_try_push<C>(queue: &mut CommandQueue<C>, item: C) -> (r: Result<(), C>)
    ensures
        r matches Err(back) ==> back == item,
{
    queue.producer.try_push(item)
}

/// Calls ringbuf's `Consumer::try_pop`: removes and returns the eldest item, or `None`
/// when the buffer is empty. What it holds depends on the producer thread, so nothing is
/// stated of the result.
#[verifier::external_body]
fn consumer_try_pop<C>(receiver: &mut CommandReceiver<C>) -> Option<C> {
    receiver.consumer.try_pop()
}

/// A command queue of `RT_QUEUE_CAPACITY` slots, split into its two ends.
pub fn new_command_channel<C>() -> (CommandQueue<C>, CommandReceiver<C>) {
    heap_ring_split(RT_QUEUE_CAPACITY)
}

impl<C> CommandQueue<C> {
    /// Queues `cmd` without blocking; a full queue drops it and reports `QueueFull`.
    pub fn enqueue(&mut self, cmd: C) -> Result<(), QueueFull> {
        match producer_try_push(self, cmd) {
            Ok(()) => Ok(()),
            Err(_) => Err(QueueFull),
        }
    }
}

/// Takes one popped queue slot: `Some(cmd)` is appended to `sink` and the drain goes on
/// (`true`); `None` means the queue was empty, leaves `sink` as it is, and ends the drain
/// (`false`).
pub fn take_popped<C>(sink: &mut Vec<C>, popped: Option<C>) -> (more: bool)
    ensures
        match popped {
            Some(cmd) => final(sink)@ == old(sink)@.push(cmd) && more,
            None => final(sink)@ == old(sink)@ && !more,
        },
{
    match popped {
        Some(cmd) => {
            sink.push(cmd);
            true
        },
        None => false,
    }
}

impl<C> CommandReceiver<C> {
    /// Moves up to `max` queued commands, oldest first, onto the end of `sink`, stopping
    /// early once the queue is empty, and returns how many it moved. Each popped slot goes
    /// through `take_popped`. With `sink` holding spare capacity for `max` commands, this
    /// does not allocate.
    pub fn drain(&mut self, sink: &mut Vec<C>, max: usize) -> (count: usize)
        ensures
            count <= max,
            final(sink)@.len() == old(sink)@.len() + count,
            final(sink)@.subrange(0, old(sink)@.len() as int) == old(sink)@,
    {
        let ghost start = sink@;
        let mut count: usize = 0;
        while count < max
            invariant
                count <= max,
                sink@.len() == start.len() + count,
                sink@.subrange(0, start.len() as int) == start,
            decreases max - count,
        {
            let popped = consumer_try_pop(self);
            let more = take_popped(sink, popped);
            if !more {
                break;
            }
            count = count + 1;
            proof {
                assert(sink@.subrange(0, start.len() as int) =~= start);
            }
        }
        count
    }
}

} // verus!
