use vstd::prelude::*;

verus! {

/// Minimum lead time, in milliseconds, that planned (LLM / Pi) actions must leave
/// between submission and their trigger frame.
pub const PLANNED_ACTION_MIN_LEAD_MS: u64 = 30_000;

/// Identifier of a scheduled action.
#[derive(Debug, Clone, PartialEq, Eq, Hash)]
pub struct ScheduledActionId(String);

impl View for ScheduledActionId {
    type V = Seq<char>;

    closed spec fn view(&self) -> Seq<char> {
        self.0@
    }
}

impl ScheduledActionId {
    pub fn new(value: &str) -> (id: Self)
        ensures
            id@ == value@,
    {
        ScheduledActionId(value.to_owned())
    }

    pub fn as_str(&self) -> (s: &str)
        ensures
            s@ == self@,
    {
        self.0.as_str()
    }
}

/// Who asked for an action.
#[derive(Debug, Clone, Copy, PartialEq, Eq, Structural)]
pub enum ActionOrigin {
    PlannedLlm,
    PlannedPi,
    Manual,
    Test,
    Emergency,
}

pub open spec fn is_planned_origin(origin: ActionOrigin) -> bool {
    origin is PlannedLlm || origin is PlannedPi
}

impl ActionOrigin {
    pub fn requires_planned_lead_time(self) -> (r: bool)
        ensures
            r == is_planned_origin(self),
    {
        matches!(self, ActionOrigin::PlannedLlm | ActionOrigin::PlannedPi)
    }

    pub fn may_execute_immediately(self) -> (r: bool)
        ensures
            r == !is_planned_origin(self),
    {
        !self.requires_planned_lead_time()
    }
}

/// `max(sample_rate, 1)`: the rate every duration conversion divides by.
pub open spec fn effective_rate(sample_rate: u32) -> nat {
    if sample_rate == 0 { 1 } else { sample_rate as nat }
}

/// Number of frames covering `duration_ms` at `sample_rate`, rounded up and capped at
/// `u64::MAX`.
pub open spec fn frames_for_duration(duration_ms: nat, sample_rate: u32) -> nat {
    let exact = (duration_ms * effective_rate(sample_rate) + 999) / 1000;
    if exact > u64::MAX { u64::MAX as nat } else { exact }
}

/// Frame position `delta_ms` after `frame`, saturating at `u64::MAX`.
pub open spec fn frame_after(frame: u64, sample_rate: u32, delta_ms: nat) -> nat {
    let sum = frame as nat + frames_for_duration(delta_ms, sample_rate);
    if sum > u64::MAX { u64::MAX as nat } else { sum }
}

pub fn frames_for_duration_ms(duration_ms: u64, sample_rate: u32) -> (frames: u64)
    ensures
        frames == frames_for_duration(duration_ms as nat, sample_rate),
{
    let rate: u128 = if sample_rate == 0 { 1 } else { sample_rate as u128 };
    assert(duration_ms as u128 * rate <= 0xffff_ffff_ffff_ffffu128 * 0xffff_ffffu128) by (nonlinear_arith)
        requires
            duration_ms <= 0xffff_ffff_ffff_ffffu64,
            rate <= 0xffff_ffffu128,
    ;
    let numerator: u128 = duration_ms as u128 * rate;
    let exact: u128 = (numerator + 999) / 1000;
    if exact > u64::MAX as u128 {
        u64::MAX
    } else {
        exact as u64
    }
}

/// Engine clock position: a frame index at a sample rate of at least one.
#[derive(Debug, Clone, Copy, PartialEq, Eq, Structural)]
pub struct EngineTime {
    pub frame: u64,
    pub sample_rate: u32,
}

impl EngineTime {
    pub fn new(frame: u64, sample_rate: u32) -> (t: Self)
        ensures
            t.frame == frame,
            t.sample_rate == effective_rate(sample_rate),
    {
        EngineTime { frame, sample_rate: if sample_rate == 0 { 1 } else { sample_rate } }
    }

    pub fn frame_after_ms(&self, delta_ms: u64) -> (frame: u64)
        ensures
            frame == frame_after(self.frame, self.sample_rate, delta_ms as nat),
    {
        self.frame.saturating_add(frames_for_duration_ms(delta_ms, self.sample_rate))
    }
}

/// Submission and trigger frames of a schedule request.
#[derive(Debug, Clone, Copy, PartialEq, Eq, Structural)]
pub struct ScheduleRequestTiming {
    pub submitted_at_frame: u64,
    pub trigger_frame: u64,
}

/// A request that passed validation, with its parts unchanged.
#[derive(Debug, Clone, PartialEq, Eq)]
pub struct ScheduleValidation {
    pub action_id: ScheduledActionId,
    pub origin: ActionOrigin,
    pub timing: ScheduleRequestTiming,
}

#[derive(Debug, Clone, PartialEq, Eq, Structural)]
pub enum ScheduleValidationError {
    EmptyActionId,
    PlannedActionTooSoon { trigger_frame: u64, minimum_trigger_frame: u64 },
}

/// Earliest trigger frame a planned action submitted at `submitted_at_frame` may use.
pub open spec fn minimum_planned_trigger(submitted_at_frame: u64, sample_rate: u32) -> nat {
    frame_after(
        submitted_at_frame,
        effective_rate(sample_rate) as u32,
        PLANNED_ACTION_MIN_LEAD_MS as nat,
    )
}

/// The outcome of validating a request, as an error or `None` when it is accepted.
pub open spec fn schedule_request_error(
    id: Seq<char>,
    origin: ActionOrigin,
    timing: ScheduleRequestTiming,
    sample_rate: u32,
) -> Option<ScheduleValidationError> {
    if id.len() == 0 {
        Some(ScheduleValidationError::EmptyActionId)
    } else if is_planned_origin(origin) && timing.trigger_frame < minimum_planned_trigger(
        timing.submitted_at_frame,
        sample_rate,
    ) {
        Some(
            ScheduleValidationError::PlannedActionTooSoon {
                trigger_frame: timing.trigger_frame,
                minimum_trigger_frame: minimum_planned_trigger(
                    timing.submitted_at_frame,
                    sample_rate,
                ) as u64,
            },
        )
    } else {
        None
    }
}

/// Accepts a request when its id is non-empty and, for planned origins, its trigger frame
/// lies at least `PLANNED_ACTION_MIN_LEAD_MS` after submission.
pub fn validate_schedule_request(
    action_id: ScheduledActionId,
    origin: ActionOrigin,
    timing: ScheduleRequestTiming,
    sample_rate: u32,
) -> (r: Result<ScheduleValidation, ScheduleValidationError>)
    ensures
        match schedule_request_error(action_id@, origin, timing, sample_rate) {
            Some(e) => r == Err::<ScheduleValidation, ScheduleValidationError>(e),
            None => r == Ok::<ScheduleValidation, ScheduleValidationError>(
                ScheduleValidation { action_id, origin, timing },
            ),
        },
{
    if action_id.as_str().is_empty() {
        return Err(ScheduleValidationError::EmptyActionId);
    }
    if origin.requires_planned_lead_time() {
        let minimum_trigger_frame = EngineTime::new(timing.submitted_at_frame, sample_rate)
            .frame_after_ms(PLANNED_ACTION_MIN_LEAD_MS);
        if timing.trigger_frame < minimum_trigger_frame {
            return Err(
                ScheduleValidationError::PlannedActionTooSoon {
                    trigger_frame: timing.trigger_frame,
                    minimum_trigger_frame,
                },
            );
        }
    }
    Ok(ScheduleValidation { action_id, origin, timing })
}

/// Manual, test and emergency actions are never held back by the lead-time guard: with a
/// non-empty id they are accepted whatever their trigger frame.
pub proof fn lemma_immediate_origins_accepted(
    id: Seq<char>,
    origin: ActionOrigin,
    timing: ScheduleRequestTiming,
    sample_rate: u32,
)
    requires
        id.len() > 0,
        !is_planned_origin(origin),
    ensures
        schedule_request_error(id, origin, timing, sample_rate) is None,
{
}

/// A planned action is accepted exactly when its trigger frame is at or after the minimum
/// lead frame, so moving an accepted trigger later keeps it accepted.
pub proof fn lemma_planned_acceptance_is_monotone(
    id: Seq<char>,
    origin: ActionOrigin,
    timing: ScheduleRequestTiming,
    later_trigger: u64,
    sample_rate: u32,
)
    requires
        schedule_request_error(id, origin, timing, sample_rate) is None,
        timing.trigger_frame <= later_trigger,
    ensures
        schedule_request_error(
            id,
            origin,
            ScheduleRequestTiming { trigger_frame: later_trigger, ..timing },
            sample_rate,
        ) is None,
{
}

} // verus!
