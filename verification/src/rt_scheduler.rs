use vstd::prelude::*;
use vstd::string::StrSliceExecFns;

use crate::schedule::{
    is_planned_origin, schedule_request_error, validate_schedule_request, ActionOrigin,
    ScheduleRequestTiming, ScheduleValidationError, ScheduledActionId,
};

verus! {

/// Lexicographic order on character sequences, comparing from position `i` on: the first
/// differing character decides, and a proper prefix comes first.
pub open spec fn chars_before_from(a: Seq<char>, b: Seq<char>, i: int) -> bool
    decreases a.len() - i,
{
    if i < 0 || i >= a.len() {
        0 <= i < b.len()
    } else if i >= b.len() {
        false
    } else if a[i] < b[i] {
        true
    } else if a[i] == b[i] {
        chars_before_from(a, b, i + 1)
    } else {
        false
    }
}

/// Lexicographic order on ids (the order of Rust strings, since UTF-8 preserves the order
/// of code points).
pub open spec fn id_before(a: Seq<char>, b: Seq<char>) -> bool {
    chars_before_from(a, b, 0)
}

/// Due order: by trigger frame, then by action id.
pub open spec fn key_before(t1: u64, id1: Seq<char>, t2: u64, id2: Seq<char>) -> bool {
    t1 < t2 || (t1 == t2 && id_before(id1, id2))
}

proof fn lemma_chars_before_irreflexive(a: Seq<char>, i: int)
    requires
        0 <= i,
    ensures
        !chars_before_from(a, a, i),
    decreases a.len() - i,
{
    if i < a.len() {
        lemma_chars_before_irreflexive(a, i + 1);
    }
}

proof fn lemma_chars_before_transitive(a: Seq<char>, b: Seq<char>, c: Seq<char>, i: int)
    requires
        0 <= i,
        chars_before_from(a, b, i),
        chars_before_from(b, c, i),
    ensures
        chars_before_from(a, c, i),
    decreases a.len() - i,
{
    if i < a.len() && i < b.len() && i < c.len() && a[i] == b[i] && b[i] == c[i] {
        lemma_chars_before_transitive(a, b, c, i + 1);
    }
}

proof fn lemma_chars_before_total(a: Seq<char>, b: Seq<char>, i: int)
    requires
        0 <= i <= a.len(),
        i <= b.len(),
        forall|j: int| 0 <= j < i ==> a[j] == b[j],
        a != b,
    ensures
        chars_before_from(a, b, i) || chars_before_from(b, a, i),
    decreases a.len() - i,
{
    if i == a.len() && i == b.len() {
        assert(a =~= b);
    } else if i < a.len() && i < b.len() && a[i] == b[i] {
        lemma_chars_before_total(a, b, i + 1);
    }
}

proof fn lemma_chars_before_asymmetric(a: Seq<char>, b: Seq<char>, i: int)
    requires
        0 <= i,
        chars_before_from(a, b, i),
    ensures
        !chars_before_from(b, a, i),
    decreases a.len() - i,
{
    if i < a.len() && i < b.len() && a[i] == b[i] {
        lemma_chars_before_asymmetric(a, b, i + 1);
    }
}

/// `key_before` is a strict total order on keys.
pub proof fn lemma_key_order(t1: u64, id1: Seq<char>, t2: u64, id2: Seq<char>, t3: u64, id3: Seq<char>)
    ensures
        !key_before(t1, id1, t1, id1),
        key_before(t1, id1, t2, id2) ==> !key_before(t2, id2, t1, id1),
        key_before(t1, id1, t2, id2) && key_before(t2, id2, t3, id3) ==> key_before(t1, id1, t3, id3),
        (t1 != t2 || id1 != id2) ==> key_before(t1, id1, t2, id2) || key_before(t2, id2, t1, id1),
{
    lemma_chars_before_irreflexive(id1, 0);
    if key_before(t1, id1, t2, id2) && t1 == t2 {
        lemma_chars_before_asymmetric(id1, id2, 0);
    }
    if key_before(t1, id1, t2, id2) && key_before(t2, id2, t3, id3) && t1 == t2 && t2 == t3 {
        lemma_chars_before_transitive(id1, id2, id3, 0);
    }
    if t1 == t2 && id1 != id2 {
        lemma_chars_before_total(id1, id2, 0);
    }
}

/// Result of comparing two ids.
enum IdOrder {
    Before,
    Same,
    After,
}

fn compare_ids(a: &str, b: &str) -> (r: IdOrder)
    ensures
        r is Before <==> id_before(a@, b@),
        r is Same <==> a@ == b@,
        r is After <==> id_before(b@, a@),
{
    let la = a.unicode_len();
    let lb = b.unicode_len();
    let mut i: usize = 0;
    while i < la && i < lb
        invariant
            la == a@.len(),
            lb == b@.len(),
            0 <= i <= la,
            i <= lb,
            forall|j: int| 0 <= j < i ==> a@[j] == b@[j],
            id_before(a@, b@) == chars_before_from(a@, b@, i as int),
            id_before(b@, a@) == chars_before_from(b@, a@, i as int),
        decreases la - i,
    {
        let ca = a.get_char(i);
        let cb = b.get_char(i);
        if ca < cb {
            proof {
                lemma_chars_before_asymmetric(a@, b@, i as int);
            }
            return IdOrder::Before;
        }
        if cb < ca {
            proof {
                lemma_chars_before_asymmetric(b@, a@, i as int);
            }
            return IdOrder::After;
        }
        i = i + 1;
    }
    if la < lb {
        proof {
            lemma_chars_before_asymmetric(a@, b@, i as int);
        }
        IdOrder::Before
    } else if lb < la {
        proof {
            lemma_chars_before_asymmetric(b@, a@, i as int);
        }
        IdOrder::After
    } else {
        assert(a@ =~= b@);
        proof {
            lemma_chars_before_irreflexive(a@, i as int);
        }
        IdOrder::Same
    }
}

/// A request to run `command` at engine frame `trigger_frame`.
#[derive(Debug, Clone, PartialEq)]
pub struct RtCommandScheduleRequest<C> {
    pub action_id: ScheduledActionId,
    pub origin: ActionOrigin,
    pub trigger_frame: u64,
    pub command: C,
}

/// An accepted, not yet dispatched action.
#[derive(Debug, Clone, PartialEq)]
pub struct ScheduledRtCommand<C> {
    pub action_id: ScheduledActionId,
    pub origin: ActionOrigin,
    pub trigger_frame: u64,
    pub command: C,
}

#[derive(Debug, Clone, PartialEq, Eq)]
pub enum RtCommandSchedulerError {
    Validation(ScheduleValidationError),
    DuplicateAction { action_id: String },
    ActionNotFound { action_id: String },
}

/// One entry of the trigger-time index. Entries before the due frontier have been
/// dispatched and no longer hold their command.
struct ScheduledSlot<C> {
    action_id: ScheduledActionId,
    origin: ActionOrigin,
    trigger_frame: u64,
    command: Option<C>,
}

/// Actions waiting for their engine frame, kept in due order (trigger frame, then id).
///
/// The render path only advances a frontier over the index (`pop_next_due`,
/// `drain_due`); control-side mutations first reclaim what the render path dispatched.
pub struct RtCommandScheduler<C> {
    slots: Vec<ScheduledSlot<C>>,
    due_frontier: usize,
}

pub open spec fn action_before<C>(a: ScheduledRtCommand<C>, b: ScheduledRtCommand<C>) -> bool {
    key_before(a.trigger_frame, a.action_id@, b.trigger_frame, b.action_id@)
}

/// Strictly increasing in due order (so ids are distinct).
pub open spec fn in_due_order<C>(s: Seq<ScheduledRtCommand<C>>) -> bool {
    forall|i: int, j: int| 0 <= i < j < s.len() ==> action_before(#[trigger] s[i], #[trigger] s[j])
}

/// Some pending action has this id.
pub open spec fn has_id<C>(s: Seq<ScheduledRtCommand<C>>, id: Seq<char>) -> bool {
    exists|i: int| 0 <= i < s.len() && (#[trigger] s[i]).action_id@ == id
}

/// No two pending actions share an id.
pub open spec fn distinct_ids<C>(s: Seq<ScheduledRtCommand<C>>) -> bool {
    forall|i: int, j: int|
        0 <= i < s.len() && 0 <= j < s.len() && i != j ==> (#[trigger] s[i]).action_id@ != (
        #[trigger] s[j]).action_id@
}

/// The action a request becomes once accepted.
pub open spec fn request_action<C>(request: RtCommandScheduleRequest<C>) -> ScheduledRtCommand<C> {
    ScheduledRtCommand {
        action_id: request.action_id,
        origin: request.origin,
        trigger_frame: request.trigger_frame,
        command: request.command,
    }
}

/// Number of actions that come before `a` in due order: where `a` goes when inserted.
pub open spec fn due_position<C>(s: Seq<ScheduledRtCommand<C>>, a: ScheduledRtCommand<C>) -> nat
    decreases s.len(),
{
    if s.len() == 0 {
        0
    } else {
        due_position(s.drop_last(), a) + if action_before(s.last(), a) {
            1nat
        } else {
            0nat
        }
    }
}

/// `s` with `a` inserted at its place in due order.
pub open spec fn insert_in_due_order<C>(s: Seq<ScheduledRtCommand<C>>, a: ScheduledRtCommand<C>) -> Seq<
    ScheduledRtCommand<C>,
> {
    s.insert(due_position(s, a) as int, a)
}

/// Index of the pending action with this id.
pub open spec fn index_of_id<C>(s: Seq<ScheduledRtCommand<C>>, id: Seq<char>) -> int {
    choose|i: int| 0 <= i < s.len() && (#[trigger] s[i]).action_id@ == id
}

/// Number of leading actions of `s` that are due at `now_frame`, up to `max`.
pub open spec fn due_prefix_len<C>(s: Seq<ScheduledRtCommand<C>>, now_frame: u64, max: nat) -> nat
    decreases max,
{
    if max == 0 || s.len() == 0 || s[0].trigger_frame > now_frame {
        0
    } else {
        1 + due_prefix_len(s.drop_first(), now_frame, (max - 1) as nat)
    }
}

spec fn slot_action<C>(slot: ScheduledSlot<C>) -> ScheduledRtCommand<C> {
    ScheduledRtCommand {
        action_id: slot.action_id,
        origin: slot.origin,
        trigger_frame: slot.trigger_frame,
        command: slot.command->0,
    }
}

spec fn slot_before<C>(a: ScheduledSlot<C>, b: ScheduledSlot<C>) -> bool {
    key_before(a.trigger_frame, a.action_id@, b.trigger_frame, b.action_id@)
}

proof fn lemma_due_position_is_split_point<C>(
    s: Seq<ScheduledRtCommand<C>>,
    a: ScheduledRtCommand<C>,
    p: int,
)
    requires
        0 <= p <= s.len(),
        forall|j: int| 0 <= j < p ==> action_before(#[trigger] s[j], a),
        forall|j: int| p <= j < s.len() ==> !action_before(#[trigger] s[j], a),
    ensures
        due_position(s, a) == p,
    decreases s.len(),
{
    if s.len() > 0 {
        let t = s.drop_last();
        if p == s.len() {
            lemma_due_position_is_split_point(t, a, p - 1);
        } else {
            lemma_due_position_is_split_point(t, a, p);
        }
    }
}

impl<C> View for RtCommandScheduler<C> {
    type V = Seq<ScheduledRtCommand<C>>;

    /// The pending actions, in due order.
    closed spec fn view(&self) -> Seq<ScheduledRtCommand<C>> {
        Seq::new(
            (self.slots@.len() - self.due_frontier) as nat,
            |i: int| slot_action(self.slots@[self.due_frontier + i]),
        )
    }
}

impl<C> RtCommandScheduler<C> {
    /// The index is in due order, the frontier lies within it, and every entry at or after
    /// the frontier still holds its command.
    pub closed spec fn wf(&self) -> bool {
        &&& self.due_frontier <= self.slots@.len()
        &&& forall|i: int, j: int|
            0 <= i < j < self.slots@.len() ==> slot_before(
                #[trigger] self.slots@[i],
                #[trigger] self.slots@[j],
            )
        &&& forall|i: int|
            self.due_frontier <= i < self.slots@.len() ==> (#[trigger] self.slots@[i]).command is Some
        &&& forall|i: int, j: int|
            0 <= i < self.slots@.len() && 0 <= j < self.slots@.len() && i != j
                ==> (#[trigger] self.slots@[i]).action_id@ != (#[trigger] self.slots@[j]).action_id@
    }

    /// Number of dispatched actions whose metadata has not been reclaimed yet.
    pub closed spec fn dispatched(&self) -> nat {
        self.due_frontier as nat
    }

    pub fn new() -> (s: Self)
        ensures
            s.wf(),
            s@ == Seq::<ScheduledRtCommand<C>>::empty(),
            s.dispatched() == 0,
    {
        let s = RtCommandScheduler { slots: Vec::new(), due_frontier: 0 };
        assert(s@ =~= Seq::<ScheduledRtCommand<C>>::empty());
        s
    }

    proof fn lemma_view_in_due_order(&self)
        requires
            self.wf(),
        ensures
            in_due_order(self@),
            distinct_ids(self@),
    {
        assert forall|i: int, j: int|
            0 <= i < self@.len() && 0 <= j < self@.len() && i != j implies (#[trigger] self@[i]).action_id@
            != (#[trigger] self@[j]).action_id@ by {
            assert(self.slots@[self.due_frontier + i].action_id@ != self.slots@[self.due_frontier
                + j].action_id@);
        }
        assert forall|i: int, j: int| 0 <= i < j < self@.len() implies action_before(
            #[trigger] self@[i],
            #[trigger] self@[j],
        ) by {
            assert(slot_before(
                self.slots@[self.due_frontier + i],
                self.slots@[self.due_frontier + j],
            ));
        }
    }

    /// Number of pending actions.
    pub fn len(&self) -> (n: usize)
        requires
            self.wf(),
        ensures
            n == self@.len(),
    {
        self.slots.len() - self.due_frontier
    }

    pub fn is_empty(&self) -> (r: bool)
        requires
            self.wf(),
        ensures
            r == (self@.len() == 0),
    {
        self.len() == 0
    }

    /// Position of the due frontier in the trigger-time index.
    pub fn debug_due_frontier_position(&self) -> (n: usize)
        requires
            self.wf(),
        ensures
            n == self.dispatched(),
    {
        self.due_frontier
    }

    /// Length of the trigger-time index: dispatched entries not yet reclaimed plus pending
    /// ones.
    pub fn debug_due_index_len(&self) -> (n: usize)
        requires
            self.wf(),
        ensures
            n == self.dispatched() + self@.len(),
    {
        self.slots.len()
    }

    /// Reclaims metadata for commands already dispatched by the render path.
    ///
    /// This is a non-render/control-side maintenance operation: it shifts the trigger-time
    /// index, so it must not be called from the audio callback.
    pub fn reclaim_dispatched_metadata(&mut self) -> (n: usize)
        requires
            old(self).wf(),
        ensures
            final(self).wf(),
            final(self)@ == old(self)@,
            final(self).dispatched() == 0,
            n == old(self).dispatched(),
    {
        let n = self.due_frontier;
        if n > 0 {
            let rest = self.slots.split_off(n);
            self.slots = rest;
            self.due_frontier = 0;
        }
        assert(self@ =~= old(self)@);
        n
    }

    /// Index of the slot holding `id`, if any.
    fn find_slot(&self, id: &str) -> (r: Option<usize>)
        requires
            self.wf(),
        ensures
            r matches Some(i) ==> i < self.slots@.len() && self.slots@[i as int].action_id@ == id@,
            r is None ==> forall|i: int|
                0 <= i < self.slots@.len() ==> (#[trigger] self.slots@[i]).action_id@ != id@,
    {
        let n = self.slots.len();
        let mut i: usize = 0;
        while i < n
            invariant
                n == self.slots@.len(),
                0 <= i <= n,
                forall|j: int| 0 <= j < i ==> (#[trigger] self.slots@[j]).action_id@ != id@,
            decreases n - i,
        {
            match compare_ids(self.slots[i].action_id.as_str(), id) {
                IdOrder::Same => {
                    return Some(i);
                },
                _ => {},
            }
            i = i + 1;
        }
        None
    }

    /// Inserts a pending slot at its place in due order.
    fn insert_slot(&mut self, slot: ScheduledSlot<C>)
        requires
            old(self).wf(),
            old(self).due_frontier == 0,
            slot.command is Some,
            !has_id(old(self)@, slot.action_id@),
        ensures
            final(self).wf(),
            final(self).due_frontier == 0,
            final(self)@ == insert_in_due_order(old(self)@, slot_action(slot)),
    {
        let ghost s = self@;
        let ghost a = slot_action(slot);
        proof {
            self.lemma_view_in_due_order();
            assert forall|j: int| 0 <= j < self.slots@.len() implies slot_action(
                #[trigger] self.slots@[j],
            ) == s[j] by {}
        }
        let mut lo: usize = 0;
        let mut hi: usize = self.slots.len();
        while lo < hi
            invariant
                self.wf(),
                self.due_frontier == 0,
                self@ == s,
                s.len() == self.slots@.len(),
                0 <= lo <= hi <= s.len(),
                forall|j: int| 0 <= j < lo ==> action_before(#[trigger] s[j], a),
                forall|j: int| hi <= j < s.len() ==> !action_before(#[trigger] s[j], a),
                in_due_order(s),
                a.trigger_frame == slot.trigger_frame,
                a.action_id == slot.action_id,
            decreases hi - lo,
        {
            let mid = lo + (hi - lo) / 2;
            let probe = &self.slots[mid];
            let before = probe.trigger_frame < slot.trigger_frame || (probe.trigger_frame
                == slot.trigger_frame && match compare_ids(
                probe.action_id.as_str(),
                slot.action_id.as_str(),
            ) {
                IdOrder::Before => true,
                _ => false,
            });
            assert(s[mid as int] == slot_action(self.slots@[mid as int]));
            assert(before == action_before(s[mid as int], a));
            if before {
                proof {
                    assert forall|j: int| 0 <= j < mid + 1 implies action_before(
                        #[trigger] s[j],
                        a,
                    ) by {
                        if j < mid {
                            lemma_key_order(
                                s[j].trigger_frame,
                                s[j].action_id@,
                                s[mid as int].trigger_frame,
                                s[mid as int].action_id@,
                                a.trigger_frame,
                                a.action_id@,
                            );
                        }
                    }
                }
                lo = mid + 1;
            } else {
                proof {
                    assert forall|j: int| mid <= j < s.len() implies !action_before(
                        #[trigger] s[j],
                        a,
                    ) by {
                        if j > mid {
                            lemma_key_order(
                                s[mid as int].trigger_frame,
                                s[mid as int].action_id@,
                                s[j].trigger_frame,
                                s[j].action_id@,
                                a.trigger_frame,
                                a.action_id@,
                            );
                        }
                    }
                }
                hi = mid;
            }
        }
        proof {
            lemma_due_position_is_split_point(s, a, lo as int);
            assert forall|j: int| lo <= j < s.len() implies action_before(a, #[trigger] s[j]) by {
                assert(s[j].action_id@ != a.action_id@);
                lemma_key_order(
                    s[j].trigger_frame,
                    s[j].action_id@,
                    a.trigger_frame,
                    a.action_id@,
                    a.trigger_frame,
                    a.action_id@,
                );
            }
        }
        let ghost old_slots = self.slots@;
        self.slots.insert(lo, slot);
        proof {
            let t = self.slots@;
            assert(t == old_slots.insert(lo as int, slot));
            assert forall|i: int, j: int|
                0 <= i < j < t.len() implies slot_before(#[trigger] t[i], #[trigger] t[j]) by {
                if j < lo {
                    assert(slot_before(old_slots[i], old_slots[j]));
                } else if j == lo {
                    assert(action_before(s[i], a));
                } else if i == lo {
                    assert(action_before(a, s[j - 1]));
                } else if i < lo {
                    assert(slot_before(old_slots[i], old_slots[j - 1]));
                } else {
                    assert(slot_before(old_slots[i - 1], old_slots[j - 1]));
                }
            }
            assert forall|i: int, j: int|
                0 <= i < t.len() && 0 <= j < t.len() && i != j implies (#[trigger] t[i]).action_id@
                != (#[trigger] t[j]).action_id@ by {
                if i != lo && j != lo {
                    let oi = if i < lo { i } else { i - 1 };
                    let oj = if j < lo { j } else { j - 1 };
                    assert(old_slots[oi].action_id@ != old_slots[oj].action_id@);
                } else if i == lo {
                    let oj = if j < lo { j } else { j - 1 };
                    assert(s[oj].action_id@ == old_slots[oj].action_id@);
                } else {
                    let oi = if i < lo { i } else { i - 1 };
                    assert(s[oi].action_id@ == old_slots[oi].action_id@);
                }
            }
            assert(self@ =~= s.insert(lo as int, a));
        }
    }

    /// Accepts `request` at its place in due order, after reclaiming dispatched metadata.
    ///
    /// Rejects it when validation fails (empty id, or a planned origin inside the lead-time
    /// guard measured from `now_frame`) or when a pending action already has its id. This
    /// is a non-render/control-side API.
    pub fn schedule(
        &mut self,
        request: RtCommandScheduleRequest<C>,
        now_frame: u64,
        sample_rate: u32,
    ) -> (r: Result<(), RtCommandSchedulerError>)
        requires
            old(self).wf(),
        ensures
            final(self).wf(),
            final(self).dispatched() == 0,
            match schedule_request_error(
                request.action_id@,
                request.origin,
                ScheduleRequestTiming {
                    submitted_at_frame: now_frame,
                    trigger_frame: request.trigger_frame,
                },
                sample_rate,
            ) {
                Some(e) => r == Err::<(), RtCommandSchedulerError>(
                    RtCommandSchedulerError::Validation(e),
                ) && final(self)@ == old(self)@,
                None => if has_id(old(self)@, request.action_id@) {
                    &&& r matches Err(RtCommandSchedulerError::DuplicateAction { action_id })
                    &&& action_id@ == request.action_id@
                    &&& final(self)@ == old(self)@
                } else {
                    &&& r is Ok
                    &&& final(self)@ == insert_in_due_order(old(self)@, request_action(request))
                },
            },
    {
        self.reclaim_dispatched_metadata();
        let RtCommandScheduleRequest { action_id, origin, trigger_frame, command } = request;
        let validation = match validate_schedule_request(
            action_id,
            origin,
            ScheduleRequestTiming { submitted_at_frame: now_frame, trigger_frame },
            sample_rate,
        ) {
            Ok(validation) => validation,
            Err(e) => {
                return Err(RtCommandSchedulerError::Validation(e));
            },
        };
        if let Some(index) = self.find_slot(validation.action_id.as_str()) {
            proof {
                assert(self@[index as int] == slot_action(self.slots@[index as int]));
            }
            return Err(
                RtCommandSchedulerError::DuplicateAction {
                    action_id: validation.action_id.as_str().to_owned(),
                },
            );
        }
        proof {
            assert forall|i: int| 0 <= i < self@.len() implies (#[trigger] self@[i]).action_id@
                != validation.action_id@ by {
                assert(self@[i] == slot_action(self.slots@[i]));
            }
        }
        self.insert_slot(
            ScheduledSlot {
                action_id: validation.action_id,
                origin: validation.origin,
                trigger_frame: validation.timing.trigger_frame,
                command: Some(command),
            },
        );
        Ok(())
    }

    /// Removes the pending action with this id and returns it.
    pub fn cancel(&mut self, action_id: &ScheduledActionId) -> (r: Result<
        ScheduledRtCommand<C>,
        RtCommandSchedulerError,
    >)
        requires
            old(self).wf(),
        ensures
            final(self).wf(),
            final(self).dispatched() == 0,
            has_id(old(self)@, action_id@) ==> {
                let k = index_of_id(old(self)@, action_id@);
                &&& r == Ok::<ScheduledRtCommand<C>, RtCommandSchedulerError>(old(self)@[k])
                &&& final(self)@ == old(self)@.remove(k)
            },
            !has_id(old(self)@, action_id@) ==> {
                &&& r matches Err(RtCommandSchedulerError::ActionNotFound { action_id: missing })
                &&& missing@ == action_id@
                &&& final(self)@ == old(self)@
            },
    {
        self.reclaim_dispatched_metadata();
        proof {
            self.lemma_view_in_due_order();
        }
        let ghost s = self@;
        match self.find_slot(action_id.as_str()) {
            Some(index) => {
                proof {
                    assert(s[index as int] == slot_action(self.slots@[index as int]));
                    assert(index_of_id(s, action_id@) == index);
                }
                let ghost old_slots = self.slots@;
                let slot = self.slots.remove(index);
                proof {
                    assert(old_slots[index as int].command is Some);
                    assert(self@ =~= s.remove(index as int));
                }
                let command = match slot.command {
                    Some(c) => c,
                    None => {
                        proof {
                            assert(false);
                        }
                        return Err(
                            RtCommandSchedulerError::ActionNotFound {
                                action_id: action_id.as_str().to_owned(),
                            },
                        );
                    },
                };
                Ok(
                    ScheduledRtCommand {
                        action_id: slot.action_id,
                        origin: slot.origin,
                        trigger_frame: slot.trigger_frame,
                        command,
                    },
                )
            },
            None => {
                proof {
                    assert forall|i: int| 0 <= i < s.len() implies (#[trigger] s[i]).action_id@
                        != action_id@ by {
                        assert(s[i] == slot_action(self.slots@[i]));
                    }
                }
                Err(RtCommandSchedulerError::ActionNotFound { action_id: action_id.as_str().to_owned() })
            },
        }
    }

    /// Moves the pending action with this id to `new_trigger_frame`, revalidating it
    /// against `now_frame`; a rejected move leaves the scheduler as it was.
    pub fn modify_trigger_frame(
        &mut self,
        action_id: &ScheduledActionId,
        new_trigger_frame: u64,
        now_frame: u64,
        sample_rate: u32,
    ) -> (r: Result<(), RtCommandSchedulerError>)
        requires
            old(self).wf(),
        ensures
            final(self).wf(),
            final(self).dispatched() == 0,
            !has_id(old(self)@, action_id@) ==> {
                &&& r matches Err(RtCommandSchedulerError::ActionNotFound { action_id: missing })
                &&& missing@ == action_id@
                &&& final(self)@ == old(self)@
            },
            has_id(old(self)@, action_id@) ==> {
                let k = index_of_id(old(self)@, action_id@);
                let a = old(self)@[k];
                match schedule_request_error(
                    a.action_id@,
                    a.origin,
                    ScheduleRequestTiming {
                        submitted_at_frame: now_frame,
                        trigger_frame: new_trigger_frame,
                    },
                    sample_rate,
                ) {
                    Some(e) => r == Err::<(), RtCommandSchedulerError>(
                        RtCommandSchedulerError::Validation(e),
                    ) && final(self)@ == old(self)@,
                    None => r is Ok && final(self)@ == insert_in_due_order(
                        old(self)@.remove(k),
                        ScheduledRtCommand { trigger_frame: new_trigger_frame, ..a },
                    ),
                }
            },
    {
        self.reclaim_dispatched_metadata();
        proof {
            self.lemma_view_in_due_order();
        }
        let ghost s = self@;
        let index = match self.find_slot(action_id.as_str()) {
            Some(index) => index,
            None => {
                proof {
                    assert forall|i: int| 0 <= i < s.len() implies (#[trigger] s[i]).action_id@
                        != action_id@ by {
                        assert(s[i] == slot_action(self.slots@[i]));
                    }
                }
                return Err(
                    RtCommandSchedulerError::ActionNotFound {
                        action_id: action_id.as_str().to_owned(),
                    },
                );
            },
        };
        proof {
            assert(s[index as int] == slot_action(self.slots@[index as int]));
            assert(index_of_id(s, action_id@) == index);
        }
        let validation = validate_schedule_request(
            ScheduledActionId::new(self.slots[index].action_id.as_str()),
            self.slots[index].origin,
            ScheduleRequestTiming {
                submitted_at_frame: now_frame,
                trigger_frame: new_trigger_frame,
            },
            sample_rate,
        );
        match validation {
            Err(e) => Err(RtCommandSchedulerError::Validation(e)),
            Ok(_) => {
                let ghost old_slots = self.slots@;
                let mut slot = self.slots.remove(index);
                proof {
                    assert(old_slots[index as int].command is Some);
                    assert(self@ =~= s.remove(index as int));
                    assert forall|i: int| 0 <= i < self@.len() implies (#[trigger] self@[i]).action_id@
                        != slot.action_id@ by {
                        let oi = if i < index { i } else { i + 1 };
                        assert(old_slots[oi].action_id@ != old_slots[index as int].action_id@);
                        assert(self@[i] == slot_action(old_slots[oi]));
                    }
                }
                slot.trigger_frame = new_trigger_frame;
                self.insert_slot(slot);
                Ok(())
            },
        }
    }

    /// Command of the next pending action, in due order, if it is due at `now_frame`; that
    /// action becomes dispatched.
    pub fn pop_next_due(&mut self, now_frame: u64) -> (r: Option<C>)
        requires
            old(self).wf(),
        ensures
            final(self).wf(),
            old(self)@.len() > 0 && old(self)@[0].trigger_frame <= now_frame ==> {
                &&& r == Some(old(self)@[0].command)
                &&& final(self)@ == old(self)@.drop_first()
                &&& final(self).dispatched() == old(self).dispatched() + 1
            },
            !(old(self)@.len() > 0 && old(self)@[0].trigger_frame <= now_frame) ==> {
                &&& r is None
                &&& final(self)@ == old(self)@
                &&& final(self).dispatched() == old(self).dispatched()
            },
    {
        let f = self.due_frontier;
        if f >= self.slots.len() {
            return None;
        }
        if self.slots[f].trigger_frame > now_frame {
            return None;
        }
        let ghost old_slots = self.slots@;
        let command = self.slots[f].command.take();
        self.due_frontier = f + 1;
        proof {
            assert forall|i: int, j: int|
                0 <= i < j < self.slots@.len() implies slot_before(
                #[trigger] self.slots@[i],
                #[trigger] self.slots@[j],
            ) by {
                assert(slot_before(old_slots[i], old_slots[j]));
            }
            assert(self@ =~= old(self)@.drop_first());
        }
        command
    }

    /// Dispatches up to `max` due commands, in due order, appending them to `sink`, and
    /// returns how many it dispatched. With spare capacity in `sink` this does not allocate.
    pub fn drain_due(&mut self, now_frame: u64, max: usize, sink: &mut Vec<C>) -> (count: usize)
        requires
            old(self).wf(),
        ensures
            final(self).wf(),
            count == due_prefix_len(old(self)@, now_frame, max as nat),
            count <= max,
            final(sink)@.len() == old(sink)@.len() + count,
            final(sink)@.subrange(0, old(sink)@.len() as int) == old(sink)@,
            forall|i: int|
                0 <= i < count ==> final(sink)@[old(sink)@.len() + i] == (#[trigger] old(
                    self,
                )@[i]).command && old(self)@[i].trigger_frame <= now_frame,
            final(self)@ == old(self)@.skip(count as int),
            final(self).dispatched() == old(self).dispatched() + count,
    {
        let ghost start = self@;
        let ghost base = sink@;
        let mut count: usize = 0;
        assert(start.skip(0) =~= start);
        while count < max
            invariant_except_break
                self.wf(),
                count <= max,
                sink@.len() == base.len() + count,
                sink@.subrange(0, base.len() as int) == base,
                count <= start.len(),
                self@ == start.skip(count as int),
                self.dispatched() == old(self).dispatched() + count,
                start == old(self)@,
                base == old(sink)@,
                forall|i: int|
                    0 <= i < count ==> sink@[base.len() + i] == (#[trigger] start[i]).command
                        && start[i].trigger_frame <= now_frame,
                due_prefix_len(start, now_frame, max as nat) == count + due_prefix_len(
                    start.skip(count as int),
                    now_frame,
                    (max - count) as nat,
                ),
            ensures
                self.wf(),
                count == due_prefix_len(start, now_frame, max as nat),
                count <= max,
                sink@.len() == base.len() + count,
                sink@.subrange(0, base.len() as int) == base,
                self@ == start.skip(count as int),
                self.dispatched() == old(self).dispatched() + count,
                forall|i: int|
                    0 <= i < count ==> sink@[base.len() + i] == (#[trigger] start[i]).command
                        && start[i].trigger_frame <= now_frame,
            decreases max - count,
        {
            let ghost before = self@;
            let ghost sink_before = sink@;
            match self.pop_next_due(now_frame) {
                Some(command) => {
                    sink.push(command);
                    proof {
                        assert(start.skip(count as int).drop_first() =~= start.skip(count + 1));
                        assert(before[0] == start[count as int]);
                        assert(sink@.subrange(0, base.len() as int) =~= sink_before.subrange(
                            0,
                            base.len() as int,
                        ));
                        assert forall|i: int| 0 <= i < count + 1 implies sink@[base.len() + i]
                            == (#[trigger] start[i]).command && start[i].trigger_frame
                            <= now_frame by {
                            if i < count {
                                assert(sink@[base.len() + i] == sink_before[base.len() + i]);
                            }
                        }
                    }
                    count = count + 1;
                },
                None => {
                    break;
                },
            }
        }
        count
    }
}

impl<C> Default for RtCommandScheduler<C> {
    fn default() -> (s: Self)
        ensures
            s.wf(),
            s@ == Seq::<ScheduledRtCommand<C>>::empty(),
            s.dispatched() == 0,
    {
        RtCommandScheduler::new()
    }
}

/// The pending actions of a well-formed scheduler are in due order (trigger frame, then
/// id) and no two share an id.
pub proof fn lemma_pending_in_due_order<C>(s: &RtCommandScheduler<C>)
    requires
        s.wf(),
    ensures
        in_due_order(s@),
        distinct_ids(s@),
{
    s.lemma_view_in_due_order();
}

proof fn lemma_due_position_bounded<C>(s: Seq<ScheduledRtCommand<C>>, a: ScheduledRtCommand<C>)
    ensures
        due_position(s, a) <= s.len(),
    decreases s.len(),
{
    if s.len() > 0 {
        lemma_due_position_bounded(s.drop_last(), a);
    }
}

/// Cancelling an action right after scheduling it gives the action back and leaves the
/// pending actions as they were before: when no pending action has its id, the id is found
/// exactly where `schedule` inserted it.
pub proof fn lemma_cancel_undoes_schedule<C>(s: Seq<ScheduledRtCommand<C>>, a: ScheduledRtCommand<C>)
    requires
        distinct_ids(s),
        !has_id(s, a.action_id@),
    ensures
        has_id(insert_in_due_order(s, a), a.action_id@),
        index_of_id(insert_in_due_order(s, a), a.action_id@) == due_position(s, a),
        insert_in_due_order(s, a)[index_of_id(insert_in_due_order(s, a), a.action_id@)] == a,
        insert_in_due_order(s, a).remove(index_of_id(insert_in_due_order(s, a), a.action_id@))
            == s,
{
    let p = due_position(s, a) as int;
    lemma_due_position_bounded(s, a);
    let t = insert_in_due_order(s, a);
    assert(t[p] == a);
    assert(has_id(t, a.action_id@));
    let k = index_of_id(t, a.action_id@);
    if k != p {
        if k < p {
            assert(t[k] == s[k]);
        } else {
            assert(t[k] == s[k - 1]);
        }
        assert(false);
    }
    assert(t.remove(p) =~= s);
}

/// No due action is skipped: when the pending actions are in due order and the action at
/// position `k` is due at `now_frame`, a drain with room for more than `k` commands
/// dispatches it (together with every action before it).
pub proof fn lemma_due_actions_are_dispatched<C>(
    s: Seq<ScheduledRtCommand<C>>,
    now_frame: u64,
    max: nat,
    k: int,
)
    requires
        in_due_order(s),
        0 <= k < s.len(),
        s[k].trigger_frame <= now_frame,
        k < max,
    ensures
        due_prefix_len(s, now_frame, max) > k,
    decreases k,
{
    if k > 0 {
        assert(action_before(s[0], s[k]));
        let t = s.drop_first();
        assert forall|i: int, j: int| 0 <= i < j < t.len() implies action_before(
            #[trigger] t[i],
            #[trigger] t[j],
        ) by {
            assert(action_before(s[i + 1], s[j + 1]));
        }
        assert(t[k - 1] == s[k]);
        lemma_due_actions_are_dispatched(t, now_frame, (max - 1) as nat, k - 1);
    }
}

} // verus!
