//! Limits how often the desktop is measured, without losing a request to measure it.
use vstd::prelude::*;

verus! {

/// Nanoseconds in a millisecond.
pub const NANOS_PER_MILLI: u128 = 1_000_000;

/// What to do about a request for a computation.
#[derive(Clone, Copy, Debug, PartialEq, Eq, Structural)]
pub enum ComputationAction {
    /// Compute at once.
    ComputeNow,
    /// Start a timer and compute when it fires.
    Schedule { wait_nanos: u128 },
    /// Do nothing: the timer that is running covers this request, too.
    AlreadyPending,
}

/// The state of the limit. Points in time are nanoseconds on a clock that does not run backwards.
#[derive(Clone, Copy, Debug, PartialEq, Eq, Structural)]
pub struct Throttle {
    /// The least time between two computations, in milliseconds.
    pub period_ms: u64,
    /// When the last computation was completed.
    pub last_computation: Option<u64>,
    /// Before this time no computation may start.
    pub next_computation: Option<u128>,
    /// Whether a timer is running that will compute.
    pub pending_timer: bool,
}

impl Throttle {
    /// The least time between two computations, in nanoseconds.
    pub open spec fn period(self) -> int {
        self.period_ms * NANOS_PER_MILLI
    }

    /// Whether a computation may start at the time `now`.
    pub open spec fn allows(self, now: u64) -> bool {
        match self.next_computation {
            Some(time) => now >= time,
            None => true,
        }
    }

    /// What to do about a request at the time `now`.
    pub open spec fn decision(self, now: u64) -> ComputationAction {
        if self.pending_timer {
            ComputationAction::AlreadyPending
        } else if self.allows(now) {
            ComputationAction::ComputeNow
        } else {
            ComputationAction::Schedule { wait_nanos: (self.next_computation->0 - now) as u128 }
        }
    }

    /// The state after a request at the time `now` was decided on.
    pub open spec fn requested(self, now: u64) -> Throttle {
        Throttle {
            pending_timer: self.pending_timer || self.decision(now) is Schedule,
            ..self
        }
    }

    /// The state after a computation was completed at the time `now`.
    pub open spec fn computed(self, now: u64) -> Throttle {
        Throttle {
            last_computation: Some(now),
            next_computation: Some((now + self.period()) as u128),
            ..self
        }
    }

    /// The state after the timer fired and its computation was completed at the time `now`.
    pub open spec fn timer_computed(self, now: u64) -> Throttle {
        Throttle { pending_timer: false, ..self.computed(now) }
    }

    /// The state in which watching begins: the first request is not held back.
    pub open spec fn begun(self, period_ms: u64) -> Throttle {
        Throttle { period_ms, next_computation: None, ..self }
    }

    /// A limit of one computation every `period_ms` milliseconds, with none made so far.
    pub fn new(period_ms: u64) -> (throttle: Throttle)
        ensures
            throttle == (Throttle {
                period_ms,
                last_computation: None,
                next_computation: None,
                pending_timer: false,
            }),
    {
        Throttle {
            period_ms,
            last_computation: None,
            next_computation: None,
            pending_timer: false,
        }
    }

    /// Decides on a request for a computation at the time `now`.
    pub fn request(&mut self, now: u64) -> (action: ComputationAction)
        ensures
            action == old(self).decision(now),
            *final(self) == old(self).requested(now),
            match action {
                ComputationAction::Schedule { wait_nanos } => old(self).next_computation == Some(
                    (now + wait_nanos) as u128,
                ) && wait_nanos > 0,
                _ => true,
            },
    {
        if self.pending_timer {
            return ComputationAction::AlreadyPending;
        }
        match self.next_computation {
            Some(time) => {
                if now as u128 >= time {
                    ComputationAction::ComputeNow
                } else {
                    self.pending_timer = true;
                    ComputationAction::Schedule { wait_nanos: time - now as u128 }
                }
            },
            None => ComputationAction::ComputeNow,
        }
    }

    /// Notes that a computation was completed at the time `now`.
    pub fn note_computed(&mut self, now: u64)
        ensures
            *final(self) == old(self).computed(now),
            final(self).next_computation == Some((now + old(self).period()) as u128),
            now + old(self).period() <= u128::MAX,
    {
        let period: u128 = self.period_ms as u128 * NANOS_PER_MILLI;
        self.last_computation = Some(now);
        self.next_computation = Some(now as u128 + period);
    }

    /// Notes that the timer fired and that its computation was completed at the time `now`.
    pub fn note_timer_computed(&mut self, now: u64)
        ensures
            *final(self) == old(self).timer_computed(now),
    {
        self.note_computed(now);
        self.pending_timer = false;
    }

    /// Begins to watch: the first request is not held back.
    pub fn begin(&mut self, period_ms: u64)
        ensures
            *final(self) == old(self).begun(period_ms),
    {
        self.period_ms = period_ms;
        self.next_computation = None;
    }
}

/// What happens to a limit while the desktop is watched.
pub enum ThrottleEvent {
    /// A computation is requested at the time `now`; if it is made at once, it is completed at
    /// the time `completed`.
    Request { now: u64, completed: u64 },
    /// The timer fires at the time `now`; its computation is completed at the time `completed`.
    TimerFired { now: u64, completed: u64 },
}

/// A computation that was made.
pub struct Computation {
    pub started: u64,
    pub completed: u64,
}

/// Whether an event can happen: computations end after they start, and only a running timer
/// fires, and not before its wait is over.
pub open spec fn can_happen(throttle: Throttle, event: ThrottleEvent) -> bool {
    match event {
        ThrottleEvent::Request { now, completed } => now <= completed,
        ThrottleEvent::TimerFired { now, completed } => {
            &&& throttle.pending_timer
            &&& throttle.next_computation is Some
            &&& throttle.next_computation->0 <= now <= completed
        },
    }
}

/// The computation that an event leads to, if any.
pub open spec fn computation(throttle: Throttle, event: ThrottleEvent) -> Option<Computation> {
    match event {
        ThrottleEvent::Request { now, completed } => if throttle.decision(now) is ComputeNow {
            Some(Computation { started: now, completed })
        } else {
            None
        },
        ThrottleEvent::TimerFired { now, completed } => Some(
            Computation { started: now, completed },
        ),
    }
}

/// The state after an event.
pub open spec fn after(throttle: Throttle, event: ThrottleEvent) -> Throttle {
    match event {
        ThrottleEvent::Request { now, completed } => if throttle.decision(now) is ComputeNow {
            throttle.requested(now).computed(completed)
        } else {
            throttle.requested(now)
        },
        ThrottleEvent::TimerFired { now, completed } => throttle.timer_computed(completed),
    }
}

/// Whether the events can happen one after the other.
pub open spec fn can_happen_all(throttle: Throttle, events: Seq<ThrottleEvent>) -> bool
    decreases events.len(),
{
    events.len() > 0 ==> can_happen(throttle, events[0]) && can_happen_all(
        after(throttle, events[0]),
        events.drop_first(),
    )
}

/// The computations that the events lead to, one after the other.
pub open spec fn computations(throttle: Throttle, events: Seq<ThrottleEvent>) -> Seq<Computation>
    decreases events.len(),
{
    if events.len() == 0 {
        Seq::empty()
    } else {
        let rest = computations(after(throttle, events[0]), events.drop_first());
        match computation(throttle, events[0]) {
            Some(made) => seq![made] + rest,
            None => rest,
        }
    }
}

/// The state after all events.
pub open spec fn after_all(throttle: Throttle, events: Seq<ThrottleEvent>) -> Throttle
    decreases events.len(),
{
    if events.len() == 0 {
        throttle
    } else {
        after_all(after(throttle, events[0]), events.drop_first())
    }
}

/// No computation starts before the limit allows it.
proof fn lemma_no_early_computation(throttle: Throttle, events: Seq<ThrottleEvent>, j: int)
    requires
        can_happen_all(throttle, events),
        0 <= j < computations(throttle, events).len(),
    ensures
        throttle.allows(computations(throttle, events)[j].started),
        computations(throttle, events)[j].started <= computations(throttle, events)[j].completed,
    decreases events.len(),
{
    if events.len() > 0 {
        let next = after(throttle, events[0]);
        let rest = events.drop_first();
        match computation(throttle, events[0]) {
            Some(made) => {
                if j > 0 {
                    lemma_no_early_computation(next, rest, j - 1);
                    lemma_next_time_fits(throttle, made.completed);
                }
            },
            None => {
                lemma_no_early_computation(next, rest, j);
            },
        }
    }
}

/// The time of the next computation can be held in a `u128`.
proof fn lemma_next_time_fits(throttle: Throttle, now: u64)
    ensures
        0 <= now + throttle.period() <= u128::MAX,
        throttle.computed(now).next_computation == Some((now + throttle.period()) as u128),
        (now + throttle.period()) as u128 == now + throttle.period(),
        throttle.period() >= 0,
{
}

/// At most one computation is made per period: whatever is requested and whenever the timer
/// fires, a computation starts no earlier than one period after the end of each computation
/// before it.
pub proof fn law_at_most_one_computation_per_period(
    throttle: Throttle,
    events: Seq<ThrottleEvent>,
    i: int,
    j: int,
)
    requires
        can_happen_all(throttle, events),
        0 <= i < j < computations(throttle, events).len(),
    ensures
        computations(throttle, events)[j].started >= computations(throttle, events)[i].completed
            + throttle.period_ms * 1_000_000,
    decreases events.len(),
{
    if events.len() > 0 {
        let next = after(throttle, events[0]);
        let rest = events.drop_first();
        match computation(throttle, events[0]) {
            Some(made) => {
                if i == 0 {
                    lemma_no_early_computation(next, rest, j - 1);
                    lemma_next_time_fits(throttle, made.completed);
                } else {
                    law_at_most_one_computation_per_period(next, rest, i - 1, j - 1);
                }
            },
            None => {
                law_at_most_one_computation_per_period(next, rest, i, j);
            },
        }
    }
}

/// No request is lost: it leads to a computation at once, or a timer is running afterwards.
pub proof fn law_no_request_is_lost(throttle: Throttle, now: u64, completed: u64)
    ensures
        ({
            let event = ThrottleEvent::Request { now, completed };
            computation(throttle, event) == Some(Computation { started: now, completed }) || after(
                throttle,
                event,
            ).pending_timer
        }),
{
}

/// A timer that is running keeps running until it leads to a computation: after any events,
/// either one of them led to a computation or the timer is still running.
pub proof fn law_timer_runs_until_it_computes(throttle: Throttle, events: Seq<ThrottleEvent>)
    requires
        throttle.pending_timer,
    ensures
        computations(throttle, events).len() > 0 || after_all(throttle, events).pending_timer,
    decreases events.len(),
{
    if events.len() > 0 && computation(throttle, events[0]) is None {
        law_timer_runs_until_it_computes(after(throttle, events[0]), events.drop_first());
    }
}

/// Every request is answered: whatever happens after it, either the request or something after it
/// led to a computation, or a timer is running that will.
pub proof fn law_every_request_is_answered(throttle: Throttle, events: Seq<ThrottleEvent>)
    requires
        events.len() > 0,
        events[0] is Request,
    ensures
        computations(throttle, events).len() > 0 || after_all(throttle, events).pending_timer,
{
    if computation(throttle, events[0]) is None {
        law_timer_runs_until_it_computes(after(throttle, events[0]), events.drop_first());
    }
}

/// The first request after watching began leads to a computation at once, unless a timer is
/// running.
pub proof fn law_first_request_computes(throttle: Throttle, period_ms: u64, now: u64)
    requires
        !throttle.pending_timer,
    ensures
        throttle.begun(period_ms).decision(now) == ComputationAction::ComputeNow,
{
}

/// A request that comes while no timer is running and the period is over leads to a computation
/// at once. It starts no timer and leaves the limit as it is.
pub proof fn law_request_after_the_period_computes(
    throttle: &mut Throttle,
    now: u64,
    action: ComputationAction,
)
    requires
        call_ensures(Throttle::request, (throttle, now), action),
        !old(throttle).pending_timer,
        old(throttle).next_computation matches Some(time) ==> time <= now,
    ensures
        action == ComputationAction::ComputeNow,
        *final(throttle) == *old(throttle),
{
}

/// A request that comes within the period, while no timer is running, starts a timer that fires
/// at the very end of the period.
pub proof fn law_request_within_the_period_waits_for_its_end(
    throttle: &mut Throttle,
    now: u64,
    action: ComputationAction,
    end: u128,
)
    requires
        call_ensures(Throttle::request, (throttle, now), action),
        !old(throttle).pending_timer,
        old(throttle).next_computation == Some(end),
        now < end,
    ensures
        action matches ComputationAction::Schedule { wait_nanos } && now + wait_nanos == end,
        final(throttle).pending_timer,
        final(throttle).period_ms == old(throttle).period_ms,
        final(throttle).last_computation == old(throttle).last_computation,
        final(throttle).next_computation == old(throttle).next_computation,
{
}

/// While a timer is running, requests are left to it, and nothing changes.
pub proof fn law_requests_are_left_to_a_running_timer(
    throttle: &mut Throttle,
    now: u64,
    action: ComputationAction,
)
    requires
        call_ensures(Throttle::request, (throttle, now), action),
        old(throttle).pending_timer,
    ensures
        action == ComputationAction::AlreadyPending,
        *final(throttle) == *old(throttle),
{
}

/// A request is left to a timer only where one was running before, and a timer is taken as
/// running after a request only where it was before or where the request starts it.
pub proof fn law_no_timer_runs_unless_it_was_started(
    throttle: &mut Throttle,
    now: u64,
    action: ComputationAction,
)
    requires
        call_ensures(Throttle::request, (throttle, now), action),
    ensures
        action == ComputationAction::AlreadyPending ==> old(throttle).pending_timer,
        final(throttle).pending_timer ==> old(throttle).pending_timer || action is Schedule,
        action is Schedule ==> !old(throttle).pending_timer,
{
}

/// The period counts from the end of a computation: a request after it computes at once exactly
/// where a whole period has passed since, and else waits for the rest of the period.
pub proof fn law_period_counts_from_the_end_of_a_computation(
    computing: &mut Throttle,
    completed: u64,
    requesting: &mut Throttle,
    now: u64,
    action: ComputationAction,
)
    requires
        call_ensures(Throttle::note_computed, (computing, completed), ()),
        *old(requesting) == *final(computing),
        call_ensures(Throttle::request, (requesting, now), action),
        !old(computing).pending_timer,
    ensures
        now >= completed + old(computing).period_ms * 1_000_000 ==> action
            == ComputationAction::ComputeNow,
        now < completed + old(computing).period_ms * 1_000_000 ==> (
        action matches ComputationAction::Schedule { wait_nanos } && now + wait_nanos == completed
            + old(computing).period_ms * 1_000_000),
        final(computing).last_computation == Some(completed),
        final(computing).period_ms == old(computing).period_ms,
        final(computing).pending_timer == old(computing).pending_timer,
{
}

/// The period counts from the end of the timer's computation in the same way, and with it the
/// timer has stopped.
pub proof fn law_period_counts_from_the_end_of_the_timer(
    computing: &mut Throttle,
    completed: u64,
    requesting: &mut Throttle,
    now: u64,
    action: ComputationAction,
)
    requires
        call_ensures(Throttle::note_timer_computed, (computing, completed), ()),
        *old(requesting) == *final(computing),
        call_ensures(Throttle::request, (requesting, now), action),
    ensures
        !final(computing).pending_timer,
        now >= completed + old(computing).period_ms * 1_000_000 ==> action
            == ComputationAction::ComputeNow,
        now < completed + old(computing).period_ms * 1_000_000 ==> (
        action matches ComputationAction::Schedule { wait_nanos } && now + wait_nanos == completed
            + old(computing).period_ms * 1_000_000),
        final(computing).last_computation == Some(completed),
        final(computing).period_ms == old(computing).period_ms,
{
}

/// A limit that watching begins with holds the first request back by nothing, whatever happened
/// before, and from then on the new period counts.
pub proof fn law_beginning_forgets_the_last_period(
    beginning: &mut Throttle,
    period_ms: u64,
    requesting: &mut Throttle,
    now: u64,
    action: ComputationAction,
)
    requires
        call_ensures(Throttle::begin, (beginning, period_ms), ()),
        *old(requesting) == *final(beginning),
        call_ensures(Throttle::request, (requesting, now), action),
    ensures
        final(beginning).period_ms == period_ms,
        final(beginning).pending_timer == old(beginning).pending_timer,
        final(beginning).last_computation == old(beginning).last_computation,
        !old(beginning).pending_timer ==> action == ComputationAction::ComputeNow,
{
}

/// A new limit has the period that it was made with and computes on the first request.
pub proof fn law_new_limit_computes(
    period_ms: u64,
    made: Throttle,
    requesting: &mut Throttle,
    now: u64,
    action: ComputationAction,
)
    requires
        call_ensures(Throttle::new, (period_ms,), made),
        *old(requesting) == made,
        call_ensures(Throttle::request, (requesting, now), action),
    ensures
        made.period_ms == period_ms,
        made.last_computation is None,
        action == ComputationAction::ComputeNow,
        !final(requesting).pending_timer,
{
}

} // verus!
