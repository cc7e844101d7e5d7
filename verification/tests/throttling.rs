use libvisdesk::{ComputationAction, Throttle};

const MS: u64 = 1_000_000;

#[test]
fn the_first_request_computes_at_once() {
    let mut throttle = Throttle::new(500);
    assert_eq!(throttle.request(3 * MS), ComputationAction::ComputeNow);
    assert!(!throttle.pending_timer);
}

#[test]
fn a_request_within_the_period_is_scheduled_for_its_end() {
    let mut throttle = Throttle::new(500);
    throttle.note_computed(10 * MS);
    assert_eq!(throttle.last_computation, Some(10 * MS));
    assert_eq!(
        throttle.request(110 * MS),
        ComputationAction::Schedule { wait_nanos: 400_000_000 }
    );
    assert!(throttle.pending_timer);
}

#[test]
fn requests_are_batched_while_the_timer_runs() {
    let mut throttle = Throttle::new(500);
    throttle.note_computed(0);
    let _ = throttle.request(MS);
    let pending = throttle;
    assert_eq!(throttle.request(2 * MS), ComputationAction::AlreadyPending);
    assert_eq!(throttle.request(900 * MS), ComputationAction::AlreadyPending);
    assert_eq!(throttle, pending);
}

#[test]
fn the_period_is_over_at_its_very_end() {
    let mut throttle = Throttle::new(500);
    throttle.note_computed(0);
    assert_eq!(throttle.request(500 * MS - 1), ComputationAction::Schedule { wait_nanos: 1 });
    let mut throttle = Throttle::new(500);
    throttle.note_computed(0);
    assert_eq!(throttle.request(500 * MS), ComputationAction::ComputeNow);
}

#[test]
fn a_computation_of_the_timer_begins_a_new_period() {
    let mut throttle = Throttle::new(500);
    throttle.note_computed(0);
    let _ = throttle.request(100 * MS);
    throttle.note_timer_computed(505 * MS);
    assert!(!throttle.pending_timer);
    assert_eq!(throttle.last_computation, Some(505 * MS));
    assert_eq!(
        throttle.request(510 * MS),
        ComputationAction::Schedule { wait_nanos: 495_000_000 }
    );
}

#[test]
fn a_period_of_zero_holds_nothing_back() {
    let mut throttle = Throttle::new(0);
    throttle.note_computed(7);
    assert_eq!(throttle.request(7), ComputationAction::ComputeNow);
}

#[test]
fn the_largest_period_does_not_overflow() {
    let mut throttle = Throttle::new(u64::MAX);
    throttle.note_computed(u64::MAX);
    assert_eq!(
        throttle.request(u64::MAX),
        ComputationAction::Schedule { wait_nanos: u64::MAX as u128 * 1_000_000 }
    );
}

#[test]
fn watching_anew_is_not_held_back_by_the_past() {
    let mut throttle = Throttle::new(500);
    throttle.note_computed(0);
    throttle.begin(2_000);
    assert_eq!(throttle.period_ms, 2_000);
    assert_eq!(throttle.request(1), ComputationAction::ComputeNow);
}

#[test]
fn computations_keep_their_distance_over_a_long_run() {
    let mut throttle = Throttle::new(20);
    let mut timer: Option<u64> = None;
    let mut last: Option<u64> = None;
    let mut made = 0;
    for step in 0..2_000u64 {
        let now = step * MS;
        if timer.is_some_and(|at| at <= now) {
            assert!(last.map_or(true, |before| now >= before + 20 * MS));
            throttle.note_timer_computed(now);
            timer = None;
            last = Some(now);
            made += 1;
        }
        if step % 7 < 3 {
            match throttle.request(now) {
                ComputationAction::ComputeNow => {
                    assert!(last.map_or(true, |before| now >= before + 20 * MS));
                    throttle.note_computed(now);
                    last = Some(now);
                    made += 1;
                }
                ComputationAction::Schedule { wait_nanos } => {
                    assert!(timer.is_none());
                    timer = Some(now + wait_nanos as u64);
                }
                ComputationAction::AlreadyPending => assert!(timer.is_some()),
            }
        }
    }
    assert_eq!(made, 100);
}

#[test]
fn every_request_is_answered() {
    let mut throttle = Throttle::new(50);
    let mut answered = 0;
    for step in 0..200 {
        let now = step * 7 * MS;
        match throttle.request(now) {
            ComputationAction::ComputeNow => {
                throttle.note_computed(now);
                answered += 1;
            }
            ComputationAction::Schedule { wait_nanos } => {
                assert!(throttle.pending_timer);
                assert!(0 < wait_nanos && wait_nanos <= 50_000_000);
            }
            ComputationAction::AlreadyPending => assert!(throttle.pending_timer),
        }
        if throttle.pending_timer && step % 10 == 9 {
            throttle.note_timer_computed(now);
            assert!(!throttle.pending_timer);
            answered += 1;
        }
    }
    assert_eq!(answered, 21);
}
