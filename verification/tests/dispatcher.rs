use std::time::{Duration, Instant};

use rsb::dispatcher::{
    apply_token, decide_token, elapsed_since, new_limiter, Admission, CountDispatcher,
    Dispatcher, DurationDispatcher, Progress,
};
use rsb::limiter::Limiter;

const SEC: u64 = 1_000_000_000;

fn admitted_until_end(dispatcher: &mut CountDispatcher) -> u64 {
    let mut admitted = 0;
    loop {
        match dispatcher.try_apply_job() {
            Admission::Admitted => admitted += 1,
            Admission::Rejected => return admitted,
            Admission::Throttled => panic!("a run without limiter does not throttle"),
        }
    }
}

#[test]
fn a_count_run_admits_exactly_its_requests() {
    for total in [0u64, 1, 2, 7, 1000] {
        let mut dispatcher = CountDispatcher::new(total, &None);
        assert_eq!(admitted_until_end(&mut dispatcher), total);
        assert_eq!(dispatcher.try_apply_job(), Admission::Rejected);
    }
}

#[test]
fn workers_that_take_turns_share_the_requests_of_a_count_run() {
    let total = 1000;
    let workers = 10;
    let mut dispatcher = CountDispatcher::new(total, &None);
    let mut in_flight = vec![false; workers];
    let mut ended = vec![false; workers];
    let mut admitted = 0;
    let mut turn = 0;
    while ended.iter().any(|e| !e) {
        let worker = turn % workers;
        turn += 1;
        if ended[worker] {
            continue;
        }
        if in_flight[worker] {
            dispatcher.complete_job();
            in_flight[worker] = false;
            continue;
        }
        match dispatcher.try_apply_job() {
            Admission::Admitted => {
                admitted += 1;
                in_flight[worker] = true;
            }
            Admission::Rejected => ended[worker] = true,
            Admission::Throttled => panic!("a run without limiter does not throttle"),
        }
    }
    assert_eq!(admitted, total);
    assert!(dispatcher.is_canceled_or_done());
    assert_eq!(dispatcher.get_process(), Progress { numer: 1, denom: 1 });
}

#[test]
fn a_count_run_is_done_when_every_request_has_ended() {
    let mut dispatcher = CountDispatcher::new(3, &None);
    for _ in 0..3 {
        assert_eq!(dispatcher.try_apply_job(), Admission::Admitted);
    }
    assert!(!dispatcher.is_canceled_or_done());
    assert_eq!(dispatcher.get_process(), Progress { numer: 0, denom: 3 });
    dispatcher.complete_job();
    dispatcher.complete_job();
    assert!(!dispatcher.is_canceled_or_done());
    assert_eq!(dispatcher.get_process(), Progress { numer: 2, denom: 3 });
    assert_eq!(dispatcher.try_apply_job(), Admission::Rejected);
    dispatcher.complete_job();
    assert!(dispatcher.is_canceled_or_done());
    assert_eq!(dispatcher.get_process(), Progress { numer: 1, denom: 1 });
}

#[test]
fn every_report_of_an_ended_request_is_counted() {
    let mut dispatcher = CountDispatcher::new(2, &None);
    dispatcher.complete_job();
    assert!(!dispatcher.is_canceled_or_done());
    assert_eq!(dispatcher.get_process(), Progress { numer: 1, denom: 2 });
    dispatcher.complete_job();
    assert!(dispatcher.is_canceled_or_done());
    assert_eq!(dispatcher.get_process(), Progress { numer: 1, denom: 1 });
    // a run that is done stays done and admits nothing
    dispatcher.complete_job();
    assert!(dispatcher.is_canceled_or_done());
    assert_eq!(dispatcher.try_apply_job(), Admission::Rejected);
}

#[test]
fn a_run_of_no_requests_has_nothing_left_to_do() {
    let mut dispatcher = CountDispatcher::new(0, &None);
    assert!(!dispatcher.is_canceled_or_done());
    assert_eq!(dispatcher.get_process(), Progress { numer: 1, denom: 1 });
    assert_eq!(dispatcher.try_apply_job(), Admission::Rejected);
    dispatcher.complete_job();
    assert!(dispatcher.is_canceled_or_done());
}

#[test]
fn a_canceled_count_run_admits_nothing() {
    let mut dispatcher = CountDispatcher::new(500, &None);
    for _ in 0..200 {
        assert_eq!(dispatcher.try_apply_job(), Admission::Admitted);
        dispatcher.complete_job();
    }
    dispatcher.cancel();
    assert!(dispatcher.is_canceled_or_done());
    for _ in 0..50 {
        assert_eq!(dispatcher.try_apply_job(), Admission::Rejected);
        dispatcher.cancel();
    }
    assert_eq!(dispatcher.get_process(), Progress { numer: 200, denom: 500 });
}

#[test]
fn a_duration_run_admits_until_its_time_is_up() {
    let start = 1_000;
    let mut dispatcher = DurationDispatcher::new(3 * SEC, &None, start);
    assert_eq!(dispatcher.try_apply_job(start), Admission::Admitted);
    assert_eq!(dispatcher.try_apply_job(start + SEC), Admission::Admitted);
    assert_eq!(dispatcher.try_apply_job(start + 3 * SEC - 1), Admission::Admitted);
    assert_eq!(dispatcher.try_apply_job(start + 3 * SEC), Admission::Rejected);
    assert!(!dispatcher.is_canceled_or_done());
    dispatcher.complete_job(start + 3 * SEC - 1);
    assert!(!dispatcher.is_canceled_or_done());
    dispatcher.complete_job(start + 3 * SEC);
    assert!(dispatcher.is_canceled_or_done());
    assert_eq!(dispatcher.try_apply_job(start + 1), Admission::Rejected);
}

#[test]
fn a_clock_that_runs_backwards_counts_as_no_time() {
    let mut dispatcher = DurationDispatcher::new(SEC, &None, 5_000);
    assert_eq!(dispatcher.try_apply_job(10), Admission::Admitted);
    assert_eq!(dispatcher.get_process(10), Progress { numer: 0, denom: SEC });
    assert_eq!(elapsed_since(5_000, 10), 0);
    assert_eq!(elapsed_since(10, 5_000), 4_990);
}

#[test]
fn a_duration_run_of_no_time_admits_nothing() {
    let mut dispatcher = DurationDispatcher::new(0, &None, 7);
    assert_eq!(dispatcher.get_process(7), Progress { numer: 1, denom: 1 });
    assert_eq!(dispatcher.try_apply_job(7), Admission::Rejected);
    dispatcher.complete_job(7);
    assert!(dispatcher.is_canceled_or_done());
}

#[test]
fn progress_of_a_duration_run() {
    let mut dispatcher = DurationDispatcher::new(4 * SEC, &None, 0);
    assert_eq!(dispatcher.get_process(0), Progress { numer: 0, denom: 4 * SEC });
    assert_eq!(dispatcher.get_process(SEC), Progress { numer: SEC, denom: 4 * SEC });
    assert_eq!(dispatcher.get_process(4 * SEC - 1).numer, 4 * SEC - 1);
    assert_eq!(dispatcher.get_process(4 * SEC), Progress { numer: 1, denom: 1 });
    assert_eq!(dispatcher.get_process(9 * SEC), Progress { numer: 1, denom: 1 });
    dispatcher.cancel(2 * SEC);
    dispatcher.cancel(3 * SEC);
    assert_eq!(
        dispatcher.get_process(3 * SEC + 5),
        Progress { numer: 2 * SEC, denom: 4 * SEC }
    );
    assert_eq!(dispatcher.try_apply_job(2 * SEC + 1), Admission::Rejected);
    dispatcher.complete_job(5 * SEC);
    assert_eq!(dispatcher.get_process(5 * SEC), Progress { numer: 1, denom: 1 });
}

#[test]
fn either_kind_behind_one_interface() {
    let mut by_count = Dispatcher::Count(CountDispatcher::new(1, &None));
    let mut by_time = Dispatcher::Duration(DurationDispatcher::new(SEC, &None, 0));
    assert!(by_count.get_limiter().is_none());
    assert!(by_time.get_limiter().is_none());
    assert_eq!(by_count.try_apply_job(0), Admission::Admitted);
    assert_eq!(by_count.try_apply_job(0), Admission::Rejected);
    assert_eq!(by_time.try_apply_job(SEC - 1), Admission::Admitted);
    assert_eq!(by_time.try_apply_job(SEC), Admission::Rejected);
    assert_eq!(by_count.get_process(0), Progress { numer: 0, denom: 1 });
    by_count.complete_job(0);
    by_time.complete_job(SEC);
    assert!(by_count.is_canceled_or_done());
    assert!(by_time.is_canceled_or_done());

    let mut canceled = Dispatcher::Count(CountDispatcher::new(9, &None));
    canceled.cancel(3);
    assert!(canceled.is_canceled_or_done());
    assert_eq!(canceled.try_apply_job(4), Admission::Rejected);
}

#[test]
fn what_an_attempt_comes_to_once_the_limiter_has_answered() {
    for primed in [false, true] {
        for token in [false, true] {
            for limited in [false, true] {
                assert_eq!(
                    decide_token(true, limited, primed, token),
                    Admission::Rejected
                );
            }
            assert_eq!(
                decide_token(false, false, primed, token),
                Admission::Admitted
            );
        }
    }
    assert_eq!(decide_token(false, true, true, true), Admission::Admitted);
    assert_eq!(decide_token(false, true, true, false), Admission::Throttled);
    assert_eq!(decide_token(false, true, false, true), Admission::Throttled);
    assert_eq!(decide_token(false, true, false, false), Admission::Throttled);
}

#[test]
fn a_terminal_run_asks_the_limiter_for_nothing() {
    let limiter = Some(Limiter::new(1));
    assert_eq!(apply_token(true, &limiter, false), (Admission::Rejected, false));
    assert_eq!(apply_token(true, &None, true), (Admission::Rejected, true));
    assert_eq!(apply_token(false, &None, false), (Admission::Admitted, false));
    // nothing was taken out of the bucket: its one cell is still there
    assert!(limiter.as_ref().unwrap().allow_fast());
    assert!(!limiter.as_ref().unwrap().allow_fast());
}

#[test]
fn a_new_limiter_has_its_first_bucket_taken_out() {
    let (none, _) = new_limiter(&None);
    assert!(none.is_none());
    let (limiter, primed) = new_limiter(&Some(5));
    let limiter = limiter.unwrap();
    assert_eq!(limiter.rate(), 5);
    assert!(primed);
    assert!(!limiter.allow_fast());
}

#[test]
fn a_limiter_hands_out_its_bucket_and_no_more() {
    let limiter = Limiter::new(20);
    let mut taken = 0;
    for _ in 0..100 {
        if limiter.allow_fast() {
            taken += 1;
        }
    }
    // a full bucket, and what 100 calls give the bucket time to refill
    assert!((20..=22).contains(&taken), "took {taken}");
    assert!(!limiter.allow_n(20));

    let limiter = Limiter::new(20);
    assert!(limiter.allow_n(20));
    assert!(!limiter.allow_n(20));
}

#[test]
fn a_batch_beyond_the_bucket_is_never_taken() {
    for rate in [1u16, 20, u16::MAX] {
        let limiter = Limiter::new(rate);
        assert!(!limiter.allow_n(rate as usize + 1));
        assert!(!limiter.allow_n(u32::MAX as usize));
        // the bucket is as full as it was
        assert!(limiter.allow_n(rate as usize));
    }
}

#[test]
fn a_limited_run_keeps_to_its_rate() {
    let rate = 100u64;
    let total = 150u64;
    let mut dispatcher = CountDispatcher::new(total, &Some(rate as u16));
    assert_eq!(dispatcher.get_limiter().as_ref().unwrap().rate(), 100);
    let started = Instant::now();
    let mut admitted = 0u64;
    let mut throttled = 0u64;
    let mut within_first_second = 0u64;
    loop {
        match dispatcher.try_apply_job() {
            Admission::Admitted => {
                admitted += 1;
                if started.elapsed() < Duration::from_secs(1) {
                    within_first_second += 1;
                }
                dispatcher.complete_job();
            }
            Admission::Rejected => break,
            Admission::Throttled => throttled += 1,
        }
        assert!(started.elapsed() < Duration::from_secs(15));
    }
    let seconds = started.elapsed().as_secs_f64();
    assert_eq!(admitted, total);
    assert!(throttled > 0);
    // the first bucket is gone before the run starts, so a cell comes every
    // hundredth of a second and no burst opens the run
    assert!(within_first_second <= rate + 1, "{within_first_second}");
    assert!(seconds >= 1.45, "{seconds}");
    assert!((admitted as f64) <= rate as f64 * seconds + rate as f64);
}
