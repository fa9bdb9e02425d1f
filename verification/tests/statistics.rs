use rsb::numeric::Ratio;
use rsb::output::Micros;
use rsb::percentile::Percentile;
use rsb::statistics::{
    classify, ErrorHistogram, Message, RequestError, Statistics, StatusClass,
};

const MS: u64 = 1_000_000;

fn ok(status: u16, req_at: u64, rsp_at: u64) -> Message {
    Message::new(Ok(status), req_at, rsp_at)
}

fn failed(message: &str, status: Option<u16>, req_at: u64, rsp_at: u64) -> Message {
    Message::new(
        Err(RequestError {
            message: message.to_string(),
            status,
        }),
        req_at,
        rsp_at,
    )
}

fn percentiles(ppm: &[u32]) -> Vec<Percentile> {
    ppm.iter()
        .map(|p| Percentile::from_ppm(*p).unwrap())
        .collect()
}

fn ratio(r: Ratio) -> f64 {
    r.numer as f64 / r.denom as f64
}

fn with_rate_samples(samples: &[u64]) -> Statistics {
    let mut statistics = Statistics::new(0);
    let mut at = 0;
    for sample in samples {
        for _ in 0..*sample {
            statistics.handle_message(ok(200, at, at + 1));
            at += 1;
        }
        statistics.timer_per_second();
    }
    statistics
}

#[test]
fn status_codes_fall_into_their_buckets() {
    let codes = [100, 199, 200, 299, 300, 399, 400, 499, 500, 511, 599];
    let classes = [
        StatusClass::Informational,
        StatusClass::Informational,
        StatusClass::Success,
        StatusClass::Success,
        StatusClass::Redirection,
        StatusClass::Redirection,
        StatusClass::ClientError,
        StatusClass::ClientError,
        StatusClass::ServerError,
        StatusClass::ServerError,
        StatusClass::Other,
    ];
    for (code, class) in codes.iter().zip(classes.iter()) {
        assert_eq!(classify(*code), *class, "status {code}");
    }
    let mut statistics = Statistics::new(0);
    for code in codes {
        statistics.statistics_rsp_code(code);
    }
    assert_eq!(statistics.rsp1xx(), 2);
    assert_eq!(statistics.rsp2xx(), 2);
    assert_eq!(statistics.rsp3xx(), 2);
    assert_eq!(statistics.rsp4xx(), 2);
    assert_eq!(statistics.rsp5xx(), 2);
    assert_eq!(statistics.rsp_others(), 1);
}

#[test]
fn status_codes_at_the_edges_of_the_buckets() {
    assert_eq!(classify(0), StatusClass::Other);
    assert_eq!(classify(99), StatusClass::Other);
    assert_eq!(classify(512), StatusClass::Other);
    assert_eq!(classify(999), StatusClass::Other);
    assert_eq!(classify(u16::MAX), StatusClass::Other);
    assert_eq!(classify(503), StatusClass::ServerError);
}

#[test]
fn new_statistics_are_empty() {
    let statistics = Statistics::new(17);
    assert_eq!(statistics.get_total(), 0);
    assert_eq!(statistics.get_total_success(), 0);
    assert!(statistics.errors().is_empty());
    assert!(statistics.req_per_second().is_empty());
    assert!(statistics.used_time().is_empty());
    assert!(statistics.latencies().is_empty());
    assert!(!statistics.is_stopped());
    assert_eq!(statistics.max_req_per_second(), 0);
    assert_eq!(statistics.avg_req_per_second(), Ratio { numer: 0, denom: 1 });
    assert_eq!(statistics.variance_per_second(), Ratio { numer: 0, denom: 1 });
    assert_eq!(statistics.throughput(), Ratio { numer: 0, denom: 1 });
    assert_eq!(Statistics::default().get_total(), 0);
}

#[test]
fn a_response_is_counted_with_its_latency() {
    let mut statistics = Statistics::new(0);
    statistics.handle_message(ok(204, 10, 10 + 3 * MS));
    assert_eq!(statistics.get_total(), 1);
    assert_eq!(statistics.get_total_success(), 1);
    assert_eq!(statistics.rsp2xx(), 1);
    assert_eq!(statistics.used_time(), &vec![3 * MS]);
    assert!(statistics.errors().is_empty());
}

#[test]
fn a_failure_is_counted_without_latency() {
    let mut statistics = Statistics::new(0);
    statistics.handle_message(failed("connection refused", None, 0, 5));
    assert_eq!(statistics.get_total(), 1);
    assert_eq!(statistics.get_total_success(), 0);
    assert!(statistics.used_time().is_empty());
    assert_eq!(statistics.errors().len(), 1);
    assert_eq!(statistics.errors()[0].message, "connection refused");
    assert_eq!(statistics.errors()[0].count, 1);
    assert_eq!(
        statistics.rsp1xx()
            + statistics.rsp2xx()
            + statistics.rsp3xx()
            + statistics.rsp4xx()
            + statistics.rsp5xx()
            + statistics.rsp_others(),
        0
    );
}

#[test]
fn a_failure_with_a_status_enters_its_bucket() {
    let mut statistics = Statistics::new(0);
    statistics.handle_message(failed("bad gateway", Some(502), 0, 5));
    statistics.handle_resp_error(RequestError {
        message: "teapot".to_string(),
        status: Some(418),
    });
    assert_eq!(statistics.get_total(), 1);
    assert_eq!(statistics.get_total_success(), 0);
    assert_eq!(statistics.rsp5xx(), 1);
    assert_eq!(statistics.rsp4xx(), 1);
    assert!(statistics.used_time().is_empty());
}

#[test]
fn failures_are_counted_by_their_text() {
    let mut statistics = Statistics::new(0);
    for message in ["timeout", "refused", "timeout", "dns", "refused", "timeout"] {
        statistics.handle_message(failed(message, None, 0, 0));
    }
    let errors = statistics.errors();
    assert_eq!(errors.len(), 3);
    assert_eq!((errors[0].message.as_str(), errors[0].count), ("timeout", 3));
    assert_eq!((errors[1].message.as_str(), errors[1].count), ("refused", 2));
    assert_eq!((errors[2].message.as_str(), errors[2].count), ("dns", 1));
    assert_eq!(statistics.get_total(), 6);
}

#[test]
fn every_tick_takes_the_count_of_its_second() {
    let mut statistics = Statistics::new(0);
    assert!(!statistics.timer_per_second());
    statistics.handle_message(ok(200, 0, 1));
    statistics.handle_message(ok(200, 0, 1));
    statistics.handle_message(failed("timeout", None, 0, 1));
    assert!(!statistics.timer_per_second());
    statistics.handle_message(ok(500, 0, 1));
    statistics.stop_timer(42);
    assert!(statistics.is_stopped());
    assert!(statistics.timer_per_second());
    assert_eq!(statistics.req_per_second(), &vec![0, 2, 1]);
}

#[test]
fn the_last_rate_sample_is_left_out_once_there_are_more_than_two() {
    let mut statistics = with_rate_samples(&[10, 20, 30, 7]);
    statistics.summary(1, &percentiles(&[]));
    assert_eq!(statistics.avg_req_per_second(), Ratio { numer: 60, denom: 3 });
    assert_eq!(statistics.max_req_per_second(), 30);
    assert_eq!(statistics.variance_per_second(), Ratio { numer: 600, denom: 9 });

    let mut statistics = with_rate_samples(&[10, 40]);
    statistics.summary(1, &percentiles(&[]));
    assert_eq!(statistics.avg_req_per_second(), Ratio { numer: 50, denom: 2 });
    assert_eq!(statistics.max_req_per_second(), 40);
    assert_eq!(statistics.variance_per_second(), Ratio { numer: 900, denom: 4 });

    let mut statistics = with_rate_samples(&[3, 2, 90]);
    statistics.calculate_max_per_second();
    assert_eq!(statistics.max_req_per_second(), 3);
}

#[test]
fn standard_deviation_of_the_rate() {
    let mut statistics = with_rate_samples(&[10, 10, 10, 10]);
    statistics.calculate_stdev_per_second();
    assert_eq!(ratio(statistics.variance_per_second()).sqrt(), 0.0);

    let mut statistics = with_rate_samples(&[0, 20]);
    statistics.calculate_stdev_per_second();
    assert_eq!(statistics.variance_per_second(), Ratio { numer: 400, denom: 4 });
    assert_eq!(ratio(statistics.variance_per_second()).sqrt(), 10.0);
    statistics.calculate_avg_per_second();
    assert_eq!(ratio(statistics.avg_req_per_second()), 10.0);
}

#[test]
fn rate_figures_agree_with_floating_point() {
    let samples = [13u64, 21, 8, 34, 55, 3, 99];
    let mut statistics = with_rate_samples(&samples);
    statistics.summary(1, &percentiles(&[]));
    let kept = &samples[..samples.len() - 1];
    let mean = kept.iter().sum::<u64>() as f64 / kept.len() as f64;
    let variance = kept
        .iter()
        .map(|x| (*x as f64 - mean) * (*x as f64 - mean))
        .sum::<f64>()
        / kept.len() as f64;
    assert!((ratio(statistics.avg_req_per_second()) - mean).abs() < 1e-9);
    assert!((ratio(statistics.variance_per_second()).sqrt() - variance.sqrt()).abs() < 1e-9);
    assert_eq!(statistics.max_req_per_second(), 55);
}

#[test]
fn latency_figures() {
    let mut statistics = Statistics::new(0);
    for latency in [4 * MS, 1 * MS, 3 * MS, 2 * MS] {
        statistics.handle_message(ok(200, 100, 100 + latency));
    }
    statistics.calculate_elapsed_time();
    assert_eq!(statistics.avg_req_used_time(), 2_500_000);
    assert_eq!(statistics.max_req_used_time(), 4_000_000);
    // the variance is 1.25e12 square nanoseconds, its root 1118033.98...
    assert_eq!(statistics.stdev_req_used_time(), 1_118_033);
    assert_eq!(statistics.used_time(), &vec![MS, 2 * MS, 3 * MS, 4 * MS]);
}

#[test]
fn mean_latency_is_rounded_down() {
    let mut statistics = Statistics::new(0);
    for latency in [1, 2, 2] {
        statistics.handle_message(ok(200, 0, latency));
    }
    statistics.calculate_elapsed_time();
    assert_eq!(statistics.avg_req_used_time(), 1);
    assert_eq!(statistics.max_req_used_time(), 2);
    // deviations from 1: 0 + 1 + 1, over 3 is 0, whose root is 0
    assert_eq!(statistics.stdev_req_used_time(), 0);
}

#[test]
fn standard_deviation_of_the_latency_takes_the_integer_root() {
    let mut statistics = Statistics::new(0);
    for latency in [0, 20] {
        statistics.handle_message(ok(200, 0, latency));
    }
    statistics.calculate_elapsed_time();
    assert_eq!(statistics.avg_req_used_time(), 10);
    assert_eq!(statistics.stdev_req_used_time(), 10);

    let mut statistics = Statistics::new(0);
    for latency in [0, 0, 0, 1_000_000_007] {
        statistics.handle_message(ok(200, 0, latency));
    }
    statistics.calculate_elapsed_time();
    let mean = 250_000_001u128;
    let variance = (3 * mean * mean + (1_000_000_007 - mean) * (1_000_000_007 - mean)) / 4;
    let root = statistics.stdev_req_used_time() as u128;
    assert!(root * root <= variance && variance < (root + 1) * (root + 1));
    assert_ne!(root, variance);
}

#[test]
fn huge_latencies_do_not_overflow() {
    let mut statistics = Statistics::new(0);
    for latency in [u64::MAX, 0, u64::MAX, 0] {
        statistics.handle_message(ok(200, 0, latency));
    }
    statistics.calculate_elapsed_time();
    assert_eq!(statistics.avg_req_used_time(), u64::MAX / 2);
    assert_eq!(statistics.max_req_used_time(), u64::MAX);
    // the sum of the squared deviations is beyond 128 bits and is limited
    let root = statistics.stdev_req_used_time() as u128;
    let variance = u128::MAX / 4;
    assert!(root * root <= variance && variance < (root + 1) * (root + 1));
}

#[test]
fn throughput_follows_from_connections_and_mean_latency() {
    let mut statistics = Statistics::new(0);
    for latency in [4 * MS, 1 * MS, 3 * MS, 2 * MS] {
        statistics.handle_message(ok(200, 0, latency));
    }
    statistics.calculate_elapsed_time();
    statistics.calculate_throughput(50);
    assert_eq!(
        statistics.throughput(),
        Ratio {
            numer: 50_000_000_000,
            denom: 2_500_000
        }
    );
    assert_eq!(ratio(statistics.throughput()), 20_000.0);
}

#[test]
fn throughput_stays_zero_without_latency() {
    let mut statistics = Statistics::new(0);
    statistics.handle_message(ok(200, 5, 5));
    statistics.calculate_elapsed_time();
    statistics.calculate_throughput(50);
    assert_eq!(statistics.avg_req_used_time(), 0);
    assert_eq!(statistics.throughput(), Ratio { numer: 0, denom: 1 });
}

#[test]
fn percentile_latency_is_the_mean_of_the_fastest_share() {
    let mut statistics = Statistics::new(0);
    for latency in [90, 10, 50, 30, 70, 20, 100, 40, 80, 60] {
        statistics.handle_message(ok(200, 0, latency));
    }
    statistics.calculate_latencies(&percentiles(&[500_000, 750_000, 900_000, 990_000]));
    let latencies: Vec<(u32, u64)> = statistics
        .latencies()
        .iter()
        .map(|(p, nanos)| (p.ppm(), *nanos))
        .collect();
    // 5, 7, 9 and 9 of the ten samples
    assert_eq!(
        latencies,
        vec![(500_000, 30), (750_000, 40), (900_000, 50), (990_000, 50)]
    );
    assert_eq!(
        statistics.used_time(),
        &vec![10, 20, 30, 40, 50, 60, 70, 80, 90, 100]
    );
}

#[test]
fn percentiles_with_an_empty_share_are_left_out() {
    let mut statistics = Statistics::new(0);
    for latency in [7, 9, 8] {
        statistics.handle_message(ok(200, 0, latency));
    }
    // a tenth and three tenths of three samples are no sample, a half is one
    statistics.calculate_latencies(&percentiles(&[100_000, 500_000, 300_000, 999_999]));
    let latencies: Vec<(u32, u64)> = statistics
        .latencies()
        .iter()
        .map(|(p, nanos)| (p.ppm(), *nanos))
        .collect();
    assert_eq!(latencies, vec![(500_000, 7), (999_999, 7)]);
}

#[test]
fn percentile_latency_survives_json() {
    let mut statistics = Statistics::new(0);
    for latency in [1_234_567u64, 7_654_321, 2_000_000, 999] {
        statistics.handle_message(ok(200, 0, latency));
    }
    statistics.calculate_latencies(&percentiles(&[750_000]));
    let nanos = statistics.latencies()[0].1;
    assert_eq!(nanos, (999 + 1_234_567 + 2_000_000) / 3);
    let micros = Micros::from_nanos(nanos).value();
    let written = serde_json::to_string(&micros).unwrap();
    let read: u64 = serde_json::from_str(&written).unwrap();
    assert_eq!(read, micros);
    let largest = serde_json::to_string(&u64::MAX).unwrap();
    assert_eq!(serde_json::from_str::<u64>(&largest).unwrap(), u64::MAX);
}

#[test]
fn summary_of_nothing_changes_nothing() {
    let mut statistics = Statistics::new(0);
    statistics.summary(50, &percentiles(&[500_000, 990_000]));
    assert_eq!(statistics.max_req_per_second(), 0);
    assert_eq!(statistics.avg_req_per_second(), Ratio { numer: 0, denom: 1 });
    assert_eq!(statistics.variance_per_second(), Ratio { numer: 0, denom: 1 });
    assert_eq!(statistics.avg_req_used_time(), 0);
    assert_eq!(statistics.max_req_used_time(), 0);
    assert_eq!(statistics.stdev_req_used_time(), 0);
    assert_eq!(statistics.throughput(), Ratio { numer: 0, denom: 1 });
    assert!(statistics.latencies().is_empty());
}

#[test]
fn summary_draws_every_figure_and_drops_the_samples() {
    let mut statistics = Statistics::new(0);
    for second in 0..4u64 {
        for k in 0..(second + 1) * 2 {
            statistics.handle_message(ok(200, 0, (k + 1) * MS));
        }
        statistics.timer_per_second();
    }
    statistics.handle_message(failed("reset", None, 0, 9));
    statistics.summary(10, &percentiles(&[500_000]));
    assert_eq!(statistics.get_total(), 21);
    assert_eq!(statistics.get_total_success(), 20);
    // samples 2, 4, 6 and 8, of which the last is left out
    assert_eq!(statistics.max_req_per_second(), 6);
    assert_eq!(statistics.avg_req_per_second(), Ratio { numer: 12, denom: 3 });
    assert_eq!(statistics.variance_per_second(), Ratio { numer: 3 * 56 - 144, denom: 9 });
    assert_eq!(statistics.max_req_used_time(), 8 * MS);
    // twenty samples: 4x1, 4x2, 3x3, 3x4, 2x5, 2x6, 7 and 8 ms, 70 ms in all
    assert_eq!(statistics.avg_req_used_time(), 70 * MS / 20);
    assert_eq!(
        statistics.throughput(),
        Ratio {
            numer: 10_000_000_000,
            denom: (70 * MS / 20) as u128
        }
    );
    assert_eq!(statistics.latencies().len(), 1);
    // the ten fastest: 4x1, 4x2, 2x3
    assert_eq!(statistics.latencies()[0].1, 18 * MS / 10);
    assert!(statistics.used_time().is_empty());
    assert_eq!(statistics.errors().len(), 1);
}

#[test]
fn the_start_of_the_run_can_be_moved() {
    let mut statistics = Statistics::new(5);
    statistics.reset_start_time(99);
    statistics.handle_message(ok(200, 100, 101));
    assert_eq!(statistics.get_total(), 1);
}

#[test]
fn a_histogram_has_one_entry_for_each_text() {
    let mut histogram = ErrorHistogram::new();
    assert!(histogram.entries().is_empty());
    for text in ["b", "a", "b", "", "a", "b", "B"] {
        histogram.count(text.to_string());
    }
    let entries: Vec<(&str, u64)> = histogram
        .entries()
        .iter()
        .map(|e| (e.message.as_str(), e.count))
        .collect();
    assert_eq!(entries, vec![("b", 3), ("a", 2), ("", 1), ("B", 1)]);
}
