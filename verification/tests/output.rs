use std::time::Duration;

use rsb::arg::Arg;
use rsb::numeric::Ratio;
use rsb::output::{
    center_text, decimal_text, fixed2_text, left_text, nanos_to_text, ratio_hundredths,
    ratio_root_hundredths, right_text, text_output, Latency, Micros, Output,
};
use rsb::percentile::Percentile;
use rsb::statistics::{Message, RequestError, Statistics};

const MS: u64 = 1_000_000;

fn sample_statistics() -> Statistics {
    let mut statistics = Statistics::new(0);
    for (second, count) in [13u64, 21, 8, 34].iter().enumerate() {
        for k in 0..*count {
            let latency = (second as u64 + 1) * MS + k * 12_345;
            statistics.handle_message(Message::new(Ok(200), 5, 5 + latency));
        }
        statistics.timer_per_second();
    }
    statistics.handle_message(Message::new(Ok(404), 0, 777));
    statistics.handle_message(Message::new(Ok(503), 0, 3_000_000_000));
    for message in ["connection refused", "timed out", "connection refused"] {
        statistics.handle_message(Message::new(
            Err(RequestError {
                message: message.to_string(),
                status: None,
            }),
            0,
            1,
        ));
    }
    statistics
}

fn float(r: Ratio) -> f64 {
    r.numer as f64 / r.denom as f64
}

/// The report as floating-point formatting writes it.
fn expected_report(output: &Output, statistics: &Statistics, latencies: bool) -> String {
    let mut text = String::new();
    text.push_str(&format!(
        "{:<14}{:^14}{:^14}{:^14}
  {:<12}{:^14.2}{:^14.2}{:^14.2}
  {:<12}{:^14}{:^14}{:^14}\n",
        "Statistics",
        "Avg",
        "Stdev",
        "Max",
        "Reqs/sec",
        float(output.avg_req_per_second),
        float(output.variance_per_second).sqrt(),
        output.max_req_per_second as f64,
        "Latency",
        format!("{:.2?}", Duration::from_nanos(statistics.avg_req_used_time())),
        format!("{:.2?}", Duration::from_nanos(statistics.stdev_req_used_time())),
        format!("{:.2?}", Duration::from_nanos(statistics.max_req_used_time())),
    ));
    if latencies && !statistics.latencies().is_empty() {
        text.push_str(&format!("  {:<20}\n", "Latency Distribution"));
        for (percent, nanos) in statistics.latencies() {
            text.push_str(&format!(
                "  {:^10}{:^10}\n",
                format!("{:.0}%", percent.ppm() as f32 / 1_000_000f32 * 100f32),
                format!("{:.2?}", Duration::from_nanos(*nanos)),
            ));
        }
    }
    text.push_str(&format!("  {:<20}\n", "HTTP codes:"));
    text.push_str(&format!(
        "    1XX - {}, 2XX - {}, 3XX - {}, 4XX - {}, 5XX - {}\n",
        output.rsp1xx, output.rsp2xx, output.rsp3xx, output.rsp4xx, output.rsp5xx,
    ));
    text.push_str(&format!("    others - {}\n", output.rsp_others));
    if !output.errors.is_empty() {
        text.push_str(&format!("  {:<10}\n", "Errors:"));
        for entry in &output.errors {
            let (k, v) = (&entry.message, entry.count);
            text.push_str(&format!("    \"{k:>}\":{v:>8}\n"));
        }
    }
    text.push_str(&format!(
        "  {:<12}{:>10.2}/s",
        "Throughput:",
        float(output.throughput)
    ));
    text
}

fn options(latencies: bool) -> Arg {
    let mut arg = Arg::new("http://localhost/".to_string());
    arg.latencies = latencies;
    arg
}

#[test]
fn test_micros_convert() {
    let duration = Duration::from_micros(1);
    let micros: Micros = duration.into();
    assert_eq!("1.00µs", micros.to_string());

    let duration = Duration::from_millis(1);
    let micros: Micros = (&duration).into();
    assert_eq!("1.00ms", micros.to_string());

    let duration = Duration::from_millis(1);
    let micros = Micros::from(duration);
    assert_eq!("1.00ms", micros.to_string());
}

#[test]
fn micros_of_a_span_are_its_whole_microseconds() {
    assert_eq!(Micros::from(Duration::from_nanos(999)).value(), 0);
    assert_eq!(Micros::from(Duration::from_nanos(1_999)).value(), 1);
    assert_eq!(Micros::from(Duration::from_secs(3)).value(), 3_000_000);
    assert_eq!(Micros::from(&Duration::new(2, 5_000)).value(), 2_000_005);
    assert_eq!(Micros::from_nanos(1_999).value(), 1);
    assert_eq!(Micros::from_nanos(u64::MAX).value(), u64::MAX / 1_000);
    assert_eq!(Micros::new(77).value(), 77);
    // more microseconds than 64 bits hold are cut to their low 64 bits
    let long = Duration::new(u64::MAX, 0);
    assert_eq!(
        Micros::from(long).value(),
        (u64::MAX as u128 * 1_000_000) as u64
    );
}

#[test]
fn micros_are_written_with_two_decimals_and_their_unit() {
    assert_eq!(Micros::new(0).to_string(), "0.00ns");
    assert_eq!(Micros::new(999).to_string(), "999.00µs");
    assert_eq!(Micros::new(1_500).to_string(), "1.50ms");
    assert_eq!(Micros::new(2_345_678).to_string(), "2.35s");
    assert_eq!(
        Micros::new(u64::MAX).to_string(),
        format!("{:.2?}", Duration::from_micros(u64::MAX))
    );
    assert_eq!(nanos_to_text(1).as_str(), "1.00ns");
    assert_eq!(nanos_to_text(1_118_033).as_str(), "1.12ms");
    assert_eq!(
        nanos_to_text(u64::MAX),
        format!("{:.2?}", Duration::from_nanos(u64::MAX))
    );
}

#[test]
fn a_latency_holds_its_share_and_its_time() {
    let latency = Latency::new(Percentile::from_ppm(990_000).unwrap(), Micros::new(42));
    assert_eq!(latency.percent.ppm(), 990_000);
    assert_eq!(latency.micros.value(), 42);
}

#[test]
fn numbers_in_base_ten() {
    for n in [0u128, 1, 9, 10, 11, 99, 100, 101, 12_345, u64::MAX as u128, u128::MAX] {
        assert_eq!(decimal_text(n), n.to_string());
    }
}

#[test]
fn hundredths_with_two_decimals() {
    assert_eq!(fixed2_text(0), "0.00");
    assert_eq!(fixed2_text(5), "0.05");
    assert_eq!(fixed2_text(50), "0.50");
    assert_eq!(fixed2_text(123), "1.23");
    assert_eq!(fixed2_text(1_519_711), "15197.11");
    assert_eq!(fixed2_text(1_000_000), "10000.00");
}

#[test]
fn fractions_are_rounded_to_the_nearest_hundredth() {
    assert_eq!(ratio_hundredths(Ratio { numer: 0, denom: 1 }), 0);
    assert_eq!(ratio_hundredths(Ratio { numer: 1, denom: 3 }), 33);
    assert_eq!(ratio_hundredths(Ratio { numer: 2, denom: 3 }), 67);
    assert_eq!(ratio_hundredths(Ratio { numer: 60, denom: 3 }), 2000);
    // halfway between two hundredths the even one is taken
    assert_eq!(ratio_hundredths(Ratio { numer: 1, denom: 8 }), 12);
    assert_eq!(ratio_hundredths(Ratio { numer: 3, denom: 8 }), 38);
    assert_eq!(ratio_hundredths(Ratio { numer: 1, denom: 200 }), 0);
    assert_eq!(ratio_hundredths(Ratio { numer: 3, denom: 200 }), 2);
    assert_eq!(ratio_hundredths(Ratio { numer: 5, denom: 0 }), 0);
    assert_eq!(
        ratio_hundredths(Ratio {
            numer: u128::MAX,
            denom: 1
        }),
        u128::MAX
    );
    assert_eq!(
        ratio_hundredths(Ratio {
            numer: u128::MAX,
            denom: 2
        }),
        u128::MAX / 2 + 1
    );
}

#[test]
fn fractions_agree_with_floating_point_away_from_ties() {
    for denom in 1..60u128 {
        for numer in 0..400u128 {
            let tie = (200 * numer) % denom == 0 && (200 * numer / denom) % 2 == 1;
            if tie {
                continue;
            }
            let expected = format!("{:.2}", numer as f64 / denom as f64);
            let text = fixed2_text(ratio_hundredths(Ratio { numer, denom }));
            assert_eq!(text, expected, "{numer}/{denom}");
        }
    }
}

#[test]
fn roots_are_rounded_to_the_nearest_hundredth() {
    assert_eq!(ratio_root_hundredths(Ratio { numer: 0, denom: 1 }), 0);
    assert_eq!(ratio_root_hundredths(Ratio { numer: 400, denom: 4 }), 1000);
    assert_eq!(ratio_root_hundredths(Ratio { numer: 600, denom: 9 }), 816);
    assert_eq!(ratio_root_hundredths(Ratio { numer: 2, denom: 1 }), 141);
    assert_eq!(ratio_root_hundredths(Ratio { numer: 3, denom: 1 }), 173);
    assert_eq!(ratio_root_hundredths(Ratio { numer: 1, denom: 0 }), 0);
    for denom in [1u128, 4, 9, 16, 49] {
        for numer in 0..300u128 {
            let root = (numer as f64 / denom as f64).sqrt();
            let scaled = root * 100.0;
            if (scaled - scaled.floor() - 0.5).abs() < 1e-6 {
                continue;
            }
            let expected = format!("{root:.2}");
            let text = fixed2_text(ratio_root_hundredths(Ratio { numer, denom }));
            assert_eq!(text, expected, "root of {numer}/{denom}");
        }
    }
}

#[test]
fn fields_are_filled_with_blanks() {
    for text in ["", "a", "Avg", "Stdev", "Statistics", "1.00µs", "a text that is too long"] {
        for width in [0usize, 1, 5, 10, 14] {
            assert_eq!(left_text(text, width), format!("{text:<width$}"));
            assert_eq!(right_text(text, width), format!("{text:>width$}"));
            assert_eq!(center_text(text, width), format!("{text:^width$}"));
        }
    }
}

#[test]
fn output_holds_the_figures_of_the_statistics() {
    let mut statistics = sample_statistics();
    let percentiles = vec![
        Percentile::from_ppm(500_000).unwrap(),
        Percentile::from_ppm(990_000).unwrap(),
    ];
    statistics.summary(50, &percentiles);
    let output = Output::from_statistics(&statistics);
    assert_eq!(output.avg_req_per_second, Ratio { numer: 42, denom: 3 });
    assert_eq!(output.max_req_per_second, 21);
    assert_eq!(
        output.variance_per_second,
        Ratio {
            numer: 3 * (169 + 441 + 64) - 42 * 42,
            denom: 9
        }
    );
    assert_eq!(
        output.avg_req_used_time.value(),
        statistics.avg_req_used_time() / 1_000
    );
    assert_eq!(
        output.stdev_req_used_time.value(),
        statistics.stdev_req_used_time() / 1_000
    );
    assert_eq!(output.max_req_used_time.value(), 3_000_000);
    assert_eq!(output.throughput, statistics.throughput());
    assert_eq!(
        (output.rsp1xx, output.rsp2xx, output.rsp3xx),
        (0, 76, 0)
    );
    assert_eq!(
        (output.rsp4xx, output.rsp5xx, output.rsp_others),
        (1, 1, 0)
    );
    assert_eq!(output.errors.len(), 2);
    assert_eq!(output.errors[0].message, "connection refused");
    assert_eq!(output.errors[0].count, 2);
    assert_eq!(output.errors[1].message, "timed out");
    assert_eq!(output.errors[1].count, 1);
    assert_eq!(output.latencies.len(), 2);
    for (latency, (percent, nanos)) in output.latencies.iter().zip(statistics.latencies()) {
        assert_eq!(latency.percent.ppm(), percent.ppm());
        assert_eq!(latency.micros.value(), nanos / 1_000);
    }
}

#[test]
fn the_report_is_laid_out_in_fixed_columns() {
    let mut statistics = Statistics::new(0);
    for latency in [4 * MS, MS, 3 * MS, 2 * MS] {
        statistics.handle_message(Message::new(Ok(200), 0, latency));
    }
    statistics.timer_per_second();
    statistics.timer_per_second();
    let arg = options(true);
    statistics.summary(50, &arg.percentiles);
    let text = text_output(&statistics, &arg);
    let lines = [
        "Statistics         Avg          Stdev          Max      ",
        "  Reqs/sec         2.00          2.00          4.00     ",
        "  Latency         2.50ms        1.12ms        4.00ms    ",
        "  Latency Distribution",
        "     50%      1.50ms  ",
        "     75%      2.00ms  ",
        "     90%      2.00ms  ",
        "     99%      2.00ms  ",
        "  HTTP codes:         ",
        "    1XX - 0, 2XX - 4, 3XX - 0, 4XX - 0, 5XX - 0",
        "    others - 0",
        "  Throughput:   20000.00/s",
    ];
    assert_eq!(text, lines.join("\n"));
}

#[test]
fn the_report_agrees_with_floating_point_formatting() {
    for latencies in [false, true] {
        let mut statistics = sample_statistics();
        let arg = options(latencies);
        statistics.summary(arg.connections, &arg.percentiles);
        let output = Output::from_statistics(&statistics);
        let text = text_output(&statistics, &arg);
        assert_eq!(text, expected_report(&output, &statistics, latencies));
        assert_eq!(text.contains("Latency Distribution"), latencies);
        assert!(text.contains("  Errors:   \n"));
        assert!(text.contains("    \"connection refused\":       2\n"));
        assert!(text.contains("    \"timed out\":       1\n"));
        assert!(text.ends_with("/s"));
    }
}

#[test]
fn the_report_of_an_empty_run() {
    let mut statistics = Statistics::new(0);
    let arg = options(true);
    statistics.summary(arg.connections, &arg.percentiles);
    let output = Output::from_statistics(&statistics);
    let text = text_output(&statistics, &arg);
    assert_eq!(text, expected_report(&output, &statistics, true));
    assert!(!text.contains("Latency Distribution"));
    assert!(!text.contains("Errors:"));
    assert!(text.contains("    1XX - 0, 2XX - 0, 3XX - 0, 4XX - 0, 5XX - 0\n    others - 0\n"));
    assert!(text.ends_with("  Throughput:       0.00/s"));
}
