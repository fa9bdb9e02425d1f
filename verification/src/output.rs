//! The figures of a run as they are handed out, and the report in plain
//! text.

use crate::arg::Arg;
use crate::numeric::{clamp128, floor_sqrt, isqrt, Ratio};
use crate::percentile::{whole_percent, Percentile};
use crate::statistics::{
    error_entries, latency_entries, ErrorCount, ErrorEntry, LatencyEntry, Statistics,
    StatisticsView,
};
use core::time::Duration;
use vstd::prelude::*;
use vstd::std_specs::convert::FromSpec;
use vstd::std_specs::convert::FromSpecImpl;

verus! {

/// The whole microseconds that a `Duration` spans.
pub uninterp spec fn duration_micros(duration: Duration) -> u128;

/// How a span of `secs` seconds and `nanos` nanoseconds is written with two
/// decimals and the unit that suits it.
pub uninterp spec fn duration_text(secs: u64, nanos: u32) -> Seq<char>;

/// `Duration::as_micros`: the total number of whole microseconds in the span.
#[verifier::external_body]
fn whole_micros(duration: &Duration) -> (micros: u128)
    ensures
        micros == duration_micros(*duration),
{
    duration.as_micros()
}

/// `<Duration as Debug>::fmt` at a precision of two, as `format!` calls it for
/// `{:.2?}`, on the span that `Duration::new` makes of whole seconds and less
/// than a second of nanoseconds: digits with two decimals and one of the
/// units s, ms, µs and ns. All that is claimed is that the text depends on
/// the two numbers alone.
#[verifier::external_body]
fn debug_duration(secs: u64, nanos: u32) -> (text: String)
    requires
        nanos < 1_000_000_000,
    ensures
        text@ == duration_text(secs, nanos),
{
    format!("{:.2?}", Duration::new(secs, nanos))
}

/// How a span of `nanos` nanoseconds is written.
pub open spec fn nanos_text(nanos: u64) -> Seq<char> {
    duration_text(nanos / 1_000_000_000, (nanos % 1_000_000_000) as u32)
}

/// How a span of `micros` microseconds is written.
pub open spec fn micros_text(micros: u64) -> Seq<char> {
    duration_text(micros / 1_000_000, ((micros % 1_000_000) * 1_000) as u32)
}

/// A time span in microseconds.
#[derive(Debug, Clone, Copy)]
pub struct Micros(u64);

impl View for Micros {
    type V = u64;

    closed spec fn view(&self) -> u64 {
        self.0
    }
}

impl Micros {
    /// The span of `micros` microseconds.
    pub closed spec fn of(micros: u64) -> Micros {
        Micros(micros)
    }

    /// The span of `micros` microseconds.
    pub fn new(micros: u64) -> (span: Micros)
        ensures
            span@ == micros,
            span == Micros::of(micros),
    {
        Micros(micros)
    }

    /// The whole microseconds in `nanos` nanoseconds.
    pub fn from_nanos(nanos: u64) -> (span: Micros)
        ensures
            span@ == nanos / 1_000,
    {
        Micros(nanos / 1_000)
    }

    /// The number of microseconds.
    pub fn value(&self) -> (micros: u64)
        ensures
            micros == self@,
    {
        self.0
    }

    /// The span with two decimals and its unit, such as `1.00ms`.
    pub fn to_string(&self) -> (text: String)
        ensures
            text@ == micros_text(self@),
    {
        let secs = self.0 / 1_000_000;
        let nanos = (self.0 % 1_000_000) * 1_000;
        debug_duration(secs, nanos as u32)
    }
}

/// A 128-bit number cut to its low 64 bits.
pub open spec fn low_64(n: u128) -> u64 {
    (n & 0xffff_ffff_ffff_ffff) as u64
}

impl From<Duration> for Micros {
    /// The whole microseconds of `duration`, cut to 64 bits.
    fn from(duration: Duration) -> (micros: Micros) {
        Micros((whole_micros(&duration) & 0xffff_ffff_ffff_ffff) as u64)
    }
}

impl FromSpecImpl<Duration> for Micros {
    open spec fn obeys_from_spec() -> bool {
        true
    }

    open spec fn from_spec(duration: Duration) -> Micros {
        Micros::of(low_64(duration_micros(duration)))
    }
}

impl From<&Duration> for Micros {
    /// The whole microseconds of `duration`, cut to 64 bits.
    fn from(duration: &Duration) -> (micros: Micros) {
        Micros((whole_micros(duration) & 0xffff_ffff_ffff_ffff) as u64)
    }
}

impl FromSpecImpl<&Duration> for Micros {
    open spec fn obeys_from_spec() -> bool {
        true
    }

    open spec fn from_spec(duration: &Duration) -> Micros {
        Micros::of(low_64(duration_micros(*duration)))
    }
}

/// The span of `micros` microseconds holds that number, and the span made of
/// a `Duration` holds the low 64 bits of its whole microseconds.
pub proof fn law_micros_hold_their_number(micros: u64, duration: Duration)
    ensures
        Micros::of(micros)@ == micros,
        <Micros as FromSpec<Duration>>::from_spec(duration)@ == low_64(
            duration_micros(duration),
        ),
        <Micros as FromSpec<&Duration>>::from_spec(&duration)@ == low_64(
            duration_micros(duration),
        ),
{
}

/// The time that the fastest share of the requests took on average.
#[derive(Debug, Clone, Copy)]
pub struct Latency {
    /// The share of the requests.
    pub percent: Percentile,
    /// The mean time of that share.
    pub micros: Micros,
}

impl Latency {
    /// The latency `micros` of the share `percent`.
    pub fn new(percent: Percentile, micros: Micros) -> (latency: Latency)
        ensures
            latency.percent == percent,
            latency.micros == micros,
    {
        Latency { percent, micros }
    }
}

/// The figures of a run.
pub struct Output {
    /// Mean of the per-second rate.
    pub avg_req_per_second: Ratio,
    /// Variance of the per-second rate; the standard deviation is its square
    /// root.
    pub variance_per_second: Ratio,
    /// Largest per-second rate.
    pub max_req_per_second: u64,
    /// Mean latency.
    pub avg_req_used_time: Micros,
    /// Standard deviation of the latency.
    pub stdev_req_used_time: Micros,
    /// Largest latency.
    pub max_req_used_time: Micros,
    /// The percentile latencies.
    pub latencies: Vec<Latency>,
    /// Responses with a status from 100 to 199.
    pub rsp1xx: u64,
    /// Responses with a status from 200 to 299.
    pub rsp2xx: u64,
    /// Responses with a status from 300 to 399.
    pub rsp3xx: u64,
    /// Responses with a status from 400 to 499.
    pub rsp4xx: u64,
    /// Responses with a status from 500 to 511.
    pub rsp5xx: u64,
    /// Responses with any other status.
    pub rsp_others: u64,
    /// The failures by their text, with the count of each.
    pub errors: Vec<ErrorCount>,
    /// Requests per second at the mean latency.
    pub throughput: Ratio,
}

/// The percentile latencies of an output as values: parts per million and
/// microseconds.
pub open spec fn output_latencies(latencies: Seq<Latency>) -> Seq<LatencyEntry> {
    Seq::new(latencies.len(), |i: int| (latencies[i].percent@, latencies[i].micros@))
}

/// Percentile latencies in microseconds instead of nanoseconds.
pub open spec fn in_micros(latencies: Seq<LatencyEntry>) -> Seq<LatencyEntry> {
    Seq::new(latencies.len(), |i: int| (latencies[i].0, (latencies[i].1 / 1_000) as u64))
}

impl Output {
    /// Whether this output holds the figures of `s`, with times in whole
    /// microseconds.
    pub open spec fn holds(self, s: StatisticsView) -> bool {
        &&& self.avg_req_per_second == s.avg_req_per_second
        &&& self.variance_per_second == s.variance_per_second
        &&& self.max_req_per_second == s.max_req_per_second
        &&& self.avg_req_used_time@ == s.avg_req_used_time / 1_000
        &&& self.stdev_req_used_time@ == s.stdev_req_used_time / 1_000
        &&& self.max_req_used_time@ == s.max_req_used_time / 1_000
        &&& output_latencies(self.latencies@) == in_micros(s.latencies)
        &&& self.rsp1xx == s.rsp1xx
        &&& self.rsp2xx == s.rsp2xx
        &&& self.rsp3xx == s.rsp3xx
        &&& self.rsp4xx == s.rsp4xx
        &&& self.rsp5xx == s.rsp5xx
        &&& self.rsp_others == s.rsp_others
        &&& error_entries(self.errors@) == s.errors
        &&& self.throughput == s.throughput
    }

    /// The figures of `s`.
    pub fn from_statistics(s: &Statistics) -> (output: Output)
        ensures
            output.holds(s@),
    {
        let mut latencies: Vec<Latency> = Vec::new();
        let nanos = s.latencies();
        let mut i: usize = 0;
        while i < nanos.len()
            invariant
                i <= nanos.len(),
                latencies@.len() == i,
                forall|j: int|
                    0 <= j < i ==> (#[trigger] latencies@[j]).percent@ == nanos@[j].0@
                        && latencies@[j].micros@ == nanos@[j].1 / 1_000,
            decreases nanos.len() - i,
        {
            let entry = nanos[i];
            latencies.push(Latency::new(entry.0, Micros::from_nanos(entry.1)));
            i += 1;
        }
        assert(output_latencies(latencies@) =~= in_micros(latency_entries(nanos@)));
        let mut errors: Vec<ErrorCount> = Vec::new();
        let counted = s.errors();
        let mut k: usize = 0;
        while k < counted.len()
            invariant
                k <= counted.len(),
                errors@.len() == k,
                forall|j: int|
                    0 <= j < k ==> (#[trigger] errors@[j]).message@ == counted@[j].message@
                        && errors@[j].count == counted@[j].count,
            decreases counted.len() - k,
        {
            errors.push(
                ErrorCount { message: counted[k].message.clone(), count: counted[k].count },
            );
            k += 1;
        }
        assert(error_entries(errors@) =~= error_entries(counted@));
        Output {
            avg_req_per_second: s.avg_req_per_second(),
            variance_per_second: s.variance_per_second(),
            max_req_per_second: s.max_req_per_second(),
            avg_req_used_time: Micros::from_nanos(s.avg_req_used_time()),
            stdev_req_used_time: Micros::from_nanos(s.stdev_req_used_time()),
            max_req_used_time: Micros::from_nanos(s.max_req_used_time()),
            latencies,
            rsp1xx: s.rsp1xx(),
            rsp2xx: s.rsp2xx(),
            rsp3xx: s.rsp3xx(),
            rsp4xx: s.rsp4xx(),
            rsp5xx: s.rsp5xx(),
            rsp_others: s.rsp_others(),
            errors,
            throughput: s.throughput(),
        }
    }
}

/// The digit for `d`.
pub open spec fn digit_char(d: nat) -> char {
    if d == 0 {
        '0'
    } else if d == 1 {
        '1'
    } else if d == 2 {
        '2'
    } else if d == 3 {
        '3'
    } else if d == 4 {
        '4'
    } else if d == 5 {
        '5'
    } else if d == 6 {
        '6'
    } else if d == 7 {
        '7'
    } else if d == 8 {
        '8'
    } else {
        '9'
    }
}

/// `n` in base ten.
pub open spec fn decimal(n: nat) -> Seq<char>
    decreases n,
{
    if n < 10 {
        seq![digit_char(n)]
    } else {
        decimal(n / 10) + seq![digit_char(n % 10)]
    }
}

/// A number given in hundredths, with two decimals.
pub open spec fn fixed2(hundredths: nat) -> Seq<char> {
    decimal(hundredths / 100) + seq!['.'] + seq![digit_char(hundredths / 10 % 10)] + seq![
        digit_char(hundredths % 10),
    ]
}

/// The fraction in hundredths, rounded to the nearest and, halfway between
/// two, to the even one. The numerator times 100 is limited to 128 bits. A
/// fraction without denominator counts as zero.
pub open spec fn hundredths(r: Ratio) -> nat {
    if r.denom == 0 {
        0
    } else {
        let scaled = clamp128(100 * r.numer);
        let whole = scaled / r.denom;
        let rest = scaled % r.denom;
        if rest > r.denom - rest || (rest == r.denom - rest && whole % 2 == 1) {
            (whole + 1) as nat
        } else {
            whole as nat
        }
    }
}

/// The square root of the fraction in hundredths, rounded to the nearest.
/// The numerator times 40000 is limited to 128 bits. A fraction without
/// denominator counts as zero.
pub open spec fn root_hundredths(r: Ratio) -> nat {
    if r.denom == 0 {
        0
    } else {
        (isqrt((clamp128(40_000 * r.numer) / r.denom) as nat) + 1) / 2
    }
}

/// `count` blanks.
pub open spec fn blanks(count: nat) -> Seq<char> {
    Seq::new(count, |i: int| ' ')
}

/// How many blanks fill a text of `len` characters up to `width`.
pub open spec fn gap(len: nat, width: nat) -> nat {
    if width > len {
        (width - len) as nat
    } else {
        0
    }
}

/// `text` at the left of a field of `width` characters.
pub open spec fn left_aligned(text: Seq<char>, width: nat) -> Seq<char> {
    text + blanks(gap(text.len(), width))
}

/// `text` at the right of a field of `width` characters.
pub open spec fn right_aligned(text: Seq<char>, width: nat) -> Seq<char> {
    blanks(gap(text.len(), width)) + text
}

/// `text` in the middle of a field of `width` characters; a blank that
/// cannot be shared goes to the right.
pub open spec fn centered(text: Seq<char>, width: nat) -> Seq<char> {
    let fill = gap(text.len(), width);
    blanks(fill / 2) + text + blanks((fill - fill / 2) as nat)
}

/// The head of the table.
pub open spec fn table_head() -> Seq<char> {
    left_aligned("Statistics"@, 14) + centered("Avg"@, 14) + centered("Stdev"@, 14) + centered(
        "Max"@,
        14,
    ) + "\n"@
}

/// The row of the per-second rate: mean, standard deviation and maximum.
pub open spec fn rate_row(s: StatisticsView) -> Seq<char> {
    "  "@ + left_aligned("Reqs/sec"@, 12) + centered(fixed2(hundredths(s.avg_req_per_second)), 14)
        + centered(fixed2(root_hundredths(s.variance_per_second)), 14) + centered(
        fixed2(s.max_req_per_second as nat * 100),
        14,
    ) + "\n"@
}

/// The row of the latency: mean, standard deviation and maximum.
pub open spec fn latency_row(s: StatisticsView) -> Seq<char> {
    "  "@ + left_aligned("Latency"@, 12) + centered(nanos_text(s.avg_req_used_time), 14) + centered(
        nanos_text(s.stdev_req_used_time),
        14,
    ) + centered(nanos_text(s.max_req_used_time), 14) + "\n"@
}

/// The line of one percentile latency.
pub open spec fn distribution_line(entry: LatencyEntry) -> Seq<char> {
    "  "@ + centered(decimal(whole_percent(entry.0) as nat) + "%"@, 10) + centered(
        nanos_text(entry.1),
        10,
    ) + "\n"@
}

/// The lines of the percentile latencies.
pub open spec fn distribution_lines(latencies: Seq<LatencyEntry>) -> Seq<char>
    decreases latencies.len(),
{
    if latencies.len() == 0 {
        Seq::empty()
    } else {
        distribution_lines(latencies.drop_last()) + distribution_line(latencies.last())
    }
}

/// The percentile latencies under their heading, if they are asked for and
/// there are any.
pub open spec fn distribution(latencies: Seq<LatencyEntry>, shown: bool) -> Seq<char> {
    if shown && latencies.len() > 0 {
        "  "@ + left_aligned("Latency Distribution"@, 20) + "\n"@ + distribution_lines(latencies)
    } else {
        Seq::empty()
    }
}

/// The counts of the status codes by class.
pub open spec fn codes(s: StatisticsView) -> Seq<char> {
    "  "@ + left_aligned("HTTP codes:"@, 20) + "\n"@ + "    1XX - "@ + decimal(s.rsp1xx as nat)
        + ", 2XX - "@ + decimal(s.rsp2xx as nat) + ", 3XX - "@ + decimal(s.rsp3xx as nat)
        + ", 4XX - "@ + decimal(s.rsp4xx as nat) + ", 5XX - "@ + decimal(s.rsp5xx as nat) + "\n"@
        + "    others - "@ + decimal(s.rsp_others as nat) + "\n"@
}

/// The line of one failure: its text in quotes and its count.
pub open spec fn error_line(entry: ErrorEntry) -> Seq<char> {
    "    \""@ + entry.0 + "\":"@ + right_aligned(decimal(entry.1 as nat), 8) + "\n"@
}

/// The lines of the failures.
pub open spec fn error_lines(errors: Seq<ErrorEntry>) -> Seq<char>
    decreases errors.len(),
{
    if errors.len() == 0 {
        Seq::empty()
    } else {
        error_lines(errors.drop_last()) + error_line(errors.last())
    }
}

/// The failures under their heading, if there are any.
pub open spec fn error_block(errors: Seq<ErrorEntry>) -> Seq<char> {
    if errors.len() > 0 {
        "  "@ + left_aligned("Errors:"@, 10) + "\n"@ + error_lines(errors)
    } else {
        Seq::empty()
    }
}

/// The line of the throughput, which ends the report.
pub open spec fn throughput_line(s: StatisticsView) -> Seq<char> {
    "  "@ + left_aligned("Throughput:"@, 12) + right_aligned(fixed2(hundredths(s.throughput)), 10)
        + "/s"@
}

/// The report in plain text: the table of rate and latency, the percentile
/// latencies if `shown`, the status codes, the failures if there were any,
/// and the throughput.
pub open spec fn report(s: StatisticsView, shown: bool) -> Seq<char> {
    table_head() + rate_row(s) + latency_row(s) + distribution(s.latencies, shown) + codes(s)
        + error_block(s.errors) + throughput_line(s)
}

/// A text of its own that equals `text`.
fn owned(text: &str) -> (copy: String)
    ensures
        copy@ == text@,
{
    text.to_owned()
}

/// The digit for `d`.
fn digit_text(d: u8) -> (text: &'static str)
    requires
        d < 10,
    ensures
        text@ == seq![digit_char(d as nat)],
{
    proof {
        reveal_strlit("0");
        reveal_strlit("1");
        reveal_strlit("2");
        reveal_strlit("3");
        reveal_strlit("4");
        reveal_strlit("5");
        reveal_strlit("6");
        reveal_strlit("7");
        reveal_strlit("8");
        reveal_strlit("9");
    }
    let text = if d == 0 {
        "0"
    } else if d == 1 {
        "1"
    } else if d == 2 {
        "2"
    } else if d == 3 {
        "3"
    } else if d == 4 {
        "4"
    } else if d == 5 {
        "5"
    } else if d == 6 {
        "6"
    } else if d == 7 {
        "7"
    } else if d == 8 {
        "8"
    } else {
        "9"
    };
    assert(text@ =~= seq![digit_char(d as nat)]);
    text
}

/// `n` in base ten.
pub fn decimal_text(n: u128) -> (text: String)
    ensures
        text@ == decimal(n as nat),
    decreases n,
{
    if n < 10 {
        owned(digit_text(n as u8))
    } else {
        let mut text = decimal_text(n / 10);
        text.append(digit_text((n % 10) as u8));
        text
    }
}

/// A number given in hundredths, with two decimals.
pub fn fixed2_text(hundredths: u128) -> (text: String)
    ensures
        text@ == fixed2(hundredths as nat),
{
    proof {
        reveal_strlit(".");
        assert("."@ =~= seq!['.']);
    }
    let mut text = decimal_text(hundredths / 100);
    text.append(".");
    text.append(digit_text((hundredths / 10 % 10) as u8));
    text.append(digit_text((hundredths % 10) as u8));
    text
}

/// The fraction in hundredths, rounded to the nearest.
pub fn ratio_hundredths(r: Ratio) -> (h: u128)
    ensures
        h == hundredths(r),
{
    if r.denom == 0 {
        return 0;
    }
    let scaled: u128 = match r.numer.checked_mul(100) {
        Some(scaled) => scaled,
        None => u128::MAX,
    };
    let whole = scaled / r.denom;
    let rest = scaled % r.denom;
    if rest > r.denom - rest || (rest == r.denom - rest && whole % 2 == 1) {
        assert(whole < u128::MAX) by (nonlinear_arith)
            requires
                whole == scaled / r.denom,
                rest == scaled % r.denom,
                rest > 0,
                r.denom > 0,
                scaled <= u128::MAX,
        ;
        whole + 1
    } else {
        whole
    }
}

/// The square root of the fraction in hundredths, rounded to the nearest.
pub fn ratio_root_hundredths(r: Ratio) -> (h: u128)
    ensures
        h == root_hundredths(r),
{
    if r.denom == 0 {
        return 0;
    }
    let scaled: u128 = match r.numer.checked_mul(40_000) {
        Some(scaled) => scaled,
        None => u128::MAX,
    };
    let root = floor_sqrt(scaled / r.denom);
    (root as u128 + 1) / 2
}

/// `count` blanks.
fn blank_text(count: usize) -> (text: String)
    ensures
        text@ == blanks(count as nat),
{
    proof {
        reveal_strlit(" ");
    }
    let mut text = String::new();
    let mut i: usize = 0;
    while i < count
        invariant
            i <= count,
            text@ == blanks(i as nat),
            " "@.len() == 1,
            " "@[0] == ' ',
        decreases count - i,
    {
        let ghost before = text@;
        text.append(" ");
        assert(text@ =~= blanks((i + 1) as nat));
        i += 1;
    }
    text
}

/// How many blanks fill a text of `len` characters up to `width`.
fn fill(len: usize, width: usize) -> (count: usize)
    ensures
        count == gap(len as nat, width as nat),
{
    if width > len {
        width - len
    } else {
        0
    }
}

/// `text` at the left of a field of `width` characters.
pub fn left_text(text: &str, width: usize) -> (field: String)
    ensures
        field@ == left_aligned(text@, width as nat),
{
    let count = fill(text.unicode_len(), width);
    let mut field = owned(text);
    field.append(blank_text(count).as_str());
    field
}

/// `text` at the right of a field of `width` characters.
pub fn right_text(text: &str, width: usize) -> (field: String)
    ensures
        field@ == right_aligned(text@, width as nat),
{
    let count = fill(text.unicode_len(), width);
    let mut field = blank_text(count);
    field.append(text);
    field
}

/// `text` in the middle of a field of `width` characters.
pub fn center_text(text: &str, width: usize) -> (field: String)
    ensures
        field@ == centered(text@, width as nat),
{
    let count = fill(text.unicode_len(), width);
    let mut field = blank_text(count / 2);
    field.append(text);
    field.append(blank_text(count - count / 2).as_str());
    field
}

/// How a span of `nanos` nanoseconds is written.
pub fn nanos_to_text(nanos: u64) -> (text: String)
    ensures
        text@ == nanos_text(nanos),
{
    debug_duration(nanos / 1_000_000_000, (nanos % 1_000_000_000) as u32)
}

/// The head of the table.
fn table_head_text() -> (text: String)
    ensures
        text@ == table_head(),
{
    let mut text = left_text("Statistics", 14);
    text.append(center_text("Avg", 14).as_str());
    text.append(center_text("Stdev", 14).as_str());
    text.append(center_text("Max", 14).as_str());
    text.append("\n");
    text
}

/// The row of the per-second rate.
fn rate_row_text(s: &Statistics) -> (text: String)
    ensures
        text@ == rate_row(s@),
{
    let avg = fixed2_text(ratio_hundredths(s.avg_req_per_second()));
    let stdev = fixed2_text(ratio_root_hundredths(s.variance_per_second()));
    let max = fixed2_text(s.max_req_per_second() as u128 * 100);
    let mut text = owned("  ");
    text.append(left_text("Reqs/sec", 12).as_str());
    text.append(center_text(avg.as_str(), 14).as_str());
    text.append(center_text(stdev.as_str(), 14).as_str());
    text.append(center_text(max.as_str(), 14).as_str());
    text.append("\n");
    text
}

/// The row of the latency.
fn latency_row_text(s: &Statistics) -> (text: String)
    ensures
        text@ == latency_row(s@),
{
    let avg = nanos_to_text(s.avg_req_used_time());
    let stdev = nanos_to_text(s.stdev_req_used_time());
    let max = nanos_to_text(s.max_req_used_time());
    let mut text = owned("  ");
    text.append(left_text("Latency", 12).as_str());
    text.append(center_text(avg.as_str(), 14).as_str());
    text.append(center_text(stdev.as_str(), 14).as_str());
    text.append(center_text(max.as_str(), 14).as_str());
    text.append("\n");
    text
}

/// The line of one percentile latency.
fn distribution_line_text(percent: Percentile, nanos: u64) -> (text: String)
    ensures
        text@ == distribution_line((percent@, nanos)),
{
    let mut share = decimal_text(percent.percent() as u128);
    share.append("%");
    let mut text = owned("  ");
    text.append(center_text(share.as_str(), 10).as_str());
    text.append(center_text(nanos_to_text(nanos).as_str(), 10).as_str());
    text.append("\n");
    text
}

/// The percentile latencies under their heading, if they are asked for and
/// there are any.
fn distribution_text(s: &Statistics, shown: bool) -> (text: String)
    ensures
        text@ == distribution(s@.latencies, shown),
{
    let latencies = s.latencies();
    if !shown || latencies.len() == 0 {
        return String::new();
    }
    let ghost entries = latency_entries(latencies@);
    let mut lines = String::new();
    let mut i: usize = 0;
    while i < latencies.len()
        invariant
            i <= latencies.len(),
            entries == latency_entries(latencies@),
            lines@ == distribution_lines(entries.take(i as int)),
        decreases latencies.len() - i,
    {
        let entry = latencies[i];
        proof {
            assert(entries.take(i as int + 1).drop_last() =~= entries.take(i as int));
            assert(entries.take(i as int + 1).last() == (entry.0@, entry.1));
        }
        lines.append(distribution_line_text(entry.0, entry.1).as_str());
        i += 1;
    }
    assert(entries.take(latencies.len() as int) =~= entries);
    let mut text = owned("  ");
    text.append(left_text("Latency Distribution", 20).as_str());
    text.append("\n");
    text.append(lines.as_str());
    text
}

/// The counts of the status codes by class.
fn codes_text(s: &Statistics) -> (text: String)
    ensures
        text@ == codes(s@),
{
    let mut text = owned("  ");
    text.append(left_text("HTTP codes:", 20).as_str());
    text.append("\n");
    text.append("    1XX - ");
    text.append(decimal_text(s.rsp1xx() as u128).as_str());
    text.append(", 2XX - ");
    text.append(decimal_text(s.rsp2xx() as u128).as_str());
    text.append(", 3XX - ");
    text.append(decimal_text(s.rsp3xx() as u128).as_str());
    text.append(", 4XX - ");
    text.append(decimal_text(s.rsp4xx() as u128).as_str());
    text.append(", 5XX - ");
    text.append(decimal_text(s.rsp5xx() as u128).as_str());
    text.append("\n");
    text.append("    others - ");
    text.append(decimal_text(s.rsp_others() as u128).as_str());
    text.append("\n");
    text
}

/// The line of one failure.
fn error_line_text(entry: &ErrorCount) -> (text: String)
    ensures
        text@ == error_line((entry.message@, entry.count)),
{
    let mut text = owned("    \"");
    text.append(entry.message.as_str());
    text.append("\":");
    text.append(right_text(decimal_text(entry.count as u128).as_str(), 8).as_str());
    text.append("\n");
    text
}

/// The failures under their heading, if there are any.
fn error_block_text(s: &Statistics) -> (text: String)
    ensures
        text@ == error_block(s@.errors),
{
    let errors = s.errors();
    if errors.len() == 0 {
        return String::new();
    }
    let ghost entries = error_entries(errors@);
    let mut lines = String::new();
    let mut i: usize = 0;
    while i < errors.len()
        invariant
            i <= errors.len(),
            entries == error_entries(errors@),
            lines@ == error_lines(entries.take(i as int)),
        decreases errors.len() - i,
    {
        proof {
            assert(entries.take(i as int + 1).drop_last() =~= entries.take(i as int));
            assert(entries.take(i as int + 1).last() == (errors@[i as int].message@, errors@[i as int].count));
        }
        lines.append(error_line_text(&errors[i]).as_str());
        i += 1;
    }
    assert(entries.take(errors.len() as int) =~= entries);
    let mut text = owned("  ");
    text.append(left_text("Errors:", 10).as_str());
    text.append("\n");
    text.append(lines.as_str());
    text
}

/// The line of the throughput.
fn throughput_line_text(s: &Statistics) -> (text: String)
    ensures
        text@ == throughput_line(s@),
{
    let throughput = fixed2_text(ratio_hundredths(s.throughput()));
    let mut text = owned("  ");
    text.append(left_text("Throughput:", 12).as_str());
    text.append(right_text(throughput.as_str(), 10).as_str());
    text.append("/s");
    text
}

/// The report of a run in plain text. The percentile latencies are listed
/// if `arg` asks for them.
pub fn text_output(s: &Statistics, arg: &Arg) -> (text: String)
    ensures
        text@ == report(s@, arg.latencies),
{
    let mut text = table_head_text();
    text.append(rate_row_text(s).as_str());
    text.append(latency_row_text(s).as_str());
    text.append(distribution_text(s, arg.latencies).as_str());
    text.append(codes_text(s).as_str());
    text.append(error_block_text(s).as_str());
    text.append(throughput_line_text(s).as_str());
    text
}

} // verus!
