//! Running counters of request outcomes and their summary at the end of a
//! run.
//!
//! Time is counted in nanoseconds on a clock that the caller reads.

use crate::numeric::{
    ascending, bump, bumped, clamp128, deviation_total, floor_sqrt, is_sorted, isqrt, largest,
    lemma_ascending_properties, lemma_ascending_unique, lemma_largest_is_upper_bound,
    lemma_isqrt_bounds, lemma_isqrt_fits, lemma_largest_of_ascending, lemma_mean_bound,
    lemma_spread_nonnegative, lemma_total_bound, lemma_total_push, max_prefix, mean,
    mean_prefix, sort_ascending, spread, square_total, sum_deviations, sum_prefix,
    sum_squares_prefix, total, zero_ratio, Ratio,
};
use crate::percentile::{rank, Percentile};
use vstd::prelude::*;

verus! {

/// Nanoseconds in a second.
pub const NANOS_PER_SEC: u64 = 1_000_000_000;

/// The bucket that a status code is counted in.
#[derive(Debug, Clone, Copy, PartialEq, Eq, Structural)]
pub enum StatusClass {
    /// 100 to 199.
    Informational,
    /// 200 to 299.
    Success,
    /// 300 to 399.
    Redirection,
    /// 400 to 499.
    ClientError,
    /// 500 to 511.
    ServerError,
    /// Every other code.
    Other,
}

/// The bucket of `status`.
pub open spec fn class_of(status: u16) -> StatusClass {
    if 100 <= status < 200 {
        StatusClass::Informational
    } else if 200 <= status < 300 {
        StatusClass::Success
    } else if 300 <= status < 400 {
        StatusClass::Redirection
    } else if 400 <= status < 500 {
        StatusClass::ClientError
    } else if 500 <= status < 512 {
        StatusClass::ServerError
    } else {
        StatusClass::Other
    }
}

/// The samples that the rate figures are taken from: all but the last one,
/// which a stopping run cuts short, once there are more than two.
pub open spec fn trimmed(samples: Seq<u64>) -> Seq<u64> {
    if samples.len() > 2 {
        samples.take(samples.len() - 1)
    } else {
        samples
    }
}

/// The numerator of the rate variance, whose denominator is the squared count
/// of samples: the spread, or the largest 128-bit value where the count times
/// the sum of squares is beyond 128 bits.
pub open spec fn variance_numerator(samples: Seq<u64>) -> u128 {
    if samples.len() * square_total(samples) <= u128::MAX {
        spread(samples) as u128
    } else {
        u128::MAX
    }
}

/// One line of the error histogram, as a value.
pub type ErrorEntry = (Seq<char>, u64);

/// One percentile latency, as a value: parts per million and nanoseconds.
pub type LatencyEntry = (u32, u64);

/// Index of the first entry for `message`, or the number of entries when
/// there is none.
pub open spec fn position(errors: Seq<ErrorEntry>, message: Seq<char>) -> int
    decreases errors.len(),
{
    if errors.len() == 0 {
        0
    } else if errors[0].0 == message {
        0
    } else {
        1 + position(errors.drop_first(), message)
    }
}

/// The histogram after one more occurrence of `message`.
pub open spec fn counted(errors: Seq<ErrorEntry>, message: Seq<char>) -> Seq<ErrorEntry> {
    let at = position(errors, message);
    if at < errors.len() {
        errors.update(at, (message, bumped(errors[at].1)))
    } else {
        errors.push((message, 1u64))
    }
}

/// Whether no message has two entries.
pub open spec fn distinct(errors: Seq<ErrorEntry>) -> bool {
    forall|i: int, j: int| 0 <= i < j < errors.len() ==> errors[i].0 != errors[j].0
}

/// The percentile latencies of ascending samples: for each percentile in
/// turn whose rank is not zero, the mean of the lowest `rank` samples.
pub open spec fn emitted(sorted: Seq<u64>, percentiles: Seq<u32>) -> Seq<LatencyEntry>
    decreases percentiles.len(),
{
    if percentiles.len() == 0 {
        Seq::empty()
    } else {
        let before = emitted(sorted, percentiles.drop_last());
        let ppm = percentiles.last();
        let k = rank(ppm, sorted.len());
        if 0 < k <= sorted.len() {
            before.push((ppm, mean(sorted.take(k as int)) as u64))
        } else {
            before
        }
    }
}

/// A failed request as a value.
pub struct FailureView {
    pub message: Seq<char>,
    pub status: Option<u16>,
}

/// An outcome message as a value.
pub struct MessageView {
    pub req_at: u64,
    pub rsp_at: u64,
    pub response: Result<u16, FailureView>,
}

impl MessageView {
    /// Time from request to response.
    pub open spec fn elapsed(self) -> u64 {
        (self.rsp_at - self.req_at) as u64
    }

    /// Whether the response does not come before the request.
    pub open spec fn ordered(self) -> bool {
        self.req_at <= self.rsp_at
    }
}

/// The statistics as a value.
pub struct StatisticsView {
    pub rsp1xx: u64,
    pub rsp2xx: u64,
    pub rsp3xx: u64,
    pub rsp4xx: u64,
    pub rsp5xx: u64,
    pub rsp_others: u64,
    pub errors: Seq<ErrorEntry>,
    pub started_at: u64,
    pub total_success: u64,
    pub total: u64,
    pub max_req_per_second: u64,
    pub avg_req_per_second: Ratio,
    pub variance_per_second: Ratio,
    pub req_per_second: Seq<u64>,
    pub current_cumulative: u64,
    pub avg_req_used_time: u64,
    pub max_req_used_time: u64,
    pub stdev_req_used_time: u64,
    pub used_time: Seq<u64>,
    pub is_stopped: bool,
    pub stopped_at: Option<u64>,
    pub throughput: Ratio,
    pub latencies: Seq<LatencyEntry>,
}

impl StatisticsView {
    /// Statistics with nothing counted, started at `now`.
    pub open spec fn empty(now: u64) -> StatisticsView {
        StatisticsView {
            rsp1xx: 0,
            rsp2xx: 0,
            rsp3xx: 0,
            rsp4xx: 0,
            rsp5xx: 0,
            rsp_others: 0,
            errors: Seq::empty(),
            started_at: now,
            total_success: 0,
            total: 0,
            max_req_per_second: 0,
            avg_req_per_second: zero_ratio(),
            variance_per_second: zero_ratio(),
            req_per_second: Seq::empty(),
            current_cumulative: 0,
            avg_req_used_time: 0,
            max_req_used_time: 0,
            stdev_req_used_time: 0,
            used_time: Seq::empty(),
            is_stopped: false,
            stopped_at: None,
            throughput: zero_ratio(),
            latencies: Seq::empty(),
        }
    }

    /// One more response in the bucket of `status`.
    pub open spec fn with_status(self, status: u16) -> StatisticsView {
        match class_of(status) {
            StatusClass::Informational => StatisticsView { rsp1xx: bumped(self.rsp1xx), ..self },
            StatusClass::Success => StatisticsView { rsp2xx: bumped(self.rsp2xx), ..self },
            StatusClass::Redirection => StatisticsView { rsp3xx: bumped(self.rsp3xx), ..self },
            StatusClass::ClientError => StatisticsView { rsp4xx: bumped(self.rsp4xx), ..self },
            StatusClass::ServerError => StatisticsView { rsp5xx: bumped(self.rsp5xx), ..self },
            StatusClass::Other => StatisticsView { rsp_others: bumped(self.rsp_others), ..self },
        }
    }

    /// One more failure: its message enters the histogram, and its status,
    /// if it has one, a bucket.
    pub open spec fn with_failure(self, failure: FailureView) -> StatisticsView {
        let noted = StatisticsView { errors: counted(self.errors, failure.message), ..self };
        match failure.status {
            Some(status) => noted.with_status(status),
            None => noted,
        }
    }

    /// One more message.
    pub open spec fn handled(self, message: MessageView) -> StatisticsView {
        let seen = StatisticsView { total: bumped(self.total), ..self };
        match message.response {
            Err(failure) => seen.with_failure(failure),
            Ok(status) => StatisticsView {
                total_success: bumped(self.total_success),
                current_cumulative: bumped(self.current_cumulative),
                used_time: self.used_time.push(message.elapsed()),
                ..seen.with_status(status)
            },
        }
    }

    /// All of `messages`, in their order.
    pub open spec fn handled_all(self, messages: Seq<MessageView>) -> StatisticsView
        decreases messages.len(),
    {
        if messages.len() == 0 {
            self
        } else {
            self.handled_all(messages.drop_last()).handled(messages.last())
        }
    }

    /// One more second has passed: its count joins the samples.
    pub open spec fn ticked(self) -> StatisticsView {
        StatisticsView {
            req_per_second: self.req_per_second.push(self.current_cumulative),
            current_cumulative: 0,
            ..self
        }
    }

    /// The largest rate sample.
    pub open spec fn with_max_per_second(self) -> StatisticsView {
        if self.req_per_second.len() == 0 {
            self
        } else {
            StatisticsView { max_req_per_second: largest(trimmed(self.req_per_second)), ..self }
        }
    }

    /// The mean rate: the sum of the samples over their count.
    pub open spec fn with_avg_per_second(self) -> StatisticsView {
        if self.req_per_second.len() == 0 {
            self
        } else {
            let kept = trimmed(self.req_per_second);
            StatisticsView {
                avg_req_per_second: Ratio {
                    numer: total(kept) as u128,
                    denom: kept.len() as u128,
                },
                ..self
            }
        }
    }

    /// The population variance of the rate, whose square root is the
    /// standard deviation.
    pub open spec fn with_stdev_per_second(self) -> StatisticsView {
        if self.req_per_second.len() == 0 {
            self
        } else {
            let kept = trimmed(self.req_per_second);
            StatisticsView {
                variance_per_second: Ratio {
                    numer: variance_numerator(kept),
                    denom: (kept.len() * kept.len()) as u128,
                },
                ..self
            }
        }
    }

    /// Mean, maximum and population standard deviation of the latency
    /// samples, which are left in ascending order.
    pub open spec fn with_elapsed_time(self) -> StatisticsView {
        if self.used_time.len() == 0 {
            self
        } else {
            let center = mean(self.used_time);
            let variance = clamp128(deviation_total(self.used_time, center as int) as int)
                / self.used_time.len() as u128;
            StatisticsView {
                used_time: ascending(self.used_time),
                avg_req_used_time: center as u64,
                max_req_used_time: largest(self.used_time),
                stdev_req_used_time: isqrt(variance as nat) as u64,
                ..self
            }
        }
    }

    /// Requests per second that `connections` connections sustain at the
    /// mean latency.
    pub open spec fn with_throughput(self, connections: u16) -> StatisticsView {
        if self.avg_req_used_time > 0 {
            StatisticsView {
                throughput: Ratio {
                    numer: (connections as u128 * NANOS_PER_SEC as u128) as u128,
                    denom: self.avg_req_used_time as u128,
                },
                ..self
            }
        } else {
            self
        }
    }

    /// The percentile latencies, appended in the order of `percentiles`.
    pub open spec fn with_latencies(self, percentiles: Seq<u32>) -> StatisticsView {
        if self.used_time.len() == 0 {
            self
        } else {
            let sorted = ascending(self.used_time);
            StatisticsView {
                used_time: sorted,
                latencies: self.latencies + emitted(sorted, percentiles),
                ..self
            }
        }
    }

    /// Without the latency samples.
    pub open spec fn cleared(self) -> StatisticsView {
        StatisticsView { used_time: Seq::empty(), ..self }
    }

    /// The statistics after the summary at the end of a run.
    pub open spec fn summarized(self, connections: u16, percentiles: Seq<u32>) -> StatisticsView {
        self.with_max_per_second().with_avg_per_second().with_elapsed_time().with_stdev_per_second().with_throughput(
            connections,
        ).with_latencies(percentiles).cleared()
    }
}

/// A request that got no response, or one that the client reports as failed.
#[derive(Debug)]
pub struct RequestError {
    /// The text under which the failure is counted.
    pub message: String,
    /// The status code that the failure carries, if any.
    pub status: Option<u16>,
}

impl View for RequestError {
    type V = FailureView;

    open spec fn view(&self) -> FailureView {
        FailureView { message: self.message@, status: self.status }
    }
}

/// The outcome of a response as a value.
pub open spec fn response_view(response: Result<u16, RequestError>) -> Result<u16, FailureView> {
    match response {
        Ok(status) => Ok(status),
        Err(failure) => Err(failure@),
    }
}

/// What one request attempt came to: when it was sent, when it ended, and
/// the status code or the failure.
#[derive(Debug)]
pub struct Message {
    rsp_at: u64,
    req_at: u64,
    response: Result<u16, RequestError>,
}

impl View for Message {
    type V = MessageView;

    closed spec fn view(&self) -> MessageView {
        MessageView {
            req_at: self.req_at,
            rsp_at: self.rsp_at,
            response: response_view(self.response),
        }
    }
}

impl Message {
    #[verifier::type_invariant]
    spec fn ordered(self) -> bool {
        self.req_at <= self.rsp_at
    }

    /// The message for a request sent at `req_at` that ended at `rsp_at`.
    pub fn new(response: Result<u16, RequestError>, req_at: u64, rsp_at: u64) -> (message: Message)
        requires
            req_at <= rsp_at,
        ensures
            message@.req_at == req_at,
            message@.rsp_at == rsp_at,
            message@.response == response_view(response),
            message@.ordered(),
    {
        Message { rsp_at, req_at, response }
    }
}

/// One line of the error histogram.
#[derive(Debug)]
pub struct ErrorCount {
    /// The failure's text.
    pub message: String,
    /// How often it occurred.
    pub count: u64,
}

/// The histogram lines as values.
pub open spec fn error_entries(errors: Seq<ErrorCount>) -> Seq<ErrorEntry> {
    Seq::new(errors.len(), |i: int| (errors[i].message@, errors[i].count))
}

/// The percentile latencies as values.
pub open spec fn latency_entries(latencies: Seq<(Percentile, u64)>) -> Seq<LatencyEntry> {
    Seq::new(latencies.len(), |i: int| (latencies[i].0@, latencies[i].1))
}

/// The percentiles in parts per million.
pub open spec fn percentile_values(percentiles: Seq<Percentile>) -> Seq<u32> {
    Seq::new(percentiles.len(), |i: int| percentiles[i]@)
}

/// The first index at which `message` stands is its position.
pub proof fn lemma_position(errors: Seq<ErrorEntry>, message: Seq<char>, at: int)
    requires
        0 <= at <= errors.len(),
        forall|j: int| 0 <= j < at ==> errors[j].0 != message,
        at < errors.len() ==> errors[at].0 == message,
    ensures
        position(errors, message) == at,
    decreases errors.len(),
{
    if at > 0 {
        let rest = errors.drop_first();
        assert forall|j: int| 0 <= j < at - 1 implies rest[j].0 != message by {
            assert(rest[j] == errors[j + 1]);
        }
        if at < errors.len() {
            assert(rest[at - 1] == errors[at]);
        }
        lemma_position(rest, message, at - 1);
    }
}

/// The position of a message lies within the histogram or just behind it, and
/// no earlier entry holds the message.
pub proof fn lemma_position_is_first(errors: Seq<ErrorEntry>, message: Seq<char>)
    ensures
        0 <= position(errors, message) <= errors.len(),
        forall|j: int| 0 <= j < position(errors, message) ==> errors[j].0 != message,
        position(errors, message) < errors.len() ==> errors[position(errors, message)].0
            == message,
    decreases errors.len(),
{
    if errors.len() > 0 && errors[0].0 != message {
        let rest = errors.drop_first();
        lemma_position_is_first(rest, message);
        let at = position(errors, message);
        assert forall|j: int| 0 <= j < at implies errors[j].0 != message by {
            if j > 0 {
                assert(rest[j - 1] == errors[j]);
            }
        }
        if at < errors.len() {
            assert(rest[at - 1] == errors[at]);
        }
    }
}

/// Index of the first entry for `message`, or the number of entries when
/// there is none.
fn find_entry(entries: &Vec<ErrorCount>, message: &String) -> (at: usize)
    ensures
        at == position(error_entries(entries@), message@),
        at <= entries.len(),
{
    let ghost all = error_entries(entries@);
    let mut i: usize = 0;
    while i < entries.len()
        invariant
            i <= entries.len(),
            all == error_entries(entries@),
            forall|j: int| 0 <= j < i ==> all[j].0 != message@,
        decreases entries.len() - i,
    {
        if entries[i].message == *message {
            proof {
                lemma_position(all, message@, i as int);
            }
            return i;
        }
        i += 1;
    }
    proof {
        lemma_position(all, message@, i as int);
    }
    i
}

/// The failures of a run by their text, each text with the number of times
/// that it occurred, in the order in which the texts first occurred. No text
/// has two entries.
pub struct ErrorHistogram {
    entries: Vec<ErrorCount>,
}

impl View for ErrorHistogram {
    type V = Seq<ErrorEntry>;

    closed spec fn view(&self) -> Seq<ErrorEntry> {
        error_entries(self.entries@)
    }
}

impl ErrorHistogram {
    #[verifier::type_invariant]
    spec fn no_text_twice(self) -> bool {
        distinct(error_entries(self.entries@))
    }

    /// A histogram without entries.
    pub fn new() -> (histogram: ErrorHistogram)
        ensures
            histogram@ == Seq::<ErrorEntry>::empty(),
    {
        let histogram = ErrorHistogram { entries: Vec::new() };
        assert(histogram@ =~= Seq::<ErrorEntry>::empty());
        histogram
    }

    /// The entries of the histogram, none of which shares its text with
    /// another.
    pub fn entries(&self) -> (entries: &Vec<ErrorCount>)
        ensures
            error_entries(entries@) == self@,
            distinct(self@),
    {
        proof {
            use_type_invariant(self);
        }
        &self.entries
    }

    /// Counts one occurrence of `message`: in its entry if it has one, in a
    /// new entry behind the others if it has none.
    pub fn count(&mut self, message: String)
        ensures
            final(self)@ == counted(old(self)@, message@),
            distinct(final(self)@),
    {
        proof {
            use_type_invariant(&*self);
        }
        let ghost before = self@;
        let mut entries: Vec<ErrorCount> = Vec::new();
        assert(error_entries(entries@) =~= Seq::<ErrorEntry>::empty());
        core::mem::swap(&mut self.entries, &mut entries);
        proof {
            law_histogram_stays_distinct(before, message@);
        }
        let at = find_entry(&entries, &message);
        if at < entries.len() {
            let count = bump(entries[at].count);
            entries.set(at, ErrorCount { message, count });
        } else {
            entries.push(ErrorCount { message, count: 1 });
        }
        assert(error_entries(entries@) =~= counted(before, message@));
        core::mem::swap(&mut self.entries, &mut entries);
    }
}

/// Counters of responses and failures, per-second rate samples and latency
/// samples of a run, and the figures drawn from them when the run is over.
pub struct Statistics {
    rsp1xx: u64,
    rsp2xx: u64,
    rsp3xx: u64,
    rsp4xx: u64,
    rsp5xx: u64,
    rsp_others: u64,
    errors: ErrorHistogram,
    started_at: u64,
    total_success: u64,
    total: u64,
    max_req_per_second: u64,
    avg_req_per_second: Ratio,
    variance_per_second: Ratio,
    req_per_second: Vec<u64>,
    current_cumulative: u64,
    avg_req_used_time: u64,
    max_req_used_time: u64,
    stdev_req_used_time: u64,
    used_time: Vec<u64>,
    is_stopped: bool,
    stopped_at: Option<u64>,
    throughput: Ratio,
    latencies: Vec<(Percentile, u64)>,
}

impl View for Statistics {
    type V = StatisticsView;

    closed spec fn view(&self) -> StatisticsView {
        StatisticsView {
            rsp1xx: self.rsp1xx,
            rsp2xx: self.rsp2xx,
            rsp3xx: self.rsp3xx,
            rsp4xx: self.rsp4xx,
            rsp5xx: self.rsp5xx,
            rsp_others: self.rsp_others,
            errors: self.errors@,
            started_at: self.started_at,
            total_success: self.total_success,
            total: self.total,
            max_req_per_second: self.max_req_per_second,
            avg_req_per_second: self.avg_req_per_second,
            variance_per_second: self.variance_per_second,
            req_per_second: self.req_per_second@,
            current_cumulative: self.current_cumulative,
            avg_req_used_time: self.avg_req_used_time,
            max_req_used_time: self.max_req_used_time,
            stdev_req_used_time: self.stdev_req_used_time,
            used_time: self.used_time@,
            is_stopped: self.is_stopped,
            stopped_at: self.stopped_at,
            throughput: self.throughput,
            latencies: latency_entries(self.latencies@),
        }
    }
}

impl Default for Statistics {
    /// Statistics with nothing counted, on a clock that starts at zero.
    fn default() -> (statistics: Statistics)
        ensures
            statistics@ == StatisticsView::empty(0),
    {
        Statistics::new(0)
    }
}

/// The bucket of `status`.
pub fn classify(status: u16) -> (class: StatusClass)
    ensures
        class == class_of(status),
{
    if 100 <= status && status < 200 {
        StatusClass::Informational
    } else if 200 <= status && status < 300 {
        StatusClass::Success
    } else if 300 <= status && status < 400 {
        StatusClass::Redirection
    } else if 400 <= status && status < 500 {
        StatusClass::ClientError
    } else if 500 <= status && status < 512 {
        StatusClass::ServerError
    } else {
        StatusClass::Other
    }
}

impl Statistics {
    /// Statistics with nothing counted, for a run that starts at `now`.
    pub fn new(now: u64) -> (statistics: Statistics)
        ensures
            statistics@ == StatisticsView::empty(now),
    {
        let statistics = Statistics {
            rsp1xx: 0,
            rsp2xx: 0,
            rsp3xx: 0,
            rsp4xx: 0,
            rsp5xx: 0,
            rsp_others: 0,
            errors: ErrorHistogram::new(),
            started_at: now,
            total_success: 0,
            total: 0,
            max_req_per_second: 0,
            avg_req_per_second: Ratio { numer: 0, denom: 1 },
            variance_per_second: Ratio { numer: 0, denom: 1 },
            req_per_second: Vec::new(),
            current_cumulative: 0,
            avg_req_used_time: 0,
            max_req_used_time: 0,
            stdev_req_used_time: 0,
            used_time: Vec::new(),
            is_stopped: false,
            stopped_at: None,
            throughput: Ratio { numer: 0, denom: 1 },
            latencies: Vec::new(),
        };
        assert(statistics@.errors =~= Seq::empty());
        assert(statistics@.latencies =~= Seq::empty());
        assert(statistics@.req_per_second =~= Seq::empty());
        assert(statistics@.used_time =~= Seq::empty());
        statistics
    }

    /// Number of messages handled so far.
    pub fn get_total(&self) -> (total: u64)
        ensures
            total == self@.total,
    {
        self.total
    }

    /// Moves the start of the run to `now`.
    pub fn reset_start_time(&mut self, now: u64)
        ensures
            final(self)@ == (StatisticsView { started_at: now, ..old(self)@ }),
    {
        self.started_at = now;
    }

    /// One tick of the per-second timer: the count of the second that ended
    /// joins the rate samples and the next second starts at zero. Tells
    /// whether the timer is to stop.
    pub fn timer_per_second(&mut self) -> (stop: bool)
        ensures
            final(self)@ == old(self)@.ticked(),
            stop == old(self)@.is_stopped,
    {
        self.req_per_second.push(self.current_cumulative);
        self.current_cumulative = 0;
        self.is_stopped
    }

    /// Counts one response in the bucket of its status code.
    pub fn statistics_rsp_code(&mut self, status: u16)
        ensures
            final(self)@ == old(self)@.with_status(status),
    {
        match classify(status) {
            StatusClass::Informational => {
                self.rsp1xx = bump(self.rsp1xx);
            },
            StatusClass::Success => {
                self.rsp2xx = bump(self.rsp2xx);
            },
            StatusClass::Redirection => {
                self.rsp3xx = bump(self.rsp3xx);
            },
            StatusClass::ClientError => {
                self.rsp4xx = bump(self.rsp4xx);
            },
            StatusClass::ServerError => {
                self.rsp5xx = bump(self.rsp5xx);
            },
            StatusClass::Other => {
                self.rsp_others = bump(self.rsp_others);
            },
        }
    }

    /// Counts one occurrence of `message` in the error histogram.
    fn count_error(&mut self, message: String)
        ensures
            final(self)@ == (StatisticsView {
                errors: counted(old(self)@.errors, message@),
                ..old(self)@
            }),
    {
        self.errors.count(message);
    }

    /// Counts a failed request: its message in the histogram and, when the
    /// failure carries a status code, that code in its bucket.
    pub fn handle_resp_error(&mut self, failure: RequestError)
        ensures
            final(self)@ == old(self)@.with_failure(failure@),
    {
        let status = failure.status;
        self.count_error(failure.message);
        if let Some(status) = status {
            self.statistics_rsp_code(status);
        }
    }

    /// Takes in the outcome of one request.
    pub fn handle_message(&mut self, message: Message)
        ensures
            final(self)@ == old(self)@.handled(message@),
    {
        proof {
            use_type_invariant(&message);
        }
        let Message { rsp_at, req_at, response } = message;
        self.total = bump(self.total);
        match response {
            Err(failure) => {
                self.handle_resp_error(failure);
            },
            Ok(status) => {
                self.statistics_rsp_code(status);
                self.total_success = bump(self.total_success);
                self.current_cumulative = bump(self.current_cumulative);
                self.used_time.push(rsp_at - req_at);
            },
        }
    }

    /// Tells the per-second timer to stop and notes the time.
    pub fn stop_timer(&mut self, now: u64)
        ensures
            final(self)@ == (StatisticsView {
                is_stopped: true,
                stopped_at: Some(now),
                ..old(self)@
            }),
    {
        self.is_stopped = true;
        self.stopped_at = Some(now);
    }

    /// Responses with a status from 100 to 199.
    pub fn rsp1xx(&self) -> (count: u64)
        ensures
            count == self@.rsp1xx,
    {
        self.rsp1xx
    }

    /// Responses with a status from 200 to 299.
    pub fn rsp2xx(&self) -> (count: u64)
        ensures
            count == self@.rsp2xx,
    {
        self.rsp2xx
    }

    /// Responses with a status from 300 to 399.
    pub fn rsp3xx(&self) -> (count: u64)
        ensures
            count == self@.rsp3xx,
    {
        self.rsp3xx
    }

    /// Responses with a status from 400 to 499.
    pub fn rsp4xx(&self) -> (count: u64)
        ensures
            count == self@.rsp4xx,
    {
        self.rsp4xx
    }

    /// Responses with a status from 500 to 511.
    pub fn rsp5xx(&self) -> (count: u64)
        ensures
            count == self@.rsp5xx,
    {
        self.rsp5xx
    }

    /// Responses with any other status.
    pub fn rsp_others(&self) -> (count: u64)
        ensures
            count == self@.rsp_others,
    {
        self.rsp_others
    }

    /// Number of responses handled so far.
    pub fn get_total_success(&self) -> (count: u64)
        ensures
            count == self@.total_success,
    {
        self.total_success
    }

    /// The error histogram, in the order in which the texts first occurred.
    pub fn errors(&self) -> (errors: &Vec<ErrorCount>)
        ensures
            error_entries(errors@) == self@.errors,
            distinct(self@.errors),
    {
        self.errors.entries()
    }

    /// The per-second rate samples taken so far.
    pub fn req_per_second(&self) -> (samples: &Vec<u64>)
        ensures
            samples@ == self@.req_per_second,
    {
        &self.req_per_second
    }

    /// The latency samples, in nanoseconds.
    pub fn used_time(&self) -> (samples: &Vec<u64>)
        ensures
            samples@ == self@.used_time,
    {
        &self.used_time
    }

    /// The largest per-second rate.
    pub fn max_req_per_second(&self) -> (max: u64)
        ensures
            max == self@.max_req_per_second,
    {
        self.max_req_per_second
    }

    /// The mean per-second rate.
    pub fn avg_req_per_second(&self) -> (avg: Ratio)
        ensures
            avg == self@.avg_req_per_second,
    {
        self.avg_req_per_second
    }

    /// The variance of the per-second rate; its square root is the standard
    /// deviation.
    pub fn variance_per_second(&self) -> (variance: Ratio)
        ensures
            variance == self@.variance_per_second,
    {
        self.variance_per_second
    }

    /// The mean latency in nanoseconds.
    pub fn avg_req_used_time(&self) -> (nanos: u64)
        ensures
            nanos == self@.avg_req_used_time,
    {
        self.avg_req_used_time
    }

    /// The largest latency in nanoseconds.
    pub fn max_req_used_time(&self) -> (nanos: u64)
        ensures
            nanos == self@.max_req_used_time,
    {
        self.max_req_used_time
    }

    /// The standard deviation of the latency in nanoseconds.
    pub fn stdev_req_used_time(&self) -> (nanos: u64)
        ensures
            nanos == self@.stdev_req_used_time,
    {
        self.stdev_req_used_time
    }

    /// Requests per second at the mean latency.
    pub fn throughput(&self) -> (throughput: Ratio)
        ensures
            throughput == self@.throughput,
    {
        self.throughput
    }

    /// The percentile latencies, in nanoseconds.
    pub fn latencies(&self) -> (latencies: &Vec<(Percentile, u64)>)
        ensures
            latency_entries(latencies@) == self@.latencies,
    {
        &self.latencies
    }

    /// When the run started.
    pub fn started_at(&self) -> (at: u64)
        ensures
            at == self@.started_at,
    {
        self.started_at
    }

    /// When the per-second timer was told to stop, if it was.
    pub fn stopped_at(&self) -> (at: Option<u64>)
        ensures
            at == self@.stopped_at,
    {
        self.stopped_at
    }

    /// Whether the per-second timer has been told to stop.
    pub fn is_stopped(&self) -> (stopped: bool)
        ensures
            stopped == self@.is_stopped,
    {
        self.is_stopped
    }

    /// How many rate samples the rate figures are taken from.
    fn kept_samples(&self) -> (kept: usize)
        ensures
            kept <= self.req_per_second.len(),
            self.req_per_second@.take(kept as int) == trimmed(self@.req_per_second),
            (kept == 0) == (self@.req_per_second.len() == 0),
    {
        let n = self.req_per_second.len();
        if n > 2 {
            n - 1
        } else {
            assert(self.req_per_second@.take(n as int) =~= self.req_per_second@);
            n
        }
    }

    /// Sets the largest per-second rate.
    pub fn calculate_max_per_second(&mut self)
        ensures
            final(self)@ == old(self)@.with_max_per_second(),
    {
        let kept = self.kept_samples();
        if kept > 0 {
            self.max_req_per_second = max_prefix(&self.req_per_second, kept);
        }
    }

    /// Sets the mean per-second rate.
    pub fn calculate_avg_per_second(&mut self)
        ensures
            final(self)@ == old(self)@.with_avg_per_second(),
    {
        let kept = self.kept_samples();
        if kept > 0 {
            let sum = sum_prefix(&self.req_per_second, kept);
            self.avg_req_per_second = Ratio { numer: sum, denom: kept as u128 };
        }
    }

    /// Sets the variance of the per-second rate.
    pub fn calculate_stdev_per_second(&mut self)
        ensures
            final(self)@ == old(self)@.with_stdev_per_second(),
    {
        let kept = self.kept_samples();
        if kept == 0 {
            return ;
        }
        let ghost samples = trimmed(self@.req_per_second);
        let count = kept as u128;
        proof {
            lemma_spread_nonnegative(samples);
            lemma_total_bound(samples);
            assert(count * count <= u128::MAX) by (nonlinear_arith)
                requires
                    count <= u64::MAX,
            ;
            assert(samples.len() * u64::MAX <= u128::MAX) by (nonlinear_arith)
                requires
                    samples.len() <= u64::MAX,
            ;
        }
        let numer: u128 = match sum_squares_prefix(&self.req_per_second, kept) {
            None => {
                proof {
                    let q = square_total(samples);
                    assert(samples.len() * q > u128::MAX) by (nonlinear_arith)
                        requires
                            samples.len() >= 1,
                            q > u128::MAX,
                    ;
                }
                u128::MAX
            },
            Some(squares) => match count.checked_mul(squares) {
                None => u128::MAX,
                Some(scaled) => {
                    let sum = sum_prefix(&self.req_per_second, kept);
                    proof {
                        assert(sum * sum <= scaled);
                    }
                    scaled - sum * sum
                },
            },
        };
        self.variance_per_second = Ratio { numer, denom: count * count };
    }

    /// Sets mean, maximum and standard deviation of the latency, and leaves
    /// the latency samples in ascending order.
    pub fn calculate_elapsed_time(&mut self)
        ensures
            final(self)@ == old(self)@.with_elapsed_time(),
    {
        let count = self.used_time.len();
        if count == 0 {
            return ;
        }
        assert(self.used_time@.take(count as int) =~= self.used_time@);
        let center = mean_prefix(&self.used_time, count);
        let largest = max_prefix(&self.used_time, count);
        let deviations = sum_deviations(&self.used_time, center);
        let variance = deviations / (count as u128);
        self.avg_req_used_time = center;
        self.max_req_used_time = largest;
        self.stdev_req_used_time = floor_sqrt(variance);
        sort_ascending(&mut self.used_time);
    }

    /// Sets the throughput that `connections` connections sustain at the
    /// mean latency.
    pub fn calculate_throughput(&mut self, connections: u16)
        ensures
            final(self)@ == old(self)@.with_throughput(connections),
    {
        if self.avg_req_used_time > 0 {
            assert(connections as u128 * NANOS_PER_SEC as u128 <= u128::MAX) by (nonlinear_arith)
                requires
                    connections <= u16::MAX,
                    NANOS_PER_SEC == 1_000_000_000,
            ;
            self.throughput = Ratio {
                numer: (connections as u128) * (NANOS_PER_SEC as u128),
                denom: self.avg_req_used_time as u128,
            };
        }
    }

    /// Appends, for each percentile in turn, the mean of the lowest share of
    /// the latency samples that the percentile names.
    pub fn calculate_latencies(&mut self, percentiles: &Vec<Percentile>)
        ensures
            final(self)@ == old(self)@.with_latencies(percentile_values(percentiles@)),
    {
        let count = self.used_time.len();
        if count == 0 {
            return ;
        }
        if !is_sorted(&self.used_time) {
            sort_ascending(&mut self.used_time);
        } else {
            proof {
                lemma_ascending_unique(self.used_time@, self.used_time@);
            }
        }
        proof {
            lemma_ascending_properties(old(self).used_time@);
        }
        let ghost sorted = self.used_time@;
        let ghost wanted = percentile_values(percentiles@);
        let ghost before = latency_entries(self.latencies@);
        let mut i: usize = 0;
        while i < percentiles.len()
            invariant
                i <= percentiles.len(),
                self.used_time@ == sorted,
                sorted.len() == count,
                wanted == percentile_values(percentiles@),
                latency_entries(self.latencies@) == before + emitted(sorted, wanted.take(i as int)),
                self.rsp1xx == old(self).rsp1xx,
                self.rsp2xx == old(self).rsp2xx,
                self.rsp3xx == old(self).rsp3xx,
                self.rsp4xx == old(self).rsp4xx,
                self.rsp5xx == old(self).rsp5xx,
                self.rsp_others == old(self).rsp_others,
                self.errors == old(self).errors,
                self.started_at == old(self).started_at,
                self.total_success == old(self).total_success,
                self.total == old(self).total,
                self.max_req_per_second == old(self).max_req_per_second,
                self.avg_req_per_second == old(self).avg_req_per_second,
                self.variance_per_second == old(self).variance_per_second,
                self.req_per_second == old(self).req_per_second,
                self.current_cumulative == old(self).current_cumulative,
                self.avg_req_used_time == old(self).avg_req_used_time,
                self.max_req_used_time == old(self).max_req_used_time,
                self.stdev_req_used_time == old(self).stdev_req_used_time,
                self.is_stopped == old(self).is_stopped,
                self.stopped_at == old(self).stopped_at,
                self.throughput == old(self).throughput,
            decreases percentiles.len() - i,
        {
            let percentile = percentiles[i];
            let k = percentile.rank_of(count);
            proof {
                assert(wanted.take(i as int + 1).drop_last() =~= wanted.take(i as int));
                assert(wanted.take(i as int + 1).last() == percentile@);
            }
            if k > 0 {
                let latency = mean_prefix(&self.used_time, k);
                let ghost earlier = latency_entries(self.latencies@);
                self.latencies.push((percentile, latency));
                assert(latency_entries(self.latencies@) =~= earlier.push((percentile@, latency)));
                assert(latency_entries(self.latencies@) =~= before + emitted(
                    sorted,
                    wanted.take(i as int + 1),
                ));
            }
            i += 1;
        }
        assert(wanted.take(percentiles.len() as int) =~= wanted);
    }

    /// Drops the latency samples, which the summary no longer needs.
    pub fn clear_temporary_data(&mut self)
        ensures
            final(self)@ == old(self)@.cleared(),
    {
        self.used_time = Vec::new();
    }

    /// Draws the figures of the run from the samples: rate, latency,
    /// throughput and percentile latencies. To be called once, when every
    /// message has been handled.
    pub fn summary(&mut self, connections: u16, percentiles: &Vec<Percentile>)
        ensures
            final(self)@ == old(self)@.summarized(connections, percentile_values(percentiles@)),
    {
        self.calculate_max_per_second();
        self.calculate_avg_per_second();
        self.calculate_elapsed_time();
        self.calculate_stdev_per_second();
        self.calculate_throughput(connections);
        self.calculate_latencies(percentiles);
        self.clear_temporary_data();
    }
}

/// How many of `messages` are responses.
pub open spec fn responses(messages: Seq<MessageView>) -> nat
    decreases messages.len(),
{
    if messages.len() == 0 {
        0
    } else {
        responses(messages.drop_last()) + if messages.last().response is Ok {
            1nat
        } else {
            0nat
        }
    }
}

/// Whether the message is a response with a status of `class`.
pub open spec fn answered_with(message: MessageView, class: StatusClass) -> bool {
    match message.response {
        Ok(status) => class_of(status) == class,
        Err(_) => false,
    }
}

/// Whether the message is a failure with the text `text` and no status.
pub open spec fn failed_with(message: MessageView, text: Seq<char>) -> bool {
    match message.response {
        Ok(_) => false,
        Err(failure) => failure.message == text && failure.status is None,
    }
}

/// Counting a message in the histogram leaves every message with one entry.
pub proof fn law_histogram_stays_distinct(errors: Seq<ErrorEntry>, message: Seq<char>)
    requires
        distinct(errors),
    ensures
        distinct(counted(errors, message)),
        position(counted(errors, message), message) < counted(errors, message).len(),
{
    lemma_position_is_first(errors, message);
    let at = position(errors, message);
    let after = counted(errors, message);
    assert forall|i: int, j: int| 0 <= i < j < after.len() implies after[i].0 != after[j].0 by {
        if at < errors.len() {
            assert(after[i].0 == errors[i].0);
            assert(after[j].0 == errors[j].0);
        } else if j < errors.len() {
            assert(after[i] == errors[i]);
            assert(after[j] == errors[j]);
        } else {
            assert(after[i] == errors[i]);
        }
    }
    assert forall|j: int| 0 <= j < at implies after[j].0 != message by {
        assert(after[j].0 == errors[j].0);
    }
    lemma_position(after, message, at);
}

/// Whatever messages come in, and in whatever order: each is counted in
/// `total`, each response in `total_success` and with one latency sample, and
/// no message of the histogram has two entries. (Counters stay where they
/// are once 64 bits are full, which more messages than `u64::MAX` would
/// take.)
pub proof fn law_every_message_is_counted(now: u64, messages: Seq<MessageView>)
    requires
        messages.len() <= u64::MAX,
    ensures
        ({
            let s = StatisticsView::empty(now).handled_all(messages);
            &&& s.total == messages.len()
            &&& s.total_success == responses(messages)
            &&& s.used_time.len() == responses(messages)
            &&& s.total_success <= s.total
            &&& distinct(s.errors)
            &&& s.req_per_second.len() == 0
        }),
    decreases messages.len(),
{
    if messages.len() > 0 {
        law_every_message_is_counted(now, messages.drop_last());
        let before = StatisticsView::empty(now).handled_all(messages.drop_last());
        lemma_responses_bound(messages.drop_last());
        match messages.last().response {
            Err(failure) => {
                law_histogram_stays_distinct(before.errors, failure.message);
            },
            Ok(status) => {},
        }
    }
}

/// There are no more responses than messages.
pub proof fn lemma_responses_bound(messages: Seq<MessageView>)
    ensures
        responses(messages) <= messages.len(),
    decreases messages.len(),
{
    if messages.len() > 0 {
        lemma_responses_bound(messages.drop_last());
    }
}

/// A run in which every request is answered with a status of one class:
/// all messages are counted in `total`, in `total_success` and in the bucket
/// of that class, every other bucket stays at zero and the histogram stays
/// empty.
pub proof fn law_uniform_responses(now: u64, messages: Seq<MessageView>, class: StatusClass)
    requires
        messages.len() <= u64::MAX,
        forall|i: int| 0 <= i < messages.len() ==> answered_with(#[trigger] messages[i], class),
    ensures
        ({
            let s = StatisticsView::empty(now).handled_all(messages);
            let n = messages.len();
            &&& s.total == n
            &&& s.total_success == n
            &&& s.used_time.len() == n
            &&& s.errors.len() == 0
            &&& s.rsp1xx == if class == StatusClass::Informational { n } else { 0 }
            &&& s.rsp2xx == if class == StatusClass::Success { n } else { 0 }
            &&& s.rsp3xx == if class == StatusClass::Redirection { n } else { 0 }
            &&& s.rsp4xx == if class == StatusClass::ClientError { n } else { 0 }
            &&& s.rsp5xx == if class == StatusClass::ServerError { n } else { 0 }
            &&& s.rsp_others == if class == StatusClass::Other { n } else { 0 }
        }),
    decreases messages.len(),
{
    if messages.len() > 0 {
        let init = messages.drop_last();
        assert forall|i: int| 0 <= i < init.len() implies answered_with(
            #[trigger] init[i],
            class,
        ) by {
            assert(init[i] == messages[i]);
        }
        law_uniform_responses(now, init, class);
        assert(messages.last() == messages[messages.len() - 1]);
    }
}

/// A run in which no request is answered and every failure has the same
/// text and no status: all messages are counted in `total`, none in
/// `total_success` or in a bucket, and the histogram has the one text with
/// the count of the messages.
pub proof fn law_uniform_failures(now: u64, messages: Seq<MessageView>, text: Seq<char>)
    requires
        0 < messages.len() <= u64::MAX,
        forall|i: int| 0 <= i < messages.len() ==> failed_with(#[trigger] messages[i], text),
    ensures
        ({
            let s = StatisticsView::empty(now).handled_all(messages);
            let n = messages.len();
            &&& s.total == n
            &&& s.total_success == 0
            &&& s.used_time.len() == 0
            &&& s.errors == seq![(text, n as u64)]
            &&& s.rsp1xx == 0
            &&& s.rsp2xx == 0
            &&& s.rsp3xx == 0
            &&& s.rsp4xx == 0
            &&& s.rsp5xx == 0
            &&& s.rsp_others == 0
        }),
    decreases messages.len(),
{
    let init = messages.drop_last();
    assert(messages.last() == messages[messages.len() - 1]);
    if init.len() > 0 {
        assert forall|i: int| 0 <= i < init.len() implies failed_with(#[trigger] init[i], text) by {
            assert(init[i] == messages[i]);
        }
        law_uniform_failures(now, init, text);
        let before = StatisticsView::empty(now).handled_all(init);
        assert(before.errors[0].0 == text);
        assert(position(before.errors, text) == 0);
        assert(counted(before.errors, text) =~= seq![(text, messages.len() as u64)]);
    } else {
        assert(StatisticsView::empty(now).handled_all(init) == StatisticsView::empty(now));
        let none = Seq::<ErrorEntry>::empty();
        assert(position(none, text) == 0);
        assert(counted(none, text) =~= seq![(text, 1u64)]);
    }
}

/// The responses counted in all buckets together.
pub open spec fn counted_responses(s: StatisticsView) -> nat {
    (s.rsp1xx + s.rsp2xx + s.rsp3xx + s.rsp4xx + s.rsp5xx + s.rsp_others) as nat
}

/// Every status code is counted in one bucket and in no other: 100 to 199,
/// 200 to 299, 300 to 399, 400 to 499, 500 to 511, and the rest.
pub proof fn law_one_bucket_for_each_status(s: StatisticsView, status: u16)
    requires
        counted_responses(s) < u64::MAX,
    ensures
        counted_responses(s.with_status(status)) == counted_responses(s) + 1,
        s.with_status(status).rsp1xx != s.rsp1xx <==> 100 <= status < 200,
        s.with_status(status).rsp2xx != s.rsp2xx <==> 200 <= status < 300,
        s.with_status(status).rsp3xx != s.rsp3xx <==> 300 <= status < 400,
        s.with_status(status).rsp4xx != s.rsp4xx <==> 400 <= status < 500,
        s.with_status(status).rsp5xx != s.rsp5xx <==> 500 <= status < 512,
        s.with_status(status).rsp_others != s.rsp_others <==> !(100 <= status < 512),
{
}

/// What the statistics take in during a run.
pub enum StatisticsEvent {
    /// The outcome of a request.
    Outcome(MessageView),
    /// A tick of the per-second timer.
    Tick,
}

impl StatisticsView {
    /// The statistics after `event`.
    pub open spec fn after(self, event: StatisticsEvent) -> StatisticsView {
        match event {
            StatisticsEvent::Outcome(message) => self.handled(message),
            StatisticsEvent::Tick => self.ticked(),
        }
    }

    /// The statistics after all of `events`, in their order.
    pub open spec fn run(self, events: Seq<StatisticsEvent>) -> StatisticsView
        decreases events.len(),
    {
        if events.len() == 0 {
            self
        } else {
            self.run(events.drop_last()).after(events.last())
        }
    }
}

/// No response is lost between the messages and the rate samples: however
/// messages and ticks follow each other, the rate samples and the count of
/// the running second add up to the responses taken in, each of which has
/// its latency sample, and there is one rate sample for each tick.
pub proof fn law_no_sample_is_dropped(now: u64, events: Seq<StatisticsEvent>)
    requires
        events.len() <= u64::MAX,
    ensures
        ({
            let s = StatisticsView::empty(now).run(events);
            &&& total(s.req_per_second) + s.current_cumulative == s.total_success
            &&& s.used_time.len() == s.total_success
            &&& s.total_success <= s.total
            &&& s.total + s.req_per_second.len() == events.len()
        }),
    decreases events.len(),
{
    if events.len() > 0 {
        law_no_sample_is_dropped(now, events.drop_last());
        let before = StatisticsView::empty(now).run(events.drop_last());
        match events.last() {
            StatisticsEvent::Tick => {
                lemma_total_push(before.req_per_second, before.current_cumulative);
            },
            StatisticsEvent::Outcome(message) => {},
        }
    }
}

/// Each percentile latency is the mean of the lowest share of the samples in
/// ascending order, the share being the samples' count times the percentile,
/// rounded down; percentiles whose share is empty have no entry, and the
/// entries keep the order of the percentiles.
pub proof fn law_percentile_latency(samples: Seq<u64>, percentiles: Seq<u32>, ppm: u32)
    ensures
        ({
            let sorted = ascending(samples);
            let k = rank(ppm, sorted.len());
            emitted(sorted, percentiles.push(ppm)) == if 0 < k <= sorted.len() {
                emitted(sorted, percentiles).push((ppm, mean(sorted.take(k as int)) as u64))
            } else {
                emitted(sorted, percentiles)
            }
        }),
        emitted(ascending(samples), percentiles).len() <= percentiles.len(),
{
    assert(percentiles.push(ppm).drop_last() =~= percentiles);
    lemma_emitted_len(ascending(samples), percentiles);
}

/// There are no more percentile latencies than percentiles.
pub proof fn lemma_emitted_len(sorted: Seq<u64>, percentiles: Seq<u32>)
    ensures
        emitted(sorted, percentiles).len() <= percentiles.len(),
    decreases percentiles.len(),
{
    if percentiles.len() > 0 {
        lemma_emitted_len(sorted, percentiles.drop_last());
    }
}

/// The latency figures of the summary in plain numbers: the mean is the sum
/// of the samples over their count, rounded down; the maximum is the largest
/// sample, which comes last in ascending order; the standard deviation is the
/// integer root of the variance, which is the sum of the squared distances
/// from the mean, limited to 128 bits, over the count, rounded down. The
/// samples are left in ascending order.
pub proof fn law_latency_figures(s: StatisticsView)
    requires
        0 < s.used_time.len() <= u64::MAX,
    ensures
        ({
            let samples = s.used_time;
            let figures = s.with_elapsed_time();
            let center = total(samples) / samples.len();
            let distances = deviation_total(samples, center as int);
            let variance = if distances <= u128::MAX {
                distances / samples.len()
            } else {
                u128::MAX as nat / samples.len()
            };
            let stdev = figures.stdev_req_used_time as nat;
            &&& figures.avg_req_used_time == center
            &&& figures.max_req_used_time == largest(samples)
            &&& figures.max_req_used_time == ascending(samples).last()
            &&& stdev * stdev <= variance < (stdev + 1) * (stdev + 1)
            &&& figures.used_time == ascending(samples)
        }),
{
    let samples = s.used_time;
    let center = mean(samples);
    lemma_mean_bound(samples);
    let clamped = clamp128(deviation_total(samples, center as int) as int);
    let variance = clamped / samples.len() as u128;
    lemma_isqrt_bounds(variance as nat);
    lemma_isqrt_fits(variance as nat);
    law_max_is_last_of_ascending(samples);
}

/// The maximum latency is the last sample in ascending order.
pub proof fn law_max_is_last_of_ascending(samples: Seq<u64>)
    requires
        samples.len() > 0,
    ensures
        largest(samples) == ascending(samples).last(),
{
    lemma_ascending_properties(samples);
    let sorted = ascending(samples);
    lemma_largest_of_ascending(sorted);
    lemma_largest_is_upper_bound(samples);
    lemma_largest_is_upper_bound(sorted);
    samples.to_multiset_ensures();
    sorted.to_multiset_ensures();
    assert(samples.to_multiset().count(largest(samples)) > 0);
    assert(sorted.to_multiset().count(largest(sorted)) > 0);
    assert(sorted.contains(largest(samples)));
    assert(samples.contains(largest(sorted)));
    let i = sorted.index_of(largest(samples));
    let j = samples.index_of(largest(sorted));
    assert(sorted[i] <= largest(sorted));
    assert(samples[j] <= largest(samples));
}

} // verus!
