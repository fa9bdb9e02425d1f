//! A run as a whole: its options, its dispatcher and its statistics, and
//! what each of its parts does next.
//!
//! A task is a state machine. Whatever takes time stays with the caller:
//! sending requests, sleeping, waiting for an interrupt. The caller hands
//! each event to the task, with the time on its clock in nanoseconds, and
//! does what the task answers.

use crate::arg::{arg_error, Arg, ArgError};
use crate::dispatcher::{
    Admission, CountDispatcher, CountView, Dispatcher, DispatcherView, DurationDispatcher,
    DurationView,
};
use crate::output::{report, text_output, Output};
use crate::dispatcher::since;
use crate::statistics::{
    answered_with, counted, failed_with, percentile_values, position, ErrorEntry, Message,
    MessageView, Statistics, StatisticsView, StatusClass, NANOS_PER_SEC,
};
use vstd::prelude::*;

verus! {

/// How many outcome messages may wait between the workers and their reader.
/// Workers that find no room wait, which keeps the memory of a run bounded.
pub const CHANNEL_CAPACITY: usize = 500;

/// Microseconds that a throttled worker pauses before it asks again.
pub const THROTTLE_PAUSE_MICROS: u64 = 1;

/// Milliseconds that the reader of messages pauses when no message is there.
pub const RECEIVE_PAUSE_MILLIS: u64 = 1;

/// Seconds between two ticks of the timer that samples the rate.
pub const TIMER_PERIOD_SECS: u64 = 1;

/// Milliseconds between two updates of the progress display of a run by
/// count.
pub const COUNT_PROGRESS_PAUSE_MILLIS: u64 = 10;

/// Milliseconds between two updates of the progress display of a run by
/// time.
pub const DURATION_PROGRESS_PAUSE_MILLIS: u64 = 1_000;

/// `seconds` in nanoseconds, limited to 64 bits.
pub open spec fn seconds_in_nanos(seconds: u64) -> u64 {
    if seconds * NANOS_PER_SEC > u64::MAX {
        u64::MAX
    } else {
        (seconds * NANOS_PER_SEC) as u64
    }
}

/// `seconds` in nanoseconds, limited to 64 bits.
pub fn nanos_of_seconds(seconds: u64) -> (nanos: u64)
    ensures
        nanos == seconds_in_nanos(seconds),
{
    match seconds.checked_mul(NANOS_PER_SEC) {
        Some(nanos) => nanos,
        None => u64::MAX,
    }
}

/// A dispatcher for a run of `total` requests.
pub fn create_count_dispatcher(total: u64, rate: &Option<u16>) -> (dispatcher: Dispatcher)
    requires
        *rate != Some(0u16),
    ensures
        dispatcher@ matches DispatcherView::Count(d) && d == CountView::fresh(total, d.limiter)
            && d.limiter.is_some() == rate.is_some() && (d.limiter matches Some(l) ==> Some(l.rate)
            == *rate),
{
    Dispatcher::Count(CountDispatcher::new(total, rate))
}

/// A dispatcher for a run of `duration` nanoseconds that starts at `now`.
pub fn create_duration_dispatcher(duration: u64, rate: &Option<u16>, now: u64) -> (dispatcher:
    Dispatcher)
    requires
        *rate != Some(0u16),
    ensures
        dispatcher@ matches DispatcherView::Duration(d) && d == DurationView::fresh(
            duration,
            d.limiter,
            now,
        ) && d.limiter.is_some() == rate.is_some() && (d.limiter matches Some(l) ==> Some(l.rate)
            == *rate),
{
    Dispatcher::Duration(DurationDispatcher::new(duration, rate, now))
}

/// Whether `dispatcher` is a fresh dispatcher for the run that the options
/// describe, started at `now`: bounded by the count of requests if one is
/// given, by the length of time otherwise.
pub open spec fn dispatches(
    dispatcher: DispatcherView,
    requests: Option<u64>,
    duration: Option<u64>,
    rate: Option<u16>,
    now: u64,
) -> bool {
    &&& dispatcher.limiter().is_some() == rate.is_some()
    &&& dispatcher.limiter() matches Some(l) ==> Some(l.rate) == rate
    &&& match dispatcher {
        DispatcherView::Count(d) => match requests {
            Some(total) => d == CountView::fresh(total, d.limiter),
            None => false,
        },
        DispatcherView::Duration(d) => match (requests, duration) {
            (None, Some(seconds)) => d == DurationView::fresh(
                seconds_in_nanos(seconds),
                d.limiter,
                now,
            ),
            _ => false,
        },
    }
}

/// The dispatcher for the run that `arg` describes, started at `now`.
pub fn create_dispatcher(arg: &Arg, now: u64) -> (dispatcher: Dispatcher)
    requires
        arg.requests is Some || arg.duration is Some,
        arg.rate != Some(0u16),
    ensures
        dispatches(dispatcher@, arg.requests, arg.duration, arg.rate, now),
{
    match arg.requests {
        Some(total) => create_count_dispatcher(total, &arg.rate),
        None => create_duration_dispatcher(nanos_of_seconds(arg.duration.unwrap()), &arg.rate, now),
    }
}

/// Where a run stands.
#[derive(Debug, Clone, Copy, PartialEq, Eq, Structural)]
pub enum Phase {
    /// Requests are admitted.
    Running,
    /// An interrupt has ended admission; requests in flight run out.
    Canceled,
    /// The bound of the run has ended admission; requests in flight run out.
    Done,
    /// Every worker has ended.
    Drained,
}

/// What the reader of the outcome messages does next.
#[derive(Debug, Clone, Copy, PartialEq, Eq, Structural)]
pub enum Receive {
    /// A message was taken in: look for the next one at once.
    Again,
    /// No message is there and workers are still at it: look again after a
    /// pause.
    Wait,
    /// No message is there and every worker has ended: the reader ends.
    Stop,
}

/// How the progress display ends.
#[derive(Debug, Clone, Copy, PartialEq, Eq, Structural)]
pub enum ProgressEnd {
    /// There is no display, or it has ended already.
    Leave,
    /// The run was interrupted: the display is left as it stands.
    Abandon,
    /// The run came to its end: the display is completed.
    Finish,
}

/// A task as a value: the options that it was made with, which it keeps as
/// they are, and the state of the run.
pub struct TaskView {
    pub arg: Arg,
    pub statistics: StatisticsView,
    pub dispatcher: DispatcherView,
    pub canceled: bool,
    pub workers_done: bool,
}

impl TaskView {
    /// Where the run stands.
    pub open spec fn phase(self) -> Phase {
        if self.workers_done {
            Phase::Drained
        } else if self.canceled {
            Phase::Canceled
        } else if self.dispatcher.terminal() {
            Phase::Done
        } else {
            Phase::Running
        }
    }

    /// Where the progress display of a run by count stands: at the messages
    /// taken in, and not beyond the count of requests.
    pub open spec fn count_position(self, total: u64) -> u64 {
        if self.statistics.total <= total {
            self.statistics.total
        } else {
            total
        }
    }

    /// How the progress display ends.
    pub open spec fn progress_end(self, shown: bool, finished: bool) -> ProgressEnd {
        if !shown || finished {
            ProgressEnd::Leave
        } else if self.canceled {
            ProgressEnd::Abandon
        } else {
            ProgressEnd::Finish
        }
    }
}

/// A run: its options, its dispatcher and its statistics.
pub struct Task {
    arg: Arg,
    statistics: Statistics,
    is_canceled: bool,
    is_workers_done: bool,
    dispatcher: Dispatcher,
}

impl View for Task {
    type V = TaskView;

    closed spec fn view(&self) -> TaskView {
        TaskView {
            arg: self.arg,
            statistics: self.statistics@,
            dispatcher: self.dispatcher@,
            canceled: self.is_canceled,
            workers_done: self.is_workers_done,
        }
    }
}

impl Task {
    /// A task for the run that `arg` describes, ready to start at `now`, if
    /// the options keep to the rules of a run.
    pub fn new(arg: Arg, now: u64) -> (task: Result<Task, ArgError>)
        ensures
            match task {
                Ok(t) => {
                    &&& arg_error(arg) is None
                    &&& t@.arg == arg
                    &&& t@.statistics == StatisticsView::empty(now)
                    &&& dispatches(t@.dispatcher, arg.requests, arg.duration, arg.rate, now)
                    &&& !t@.canceled
                    &&& !t@.workers_done
                },
                Err(e) => arg_error(arg) == Some(e),
            },
    {
        match arg.validate() {
            Err(e) => Err(e),
            Ok(_) => {
                let dispatcher = create_dispatcher(&arg, now);
                Ok(
                    Task {
                        arg,
                        statistics: Statistics::new(now),
                        is_canceled: false,
                        is_workers_done: false,
                        dispatcher,
                    },
                )
            },
        }
    }

    /// The options of the run.
    pub fn arg(&self) -> (arg: &Arg)
        ensures
            *arg == self@.arg,
    {
        &self.arg
    }

    /// The statistics of the run.
    pub fn statistics(&self) -> (statistics: &Statistics)
        ensures
            statistics@ == self@.statistics,
    {
        &self.statistics
    }

    /// The dispatcher of the run.
    pub fn dispatcher(&self) -> (dispatcher: &Dispatcher)
        ensures
            dispatcher@ == self@.dispatcher,
    {
        &self.dispatcher
    }

    /// Whether the run was interrupted.
    pub fn is_canceled(&self) -> (canceled: bool)
        ensures
            canceled == self@.canceled,
    {
        self.is_canceled
    }

    /// Whether every worker has ended.
    pub fn is_workers_done(&self) -> (done: bool)
        ensures
            done == self@.workers_done,
    {
        self.is_workers_done
    }

    /// Where the run stands.
    pub fn phase(&self) -> (phase: Phase)
        ensures
            phase == self@.phase(),
    {
        if self.is_workers_done {
            Phase::Drained
        } else if self.is_canceled {
            Phase::Canceled
        } else if self.dispatcher.is_canceled_or_done() {
            Phase::Done
        } else {
            Phase::Running
        }
    }

    /// Moves the start of the statistics to `now`.
    pub fn reset_start_time(&mut self, now: u64)
        ensures
            final(self)@ == (TaskView {
                statistics: StatisticsView { started_at: now, ..old(self)@.statistics },
                ..old(self)@
            }),
    {
        self.statistics.reset_start_time(now);
    }

    /// A worker asks at `now` whether to issue one more request: it issues
    /// one when admitted, ends when rejected, and asks again after a pause
    /// when throttled.
    pub fn worker(&mut self, now: u64) -> (outcome: Admission)
        ensures
            exists|primed: bool, token: bool|
                (final(self)@.dispatcher, outcome) == old(self)@.dispatcher.apply(
                    primed,
                    token,
                    now,
                ),
            old(self)@.dispatcher.limiter().is_none() ==> (final(self)@.dispatcher, outcome) == old(
                self,
            )@.dispatcher.apply(true, true, now),
            old(self)@.dispatcher.terminal() ==> outcome == Admission::Rejected,
            final(self)@ == (TaskView { dispatcher: final(self)@.dispatcher, ..old(self)@ }),
    {
        self.dispatcher.try_apply_job(now)
    }

    /// A worker reports at `now` that its request has ended.
    pub fn complete_job(&mut self, now: u64)
        ensures
            final(self)@ == (TaskView {
                dispatcher: old(self)@.dispatcher.complete(now),
                ..old(self)@
            }),
    {
        self.dispatcher.complete_job(now);
    }

    /// The reader of the outcome messages has looked for a message: what it
    /// received is taken into the statistics, and it is told what to do
    /// next.
    pub fn rcv_worker_message(&mut self, received: Option<Message>) -> (next: Receive)
        ensures
            match received {
                Some(message) => next == Receive::Again && final(self)@ == (TaskView {
                    statistics: old(self)@.statistics.handled(message@),
                    ..old(self)@
                }),
                None => final(self)@ == old(self)@ && next == if old(self)@.workers_done {
                    Receive::Stop
                } else {
                    Receive::Wait
                },
            },
    {
        match received {
            Some(message) => {
                self.statistics.handle_message(message);
                Receive::Again
            },
            None => {
                if self.is_workers_done {
                    Receive::Stop
                } else {
                    Receive::Wait
                }
            },
        }
    }

    /// An interrupt has come at `now`: the dispatcher admits nothing from
    /// here on, and the run counts as canceled.
    pub fn handle_ctrl_c_signal(&mut self, now: u64)
        ensures
            final(self)@ == (TaskView {
                dispatcher: old(self)@.dispatcher.cancel(now),
                canceled: true,
                ..old(self)@
            }),
            final(self)@.dispatcher.terminal(),
    {
        self.dispatcher.cancel(now);
        self.is_canceled = true;
    }

    /// One tick of the per-second timer. Tells whether the timer is to stop.
    pub fn timer_per_second(&mut self) -> (stop: bool)
        ensures
            final(self)@ == (TaskView {
                statistics: old(self)@.statistics.ticked(),
                ..old(self)@
            }),
            stop == old(self)@.statistics.is_stopped,
    {
        self.statistics.timer_per_second()
    }

    /// Every worker has ended at `now`: the readers of messages and of
    /// progress end once they are through, and the per-second timer stops at
    /// its next tick.
    pub fn finish_workers(&mut self, now: u64)
        ensures
            final(self)@ == (TaskView {
                workers_done: true,
                statistics: StatisticsView {
                    is_stopped: true,
                    stopped_at: Some(now),
                    ..old(self)@.statistics
                },
                ..old(self)@
            }),
    {
        self.is_workers_done = true;
        self.statistics.stop_timer(now);
    }

    /// Where the progress display of a run by count stands, and whether the
    /// display has seen its last update.
    pub fn update_count_progress_bar(&self) -> (update: (u64, bool))
        requires
            self@.arg.requests is Some,
        ensures
            update.0 == self@.count_position(self@.arg.requests.unwrap()),
            update.1 == self@.workers_done,
    {
        let total = self.arg.requests.unwrap();
        let seen = self.statistics.get_total();
        let position = if seen <= total {
            seen
        } else {
            total
        };
        (position, self.is_workers_done)
    }

    /// Where the progress display of a run by time stands after `current`
    /// seconds, and whether the display has seen its last update.
    pub fn update_duration_progress_bar(&self, current: u64) -> (update: (u64, bool))
        requires
            self@.arg.duration is Some,
        ensures
            update.0 == if current <= self@.arg.duration.unwrap() {
                current
            } else {
                self@.arg.duration.unwrap()
            },
            update.1 == self@.workers_done,
    {
        let total = self.arg.duration.unwrap();
        let position = if current <= total {
            current
        } else {
            total
        };
        (position, self.is_workers_done)
    }

    /// Where the progress display stands after `current` updates, and
    /// whether it has seen its last update. A run by count shows the
    /// messages taken in, a run by time the seconds that have passed.
    pub fn update_progress_bar(&self, current: u64) -> (update: (u64, bool))
        ensures
            update.1 == self@.workers_done,
            update.0 == match self@.arg.requests {
                Some(total) => self@.count_position(total),
                None => match self@.arg.duration {
                    Some(seconds) => if current <= seconds {
                        current
                    } else {
                        seconds
                    },
                    None => 0,
                },
            },
    {
        if self.arg.requests.is_some() {
            self.update_count_progress_bar()
        } else if self.arg.duration.is_some() {
            self.update_duration_progress_bar(current)
        } else {
            (0, self.is_workers_done)
        }
    }

    /// Milliseconds between two updates of the progress display.
    pub fn progress_pause_millis(&self) -> (millis: u64)
        ensures
            millis == if self@.arg.requests is Some {
                COUNT_PROGRESS_PAUSE_MILLIS
            } else {
                DURATION_PROGRESS_PAUSE_MILLIS
            },
    {
        if self.arg.requests.is_some() {
            COUNT_PROGRESS_PAUSE_MILLIS
        } else {
            DURATION_PROGRESS_PAUSE_MILLIS
        }
    }

    /// How the progress display ends: not at all without a display, or if
    /// it has ended; abandoned after an interrupt; completed otherwise.
    pub fn finish_progress_bar(&self, shown: bool, finished: bool) -> (end: ProgressEnd)
        ensures
            end == self@.progress_end(shown, finished),
    {
        if !shown || finished {
            ProgressEnd::Leave
        } else if self.is_canceled {
            ProgressEnd::Abandon
        } else {
            ProgressEnd::Finish
        }
    }

    /// Draws the figures of the run from its samples. To be called once,
    /// when every message has been taken in.
    pub fn summary(&mut self)
        ensures
            final(self)@ == (TaskView {
                statistics: old(self)@.statistics.summarized(
                    old(self)@.arg.connections,
                    percentile_values(old(self)@.arg.percentiles@),
                ),
                ..old(self)@
            }),
    {
        self.statistics.summary(self.arg.connections, &self.arg.percentiles);
    }

    /// The report of the run in plain text.
    pub fn text_output(&self) -> (text: String)
        ensures
            text@ == report(self@.statistics, self@.arg.latencies),
    {
        text_output(&self.statistics, &self.arg)
    }

    /// The figures of the run.
    pub fn json_output(&self) -> (output: Output)
        ensures
            output.holds(self@.statistics),
    {
        Output::from_statistics(&self.statistics)
    }
}

/// What happens in a run, as the task sees it.
pub enum TaskEvent {
    /// A worker asks at `now` for admission; the limiter, if there is one,
    /// comes to be primed or not and gives a cell or not.
    Ask { primed: bool, token: bool, now: u64 },
    /// A worker reports at `now` that its request has ended.
    Report { now: u64 },
    /// The reader of messages takes the outcome of a request in.
    Deliver { message: MessageView },
    /// The per-second timer ticks.
    Tick,
    /// An interrupt comes at `now`.
    Interrupt { now: u64 },
}

/// How many requests `events` report as ended.
pub open spec fn reports(events: Seq<TaskEvent>) -> nat
    decreases events.len(),
{
    if events.len() == 0 {
        0
    } else {
        reports(events.drop_last()) + if events.last() is Report {
            1nat
        } else {
            0nat
        }
    }
}

/// How many outcomes `events` hand to the statistics.
pub open spec fn deliveries(events: Seq<TaskEvent>) -> nat
    decreases events.len(),
{
    if events.len() == 0 {
        0
    } else {
        deliveries(events.drop_last()) + if events.last() is Deliver {
            1nat
        } else {
            0nat
        }
    }
}

/// Whether the event, if it hands in an outcome, hands in a response with a
/// status of `class`.
pub open spec fn delivers_response(event: TaskEvent, class: StatusClass) -> bool {
    match event {
        TaskEvent::Deliver { message } => answered_with(message, class),
        _ => true,
    }
}

/// Whether the event, if it hands in an outcome, hands in a failure with the
/// text `text` and no status.
pub open spec fn delivers_failure(event: TaskEvent, text: Seq<char>) -> bool {
    match event {
        TaskEvent::Deliver { message } => failed_with(message, text),
        _ => true,
    }
}

impl TaskView {
    /// The task after `event`. These are the changes that `Task::worker`,
    /// `complete_job`, `rcv_worker_message`, `timer_per_second` and
    /// `handle_ctrl_c_signal` make.
    pub open spec fn after(self, event: TaskEvent) -> TaskView {
        match event {
            TaskEvent::Ask { primed, token, now } => TaskView {
                dispatcher: self.dispatcher.apply(primed, token, now).0,
                ..self
            },
            TaskEvent::Report { now } => TaskView {
                dispatcher: self.dispatcher.complete(now),
                ..self
            },
            TaskEvent::Deliver { message } => TaskView {
                statistics: self.statistics.handled(message),
                ..self
            },
            TaskEvent::Tick => TaskView { statistics: self.statistics.ticked(), ..self },
            TaskEvent::Interrupt { now } => TaskView {
                dispatcher: self.dispatcher.cancel(now),
                canceled: true,
                ..self
            },
        }
    }

    /// Whether `event` admits a request.
    pub open spec fn admits(self, event: TaskEvent) -> bool {
        match event {
            TaskEvent::Ask { primed, token, now } => self.dispatcher.apply(primed, token, now).1
                == Admission::Admitted,
            _ => false,
        }
    }

    /// The task after all of `events`, in their order.
    pub open spec fn run(self, events: Seq<TaskEvent>) -> TaskView
        decreases events.len(),
    {
        if events.len() == 0 {
            self
        } else {
            self.run(events.drop_last()).after(events.last())
        }
    }

    /// How many requests `events` admit.
    pub open spec fn admissions(self, events: Seq<TaskEvent>) -> nat
        decreases events.len(),
    {
        if events.len() == 0 {
            0
        } else {
            self.admissions(events.drop_last()) + if self.run(events.drop_last()).admits(
                events.last(),
            ) {
                1nat
            } else {
                0nat
            }
        }
    }

    /// Whether the workers and the reader keep to their order in `events`:
    /// at every point no more requests are reported as ended than were
    /// admitted, and no more outcomes are handed in than requests have
    /// ended.
    pub open spec fn orderly(self, events: Seq<TaskEvent>) -> bool
        decreases events.len(),
    {
        events.len() == 0 || (self.orderly(events.drop_last()) && reports(events)
            <= self.admissions(events) && deliveries(events) <= reports(events))
    }

    /// Whether `events` are a whole run in which the workers and the reader
    /// keep to their order: every request that was admitted has ended and
    /// its outcome has been handed in, once.
    pub open spec fn whole_run(self, events: Seq<TaskEvent>) -> bool {
        self.orderly(events) && deliveries(events) == self.admissions(events)
    }

    /// Whether this is a task by count that has not begun: nothing is
    /// admitted and nothing counted.
    pub open spec fn begins_by_count(self, total: u64) -> bool {
        &&& self.dispatcher matches DispatcherView::Count(d) && d == CountView::fresh(
            total,
            d.limiter,
        )
        &&& self.statistics == StatisticsView::empty(self.statistics.started_at)
    }
}

/// Messages and ticks leave the dispatcher alone, and what the workers and
/// an interrupt do leaves the statistics alone. Every outcome that is handed
/// in is counted, once.
pub proof fn lemma_run_counts_deliveries(t: TaskView, events: Seq<TaskEvent>)
    requires
        t.statistics.total + deliveries(events) <= u64::MAX,
    ensures
        t.run(events).statistics.total == t.statistics.total + deliveries(events),
        t.run(events).arg == t.arg,
    decreases events.len(),
{
    if events.len() > 0 {
        lemma_run_counts_deliveries(t, events.drop_last());
    }
}

/// In a run by count the dispatcher counts each admission and each report,
/// and never admits more requests than the run has.
pub proof fn lemma_run_by_count(t: TaskView, total: u64, events: Seq<TaskEvent>)
    requires
        t.begins_by_count(total),
    ensures
        t.run(events).dispatcher matches DispatcherView::Count(d) && d.wf() && d.total == total
            && d.applied == t.admissions(events) && (reports(events) <= u64::MAX ==> d.completed
            == reports(events)),
        t.admissions(events) <= total,
    decreases events.len(),
{
    if events.len() > 0 {
        lemma_run_by_count(t, total, events.drop_last());
    }
}

/// Exactness of a run by count. Take a task for `total` requests that has
/// not begun, and a whole run in which the workers and the reader keep to
/// their order and at whose end the dispatcher is done. Then exactly `total`
/// requests were admitted, and each is counted once: the statistics hold
/// `total` messages.
pub proof fn law_count_run_is_exact(t: TaskView, total: u64, events: Seq<TaskEvent>)
    requires
        t.begins_by_count(total),
        t.whole_run(events),
        t.run(events).dispatcher matches DispatcherView::Count(d) && d.done,
    ensures
        t.admissions(events) == total,
        reports(events) == total,
        deliveries(events) == total,
        t.run(events).statistics.total == total,
{
    lemma_run_by_count(t, total, events);
    lemma_run_counts_deliveries(t, events);
}

/// Every request that is admitted is counted, and none after an interrupt.
/// Take a task for `total` requests that has not begun and a whole run that
/// is made of `before`, an interrupt, and `after`. Then the statistics hold
/// as many messages as `before` admitted, which are at most `total`: nothing
/// is admitted once the interrupt has come, and what was admitted before it
/// has ended and is counted.
pub proof fn law_interrupted_run_counts_what_it_admitted(
    t: TaskView,
    total: u64,
    before: Seq<TaskEvent>,
    at: u64,
    after: Seq<TaskEvent>,
)
    requires
        t.begins_by_count(total),
        t.whole_run(before.push(TaskEvent::Interrupt { now: at }) + after),
    ensures
        ({
            let events = before.push(TaskEvent::Interrupt { now: at }) + after;
            &&& t.admissions(events) == t.admissions(before)
            &&& t.run(events).statistics.total == t.admissions(before)
            &&& t.admissions(before) <= total
            &&& t.run(events).canceled
        }),
{
    let events = before.push(TaskEvent::Interrupt { now: at }) + after;
    lemma_run_by_count(t, total, events);
    lemma_run_by_count(t, total, before);
    lemma_run_counts_deliveries(t, events);
    lemma_nothing_admitted_after_interrupt(t, before, at, after);
}

/// Once an interrupt has come, nothing is admitted, whatever follows, and
/// the task stays canceled.
pub proof fn lemma_nothing_admitted_after_interrupt(
    t: TaskView,
    before: Seq<TaskEvent>,
    at: u64,
    after: Seq<TaskEvent>,
)
    ensures
        ({
            let events = before.push(TaskEvent::Interrupt { now: at }) + after;
            &&& t.admissions(events) == t.admissions(before)
            &&& t.run(events).canceled
            &&& t.run(events).dispatcher.terminal()
        }),
    decreases after.len(),
{
    let cut = before.push(TaskEvent::Interrupt { now: at });
    let events = cut + after;
    if after.len() == 0 {
        assert(events =~= cut);
        assert(cut.drop_last() =~= before);
    } else {
        lemma_nothing_admitted_after_interrupt(t, before, at, after.drop_last());
        assert(events.drop_last() =~= cut + after.drop_last());
        assert(events.last() == after.last());
    }
}

/// A run whose requests are all answered with a status of one class. Take a
/// task that has not counted anything and events in which every outcome that
/// is handed in is a response of `class`. Then every message is counted as a
/// response and in the bucket of `class`, every other bucket stays at zero
/// and the histogram of failures stays empty.
pub proof fn law_run_of_uniform_responses(
    t: TaskView,
    events: Seq<TaskEvent>,
    class: StatusClass,
)
    requires
        t.statistics == StatisticsView::empty(t.statistics.started_at),
        deliveries(events) <= u64::MAX,
        forall|i: int| 0 <= i < events.len() ==> delivers_response(#[trigger] events[i], class),
    ensures
        ({
            let s = t.run(events).statistics;
            let n = deliveries(events);
            &&& s.total == n
            &&& s.total_success == n
            &&& s.errors.len() == 0
            &&& s.rsp1xx == if class == StatusClass::Informational { n } else { 0 }
            &&& s.rsp2xx == if class == StatusClass::Success { n } else { 0 }
            &&& s.rsp3xx == if class == StatusClass::Redirection { n } else { 0 }
            &&& s.rsp4xx == if class == StatusClass::ClientError { n } else { 0 }
            &&& s.rsp5xx == if class == StatusClass::ServerError { n } else { 0 }
            &&& s.rsp_others == if class == StatusClass::Other { n } else { 0 }
        }),
    decreases events.len(),
{
    if events.len() > 0 {
        let init = events.drop_last();
        assert forall|i: int| 0 <= i < init.len() implies delivers_response(
            #[trigger] init[i],
            class,
        ) by {
            assert(init[i] == events[i]);
        }
        law_run_of_uniform_responses(t, init, class);
        assert(events.last() == events[events.len() - 1]);
    }
}

/// A run whose requests all fail alike. Take a task that has not counted
/// anything and events in which every outcome that is handed in is a failure
/// with the text `text` and no status. Then no message is counted as a
/// response or in a bucket, and the histogram has the one text with the
/// count of the messages.
pub proof fn law_run_of_uniform_failures(t: TaskView, events: Seq<TaskEvent>, text: Seq<char>)
    requires
        t.statistics == StatisticsView::empty(t.statistics.started_at),
        deliveries(events) <= u64::MAX,
        forall|i: int| 0 <= i < events.len() ==> delivers_failure(#[trigger] events[i], text),
    ensures
        ({
            let s = t.run(events).statistics;
            let n = deliveries(events);
            &&& s.total == n
            &&& s.total_success == 0
            &&& s.used_time.len() == 0
            &&& s.errors == if n == 0 {
                Seq::<ErrorEntry>::empty()
            } else {
                seq![(text, n as u64)]
            }
            &&& s.rsp1xx == 0
            &&& s.rsp2xx == 0
            &&& s.rsp3xx == 0
            &&& s.rsp4xx == 0
            &&& s.rsp5xx == 0
            &&& s.rsp_others == 0
        }),
    decreases events.len(),
{
    if events.len() > 0 {
        let init = events.drop_last();
        assert forall|i: int| 0 <= i < init.len() implies delivers_failure(
            #[trigger] init[i],
            text,
        ) by {
            assert(init[i] == events[i]);
        }
        law_run_of_uniform_failures(t, init, text);
        assert(events.last() == events[events.len() - 1]);
        let before = t.run(init).statistics;
        if events.last() is Deliver {
            if deliveries(init) == 0 {
                let none = Seq::<ErrorEntry>::empty();
                assert(before.errors =~= none);
                assert(position(none, text) == 0);
                assert(counted(none, text) =~= seq![(text, 1u64)]);
            } else {
                assert(before.errors[0].0 == text);
                assert(position(before.errors, text) == 0);
                assert(counted(before.errors, text) =~= seq![(text, deliveries(events) as u64)]);
            }
        }
    }
}

/// A run by time admits a request only while its time is not used up: a
/// request that `events` admit is asked for before `duration` has passed
/// since the start.
pub proof fn law_duration_run_admits_in_time(
    t: TaskView,
    start: u64,
    duration: u64,
    events: Seq<TaskEvent>,
    event: TaskEvent,
)
    requires
        t.dispatcher matches DispatcherView::Duration(d) && d.start == start && d.duration
            == duration,
        t.run(events).admits(event),
    ensures
        event matches TaskEvent::Ask { now, .. } && since(start, now) < duration,
{
    lemma_run_by_duration(t, start, duration, events);
}

/// In a run by time the dispatcher keeps its start and its length.
pub proof fn lemma_run_by_duration(t: TaskView, start: u64, duration: u64, events: Seq<TaskEvent>)
    requires
        t.dispatcher matches DispatcherView::Duration(d) && d.start == start && d.duration
            == duration,
    ensures
        t.run(events).dispatcher matches DispatcherView::Duration(d) && d.start == start
            && d.duration == duration,
    decreases events.len(),
{
    if events.len() > 0 {
        lemma_run_by_duration(t, start, duration, events.drop_last());
    }
}

/// A run by count in which every request is answered alike. Take a task for
/// `total` requests that has not begun, a whole run in which the workers and
/// the reader keep to their order, in which every outcome is a response with
/// a status of `class`, and at whose end the dispatcher is done. Then the
/// statistics hold `total` messages, all of them responses in the bucket of
/// `class`; every other bucket is at zero and no failure is on record.
pub proof fn law_count_run_of_answered_requests(
    t: TaskView,
    total: u64,
    events: Seq<TaskEvent>,
    class: StatusClass,
)
    requires
        t.begins_by_count(total),
        t.whole_run(events),
        t.run(events).dispatcher matches DispatcherView::Count(d) && d.done,
        forall|i: int| 0 <= i < events.len() ==> delivers_response(#[trigger] events[i], class),
    ensures
        ({
            let s = t.run(events).statistics;
            &&& t.admissions(events) == total
            &&& s.total == total
            &&& s.total_success == total
            &&& s.errors.len() == 0
            &&& s.rsp1xx == if class == StatusClass::Informational { total } else { 0 }
            &&& s.rsp2xx == if class == StatusClass::Success { total } else { 0 }
            &&& s.rsp3xx == if class == StatusClass::Redirection { total } else { 0 }
            &&& s.rsp4xx == if class == StatusClass::ClientError { total } else { 0 }
            &&& s.rsp5xx == if class == StatusClass::ServerError { total } else { 0 }
            &&& s.rsp_others == if class == StatusClass::Other { total } else { 0 }
        }),
{
    law_count_run_is_exact(t, total, events);
    law_run_of_uniform_responses(t, events, class);
}

/// A run by count in which every request fails alike. Take a task for
/// `total` requests, at least one, that has not begun, a whole run in which
/// the workers and the reader keep to their order, in which every outcome is
/// a failure with the text `text` and no status, and at whose end the
/// dispatcher is done. Then the statistics hold `total` messages, none of
/// them a response; every bucket is at zero, and the one failure on record
/// is `text`, `total` times. A failed request is one sample and is not tried
/// again.
pub proof fn law_count_run_of_failed_requests(
    t: TaskView,
    total: u64,
    events: Seq<TaskEvent>,
    text: Seq<char>,
)
    requires
        total > 0,
        t.begins_by_count(total),
        t.whole_run(events),
        t.run(events).dispatcher matches DispatcherView::Count(d) && d.done,
        forall|i: int| 0 <= i < events.len() ==> delivers_failure(#[trigger] events[i], text),
    ensures
        ({
            let s = t.run(events).statistics;
            &&& t.admissions(events) == total
            &&& s.total == total
            &&& s.total_success == 0
            &&& s.errors == seq![(text, total)]
            &&& s.rsp1xx == 0
            &&& s.rsp2xx == 0
            &&& s.rsp3xx == 0
            &&& s.rsp4xx == 0
            &&& s.rsp5xx == 0
            &&& s.rsp_others == 0
        }),
{
    law_count_run_is_exact(t, total, events);
    law_run_of_uniform_failures(t, events, text);
}

/// Whether the event reports a request as ended when `duration` or more
/// has passed since `start`.
pub open spec fn reports_past_deadline(event: TaskEvent, start: u64, duration: u64) -> bool {
    match event {
        TaskEvent::Report { now } => since(start, now) >= duration,
        _ => false,
    }
}

/// A run by time does not end early: if the dispatcher of a run that began
/// open is done, a request was reported as ended when the time of the run
/// was used up.
pub proof fn law_duration_run_lasts_its_time(
    t: TaskView,
    start: u64,
    duration: u64,
    events: Seq<TaskEvent>,
)
    requires
        t.dispatcher matches DispatcherView::Duration(d) && d.start == start && d.duration
            == duration && !d.done,
        t.run(events).dispatcher matches DispatcherView::Duration(d) && d.done,
    ensures
        exists|i: int|
            0 <= i < events.len() && reports_past_deadline(#[trigger] events[i], start, duration),
    decreases events.len(),
{
    if events.len() > 0 {
        let init = events.drop_last();
        lemma_run_by_duration(t, start, duration, init);
        let was_done = match t.run(init).dispatcher {
            DispatcherView::Duration(d) => d.done,
            _ => false,
        };
        if was_done {
            law_duration_run_lasts_its_time(t, start, duration, init);
            let i = choose|i: int|
                0 <= i < init.len() && reports_past_deadline(#[trigger] init[i], start, duration);
            assert(events[i] == init[i]);
        } else {
            assert(reports_past_deadline(events[events.len() - 1], start, duration));
        }
    }
}

/// A run by time overshoots by no more than a request takes: a request that
/// is admitted and ends within `timeout` of being asked for ends before
/// `duration` and `timeout` have passed since the start.
pub proof fn law_duration_run_ends_in_time(
    t: TaskView,
    start: u64,
    duration: u64,
    events: Seq<TaskEvent>,
    event: TaskEvent,
    timeout: u64,
    ended: u64,
)
    requires
        t.dispatcher matches DispatcherView::Duration(d) && d.start == start && d.duration
            == duration,
        t.run(events).admits(event),
        event matches TaskEvent::Ask { now, .. } && now <= ended <= now + timeout,
    ensures
        since(start, ended) < duration + timeout,
{
    law_duration_run_admits_in_time(t, start, duration, events, event);
}

} // verus!
