//! Admission of requests into a run that is bounded by a count of requests or
//! by a length of time.
//!
//! A dispatcher is a state machine. A worker asks it for admission before
//! each request and reports each request that ended; an interrupt cancels
//! it. Time is counted in nanoseconds on a clock that the caller reads.

use crate::limiter::Limiter;
use crate::numeric::{bump, bumped};
use vstd::prelude::*;

verus! {

/// The answer to a worker that asks to issue one more request.
#[derive(Debug, Clone, Copy, PartialEq, Eq, Structural)]
pub enum Admission {
    /// The request may be issued.
    Admitted,
    /// The run takes no more requests: the worker ends.
    Rejected,
    /// The rate limiter has no cell at this moment: the worker pauses and
    /// asks again.
    Throttled,
}

/// How far a run has come, as the fraction `numer / denom`.
#[derive(Debug, Clone, Copy, PartialEq, Eq, Structural)]
pub struct Progress {
    pub numer: u64,
    pub denom: u64,
}

/// The progress of a run that is over.
pub open spec fn full_progress() -> Progress {
    Progress { numer: 1, denom: 1 }
}

/// What an attempt comes to before the bound of the run is looked at.
/// `primed` says whether the limiter is primed after the attempt, `token`
/// whether it then gave a cell. A terminal run rejects; a run without limiter
/// lets every attempt pass; a limited run lets the attempt pass if the
/// limiter is primed and gave a cell.
pub open spec fn token_outcome(terminal: bool, limited: bool, primed: bool, token: bool)
    -> Admission {
    if terminal {
        Admission::Rejected
    } else if !limited || (primed && token) {
        Admission::Admitted
    } else {
        Admission::Throttled
    }
}

/// The rate limiter of a dispatcher as a value: its rate, and whether its
/// first full bucket has been taken out.
pub struct LimiterView {
    pub rate: u16,
    pub primed: bool,
}

/// The limiter after an attempt in which it came to be primed or not.
pub open spec fn limiter_after(limiter: Option<LimiterView>, primed: bool) -> Option<LimiterView> {
    match limiter {
        Some(l) => Some(LimiterView { rate: l.rate, primed: l.primed || primed }),
        None => None,
    }
}

/// Time from `start` to `now`, zero if `now` is earlier.
pub open spec fn since(start: u64, now: u64) -> u64 {
    if now >= start {
        (now - start) as u64
    } else {
        0
    }
}

/// A count-bounded dispatcher as a value.
pub struct CountView {
    pub total: u64,
    pub applied: u64,
    pub completed: u64,
    pub canceled: bool,
    pub done: bool,
    pub limiter: Option<LimiterView>,
}

/// What can happen to a count-bounded dispatcher.
pub enum CountEvent {
    /// A worker asks for admission; the limiter, if there is one, comes to
    /// be primed or not and gives a cell or not.
    Apply { primed: bool, token: bool },
    /// A worker reports a request that ended.
    Complete,
    /// The run is interrupted.
    Cancel,
}

impl CountView {
    /// A dispatcher for `total` requests that has admitted none.
    pub open spec fn fresh(total: u64, limiter: Option<LimiterView>) -> CountView {
        CountView { total, applied: 0, completed: 0, canceled: false, done: false, limiter }
    }

    /// No more requests are admitted than the run has, and a run that is
    /// done has had as many reports of an ended request as it has requests.
    pub open spec fn wf(self) -> bool {
        &&& self.applied <= self.total
        &&& self.done ==> self.completed >= self.total
    }

    /// Whether the run takes no more requests.
    pub open spec fn terminal(self) -> bool {
        self.canceled || self.done
    }

    /// Admission against the count: one of the `total` requests is handed
    /// out while any is left.
    pub open spec fn grant(self) -> (CountView, Admission) {
        if self.applied < self.total {
            (CountView { applied: (self.applied + 1) as u64, ..self }, Admission::Admitted)
        } else {
            (self, Admission::Rejected)
        }
    }

    /// A worker asks for admission.
    pub open spec fn apply(self, primed: bool, token: bool) -> (CountView, Admission) {
        match token_outcome(self.terminal(), self.limiter.is_some(), primed, token) {
            Admission::Admitted => CountView {
                limiter: limiter_after(self.limiter, primed),
                ..self
            }.grant(),
            Admission::Throttled => (
                CountView { limiter: limiter_after(self.limiter, primed), ..self },
                Admission::Throttled,
            ),
            Admission::Rejected => (self, Admission::Rejected),
        }
    }

    /// A worker reports a request that ended: the report is counted, and
    /// with as many reports as the run has requests the run is done.
    pub open spec fn complete(self) -> CountView {
        CountView {
            completed: bumped(self.completed),
            done: self.done || bumped(self.completed) >= self.total,
            ..self
        }
    }

    /// The run is interrupted.
    pub open spec fn cancel(self) -> CountView {
        CountView { canceled: true, ..self }
    }

    /// How far the run has come: the share of requests that have ended,
    /// and all of it once the run is done or nothing is left to end.
    pub open spec fn progress(self) -> Progress {
        if self.done || self.completed >= self.total {
            full_progress()
        } else {
            Progress { numer: self.completed, denom: self.total }
        }
    }

    /// Whether every report in `events` follows an admission that it
    /// answers: whenever a request is reported as ended, fewer have ended
    /// so far than were admitted.
    pub open spec fn reports_follow_admissions(self, events: Seq<CountEvent>) -> bool
        decreases events.len(),
    {
        events.len() == 0 || (self.reports_follow_admissions(events.drop_last()) && (events.last()
            is Complete ==> self.run(events.drop_last()).completed < self.run(
            events.drop_last(),
        ).applied))
    }

    /// The dispatcher after `event`.
    pub open spec fn after(self, event: CountEvent) -> CountView {
        match event {
            CountEvent::Apply { primed, token } => self.apply(primed, token).0,
            CountEvent::Complete => self.complete(),
            CountEvent::Cancel => self.cancel(),
        }
    }

    /// Whether `event` admits a request.
    pub open spec fn admits(self, event: CountEvent) -> bool {
        match event {
            CountEvent::Apply { primed, token } => self.apply(primed, token).1
                == Admission::Admitted,
            _ => false,
        }
    }

    /// The dispatcher after all of `events`, in their order.
    pub open spec fn run(self, events: Seq<CountEvent>) -> CountView
        decreases events.len(),
    {
        if events.len() == 0 {
            self
        } else {
            self.run(events.drop_last()).after(events.last())
        }
    }

    /// How many requests `events` admit.
    pub open spec fn admissions(self, events: Seq<CountEvent>) -> nat
        decreases events.len(),
    {
        if events.len() == 0 {
            0
        } else {
            let before = self.admissions(events.drop_last());
            if self.run(events.drop_last()).admits(events.last()) {
                before + 1
            } else {
                before
            }
        }
    }
}

/// A time-bounded dispatcher as a value.
pub struct DurationView {
    pub issued: u64,
    pub start: u64,
    pub duration: u64,
    pub canceled: bool,
    pub canceled_at: Option<u64>,
    pub done: bool,
    pub limiter: Option<LimiterView>,
}

/// What can happen to a time-bounded dispatcher, and when.
pub enum DurationEvent {
    /// A worker asks for admission; the limiter, if there is one, comes to
    /// be primed or not and gives a cell or not.
    Apply { primed: bool, token: bool, now: u64 },
    /// A worker reports a request that ended.
    Complete { now: u64 },
    /// The run is interrupted.
    Cancel { now: u64 },
}

impl DurationView {
    /// A dispatcher for a run of `duration` that starts at `now`.
    pub open spec fn fresh(duration: u64, limiter: Option<LimiterView>, now: u64) -> DurationView {
        DurationView {
            issued: 0,
            start: now,
            duration,
            canceled: false,
            canceled_at: None,
            done: false,
            limiter,
        }
    }

    /// The time of the interrupt is known exactly when there was one.
    pub open spec fn wf(self) -> bool {
        self.canceled == self.canceled_at.is_some()
    }

    /// Whether the run takes no more requests.
    pub open spec fn terminal(self) -> bool {
        self.canceled || self.done
    }

    /// Whether the time of the run is used up at `now`.
    pub open spec fn expired(self, now: u64) -> bool {
        since(self.start, now) >= self.duration
    }

    /// Admission against the clock: a request is handed out while the time
    /// of the run is not used up.
    pub open spec fn grant(self, now: u64) -> (DurationView, Admission) {
        if self.expired(now) {
            (self, Admission::Rejected)
        } else {
            (DurationView { issued: bumped(self.issued), ..self }, Admission::Admitted)
        }
    }

    /// A worker asks for admission.
    pub open spec fn apply(self, primed: bool, token: bool, now: u64) -> (DurationView, Admission) {
        match token_outcome(self.terminal(), self.limiter.is_some(), primed, token) {
            Admission::Admitted => DurationView {
                limiter: limiter_after(self.limiter, primed),
                ..self
            }.grant(now),
            Admission::Throttled => (
                DurationView { limiter: limiter_after(self.limiter, primed), ..self },
                Admission::Throttled,
            ),
            Admission::Rejected => (self, Admission::Rejected),
        }
    }

    /// A worker reports a request that ended.
    pub open spec fn complete(self, now: u64) -> DurationView {
        DurationView { done: self.done || self.expired(now), ..self }
    }

    /// The run is interrupted. Only the first interrupt is noted.
    pub open spec fn cancel(self, now: u64) -> DurationView {
        if self.canceled {
            self
        } else {
            DurationView { canceled: true, canceled_at: Some(now), ..self }
        }
    }

    /// The time that counts as run: up to the interrupt if there was one,
    /// up to `now` otherwise, and never more than the time of the run.
    pub open spec fn effective_elapsed(self, now: u64) -> u64 {
        let until = match self.canceled_at {
            Some(at) => at,
            None => now,
        };
        if since(self.start, until) <= self.duration {
            since(self.start, until)
        } else {
            self.duration
        }
    }

    /// How far the run has come: the share of its time that has passed,
    /// and all of it once the run is done or its time is used up.
    pub open spec fn progress(self, now: u64) -> Progress {
        if self.done || self.effective_elapsed(now) >= self.duration {
            full_progress()
        } else {
            Progress { numer: self.effective_elapsed(now), denom: self.duration }
        }
    }

    /// The dispatcher after `event`.
    pub open spec fn after(self, event: DurationEvent) -> DurationView {
        match event {
            DurationEvent::Apply { primed, token, now } => self.apply(primed, token, now).0,
            DurationEvent::Complete { now } => self.complete(now),
            DurationEvent::Cancel { now } => self.cancel(now),
        }
    }

    /// Whether `event` admits a request.
    pub open spec fn admits(self, event: DurationEvent) -> bool {
        match event {
            DurationEvent::Apply { primed, token, now } => self.apply(primed, token, now).1
                == Admission::Admitted,
            _ => false,
        }
    }

    /// The dispatcher after all of `events`, in their order.
    pub open spec fn run(self, events: Seq<DurationEvent>) -> DurationView
        decreases events.len(),
    {
        if events.len() == 0 {
            self
        } else {
            self.run(events.drop_last()).after(events.last())
        }
    }

    /// How many requests `events` admit.
    pub open spec fn admissions(self, events: Seq<DurationEvent>) -> nat
        decreases events.len(),
    {
        if events.len() == 0 {
            0
        } else {
            let before = self.admissions(events.drop_last());
            if self.run(events.drop_last()).admits(events.last()) {
                before + 1
            } else {
                before
            }
        }
    }
}

/// The limiter of a dispatcher as a value.
pub open spec fn limiter_view(limiter: Option<Limiter>, primed: bool) -> Option<LimiterView> {
    match limiter {
        Some(l) => Some(LimiterView { rate: l@, primed }),
        None => None,
    }
}

/// What an attempt comes to before the bound of the run is looked at, once
/// the limiter has answered.
pub fn decide_token(terminal: bool, limited: bool, primed: bool, token: bool) -> (outcome:
    Admission)
    ensures
        outcome == token_outcome(terminal, limited, primed, token),
{
    if terminal {
        Admission::Rejected
    } else if !limited || (primed && token) {
        Admission::Admitted
    } else {
        Admission::Throttled
    }
}

/// Asks the limiter, if there is one, for the cell that an attempt needs, and
/// returns the outcome with the new state of priming. A terminal run asks
/// for nothing and a run without limiter passes. A limiter that is not
/// primed yet is asked for its full bucket first, and for a cell only once
/// it is primed; what it answers depends on the clock.
pub fn apply_token(terminal: bool, limiter: &Option<Limiter>, primed: bool) -> (outcome: (
    Admission,
    bool,
))
    ensures
        terminal ==> outcome == (Admission::Rejected, primed),
        !terminal && limiter.is_none() ==> outcome == (Admission::Admitted, primed),
        !terminal && limiter.is_some() ==> outcome.0 == token_outcome(
            false,
            true,
            outcome.1,
            outcome.0 == Admission::Admitted,
        ),
        primed ==> outcome.1,
{
    if terminal {
        return (Admission::Rejected, primed);
    }
    match limiter {
        None => (decide_token(false, false, primed, true), primed),
        Some(l) => {
            let now_primed = primed || l.allow_n(l.rate() as usize);
            let token = now_primed && l.allow_fast();
            (decide_token(false, true, now_primed, token), now_primed)
        },
    }
}

/// A limiter for `rate` requests per second, if a rate is given, and whether
/// the one attempt to take its first full bucket out has succeeded.
pub fn new_limiter(rate: &Option<u16>) -> (limiter: (Option<Limiter>, bool))
    requires
        *rate != Some(0u16),
    ensures
        limiter.0.is_some() == rate.is_some(),
        limiter.0 matches Some(l) ==> Some(l@) == *rate,
{
    match rate {
        Some(rate) => {
            let limiter = Limiter::new(*rate);
            let primed = limiter.allow_n(*rate as usize);
            (Some(limiter), primed)
        },
        None => (None, false),
    }
}

/// Admits a fixed number of requests.
pub struct CountDispatcher {
    total: u64,
    applied: u64,
    completed: u64,
    is_canceled: bool,
    is_done: bool,
    limiter: Option<Limiter>,
    primed: bool,
}

impl View for CountDispatcher {
    type V = CountView;

    closed spec fn view(&self) -> CountView {
        CountView {
            total: self.total,
            applied: self.applied,
            completed: self.completed,
            canceled: self.is_canceled,
            done: self.is_done,
            limiter: limiter_view(self.limiter, self.primed),
        }
    }
}

impl CountDispatcher {
    #[verifier::type_invariant]
    spec fn well_formed(self) -> bool {
        self@.wf()
    }

    /// A dispatcher for `total` requests, at `rate` requests per second if a
    /// rate is given.
    pub fn new(total: u64, rate: &Option<u16>) -> (dispatcher: CountDispatcher)
        requires
            *rate != Some(0u16),
        ensures
            dispatcher@.wf(),
            dispatcher@ == CountView::fresh(total, dispatcher@.limiter),
            dispatcher@.limiter.is_some() == rate.is_some(),
            dispatcher@.limiter matches Some(l) ==> Some(l.rate) == *rate,
    {
        let (limiter, primed) = new_limiter(rate);
        let dispatcher = CountDispatcher {
            total,
            applied: 0,
            completed: 0,
            is_canceled: false,
            is_done: false,
            limiter,
            primed,
        };
        dispatcher
    }

    /// Whether the run takes no more requests.
    pub fn is_canceled_or_done(&self) -> (terminal: bool)
        ensures
            terminal == self@.terminal(),
            self@.wf(),
    {
        proof {
            use_type_invariant(self);
        }
        self.is_done || self.is_canceled
    }

    /// The rate limiter, if the run has one.
    pub fn get_limiter(&self) -> (limiter: &Option<Limiter>)
        ensures
            limiter.is_some() == self@.limiter.is_some(),
            limiter matches Some(l) ==> l@ == self@.limiter.unwrap().rate,
    {
        &self.limiter
    }

    /// How far the run has come.
    pub fn get_process(&self) -> (progress: Progress)
        ensures
            progress == self@.progress(),
            progress.numer <= progress.denom,
            progress.denom > 0,
    {
        if self.is_done || self.completed >= self.total {
            Progress { numer: 1, denom: 1 }
        } else {
            Progress { numer: self.completed, denom: self.total }
        }
    }

    /// Hands out one of the requests of the run, if any is left.
    pub fn grant(&mut self) -> (outcome: Admission)
        ensures
            (final(self)@, outcome) == old(self)@.grant(),
            final(self)@.wf(),
    {
        proof {
            use_type_invariant(&*self);
        }
        if self.applied < self.total {
            self.applied = self.applied + 1;
            Admission::Admitted
        } else {
            Admission::Rejected
        }
    }

    /// A worker asks to issue one more request. What the limiter answers
    /// depends on the clock; for each answer the outcome is the one that
    /// `CountView::apply` gives.
    pub fn try_apply_job(&mut self) -> (outcome: Admission)
        ensures
            final(self)@.wf(),
            exists|primed: bool, token: bool|
                (final(self)@, outcome) == old(self)@.apply(primed, token),
            old(self)@.limiter.is_none() ==> (final(self)@, outcome) == old(self)@.apply(
                true,
                true,
            ),
            old(self)@.terminal() ==> outcome == Admission::Rejected && final(self)@ == old(
                self,
            )@,
    {
        proof {
            use_type_invariant(&*self);
        }
        let terminal = self.is_done || self.is_canceled;
        let ghost before = self@;
        let (token, primed) = apply_token(terminal, &self.limiter, self.primed);
        self.primed = primed;
        let outcome = match token {
            Admission::Admitted => self.grant(),
            other => other,
        };
        assert((self@, outcome) == before.apply(primed, token == Admission::Admitted));
        outcome
    }

    /// A worker reports a request that ended.
    pub fn complete_job(&mut self)
        ensures
            final(self)@ == old(self)@.complete(),
            final(self)@.wf(),
    {
        proof {
            use_type_invariant(&*self);
        }
        self.completed = bump(self.completed);
        if self.completed >= self.total {
            self.is_done = true;
        }
    }

    /// The run is interrupted: no request is admitted from here on.
    pub fn cancel(&mut self)
        ensures
            final(self)@ == old(self)@.cancel(),
            final(self)@.wf(),
    {
        proof {
            use_type_invariant(&*self);
        }
        self.is_canceled = true;
    }
}

/// Admits requests for a fixed length of time.
pub struct DurationDispatcher {
    total: u64,
    start: u64,
    duration: u64,
    limiter: Option<Limiter>,
    primed: bool,
    canceled_at: Option<u64>,
    is_done: bool,
}

impl View for DurationDispatcher {
    type V = DurationView;

    closed spec fn view(&self) -> DurationView {
        DurationView {
            issued: self.total,
            start: self.start,
            duration: self.duration,
            canceled: self.canceled_at.is_some(),
            canceled_at: self.canceled_at,
            done: self.is_done,
            limiter: limiter_view(self.limiter, self.primed),
        }
    }
}

/// Time from `start` to `now`, zero if `now` is earlier.
pub fn elapsed_since(start: u64, now: u64) -> (elapsed: u64)
    ensures
        elapsed == since(start, now),
{
    if now >= start {
        now - start
    } else {
        0
    }
}

impl DurationDispatcher {
    /// A dispatcher for a run of `duration` nanoseconds that starts at
    /// `now`, at `rate` requests per second if a rate is given.
    pub fn new(duration: u64, rate: &Option<u16>, now: u64) -> (dispatcher: DurationDispatcher)
        requires
            *rate != Some(0u16),
        ensures
            dispatcher@.wf(),
            dispatcher@ == DurationView::fresh(duration, dispatcher@.limiter, now),
            dispatcher@.limiter.is_some() == rate.is_some(),
            dispatcher@.limiter matches Some(l) ==> Some(l.rate) == *rate,
    {
        let (limiter, primed) = new_limiter(rate);
        let dispatcher = DurationDispatcher {
            total: 0,
            start: now,
            duration,
            limiter,
            primed,
            canceled_at: None,
            is_done: false,
        };
        dispatcher
    }

    /// Whether the run takes no more requests.
    pub fn is_canceled_or_done(&self) -> (terminal: bool)
        ensures
            terminal == self@.terminal(),
            self@.wf(),
    {
        self.is_done || self.canceled_at.is_some()
    }

    /// The rate limiter, if the run has one.
    pub fn get_limiter(&self) -> (limiter: &Option<Limiter>)
        ensures
            limiter.is_some() == self@.limiter.is_some(),
            limiter matches Some(l) ==> l@ == self@.limiter.unwrap().rate,
    {
        &self.limiter
    }

    /// How far the run has come at `now`.
    pub fn get_process(&self, now: u64) -> (progress: Progress)
        ensures
            progress == self@.progress(now),
            progress.numer <= progress.denom,
            progress.denom > 0,
    {
        if self.is_done {
            return Progress { numer: 1, denom: 1 };
        }
        let until = match self.canceled_at {
            Some(at) => at,
            None => now,
        };
        let run_time = elapsed_since(self.start, until);
        if run_time < self.duration {
            Progress { numer: run_time, denom: self.duration }
        } else {
            Progress { numer: 1, denom: 1 }
        }
    }

    /// Hands out a request, unless the time of the run is used up at `now`.
    pub fn grant(&mut self, now: u64) -> (outcome: Admission)
        ensures
            (final(self)@, outcome) == old(self)@.grant(now),
            final(self)@.wf(),
    {
        if elapsed_since(self.start, now) >= self.duration {
            Admission::Rejected
        } else {
            self.total = bump(self.total);
            Admission::Admitted
        }
    }

    /// A worker asks at `now` to issue one more request. What the limiter
    /// answers depends on the clock; for each answer the outcome is the one
    /// that `DurationView::apply` gives.
    pub fn try_apply_job(&mut self, now: u64) -> (outcome: Admission)
        ensures
            final(self)@.wf(),
            exists|primed: bool, token: bool|
                (final(self)@, outcome) == old(self)@.apply(primed, token, now),
            old(self)@.limiter.is_none() ==> (final(self)@, outcome) == old(self)@.apply(
                true,
                true,
                now,
            ),
            old(self)@.terminal() ==> outcome == Admission::Rejected && final(self)@ == old(
                self,
            )@,
    {
        let terminal = self.is_done || self.canceled_at.is_some();
        let ghost before = self@;
        let (token, primed) = apply_token(terminal, &self.limiter, self.primed);
        self.primed = primed;
        let outcome = match token {
            Admission::Admitted => self.grant(now),
            other => other,
        };
        assert((self@, outcome) == before.apply(primed, token == Admission::Admitted, now));
        outcome
    }

    /// A worker reports at `now` a request that ended.
    pub fn complete_job(&mut self, now: u64)
        ensures
            final(self)@ == old(self)@.complete(now),
            final(self)@.wf(),
    {
        if elapsed_since(self.start, now) >= self.duration {
            self.is_done = true;
        }
    }

    /// The run is interrupted at `now`: no request is admitted from here on.
    pub fn cancel(&mut self, now: u64)
        ensures
            final(self)@ == old(self)@.cancel(now),
            final(self)@.wf(),
    {
        if self.canceled_at.is_none() {
            self.canceled_at = Some(now);
        }
    }
}

/// A dispatcher of either kind as a value.
pub enum DispatcherView {
    Count(CountView),
    Duration(DurationView),
}

impl DispatcherView {
    /// Whether the run takes no more requests.
    pub open spec fn terminal(self) -> bool {
        match self {
            DispatcherView::Count(d) => d.terminal(),
            DispatcherView::Duration(d) => d.terminal(),
        }
    }

    /// The rate limiter of the run, if it has one.
    pub open spec fn limiter(self) -> Option<LimiterView> {
        match self {
            DispatcherView::Count(d) => d.limiter,
            DispatcherView::Duration(d) => d.limiter,
        }
    }

    /// A worker asks at `now` for admission.
    pub open spec fn apply(self, primed: bool, token: bool, now: u64) -> (
        DispatcherView,
        Admission,
    ) {
        match self {
            DispatcherView::Count(d) => (
                DispatcherView::Count(d.apply(primed, token).0),
                d.apply(primed, token).1,
            ),
            DispatcherView::Duration(d) => (
                DispatcherView::Duration(d.apply(primed, token, now).0),
                d.apply(primed, token, now).1,
            ),
        }
    }

    /// A worker reports at `now` a request that ended.
    pub open spec fn complete(self, now: u64) -> DispatcherView {
        match self {
            DispatcherView::Count(d) => DispatcherView::Count(d.complete()),
            DispatcherView::Duration(d) => DispatcherView::Duration(d.complete(now)),
        }
    }

    /// The run is interrupted at `now`.
    pub open spec fn cancel(self, now: u64) -> DispatcherView {
        match self {
            DispatcherView::Count(d) => DispatcherView::Count(d.cancel()),
            DispatcherView::Duration(d) => DispatcherView::Duration(d.cancel(now)),
        }
    }

    /// How far the run has come at `now`.
    pub open spec fn progress(self, now: u64) -> Progress {
        match self {
            DispatcherView::Count(d) => d.progress(),
            DispatcherView::Duration(d) => d.progress(now),
        }
    }
}

/// Admits requests into a run, by count or by time.
pub enum Dispatcher {
    /// The run ends after a number of requests.
    Count(CountDispatcher),
    /// The run ends after a length of time.
    Duration(DurationDispatcher),
}

impl View for Dispatcher {
    type V = DispatcherView;

    open spec fn view(&self) -> DispatcherView {
        match self {
            Dispatcher::Count(d) => DispatcherView::Count(d@),
            Dispatcher::Duration(d) => DispatcherView::Duration(d@),
        }
    }
}

impl Dispatcher {
    /// Whether the run takes no more requests.
    pub fn is_canceled_or_done(&self) -> (terminal: bool)
        ensures
            terminal == self@.terminal(),
    {
        match self {
            Dispatcher::Count(d) => d.is_canceled_or_done(),
            Dispatcher::Duration(d) => d.is_canceled_or_done(),
        }
    }

    /// The rate limiter, if the run has one.
    pub fn get_limiter(&self) -> (limiter: &Option<Limiter>)
        ensures
            limiter.is_some() == self@.limiter().is_some(),
            limiter matches Some(l) ==> l@ == self@.limiter().unwrap().rate,
    {
        match self {
            Dispatcher::Count(d) => d.get_limiter(),
            Dispatcher::Duration(d) => d.get_limiter(),
        }
    }

    /// How far the run has come at `now`.
    pub fn get_process(&self, now: u64) -> (progress: Progress)
        ensures
            progress == self@.progress(now),
            progress.numer <= progress.denom,
            progress.denom > 0,
    {
        match self {
            Dispatcher::Count(d) => d.get_process(),
            Dispatcher::Duration(d) => d.get_process(now),
        }
    }

    /// A worker asks at `now` to issue one more request. What the limiter
    /// answers depends on the clock; for each answer the outcome is the one
    /// that `DispatcherView::apply` gives.
    pub fn try_apply_job(&mut self, now: u64) -> (outcome: Admission)
        ensures
            exists|primed: bool, token: bool|
                (final(self)@, outcome) == old(self)@.apply(primed, token, now),
            old(self)@.limiter().is_none() ==> (final(self)@, outcome) == old(self)@.apply(
                true,
                true,
                now,
            ),
            old(self)@.terminal() ==> outcome == Admission::Rejected && final(self)@ == old(
                self,
            )@,
    {
        match self {
            Dispatcher::Count(d) => {
                let ghost before = d@;
                let outcome = d.try_apply_job();
                proof {
                    let (primed, token) = choose|primed: bool, token: bool|
                        (d@, outcome) == before.apply(primed, token);
                    assert((DispatcherView::Count(d@), outcome) == DispatcherView::Count(
                        before,
                    ).apply(primed, token, now));
                }
                outcome
            },
            Dispatcher::Duration(d) => {
                let ghost before = d@;
                let outcome = d.try_apply_job(now);
                proof {
                    let (primed, token) = choose|primed: bool, token: bool|
                        (d@, outcome) == before.apply(primed, token, now);
                    assert((DispatcherView::Duration(d@), outcome) == DispatcherView::Duration(
                        before,
                    ).apply(primed, token, now));
                }
                outcome
            },
        }
    }

    /// A worker reports at `now` a request that ended.
    pub fn complete_job(&mut self, now: u64)
        ensures
            final(self)@ == old(self)@.complete(now),
    {
        match self {
            Dispatcher::Count(d) => d.complete_job(),
            Dispatcher::Duration(d) => d.complete_job(now),
        }
    }

    /// The run is interrupted at `now`: no request is admitted from here on.
    pub fn cancel(&mut self, now: u64)
        ensures
            final(self)@ == old(self)@.cancel(now),
    {
        match self {
            Dispatcher::Count(d) => d.cancel(),
            Dispatcher::Duration(d) => d.cancel(now),
        }
    }
}

/// Every event leaves a well-formed count-bounded dispatcher well-formed.
pub proof fn law_count_step_keeps_wf(d: CountView, event: CountEvent)
    requires
        d.wf(),
    ensures
        d.after(event).wf(),
{
}

/// A count-bounded run never admits more requests than it has: whatever
/// happens, in whatever order, the requests admitted so far are counted in
/// `applied`, which stays within `total`.
pub proof fn law_count_admissions_bounded(d: CountView, events: Seq<CountEvent>)
    requires
        d.wf(),
    ensures
        d.run(events).wf(),
        d.run(events).total == d.total,
        d.applied + d.admissions(events) == d.run(events).applied,
        d.applied + d.admissions(events) <= d.total,
    decreases events.len(),
{
    if events.len() > 0 {
        law_count_admissions_bounded(d, events.drop_last());
        law_count_step_keeps_wf(d.run(events.drop_last()), events.last());
    }
}

/// Where every report follows an admission that it answers, no more
/// requests have ended than were admitted.
pub proof fn law_count_reports_within_admissions(d: CountView, events: Seq<CountEvent>)
    requires
        d.completed <= d.applied,
        d.reports_follow_admissions(events),
    ensures
        d.run(events).completed <= d.run(events).applied,
    decreases events.len(),
{
    if events.len() > 0 {
        law_count_reports_within_admissions(d, events.drop_last());
    }
}

/// A count-bounded run that is done has admitted each of its requests, once:
/// from a fresh dispatcher for `total` requests, events in which every report
/// follows an admission and which end with the run done hold exactly `total`
/// admissions.
pub proof fn law_count_exact_when_done(
    total: u64,
    limiter: Option<LimiterView>,
    events: Seq<CountEvent>,
)
    requires
        CountView::fresh(total, limiter).reports_follow_admissions(events),
        CountView::fresh(total, limiter).run(events).done,
    ensures
        CountView::fresh(total, limiter).admissions(events) == total,
{
    law_count_admissions_bounded(CountView::fresh(total, limiter), events);
    law_count_reports_within_admissions(CountView::fresh(total, limiter), events);
}

/// A count-bounded run is done as soon as it has had as many reports of an
/// ended request as it has requests, and `done` is never taken back.
pub proof fn law_count_done_when_all_ended(
    total: u64,
    limiter: Option<LimiterView>,
    events: Seq<CountEvent>,
    event: CountEvent,
)
    ensures
        ({
            let d = CountView::fresh(total, limiter).run(events);
            &&& d.completed >= total && d.completed > 0 ==> d.done
            &&& d.done ==> d.after(event).done
            &&& d.complete().done == (d.done || bumped(d.completed) >= total)
            &&& d.complete().applied == d.applied && d.complete().canceled == d.canceled
        }),
    decreases events.len(),
{
    if events.len() > 0 {
        law_count_done_when_all_ended(total, limiter, events.drop_last(), events.last());
        law_count_admissions_bounded(CountView::fresh(total, limiter), events.drop_last());
    }
}

/// A count-bounded run without limiter in which no more requests have ended
/// than were admitted admits every attempt until its requests are used up: as
/// long as no interrupt comes and fewer than `total` requests have been
/// admitted, the next attempt is admitted.
pub proof fn law_count_admits_while_any_left(d: CountView)
    requires
        d.wf(),
        d.completed <= d.applied,
        !d.canceled,
        d.limiter.is_none(),
        d.applied < d.total,
    ensures
        d.admits(CountEvent::Apply { primed: true, token: true }),
{
}

/// Short of an interrupt, a count-bounded run in which no more requests have
/// ended than were admitted turns a worker away only when each of its
/// requests has been admitted. With the bound on the admissions this makes
/// them exactly `total` once the workers have ended.
pub proof fn law_count_rejects_when_all_admitted(d: CountView, primed: bool, token: bool)
    requires
        d.wf(),
        d.completed <= d.applied,
        !d.canceled,
        d.apply(primed, token).1 == Admission::Rejected,
    ensures
        d.applied == d.total,
{
}

/// Short of an interrupt, a time-bounded run turns a worker away only when
/// its time is used up.
pub proof fn law_duration_rejects_when_expired(
    d: DurationView,
    primed: bool,
    token: bool,
    now: u64,
)
    requires
        !d.canceled,
        d.apply(primed, token, now).1 == Admission::Rejected,
    ensures
        d.done || d.expired(now),
{
}

/// A terminal count-bounded run stays terminal and admits nothing, whatever
/// happens. In particular no request is admitted after an interrupt.
pub proof fn law_count_terminal_is_final(d: CountView, events: Seq<CountEvent>)
    requires
        d.terminal(),
    ensures
        d.run(events).terminal(),
        d.canceled ==> d.run(events).canceled,
        d.admissions(events) == 0,
    decreases events.len(),
{
    if events.len() > 0 {
        law_count_terminal_is_final(d, events.drop_last());
    }
}

/// After an interrupt a count-bounded run admits nothing.
pub proof fn law_count_no_admission_after_cancel(d: CountView, events: Seq<CountEvent>)
    ensures
        d.cancel().admissions(events) == 0,
        d.cancel().run(events).canceled,
{
    law_count_terminal_is_final(d.cancel(), events);
}

/// An interrupt that comes twice changes nothing the second time.
pub proof fn law_cancel_is_idempotent(c: CountView, d: DurationView, first: u64, second: u64)
    ensures
        c.cancel().cancel() == c.cancel(),
        d.cancel(first).cancel(second) == d.cancel(first),
{
}

/// Under a limiter a request is admitted only on a cell: the limiter is
/// primed and has given one.
pub proof fn law_admission_takes_token(
    c: CountView,
    d: DurationView,
    primed: bool,
    token: bool,
    now: u64,
)
    ensures
        c.limiter.is_some() && c.apply(primed, token).1 == Admission::Admitted ==> primed
            && token && c.apply(primed, token).0.limiter.unwrap().primed,
        d.limiter.is_some() && d.apply(primed, token, now).1 == Admission::Admitted ==> primed
            && token && d.apply(primed, token, now).0.limiter.unwrap().primed,
{
}

/// A primed limiter stays primed, and the rate never changes.
pub proof fn law_limiter_stays_primed(c: CountView, d: DurationView, ce: CountEvent, de: DurationEvent)
    ensures
        c.after(ce).limiter.is_some() == c.limiter.is_some(),
        d.after(de).limiter.is_some() == d.limiter.is_some(),
        c.limiter matches Some(l) ==> c.after(ce).limiter.unwrap().rate == l.rate && (l.primed
            ==> c.after(ce).limiter.unwrap().primed),
        d.limiter matches Some(l) ==> d.after(de).limiter.unwrap().rate == l.rate && (l.primed
            ==> d.after(de).limiter.unwrap().primed),
{
}

/// Every event leaves a well-formed time-bounded dispatcher well-formed, and
/// a fresh one is well-formed.
pub proof fn law_duration_step_keeps_wf(d: DurationView, event: DurationEvent)
    requires
        d.wf(),
    ensures
        d.after(event).wf(),
        DurationView::fresh(d.duration, d.limiter, d.start).wf(),
{
}

/// A time-bounded run admits a request only while its time is not used up.
pub proof fn law_duration_admission_before_deadline(d: DurationView, event: DurationEvent)
    requires
        d.admits(event),
    ensures
        event matches DurationEvent::Apply { now, .. } && since(d.start, now) < d.duration,
{
}

/// A terminal time-bounded run stays terminal and admits nothing, whatever
/// happens. In particular no request is admitted after an interrupt.
pub proof fn law_duration_terminal_is_final(d: DurationView, events: Seq<DurationEvent>)
    requires
        d.terminal(),
    ensures
        d.run(events).terminal(),
        d.canceled ==> d.run(events).canceled && d.run(events).canceled_at == d.canceled_at,
        d.admissions(events) == 0,
    decreases events.len(),
{
    if events.len() > 0 {
        law_duration_terminal_is_final(d, events.drop_last());
    }
}

/// After an interrupt a time-bounded run admits nothing.
pub proof fn law_duration_no_admission_after_cancel(
    d: DurationView,
    at: u64,
    events: Seq<DurationEvent>,
)
    ensures
        d.cancel(at).admissions(events) == 0,
        d.cancel(at).run(events).canceled,
{
    law_duration_terminal_is_final(d.cancel(at), events);
}

/// A terminal run of either kind stays terminal and rejects every attempt,
/// and an interrupt makes a run terminal.
pub proof fn law_terminal_is_final(d: DispatcherView, primed: bool, token: bool, now: u64)
    ensures
        d.cancel(now).terminal(),
        d.terminal() ==> d.apply(primed, token, now) == (d, Admission::Rejected),
        d.terminal() ==> d.complete(now).terminal(),
        d.terminal() ==> d.cancel(now).terminal(),
{
}

/// Progress is a fraction between 0 and 1 with a denominator above zero.
pub proof fn law_progress_in_range(c: CountView, d: DurationView, now: u64)
    ensures
        c.progress().numer <= c.progress().denom,
        c.progress().denom > 0,
        d.progress(now).numer <= d.progress(now).denom,
        d.progress(now).denom > 0,
{
}

} // verus!
