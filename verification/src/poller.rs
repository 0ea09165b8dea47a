//! When the background poller runs ccache.

use vstd::prelude::*;

verus! {

/// The schedule of a poller. Points in time and lengths of time are counted in nanoseconds.
#[derive(Clone, Copy, Debug, PartialEq, Eq, Structural)]
pub struct Poller {
    /// When the next run is due.
    pub next_tick: u128,
    /// The time from one run to the next.
    pub interval: u128,
}

/// What has happened to the poller.
#[derive(Clone, Copy, Debug, PartialEq, Eq, Structural)]
pub enum PollerEvent {
    /// The clock shows this time.
    Clock { now: u128 },
    /// A request to stop has come.
    StopRequested,
    /// The whole time to wait has passed, and no request to stop has come.
    TimedOut,
    /// No request to stop was there when it was looked for without waiting.
    NotRequested,
    /// No request to stop is there and none can come any more, and the clock shows this time.
    Closed { now: u128 },
    /// The time to sleep is over.
    Slept,
    /// ccache was run, and the result was sent.
    Ran,
}

/// What the poller has to do next.
#[derive(Clone, Copy, Debug, PartialEq, Eq, Structural)]
pub enum PollerAction {
    /// Read the clock.
    ReadClock,
    /// Wait for a request to stop, no longer than this.
    WaitForStop { timeout: u128 },
    /// See whether a request to stop is there, without waiting.
    CheckForStop,
    /// Sleep this long.
    Sleep { time: u128 },
    /// Run ccache and send the result.
    RunCcache,
    /// Stop polling.
    Finish,
}

/// What an event makes the poller do.
pub open spec fn poller_action(poller: Poller, event: PollerEvent) -> PollerAction {
    match event {
        PollerEvent::Clock { now } => if now < poller.next_tick {
            PollerAction::WaitForStop { timeout: (poller.next_tick - now) as u128 }
        } else {
            PollerAction::CheckForStop
        },
        PollerEvent::StopRequested => PollerAction::Finish,
        PollerEvent::TimedOut => PollerAction::RunCcache,
        PollerEvent::NotRequested => PollerAction::RunCcache,
        PollerEvent::Closed { now } => if now < poller.next_tick {
            PollerAction::Sleep { time: (poller.next_tick - now) as u128 }
        } else {
            PollerAction::RunCcache
        },
        PollerEvent::Slept => PollerAction::ReadClock,
        PollerEvent::Ran => PollerAction::ReadClock,
    }
}

/// What an event makes of the schedule: a run moves the next one on by the interval.
pub open spec fn rescheduled(poller: Poller, event: PollerEvent) -> Poller {
    match event {
        PollerEvent::Ran => Poller {
            next_tick: (poller.next_tick + poller.interval) as u128,
            interval: poller.interval,
        },
        _ => poller,
    }
}

/// The schedule after a number of runs.
pub open spec fn after_runs(poller: Poller, runs: nat) -> Poller
    decreases runs,
{
    if runs == 0 {
        poller
    } else {
        rescheduled(after_runs(poller, (runs - 1) as nat), PollerEvent::Ran)
    }
}

/// The runs are due at the start and then at every multiple of the interval after it: however long
/// a run takes, the schedule does not drift.
pub proof fn law_schedule_does_not_drift(poller: Poller, runs: nat)
    requires
        poller.next_tick + runs * poller.interval <= u128::MAX,
    ensures
        after_runs(poller, runs).next_tick == poller.next_tick + runs * poller.interval,
        after_runs(poller, runs).interval == poller.interval,
    decreases runs,
{
    if runs > 0 {
        let before = (runs - 1) as nat;
        assert(runs * poller.interval == before * poller.interval + poller.interval)
            by (nonlinear_arith)
            requires
                runs == before + 1,
        ;
        law_schedule_does_not_drift(poller, before);
    } else {
        assert(runs * poller.interval == 0) by (nonlinear_arith)
            requires
                runs == 0,
        ;
    }
}

/// A poller that is told to wait or to sleep is told so until the next run is due: neither less
/// nor more, and only where that lies ahead.
pub proof fn law_waiting_ends_when_the_run_is_due(poller: Poller, now: u128)
    ensures
        match poller_action(poller, PollerEvent::Clock { now }) {
            PollerAction::WaitForStop { timeout } => timeout > 0 && now + timeout
                == poller.next_tick,
            action => action == PollerAction::CheckForStop && now >= poller.next_tick,
        },
        match poller_action(poller, PollerEvent::Closed { now }) {
            PollerAction::Sleep { time } => time > 0 && now + time == poller.next_tick,
            action => action == PollerAction::RunCcache && now >= poller.next_tick,
        },
{
}

/// A request to stop makes the poller finish, and nothing else does.
pub proof fn law_stop_request_finishes(poller: Poller, event: PollerEvent)
    ensures
        poller_action(poller, event) == PollerAction::Finish <==> event
            == PollerEvent::StopRequested,
{
}

/// Where the poller stands at some time: its schedule and what it has to do next.
pub struct Moment {
    pub poller: Poller,
    pub action: PollerAction,
    pub time: u128,
}

/// Where a new poller stands.
pub open spec fn first_moment(start: u128, interval: u128) -> Moment {
    Moment {
        poller: Poller { next_tick: start, interval },
        action: PollerAction::ReadClock,
        time: start,
    }
}

/// Where the poller stands after an event.
pub open spec fn moment_after(moment: Moment, event: PollerEvent, time: u128) -> Moment {
    Moment {
        poller: rescheduled(moment.poller, event),
        action: poller_action(moment.poller, event),
        time,
    }
}

/// Whether an event can be what comes, at some time, of what the poller had to do. Time does not
/// go back, the clock shows a time in between, and a wait that has timed out has taken its time.
pub open spec fn can_follow(moment: Moment, event: PollerEvent, time: u128) -> bool {
    &&& moment.time <= time
    &&& match moment.action {
        PollerAction::ReadClock => event matches PollerEvent::Clock { now } && moment.time <= now
            <= time,
        PollerAction::WaitForStop { timeout } => match event {
            PollerEvent::StopRequested => true,
            PollerEvent::TimedOut => moment.time + timeout <= time,
            PollerEvent::Closed { now } => moment.time <= now <= time,
            _ => false,
        },
        PollerAction::CheckForStop => match event {
            PollerEvent::StopRequested => true,
            PollerEvent::NotRequested => true,
            PollerEvent::Closed { now } => moment.time <= now <= time,
            _ => false,
        },
        PollerAction::Sleep { .. } => event == PollerEvent::Slept,
        PollerAction::RunCcache => event == PollerEvent::Ran,
        PollerAction::Finish => false,
    }
}

/// Where the poller stands after a row of events, each with the time at which it came.
pub open spec fn moment_of(start: u128, interval: u128, events: Seq<(PollerEvent, u128)>) -> Moment
    decreases events.len(),
{
    if events.len() == 0 {
        first_moment(start, interval)
    } else {
        moment_after(
            moment_of(start, interval, events.drop_last()),
            events.last().0,
            events.last().1,
        )
    }
}

/// Whether each of a row of events can be what comes of what the poller had to do.
pub open spec fn can_happen(start: u128, interval: u128, events: Seq<(PollerEvent, u128)>) -> bool
    decreases events.len(),
{
    events.len() > 0 ==> {
        &&& can_happen(start, interval, events.drop_last())
        &&& can_follow(
            moment_of(start, interval, events.drop_last()),
            events.last().0,
            events.last().1,
        )
    }
}

/// The number of runs among a row of events.
pub open spec fn run_count(events: Seq<(PollerEvent, u128)>) -> nat
    decreases events.len(),
{
    if events.len() == 0 {
        0
    } else if events.last().0 == PollerEvent::Ran {
        run_count(events.drop_last()) + 1
    } else {
        run_count(events.drop_last())
    }
}

/// Whether the poller is on time: a run, and a look for a request without waiting, is ordered no
/// earlier than the next run is due, and a wait reaches at least as far.
pub open spec fn is_on_time(moment: Moment) -> bool {
    match moment.action {
        PollerAction::RunCcache => moment.time >= moment.poller.next_tick,
        PollerAction::CheckForStop => moment.time >= moment.poller.next_tick,
        PollerAction::WaitForStop { timeout } => moment.time + timeout >= moment.poller.next_tick,
        _ => true,
    }
}

/// A run is ordered only when the clock has reached the time at which it is due, or the whole wait
/// until then has passed.
pub proof fn law_runs_are_ordered_when_due(moment: Moment, event: PollerEvent, time: u128)
    requires
        is_on_time(moment),
        can_follow(moment, event, time),
    ensures
        is_on_time(moment_after(moment, event, time)),
        moment_after(moment, event, time).action == PollerAction::RunCcache ==> {
            ||| event == PollerEvent::TimedOut && moment.action is WaitForStop
            ||| event == PollerEvent::NotRequested && moment.action == PollerAction::CheckForStop
                && moment.time >= moment.poller.next_tick
            ||| event matches PollerEvent::Closed { now } && now >= moment.poller.next_tick
        },
{
}

proof fn lemma_schedule(start: u128, interval: u128, events: Seq<(PollerEvent, u128)>)
    requires
        can_happen(start, interval, events),
        start + run_count(events) * interval <= u128::MAX,
    ensures
        moment_of(start, interval, events).poller == (Poller {
            next_tick: (start + run_count(events) * interval) as u128,
            interval,
        }),
        is_on_time(moment_of(start, interval, events)),
    decreases events.len(),
{
    if events.len() == 0 {
        assert(run_count(events) * interval == 0) by (nonlinear_arith)
            requires
                run_count(events) == 0,
        ;
    } else {
        let before = events.drop_last();
        let runs = run_count(before);
        assert((runs + 1) * interval == runs * interval + interval) by (nonlinear_arith);
        lemma_schedule(start, interval, before);
        law_runs_are_ordered_when_due(
            moment_of(start, interval, before),
            events.last().0,
            events.last().1,
        );
    }
}

/// Polling keeps to the interval, also when no request to stop can come any more: after any number
/// of runs, the next one begins no earlier than that number of intervals after the start.
pub proof fn law_polling_keeps_to_the_interval(
    start: u128,
    interval: u128,
    events: Seq<(PollerEvent, u128)>,
)
    requires
        can_happen(start, interval, events),
        start + run_count(events) * interval <= u128::MAX,
    ensures
        moment_of(start, interval, events).action == PollerAction::RunCcache ==> moment_of(
            start,
            interval,
            events,
        ).time >= start + run_count(events) * interval,
{
    lemma_schedule(start, interval, events);
}

/// ccache is run when a wait has passed, when no request to stop is there, or when none can come
/// and the run is due; after a run, and after a sleep, the clock is read.
pub proof fn law_polling_goes_on(poller: Poller, now: u128)
    ensures
        poller_action(poller, PollerEvent::TimedOut) == PollerAction::RunCcache,
        poller_action(poller, PollerEvent::NotRequested) == PollerAction::RunCcache,
        now >= poller.next_tick ==> poller_action(poller, PollerEvent::Closed { now })
            == PollerAction::RunCcache,
        now >= poller.next_tick ==> poller_action(poller, PollerEvent::Clock { now })
            == PollerAction::CheckForStop,
        poller_action(poller, PollerEvent::Ran) == PollerAction::ReadClock,
        poller_action(poller, PollerEvent::Slept) == PollerAction::ReadClock,
{
}

/// A run moves the next one on by exactly the interval, and nothing else moves it; the interval
/// never changes.
pub proof fn law_only_runs_move_the_schedule(poller: Poller, event: PollerEvent)
    requires
        poller.next_tick + poller.interval <= u128::MAX,
    ensures
        rescheduled(poller, event).interval == poller.interval,
        event == PollerEvent::Ran ==> rescheduled(poller, event).next_tick - poller.next_tick
            == poller.interval,
        event != PollerEvent::Ran ==> rescheduled(poller, event).next_tick == poller.next_tick,
{
}

impl Poller {
    /// A poller whose first run is due now.
    pub fn new(now: u128, interval: u128) -> (poller: Poller)
        ensures
            poller.next_tick == now,
            poller.interval == interval,
    {
        Poller { next_tick: now, interval }
    }

    /// Takes an event into account and tells what to do next.
    pub fn step(&mut self, event: PollerEvent) -> (action: PollerAction)
        requires
            event is Ran ==> old(self).next_tick + old(self).interval <= u128::MAX,
        ensures
            action == poller_action(*old(self), event),
            *final(self) == rescheduled(*old(self), event),
    {
        match event {
            PollerEvent::Clock { now } => {
                if now < self.next_tick {
                    PollerAction::WaitForStop { timeout: self.next_tick - now }
                } else {
                    PollerAction::CheckForStop
                }
            },
            PollerEvent::StopRequested => PollerAction::Finish,
            PollerEvent::TimedOut => PollerAction::RunCcache,
            PollerEvent::NotRequested => PollerAction::RunCcache,
            PollerEvent::Closed { now } => {
                if now < self.next_tick {
                    PollerAction::Sleep { time: self.next_tick - now }
                } else {
                    PollerAction::RunCcache
                }
            },
            PollerEvent::Slept => PollerAction::ReadClock,
            PollerEvent::Ran => {
                self.next_tick = self.next_tick + self.interval;
                PollerAction::ReadClock
            },
        }
    }
}

} // verus!
