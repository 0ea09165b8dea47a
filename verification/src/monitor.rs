//! The state of the UI, and what input and poll results make of it.

use std::collections::VecDeque;
use vstd::prelude::*;

use crate::ccache::CcacheError;
use crate::history::{hit_rate_of, push_sample, sample_of, trimmed_history, Sample};
use crate::history_laws::{
    has_ratios, is_time_ordered, law_newest_sample_stays,
    law_pushed_history_is_the_rolling_window, law_pushing_keeps_ratios,
    law_pushing_keeps_time_order,
};
use crate::stats::{no_stats, Stats};

verus! {

/// How long input is waited for before the screen is drawn again, in milliseconds.
pub const INPUT_TIMEOUT_MS: u64 = 100;

/// A key, as far as the controls tell keys apart.
#[derive(Clone, Copy, Debug, PartialEq, Eq, Structural)]
pub enum Key {
    Char(char),
    Esc,
    Other,
}

/// A key that was pressed, and whether the control key was held with it.
#[derive(Clone, Copy, Debug, PartialEq, Eq, Structural)]
pub struct KeyPress {
    pub key: Key,
    pub control: bool,
}

/// What is shown.
#[derive(Debug)]
pub struct Monitor {
    /// The samples of the rolling window.
    pub history: VecDeque<Sample>,
    /// The statistics of the last poll that succeeded.
    pub stats: Stats,
    /// The error of the last poll, if it failed.
    pub last_error: Option<CcacheError>,
    /// The length of the rolling window in nanoseconds.
    pub window: u128,
}

/// What has happened to the UI.
#[derive(Debug)]
pub enum MonitorEvent {
    /// The screen was drawn.
    Drawn,
    /// No input came in time.
    NoInput,
    /// A key was pressed.
    Pressed(KeyPress),
    /// Input other than a key press came.
    OtherInput,
    /// A poll result was received, at this time.
    Polled { result: Result<Stats, CcacheError>, now: u128 },
    /// No further poll result is there.
    Drained,
}

/// What the UI has to do next.
#[derive(Clone, Copy, Debug, PartialEq, Eq, Structural)]
pub enum MonitorAction {
    /// Draw the screen.
    Draw,
    /// Wait for input, no longer than this.
    AwaitInput { timeout_ms: u64 },
    /// Receive a poll result, without waiting.
    Receive,
    /// Leave the program.
    Quit,
}

/// Whether a key press quits: `q`, `Esc` or `Ctrl-C`.
pub open spec fn quits(press: KeyPress) -> bool {
    ||| press.key == Key::Char('q')
    ||| press.key == Key::Esc
    ||| press.key == Key::Char('c') && press.control
}

/// What an event makes the UI do.
pub open spec fn monitor_action(event: MonitorEvent) -> MonitorAction {
    match event {
        MonitorEvent::Drawn => MonitorAction::AwaitInput { timeout_ms: INPUT_TIMEOUT_MS },
        MonitorEvent::Pressed(press) => if quits(press) {
            MonitorAction::Quit
        } else {
            MonitorAction::Receive
        },
        MonitorEvent::NoInput => MonitorAction::Receive,
        MonitorEvent::OtherInput => MonitorAction::Receive,
        MonitorEvent::Polled { result, now } => MonitorAction::Receive,
        MonitorEvent::Drained => MonitorAction::Draw,
    }
}

/// The state of a [`Monitor`].
pub struct MonitorModel {
    pub history: Seq<Sample>,
    pub stats: Stats,
    pub last_error: Option<CcacheError>,
    pub window: u128,
}

impl View for Monitor {
    type V = MonitorModel;

    open spec fn view(&self) -> MonitorModel {
        MonitorModel {
            history: self.history@,
            stats: self.stats,
            last_error: self.last_error,
            window: self.window,
        }
    }
}

/// What an event makes of the state. A poll that succeeded replaces the statistics, clears the
/// error and adds a sample; one that failed sets the error and leaves all else as it was.
pub open spec fn updated(state: MonitorModel, event: MonitorEvent) -> MonitorModel {
    match event {
        MonitorEvent::Polled { result: Ok(stats), now } => MonitorModel {
            history: trimmed_history(state.history.push(sample_of(stats, now)), state.window),
            stats,
            last_error: None,
            window: state.window,
        },
        MonitorEvent::Polled { result: Err(error), now } => MonitorModel {
            last_error: Some(error),
            ..state
        },
        _ => state,
    }
}

impl Monitor {
    /// A monitor that has seen no poll result yet.
    pub fn new(window: u128) -> (monitor: Monitor)
        ensures
            monitor.history@.len() == 0,
            monitor.stats@ == no_stats(),
            monitor.last_error is None,
            monitor.window == window,
    {
        Monitor { history: VecDeque::new(), stats: Stats::default(), last_error: None, window }
    }

    /// Takes an event into account and tells what to do next.
    pub fn step(&mut self, event: MonitorEvent) -> (action: MonitorAction)
        ensures
            action == monitor_action(event),
            final(self)@ == updated(old(self)@, event),
    {
        match event {
            MonitorEvent::Drawn => MonitorAction::AwaitInput { timeout_ms: INPUT_TIMEOUT_MS },
            MonitorEvent::NoInput => MonitorAction::Receive,
            MonitorEvent::Pressed(press) => {
                let quit: bool = match press.key {
                    Key::Char(c) => c == 'q' || (c == 'c' && press.control),
                    Key::Esc => true,
                    Key::Other => false,
                };
                if quit {
                    MonitorAction::Quit
                } else {
                    MonitorAction::Receive
                }
            },
            MonitorEvent::OtherInput => MonitorAction::Receive,
            MonitorEvent::Polled { result, now } => {
                match result {
                    Ok(stats) => {
                        push_sample(&mut self.history, &stats, now, self.window);
                        self.stats = stats;
                        self.last_error = None;
                    },
                    Err(error) => {
                        self.last_error = Some(error);
                    },
                }
                MonitorAction::Receive
            },
            MonitorEvent::Drained => MonitorAction::Draw,
        }
    }
}

/// The state after a row of events.
pub open spec fn after_events(state: MonitorModel, events: Seq<MonitorEvent>) -> MonitorModel
    decreases events.len(),
{
    if events.len() == 0 {
        state
    } else {
        updated(after_events(state, events.drop_last()), events.last())
    }
}

/// Whether an event brings a poll result.
pub open spec fn is_poll(event: MonitorEvent) -> bool {
    event is Polled
}

/// The error that is shown is that of the last poll: whatever came before, after a poll and any
/// events that are none there is an error just when that poll failed, and it is the one that it
/// failed with.
pub proof fn law_error_is_that_of_the_last_poll(
    state: MonitorModel,
    before: Seq<MonitorEvent>,
    poll: MonitorEvent,
    after: Seq<MonitorEvent>,
)
    requires
        is_poll(poll),
        forall|i: int| 0 <= i < after.len() ==> !is_poll(#[trigger] after[i]),
    ensures
        match poll {
            MonitorEvent::Polled { result: Err(error), now } => after_events(
                state,
                before.push(poll) + after,
            ).last_error == Some(error),
            _ => after_events(state, before.push(poll) + after).last_error is None,
        },
    decreases after.len(),
{
    let all = before.push(poll) + after;
    if after.len() == 0 {
        assert(all =~= before.push(poll));
        assert(all.drop_last() =~= before);
    } else {
        assert(all.drop_last() =~= before.push(poll) + after.drop_last());
        assert(!is_poll(after[after.len() - 1]));
        assert forall|i: int| 0 <= i < after.drop_last().len() implies !is_poll(
            #[trigger] after.drop_last()[i],
        ) by {
            assert(!is_poll(after[i]));
        }
        law_error_is_that_of_the_last_poll(state, before, poll, after.drop_last());
    }
}

/// Whether an event brings statistics.
pub open spec fn is_success(event: MonitorEvent) -> bool {
    event matches MonitorEvent::Polled { result: Ok(stats), now }
}

/// Statistics and history change with polls that succeed alone.
pub proof fn law_only_successful_polls_change_what_is_shown(
    state: MonitorModel,
    events: Seq<MonitorEvent>,
)
    requires
        forall|i: int| 0 <= i < events.len() ==> !is_success(#[trigger] events[i]),
    ensures
        after_events(state, events).stats == state.stats,
        after_events(state, events).history == state.history,
    decreases events.len(),
{
    if events.len() > 0 {
        assert(!is_success(events[events.len() - 1]));
        assert forall|i: int| 0 <= i < events.drop_last().len() implies !is_success(
            #[trigger] events.drop_last()[i],
        ) by {
            assert(!is_success(events[i]));
        }
        law_only_successful_polls_change_what_is_shown(state, events.drop_last());
    }
}

/// Whether a history is in time order and holds nothing older than the window allows.
pub open spec fn is_rolling(state: MonitorModel) -> bool {
    &&& is_time_ordered(state.history)
    &&& forall|i: int|
        0 <= i < state.history.len() ==> state.history.last().timestamp - (
        #[trigger] state.history[i]).timestamp <= state.window
}

/// The history stays a rolling window, whatever happens, as long as the clock does not go back.
pub proof fn law_history_stays_a_rolling_window(state: MonitorModel, event: MonitorEvent)
    requires
        is_rolling(state),
        event matches MonitorEvent::Polled { result, now } ==> state.history.len() > 0
            ==> state.history.last().timestamp <= now,
    ensures
        is_rolling(updated(state, event)),
        updated(state, event).window == state.window,
{
    match event {
        MonitorEvent::Polled { result: Ok(stats), now } => {
            law_pushing_keeps_time_order(state.history, stats, now, state.window);
            law_pushed_history_is_the_rolling_window(state.history, stats, now, state.window);
        },
        _ => {},
    }
}

/// From an empty history on, whatever happens and whatever ccache reports, every sample has a hit
/// rate from zero to one.
pub proof fn law_hit_rates_are_ratios(state: MonitorModel, events: Seq<MonitorEvent>)
    requires
        state.history.len() == 0,
    ensures
        has_ratios(after_events(state, events).history),
    decreases events.len(),
{
    if events.len() > 0 {
        let before = after_events(state, events.drop_last());
        law_hit_rates_are_ratios(state, events.drop_last());
        match events.last() {
            MonitorEvent::Polled { result: Ok(stats), now } => {
                law_pushing_keeps_ratios(before.history, stats, now, before.window);
            },
            _ => {},
        }
    }
}

/// Nothing but the keys `q`, `Esc` and `Ctrl-C` makes the program quit.
pub proof fn law_only_the_controls_quit(event: MonitorEvent)
    ensures
        monitor_action(event) == MonitorAction::Quit <==> (event matches MonitorEvent::Pressed(
            press,
        ) && quits(press)),
{
}

/// The program quits on `q`, on `Esc` and on `c` with the control key held, and on no other key
/// press.
pub proof fn law_keys_that_quit(press: KeyPress)
    ensures
        quits(press) <==> (match press.key {
            Key::Char(c) => c as int == 113 || c as int == 99 && press.control,
            Key::Esc => true,
            Key::Other => false,
        }),
{
}

/// The screen is drawn, then input is awaited for a tenth of a second, then all poll results are
/// received, and then the screen is drawn again, until a key quits.
pub proof fn law_drawing_input_and_results_take_turns(
    press: KeyPress,
    result: Result<Stats, CcacheError>,
    now: u128,
)
    ensures
        monitor_action(MonitorEvent::Drawn) == (MonitorAction::AwaitInput { timeout_ms: 100 }),
        monitor_action(MonitorEvent::NoInput) == MonitorAction::Receive,
        monitor_action(MonitorEvent::OtherInput) == MonitorAction::Receive,
        monitor_action(MonitorEvent::Polled { result, now }) == MonitorAction::Receive,
        monitor_action(MonitorEvent::Drained) == MonitorAction::Draw,
        quits(press) ==> monitor_action(MonitorEvent::Pressed(press)) == MonitorAction::Quit,
        !quits(press) ==> monitor_action(MonitorEvent::Pressed(press)) == MonitorAction::Receive,
{
}

/// A poll that succeeds replaces the statistics, takes the error away and adds a sample of what
/// was polled, taken then, behind the samples that are there, of which only such go as the window
/// does not reach.
pub proof fn law_successful_poll_is_shown(state: MonitorModel, stats: Stats, now: u128)
    ensures
        ({
            let after = updated(state, MonitorEvent::Polled { result: Ok(stats), now });
            &&& after.stats == stats
            &&& after.last_error is None
            &&& after.window == state.window
            &&& after.history.len() > 0
            &&& after.history.last().timestamp == now
            &&& after.history.last().hits == stats.hits
            &&& after.history.last().misses == stats.misses
            &&& after.history.last().cache_size_used_gb == stats.cache_size_used_gb
            &&& after.history.last().cache_size_max_gb == stats.cache_size_max_gb
            &&& after.history.last().hit_rate == hit_rate_of(stats)
            &&& after.history == trimmed_history(
                state.history.push(after.history.last()),
                state.window,
            )
        }),
{
    law_newest_sample_stays(state.history.push(sample_of(stats, now)), state.window);
}

/// A poll that fails shows its error and leaves all else as it was.
pub proof fn law_failed_poll_shows_its_error(state: MonitorModel, error: CcacheError, now: u128)
    ensures
        ({
            let after = updated(state, MonitorEvent::Polled { result: Err(error), now });
            &&& after.last_error == Some(error)
            &&& after.stats == state.stats
            &&& after.history == state.history
            &&& after.window == state.window
        }),
{
}

/// Events other than poll results leave everything as it was.
pub proof fn law_other_events_change_nothing(state: MonitorModel, event: MonitorEvent)
    requires
        !(event is Polled),
    ensures
        updated(state, event) == state,
{
}

/// The state of a monitor is its history, its statistics, its error and its window.
pub proof fn law_state_is_what_is_shown(monitor: Monitor)
    ensures
        monitor@.history == monitor.history@,
        monitor@.stats == monitor.stats,
        monitor@.last_error == monitor.last_error,
        monitor@.window == monitor.window,
{
}

} // verus!
