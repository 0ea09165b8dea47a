use ccache_tui::ccache::{
    interpret_run, overlay_text, read_ccache_stats, start_failure, CcacheError,
};
use ccache_tui::history::SECOND;
use ccache_tui::monitor::{Key, KeyPress, Monitor, MonitorAction, MonitorEvent};
use ccache_tui::poller::{Poller, PollerAction, PollerEvent};
use ccache_tui::settings::{Settings, DEFAULT_POLL_MS, DEFAULT_WINDOW_SECS};
use ccache_tui::stats::Stats;
use ccache_tui::theme::{Color, ThemeName};

const GOOD: &str = "Cacheable calls: 3 / 4\n  Hits: 1 / 3\n  Misses: 2 / 3\n";

fn error(code: Option<i32>, message: &str) -> CcacheError {
    CcacheError { code, message: message.to_string() }
}

#[test]
fn successful_run_gives_stats() {
    let stats = read_ccache_stats(true, Some(0), GOOD.as_bytes(), b"ignored").unwrap();
    assert_eq!((stats.cacheable_calls, stats.hits, stats.misses), (3, 1, 2));
}

#[test]
fn failed_run_gives_its_error_output() {
    let e = read_ccache_stats(false, Some(2), GOOD.as_bytes(), b" no such file \n").unwrap_err();
    assert_eq!((e.code, e.message.as_str()), (Some(2), "no such file"));
}

#[test]
fn failed_run_without_error_output_gives_its_output() {
    let e = read_ccache_stats(false, None, b"\n usage: ccache\n ", b" \r\n").unwrap_err();
    assert_eq!((e.code, e.message.as_str()), (None, "usage: ccache"));
    let e = interpret_run(false, Some(1), "", "").unwrap_err();
    assert_eq!((e.code, e.message.as_str()), (Some(1), ""));
}

#[test]
fn unreadable_output_is_an_error() {
    let e = read_ccache_stats(true, Some(0), b"hello", b"").unwrap_err();
    assert_eq!((e.code, e.message.as_str()), (Some(0), "Failed to parse ccache output"));
}

#[test]
fn invalid_bytes_are_replaced() {
    let e = read_ccache_stats(false, Some(1), b"", b"caf\xff\xc3\xa9").unwrap_err();
    assert_eq!(e.message, "caf\u{fffd}\u{e9}");
    let mut output = b"\xfe\n".to_vec();
    output.extend_from_slice(GOOD.as_bytes());
    assert!(read_ccache_stats(true, Some(0), &output, b"").is_ok());
}

#[test]
fn run_that_does_not_start() {
    let e = start_failure("not found".to_string());
    assert_eq!((e.code, e.message.as_str()), (None, "not found"));
}

#[test]
fn overlay_tells_code_and_message() {
    assert_eq!(overlay_text(&error(Some(-1), "one\ntwo\r\n\nthree")), "Exit code: -1\n\none\ntwo\n\nthree");
    assert_eq!(overlay_text(&error(None, " x")), "Exit code: n/a\n\n x");
    assert_eq!(overlay_text(&error(Some(0), " \n")), "Exit code: 0\n\nNo error output captured.");
}

#[test]
fn overlay_shows_the_error_output_of_a_failed_run() {
    let e = read_ccache_stats(false, Some(3), b"out", b"\n first\n second \n\n").unwrap_err();
    assert_eq!(overlay_text(&e), "Exit code: 3\n\nfirst\n second");
}

fn press(key: Key, control: bool) -> MonitorEvent {
    MonitorEvent::Pressed(KeyPress { key, control })
}

#[test]
fn controls_quit() {
    let mut monitor = Monitor::new(SECOND);
    for event in [
        press(Key::Char('q'), false),
        press(Key::Char('q'), true),
        press(Key::Esc, false),
        press(Key::Char('c'), true),
    ] {
        assert_eq!(monitor.step(event), MonitorAction::Quit);
    }
    for event in [
        press(Key::Char('c'), false),
        press(Key::Char('Q'), false),
        press(Key::Char('d'), true),
        press(Key::Other, true),
        MonitorEvent::NoInput,
        MonitorEvent::OtherInput,
    ] {
        assert_eq!(monitor.step(event), MonitorAction::Receive);
    }
}

fn counted(hits: u64) -> Stats {
    Stats { cacheable_calls: 10, hits, ..Stats::default() }
}

#[test]
fn poll_results_are_shown() {
    let mut monitor = Monitor::new(5 * SECOND);
    assert_eq!(monitor.step(MonitorEvent::Drawn), MonitorAction::AwaitInput { timeout_ms: 100 });
    let polled = |result, seconds: u128| MonitorEvent::Polled { result, now: seconds * SECOND };
    assert_eq!(monitor.step(polled(Ok(counted(1)), 1)), MonitorAction::Receive);
    assert_eq!((monitor.stats.hits, monitor.history.len()), (1, 1));
    monitor.step(polled(Err(error(Some(1), "broken")), 2));
    assert_eq!((monitor.stats.hits, monitor.history.len()), (1, 1));
    assert_eq!(monitor.last_error.as_ref().unwrap().message, "broken");
    monitor.step(polled(Ok(counted(4)), 3));
    assert!(monitor.last_error.is_none());
    assert_eq!((monitor.stats.hits, monitor.history.len()), (4, 2));
    monitor.step(polled(Ok(counted(5)), 9));
    assert_eq!(monitor.history.len(), 1);
    assert_eq!(monitor.step(MonitorEvent::Drained), MonitorAction::Draw);
    assert_eq!(monitor.history.len(), 1);
}

#[test]
fn poller_keeps_its_schedule() {
    let mut poller = Poller::new(100, 10);
    assert_eq!(poller.step(PollerEvent::Clock { now: 100 }), PollerAction::CheckForStop);
    assert_eq!(poller.step(PollerEvent::NotRequested), PollerAction::RunCcache);
    assert_eq!(poller.step(PollerEvent::Ran), PollerAction::ReadClock);
    assert_eq!(
        poller.step(PollerEvent::Clock { now: 103 }),
        PollerAction::WaitForStop { timeout: 7 }
    );
    assert_eq!(poller.step(PollerEvent::TimedOut), PollerAction::RunCcache);
    assert_eq!(poller.step(PollerEvent::Ran), PollerAction::ReadClock);
    assert_eq!(poller, Poller { next_tick: 120, interval: 10 });
    assert_eq!(poller.step(PollerEvent::Clock { now: 500 }), PollerAction::CheckForStop);
    assert_eq!(poller.step(PollerEvent::StopRequested), PollerAction::Finish);
    assert_eq!(poller.next_tick, 120);
}

#[test]
fn poller_keeps_its_schedule_when_nobody_can_stop_it() {
    let mut poller = Poller::new(0, 10);
    let mut now: u128 = 0;
    let mut action = PollerAction::ReadClock;
    let mut runs: Vec<u128> = Vec::new();
    while runs.len() < 4 {
        let event = match action {
            PollerAction::ReadClock => PollerEvent::Clock { now },
            PollerAction::WaitForStop { .. } => PollerEvent::Closed { now },
            PollerAction::CheckForStop => PollerEvent::Closed { now },
            PollerAction::Sleep { time } => {
                now += time;
                PollerEvent::Slept
            }
            PollerAction::RunCcache => {
                runs.push(now);
                now += 3;
                PollerEvent::Ran
            }
            PollerAction::Finish => panic!("nobody has asked for it"),
        };
        action = poller.step(event);
    }
    assert_eq!(runs, [0, 10, 20, 30]);
}

#[test]
fn defaults_of_the_settings() {
    let settings = Settings::default();
    assert_eq!((settings.window_seconds, settings.poll_ms), (300, 1000));
    assert_eq!((DEFAULT_WINDOW_SECS, DEFAULT_POLL_MS), (300, 1000));
    assert_eq!(settings.theme, ThemeName::Classic);
    assert_eq!(settings.window(), 300 * SECOND);
    assert_eq!(settings.poll_interval(), SECOND);
}

#[test]
fn zero_settings_count_as_one() {
    let settings = Settings { window_seconds: 0, poll_ms: 0, ..Settings::default() };
    assert_eq!(settings.window(), SECOND);
    assert_eq!(settings.poll_interval(), 1_000_000);
    let longest = Settings { window_seconds: u64::MAX, poll_ms: u64::MAX, ..Settings::default() };
    assert_eq!(longest.window(), u64::MAX as u128 * SECOND);
    assert_eq!(longest.poll_interval(), u64::MAX as u128 * 1_000_000);
}

#[test]
fn themes_have_their_colors() {
    let classic = ThemeName::Classic.to_theme();
    assert_eq!((classic.hits, classic.misses, classic.cache_gauge), (Color::Green, Color::Red, Color::Blue));
    assert_eq!((classic.hit_rate, classic.cache, classic.hit_gauge), (Color::Cyan, Color::Yellow, Color::Green));
    let mono = ThemeName::Mono.to_theme();
    assert_eq!((mono.hits, mono.misses, mono.cache_gauge), (Color::White, Color::Gray, Color::Gray));
    assert_eq!((mono.hit_rate, mono.cache, mono.hit_gauge), (Color::White, Color::Gray, Color::White));
    let solar = ThemeName::Solar.to_theme();
    assert_eq!((solar.hits, solar.misses, solar.cache_gauge), (Color::Yellow, Color::Magenta, Color::Blue));
    assert_eq!((solar.hit_rate, solar.cache, solar.hit_gauge), (Color::Cyan, Color::Blue, Color::Yellow));
}
