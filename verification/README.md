# ccache-tui

Live terminal UI for `ccache -s` with trends and summary stats. Its rules are written in Verus and
proved; the program around them draws the screen and runs `ccache`.

## Features

- Polls `ccache -s` on a configurable interval
- Charts for hits/misses, hit rate, and cache size
- Rolling window history (default 5 minutes)
- Error overlay with stderr and exit code

## Options

- `--window-seconds`: history window length in seconds (default: 300)
- `--poll-ms`: polling interval in milliseconds (default: 1000)
- `--theme`: color theme (`classic`, `mono`, `solar`)

## Controls

- `q` or `Esc`: quit
- `Ctrl-C`: quit

## Layout

`src/` is the library, every function of which has a proved contract.

- `text`, `digits`, `decimal`, `format`: characters, lines and numbers, read and written exactly
- `stats`: reading the output of `ccache -s`; `stats_laws` and `report_laws` state what holds of it
- `ccache`: what a run of `ccache -s` has brought, and the text of the error overlay
- `rate`: rates per second, compared exactly
- `history`: the rolling window and its series; `history_laws` states what holds of them
- `screen`, `layout`: what the panels show, and where they stand
- `monitor`, `poller`: the event loop and the background poller, one step at a time
- `settings`, `theme`: options and colors

What is not proved is the behavior of three functions of the standard library and of ratatui, each
stated where it is called: `String::push`, `String::from_utf8_lossy` and `ratatui::layout::Layout::split`.

`app/` is the program: arguments, the terminal, the clock, the `ccache` process and everything in
floating point. `tests/` runs the library on concrete values.
