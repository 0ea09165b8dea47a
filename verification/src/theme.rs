//! Color themes.

use vstd::prelude::*;

verus! {

/// The terminal colors that the themes use.
#[derive(Clone, Copy, Debug, PartialEq, Eq, Structural)]
pub enum Color {
    Red,
    Green,
    Yellow,
    Blue,
    Magenta,
    Cyan,
    Gray,
    White,
}

/// Named color themes for the UI.
#[derive(Clone, Copy, Debug, PartialEq, Eq, Structural)]
pub enum ThemeName {
    Classic,
    Mono,
    Solar,
}

/// Color palette used for charts and gauges.
#[derive(Clone, Copy, Debug, PartialEq, Eq, Structural)]
pub struct Theme {
    pub hits: Color,
    pub misses: Color,
    pub hit_rate: Color,
    pub cache: Color,
    pub hit_gauge: Color,
    pub cache_gauge: Color,
}

/// The colors of a theme.
pub open spec fn palette(name: ThemeName) -> Theme {
    match name {
        ThemeName::Classic => Theme {
            hits: Color::Green,
            misses: Color::Red,
            hit_rate: Color::Cyan,
            cache: Color::Yellow,
            hit_gauge: Color::Green,
            cache_gauge: Color::Blue,
        },
        ThemeName::Mono => Theme {
            hits: Color::White,
            misses: Color::Gray,
            hit_rate: Color::White,
            cache: Color::Gray,
            hit_gauge: Color::White,
            cache_gauge: Color::Gray,
        },
        ThemeName::Solar => Theme {
            hits: Color::Yellow,
            misses: Color::Magenta,
            hit_rate: Color::Cyan,
            cache: Color::Blue,
            hit_gauge: Color::Yellow,
            cache_gauge: Color::Blue,
        },
    }
}

impl ThemeName {
    /// Maps theme names to concrete colors.
    pub fn to_theme(self) -> (theme: Theme)
        ensures
            theme == palette(self),
    {
        match self {
            ThemeName::Classic => Theme {
                hits: Color::Green,
                misses: Color::Red,
                hit_rate: Color::Cyan,
                cache: Color::Yellow,
                hit_gauge: Color::Green,
                cache_gauge: Color::Blue,
            },
            ThemeName::Mono => Theme {
                hits: Color::White,
                misses: Color::Gray,
                hit_rate: Color::White,
                cache: Color::Gray,
                hit_gauge: Color::White,
                cache_gauge: Color::Gray,
            },
            ThemeName::Solar => Theme {
                hits: Color::Yellow,
                misses: Color::Magenta,
                hit_rate: Color::Cyan,
                cache: Color::Blue,
                hit_gauge: Color::Yellow,
                cache_gauge: Color::Blue,
            },
        }
    }
}

/// In every theme hits and misses have different colors, so that their curves can be told apart.
pub proof fn law_hits_and_misses_differ(name: ThemeName)
    ensures
        palette(name).hits != palette(name).misses,
{
}

} // verus!
