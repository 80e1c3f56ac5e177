//! The colour themes of the browser and the order in which they cycle.

use vstd::prelude::*;

verus! {

/// The themes, in the order that `next` cycles through them.
#[derive(Debug, Clone, Copy, PartialEq, Eq, Structural)]
pub enum ThemeName {
    Slate,
    Emerald,
    Sand,
    Night,
}

impl Default for ThemeName {
    /// The first theme, `Slate`.
    fn default() -> (r: Self)
        ensures
            r == ThemeName::Slate,
    {
        ThemeName::Slate
    }
}

/// A colour by its red, green and blue parts.
#[derive(Debug, Clone, Copy, PartialEq, Eq, Structural)]
pub struct Rgb {
    pub r: u8,
    pub g: u8,
    pub b: u8,
}

/// The colours of one theme.
#[derive(Debug, Clone, Copy, PartialEq, Eq, Structural)]
pub struct Theme {
    pub bg: Rgb,
    pub fg: Rgb,
    pub primary: Rgb,
    pub secondary: Rgb,
    pub border: Rgb,
    pub selection_bg: Rgb,
}

/// The theme after `t` in the cycle Slate, Emerald, Sand, Night, Slate.
pub open spec fn next_theme(t: ThemeName) -> ThemeName {
    match t {
        ThemeName::Slate => ThemeName::Emerald,
        ThemeName::Emerald => ThemeName::Sand,
        ThemeName::Sand => ThemeName::Night,
        ThemeName::Night => ThemeName::Slate,
    }
}

impl ThemeName {
    /// The next theme in the cycle.
    pub fn next(&self) -> (r: Self)
        ensures
            r == next_theme(*self),
    {
        match self {
            ThemeName::Slate => ThemeName::Emerald,
            ThemeName::Emerald => ThemeName::Sand,
            ThemeName::Sand => ThemeName::Night,
            ThemeName::Night => ThemeName::Slate,
        }
    }
}

pub open spec fn rgb(r: u8, g: u8, b: u8) -> Rgb {
    Rgb { r, g, b }
}

/// The colours of each theme.
pub open spec fn theme_spec(name: ThemeName) -> Theme {
    match name {
        ThemeName::Slate => Theme {
            bg: rgb(15, 23, 42),
            fg: rgb(241, 245, 249),
            primary: rgb(56, 189, 248),
            secondary: rgb(148, 163, 184),
            border: rgb(30, 41, 59),
            selection_bg: rgb(30, 41, 59),
        },
        ThemeName::Emerald => Theme {
            bg: rgb(2, 44, 34),
            fg: rgb(236, 253, 245),
            primary: rgb(52, 211, 153),
            secondary: rgb(110, 231, 183),
            border: rgb(6, 78, 59),
            selection_bg: rgb(6, 78, 59),
        },
        ThemeName::Sand => Theme {
            bg: rgb(254, 252, 232),
            fg: rgb(66, 32, 6),
            primary: rgb(161, 98, 7),
            secondary: rgb(113, 63, 18),
            border: rgb(250, 204, 21),
            selection_bg: rgb(253, 224, 71),
        },
        ThemeName::Night => Theme {
            bg: rgb(10, 10, 10),
            fg: rgb(255, 255, 255),
            primary: rgb(255, 255, 255),
            secondary: rgb(161, 161, 170),
            border: rgb(39, 39, 42),
            selection_bg: rgb(39, 39, 42),
        },
    }
}

fn color(r: u8, g: u8, b: u8) -> (c: Rgb)
    ensures
        c == rgb(r, g, b),
{
    Rgb { r, g, b }
}

/// The colours of the theme `name`.
pub fn get_theme(name: ThemeName) -> (t: Theme)
    ensures
        t == theme_spec(name),
{
    match name {
        ThemeName::Slate => Theme {
            bg: color(15, 23, 42),
            fg: color(241, 245, 249),
            primary: color(56, 189, 248),
            secondary: color(148, 163, 184),
            border: color(30, 41, 59),
            selection_bg: color(30, 41, 59),
        },
        ThemeName::Emerald => Theme {
            bg: color(2, 44, 34),
            fg: color(236, 253, 245),
            primary: color(52, 211, 153),
            secondary: color(110, 231, 183),
            border: color(6, 78, 59),
            selection_bg: color(6, 78, 59),
        },
        ThemeName::Sand => Theme {
            bg: color(254, 252, 232),
            fg: color(66, 32, 6),
            primary: color(161, 98, 7),
            secondary: color(113, 63, 18),
            border: color(250, 204, 21),
            selection_bg: color(253, 224, 71),
        },
        ThemeName::Night => Theme {
            bg: color(10, 10, 10),
            fg: color(255, 255, 255),
            primary: color(255, 255, 255),
            secondary: color(161, 161, 170),
            border: color(39, 39, 42),
            selection_bg: color(39, 39, 42),
        },
    }
}

/// Pressing `next` four times comes back to the theme one started from, and
/// the four themes on the way are all different: the cycle visits every theme.
pub proof fn law_theme_cycle(t: ThemeName)
    ensures
        next_theme(next_theme(next_theme(next_theme(t)))) == t,
        next_theme(t) != t,
        next_theme(next_theme(t)) != t,
        next_theme(next_theme(next_theme(t))) != t,
{
}

} // verus!
