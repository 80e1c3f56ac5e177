//! The opening banner's animation: which phase shows at each frame, and when it ends.

use vstd::prelude::*;

verus! {

/// The animation's progress: the frame count, the phase shown (0: the title
/// fades in, 1: the tagline types in, 2: all settles) and whether it has ended.
#[derive(Debug, Clone, Copy, PartialEq, Eq, Structural)]
pub struct BannerState {
    pub phase: u8,
    pub tick: u32,
    pub done: bool,
}

/// The last frame of each phase.
pub const TITLE_LAST_TICK: u32 = 50;

pub const TAGLINE_LAST_TICK: u32 = 95;

pub const SETTLE_LAST_TICK: u32 = 120;

/// The state at the start.
pub open spec fn banner_start() -> BannerState {
    BannerState { phase: 0, tick: 0, done: false }
}

/// The state after one frame: the count goes up by one; the phase follows the
/// count while it is within the last phase, and past it the banner is done.
pub open spec fn banner_tick(s: BannerState) -> BannerState {
    let t = (s.tick + 1) as u32;
    if t <= TITLE_LAST_TICK {
        BannerState { phase: 0, tick: t, ..s }
    } else if t <= TAGLINE_LAST_TICK {
        BannerState { phase: 1, tick: t, ..s }
    } else if t <= SETTLE_LAST_TICK {
        BannerState { phase: 2, tick: t, ..s }
    } else {
        BannerState { tick: t, done: true, ..s }
    }
}

/// The state after `n` frames from `s`.
pub open spec fn banner_ticks(s: BannerState, n: nat) -> BannerState
    decreases n,
{
    if n == 0 {
        s
    } else {
        banner_tick(banner_ticks(s, (n - 1) as nat))
    }
}

/// The phase shown at frame `n`, when it is not yet past the last phase.
pub open spec fn phase_at(n: nat) -> u8 {
    if n <= TITLE_LAST_TICK {
        0
    } else if n <= TAGLINE_LAST_TICK {
        1
    } else {
        2
    }
}

/// The first frame of the tagline phase.
pub const TAGLINE_FIRST_TICK: u32 = 51;

/// The frames over which the tagline types in.
pub const TAGLINE_FRAMES: u128 = 44;

/// How many characters of a tagline `len` characters long show: in phase 1 a
/// share that grows with the frames since the phase began, up to all of it;
/// in the other phases all of it.
pub open spec fn tagline_visible_spec(s: BannerState, len: nat) -> nat {
    if s.phase == 1 {
        let shown = ((s.tick - TAGLINE_FIRST_TICK) * len / (TAGLINE_FRAMES as int)) as nat;
        if shown < len {
            shown
        } else {
            len
        }
    } else {
        len
    }
}

/// How many characters of a tagline `tagline_len` characters long show (see
/// `tagline_visible_spec`).
pub fn tagline_visible_chars(state: &BannerState, tagline_len: usize) -> (r: usize)
    requires
        state.phase == 1 ==> state.tick >= TAGLINE_FIRST_TICK,
    ensures
        r == tagline_visible_spec(*state, tagline_len as nat),
{
    if state.phase == 1 {
        let progress = (state.tick - TAGLINE_FIRST_TICK) as u128;
        let len = tagline_len as u128;
        assert(progress * len <= 0xffff_ffff * 0xffff_ffff_ffff_ffff) by (nonlinear_arith)
            requires
                progress <= 0xffff_ffff,
                len <= 0xffff_ffff_ffff_ffff,
        ;
        let shown = progress * len / TAGLINE_FRAMES;
        if shown < len {
            shown as usize
        } else {
            tagline_len
        }
    } else {
        tagline_len
    }
}

impl BannerState {
    /// The state at the start: phase 0, frame 0, not done.
    pub fn new() -> (s: Self)
        ensures
            s == banner_start(),
    {
        Self { phase: 0, tick: 0, done: false }
    }

    /// Moves the animation on by one frame.
    pub fn tick(&mut self)
        requires
            old(self).tick < u32::MAX,
        ensures
            *final(self) == banner_tick(*old(self)),
    {
        self.tick = self.tick + 1;
        if self.tick <= TITLE_LAST_TICK {
            self.phase = 0;
        } else if self.tick <= TAGLINE_LAST_TICK {
            self.phase = 1;
        } else if self.tick <= SETTLE_LAST_TICK {
            self.phase = 2;
        } else {
            self.done = true;
        }
    }
}

/// From the start, after `n` frames the count is `n`, the phase is that of
/// frame `n` (0 up to 50, 1 up to 95, then 2), and the banner is done exactly
/// when `n` is past 120.
pub proof fn law_banner_after_ticks(n: nat)
    requires
        n <= u32::MAX,
    ensures
        banner_ticks(banner_start(), n) == (BannerState {
            phase: phase_at(n),
            tick: n as u32,
            done: n > SETTLE_LAST_TICK,
        }),
    decreases n,
{
    if n > 0 {
        law_banner_after_ticks((n - 1) as nat);
    }
}

/// A frame never undoes the end of the banner, and never moves the phase back
/// while the phase agrees with the frame count.
pub proof fn law_banner_monotone(s: BannerState)
    requires
        s.tick < u32::MAX,
    ensures
        s.done ==> banner_tick(s).done,
        banner_tick(s).tick == s.tick + 1,
        s.phase == phase_at(s.tick as nat) ==> banner_tick(s).phase >= s.phase,
{
}

} // verus!
