//! The colour cycle: a phase on a full turn, advanced by a fixed step, and the
//! three phase-shifted sample points from which the tint colour is taken.
use vstd::prelude::*;
use vstd::arithmetic::div_mod::lemma_mod_multiples_vanish;

verus! {

/// One full turn (2π) of the phase, in units of 1/10_000_000 of a degree.
pub const TURN: u64 = 3600000000;

/// A third of a turn (2π/3): the shift between neighbouring channels.
pub const THIRD: u64 = 1200000000;

/// The amount the phase advances per frame: 0.1 radian, to the nearest unit.
pub const STEP: u64 = 57295780;

/// A tint colour, one byte per channel.
#[derive(Clone, Copy, Debug, PartialEq, Eq, Structural)]
pub struct Rgb {
    pub r: u8,
    pub g: u8,
    pub b: u8,
}

/// The overlay's state: a constant alpha and a phase in `[0, TURN)`.
#[derive(Clone, Copy, Debug, PartialEq, Eq, Structural)]
pub struct Overlay {
    pub alpha: u8,
    pub phase: u64,
}

/// The phase reached from `p` by one step, wrapped into the turn.
pub open spec fn step_phase(p: int) -> int {
    if p + STEP >= TURN {
        p + STEP - TURN
    } else {
        p + STEP
    }
}

/// The phase after `n` steps from `p`.
pub open spec fn advanced(p: int, n: nat) -> int
    decreases n,
{
    if n == 0 {
        p
    } else {
        step_phase(advanced(p, (n - 1) as nat))
    }
}

/// The points of the turn at which the red, green and blue waves are sampled
/// for phase `p`: `p + 2π/3`, `p` and `p - 2π/3`, each reduced into the turn.
pub open spec fn sample_points(p: int) -> (int, int, int) {
    ((p + THIRD) % (TURN as int), p % (TURN as int), (p + 2 * THIRD) % (TURN as int))
}

/// The byte for a signed channel level: levels below zero give 0, levels
/// above 255 give 255, the rest are kept.
pub open spec fn level_byte(level: int) -> u8 {
    if level < 0 {
        0
    } else if level > 255 {
        255
    } else {
        level as u8
    }
}

impl Overlay {
    pub open spec fn wf(&self) -> bool {
        self.phase < TURN
    }

    /// An overlay with the given alpha, at the start of the cycle.
    pub fn new(alpha: u8) -> (r: Overlay)
        ensures
            r.wf(),
            r.alpha == alpha,
            r.phase == 0,
    {
        Overlay { alpha, phase: 0 }
    }

    /// Advance the phase to the next colour, wrapping it back into the turn.
    pub fn next_color(&mut self)
        requires
            old(self).wf(),
        ensures
            final(self).wf(),
            final(self).alpha == old(self).alpha,
            final(self).phase == step_phase(old(self).phase as int),
            final(self).phase == (old(self).phase + STEP) % (TURN as int),
    {
        self.phase = self.phase + STEP;
        if self.phase >= TURN {
            self.phase = self.phase - TURN;
        }
    }

    /// The sample points of the red, green and blue waves at the current phase.
    pub fn sample_phases(&self) -> (r: (u64, u64, u64))
        requires
            self.wf(),
        ensures
            (r.0 as int, r.1 as int, r.2 as int) == sample_points(self.phase as int),
    {
        let p = self.phase;
        let red = if p + THIRD >= TURN {
            p + THIRD - TURN
        } else {
            p + THIRD
        };
        let blue = if p + 2 * THIRD >= TURN {
            p + 2 * THIRD - TURN
        } else {
            p + 2 * THIRD
        };
        (red, p, blue)
    }

    /// The tint colour from the three rounded wave levels
    /// (`round(255 · sin(point))` for each channel): negative levels become 0.
    pub fn color_from_levels(red: i32, green: i32, blue: i32) -> (r: Rgb)
        ensures
            r.r == level_byte(red as int),
            r.g == level_byte(green as int),
            r.b == level_byte(blue as int),
    {
        Rgb { r: channel_byte(red), g: channel_byte(green), b: channel_byte(blue) }
    }
}

/// One channel level as a byte, clamped into `0..=255`.
pub fn channel_byte(level: i32) -> (r: u8)
    ensures
        r == level_byte(level as int),
{
    if level < 0 {
        0
    } else if level > 255 {
        255
    } else {
        level as u8
    }
}

/// Advancing any number of times from a phase in the turn stays in the turn,
/// and lands where the unwrapped phase `p + n · STEP`, reduced modulo the turn,
/// lies.
pub proof fn lemma_advance_stays_in_turn(p: int, n: nat)
    requires
        0 <= p < TURN,
    ensures
        0 <= advanced(p, n) < TURN,
        advanced(p, n) == (p + n * STEP) % (TURN as int),
    decreases n,
{
    if n == 0 {
        assert(p % (TURN as int) == p) by (nonlinear_arith)
            requires
                0 <= p < TURN,
        ;
    } else {
        let m = (n - 1) as nat;
        lemma_advance_stays_in_turn(p, m);
        let q = advanced(p, m);
        let u = p + m * STEP;
        assert(u == (u / (TURN as int)) * TURN + q) by {
            vstd::arithmetic::div_mod::lemma_fundamental_div_mod(u, TURN as int);
        }
        assert(p + n * STEP == u + STEP) by (nonlinear_arith)
            requires
                m == n - 1,
                u == p + m * STEP,
        ;
        lemma_mod_multiples_vanish(u / (TURN as int), step_phase(q), TURN as int);
        if q + STEP >= TURN {
            lemma_mod_multiples_vanish(1, step_phase(q), TURN as int);
        }
        assert(step_phase(q) % (TURN as int) == step_phase(q)) by (nonlinear_arith)
            requires
                0 <= step_phase(q) < TURN,
        ;
    }
}

/// The colour depends on the phase only modulo a full turn: the sample points
/// of `p` and of `p + k · TURN` are the same, for every integer `k`.
pub proof fn lemma_color_periodic(p: int, k: int)
    ensures
        sample_points(p + k * TURN) == sample_points(p),
{
    let t = TURN as int;
    assert(p + k * TURN == t * k + p) by (nonlinear_arith)
        requires
            t == TURN,
    ;
    lemma_mod_multiples_vanish(k, p, t);
    lemma_mod_multiples_vanish(k, p + THIRD, t);
    lemma_mod_multiples_vanish(k, p + 2 * THIRD, t);
}

/// After any number of advances, wrapping included, the colour is sampled at
/// the same points as for the unwrapped phase `p + n · STEP`.
pub proof fn lemma_wrapped_color_matches_unwrapped(p: int, n: nat)
    requires
        0 <= p < TURN,
    ensures
        sample_points(advanced(p, n)) == sample_points(p + n * STEP),
{
    let t = TURN as int;
    let u = p + n * STEP;
    lemma_advance_stays_in_turn(p, n);
    vstd::arithmetic::div_mod::lemma_fundamental_div_mod(u, t);
    assert(advanced(p, n) == u - (u / t) * TURN);
    lemma_color_periodic(advanced(p, n), u / t);
}

} // verus!
