use vstd::prelude::*;
use vstd::arithmetic::div_mod::lemma_add_mod_noop;

use crate::atlas::Atlas;
use crate::geometry::Rect;

verus! {

/// How the frame index moves once it reaches the end of the atlas.
#[derive(Clone, Copy, Debug, PartialEq, Eq, Structural)]
pub enum Mode {
    /// Always forward, back to the first frame after the last.
    Wrap,
    /// Forward to the last frame, then backward to the first, and so on.
    PingPong,
}

/// Index and direction after one tick, from index `i` with direction `fwd`, over `n` frames.
pub open spec fn step(mode: Mode, n: nat, i: nat, fwd: bool) -> (nat, bool) {
    match mode {
        Mode::Wrap => ((((i + 1) as int) % (n as int)) as nat, true),
        Mode::PingPong => {
            let j: nat = if fwd {
                if i + 1 < n { i + 1 } else { i }
            } else {
                if i == 0 { 0 } else { (i - 1) as nat }
            };
            (j, if j + 1 == n { false } else if j == 0 { true } else { fwd })
        },
    }
}

/// Index and direction after `t` ticks from the start (index 0, forward).
pub open spec fn run(mode: Mode, n: nat, t: nat) -> (nat, bool)
    decreases t,
{
    if t == 0 {
        (0, true)
    } else {
        let prev = run(mode, n, (t - 1) as nat);
        step(mode, n, prev.0, prev.1)
    }
}

/// Animation state: the current frame, the direction, and the current frame's rectangle.
pub struct Animation {
    pub mode: Mode,
    pub index: usize,
    pub forward: bool,
    pub sprite: Rect,
}

impl Animation {
    /// Starts at the first frame, moving forward.
    pub fn new(mode: Mode, atlas: &Atlas) -> (r: Animation)
        requires
            atlas.wf(),
        ensures
            r.mode == mode,
            r.index == 0,
            r.forward,
            r.sprite == atlas@[0].region,
    {
        Animation { mode, index: 0, forward: true, sprite: atlas.region(0) }
    }

    /// Advances one tick and copies the new frame's rectangle into `sprite`.
    pub fn advance(&mut self, atlas: &Atlas)
        requires
            old(self).index < atlas@.len(),
        ensures
            (final(self).index as nat, final(self).forward) == step(
                old(self).mode,
                atlas@.len(),
                old(self).index as nat,
                old(self).forward,
            ),
            final(self).index < atlas@.len(),
            final(self).mode == old(self).mode,
            final(self).sprite == atlas@[final(self).index as int].region,
    {
        let n = atlas.len();
        match self.mode {
            Mode::Wrap => {
                self.index = if self.index + 1 < n { self.index + 1 } else { 0 };
                self.forward = true;
                proof {
                    let i = old(self).index as int;
                    if i + 1 < n {
                        vstd::arithmetic::div_mod::lemma_small_mod((i + 1) as nat, n as nat);
                    } else {
                        assert((i + 1) % (n as int) == 0) by {
                            vstd::arithmetic::div_mod::lemma_mod_self_0(n as int);
                        }
                    }
                }
            },
            Mode::PingPong => {
                let j: usize = if self.forward {
                    if self.index + 1 < n { self.index + 1 } else { self.index }
                } else {
                    if self.index == 0 { 0 } else { self.index - 1 }
                };
                self.index = j;
                if j + 1 == n {
                    self.forward = false;
                } else if j == 0 {
                    self.forward = true;
                }
            },
        }
        self.sprite = atlas.region(self.index);
    }
}

proof fn lemma_step_in_range(mode: Mode, n: nat, i: nat, fwd: bool)
    requires
        i < n,
    ensures
        step(mode, n, i, fwd).0 < n,
{
}

/// Whatever the mode, the index stays a valid frame index at every tick.
pub proof fn lemma_run_in_range(mode: Mode, n: nat, t: nat)
    requires
        n >= 1,
    ensures
        run(mode, n, t).0 < n,
    decreases t,
{
    if t > 0 {
        lemma_run_in_range(mode, n, (t - 1) as nat);
        let prev = run(mode, n, (t - 1) as nat);
        lemma_step_in_range(mode, n, prev.0, prev.1);
    }
}

/// In wrap mode, after `t` ticks from the start the index is `t mod n`.
pub proof fn lemma_wrap_index(n: nat, t: nat)
    requires
        n >= 1,
    ensures
        run(Mode::Wrap, n, t) == ((((t as int) % (n as int))) as nat, true),
    decreases t,
{
    if t == 0 {
        vstd::arithmetic::div_mod::lemma_small_mod(0, n);
    } else {
        lemma_wrap_index(n, (t - 1) as nat);
        if n == 1 {
            assert(((t - 1) as int) % 1 == 0);
            assert((t as int) % 1 == 0);
            assert((((t - 1) as int) % 1 + 1) % 1 == 0);
        } else {
            lemma_add_mod_noop((t - 1) as int, 1, n as int);
            vstd::arithmetic::div_mod::lemma_small_mod(1, n);
            assert((((t - 1) as int) % (n as int) + 1) % (n as int) == (t as int) % (n as int));
        }
        let prev = run(Mode::Wrap, n, (t - 1) as nat);
        assert(prev.0 == ((t - 1) as int) % (n as int));
        assert(run(Mode::Wrap, n, t) == step(Mode::Wrap, n, prev.0, prev.1));
    }
}

/// Ping-pong state over one period: up from 0 to `n - 1`, then down to 0.
pub open spec fn ping_pong_at(n: nat, t: nat) -> (nat, bool) {
    if t + 1 < n {
        (t, true)
    } else if t + 1 == n {
        ((n - 1) as nat, false)
    } else if t < 2 * (n - 1) {
        ((2 * (n - 1) - t) as nat, false)
    } else {
        (0, true)
    }
}

proof fn lemma_ping_pong_period(n: nat, t: nat)
    requires
        n >= 2,
        t <= 2 * (n - 1),
    ensures
        run(Mode::PingPong, n, t) == ping_pong_at(n, t),
    decreases t,
{
    if t > 0 {
        lemma_ping_pong_period(n, (t - 1) as nat);
    }
}

proof fn lemma_ping_pong_shift(n: nat, t: nat)
    requires
        n >= 2,
    ensures
        run(Mode::PingPong, n, (t + 2 * (n - 1)) as nat) == run(Mode::PingPong, n, t),
    decreases t,
{
    if t == 0 {
        lemma_ping_pong_period(n, (2 * (n - 1)) as nat);
    } else {
        lemma_ping_pong_shift(n, (t - 1) as nat);
        assert((t + 2 * (n - 1)) - 1 == (t - 1) + 2 * (n - 1));
    }
}

/// In ping-pong mode with at least two frames, the state first comes back to
/// index 0 moving forward after exactly `2 * (n - 1)` ticks, and from then on
/// repeats with that period; at every tick the index is a valid frame index.
pub proof fn lemma_ping_pong_round_trip(n: nat, t: nat)
    requires
        n >= 2,
    ensures
        run(Mode::PingPong, n, (2 * (n - 1)) as nat) == (0nat, true),
        0 < t < 2 * (n - 1) ==> run(Mode::PingPong, n, t) != (0nat, true),
        run(Mode::PingPong, n, (t + 2 * (n - 1)) as nat) == run(Mode::PingPong, n, t),
        run(Mode::PingPong, n, t).0 < n,
{
    lemma_ping_pong_period(n, (2 * (n - 1)) as nat);
    if t < 2 * (n - 1) {
        lemma_ping_pong_period(n, t);
    }
    lemma_ping_pong_shift(n, t);
    lemma_run_in_range(Mode::PingPong, n, t);
}

} // verus!
