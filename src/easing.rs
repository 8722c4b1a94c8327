//! Easing curves on fixed-point progress.
//!
//! Progress is an integer in `0..=PROGRESS_ONE`, where `PROGRESS_ONE` stands
//! for a complete animation. Every curve maps that range onto itself, sends
//! `0` to `0` and `PROGRESS_ONE` to `PROGRESS_ONE`, and rounds down.

use vstd::prelude::*;

verus! {

/// Fixed-point value of a complete progress (1.0).
pub const PROGRESS_ONE: u64 = 1000000;

/// `x` raised to the power `n`.
pub open spec fn power(x: int, n: nat) -> int
    decreases n,
{
    if n == 0 {
        1
    } else {
        x * power(x, (n - 1) as nat)
    }
}

/// The shape of an easing curve.
#[derive(Clone, Copy, Debug, PartialEq, Eq, Structural)]
pub enum Easing {
    Linear,
    InQuad,
    OutQuad,
    InOutQuad,
    InCubic,
    OutCubic,
    InOutCubic,
    InQuart,
    OutQuart,
    InOutQuart,
    InQuint,
    OutQuint,
    InOutQuint,
}

/// Which end of the curve bends.
pub enum Bend {
    Flat,
    In,
    Out,
    InOut,
}

impl Easing {
    /// Degree of the polynomial behind the curve.
    pub open spec fn degree(self) -> nat {
        match self {
            Easing::Linear => 1,
            Easing::InQuad | Easing::OutQuad | Easing::InOutQuad => 2,
            Easing::InCubic | Easing::OutCubic | Easing::InOutCubic => 3,
            Easing::InQuart | Easing::OutQuart | Easing::InOutQuart => 4,
            _ => 5,
        }
    }

    pub open spec fn bend(self) -> Bend {
        match self {
            Easing::Linear => Bend::Flat,
            Easing::InQuad | Easing::InCubic | Easing::InQuart | Easing::InQuint => Bend::In,
            Easing::OutQuad | Easing::OutCubic | Easing::OutQuart | Easing::OutQuint => Bend::Out,
            _ => Bend::InOut,
        }
    }

    /// The curve at `t`: `t^n` for "in", `1 - (1 - t)^n` for "out", and for
    /// "in-out" `2^(n-1) t^n` below the midpoint and `1 - 2^(n-1) (1 - t)^n`
    /// from it on, all scaled to `PROGRESS_ONE` and rounded down.
    pub open spec fn curve(self, t: int) -> int {
        let n = self.degree();
        let one = PROGRESS_ONE as int;
        match self.bend() {
            Bend::Flat => t,
            Bend::In => scaled_power(t, n),
            Bend::Out => one - scaled_power(one - t, n),
            Bend::InOut => if 2 * t < one {
                half_scaled_power(2 * t, n)
            } else {
                one - half_scaled_power(2 * (one - t), n)
            },
        }
    }
}

/// `x^n / ONE^(n-1)`, rounded down: `(x / ONE)^n` in fixed point.
pub open spec fn scaled_power(x: int, n: nat) -> int {
    power(x, n) / power(PROGRESS_ONE as int, (n - 1) as nat)
}

/// `x^n / (2 ONE^(n-1))`, rounded down: half of `(x / ONE)^n` in fixed point.
pub open spec fn half_scaled_power(x: int, n: nat) -> int {
    power(x, n) / (2 * power(PROGRESS_ONE as int, (n - 1) as nat))
}

proof fn lemma_power_bounds(x: int, n: nat)
    requires
        0 <= x <= PROGRESS_ONE,
        1 <= n,
    ensures
        0 <= power(x, n) <= x * power(PROGRESS_ONE as int, (n - 1) as nat),
        0 < power(PROGRESS_ONE as int, (n - 1) as nat),
    decreases n,
{
    let one = PROGRESS_ONE as int;
    assert(power(x, 1) == x * power(x, 0));
    assert(power(one, 0) == 1);
    if n > 1 {
        lemma_power_bounds(x, (n - 1) as nat);
        let p = power(x, (n - 1) as nat);
        let q = power(one, (n - 2) as nat);
        assert(power(x, n) == x * p);
        assert(power(one, (n - 1) as nat) == one * q);
        assert(0 <= x * p <= x * (x * q)) by (nonlinear_arith)
            requires 0 <= x, 0 <= p <= x * q;
        assert(x * (x * q) <= x * (one * q)) by (nonlinear_arith)
            requires 0 <= x <= one, 0 < q;
        assert(0 < one * q) by (nonlinear_arith)
            requires 0 < one, 0 < q;
    }
}

proof fn lemma_power_of_one_bounded(n: nat)
    requires
        n <= 5,
    ensures
        0 < power(PROGRESS_ONE as int, n) <= 1000000000000000000000000000000,
{
    let one = PROGRESS_ONE as int;
    assert(power(one, 0) == 1);
    assert(power(one, 1) == one * power(one, 0));
    assert(power(one, 2) == one * power(one, 1));
    assert(power(one, 3) == one * power(one, 2));
    assert(power(one, 4) == one * power(one, 3));
    assert(power(one, 5) == one * power(one, 4));
}

proof fn lemma_scaled_power_bounds(x: int, n: nat)
    requires
        0 <= x <= PROGRESS_ONE,
        1 <= n,
    ensures
        0 <= scaled_power(x, n) <= x,
        0 <= half_scaled_power(x, n) <= x,
{
    lemma_power_bounds(x, n);
    let p = power(x, n);
    let d = power(PROGRESS_ONE as int, (n - 1) as nat);
    assert(0 <= p / d <= x) by (nonlinear_arith)
        requires 0 <= p <= x * d, 0 < d;
    assert(0 <= p / (2 * d) <= x) by (nonlinear_arith)
        requires 0 <= p <= x * d, 0 < d;
}

/// Every curve keeps progress within `0..=PROGRESS_ONE` and fixes both ends.
pub proof fn lemma_curve_bounds(e: Easing, t: int)
    requires
        0 <= t <= PROGRESS_ONE,
    ensures
        0 <= e.curve(t) <= PROGRESS_ONE,
        e.curve(0) == 0,
        e.curve(PROGRESS_ONE as int) == PROGRESS_ONE,
{
    let one = PROGRESS_ONE as int;
    let n = e.degree();
    lemma_scaled_power_bounds(t, n);
    lemma_scaled_power_bounds(one - t, n);
    lemma_scaled_power_bounds(0, n);
    if 2 * t < one {
        lemma_scaled_power_bounds(2 * t, n);
    } else {
        lemma_scaled_power_bounds(2 * (one - t), n);
    }
    lemma_scaled_power_bounds(one, n);
    lemma_power_bounds(one, n);
    lemma_power_bounds(0, n);
    assert(power(one, n) == one * power(one, (n - 1) as nat));
    let d = power(one, (n - 1) as nat);
    assert((one * d) / d == one) by (nonlinear_arith)
        requires 0 < d;
    assert(power(0, n) == 0);
}

/// `x^n`, for `x <= PROGRESS_ONE` and `n <= 5`.
fn power_u128(x: u64, n: u32) -> (r: u128)
    requires
        x <= PROGRESS_ONE,
        n <= 5,
    ensures
        r == power(x as int, n as nat),
{
    let mut acc: u128 = 1;
    let mut i: u32 = 0;
    while i < n
        invariant
            x <= PROGRESS_ONE,
            i <= n <= 5,
            acc == power(x as int, i as nat),
            acc <= power(PROGRESS_ONE as int, i as nat),
        decreases n - i,
    {
        proof {
            lemma_power_of_one_bounded((i + 1) as nat);
            let a = acc as int;
            let b = power(PROGRESS_ONE as int, i as nat);
            assert(a * x <= b * PROGRESS_ONE) by (nonlinear_arith)
                requires 0 <= a <= b, 0 <= x <= PROGRESS_ONE;
            assert(power(PROGRESS_ONE as int, (i + 1) as nat) == PROGRESS_ONE * b);
            assert(power(x as int, (i + 1) as nat) == x * a);
            assert(a * x == x * a) by (nonlinear_arith);
        }
        acc = acc * (x as u128);
        i = i + 1;
    }
    acc
}

impl Easing {
    pub fn degree_exec(self) -> (n: u32)
        ensures
            n == self.degree(),
    {
        match self {
            Easing::Linear => 1,
            Easing::InQuad | Easing::OutQuad | Easing::InOutQuad => 2,
            Easing::InCubic | Easing::OutCubic | Easing::InOutCubic => 3,
            Easing::InQuart | Easing::OutQuart | Easing::InOutQuart => 4,
            _ => 5,
        }
    }

    /// Applies the curve to a progress `t` in `0..=PROGRESS_ONE`.
    pub fn apply(self, t: u64) -> (r: u64)
        requires
            t <= PROGRESS_ONE,
        ensures
            r == self.curve(t as int),
            r <= PROGRESS_ONE,
    {
        proof {
            lemma_curve_bounds(self, t as int);
        }
        let n = self.degree_exec();
        match self {
            Easing::Linear => t,
            Easing::InQuad | Easing::InCubic | Easing::InQuart | Easing::InQuint => {
                scaled_power_exec(t, n)
            },
            Easing::OutQuad | Easing::OutCubic | Easing::OutQuart | Easing::OutQuint => {
                PROGRESS_ONE - scaled_power_exec(PROGRESS_ONE - t, n)
            },
            _ => {
                if 2 * t < PROGRESS_ONE {
                    half_scaled_power_exec(2 * t, n)
                } else {
                    PROGRESS_ONE - half_scaled_power_exec(2 * (PROGRESS_ONE - t), n)
                }
            },
        }
    }
}

fn scaled_power_exec(x: u64, n: u32) -> (r: u64)
    requires
        x <= PROGRESS_ONE,
        1 <= n <= 5,
    ensures
        r == scaled_power(x as int, n as nat),
{
    proof {
        lemma_scaled_power_bounds(x as int, n as nat);
        lemma_power_bounds(x as int, n as nat);
    }
    let p = power_u128(x, n);
    let d = power_u128(PROGRESS_ONE, n - 1);
    (p / d) as u64
}

fn half_scaled_power_exec(x: u64, n: u32) -> (r: u64)
    requires
        x <= PROGRESS_ONE,
        1 <= n <= 5,
    ensures
        r == half_scaled_power(x as int, n as nat),
{
    proof {
        lemma_scaled_power_bounds(x as int, n as nat);
        lemma_power_bounds(x as int, n as nat);
        lemma_power_of_one_bounded((n - 1) as nat);
    }
    let p = power_u128(x, n);
    let d = power_u128(PROGRESS_ONE, n - 1);
    (p / (2 * d)) as u64
}

} // verus!
