//! Single-frequency Goertzel energy estimator in Q15 fixed point, with a
//! power-of-two rescale that keeps the history within range.
use vstd::prelude::*;
use vstd::arithmetic::div_mod::{lemma_fundamental_div_mod, lemma_div_multiples_vanish_fancy};

verus! {

/// Number of samples in one detection block.
pub const BLOCK_LEN: u32 = 102;

/// Largest coefficient magnitude accepted (just below 2.0 in Q15).
pub const MAX_COEFF: i32 = 65535;

/// Energies are held in `[-ENERGY_CAP, ENERGY_CAP]`; any value beyond is clamped.
pub const ENERGY_CAP: i128 = 0x10_0000_0000_0000_0000_0000_0000;

/// Arithmetic shift right by `k`: `k` floor halvings.
pub open spec fn asr(x: int, k: nat) -> int
    decreases k,
{
    if k == 0 {
        x
    } else {
        asr(x, (k - 1) as nat) / 2
    }
}

/// `x * 4^k`.
pub open spec fn times_pow4(x: int, k: nat) -> int
    decreases k,
{
    if k == 0 {
        x
    } else {
        times_pow4(4 * x, (k - 1) as nat)
    }
}

pub open spec fn clamp_energy(x: int) -> int {
    if x > ENERGY_CAP {
        ENERGY_CAP as int
    } else if x < -ENERGY_CAP {
        -ENERGY_CAP
    } else {
        x
    }
}

/// Saturation level of the filter history. Within one block of full-scale
/// input the recurrence stays far below it; it only bounds the arithmetic.
pub const HISTORY_LIMIT: i64 = 0x100_0000_0000;

pub open spec fn saturate(x: int) -> int {
    if x > HISTORY_LIMIT {
        HISTORY_LIMIT as int
    } else if x < -HISTORY_LIMIT {
        -HISTORY_LIMIT
    } else {
        x
    }
}

/// State of one Goertzel filter.
#[derive(Clone, Copy)]
pub struct GoertzelState {
    /// The value before the last one.
    pub v2: i64,
    /// The last value.
    pub v3: i64,
    /// Power-of-two exponent of the scale of `v2` and `v3`.
    pub chunky: u32,
    /// Coefficient `2 * cos(2 * pi * freq / rate)` in Q15.
    pub fac: i32,
}

impl GoertzelState {
    /// Well-formed after `n` samples of the current block.
    pub open spec fn wf(self, n: int) -> bool {
        &&& -MAX_COEFF <= self.fac <= MAX_COEFF
        &&& self.chunky <= n
        &&& -HISTORY_LIMIT <= self.v2 <= HISTORY_LIMIT
        &&& -HISTORY_LIMIT <= self.v3 <= HISTORY_LIMIT
    }

    /// The recurrence for one sample.
    pub open spec fn step(self, sample: i16) -> GoertzelState {
        let v1 = self.v2 as int;
        let b = self.v3 as int;
        let d = (self.fac as int * b) / 32768 - v1 + asr(sample as int, self.chunky as nat);
        if d > 32768 || d < -32768 {
            GoertzelState {
                v2: (b / 2) as i64,
                v3: saturate(d / 2) as i64,
                chunky: (self.chunky + 1) as u32,
                fac: self.fac,
            }
        } else {
            GoertzelState { v2: b as i64, v3: d as i64, chunky: self.chunky, fac: self.fac }
        }
    }

    /// The unscaled energy estimate.
    pub open spec fn raw_energy(self) -> int {
        let a = self.v2 as int;
        let b = self.v3 as int;
        b * b + a * a - ((a * b) / 32768) * self.fac as int
    }

    /// The energy estimate `raw * 4^chunky`, clamped to the representable range.
    pub open spec fn energy(self) -> int {
        clamp_energy(times_pow4(self.raw_energy(), self.chunky as nat))
    }

    /// The same filter with its history cleared.
    pub open spec fn cleared(self) -> GoertzelState {
        GoertzelState { v2: 0, v3: 0, chunky: 0, fac: self.fac }
    }

    /// A filter with coefficient `fac` and empty history.
    pub fn new(fac: i32) -> (r: Self)
        requires
            -MAX_COEFF <= fac <= MAX_COEFF,
        ensures
            r == (GoertzelState { v2: 0, v3: 0, chunky: 0, fac }),
            r.wf(0),
    {
        GoertzelState { v2: 0, v3: 0, chunky: 0, fac }
    }

    /// Clears the history; the coefficient is kept.
    pub fn reset(&mut self)
        ensures
            *final(self) == old(self).cleared(),
            -MAX_COEFF <= old(self).fac <= MAX_COEFF ==> final(self).wf(0),
    {
        self.v2 = 0;
        self.v3 = 0;
        self.chunky = 0;
    }

    /// Feeds one sample.
    pub fn sample(&mut self, sample: i16, n: u32)
        requires
            old(self).wf(n as int),
            n < BLOCK_LEN,
        ensures
            *final(self) == old(self).step(sample),
            final(self).wf(n + 1),
    {
        let a = self.v2;
        let b = self.v3;
        assert(-0x1000_0000_0000_0000 <= self.fac * b <= 0x1000_0000_0000_0000) by (nonlinear_arith)
            requires -65535 <= self.fac <= 65535, -0x100_0000_0000 <= b <= 0x100_0000_0000;
        let p = floor_div(self.fac as i64 * b, 32768);
        let t = shift_sample(sample, self.chunky);
        let d = p - a + t;
        if d > 32768 || d < -32768 {
            let d2 = floor_div(d, 2);
            self.v2 = floor_div(b, 2);
            self.v3 = if d2 > HISTORY_LIMIT {
                HISTORY_LIMIT
            } else if d2 < -HISTORY_LIMIT {
                -HISTORY_LIMIT
            } else {
                d2
            };
            self.chunky = self.chunky + 1;
        } else {
            self.v2 = b;
            self.v3 = d;
        }
    }

    /// The energy estimate of the samples fed since the last reset.
    pub fn result(&self, n: u32) -> (r: i128)
        requires
            self.wf(n as int),
            n <= BLOCK_LEN,
        ensures
            r as int == self.energy(),
    {
        let a = self.v2 as i128;
        let b = self.v3 as i128;
        assert(-0x1_0000_0000_0000_0000_0000 <= a * b <= 0x1_0000_0000_0000_0000_0000) by (nonlinear_arith)
            requires -0x100_0000_0000 <= a <= 0x100_0000_0000, -0x100_0000_0000 <= b <= 0x100_0000_0000;
        assert(0 <= a * a <= 0x1_0000_0000_0000_0000_0000) by (nonlinear_arith)
            requires -0x100_0000_0000 <= a <= 0x100_0000_0000;
        assert(0 <= b * b <= 0x1_0000_0000_0000_0000_0000) by (nonlinear_arith)
            requires -0x100_0000_0000 <= b <= 0x100_0000_0000;
        let q = floor_div_wide(a * b, 32768);
        assert(-0x4_0000_0000_0000_0000 <= q <= 0x4_0000_0000_0000_0000);
        assert(-0x10_0000_0000_0000_0000_0000 <= q * self.fac <= 0x10_0000_0000_0000_0000_0000) by (nonlinear_arith)
            requires -0x4_0000_0000_0000_0000 <= q <= 0x4_0000_0000_0000_0000, -65535 <= self.fac <= 65535;
        let raw = b * b + a * a - q * self.fac as i128;
        let mut x: i128 = raw;
        let mut k: u32 = self.chunky;
        while k > 0 && -ENERGY_CAP <= x && x <= ENERGY_CAP
            invariant
                times_pow4(x as int, k as nat) == times_pow4(raw as int, self.chunky as nat),
            decreases k,
        {
            x = 4 * x;
            k = k - 1;
        }
        if k > 0 {
            proof { lemma_pow4_beyond(x as int, k as nat); }
        }
        if x > ENERGY_CAP {
            ENERGY_CAP
        } else if x < -ENERGY_CAP {
            -ENERGY_CAP
        } else {
            x
        }
    }
}

/// Floor division by a positive divisor.
pub fn floor_div(x: i64, d: i64) -> (r: i64)
    requires
        d > 0,
        -0x1000_0000_0000_0000 <= x <= 0x1000_0000_0000_0000,
        d <= 0x1_0000_0000,
    ensures
        r as int == x as int / d as int,
        d * r <= x < d * r + d,
{
    proof { lemma_fundamental_div_mod(x as int, d as int); }
    if x >= 0 {
        ((x as u64) / (d as u64)) as i64
    } else {
        let q = ((0 - x) as u64 + (d as u64 - 1)) / (d as u64);
        proof {
            let qq = x as int / d as int;
            let m = x as int % d as int;
            lemma_fundamental_div_mod(x as int, d as int);
            assert(-x + d - 1 == d * (-qq) + (d - 1 - m)) by (nonlinear_arith)
                requires x == d * qq + m;
            lemma_div_multiples_vanish_fancy(-qq, d - 1 - m, d as int);
        }
        0 - (q as i64)
    }
}

/// Floor division by a positive divisor, on wide values.
pub fn floor_div_wide(x: i128, d: i128) -> (r: i128)
    requires
        d > 0,
        -0x1_0000_0000_0000_0000_0000 <= x <= 0x1_0000_0000_0000_0000_0000,
        d <= 0x1_0000_0000,
    ensures
        r as int == x as int / d as int,
        d * r <= x < d * r + d,
{
    proof { lemma_fundamental_div_mod(x as int, d as int); }
    if x >= 0 {
        ((x as u128) / (d as u128)) as i128
    } else {
        let q = ((0 - x) as u128 + (d as u128 - 1)) / (d as u128);
        proof {
            let qq = x as int / d as int;
            let m = x as int % d as int;
            lemma_fundamental_div_mod(x as int, d as int);
            assert(-x + d - 1 == d * (-qq) + (d - 1 - m)) by (nonlinear_arith)
                requires x == d * qq + m;
            lemma_div_multiples_vanish_fancy(-qq, d - 1 - m, d as int);
        }
        0 - (q as i128)
    }
}

/// `sample >> chunky`, for any `chunky`.
pub fn shift_sample(sample: i16, chunky: u32) -> (r: i64)
    ensures
        r as int == asr(sample as int, chunky as nat),
        -32768 <= r <= 32767,
{
    let mut t: i64 = sample as i64;
    let mut k: u32 = 0;
    while k < chunky
        invariant
            k <= chunky,
            t as int == asr(sample as int, k as nat),
            -32768 <= t <= 32767,
        decreases chunky - k,
    {
        t = floor_div(t, 2);
        k = k + 1;
    }
    t
}

/// Once beyond the cap, further scaling by four stays beyond it, with the same sign.
proof fn lemma_pow4_beyond(x: int, k: nat)
    requires
        x > ENERGY_CAP || x < -ENERGY_CAP,
    ensures
        x > ENERGY_CAP ==> times_pow4(x, k) > ENERGY_CAP,
        x < -ENERGY_CAP ==> times_pow4(x, k) < -ENERGY_CAP,
    decreases k,
{
    if k > 0 {
        lemma_pow4_beyond(4 * x, (k - 1) as nat);
    }
}

} // verus!
