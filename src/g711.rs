//! G.711 companding: 16-bit linear PCM to and from 8-bit A-law and mu-law codes.
use vstd::prelude::*;
use vstd::arithmetic::power2::{pow2, lemma2_to64, lemma_pow2_unfold, lemma_pow2_strictly_increases};

verus! {

/// Bitwise complement of a 16-bit value, `!x`.
pub open spec fn not16(x: int) -> int {
    -x - 1
}

/// A-law: halve `ix` until it is below 32, counting the halvings from `iexp`.
pub open spec fn alaw_normalize(ix: int, iexp: int) -> (int, int)
    decreases ix,
{
    if ix > 31 {
        alaw_normalize(ix / 2, iexp + 1)
    } else {
        (ix, iexp)
    }
}

/// The A-law code of one linear sample (the low eight bits hold it).
pub open spec fn alaw_code(x: i16) -> i16 {
    let mag = if x < 0 { not16(x as int) / 16 } else { x as int / 16 };
    let ix = if mag > 15 {
        let (m, e) = alaw_normalize(mag, 1);
        m - 16 + e * 16
    } else {
        mag
    };
    let signed = if x >= 0 { ix + 128 } else { ix };
    ((signed as u8) ^ 0x55u8) as i16
}

/// The linear sample of one A-law code.
pub open spec fn alaw_linear(code: i16) -> i16 {
    let ix = (((code as int % 256) as u8 ^ 0x55u8) as int) % 128;
    let iexp = ix / 16;
    let m0 = ix % 16;
    let m1 = if iexp > 0 { m0 + 16 } else { m0 };
    let m2 = m1 * 16 + 8;
    let mant = if iexp > 1 { m2 * pow2((iexp - 1) as nat) } else { m2 };
    if code > 127 { mant as i16 } else { not16(mant) as i16 }
}

/// mu-law: the segment number, one more than the halvings that empty `i`.
pub open spec fn ulaw_segment(i: int, segno: int) -> int
    decreases i,
{
    if i > 0 {
        ulaw_segment(i / 2, segno + 1)
    } else {
        segno
    }
}

/// The mu-law code of one linear sample.
pub open spec fn ulaw_code(x: i16) -> i16 {
    let a0 = if x < 0 { not16(x as int) / 4 + 33 } else { x as int / 4 + 33 };
    let absno = if a0 > 0x1FFF { 0x1FFF } else { a0 };
    let segno = ulaw_segment(absno / 64, 1);
    let high = 8 - segno;
    let low = 15 - (absno / pow2(segno as nat) as int) % 16;
    let code = high * 16 + low;
    (if x >= 0 { code + 128 } else { code }) as i16
}

/// The linear sample of one mu-law code.
pub open spec fn ulaw_linear(code: i16) -> i16 {
    let sign: int = if code > 0x80 { -1 } else { 1 };
    let mantissa = not16(code as int);
    let exponent = (mantissa / 16) % 8;
    let step = 4 * pow2((exponent + 1) as nat) as int;
    let m = mantissa % 16;
    (sign * (128 * pow2(exponent as nat) as int + step * m + step / 2 - 4 * 33)) as i16
}

/// `2^k` for small `k`.
fn pow2_small(k: u32) -> (r: i32)
    requires
        k <= 14,
    ensures
        r as int == pow2(k as nat),
        1 <= r <= 16384,
{
    let mut r: i32 = 1;
    let mut i: u32 = 0;
    proof { lemma2_to64(); }
    while i < k
        invariant
            i <= k <= 14,
            r as int == pow2(i as nat),
            1 <= r <= 16384,
        decreases k - i,
    {
        proof {
            lemma2_to64();
            lemma_pow2_unfold((i + 1) as nat);
            if i + 1 < 14 {
                lemma_pow2_strictly_increases((i + 1) as nat, 14);
            }
        }
        r = r * 2;
        i = i + 1;
    }
    r
}

/// The A-law code of one sample.
pub fn alaw_compress_sample(x: i16) -> (r: i16)
    ensures
        r == alaw_code(x),
{
    let mag: i32 = if x < 0 { ((-(x as i32) - 1) as u32 / 16) as i32 } else { (x as u32 / 16) as i32 };
    let mut ix: i32 = mag;
    if mag > 15 {
        let mut m: i32 = mag;
        let mut e: i32 = 1;
        let mut p: i32 = 1;
        proof { lemma2_to64(); }
        while m > 31
            invariant
                alaw_normalize(m as int, e as int) == alaw_normalize(mag as int, 1),
                16 <= m,
                1 <= e <= 8,
                p as int == pow2((e - 1) as nat),
                1 <= p,
                m * p <= 2047,
            decreases m,
        {
            let half = m / 2;
            assert(half * (2 * p) <= m * p) by (nonlinear_arith)
                requires half == m / 2, p >= 1, m >= 0;
            proof {
                lemma2_to64();
                lemma_pow2_unfold(e as nat);
                if e >= 9 {
                    lemma_pow2_strictly_increases(7, (e - 1) as nat);
                }
                assert(m * p >= 32 * p) by (nonlinear_arith) requires m > 31, p >= 1;
                assert(e <= 7);
            }
            m = half;
            e = e + 1;
            p = 2 * p;
        }
        proof {
            lemma2_to64();
            if e >= 9 {
                lemma_pow2_strictly_increases(7, (e - 1) as nat);
            }
            if e == 8 {
                assert(16 * p <= m * p) by (nonlinear_arith) requires m >= 16, p >= 1;
            }
        }
        ix = m - 16 + e * 16;
    }
    let signed: i32 = if x >= 0 { ix + 128 } else { ix };
    ((signed as u8) ^ 0x55u8) as i16
}

/// The linear sample of one A-law code.
pub fn alaw_expand_sample(code: i16) -> (r: i16)
    ensures
        r == alaw_linear(code),
{
    let low: u8 = ((code as i32 + 65536) as u32 % 256) as u8;
    assert(low as int == code as int % 256);
    let ix: i32 = ((low ^ 0x55u8) as i32) % 128;
    let iexp: i32 = ix / 16;
    let m0: i32 = ix % 16;
    let m1: i32 = if iexp > 0 { m0 + 16 } else { m0 };
    let m2: i32 = m1 * 16 + 8;
    let mant: i32 = if iexp > 1 {
        let p = pow2_small((iexp - 1) as u32);
        proof {
            lemma2_to64();
            if iexp - 1 < 6 {
                lemma_pow2_strictly_increases((iexp - 1) as nat, 6);
            }
        }
        assert(m2 * p <= 504 * 64) by (nonlinear_arith)
            requires 0 <= m2 <= 504, 1 <= p <= 64;
        m2 * p
    } else {
        m2
    };
    if code > 127 {
        mant as i16
    } else {
        (-mant - 1) as i16
    }
}

/// The mu-law code of one sample.
pub fn ulaw_compress_sample(x: i16) -> (r: i16)
    ensures
        r == ulaw_code(x),
{
    let a0: i32 = if x < 0 {
        ((-(x as i32) - 1) as u32 / 4) as i32 + 33
    } else {
        (x as u32 / 4) as i32 + 33
    };
    let absno: i32 = if a0 > 0x1FFF { 0x1FFF } else { a0 };
    let mut i: i32 = absno / 64;
    let mut segno: i32 = 1;
    let mut p: i32 = 1;
    proof { lemma2_to64(); }
    while i > 0
        invariant
            ulaw_segment(i as int, segno as int) == ulaw_segment(absno / 64, 1),
            0 <= i,
            1 <= segno <= 8,
            p as int == pow2((segno - 1) as nat),
            1 <= p,
            i > 0 ==> i * p <= 127,
        decreases i,
    {
        proof {
            lemma2_to64();
            lemma_pow2_unfold(segno as nat);
            if segno >= 8 {
                lemma_pow2_strictly_increases(6, (segno - 1) as nat);
            }
            assert(i * p >= p) by (nonlinear_arith) requires i >= 1, p >= 1;
            assert((i / 2) * (2 * p) <= i * p) by (nonlinear_arith) requires i >= 0, p >= 1;
        }
        i = i / 2;
        segno = segno + 1;
        p = 2 * p;
    }
    let d = pow2_small(segno as u32);
    let low: i32 = 15 - (absno / d) % 16;
    let code: i32 = (8 - segno) * 16 + low;
    if x >= 0 {
        (code + 128) as i16
    } else {
        code as i16
    }
}

/// The linear sample of one mu-law code.
pub fn ulaw_expand_sample(code: i16) -> (r: i16)
    ensures
        r == ulaw_linear(code),
{
    let sign: i32 = if code > 0x80 { -1 } else { 1 };
    let mantissa: i32 = -(code as i32) - 1;
    let shifted: u32 = (mantissa + 65536) as u32;
    let exponent: i32 = ((shifted / 16) % 8) as i32;
    let m: i32 = (shifted % 16) as i32;
    assert(exponent as int == (mantissa as int / 16) % 8);
    assert(m as int == mantissa as int % 16);
    let step: i32 = 4 * pow2_small((exponent + 1) as u32);
    let base: i32 = 128 * pow2_small(exponent as u32);
    proof {
        lemma2_to64();
        if exponent + 1 < 8 {
            lemma_pow2_strictly_increases((exponent + 1) as nat, 8);
        }
        if exponent < 7 {
            lemma_pow2_strictly_increases(exponent as nat, 7);
        }
    }
    assert(step * m <= 1024 * 15) by (nonlinear_arith)
        requires 0 <= step <= 1024, 0 <= m <= 15;
    assert(step * m >= 0) by (nonlinear_arith)
        requires 0 <= step, 0 <= m;
    (sign * (base + step * m + step / 2 - 4 * 33)) as i16
}

/// Encodes the first `lseg` samples of `linbuf` to A-law into `logbuf`.
pub fn alaw_compress(lseg: i32, linbuf: &mut [i16], logbuf: &mut [i16])
    requires
        0 <= lseg,
        lseg <= old(linbuf)@.len(),
        lseg <= old(logbuf)@.len(),
    ensures
        final(linbuf)@ == old(linbuf)@,
        final(logbuf)@.len() == old(logbuf)@.len(),
        forall|i: int| 0 <= i < lseg ==> final(logbuf)@[i] == alaw_code(old(linbuf)@[i]),
        forall|i: int| lseg <= i < old(logbuf)@.len() ==> final(logbuf)@[i] == old(logbuf)@[i],
{
    let n = lseg as usize;
    let mut k: usize = 0;
    while k < n
        invariant
            n == lseg,
            k <= n,
            n <= linbuf@.len(),
            linbuf@ == old(linbuf)@,
            logbuf@.len() == old(logbuf)@.len(),
            n <= logbuf@.len(),
            forall|i: int| 0 <= i < k ==> logbuf@[i] == alaw_code(old(linbuf)@[i]),
            forall|i: int| k <= i < old(logbuf)@.len() ==> logbuf@[i] == old(logbuf)@[i],
        decreases n - k,
    {
        logbuf[k] = alaw_compress_sample(linbuf[k]);
        k = k + 1;
    }
}

/// Decodes the first `lseg` A-law codes of `logbuf` into `linbuf`; nothing
/// when `lseg` is not positive.
pub fn alaw_expand(lseg: i32, logbuf: &mut [i16], linbuf: &mut [i16])
    requires
        lseg <= old(logbuf)@.len(),
        lseg <= old(linbuf)@.len(),
    ensures
        final(logbuf)@ == old(logbuf)@,
        final(linbuf)@.len() == old(linbuf)@.len(),
        forall|i: int| 0 <= i < lseg ==> final(linbuf)@[i] == alaw_linear(old(logbuf)@[i]),
        forall|i: int| lseg <= i < old(linbuf)@.len() && 0 <= i ==> final(linbuf)@[i] == old(linbuf)@[i],
{
    let n: usize = if lseg < 0 { 0 } else { lseg as usize };
    let mut k: usize = 0;
    while k < n
        invariant
            k <= n,
            n <= logbuf@.len(),
            n <= linbuf@.len(),
            lseg <= 0 ==> n == 0,
            lseg > 0 ==> n == lseg,
            logbuf@ == old(logbuf)@,
            linbuf@.len() == old(linbuf)@.len(),
            forall|i: int| 0 <= i < k ==> linbuf@[i] == alaw_linear(old(logbuf)@[i]),
            forall|i: int| k <= i < old(linbuf)@.len() ==> linbuf@[i] == old(linbuf)@[i],
        decreases n - k,
    {
        linbuf[k] = alaw_expand_sample(logbuf[k]);
        k = k + 1;
    }
}

/// Encodes the first `lseg` samples of `linbuf` to mu-law into `logbuf`;
/// nothing when `lseg` is not positive.
pub fn ulaw_compress(lseg: i32, linbuf: &mut [i16], logbuf: &mut [i16])
    requires
        lseg <= old(linbuf)@.len(),
        lseg <= old(logbuf)@.len(),
    ensures
        final(linbuf)@ == old(linbuf)@,
        final(logbuf)@.len() == old(logbuf)@.len(),
        forall|i: int| 0 <= i < lseg ==> final(logbuf)@[i] == ulaw_code(old(linbuf)@[i]),
        forall|i: int| lseg <= i < old(logbuf)@.len() && 0 <= i ==> final(logbuf)@[i] == old(logbuf)@[i],
{
    let n: usize = if lseg < 0 { 0 } else { lseg as usize };
    let mut k: usize = 0;
    while k < n
        invariant
            k <= n,
            n <= linbuf@.len(),
            n <= logbuf@.len(),
            lseg <= 0 ==> n == 0,
            lseg > 0 ==> n == lseg,
            linbuf@ == old(linbuf)@,
            logbuf@.len() == old(logbuf)@.len(),
            forall|i: int| 0 <= i < k ==> logbuf@[i] == ulaw_code(old(linbuf)@[i]),
            forall|i: int| k <= i < old(logbuf)@.len() ==> logbuf@[i] == old(logbuf)@[i],
        decreases n - k,
    {
        logbuf[k] = ulaw_compress_sample(linbuf[k]);
        k = k + 1;
    }
}

/// Decodes the first `lseg` mu-law codes of `logbuf` into `linbuf`.
pub fn ulaw_expand(lseg: u32, logbuf: &mut [i16], linbuf: &mut [i16])
    requires
        lseg <= old(logbuf)@.len(),
        lseg <= old(linbuf)@.len(),
    ensures
        final(logbuf)@ == old(logbuf)@,
        final(linbuf)@.len() == old(linbuf)@.len(),
        forall|i: int| 0 <= i < lseg ==> final(linbuf)@[i] == ulaw_linear(old(logbuf)@[i]),
        forall|i: int| lseg <= i < old(linbuf)@.len() ==> final(linbuf)@[i] == old(linbuf)@[i],
{
    let n = lseg as usize;
    let mut k: usize = 0;
    while k < n
        invariant
            n == lseg,
            k <= n,
            n <= logbuf@.len(),
            n <= linbuf@.len(),
            logbuf@ == old(logbuf)@,
            linbuf@.len() == old(linbuf)@.len(),
            forall|i: int| 0 <= i < k ==> linbuf@[i] == ulaw_linear(old(logbuf)@[i]),
            forall|i: int| k <= i < old(linbuf)@.len() ==> linbuf@[i] == old(linbuf)@[i],
        decreases n - k,
    {
        linbuf[k] = ulaw_expand_sample(logbuf[k]);
        k = k + 1;
    }
}

} // verus!
