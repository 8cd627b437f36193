//! The streaming detector: feeds samples into the filter bank, evaluates each
//! completed block and keeps the debounced digit across calls.
use vstd::prelude::*;
use crate::dtmf::{
    as_ints, classify, classify_block, Debouncer, COL_COEFFS, DEF_DTMF_HITS_TO_BEGIN,
    DEF_DTMF_MISSES_TO_END, ROW_COEFFS,
};
use crate::goertzel::{GoertzelState, BLOCK_LEN, ENERGY_CAP, MAX_COEFF};

verus! {

/// What the detector holds, as values.
pub struct DetectorModel {
    pub rows: Seq<GoertzelState>,
    pub cols: Seq<GoertzelState>,
    /// Sum of squared samples of the current block.
    pub energy: int,
    /// Samples of the current block fed so far.
    pub current_sample: int,
    pub debounce: Debouncer,
}

pub open spec fn step_all(g: Seq<GoertzelState>, s: i16) -> Seq<GoertzelState> {
    g.map_values(|x: GoertzelState| x.step(s))
}

pub open spec fn clear_all(g: Seq<GoertzelState>) -> Seq<GoertzelState> {
    g.map_values(|x: GoertzelState| x.cleared())
}

pub open spec fn energies(g: Seq<GoertzelState>) -> Seq<int> {
    g.map_values(|x: GoertzelState| x.energy())
}

/// The detector after one more sample; a completed block is classified, the
/// debouncer updated and the block state cleared.
pub open spec fn feed_one(m: DetectorModel, s: i16) -> DetectorModel {
    let rows = step_all(m.rows, s);
    let cols = step_all(m.cols, s);
    let energy = m.energy + s * s;
    let n = m.current_sample + 1;
    if n == BLOCK_LEN {
        DetectorModel {
            rows: clear_all(rows),
            cols: clear_all(cols),
            energy: 0,
            current_sample: 0,
            debounce: m.debounce.next(classify(energies(rows), energies(cols), energy)),
        }
    } else {
        DetectorModel { rows, cols, energy, current_sample: n, debounce: m.debounce }
    }
}

/// The detector after the samples `s`, in order.
pub open spec fn feed(m: DetectorModel, s: Seq<i16>) -> DetectorModel
    decreases s.len(),
{
    if s.len() == 0 {
        m
    } else {
        feed_one(feed(m, s.drop_last()), s.last())
    }
}


/// Error of `dtmf_detect`.
#[derive(Clone, Copy, Debug, PartialEq, Eq, Structural)]
pub enum DtmfError {
    /// More samples were claimed than the buffer holds.
    InvalidInput,
}

/// The filter bank, the block accumulator and the debouncer of one stream.
pub struct DtmfDetectState {
    row_out: [GoertzelState; 4],
    col_out: [GoertzelState; 4],
    energy: u64,
    current_sample: u32,
    debounce: Debouncer,
}

impl View for DtmfDetectState {
    type V = DetectorModel;

    closed spec fn view(&self) -> DetectorModel {
        DetectorModel {
            rows: self.row_out@,
            cols: self.col_out@,
            energy: self.energy as int,
            current_sample: self.current_sample as int,
            debounce: self.debounce,
        }
    }
}

pub open spec fn bank_wf(g: Seq<GoertzelState>, n: int) -> bool {
    g.len() == 4 && forall|i: int| 0 <= i < 4 ==> (#[trigger] g[i]).wf(n)
}

/// The detector's invariant on its model.
pub open spec fn model_wf(m: DetectorModel) -> bool {
    &&& 0 <= m.current_sample < BLOCK_LEN
    &&& bank_wf(m.rows, m.current_sample)
    &&& bank_wf(m.cols, m.current_sample)
    &&& 0 <= m.energy <= m.current_sample * 0x4000_0000
    &&& m.debounce.wf()
}

pub open spec fn coeffs_ok(c: Seq<i32>) -> bool {
    c.len() == 4 && forall|i: int| 0 <= i < 4 ==> -MAX_COEFF <= #[trigger] c[i] <= MAX_COEFF
}

/// A fresh model with the given coefficients and limits.
pub open spec fn fresh(rows: Seq<i32>, cols: Seq<i32>, hits_to_begin: u32, misses_to_end: u32) -> DetectorModel {
    DetectorModel {
        rows: rows.map_values(|f: i32| GoertzelState { v2: 0, v3: 0, chunky: 0, fac: f }),
        cols: cols.map_values(|f: i32| GoertzelState { v2: 0, v3: 0, chunky: 0, fac: f }),
        energy: 0,
        current_sample: 0,
        debounce: Debouncer {
            hits: 0,
            misses: 0,
            last_candidate: None,
            current: None,
            hits_to_begin,
            misses_to_end,
            detected: 0,
            lost: 0,
        },
    }
}

fn make_bank(c: &[i32; 4]) -> (r: [GoertzelState; 4])
    requires
        coeffs_ok(c@),
    ensures
        r@ == c@.map_values(|f: i32| GoertzelState { v2: 0, v3: 0, chunky: 0, fac: f }),
{
    let r = [
        GoertzelState::new(c[0]),
        GoertzelState::new(c[1]),
        GoertzelState::new(c[2]),
        GoertzelState::new(c[3]),
    ];
    assert(r@ =~= c@.map_values(|f: i32| GoertzelState { v2: 0, v3: 0, chunky: 0, fac: f }));
    r
}

impl DtmfDetectState {
    pub open spec fn wf(&self) -> bool {
        model_wf(self@)
    }

    /// A detector for the given row and column coefficients (Q15) and debounce limits.
    pub fn with_config(row_coeffs: [i32; 4], col_coeffs: [i32; 4], hits_to_begin: u32, misses_to_end: u32) -> (r: Self)
        requires
            coeffs_ok(row_coeffs@),
            coeffs_ok(col_coeffs@),
            hits_to_begin >= 1,
            misses_to_end >= 1,
        ensures
            r.wf(),
            r@ == fresh(row_coeffs@, col_coeffs@, hits_to_begin, misses_to_end),
    {
        let r = DtmfDetectState {
            row_out: make_bank(&row_coeffs),
            col_out: make_bank(&col_coeffs),
            energy: 0,
            current_sample: 0,
            debounce: Debouncer::new(hits_to_begin, misses_to_end),
        };
        r
    }

    /// A detector for the standard tones at 8000 Hz, beginning a digit after
    /// two matching blocks and ending it after three others.
    pub fn new() -> (r: Self)
        ensures
            r.wf(),
            r@ == fresh(ROW_COEFFS@, COL_COEFFS@, DEF_DTMF_HITS_TO_BEGIN, DEF_DTMF_MISSES_TO_END),
    {
        let rc = ROW_COEFFS;
        let cc = COL_COEFFS;
        assert(coeffs_ok(rc@) && coeffs_ok(cc@)) by {
            assert(rc@ =~= seq![55959i32, 53913, 51403, 48438]);
            assert(cc@ =~= seq![38145i32, 32649, 26169, 18630]);
        }
        Self::with_config(rc, cc, DEF_DTMF_HITS_TO_BEGIN, DEF_DTMF_MISSES_TO_END)
    }

    /// The committed digit.
    pub fn current_digit(&self) -> (r: Option<char>)
        ensures
            r == self@.debounce.current,
    {
        self.debounce.current
    }

    /// Digits committed since the start of the stream.
    pub fn detected_digits(&self) -> (r: u64)
        ensures
            r == self@.debounce.detected,
    {
        self.debounce.detected
    }

    /// Candidates given up before they were committed.
    pub fn lost_digits(&self) -> (r: u64)
        ensures
            r == self@.debounce.lost,
    {
        self.debounce.lost
    }

    fn step_bank(bank: &mut [GoertzelState; 4], s: i16, n: u32)
        requires
            bank_wf(old(bank)@, n as int),
            n < BLOCK_LEN,
        ensures
            final(bank)@ == step_all(old(bank)@, s),
            bank_wf(final(bank)@, n + 1),
    {
        let mut i: usize = 0;
        while i < 4
            invariant
                i <= 4,
                n < BLOCK_LEN,
                bank@.len() == 4,
                forall|j: int| 0 <= j < i ==> bank@[j] == old(bank)@[j].step(s) && bank@[j].wf(n + 1),
                forall|j: int| i <= j < 4 ==> bank@[j] == old(bank)@[j] && bank@[j].wf(n as int),
            decreases 4 - i,
        {
            let mut g = bank[i];
            g.sample(s, n);
            bank[i] = g;
            i = i + 1;
        }
        assert(bank@ =~= step_all(old(bank)@, s));
    }

    fn clear_bank(bank: &mut [GoertzelState; 4])
        requires
            bank_wf(old(bank)@, BLOCK_LEN as int),
        ensures
            final(bank)@ == clear_all(old(bank)@),
            bank_wf(final(bank)@, 0),
    {
        let mut i: usize = 0;
        while i < 4
            invariant
                i <= 4,
                bank@.len() == 4,
                forall|j: int| 0 <= j < i ==> bank@[j] == old(bank)@[j].cleared() && bank@[j].wf(0),
                forall|j: int| i <= j < 4 ==> bank@[j] == old(bank)@[j] && bank@[j].wf(BLOCK_LEN as int),
            decreases 4 - i,
        {
            let mut g = bank[i];
            g.reset();
            bank[i] = g;
            i = i + 1;
        }
        assert(bank@ =~= clear_all(old(bank)@));
    }

    fn bank_energies(bank: &[GoertzelState; 4]) -> (r: [i128; 4])
        requires
            bank_wf(bank@, BLOCK_LEN as int),
        ensures
            as_ints(r@) == energies(bank@),
            forall|i: int| 0 <= i < 4 ==> -ENERGY_CAP <= #[trigger] r@[i] <= ENERGY_CAP,
    {
        let mut r: [i128; 4] = [0, 0, 0, 0];
        let mut i: usize = 0;
        while i < 4
            invariant
                i <= 4,
                bank_wf(bank@, BLOCK_LEN as int),
                forall|j: int| 0 <= j < i ==> r@[j] as int == bank@[j].energy(),
                forall|j: int| 0 <= j < 4 ==> -ENERGY_CAP <= #[trigger] r@[j] <= ENERGY_CAP,
            decreases 4 - i,
        {
            let e = bank[i].result(BLOCK_LEN);
            r[i] = e;
            i = i + 1;
        }
        assert(as_ints(r@) =~= energies(bank@));
        r
    }

    /// Feeds one sample; completes and evaluates the block when it is full.
    pub fn push_sample(&mut self, s: i16)
        requires
            old(self).wf(),
        ensures
            final(self).wf(),
            final(self)@ == feed_one(old(self)@, s),
    {
        let n = self.current_sample;
        Self::step_bank(&mut self.row_out, s, n);
        Self::step_bank(&mut self.col_out, s, n);
        let s64 = s as i64;
        assert(0 <= s64 * s64 <= 0x4000_0000) by (nonlinear_arith)
            requires -32768 <= s64 <= 32767;
        let sq = (s64 * s64) as u64;
        assert(sq == s * s);
        self.energy = self.energy + sq;
        self.current_sample = n + 1;
        if self.current_sample == BLOCK_LEN {
            let re = Self::bank_energies(&self.row_out);
            let ce = Self::bank_energies(&self.col_out);
            let hit = classify_block(&re, &ce, self.energy);
            self.debounce.update(hit);
            Self::clear_bank(&mut self.row_out);
            Self::clear_bank(&mut self.col_out);
            self.energy = 0;
            self.current_sample = 0;
        }
    }
}

/// Digit detection on one audio stream: the detector and its counters.
pub struct DigitDetectState {
    pub dtmf: DtmfDetectState,
}

impl DigitDetectState {
    pub open spec fn wf(&self) -> bool {
        self.dtmf.wf()
    }

    pub fn new() -> (r: Self)
        ensures
            r.wf(),
            r.dtmf@ == fresh(ROW_COEFFS@, COL_COEFFS@, DEF_DTMF_HITS_TO_BEGIN, DEF_DTMF_MISSES_TO_END),
    {
        DigitDetectState { dtmf: DtmfDetectState::new() }
    }

    /// Digits open now: one while a digit is committed, else zero.
    pub fn current_digits(&self) -> (r: u64)
        ensures
            r == (if self.dtmf@.debounce.current is Some { 1u64 } else { 0u64 }),
    {
        if self.dtmf.current_digit().is_some() { 1 } else { 0 }
    }

    pub fn detected_digits(&self) -> (r: u64)
        ensures
            r == self.dtmf@.debounce.detected,
    {
        self.dtmf.detected_digits()
    }

    pub fn lost_digits(&self) -> (r: u64)
        ensures
            r == self.dtmf@.debounce.lost,
    {
        self.dtmf.lost_digits()
    }

    /// Feeds the first `samples` samples of `amp` (none when `samples` is not
    /// positive) and returns the committed digit afterwards. Claiming more
    /// samples than `amp` holds is refused and changes nothing.
    pub fn dtmf_detect(&mut self, amp: &[i16], samples: i32) -> (r: Result<Option<char>, DtmfError>)
        requires
            old(self).wf(),
        ensures
            final(self).wf(),
            samples > amp@.len() ==> r == Err::<Option<char>, DtmfError>(DtmfError::InvalidInput)
                && final(self).dtmf@ == old(self).dtmf@,
            samples <= amp@.len() ==> {
                let fed = if samples <= 0 { Seq::<i16>::empty() } else { amp@.take(samples as int) };
                &&& final(self).dtmf@ == feed(old(self).dtmf@, fed)
                &&& r == Ok::<Option<char>, DtmfError>(final(self).dtmf@.debounce.current)
            },
    {
        if samples > 0 && samples as usize > amp.len() {
            return Err(DtmfError::InvalidInput);
        }
        let count: usize = if samples <= 0 { 0 } else { samples as usize };
        let ghost start = self.dtmf@;
        let mut i: usize = 0;
        assert(amp@.take(0) =~= Seq::<i16>::empty());
        while i < count
            invariant
                count <= amp@.len(),
                i <= count,
                self.wf(),
                self.dtmf@ == feed(start, amp@.take(i as int)),
            decreases count - i,
        {
            self.dtmf.push_sample(amp[i]);
            assert(amp@.take(i + 1).drop_last() =~= amp@.take(i as int));
            i = i + 1;
        }
        assert(samples > 0 ==> amp@.take(samples as int) =~= amp@.take(count as int));
        Ok(self.dtmf.current_digit())
    }
}

} // verus!
