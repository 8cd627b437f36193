//! DTMF digit detection: a bank of eight Goertzel filters fed block by block,
//! a per-block classifier and a hit/miss debouncer.
use vstd::prelude::*;
use crate::goertzel::ENERGY_CAP;

verus! {

/// Minimum energy of the strongest row and column tone.
pub const DTMF_THRESHOLD: i128 = 80_000_000;
/// Default number of consecutive matching blocks that begin a digit.
pub const DEF_DTMF_HITS_TO_BEGIN: u32 = 2;
/// Default number of consecutive non-matching blocks that end a digit.
pub const DEF_DTMF_MISSES_TO_END: u32 = 3;

/// Q15 coefficients of the row tones 697, 770, 852 and 941 Hz at 8000 Hz.
pub const ROW_COEFFS: [i32; 4] = [55959, 53913, 51403, 48438];
/// Q15 coefficients of the column tones 1209, 1336, 1477 and 1633 Hz at 8000 Hz.
pub const COL_COEFFS: [i32; 4] = [38145, 32649, 26169, 18630];

/// The keypad symbols, row-major.
pub open spec fn symbol_table() -> Seq<char> {
    seq!['1', '2', '3', 'A', '4', '5', '6', 'B', '7', '8', '9', 'C', '*', '0', '#', 'D']
}

/// Index of the first maximum among `e[0..n]`.
pub open spec fn best_index(e: Seq<int>, n: nat) -> int
    decreases n,
{
    if n <= 1 {
        0
    } else {
        let b = best_index(e, (n - 1) as nat);
        if e[n - 1] > e[b] {
            n - 1
        } else {
            b
        }
    }
}

/// No other tone of the group is within 6.3 times of the strongest.
pub open spec fn peak_is_clear(e: Seq<int>, best: int) -> bool {
    forall|i: int| 0 <= i < 4 && i != best ==> 63 * e[i] <= 10 * e[best]
}

/// The symbol a block stands for, given the eight tone energies and the
/// block's total signal energy; `None` when any test fails.
pub open spec fn classify(rows: Seq<int>, cols: Seq<int>, total: int) -> Option<char> {
    let br = best_index(rows, 4);
    let bc = best_index(cols, 4);
    let r = rows[br];
    let c = cols[bc];
    if r >= DTMF_THRESHOLD && c >= DTMF_THRESHOLD && 100 * c < 251 * r && 100 * r < 631 * c
        && peak_is_clear(rows, br) && peak_is_clear(cols, bc) && r + c > 42 * total {
        Some(symbol_table()[4 * br + bc])
    } else {
        None
    }
}

pub open spec fn energies_in_range(e: Seq<i128>) -> bool {
    e.len() == 4 && forall|i: int| 0 <= i < 4 ==> -ENERGY_CAP <= #[trigger] e[i] <= ENERGY_CAP
}

pub open spec fn as_ints(e: Seq<i128>) -> Seq<int> {
    e.map_values(|x: i128| x as int)
}

fn best_of(e: &[i128; 4]) -> (r: usize)
    ensures
        r as int == best_index(as_ints(e@), 4),
        r < 4,
{
    let mut best: usize = 0;
    let mut i: usize = 1;
    while i < 4
        invariant
            1 <= i <= 4,
            best < i,
            best as int == best_index(as_ints(e@), i as nat),
        decreases 4 - i,
    {
        if e[i] > e[best] {
            best = i;
        }
        i = i + 1;
    }
    best
}

fn clear_peak(e: &[i128; 4], best: usize) -> (r: bool)
    requires
        energies_in_range(e@),
        best < 4,
    ensures
        r == peak_is_clear(as_ints(e@), best as int),
{
    let mut i: usize = 0;
    while i < 4
        invariant
            i <= 4,
            energies_in_range(e@),
            best < 4,
            forall|j: int| 0 <= j < i && j != best ==> 63 * as_ints(e@)[j] <= 10 * as_ints(e@)[best as int],
        decreases 4 - i,
    {
        if i != best && 63 * e[i] > 10 * e[best] {
            assert(as_ints(e@)[i as int] == e@[i as int] as int);
            assert(!(63 * as_ints(e@)[i as int] <= 10 * as_ints(e@)[best as int]));
            return false;
        }
        i = i + 1;
    }
    true
}

/// Classifies one block from its tone energies and total signal energy.
pub fn classify_block(row_energy: &[i128; 4], col_energy: &[i128; 4], total: u64) -> (r: Option<char>)
    requires
        energies_in_range(row_energy@),
        energies_in_range(col_energy@),
    ensures
        r == classify(as_ints(row_energy@), as_ints(col_energy@), total as int),
{
    let br = best_of(row_energy);
    let bc = best_of(col_energy);
    let r = row_energy[br];
    let c = col_energy[bc];
    if r >= DTMF_THRESHOLD && c >= DTMF_THRESHOLD && 100 * c < 251 * r && 100 * r < 631 * c {
        if clear_peak(row_energy, br) && clear_peak(col_energy, bc) && r + c > 42 * (total as i128) {
            let table: [char; 16] = ['1', '2', '3', 'A', '4', '5', '6', 'B', '7', '8', '9', 'C', '*', '0', '#', 'D'];
            assert(table@ =~= symbol_table());
            return Some(table[4 * br + bc]);
        }
    }
    None
}

/// `x + 1`, held at the top of the range.
pub open spec fn bump(x: u64) -> u64 {
    if x < u64::MAX {
        (x + 1) as u64
    } else {
        x
    }
}

/// Hit/miss hysteresis turning per-block symbols into one committed digit.
#[derive(Clone, Copy)]
pub struct Debouncer {
    /// Consecutive blocks that matched the candidate, while it is not committed.
    pub hits: u32,
    /// Consecutive blocks that failed to match the committed digit.
    pub misses: u32,
    /// The symbol of the last block.
    pub last_candidate: Option<char>,
    /// The committed digit.
    pub current: Option<char>,
    pub hits_to_begin: u32,
    pub misses_to_end: u32,
    /// Digits committed so far.
    pub detected: u64,
    /// Candidates given up before they were committed.
    pub lost: u64,
}

impl Debouncer {
    pub open spec fn wf(self) -> bool {
        &&& 1 <= self.hits_to_begin
        &&& 1 <= self.misses_to_end
        &&& self.hits <= self.hits_to_begin
        &&& self.hits == self.hits_to_begin ==> self.current == self.last_candidate
        &&& self.misses <= self.misses_to_end
        &&& self.current is Some ==> self.misses < self.misses_to_end
    }

    /// The state after a block classified as `hit`.
    pub open spec fn next(self, hit: Option<char>) -> Debouncer {
        let (misses1, current1) = if self.current is Some && hit != self.current {
            if self.misses + 1 == self.misses_to_end {
                ((self.misses + 1) as u32, None)
            } else {
                ((self.misses + 1) as u32, self.current)
            }
        } else if self.current is Some {
            (0u32, self.current)
        } else {
            (self.misses, self.current)
        };
        let abandoned = hit != self.last_candidate && self.last_candidate is Some
            && self.last_candidate != self.current && 0 < self.hits < self.hits_to_begin;
        let lost = if abandoned { bump(self.lost) } else { self.lost };
        let (last2, hits2) = if hit != self.last_candidate {
            (hit, 0u32)
        } else {
            (self.last_candidate, self.hits)
        };
        if hit is Some && hit != current1 {
            if hits2 + 1 == self.hits_to_begin {
                Debouncer {
                    hits: (hits2 + 1) as u32,
                    misses: 0,
                    last_candidate: last2,
                    current: hit,
                    detected: bump(self.detected),
                    lost,
                    ..self
                }
            } else {
                Debouncer { hits: (hits2 + 1) as u32, misses: misses1, last_candidate: last2, current: current1, lost, ..self }
            }
        } else {
            Debouncer { hits: hits2, misses: misses1, last_candidate: last2, current: current1, lost, ..self }
        }
    }

    pub fn new(hits_to_begin: u32, misses_to_end: u32) -> (r: Self)
        requires
            hits_to_begin >= 1,
            misses_to_end >= 1,
        ensures
            r.wf(),
            r == (Debouncer {
                hits: 0,
                misses: 0,
                last_candidate: None,
                current: None,
                hits_to_begin,
                misses_to_end,
                detected: 0,
                lost: 0,
            }),
    {
        Debouncer {
            hits: 0,
            misses: 0,
            last_candidate: None,
            current: None,
            hits_to_begin,
            misses_to_end,
            detected: 0,
            lost: 0,
        }
    }

    /// Takes the classification of one block.
    pub fn update(&mut self, hit: Option<char>)
        requires
            old(self).wf(),
        ensures
            *final(self) == old(self).next(hit),
            final(self).wf(),
    {
        let current0 = self.current;
        if self.current.is_some() {
            if !same(hit, self.current) {
                self.misses = self.misses + 1;
                if self.misses == self.misses_to_end {
                    self.current = None;
                }
            } else {
                self.misses = 0;
            }
        }
        if !same(hit, self.last_candidate) {
            if self.last_candidate.is_some() && !same(self.last_candidate, current0) && 0 < self.hits
                && self.hits < self.hits_to_begin {
                self.lost = if self.lost < u64::MAX { self.lost + 1 } else { self.lost };
            }
            self.last_candidate = hit;
            self.hits = 0;
        }
        if hit.is_some() && !same(hit, self.current) {
            self.hits = self.hits + 1;
            if self.hits == self.hits_to_begin {
                self.current = hit;
                self.misses = 0;
                self.detected = if self.detected < u64::MAX { self.detected + 1 } else { self.detected };
            }
        }
    }
}

/// Equality of two optional symbols.
pub fn same(a: Option<char>, b: Option<char>) -> (r: bool)
    ensures
        r == (a == b),
{
    match (a, b) {
        (Some(x), Some(y)) => x == y,
        (None, None) => true,
        _ => false,
    }
}

} // verus!
