//! Properties of the detector over all inputs.
use vstd::prelude::*;
use crate::detector::{feed, feed_one, energies, step_all, DetectorModel, fresh};
use crate::dtmf::{best_index, classify, Debouncer, DTMF_THRESHOLD, COL_COEFFS, DEF_DTMF_HITS_TO_BEGIN,
    DEF_DTMF_MISSES_TO_END, ROW_COEFFS};
use crate::goertzel::{asr, times_pow4};

verus! {

/// The first-maximum index lies among the entries considered.
pub proof fn lemma_best_index_range(e: Seq<int>, n: nat)
    requires
        n >= 1,
    ensures
        0 <= best_index(e, n) < n,
    decreases n,
{
    if n > 1 {
        lemma_best_index_range(e, (n - 1) as nat);
    }
}

/// No history, no block energy and no committed digit.
pub open spec fn quiet(m: DetectorModel) -> bool {
    &&& m.rows.len() == 4
    &&& m.cols.len() == 4
    &&& forall|i: int| 0 <= i < 4 ==> (#[trigger] m.rows[i]).v2 == 0 && m.rows[i].v3 == 0 && m.rows[i].chunky == 0
    &&& forall|i: int| 0 <= i < 4 ==> (#[trigger] m.cols[i]).v2 == 0 && m.cols[i].v3 == 0 && m.cols[i].chunky == 0
    &&& m.energy == 0
    &&& m.debounce.current is None
}

proof fn lemma_quiet_step(m: DetectorModel)
    requires
        quiet(m),
    ensures
        quiet(feed_one(m, 0i16)),
{
    let rows = step_all(m.rows, 0i16);
    let cols = step_all(m.cols, 0i16);
    assert forall|i: int| 0 <= i < 4 implies rows[i] == m.rows[i] by {
        assert(asr(0, 0) == 0);
    }
    assert forall|i: int| 0 <= i < 4 implies cols[i] == m.cols[i] by {
        assert(asr(0, 0) == 0);
    }
    let re = energies(rows);
    let ce = energies(cols);
    assert forall|i: int| 0 <= i < 4 implies re[i] == 0 by {
        assert(rows[i] == m.rows[i]);
        assert(rows[i].v2 == 0 && rows[i].v3 == 0 && rows[i].chunky == 0);
        assert(0int / 32768 == 0);
        assert(times_pow4(0, 0) == 0);
    }
    assert forall|i: int| 0 <= i < 4 implies ce[i] == 0 by {
        assert(cols[i] == m.cols[i]);
        assert(cols[i].v2 == 0 && cols[i].v3 == 0 && cols[i].chunky == 0);
        assert(0int / 32768 == 0);
        assert(times_pow4(0, 0) == 0);
    }
    lemma_best_index_range(re, 4);
    assert(classify(re, ce, 0) is None);
}

/// Silence never yields a digit: from a detector at rest, any number of zero
/// samples leaves it with no committed digit.
pub proof fn lemma_silence_yields_none(m: DetectorModel, s: Seq<i16>)
    requires
        quiet(m),
        forall|i: int| 0 <= i < s.len() ==> s[i] == 0,
    ensures
        quiet(feed(m, s)),
        feed(m, s).debounce.current is None,
    decreases s.len(),
{
    if s.len() > 0 {
        lemma_silence_yields_none(m, s.drop_last());
        lemma_quiet_step(feed(m, s.drop_last()));
    }
}

/// A newly built detector fed only zero samples never reports a digit.
pub proof fn lemma_fresh_silence(s: Seq<i16>)
    requires
        forall|i: int| 0 <= i < s.len() ==> s[i] == 0,
    ensures
        feed(fresh(ROW_COEFFS@, COL_COEFFS@, DEF_DTMF_HITS_TO_BEGIN, DEF_DTMF_MISSES_TO_END), s)
            .debounce.current is None,
{
    let m = fresh(ROW_COEFFS@, COL_COEFFS@, DEF_DTMF_HITS_TO_BEGIN, DEF_DTMF_MISSES_TO_END);
    assert(ROW_COEFFS@.len() == 4 && COL_COEFFS@.len() == 4);
    lemma_silence_yields_none(m, s);
}

/// Feeding a stream in two calls gives the same detector state, and so the
/// same classifications, as feeding it in one.
pub proof fn lemma_chunk_independence(m: DetectorModel, a: Seq<i16>, b: Seq<i16>)
    ensures
        feed(m, a + b) == feed(feed(m, a), b),
    decreases b.len(),
{
    if b.len() == 0 {
        assert(a + b =~= a);
    } else {
        lemma_chunk_independence(m, a, b.drop_last());
        assert((a + b).drop_last() =~= a + b.drop_last());
        assert((a + b).last() == b.last());
    }
}

/// The debouncer after `k` blocks without a symbol.
pub open spec fn after_silent_blocks(d: Debouncer, k: nat) -> Debouncer
    decreases k,
{
    if k == 0 {
        d
    } else {
        after_silent_blocks(d, (k - 1) as nat).next(None)
    }
}

/// Once the tone stops, a committed digit is still reported for
/// `misses_to_end - 1` blocks and ends at the `misses_to_end`-th silent block.
pub proof fn lemma_digit_outlasts_tone(d: Debouncer, k: nat)
    requires
        d.wf(),
        d.current is Some,
        d.misses == 0,
        k <= d.misses_to_end,
    ensures
        k < d.misses_to_end ==> after_silent_blocks(d, k).current == d.current,
        k == d.misses_to_end ==> after_silent_blocks(d, k).current is None,
        k < d.misses_to_end ==> after_silent_blocks(d, k).misses == k,
        after_silent_blocks(d, k).misses_to_end == d.misses_to_end,
    decreases k,
{
    if k > 0 {
        lemma_digit_outlasts_tone(d, (k - 1) as nat);
    }
}

/// A block whose column tones all stay below the threshold (a row tone alone,
/// for instance) yields no symbol, whatever the rows hold.
pub proof fn lemma_single_group_yields_none(rows: Seq<int>, cols: Seq<int>, total: int)
    requires
        cols.len() == 4,
        forall|i: int| 0 <= i < 4 ==> cols[i] < DTMF_THRESHOLD,
    ensures
        classify(rows, cols, total) is None,
{
    lemma_best_index_range(cols, 4);
}

/// A block whose strongest column exceeds 6.31 times its strongest row yields
/// no symbol.
pub proof fn lemma_twist_rejected(rows: Seq<int>, cols: Seq<int>, total: int)
    requires
        rows.len() == 4,
        cols.len() == 4,
        rows[best_index(rows, 4)] >= 0,
        100 * cols[best_index(cols, 4)] > 631 * rows[best_index(rows, 4)],
    ensures
        classify(rows, cols, total) is None,
{
}

} // verus!
