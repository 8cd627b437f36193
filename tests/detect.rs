use dtmf::detector::{DigitDetectState, DtmfError};
use dtmf::dtmf::classify_block;
use dtmf::goertzel::GoertzelState;

const ROWS: [f64; 4] = [697.0, 770.0, 852.0, 941.0];
const COLS: [f64; 4] = [1209.0, 1336.0, 1477.0, 1633.0];
const SYMBOLS: &str = "123A456B789C*0#D";

fn tone(freqs: &[(f64, f64)], start: usize, len: usize) -> Vec<i16> {
    (start..start + len)
        .map(|n| {
            let t = n as f64 / 8000.0;
            let v: f64 = freqs
                .iter()
                .map(|(f, a)| a * (2.0 * std::f64::consts::PI * f * t).sin())
                .sum();
            v.round() as i16
        })
        .collect()
}

fn blocks(d: &mut DigitDetectState, freqs: &[(f64, f64)], first_block: usize, n: usize) -> Vec<Option<char>> {
    (0..n)
        .map(|b| {
            let s = tone(freqs, (first_block + b) * 102, 102);
            d.dtmf_detect(&s, 102).unwrap()
        })
        .collect()
}

#[test]
fn silence_never_yields_a_digit() {
    let mut d = DigitDetectState::new();
    let zeros = vec![0i16; 102 * 20 + 37];
    assert_eq!(d.dtmf_detect(&zeros, zeros.len() as i32), Ok(None));
    for _ in 0..10 {
        assert_eq!(d.dtmf_detect(&zeros[..102], 102), Ok(None));
    }
    assert_eq!(d.detected_digits(), 0);
}

#[test]
fn digit_one_from_second_block() {
    let mut d = DigitDetectState::new();
    let pair = [(697.0, 10000.0), (1209.0, 10000.0)];
    let r = blocks(&mut d, &pair, 0, 4);
    assert_eq!(r, vec![None, Some('1'), Some('1'), Some('1')]);
    assert_eq!(d.detected_digits(), 1);
    assert_eq!(d.current_digits(), 1);
}

#[test]
fn digit_one_in_one_call() {
    let mut d = DigitDetectState::new();
    let s = tone(&[(697.0, 10000.0), (1209.0, 10000.0)], 0, 204);
    assert_eq!(d.dtmf_detect(&s, 204), Ok(Some('1')));
}

#[test]
fn digit_outlasts_tone_by_misses_minus_one_blocks() {
    let mut d = DigitDetectState::new();
    let pair = [(697.0, 10000.0), (1209.0, 10000.0)];
    let r = blocks(&mut d, &pair, 0, 3);
    assert_eq!(r[2], Some('1'));
    let zeros = [0i16; 102];
    assert_eq!(d.dtmf_detect(&zeros, 102), Ok(Some('1')));
    assert_eq!(d.dtmf_detect(&zeros, 102), Ok(Some('1')));
    assert_eq!(d.dtmf_detect(&zeros, 102), Ok(None));
    assert_eq!(d.current_digits(), 0);
}

#[test]
fn all_sixteen_pairs() {
    for (r, fr) in ROWS.iter().enumerate() {
        for (c, fc) in COLS.iter().enumerate() {
            let mut d = DigitDetectState::new();
            let res = blocks(&mut d, &[(*fr, 10000.0), (*fc, 10000.0)], 0, 3);
            let want = SYMBOLS.chars().nth(4 * r + c).unwrap();
            assert_eq!(res, vec![None, Some(want), Some(want)], "row {} col {}", r, c);
        }
    }
}

#[test]
fn single_tone_never_yields_a_digit() {
    for f in ROWS.iter().chain(COLS.iter()) {
        let mut d = DigitDetectState::new();
        let res = blocks(&mut d, &[(*f, 16000.0)], 0, 6);
        assert!(res.iter().all(|x| x.is_none()), "freq {}", f);
    }
}

#[test]
fn chunk_boundary_independence() {
    let pair = [(852.0, 9000.0), (1477.0, 11000.0)];
    let s = tone(&pair, 0, 306);
    let mut one = DigitDetectState::new();
    let mut two = DigitDetectState::new();
    for b in 0..3 {
        let block = &s[b * 102..(b + 1) * 102];
        let r1 = one.dtmf_detect(block, 102);
        let _ = two.dtmf_detect(&block[..50], 50);
        let r2 = two.dtmf_detect(&block[50..], 52);
        assert_eq!(r1, r2);
    }
    assert_eq!(one.dtmf_detect(&[], 0), Ok(Some('9')));
}

#[test]
fn twist_rejected() {
    let mut d = DigitDetectState::new();
    let res = blocks(&mut d, &[(697.0, 3000.0), (1209.0, 12000.0)], 0, 5);
    assert!(res.iter().all(|x| x.is_none()));
}

#[test]
fn too_many_samples_claimed() {
    let mut d = DigitDetectState::new();
    let s = [0i16; 10];
    assert_eq!(d.dtmf_detect(&s, 11), Err(DtmfError::InvalidInput));
    assert_eq!(d.dtmf_detect(&s, -5), Ok(None));
    assert_eq!(d.dtmf_detect(&s, 10), Ok(None));
}

#[test]
fn classify_picks_table_symbol() {
    let big = 1_000_000_000i128;
    for r in 0..4 {
        for c in 0..4 {
            let mut re = [0i128; 4];
            let mut ce = [0i128; 4];
            re[r] = big;
            ce[c] = big;
            let want = SYMBOLS.chars().nth(4 * r + c);
            assert_eq!(classify_block(&re, &ce, 0), want);
        }
    }
}

#[test]
fn classify_tests_each_bound() {
    let e = 1_000_000_000i128;
    // below threshold
    assert_eq!(classify_block(&[79_999_999, 0, 0, 0], &[e, 0, 0, 0], 0), None);
    assert_eq!(classify_block(&[80_000_000, 0, 0, 0], &[80_000_000, 0, 0, 0], 0), Some('1'));
    // reverse twist: col must stay below 2.51 * row
    assert_eq!(classify_block(&[100_000_000, 0, 0, 0], &[251_000_000, 0, 0, 0], 0), None);
    assert_eq!(classify_block(&[100_000_000, 0, 0, 0], &[250_999_999, 0, 0, 0], 0), Some('1'));
    // normal twist: row must stay below 6.31 * col
    assert_eq!(classify_block(&[631_000_000, 0, 0, 0], &[100_000_000, 0, 0, 0], 0), None);
    assert_eq!(classify_block(&[630_999_999, 0, 0, 0], &[100_000_000, 0, 0, 0], 0), Some('1'));
    // relative peak: a rival above best / 6.3
    assert_eq!(classify_block(&[e, 0, 0, 0], &[e, 0, 158_730_159, 0], 0), None);
    assert_eq!(classify_block(&[e, 0, 0, 0], &[e, 0, 158_730_158, 0], 0), Some('1'));
    // energy ratio
    assert_eq!(classify_block(&[e, 0, 0, 0], &[e, 0, 0, 0], 47_619_047), Some('1'));
    assert_eq!(classify_block(&[e, 0, 0, 0], &[e, 0, 0, 0], 47_619_048), None);
    // ties keep the first index
    assert_eq!(classify_block(&[0, e, e, 0], &[0, 0, e, 0], 0), None);
}

#[test]
fn goertzel_single_sample_energy() {
    let mut g = GoertzelState::new(0);
    g.sample(100, 0);
    assert_eq!(g.v3, 100);
    assert_eq!(g.result(1), 10000);
    g.reset();
    assert_eq!(g.result(0), 0);
}

#[test]
fn goertzel_rescales_large_values() {
    let mut g = GoertzelState::new(65535);
    let mut n = 0u32;
    for _ in 0..4 {
        g.sample(32767, n);
        n += 1;
    }
    assert!(g.chunky >= 1);
    assert!(g.v3.abs() <= 1 << 16);
}
