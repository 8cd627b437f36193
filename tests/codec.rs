use dtmf::g711::{alaw_compress, alaw_expand, ulaw_compress, ulaw_expand};

const LIN: [i16; 11] = [0, 1, -1, 100, -100, 1000, -1000, 32767, -32768, 4096, -5000];
const CODES: [i16; 9] = [0, 0x55, 0xD5, 127, 128, 200, 255, 0x2A, 0x7F];

#[test]
fn alaw_encodes_known_values() {
    let mut lin = LIN;
    let mut log = [0i16; 11];
    alaw_compress(11, &mut lin, &mut log);
    assert_eq!(log, [213, 213, 85, 211, 83, 250, 122, 170, 42, 133, 6]);
    assert_eq!(lin, LIN);
}

#[test]
fn alaw_decodes_known_values() {
    let mut log = CODES;
    let mut lin = [0i16; 9];
    alaw_expand(9, &mut log, &mut lin);
    assert_eq!(lin, [-5505, -9, 8, -849, 5504, 472, 848, -32257, -849]);
}

#[test]
fn ulaw_encodes_known_values() {
    let mut lin = LIN;
    let mut log = [0i16; 11];
    ulaw_compress(11, &mut lin, &mut log);
    assert_eq!(log, [255, 255, 127, 242, 115, 206, 78, 128, 0, 175, 43]);
}

#[test]
fn ulaw_decodes_known_values() {
    let mut log = CODES;
    let mut lin = [0i16; 9];
    ulaw_expand(9, &mut log, &mut lin);
    assert_eq!(lin, [32124, 716, -716, 0, 32124, -1372, 0, 5372, 0]);
}

#[test]
fn codec_leaves_tail_untouched() {
    let mut lin = [500i16, -500, 7, 7];
    let mut log = [-1i16; 4];
    ulaw_compress(2, &mut lin, &mut log);
    assert_eq!(&log[2..], &[-1, -1]);
    let mut out = [9i16; 4];
    ulaw_expand(0, &mut log, &mut out);
    assert_eq!(out, [9; 4]);
    alaw_expand(-3, &mut log, &mut out);
    assert_eq!(out, [9; 4]);
}
