//! Telephony media helpers: a DTMF tone detector working on linear PCM,
//! G.711 A-law / mu-law companding, and RTP / RTCP header access.
use vstd::prelude::*;

pub mod detector;
pub mod dtmf;
pub mod g711;
pub mod goertzel;
pub mod laws;
pub mod rtcp_builder;
pub mod rtcp_parser;
pub mod rtp_builder;
pub mod rtp_parser;

verus! {

} // verus!
