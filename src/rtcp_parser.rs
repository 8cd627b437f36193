use vstd::prelude::*;
use crate::rtp_parser::be16;

verus! {

/// Read-only view of an RTCP packet held in a byte slice.
pub struct RtcpPacketParser<'a> {
    rtcp_packet: &'a [u8],
}

impl<'a> RtcpPacketParser<'a> {
    /// The packet bytes.
    pub closed spec fn bytes(&self) -> Seq<u8> {
        self.rtcp_packet@
    }

    pub fn new(rtcp_packet: &'a [u8]) -> (r: Self)
        ensures
            r.bytes() == rtcp_packet@,
    {
        RtcpPacketParser { rtcp_packet }
    }

    /// The version bits of the first byte (mask 0x03).
    pub fn version(&self) -> (r: u8)
        requires
            self.bytes().len() >= 1,
        ensures
            r == self.bytes()[0] & 0x03,
    {
        self.rtcp_packet[0] & 0x03
    }

    /// The padding bit of the first byte, left in place (mask 0x04).
    pub fn padding(&self) -> (r: u8)
        requires
            self.bytes().len() >= 1,
        ensures
            r == self.bytes()[0] & 0x04,
    {
        self.rtcp_packet[0] & 0x04
    }

    /// The report-count bits of the first byte, left in place (mask 0xF8).
    pub fn rc(&self) -> (r: u8)
        requires
            self.bytes().len() >= 1,
        ensures
            r == self.bytes()[0] & 0xF8,
    {
        self.rtcp_packet[0] & 0xF8
    }

    /// The second byte.
    pub fn pt(&self) -> (r: u8)
        requires
            self.bytes().len() >= 2,
        ensures
            r == self.bytes()[1],
    {
        self.rtcp_packet[1]
    }

    /// Bytes 2..4, big-endian.
    pub fn sequence_number(&self) -> (r: u16)
        requires
            self.bytes().len() >= 4,
        ensures
            r as int == be16(self.bytes()[2], self.bytes()[3]),
    {
        self.rtcp_packet[2] as u16 * 256 + self.rtcp_packet[3] as u16
    }
}

} // verus!
