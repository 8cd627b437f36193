use vstd::prelude::*;

verus! {

/// Fixed RTP header length in bytes.
pub const RTP_HEADER_LEN: usize = 12;

/// Big-endian value of two bytes.
pub open spec fn be16(b0: u8, b1: u8) -> int {
    b0 as int * 256 + b1 as int
}

/// Big-endian value of four bytes.
pub open spec fn be32(b0: u8, b1: u8, b2: u8, b3: u8) -> int {
    ((b0 as int * 256 + b1 as int) * 256 + b2 as int) * 256 + b3 as int
}

/// Read-only view of an RTP packet held in a byte slice.
pub struct RtpPacketParser<'a> {
    rtp_packet: &'a [u8],
}

impl<'a> RtpPacketParser<'a> {
    /// The packet bytes.
    pub closed spec fn bytes(&self) -> Seq<u8> {
        self.rtp_packet@
    }

    pub fn new(rtp_packet: &'a [u8]) -> (r: Self)
        ensures
            r.bytes() == rtp_packet@,
    {
        RtpPacketParser { rtp_packet }
    }

    /// The version bits of the first byte (mask 0x03).
    pub fn version(&self) -> (r: u8)
        requires
            self.bytes().len() >= 1,
        ensures
            r == self.bytes()[0] & 0x03,
    {
        self.rtp_packet[0] & 0x03
    }

    /// The padding bit of the first byte, left in place (mask 0x04).
    pub fn padding(&self) -> (r: u8)
        requires
            self.bytes().len() >= 1,
        ensures
            r == self.bytes()[0] & 0x04,
    {
        self.rtp_packet[0] & 0x04
    }

    /// The extension bit of the first byte, left in place (mask 0x08).
    pub fn extension(&self) -> (r: u8)
        requires
            self.bytes().len() >= 1,
        ensures
            r == self.bytes()[0] & 0x08,
    {
        self.rtp_packet[0] & 0x08
    }

    /// The CSRC count bits of the first byte, left in place (mask 0xF0).
    pub fn csrc_count(&self) -> (r: u8)
        requires
            self.bytes().len() >= 1,
        ensures
            r == self.bytes()[0] & 0xF0,
    {
        self.rtp_packet[0] & 0xF0
    }

    /// The second byte.
    pub fn payload_type(&self) -> (r: u8)
        requires
            self.bytes().len() >= 2,
        ensures
            r == self.bytes()[1],
    {
        self.rtp_packet[1]
    }

    /// Bytes 2..4, big-endian.
    pub fn sequence_number(&self) -> (r: u16)
        requires
            self.bytes().len() >= 4,
        ensures
            r as int == be16(self.bytes()[2], self.bytes()[3]),
    {
        self.rtp_packet[2] as u16 * 256 + self.rtp_packet[3] as u16
    }

    /// Bytes 4..8, big-endian.
    pub fn time_stamp(&self) -> (r: u32)
        requires
            self.bytes().len() >= 8,
        ensures
            r as int == be32(self.bytes()[4], self.bytes()[5], self.bytes()[6], self.bytes()[7]),
    {
        let p = self.rtp_packet;
        ((p[4] as u32 * 256 + p[5] as u32) * 256 + p[6] as u32) * 256 + p[7] as u32
    }

    /// Bytes 8..12, big-endian.
    pub fn ssrc(&self) -> (r: u32)
        requires
            self.bytes().len() >= 12,
        ensures
            r as int == be32(self.bytes()[8], self.bytes()[9], self.bytes()[10], self.bytes()[11]),
    {
        let p = self.rtp_packet;
        ((p[8] as u32 * 256 + p[9] as u32) * 256 + p[10] as u32) * 256 + p[11] as u32
    }

    /// Everything after the fixed twelve-byte header.
    pub fn payload(&self) -> (r: &'a [u8])
        requires
            self.bytes().len() >= RTP_HEADER_LEN,
        ensures
            r@ == self.bytes().subrange(RTP_HEADER_LEN as int, self.bytes().len() as int),
    {
        vstd::slice::slice_subrange(self.rtp_packet, RTP_HEADER_LEN, self.rtp_packet.len())
    }
}

} // verus!
