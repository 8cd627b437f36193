use vstd::prelude::*;
use crate::rtp_builder::write_be16;
use crate::rtp_parser::be16;

verus! {

/// Builder for the fixed four-byte RTCP header.
pub struct RtpBuilder {
    version: u8,
    padding: u8,
    rc: u8,
    pt: u8,
    length: u16,
}

/// The first header byte: version, padding at bit 2, report count at bit 3.
pub open spec fn first_byte(version: u8, padding: u8, rc: u8) -> u8 {
    version | (padding << 2u8) | (rc << 3u8)
}

impl RtpBuilder {
    pub closed spec fn version_spec(&self) -> u8 { self.version }
    pub closed spec fn padding_spec(&self) -> u8 { self.padding }
    pub closed spec fn rc_spec(&self) -> u8 { self.rc }
    pub closed spec fn pt_spec(&self) -> u8 { self.pt }
    pub closed spec fn length_spec(&self) -> u16 { self.length }

    /// All fields zero.
    pub fn new() -> (r: Self)
        ensures
            r.version_spec() == 0,
            r.padding_spec() == 0,
            r.rc_spec() == 0,
            r.pt_spec() == 0,
            r.length_spec() == 0,
    {
        RtpBuilder { version: 0, padding: 0, rc: 0, pt: 0, length: 0 }
    }

    pub fn version(self, version: u8) -> (r: Self)
        ensures
            r.version_spec() == version,
            r.padding_spec() == self.padding_spec(),
            r.rc_spec() == self.rc_spec(),
            r.pt_spec() == self.pt_spec(),
            r.length_spec() == self.length_spec(),
    {
        RtpBuilder { version, ..self }
    }

    pub fn padding(self, padding: u8) -> (r: Self)
        ensures
            r.version_spec() == self.version_spec(),
            r.padding_spec() == padding,
            r.rc_spec() == self.rc_spec(),
            r.pt_spec() == self.pt_spec(),
            r.length_spec() == self.length_spec(),
    {
        RtpBuilder { padding, ..self }
    }

    pub fn rc(self, rc: u8) -> (r: Self)
        ensures
            r.version_spec() == self.version_spec(),
            r.padding_spec() == self.padding_spec(),
            r.rc_spec() == rc,
            r.pt_spec() == self.pt_spec(),
            r.length_spec() == self.length_spec(),
    {
        RtpBuilder { rc, ..self }
    }

    pub fn pt(self, pt: u8) -> (r: Self)
        ensures
            r.version_spec() == self.version_spec(),
            r.padding_spec() == self.padding_spec(),
            r.rc_spec() == self.rc_spec(),
            r.pt_spec() == pt,
            r.length_spec() == self.length_spec(),
    {
        RtpBuilder { pt, ..self }
    }

    pub fn length(self, length: u16) -> (r: Self)
        ensures
            r.version_spec() == self.version_spec(),
            r.padding_spec() == self.padding_spec(),
            r.rc_spec() == self.rc_spec(),
            r.pt_spec() == self.pt_spec(),
            r.length_spec() == length,
    {
        RtpBuilder { length, ..self }
    }

    /// Writes the four header bytes at the start of `rtcp_packet`; the rest is
    /// left as it was.
    pub fn build(&self, rtcp_packet: &mut [u8])
        requires
            old(rtcp_packet)@.len() >= 4,
        ensures
            final(rtcp_packet)@.len() == old(rtcp_packet)@.len(),
            final(rtcp_packet)@[0] == first_byte(self.version_spec(), self.padding_spec(), self.rc_spec()),
            final(rtcp_packet)@[1] == self.pt_spec(),
            be16(final(rtcp_packet)@[2], final(rtcp_packet)@[3]) == self.length_spec() as int,
            forall|i: int| 4 <= i < old(rtcp_packet)@.len() ==> final(rtcp_packet)@[i] == old(rtcp_packet)@[i],
    {
        rtcp_packet[0] = self.version | (self.padding << 2u8) | (self.rc << 3u8);
        rtcp_packet[1] = self.pt;
        write_be16(rtcp_packet, 2, self.length);
    }
}

} // verus!
