use vstd::prelude::*;
use crate::rtp_parser::{be16, be32, RTP_HEADER_LEN};

verus! {

/// Builder for an RTP header followed by an optional payload.
pub struct RtpBuilder<'a> {
    version: u8,
    padding: u8,
    extension: u8,
    csrc_count: u8,
    marker: u8,
    payload_type: u8,
    sequence_number: u16,
    time_stamp: u32,
    ssrc: u32,
    payload: Option<&'a [u8]>,
}

/// The first header byte: the four small fields packed at bit offsets 0, 2, 3 and 4.
pub open spec fn first_byte(version: u8, padding: u8, extension: u8, csrc_count: u8) -> u8 {
    version | (padding << 2u8) | (extension << 3u8) | (csrc_count << 4u8)
}

impl<'a> RtpBuilder<'a> {
    pub closed spec fn version_spec(&self) -> u8 { self.version }
    pub closed spec fn padding_spec(&self) -> u8 { self.padding }
    pub closed spec fn extension_spec(&self) -> u8 { self.extension }
    pub closed spec fn csrc_count_spec(&self) -> u8 { self.csrc_count }
    pub closed spec fn marker_spec(&self) -> u8 { self.marker }
    pub closed spec fn payload_type_spec(&self) -> u8 { self.payload_type }
    pub closed spec fn sequence_number_spec(&self) -> u16 { self.sequence_number }
    pub closed spec fn time_stamp_spec(&self) -> u32 { self.time_stamp }
    pub closed spec fn ssrc_spec(&self) -> u32 { self.ssrc }

    /// The payload bytes, empty when none was set.
    pub closed spec fn payload_spec(&self) -> Seq<u8> {
        match self.payload {
            Some(p) => p@,
            None => Seq::empty(),
        }
    }

    /// The packet length that `build` writes.
    pub open spec fn packet_len(&self) -> int {
        RTP_HEADER_LEN as int + self.payload_spec().len()
    }

    /// All fields zero but the payload type, which is 0xFF; no payload.
    pub fn new() -> (r: Self)
        ensures
            r.version_spec() == 0,
            r.padding_spec() == 0,
            r.extension_spec() == 0,
            r.csrc_count_spec() == 0,
            r.marker_spec() == 0,
            r.payload_type_spec() == 0xFF,
            r.sequence_number_spec() == 0,
            r.time_stamp_spec() == 0,
            r.ssrc_spec() == 0,
            r.payload_spec() == Seq::<u8>::empty(),
    {
        RtpBuilder {
            version: 0,
            padding: 0,
            extension: 0,
            csrc_count: 0,
            marker: 0,
            payload_type: 0xFF,
            sequence_number: 0,
            time_stamp: 0,
            ssrc: 0,
            payload: None,
        }
    }

    pub fn version(self, version: u8) -> (r: Self)
        ensures
            r.version_spec() == version,
            r.padding_spec() == self.padding_spec(),
            r.extension_spec() == self.extension_spec(),
            r.csrc_count_spec() == self.csrc_count_spec(),
            r.marker_spec() == self.marker_spec(),
            r.payload_type_spec() == self.payload_type_spec(),
            r.sequence_number_spec() == self.sequence_number_spec(),
            r.time_stamp_spec() == self.time_stamp_spec(),
            r.ssrc_spec() == self.ssrc_spec(),
            r.payload_spec() == self.payload_spec(),
    {
        RtpBuilder { version, ..self }
    }

    pub fn padding(self, padding: u8) -> (r: Self)
        ensures
            r.version_spec() == self.version_spec(),
            r.padding_spec() == padding,
            r.extension_spec() == self.extension_spec(),
            r.csrc_count_spec() == self.csrc_count_spec(),
            r.marker_spec() == self.marker_spec(),
            r.payload_type_spec() == self.payload_type_spec(),
            r.sequence_number_spec() == self.sequence_number_spec(),
            r.time_stamp_spec() == self.time_stamp_spec(),
            r.ssrc_spec() == self.ssrc_spec(),
            r.payload_spec() == self.payload_spec(),
    {
        RtpBuilder { padding, ..self }
    }

    pub fn extension(self, extension: u8) -> (r: Self)
        ensures
            r.version_spec() == self.version_spec(),
            r.padding_spec() == self.padding_spec(),
            r.extension_spec() == extension,
            r.csrc_count_spec() == self.csrc_count_spec(),
            r.marker_spec() == self.marker_spec(),
            r.payload_type_spec() == self.payload_type_spec(),
            r.sequence_number_spec() == self.sequence_number_spec(),
            r.time_stamp_spec() == self.time_stamp_spec(),
            r.ssrc_spec() == self.ssrc_spec(),
            r.payload_spec() == self.payload_spec(),
    {
        RtpBuilder { extension, ..self }
    }

    pub fn csrc_count(self, csrc_count: u8) -> (r: Self)
        ensures
            r.version_spec() == self.version_spec(),
            r.padding_spec() == self.padding_spec(),
            r.extension_spec() == self.extension_spec(),
            r.csrc_count_spec() == csrc_count,
            r.marker_spec() == self.marker_spec(),
            r.payload_type_spec() == self.payload_type_spec(),
            r.sequence_number_spec() == self.sequence_number_spec(),
            r.time_stamp_spec() == self.time_stamp_spec(),
            r.ssrc_spec() == self.ssrc_spec(),
            r.payload_spec() == self.payload_spec(),
    {
        RtpBuilder { csrc_count, ..self }
    }

    pub fn marker(self, marker: u8) -> (r: Self)
        ensures
            r.version_spec() == self.version_spec(),
            r.padding_spec() == self.padding_spec(),
            r.extension_spec() == self.extension_spec(),
            r.csrc_count_spec() == self.csrc_count_spec(),
            r.marker_spec() == marker,
            r.payload_type_spec() == self.payload_type_spec(),
            r.sequence_number_spec() == self.sequence_number_spec(),
            r.time_stamp_spec() == self.time_stamp_spec(),
            r.ssrc_spec() == self.ssrc_spec(),
            r.payload_spec() == self.payload_spec(),
    {
        RtpBuilder { marker, ..self }
    }

    pub fn payload_type(self, payload_type: u8) -> (r: Self)
        ensures
            r.version_spec() == self.version_spec(),
            r.padding_spec() == self.padding_spec(),
            r.extension_spec() == self.extension_spec(),
            r.csrc_count_spec() == self.csrc_count_spec(),
            r.marker_spec() == self.marker_spec(),
            r.payload_type_spec() == payload_type,
            r.sequence_number_spec() == self.sequence_number_spec(),
            r.time_stamp_spec() == self.time_stamp_spec(),
            r.ssrc_spec() == self.ssrc_spec(),
            r.payload_spec() == self.payload_spec(),
    {
        RtpBuilder { payload_type, ..self }
    }

    pub fn sequence_number(self, sequence_number: u16) -> (r: Self)
        ensures
            r.version_spec() == self.version_spec(),
            r.padding_spec() == self.padding_spec(),
            r.extension_spec() == self.extension_spec(),
            r.csrc_count_spec() == self.csrc_count_spec(),
            r.marker_spec() == self.marker_spec(),
            r.payload_type_spec() == self.payload_type_spec(),
            r.sequence_number_spec() == sequence_number,
            r.time_stamp_spec() == self.time_stamp_spec(),
            r.ssrc_spec() == self.ssrc_spec(),
            r.payload_spec() == self.payload_spec(),
    {
        RtpBuilder { sequence_number, ..self }
    }

    pub fn time_stamp(self, time_stamp: u32) -> (r: Self)
        ensures
            r.version_spec() == self.version_spec(),
            r.padding_spec() == self.padding_spec(),
            r.extension_spec() == self.extension_spec(),
            r.csrc_count_spec() == self.csrc_count_spec(),
            r.marker_spec() == self.marker_spec(),
            r.payload_type_spec() == self.payload_type_spec(),
            r.sequence_number_spec() == self.sequence_number_spec(),
            r.time_stamp_spec() == time_stamp,
            r.ssrc_spec() == self.ssrc_spec(),
            r.payload_spec() == self.payload_spec(),
    {
        RtpBuilder { time_stamp, ..self }
    }

    pub fn ssrc(self, ssrc: u32) -> (r: Self)
        ensures
            r.version_spec() == self.version_spec(),
            r.padding_spec() == self.padding_spec(),
            r.extension_spec() == self.extension_spec(),
            r.csrc_count_spec() == self.csrc_count_spec(),
            r.marker_spec() == self.marker_spec(),
            r.payload_type_spec() == self.payload_type_spec(),
            r.sequence_number_spec() == self.sequence_number_spec(),
            r.time_stamp_spec() == self.time_stamp_spec(),
            r.ssrc_spec() == ssrc,
            r.payload_spec() == self.payload_spec(),
    {
        RtpBuilder { ssrc, ..self }
    }

    pub fn payload(self, payload: &'a [u8]) -> (r: Self)
        ensures
            r.version_spec() == self.version_spec(),
            r.padding_spec() == self.padding_spec(),
            r.extension_spec() == self.extension_spec(),
            r.csrc_count_spec() == self.csrc_count_spec(),
            r.marker_spec() == self.marker_spec(),
            r.payload_type_spec() == self.payload_type_spec(),
            r.sequence_number_spec() == self.sequence_number_spec(),
            r.time_stamp_spec() == self.time_stamp_spec(),
            r.ssrc_spec() == self.ssrc_spec(),
            r.payload_spec() == payload@,
    {
        RtpBuilder { payload: Some(payload), ..self }
    }

    /// Writes the header, then the payload if any, at the start of `rtp_packet`;
    /// bytes past them are left as they were.
    pub fn build(&self, rtp_packet: &mut [u8])
        requires
            old(rtp_packet)@.len() >= self.packet_len(),
        ensures
            final(rtp_packet)@.len() == old(rtp_packet)@.len(),
            final(rtp_packet)@[0] == first_byte(self.version_spec(), self.padding_spec(),
                self.extension_spec(), self.csrc_count_spec()),
            final(rtp_packet)@[1] == self.payload_type_spec(),
            be16(final(rtp_packet)@[2], final(rtp_packet)@[3]) == self.sequence_number_spec() as int,
            be32(final(rtp_packet)@[4], final(rtp_packet)@[5], final(rtp_packet)@[6],
                final(rtp_packet)@[7]) == self.time_stamp_spec() as int,
            be32(final(rtp_packet)@[8], final(rtp_packet)@[9], final(rtp_packet)@[10],
                final(rtp_packet)@[11]) == self.ssrc_spec() as int,
            final(rtp_packet)@.subrange(RTP_HEADER_LEN as int, self.packet_len())
                == self.payload_spec(),
            forall|i: int|
                self.packet_len() <= i < old(rtp_packet)@.len()
                    ==> final(rtp_packet)@[i] == old(rtp_packet)@[i],
    {
        if let Some(payload) = self.payload {
            let n = rtp_packet.len();
            let mut i: usize = 0;
            while i < payload.len()
                invariant
                    payload@ == self.payload_spec(),
                    rtp_packet@.len() == old(rtp_packet)@.len(),
                    rtp_packet@.len() == n,
                    old(rtp_packet)@.len() >= RTP_HEADER_LEN + payload@.len(),
                    i <= payload@.len(),
                    forall|k: int|
                        RTP_HEADER_LEN + payload@.len() <= k < rtp_packet@.len()
                            ==> rtp_packet@[k] == old(rtp_packet)@[k],
                    forall|k: int| 0 <= k < i ==> rtp_packet@[RTP_HEADER_LEN + k] == payload@[k],
                decreases payload@.len() - i,
            {
                rtp_packet[RTP_HEADER_LEN + i] = payload[i];
                i = i + 1;
            }
        }
        rtp_packet[0] = self.version | (self.padding << 2u8) | (self.extension << 3u8)
            | (self.csrc_count << 4u8);
        rtp_packet[1] = self.payload_type;
        write_be16(rtp_packet, 2, self.sequence_number);
        write_be32(rtp_packet, 4, self.time_stamp);
        write_be32(rtp_packet, 8, self.ssrc);
        assert(rtp_packet@.subrange(RTP_HEADER_LEN as int, self.packet_len()) =~= self.payload_spec());
    }
}

/// Writes `v` big-endian at `at..at + 2`, leaving the other bytes as they were.
pub fn write_be16(buf: &mut [u8], at: usize, v: u16)
    requires
        at + 2 <= old(buf)@.len(),
    ensures
        final(buf)@.len() == old(buf)@.len(),
        be16(final(buf)@[at as int], final(buf)@[at + 1]) == v as int,
        forall|k: int| 0 <= k < old(buf)@.len() && !(at <= k < at + 2) ==> final(buf)@[k] == old(buf)@[k],
{
    buf[at] = (v / 256) as u8;
    buf[at + 1] = (v % 256) as u8;
}

/// Writes `v` big-endian at `at..at + 4`, leaving the other bytes as they were.
pub fn write_be32(buf: &mut [u8], at: usize, v: u32)
    requires
        at + 4 <= old(buf)@.len(),
    ensures
        final(buf)@.len() == old(buf)@.len(),
        be32(final(buf)@[at as int], final(buf)@[at + 1], final(buf)@[at + 2], final(buf)@[at + 3])
            == v as int,
        forall|k: int| 0 <= k < old(buf)@.len() && !(at <= k < at + 4) ==> final(buf)@[k] == old(buf)@[k],
{
    buf[at] = (v / 16777216) as u8;
    buf[at + 1] = (v / 65536 % 256) as u8;
    buf[at + 2] = (v / 256 % 256) as u8;
    buf[at + 3] = (v % 256) as u8;
}

} // verus!
