use dtmf::rtcp_builder;
use dtmf::rtcp_parser::RtcpPacketParser;
use dtmf::rtp_builder::RtpBuilder;
use dtmf::rtp_parser::RtpPacketParser;

#[test]
fn rtp_builder_test_all() {
    let payload = [1u8; 4];
    let mut hoge = [0u8; 16];
    let packet: () = RtpBuilder::new()
        .payload_type(1)
        .payload(&payload)
        .build(hoge.as_mut_slice());
    println!("{:?}", hoge);
    assert_eq!(packet, ());
    assert_eq!(hoge, [0, 1, 0, 0, 0, 0, 0, 0, 0, 0, 0, 0, 1, 1, 1, 1]);
}

#[test]
fn rtp_parser_test_all() {
    let hoge = [0, 1, 0, 0, 0, 0, 0, 0, 0, 0, 0, 0, 1, 1, 1, 1];
    let packet = RtpPacketParser::new(&hoge);

    println!("{:?}", packet.ssrc());
    println!("{:?}", packet.payload_type());
    assert_eq!(packet.ssrc(), 0);
    assert_eq!(packet.payload_type(), 1);
    assert_eq!(packet.payload(), &[1, 1, 1, 1]);
}

#[test]
fn rtcp_builder_test_all() {
    let mut hoge = [0u8; 16];
    let packet: () = rtcp_builder::RtpBuilder::new().pt(1).length(16).build(hoge.as_mut_slice());
    println!("{:?}", hoge);
    assert_eq!(packet, ());
    assert_eq!(&hoge[..4], &[0, 1, 0, 16]);
}

#[test]
fn rtcp_parser_test_all() {
    let hoge = [0, 1, 0, 0, 0, 0, 0, 0, 0, 0, 0, 0, 1, 1, 1, 1];
    let packet = RtcpPacketParser::new(&hoge);

    println!("{:?}", packet.pt());
    println!("{:?}", packet.sequence_number());
    assert_eq!(packet.pt(), 1);
    assert_eq!(packet.sequence_number(), 0);
}

#[test]
fn rtp_header_fields_round_trip() {
    let payload = [9u8, 8, 7];
    let mut buf = [0xAAu8; 20];
    RtpBuilder::new()
        .version(2)
        .padding(1)
        .extension(1)
        .csrc_count(3)
        .marker(1)
        .payload_type(96)
        .sequence_number(0x1234)
        .time_stamp(0xDEADBEEF)
        .ssrc(0x01020304)
        .payload(&payload)
        .build(buf.as_mut_slice());
    assert_eq!(buf[0], 2 | (1 << 2) | (1 << 3) | (3 << 4));
    let p = RtpPacketParser::new(&buf[..15]);
    assert_eq!(p.version(), 2);
    assert_eq!(p.padding(), 0x04);
    assert_eq!(p.extension(), 0x08);
    assert_eq!(p.csrc_count(), 0x30);
    assert_eq!(p.payload_type(), 96);
    assert_eq!(p.sequence_number(), 0x1234);
    assert_eq!(p.time_stamp(), 0xDEADBEEF);
    assert_eq!(p.ssrc(), 0x01020304);
    assert_eq!(p.payload(), &[9, 8, 7]);
    assert_eq!(&buf[15..], &[0xAA; 5]);
}

#[test]
fn rtcp_header_fields() {
    let mut buf = [0u8; 4];
    rtcp_builder::RtpBuilder::new().version(2).padding(1).rc(5).pt(200).length(0x0102).build(&mut buf);
    let p = RtcpPacketParser::new(&buf);
    assert_eq!(p.version(), 2);
    assert_eq!(p.padding(), 0x04);
    assert_eq!(p.rc(), 5 << 3);
    assert_eq!(p.pt(), 200);
    assert_eq!(p.sequence_number(), 0x0102);
}
