use vox::packet::{parse, write_header, HEADER_LEN};

#[test]
fn header_round_trips() {
    let mut buf = vec![0u8; HEADER_LEN + 3];
    write_header(0x0102_0304, 0x0A0B_0C0D, &mut buf);
    buf[HEADER_LEN..].copy_from_slice(&[1, 2, 3]);

    let pkt = parse(&buf).expect("parses");
    assert_eq!(pkt.seq, 0x0102_0304);
    assert_eq!(pkt.timestamp, 0x0A0B_0C0D);
    assert_eq!(pkt.payload, &[1, 2, 3]);
}

#[test]
fn rejects_short_datagram() {
    assert!(parse(&[0, 1, 2]).is_none());
}

#[test]
fn header_is_big_endian() {
    let mut buf = [0xEEu8; 10];
    write_header(0x0102_0304, 0xA0B0_C0D0, &mut buf);
    assert_eq!(buf, [1, 2, 3, 4, 0xA0, 0xB0, 0xC0, 0xD0, 0xEE, 0xEE]);
    assert_eq!(&buf[..4], &0x0102_0304u32.to_be_bytes());
}

#[test]
fn a_bare_header_has_an_empty_payload() {
    let buf = [0u8, 0, 0, 7, 0, 0, 0, 9];
    let pkt = parse(&buf).unwrap();
    assert_eq!((pkt.seq, pkt.timestamp, pkt.payload.len()), (7, 9, 0));
    assert!(parse(&buf[..7]).is_none());
    assert!(parse(&[]).is_none());
}

#[test]
fn writing_back_a_parsed_header_changes_nothing() {
    let buf: Vec<u8> = (0..20).map(|i| (i * 37 + 200) as u8).collect();
    let pkt = parse(&buf).unwrap();
    let mut copy = buf.clone();
    write_header(pkt.seq, pkt.timestamp, &mut copy);
    assert_eq!(copy, buf);
}
