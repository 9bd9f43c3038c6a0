use user_net::net_util::{addr_identifier, compute_ip_checksum, get_bits, htons, ntohl, ntohs};

#[test]
fn test_get_bits() {
    let x = 240; // 1111 0000

    let res = get_bits(x, 0..4);
    assert_eq!(res, 0);

    let res = get_bits(x, 4..8);
    assert_eq!(res, 15);

    let res = get_bits(x, 4..7);
    assert_eq!(res, 7);

    let res = get_bits(x, 0..8);
    assert_eq!(res, 240);

    let res = get_bits(x, 4..6);
    assert_eq!(res, 3);

    let y = 0b10100110;

    assert_eq!(get_bits(y, 0..3), 6);
    assert_eq!(get_bits(y, 1..3), 3);
}

#[test]
fn test_ntohs() {
    let x: [u8; 2] = [0xab, 0xcc];
    let res = ntohs(&x);
    assert_eq!(res, 0xabcc);
    let r1: u16 = 0xff00;
    let r2: u16 = 0x00ff;
    assert_eq!(res & r1, 0xab00);
    assert_eq!(res & r2, 0x00cc);
}

#[test]
fn test_htons() {
    let x: [u8; 2] = [0xab, 0xcc];
    let res = htons(&x);
    assert_eq!(res, 0xccab);
    let r1: u16 = 0xff00;
    let r2: u16 = 0x00ff;
    assert_eq!(res & r1, 0xcc00);
    assert_eq!(res & r2, 0x00ab);
}

#[test]
fn test_compute_ip_checksum() {
    let mut packet_bytes: [u8; 7] = [1, 2, 1, 2, 1, 2, 1];
    packet_bytes[2] = 0x20;
    packet_bytes[3] = 0x40;
    let (computed_chksum, current_chksum) = compute_ip_checksum(&packet_bytes, 2..4);
    assert_eq!(current_chksum, 0x2040);
    // [1, 2, 0, 0, 1, 2, 1, 0] (one zero byte of padding)
    // 0x0102 + 0x0000 + 0x0102 + 0x0100 => 0x304 => one's complement of 0x304
    assert_eq!(computed_chksum, !0x304);

    // 16-bit overflow: the carries are folded back in
    let packet_bytes: [u8; 8] = [0xff, 0xff, 0xff, 0xff, 0xff, 0xff, 0xff, 0xff];
    let (computed_chksum, _) = compute_ip_checksum(&packet_bytes, 2..4);
    // 0xffff + 0xffff + 0xffff => 0x2FFFD => 0xfffd + 2 => 0xffff => one's complement of 0xffff
    assert_eq!(computed_chksum, 0x0000);
}

#[test]
fn get_bits_boundaries() {
    assert_eq!(get_bits(0b11110000, 0..4), 0);
    assert_eq!(get_bits(0b11110000, 4..8), 15);
    assert_eq!(get_bits(0b10100110, 1..3), 3);
    assert_eq!(get_bits(0b10100110, 3..3), 0);
}

#[test]
fn checksum_of_all_ones_folds_to_zero() {
    let (computed, current) = compute_ip_checksum(&[0xff; 8], 2..4);
    assert_eq!(computed, 0x0000);
    assert_eq!(current, 0xffff);
}

#[test]
fn checksum_of_empty_field_sequence() {
    // Only the checksum field itself: the sum is zero, its complement 0xffff.
    let (computed, current) = compute_ip_checksum(&[0x12, 0x34], 0..2);
    assert_eq!(computed, 0xffff);
    assert_eq!(current, 0x1234);
}

#[test]
fn ntohl_reads_big_endian() {
    assert_eq!(ntohl(&[0x01, 0x02, 0x03, 0x04]), 0x01020304);
    assert_eq!(ntohl(&[0xff, 0, 0, 0x10]), 0xff000010);
}

#[test]
fn identifier_text_of_address() {
    assert_eq!(addr_identifier([10, 0, 0, 2], 5055), "10.0.0.2:5055");
    assert_eq!(addr_identifier([192, 168, 100, 255], 0), "192.168.100.255:0");
    assert_eq!(addr_identifier([0, 0, 0, 0], 65535), "0.0.0.0:65535");
}
