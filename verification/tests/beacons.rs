use c6_open_mac::beacon::{build, MAC_CTRL, MAC_RUST, SSID_CTRL, SSID_RUST};

#[test]
fn the_drivers_beacon_byte_for_byte() {
    let mut buf = [0xaau8; 300];
    let n = build(&mut buf, SSID_RUST, MAC_RUST);
    let expected: Vec<u8> = vec![
        0x80, 0x00, 0x00, 0x00, 0xff, 0xff, 0xff, 0xff, 0xff, 0xff, 0x02, 0x00, 0x00, 0x00, 0xc6,
        0x00, 0x02, 0x00, 0x00, 0x00, 0xc6, 0x00, 0x00, 0x00, 0x00, 0x00, 0x00, 0x00, 0x00, 0x00,
        0x00, 0x00, 0x64, 0x00, 0x01, 0x00, 0x00, 0x07, b'C', b'R', b'-', b'R', b'U', b'S', b'T',
        0x01, 0x08, 0x82, 0x84, 0x8b, 0x96, 0x0c, 0x12, 0x18, 0x24, 0x03, 0x01, 0x01, 0x05, 0x04,
        0x01, 0x02, 0x00, 0x00,
    ];
    assert_eq!(n, 64);
    assert_eq!(&buf[..n], &expected[..]);
    assert!(buf[n..].iter().all(|b| *b == 0xaa));
}

#[test]
fn the_control_beacon_has_its_own_name_and_address() {
    let mut buf = [0u8; 300];
    let n = build(&mut buf, SSID_CTRL, MAC_CTRL);
    assert_eq!(n, 64);
    assert_eq!(&buf[10..16], &[0x02, 0x00, 0x00, 0x00, 0xda, 0xb0]);
    assert_eq!(&buf[16..22], &MAC_CTRL);
    assert_eq!(&buf[38..45], b"CR-CTRL");
}

#[test]
fn a_hidden_beacon_fits_exactly() {
    let mut buf = [0u8; 57];
    assert_eq!(build(&mut buf, "", MAC_RUST), 57);
    assert_eq!(&buf[36..38], &[0x00, 0x00]);
    assert_eq!(&buf[38..40], &[0x01, 0x08]);
}

#[test]
fn the_longest_name_fits_exactly() {
    let name = "abcdefghijklmnopqrstuvwxyz012345";
    let mut buf = [0u8; 89];
    assert_eq!(build(&mut buf, name, MAC_RUST), 89);
    assert_eq!(buf[37], 32);
    assert_eq!(&buf[38..70], name.as_bytes());
    assert_eq!(&buf[83..89], &[0x05, 0x04, 0x01, 0x02, 0x00, 0x00]);
}

#[test]
fn a_beacon_is_a_broadcast_management_frame() {
    let mut buf = [0u8; 300];
    build(&mut buf, SSID_RUST, MAC_RUST);
    assert_eq!(buf[0] & 0xc, 0);
    assert_eq!(buf[4] & 1, 1);
    assert_eq!(buf[0x16], 0);
    assert_eq!(buf[0x17], 0);
}
