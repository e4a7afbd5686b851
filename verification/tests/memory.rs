use c6_open_mac::mmio::{rd, rd16, rd8, wr, wr16, wr8, Mem, Store};

#[test]
fn fresh_memory_reads_as_zero() {
    let m = Mem::new();
    assert_eq!(rd(&m, 0x600a_4d6c), 0);
    assert_eq!(rd16(&m, 0x10), 0);
    assert_eq!(rd8(&m, 0xffff_ffff), 0);
    assert!(m.stores().is_empty());
}

#[test]
fn words_are_little_endian() {
    let mut m = Mem::new();
    wr(&mut m, 0x4080_0000, 0x1234_5678);
    assert_eq!(rd8(&m, 0x4080_0000), 0x78);
    assert_eq!(rd8(&m, 0x4080_0001), 0x56);
    assert_eq!(rd8(&m, 0x4080_0002), 0x34);
    assert_eq!(rd8(&m, 0x4080_0003), 0x12);
    assert_eq!(rd16(&m, 0x4080_0001), 0x3456);
    wr16(&mut m, 0x4080_0002, 0xabcd);
    assert_eq!(rd(&m, 0x4080_0000), 0xabcd_5678);
    wr8(&mut m, 0x4080_0000, 0xff);
    assert_eq!(rd(&m, 0x4080_0000), 0xabcd_56ff);
}

#[test]
fn the_address_space_wraps_around() {
    let mut m = Mem::new();
    wr(&mut m, 0xffff_fffe, 0x1122_3344);
    assert_eq!(rd16(&m, 0xffff_fffe), 0x3344);
    assert_eq!(rd16(&m, 0), 0x1122);
    assert_eq!(rd(&m, 0xffff_fffe), 0x1122_3344);
}

#[test]
fn stores_are_recorded_in_order_and_pokes_are_not() {
    let mut m = Mem::new();
    m.poke32(0x100, 7);
    m.poke16(0x104, 8);
    m.poke8(0x106, 9);
    wr(&mut m, 0x200, 1);
    wr8(&mut m, 0x204, 2);
    wr16(&mut m, 0x206, 3);
    assert_eq!(rd(&m, 0x100), 7);
    assert_eq!(rd16(&m, 0x104), 8);
    assert_eq!(rd8(&m, 0x106), 9);
    let expected = vec![
        Store::Word { addr: 0x200, val: 1 },
        Store::Byte { addr: 0x204, val: 2 },
        Store::Half { addr: 0x206, val: 3 },
    ];
    assert_eq!(m.stores(), &expected);
    assert_eq!(m.take_stores(), expected);
    assert!(m.stores().is_empty());
    assert_eq!(rd(&m, 0x200), 1);
}
