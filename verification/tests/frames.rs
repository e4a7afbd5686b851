use c6_open_mac::frame::{
    cr_hal_now, cr_ic_interface_enabled, cr_lmacIsLongFrame, cr_ppProcTxSecFrame, cr_ppTxProtoProc,
    raw_setup,
};
use c6_open_mac::layout::{Eb, PendingQ};
use c6_open_mac::mmio::{rd, rd16, rd8, Mem};
use c6_open_mac::pending::{append, cr_ppGetTxframe};

const B: u32 = 0x4081_0000;
const EB: Eb = Eb(B);
const TI: u32 = B + 0x48;
const DESC: u32 = B + 0x3c;
const FRAME: u32 = B + 0xb8;

/// A block of the pool with the given frame-control byte and first receiver byte.
fn block(fc: u8, addr1: u8) -> Mem {
    let mut m = Mem::new();
    m.poke32(B + 0x04, DESC);
    m.poke32(B + 0x08, DESC);
    m.poke32(B + 0x34, TI);
    m.poke32(DESC, 0x68);
    m.poke32(DESC + 4, FRAME);
    m.poke32(TI, 0x2000);
    m.poke16(B + 0x16, 64);
    m.poke8(FRAME, fc);
    m.poke8(FRAME + 4, addr1);
    m
}

#[test]
fn a_raw_beacon_is_set_up() {
    let mut m = block(0x80, 0xff);
    m.poke16(B + 0x14, 8);
    m.poke32(B + 0x2c, 0x1234);
    m.poke32(TI + 0x10, 0xffff_ffff);
    m.poke8(TI + 0x0c, 0x10);
    m.poke32(0x600a_d000, 0xcafe);
    assert_eq!(raw_setup(&mut m, EB, 0x123).0, TI);
    assert_eq!(rd(&m, DESC), 0xc000_0068 | (64 << 14));
    assert_eq!(EB.prefix_len(&m), 0);
    assert_eq!(EB.trc(&m), 0);
    assert_eq!(rd(&m, TI), 0x2402);
    assert_eq!(rd8(&m, TI + 4), 7);
    assert_eq!(rd8(&m, TI + 0x0c), 0);
    assert_eq!(rd(&m, TI + 0x10), 0xfff7_ffff);
    assert_eq!(rd(&m, TI + 0x18), 0xcafe);
    assert_eq!(rd16(&m, FRAME + 0x16), 0x1230);
    assert_eq!(cr_hal_now(&m), 0xcafe);
}

#[test]
fn a_raw_unicast_frame_awaits_its_ack() {
    let mut m = block(0x80, 0x02);
    raw_setup(&mut m, EB, 0xffff);
    assert_eq!(rd(&m, TI), 0x2000);
    assert_eq!(rd16(&m, FRAME + 0x16), 0xfff0);
}

#[test]
fn protocol_flags_by_frame_type() {
    let cases = [
        (0x80, 0xff, 0, 0x2002),
        (0x80, 0x02, 0, 0x2000),
        (0x50, 0x02, 0, 0x800_2000),
        (0x50, 0xff, 0, 0x2002),
        (0x40, 0x02, 0, 0x2800),
        (0x40, 0x01, 0, 0x2002),
        (0x08, 0x02, 0, 0x2008),
        (0x88, 0x02, 0, 0x2008),
        (0x48, 0x02, 0, 0x2000),
        (0xc8, 0x02, 0, 0x2000),
        (0x48, 0x02, 0x2_0000, 0x2008),
        (0xb4, 0x02, 0, 0x2000),
    ];
    for (fc, addr1, word30, want) in cases {
        let mut m = block(fc, addr1);
        m.poke32(TI + 0x30, word30);
        cr_ppTxProtoProc(&mut m, EB);
        assert_eq!(rd(&m, TI), want, "fc {fc:#x} addr1 {addr1:#x}");
    }
}

#[test]
fn protocol_flags_look_behind_the_header() {
    let mut m = block(0x80, 0xff);
    m.poke16(B + 0x24, 0x2000);
    m.poke32(DESC + 4, FRAME - 8);
    cr_ppTxProtoProc(&mut m, EB);
    assert_eq!(rd(&m, TI), 0x2002);
}

#[test]
fn the_security_header_is_put_in_front_once() {
    let mut m = block(0x80, 0xff);
    m.poke32(DESC, 0x8000_0068 | (64 << 14));
    m.poke32(FRAME - 8, 0xffff_ffff);
    m.poke32(FRAME - 4, 0xffff_ffff);
    assert_eq!(cr_ppProcTxSecFrame(&mut m, EB), 0);
    assert_eq!(EB.payload_len(&m), 68);
    assert_eq!(EB.prefix_len(&m), 8);
    assert_eq!(EB.flags16(&m), 0x2000);
    assert_eq!(rd(&m, DESC), 0xc000_0068 | (76 << 14));
    assert_eq!(rd(&m, DESC + 4), FRAME - 8);
    assert_eq!(rd(&m, FRAME - 8), 68);
    assert_eq!(rd(&m, FRAME - 4), 0);
    assert_eq!(rd8(&m, FRAME), 0x80);
    cr_ppProcTxSecFrame(&mut m, EB);
    assert_eq!(rd(&m, DESC + 4), FRAME - 8);
    assert_eq!(EB.prefix_len(&m), 8);
    assert_eq!(EB.payload_len(&m), 72);
    assert_eq!(rd(&m, DESC), 0xc000_0068 | (80 << 14));
    assert_eq!(rd(&m, FRAME - 8), 72);
}

#[test]
fn the_security_header_length_comes_from_the_key_type() {
    let mut m = block(0x80, 0xff);
    m.poke32(TI + 0x10, 3 << 8);
    m.poke8(0x4200_b100 + 2, 16);
    cr_ppProcTxSecFrame(&mut m, EB);
    assert_eq!(EB.payload_len(&m), 80);
    let mut m = block(0x80, 0xff);
    m.poke32(TI + 0x10, 0xa << 8);
    cr_ppProcTxSecFrame(&mut m, EB);
    assert_eq!(EB.payload_len(&m), 68);
}

#[test]
fn he_frames_and_encrypted_aggregates_keep_their_header() {
    for flags in [0x8000_0000, 0x100_0000, 0x4_0000] {
        let mut m = block(0x80, 0xff);
        m.poke32(TI, flags);
        assert_eq!(cr_ppProcTxSecFrame(&mut m, EB), 0);
        assert_eq!(EB.payload_len(&m), 68);
        assert_eq!(rd(&m, DESC), 0x68 | (4 << 14));
        assert_eq!(rd(&m, DESC + 4), FRAME);
        assert_eq!(EB.flags16(&m), 0);
    }
}

#[test]
fn interfaces_are_enabled_by_bit() {
    let mut m = Mem::new();
    m.poke32(0x4087_ff68, 0x4081_2000);
    m.poke8(0x4081_2031, 1);
    assert_eq!(cr_ic_interface_enabled(&m, 0), 1);
    assert_eq!(cr_ic_interface_enabled(&m, 1), 0);
    assert_eq!(cr_ic_interface_enabled(&m, 32), 1);
    m.poke8(0x4081_2031, 2);
    assert_eq!(cr_ic_interface_enabled(&m, 0), 0);
    assert_eq!(cr_ic_interface_enabled(&m, 1), 1);
}

#[test]
fn long_frames_exceed_the_threshold() {
    let mut m = block(0x80, 0xff);
    let mib = 0x4081_17d8;
    m.poke16(mib + 0x16, 72);
    m.poke16(B + 0x14, 8);
    assert_eq!(cr_lmacIsLongFrame(&m, mib, EB), 0);
    m.poke16(mib + 0x16, 71);
    assert_eq!(cr_lmacIsLongFrame(&m, mib, EB), 1);
}

const CXT: u32 = 0x4082_0000;

fn lists() -> (Mem, PendingQ) {
    let mut m = Mem::new();
    m.poke32(0x4087_ff80, CXT);
    m.poke32(CXT + 0x34 + 0x24, CXT + 0x34 + 0x20);
    let q = PendingQ::for_ac(&m, 1);
    (m, q)
}

#[test]
fn pending_frames_come_out_in_order() {
    let (mut m, q) = lists();
    let ebs = [0x4081_0000, 0x4081_1000, 0x4081_2000];
    for b in ebs {
        append(&mut m, q, Eb(b));
    }
    assert_eq!(q.head(&m), ebs[0]);
    assert_eq!(q.tail(&m), ebs[2] + 0x30);
    for b in ebs {
        assert_eq!(cr_ppGetTxframe(&mut m, 1), Eb(b));
        assert_eq!(Eb(b).pending_next(&m), 0);
    }
    assert_eq!(q.tail(&m), q.head_addr());
    assert!(cr_ppGetTxframe(&mut m, 1).is_null());
}

#[test]
fn a_pop_undoes_an_append_to_an_empty_list() {
    let (mut m, q) = lists();
    append(&mut m, q, Eb(0x4081_0000));
    assert_eq!(cr_ppGetTxframe(&mut m, 1), Eb(0x4081_0000));
    assert_eq!(q.head(&m), 0);
    assert_eq!(q.tail(&m), q.head_addr());
    append(&mut m, q, Eb(0x4081_1000));
    assert_eq!(q.head(&m), 0x4081_1000);
}

#[test]
fn a_guarded_list_is_not_popped() {
    let (mut m, q) = lists();
    append(&mut m, q, Eb(0x4081_0000));
    m.take_stores();
    m.poke8(CXT + 0x34 + 0x29, 1);
    assert!(cr_ppGetTxframe(&mut m, 1).is_null());
    m.poke8(CXT + 0x34 + 0x29, 0);
    m.poke32(CXT + 0x34 + 0x34, 1);
    assert!(cr_ppGetTxframe(&mut m, 1).is_null());
    assert!(m.stores().is_empty());
    m.poke32(CXT + 0x34 + 0x34, 0);
    assert_eq!(cr_ppGetTxframe(&mut m, 1), Eb(0x4081_0000));
}
