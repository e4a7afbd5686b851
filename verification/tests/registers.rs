use c6_open_mac::interpose::txq_plcp0_enable_addr;
use c6_open_mac::layout::{
    if_enabled_mask, our_instances_base, DmaDesc, Eb, LmacTxq, PendingQ, TxInfo,
};
use c6_open_mac::mac_reg;
use c6_open_mac::mmio::{rd, rd8, Mem};

#[test]
fn slot_zero_registers_are_at_their_base() {
    assert_eq!(mac_reg::plcp0_enable(0), 0x600a_4d6c);
    assert_eq!(mac_reg::conf0(0), 0x600a_4d60);
    assert_eq!(mac_reg::conf1(0), 0x600a_4d68);
    assert_eq!(mac_reg::conf1_real(0), 0x600a_4d64);
    assert_eq!(mac_reg::resp_dur(0), 0x600a_54bc);
    assert_eq!(mac_reg::txlen(0), 0x600a_54b8);
    assert_eq!(mac_reg::plcp1(0), 0x600a_5488);
    assert_eq!(mac_reg::plcp_rate_dur(0), 0x600a_54ac);
    assert_eq!(mac_reg::prot_thresh(0), 0x600a_548c);
    assert_eq!(mac_reg::pti(0), 0x600a_5490);
    assert_eq!(mac_reg::pmd(0), 0x600a_54e8);
}

#[test]
fn slots_step_down_by_their_stride() {
    assert_eq!(mac_reg::plcp0_enable(1), 0x600a_4d5c);
    assert_eq!(mac_reg::plcp0_enable(7), 0x600a_4cfc);
    assert_eq!(mac_reg::conf1(3), 0x600a_4d38);
    assert_eq!(mac_reg::pmd(1), 0x600a_5474);
    assert_eq!(mac_reg::resp_dur(7), 0x600a_5190);
}

#[test]
fn no_two_slot_registers_overlap() {
    let conf = [
        mac_reg::plcp0_enable as fn(u32) -> u32,
        mac_reg::conf0,
        mac_reg::conf1,
        mac_reg::conf1_real,
    ];
    let mut all: Vec<u32> = Vec::new();
    for f in conf {
        for s in 0..8 {
            all.push(f(s));
        }
    }
    all.sort();
    for w in all.windows(2) {
        assert!(w[0] + 4 <= w[1]);
    }
}

#[test]
fn the_signed_queue_address_is_the_slot_register() {
    for ac in [0i32, 1, 2, 7, -1, i32::MIN, i32::MAX] {
        assert_eq!(txq_plcp0_enable_addr(ac), mac_reg::plcp0_enable(ac as u32));
    }
    assert_eq!(txq_plcp0_enable_addr(-1), 0x600a_4d7c);
}

#[test]
fn per_ac_blocks_have_a_stride_of_0x34() {
    let mut m = Mem::new();
    m.poke32(0x4004_ffe0, 0x4081_0000);
    m.poke32(0x4087_ff80, 0x4082_0000);
    assert_eq!(our_instances_base(&m), 0x4081_0000);
    assert_eq!(LmacTxq::for_ac(&m, 2).ptr(), 0x4081_0068);
    assert_eq!(LmacTxq::in_array(0x100, 4).ptr(), 0x1d0);
    assert_eq!(PendingQ::for_ac(&m, 1).head_addr(), 0x4082_0054);
}

#[test]
fn the_enable_mask_is_found_through_its_pointer() {
    let mut m = Mem::new();
    m.poke32(0x4087_ff68, 0x4081_2000);
    m.poke8(0x4081_2031, 0x5);
    assert_eq!(if_enabled_mask(&m), 5);
}

#[test]
fn descriptor_length_grows_without_touching_the_rest() {
    let mut m = Mem::new();
    let d = DmaDesc(0x4081_0000);
    d.set_ctrl(&mut m, 0xc000_0068 | (57 << 14));
    d.add_len(&mut m, 12);
    assert_eq!(d.ctrl(&m), 0xc000_0068 | (69 << 14));
    d.set_ctrl(&mut m, 0x9000_0001 | (0x3fff << 14));
    d.add_len(&mut m, 2);
    assert_eq!(d.ctrl(&m), 0x9000_0001 | (1 << 14));
}

#[test]
fn accessors_use_their_offsets() {
    let mut m = Mem::new();
    let eb = Eb(0x4081_0000);
    m.poke32(0x4081_0004, 0x11);
    m.poke32(0x4081_0008, 0x22);
    m.poke32(0x4081_002c, 0x33);
    m.poke32(0x4081_0034, 0x4082_0000);
    assert_eq!(eb.dma_desc(&m), DmaDesc(0x11));
    assert_eq!(eb.sec_desc(&m), DmaDesc(0x22));
    assert_eq!(eb.trc(&m), 0x33);
    let ti = eb.txinfo(&m);
    assert_eq!(ti, TxInfo(0x4082_0000));
    ti.set_word10(&mut m, 0x0038_0142);
    assert_eq!(ti.iface(&m), 1);
    assert_eq!(ti.ac(&m), 3);
    assert_eq!(ti.keyslot(&m), 0x42);
    ti.set_rate(&mut m, 5);
    assert_eq!(rd8(&m, 0x4082_000c), 5);
    ti.set_timestamp(&mut m, 99);
    assert_eq!(rd(&m, 0x4082_0018), 99);
    eb.set_payload_len(&mut m, 57);
    assert_eq!(rd(&m, 0x4081_0014), 57 << 16);
    assert_eq!(eb.pending_next_addr(), 0x4081_0030);
    assert!(Eb(0).is_null());
    assert!(!eb.is_null());
    assert_eq!(eb.addr(), 0x4081_0000);
}
