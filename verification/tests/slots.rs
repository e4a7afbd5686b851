use c6_open_mac::hal_mac_tx::{
    hal_attenna_init, hal_get_tx_pwr, hal_mac_clr_txq_state, hal_mac_get_txq_complete,
    hal_mac_get_txq_pmd, hal_mac_get_txq_state, hal_mac_rate_autoack_init, hal_mac_tx_clr_mplen,
    hal_mac_tx_get_blockack, hal_mac_tx_is_cbw40, hal_mac_tx_resume_ppdu, hal_mac_tx_set_ppdu,
    hal_mac_txq_disable, hal_mac_txq_enable, hal_set_tx_min_pwr, lmac_update_tx_statistic, Ppdu,
};
use c6_open_mac::layout::{Eb, LmacTxq};
use c6_open_mac::mac_reg;
use c6_open_mac::mmio::{rd, Mem, Store};
use c6_open_mac::slot::{
    cr_hal_he_set_tx_protection, cr_mac_tx_set_len, cr_mac_tx_set_pti, hal_mac_tx_config_edca,
    hal_mac_tx_config_timeout, mac_tx_next_txop_fill, mac_tx_set_plcp0, mac_tx_set_plcp1,
    mac_tx_set_txop_q,
};

const INST: u32 = 0x4081_0000;
const EB: u32 = 0x4082_0000;
const TI: u32 = 0x4082_1000;
const DESC: u32 = 0x4082_2340;
const FRAME: u32 = 0x4082_3000;

/// A control block at `INST` whose armed frame has the given flags and rate, on the given slot.
fn frame(slot: u8, flags: u32, rate: u8) -> Mem {
    let mut m = Mem::new();
    m.poke32(INST, EB);
    m.poke8(INST + 4, slot);
    m.poke32(EB + 0x04, DESC);
    m.poke32(EB + 0x34, TI);
    m.poke32(TI, flags);
    m.poke8(TI + 0x0c, rate);
    m.poke32(DESC + 4, FRAME);
    m
}

#[test]
fn plcp0_words_by_flags() {
    let cases = [
        (0x2402, 0x0062_2340),
        (0x2000, 0x0162_2340),
        (0x8_0000, 0x0262_2340),
        (0x10_0000, 0x0362_2340),
        (0x40_0000, 0x0062_2340),
        (0x4040_0000, 0x0162_2340),
        (0x8000_0000, 0x0262_2340),
        (0xc000_0000, 0x0162_2340),
    ];
    for (flags, want) in cases {
        let mut m = frame(0, flags, 0);
        assert_eq!(mac_tx_set_plcp0(&mut m, INST), 0);
        assert_eq!(rd(&m, 0x600a_4d6c), want, "flags {flags:#x}");
    }
    let mut m = frame(0, 0xc000_0000, 0);
    m.poke16(EB + 0x24, 0x1000);
    mac_tx_set_plcp0(&mut m, INST);
    assert_eq!(rd(&m, 0x600a_4d6c), 0x0562_2340);
}

#[test]
fn programming_plcp0_disarms_and_protects() {
    let mut m = frame(2, 0x100, 0);
    m.poke32(0x600a_4d4c, 0xc000_0000);
    m.poke32(TI + 0x30, 5 << 3);
    m.poke32(TI + 0x34, 0x1234_5678);
    mac_tx_set_plcp0(&mut m, INST);
    assert_eq!(rd(&m, 0x600a_4d4c) & mac_reg::SLOT_ARM, 0);
    assert_eq!(rd(&m, 0x600a_4d40), 0x8000_0000);
    assert_eq!(rd(&m, 0x600a_548c - 2 * 0x74), 0x0001_5678);
}

#[test]
fn protection_leaves_plcp0_alone() {
    let mut m = Mem::new();
    m.poke32(0x600a_4d60, 0xffff_ffff);
    m.poke32(0x600a_4d6c, 0xc062_2340);
    cr_hal_he_set_tx_protection(&mut m, 0, 0, 0, 7);
    assert_eq!(rd(&m, 0x600a_4d60), 0x7fff_ffff);
    assert_eq!(rd(&m, 0x600a_548c), 0);
    cr_hal_he_set_tx_protection(&mut m, 0, 1, 1, 7);
    assert_eq!(rd(&m, 0x600a_4d60), 0xffff_ffff);
    assert_eq!(rd(&m, 0x600a_548c), 0x1_0007);
    assert_eq!(rd(&m, 0x600a_4d6c), 0xc062_2340);
}

#[test]
fn plcp1_words_by_rate() {
    // DSSS with key slot 3 and a 64-byte frame
    let mut m = frame(0, 0, 0);
    m.poke8(TI + 0x10, 3);
    m.poke32(FRAME, 0xffff_f040);
    assert_eq!(mac_tx_set_plcp1(&mut m, INST), 0);
    assert_eq!(rd(&m, 0x600a_5488), (3 << 17) | 0x40);
    // OFDM rate 0xb
    let mut m = frame(1, 0, 0xb);
    mac_tx_set_plcp1(&mut m, INST);
    assert_eq!(rd(&m, 0x600a_5488 - 0x74), 0xb << 12);
    // HT, HE, HT with LDPC
    let mut m = frame(0, 0, 0x12);
    m.poke32(FRAME, 0xfff);
    mac_tx_set_plcp1(&mut m, INST);
    assert_eq!(rd(&m, 0x600a_5488), 0x200_0000 | (0x12 << 12));
    let mut m = frame(0, 0x8000_0000, 0x12);
    mac_tx_set_plcp1(&mut m, INST);
    assert_eq!(rd(&m, 0x600a_5488), 0x400_0000 | (0x12 << 12));
    let mut m = frame(0, 0x4000, 0x12);
    m.poke32(TI + 0x10, 0x40000);
    mac_tx_set_plcp1(&mut m, INST);
    assert_eq!(rd(&m, 0x600a_5488), 0x2200_0000 | (0x12 << 12));
    // a rate above 0x28 is counted from 0x10
    let mut m = frame(0, 0, 0x30);
    mac_tx_set_plcp1(&mut m, INST);
    assert_eq!(rd(&m, 0x600a_5488), 0);
}

#[test]
fn length_registers_of_a_dsss_frame() {
    let mut m = frame(0, 0, 0);
    m.poke32(0x600a_54b8, 0xdead);
    cr_mac_tx_set_len(&mut m, INST, INST);
    assert_eq!(rd(&m, 0x600a_54bc), (1 << 22) | 4);
    assert_eq!(rd(&m, 0x600a_54b8), 0xdead);
    // response rate 1 and a 40 MHz channel
    let mut m = frame(0, 0, 2);
    m.poke32(TI + 0x10, 0x1000);
    cr_mac_tx_set_len(&mut m, INST, INST);
    assert_eq!(rd(&m, 0x600a_54bc), (1 << 22) | 2 | (1 << 6) | 4);
}

#[test]
fn length_registers_of_an_ht_frame() {
    let mut m = frame(0, 0, 0x13);
    m.poke32(TI + 0x10, 2 << 20);
    m.poke8(INST + 2 * 0x34 + 0x40, 2);
    m.poke8(INST + 2 * 0x34 + 0x41, 1);
    m.poke32(FRAME, 0xffff_c123);
    cr_mac_tx_set_len(&mut m, INST, INST);
    assert_eq!(rd(&m, 0x600a_54bc), (2 << 22) | (9 << 6) | 4);
    assert_eq!(rd(&m, 0x600a_54b8), (1 << 22) | 0x0123 | (3 << 28));
    // an aggregate counts prefix and payload
    let mut m = frame(0, 0x40_0000, 0x1c);
    m.poke16(EB + 0x14, 8);
    m.poke16(EB + 0x16, 100);
    cr_mac_tx_set_len(&mut m, INST, INST);
    assert_eq!(rd(&m, 0x600a_54b8), 108 | (2 << 28));
    // an HE frame has no TXLEN
    let mut m = frame(0, 0x8000_0000, 0x13);
    cr_mac_tx_set_len(&mut m, INST, INST);
    assert_eq!(rd(&m, 0x600a_54b8), 0);
}

#[test]
fn txop_registers_of_a_single_frame() {
    let mut m = frame(0, 0x100, 0);
    m.poke8(INST + 0x1c, 0x20);
    m.poke8(INST + 0x1d, 2);
    m.poke32(0x600a_54bc, 0x0f00_0004);
    m.poke32(0x600a_4d6c, 0x0062_2340);
    assert_eq!(mac_tx_set_txop_q(&mut m, INST), None);
    assert_eq!(rd(&m, 0x600a_54bc), 0x2000_0004);
    assert_eq!(rd(&m, 0x600a_4d60), 0x8000_0000);
    assert_eq!(rd(&m, 0x600a_4d6c), 0x0022_2340);
    let mut m = frame(0, 0x80, 0);
    assert_eq!(mac_tx_set_txop_q(&mut m, INST), None);
    assert_eq!(rd(&m, 0x600a_4d6c), 0x40_0000);
}

#[test]
fn resp_dur_takes_the_burst_count_and_the_depth() {
    for (count, depth, want) in [
        (1, 1, 0xd1ff_ffff),
        (2, 1, 0xd2ff_ffff),
        (15, 2, 0xefff_ffff),
        (0, 0, 0xc0ff_ffff),
        (0x35, 2, 0xe5ff_ffff),
    ] {
        let mut m = frame(0, 0, 0);
        m.poke8(INST + 0x1c, count);
        m.poke8(INST + 0x1d, depth);
        m.poke32(0x600a_54bc, 0xffff_ffff);
        assert_eq!(mac_tx_set_txop_q(&mut m, INST), None);
        assert_eq!(rd(&m, 0x600a_54bc), want);
        // bits that were clear stay clear around the two fields
        m.poke32(0x600a_54bc, 0);
        assert_eq!(mac_tx_set_txop_q(&mut m, INST), None);
        assert_eq!(rd(&m, 0x600a_54bc), want & 0x3f00_0000);
    }
}

#[test]
fn a_deep_burst_only_clears_the_nibble() {
    let mut m = frame(0, 0x100, 0);
    m.poke8(INST + 0x1d, 3);
    m.poke32(EB + 0x30, 0x4083_0000);
    m.poke32(0x600a_54bc, 0xffff_ffff);
    assert_eq!(mac_tx_set_txop_q(&mut m, INST), None);
    assert_eq!(rd(&m, 0x600a_54bc), 0xf0ff_ffff);
    assert_eq!(rd(&m, 0x600a_4d60), 0);
}

#[test]
fn the_walk_over_an_aggregate_stops_at_its_count() {
    let mut m = frame(0, 0, 0);
    m.poke8(INST + 0x1c, 2);
    m.poke8(INST + 0x1d, 1);
    m.poke32(EB + 0x30, 0x4083_0000);
    m.poke32(0x4083_0030, 0x4083_1000);
    m.poke32(0x4083_1030, 0x4083_2000);
    let first = mac_tx_set_txop_q(&mut m, INST).unwrap();
    assert_eq!((first.mpdu, first.depth, first.idx), (0x4083_0000, 1, 1));
    let second = mac_tx_next_txop_fill(&m, INST, first).unwrap();
    assert_eq!((second.mpdu, second.idx), (0x4083_1000, 2));
    assert_eq!(mac_tx_next_txop_fill(&m, INST, second), None);
}

#[test]
fn the_walk_over_an_endless_chain_ends() {
    let mut m = frame(0, 0, 0);
    m.poke8(INST + 0x1d, 1);
    m.poke32(EB + 0x30, 0x4083_0000);
    m.poke32(0x4083_0030, 0x4083_0000);
    let mut fill = mac_tx_set_txop_q(&mut m, INST);
    let mut n = 0;
    while let Some(f) = fill {
        n += 1;
        fill = mac_tx_next_txop_fill(&m, INST, f);
    }
    assert_eq!(n, 256);
}

#[test]
fn pti_goes_into_every_field() {
    let mut m = frame(0, 0, 0);
    m.poke8(TI + 0x20, 0x0a);
    m.poke16(TI + 0x22, 0x123);
    m.poke32(0x600a_5490, 0xffff_ffff);
    m.poke32(0x600a_4d68, 0xffff_ffff);
    cr_mac_tx_set_pti(&mut m, INST);
    assert_eq!(rd(&m, 0x600a_5490), 0x123a_aaaf);
    assert_eq!(rd(&m, 0x600a_4d68), 0xafff_ffff);
}

#[test]
fn edca_parameters_go_into_conf1() {
    let mut m = frame(0, 0, 0);
    m.poke8(INST + 5, 0xf3);
    m.poke16(INST + 6, 0xfc15);
    m.poke32(TI + 0x10, 1 << 19);
    m.poke32(0x600a_4d68, 0xffff_ffff);
    assert_eq!(hal_mac_tx_config_edca(&mut m, INST), 0);
    assert_eq!(rd(&m, 0x600a_4d68), 0xf000_0fff | (3 << 24) | (1 << 22) | (0x15 << 12));
}

#[test]
fn timeouts_are_capped_and_floored() {
    let cases = [
        (0, 0, 0x7ff, 0x7ff),
        (0x20_0000, 0, 0x7ff, 0x800),
        (0xffff_ffff, 0, 0, 0xfff),
        (0, 0x400, 0, 0xfff),
        (0, 1, 0, 0xfff),
        (1023, 0, 0, 0),
        (1024, 0, 0, 1),
        (0, 0, -1, 0xfff),
        (0, 0, 0x1001, 0x001),
    ];
    for (lo, hi, floor, want) in cases {
        let mut m = frame(0, 0, 0);
        m.poke32(TI + 0x40, lo);
        m.poke32(TI + 0x44, hi);
        m.poke32(0x600a_4d68, 0xabcd_e000);
        assert_eq!(hal_mac_tx_config_timeout(&mut m, INST, floor), 0);
        assert_eq!(rd(&m, 0x600a_4d68), 0xabcd_e000 | want);
    }
}

#[test]
fn disarming_undoes_arming() {
    let mut m = Mem::new();
    m.poke32(0x600a_4d6c, 0x0022_2340);
    hal_mac_txq_enable(&mut m, 0);
    assert_eq!(rd(&m, 0x600a_4d6c), 0xc022_2340);
    hal_mac_txq_disable(&mut m, 0);
    assert_eq!(rd(&m, 0x600a_4d6c), 0x0022_2340);
}

#[test]
fn queue_states_are_nibbles() {
    let mut m = Mem::new();
    m.poke32(0x600a_4cb0, 0x00f5_07f3);
    m.poke32(0x600a_4cb8, 0x0000_00a9);
    assert_eq!(hal_mac_get_txq_state(&m, 0), 3);
    assert_eq!(hal_mac_get_txq_state(&m, 1), 5);
    assert_eq!(hal_mac_get_txq_state(&m, 2), 9);
    assert_eq!(hal_mac_get_txq_state(&m, 3), 0);
    assert_eq!(hal_mac_get_txq_state(&m, -1), 0);
}

#[test]
fn queue_states_are_cleared_by_bit() {
    let mut m = Mem::new();
    m.poke32(0x600a_4cb4, 0x10);
    assert_eq!(hal_mac_clr_txq_state(&mut m, 2, 0), 0);
    assert_eq!(rd(&m, 0x600a_4cb4), 0x11);
    hal_mac_clr_txq_state(&mut m, 0, 33);
    assert_eq!(rd(&m, 0x600a_4cac), 2);
    hal_mac_clr_txq_state(&mut m, 1, 3);
    assert_eq!(rd(&m, 0x600a_4cac), 1 << 19);
    m.take_stores();
    hal_mac_clr_txq_state(&mut m, 7, 3);
    assert!(m.stores().is_empty());
}

#[test]
fn channel_width_and_pmd_of_a_slot() {
    let mut m = Mem::new();
    m.poke32(0x600a_54e8 - 0x74, 0xff00_0000);
    assert!(hal_mac_tx_is_cbw40(&m, 1));
    assert!(!hal_mac_tx_is_cbw40(&m, 0));
    assert_eq!(hal_mac_get_txq_pmd(&m, 1), 0xfe00_0000);
}

#[test]
fn block_ack_fields() {
    let mut m = Mem::new();
    m.poke32(0x600a_54dc, 0x0005_1230);
    m.poke32(0x600a_54d8, 0x1111_2222);
    m.poke32(0x600a_54d4, 0x3333_4444);
    let ba = hal_mac_tx_get_blockack(&m, 0);
    assert_eq!((ba.frag, ba.seq), (5, 0x123));
    assert_eq!((ba.word1, ba.word0), (0x1111_2222, 0x3333_4444));
}

#[test]
fn tx_power_is_signed_and_folded() {
    let mut m = Mem::new();
    m.poke8(0x4208_3134, 0x54);
    m.poke8(0x4208_3134 + 2 * 0x10, 0xfe);
    assert_eq!(hal_get_tx_pwr(&m, 0), 0x54);
    assert_eq!(hal_get_tx_pwr(&m, 0x10), -2);
    assert_eq!(hal_get_tx_pwr(&m, 0x1a), -2);
    hal_set_tx_min_pwr(&mut m, 0x7f);
    assert_eq!(rd(&m, 0x600a_4400), 0x3f0);
}

#[test]
fn the_antenna_reset_covers_every_slot() {
    let mut m = Mem::new();
    for s in 0..8 {
        m.poke32(mac_reg::resp_dur(s), 0xffff_ffff);
    }
    m.poke32(0x600a_511c, 0xffff_ffff);
    m.poke32(0x600a_42cc, 0xf);
    hal_attenna_init(&mut m);
    for s in 0..8 {
        assert_eq!(rd(&m, mac_reg::resp_dur(s)), 0xffff_ffe0);
    }
    assert_eq!(rd(&m, 0x600a_511c), 0xffff_ffff);
    assert_eq!(rd(&m, 0x600a_42cc), 0x28);
}

#[test]
fn hooks_that_do_nothing() {
    let mut m = Mem::new();
    lmac_update_tx_statistic(&mut m);
    hal_mac_rate_autoack_init(&mut m);
    hal_mac_tx_clr_mplen(&mut m, Eb(EB), 0);
    assert!(m.stores().is_empty());
}

#[test]
fn completion_of_an_ordinary_transmission() {
    let mut m = frame(0, 0, 0);
    m.poke32(0x600a_54e8, 0x0612_3456);
    m.poke32(0x600a_54ec, 0x7fab_cdef);
    let c = hal_mac_get_txq_complete(&m, Some(LmacTxq(INST)), 0, true);
    assert_eq!(c.res, [0x56, 0x34, 0x12, 0x03, 0x00, 0xab]);
    assert_eq!(c.aux, Some([0, 0]));
    assert_eq!(c.teardown, Some(Eb(EB)));
    m.poke8(INST + 0x28, 4);
    let c = hal_mac_get_txq_complete(&m, Some(LmacTxq(INST)), 0, false);
    assert_eq!(c.teardown, None);
    assert_eq!(c.aux, None);
}

#[test]
fn completion_of_a_trigger_based_transmission() {
    let mut m = frame(0, 0, 0);
    m.poke32(0x600a_54e8, 0x0612_3456);
    m.poke32(0x600a_54ec, 0x4aab_cdef);
    m.poke32(0x600a_54d0, 0xfe1f_ffff);
    m.poke32(0x600a_54e0, 0x003f_0000);
    m.poke32(0x600a_54f4, 0xffff_ffff);
    let c = hal_mac_get_txq_complete(&m, Some(LmacTxq(INST)), 0, true);
    assert_eq!(c.res, [0xef, 0xcd, 0x12, 0x03, 0xca, 0xab]);
    assert_eq!(c.aux, Some([0xf000_0000 | 0xfe000 | 0x10_0000 | (0x7f << 21), 3 | 0x1fc]));
    // without a control block it counts as an ordinary one
    let c = hal_mac_get_txq_complete(&m, None, 0, true);
    assert_eq!(c.res, [0x56, 0x34, 0x12, 0x03, 0x00, 0xab]);
    assert_eq!(c.teardown, None);
}

#[test]
fn the_ppdu_of_a_single_dsss_frame_is_done_at_once() {
    let mut m = frame(0, 0x402, 0);
    m.poke8(0x4208_3134, 0x50);
    m.poke8(0x4208_3135, 0xf0);
    assert_eq!(hal_mac_tx_set_ppdu(&mut m, INST, INST), Ppdu::Done);
    assert_eq!(rd(&m, 0x600a_4d6c), 0x0022_2340);
    assert_eq!(rd(&m, 0x600a_54ac), 0x50 | (0x50 << 16) | (0xf0 << 24));
    assert_eq!(rd(&m, 0x600a_54bc), (1 << 22) | 4);
    let first = m.stores()[0];
    assert_eq!(first, Store::Word { addr: 0x600a_4d6c, val: 0x0062_2340 });
}

#[test]
fn the_ppdu_of_an_ht_frame_waits_for_its_sig() {
    let mut m = frame(0, 0, 0x1b);
    m.poke8(0x4208_3134 + 2 * 0x11, 0x21);
    m.poke8(0x4208_3134 + 2 * 0x11 + 1, 0x22);
    m.poke32(0x600a_4d64, 0xff);
    let p = hal_mac_tx_set_ppdu(&mut m, INST, INST);
    assert_eq!(p, Ppdu::HtSig { eb: Eb(EB), slot: 0, power: 0 });
    assert_eq!(rd(&m, 0x600a_4d64), 0xf7);
    assert_eq!(hal_mac_tx_resume_ppdu(&mut m, INST, p), Ppdu::Done);
    assert_eq!(rd(&m, 0x600a_54ac), 0x2221);
    assert_eq!(hal_mac_tx_resume_ppdu(&mut m, INST, Ppdu::Done), Ppdu::Done);
    let mut m = frame(0, 0x8000_0000, 0x10);
    assert!(matches!(hal_mac_tx_set_ppdu(&mut m, INST, INST), Ppdu::HeSig { .. }));
}

#[test]
fn the_ppdu_of_an_aggregate_waits_for_each_mpdu() {
    let mut m = frame(0, 0, 0);
    m.poke8(INST + 0x1c, 9);
    m.poke8(INST + 0x1d, 1);
    m.poke32(EB + 0x30, 0x4083_0000);
    m.poke32(0x4083_0030, 0x4083_1000);
    let mut p = hal_mac_tx_set_ppdu(&mut m, INST, INST);
    let mut seen = Vec::new();
    while let Ppdu::Txop { fill, .. } = p {
        seen.push((fill.mpdu, fill.idx));
        p = hal_mac_tx_resume_ppdu(&mut m, INST, p);
    }
    assert_eq!(p, Ppdu::Done);
    assert_eq!(seen, vec![(0x4083_0000, 1), (0x4083_1000, 2)]);
}
