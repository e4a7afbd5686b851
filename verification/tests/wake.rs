use c6_open_mac::mmio::{rd, rd8, Mem, Store};
use c6_open_mac::pm_wake::{
    callback, cr_hal_mac_init, cr_pm_disconnected_wake, cr_pm_on_data_tx, cr_wifi_rf_phy_enable,
    on_data_tx, on_data_tx_done, osi_slot, resume_phy_enable, resume_wake, snapshot, PhyEnable,
    PmCells, PmStats, Wake,
};

const PM: u32 = 0x4082_0740;
const MESH: u32 = 0x4081_0000;
const IC: u32 = 0x4083_0000;
const MASKP: u32 = IC + 0x24e;
const BLK: u32 = 0x600a_4ca8;
const CELLS: PmCells = PmCells { g_pm: PM, g_mesh_is_started: MESH };

/// A disconnected station whose modem sleeps.
fn asleep() -> Mem {
    let mut m = Mem::new();
    m.poke32(0x4087_ffa0, IC);
    m.poke32(0x4087_ff00, 0x4083_1000);
    m.poke8(PM + 0x121, 3);
    m.poke32(BLK, 0x00ff_1234);
    m
}

/// Runs a wake to its end and returns the calls that it made.
fn run(m: &mut Mem, s: &mut PmStats, exp: u8, mut w: Wake, reply: fn(Wake) -> u64) -> Vec<Wake> {
    let mut calls = Vec::new();
    while w != Wake::Done {
        calls.push(w);
        w = resume_wake(m, s, CELLS, exp, w, reply(w));
    }
    calls
}

fn chip(w: Wake) -> u64 {
    match w {
        Wake::Phy(PhyEnable::IsChip { .. }) => 1,
        Wake::Now => 1000,
        _ => 0,
    }
}

#[test]
fn a_sleeping_modem_is_woken_in_order() {
    let mut m = asleep();
    let mut s = PmStats::new();
    let w = cr_pm_on_data_tx(&m, &mut s, CELLS, 0, 0);
    let calls = run(&mut m, &mut s, 0, w, chip);
    let maskp = MASKP;
    let mode = 0;
    assert_eq!(
        calls,
        vec![
            Wake::CoexStatus,
            Wake::Now,
            Wake::Phy(PhyEnable::SleepLock { maskp, mode }),
            Wake::Phy(PhyEnable::Clock { maskp, mode }),
            Wake::Phy(PhyEnable::IsChip { maskp, mode }),
            Wake::Phy(PhyEnable::Phy { maskp, mode }),
        ]
    );
    assert_eq!(rd(&m, BLK), 0x0000_0234);
    assert_eq!(rd8(&m, MASKP), 1);
    assert_eq!(rd8(&m, PM + 0x121), 2);
    assert_eq!(rd8(&m, PM + 1), 0);
    assert_eq!((s.wakes, s.odd), (1, 0));
    assert_eq!(
        m.take_stores(),
        vec![
            Store::Word { addr: BLK, val: 0x0000_0234 },
            Store::Byte { addr: MASKP, val: 1 },
            Store::Byte { addr: PM + 0x121, val: 2 },
            Store::Byte { addr: PM + 1, val: 0 },
        ]
    );
}

#[test]
fn nothing_is_stored_before_the_phy_is_on() {
    let mut m = asleep();
    let mut s = PmStats::new();
    let mut w = cr_pm_on_data_tx(&m, &mut s, CELLS, 0, 0);
    while !matches!(w, Wake::Phy(PhyEnable::Phy { .. })) {
        assert!(m.stores().is_empty());
        w = resume_wake(&mut m, &mut s, CELLS, 0, w, chip(w));
    }
    assert!(m.stores().is_empty());
}

#[test]
fn an_awake_modem_is_left_alone() {
    let mut m = asleep();
    m.poke8(PM + 0x121, 2);
    let mut s = PmStats::new();
    let w = cr_pm_on_data_tx(&m, &mut s, CELLS, 0, 0);
    assert_eq!(run(&mut m, &mut s, 0, w, chip), vec![Wake::CoexStatus, Wake::Now]);
    assert!(m.stores().is_empty());
    assert_eq!(s, PmStats::new());
}

#[test]
fn a_woken_modem_is_not_woken_again() {
    let mut m = asleep();
    let mut s = PmStats::new();
    for _ in 0..3 {
        let w = cr_pm_on_data_tx(&m, &mut s, CELLS, 0, 0);
        let calls = run(&mut m, &mut s, 0, w, chip);
        assert!(calls.len() <= 9);
        assert_eq!(s.wakes, 1);
    }
}

#[test]
fn unhandled_states_count_as_odd() {
    for (addr, iface, odd) in [
        (PM + 0x1c2, 0, 1),
        (PM + 0x2e4, 0, 1),
        (MESH, 0, 1),
        (PM + 0xe, 0, 1),
    ] {
        let mut m = asleep();
        m.poke8(addr, 1);
        let mut s = PmStats::new();
        assert_eq!(cr_pm_on_data_tx(&m, &mut s, CELLS, 0, iface), Wake::Done);
        assert_eq!(s.odd, odd);
        assert!(m.stores().is_empty());
    }
    let mut m = asleep();
    m.poke8(PM + 1, 1);
    let mut s = PmStats::new();
    assert_eq!(cr_pm_on_data_tx(&m, &mut s, CELLS, 0, 0), Wake::CoexStatus);
    assert_eq!(s.odd, 1);
    assert_eq!(resume_wake(&mut m, &mut s, CELLS, 0, Wake::CoexStatus, 5), Wake::Now);
    assert_eq!(s.odd, 2);
}

#[test]
fn another_interface_wakes_nothing() {
    let mut m = asleep();
    m.poke8(PM + 0x1c2, 1);
    let mut s = PmStats::new();
    assert_eq!(cr_pm_on_data_tx(&m, &mut s, CELLS, 0, 1), Wake::Done);
    assert_eq!(s, PmStats::new());
}

#[test]
fn a_slice_that_has_not_started_is_requested() {
    let mut m = asleep();
    m.poke32(PM + 0x70, 0x10);
    m.poke32(PM + 0x74, 1);
    let mut s = PmStats::new();
    let w = resume_wake(&mut m, &mut s, CELLS, 0, Wake::Now, 0x1_0000_0000);
    assert_eq!(w, Wake::CoexRequest { duration: 0x10 });
    let w = resume_wake(&mut m, &mut s, CELLS, 0, w, 0);
    assert!(matches!(w, Wake::Phy(PhyEnable::SleepLock { .. })));
    let w = resume_wake(&mut m, &mut s, CELLS, 0, Wake::Now, 0x1_0000_0010);
    assert!(matches!(w, Wake::Phy(PhyEnable::SleepLock { .. })));
    let w = resume_wake(&mut m, &mut s, CELLS, 0, Wake::Now, 0xffff_ffff);
    assert_eq!(w, Wake::CoexRequest { duration: 0x11 });
}

#[test]
fn experiments_leave_out_their_step() {
    for (exp, left_out) in [(1u8, "clock"), (2, "phy"), (4, "store")] {
        let mut m = asleep();
        let mut s = PmStats::new();
        let w = cr_pm_disconnected_wake(&mut m, &mut s, CELLS, exp);
        let calls = run(&mut m, &mut s, exp, w, chip);
        let clock = calls.iter().any(|w| matches!(w, Wake::Phy(PhyEnable::Clock { .. })));
        let phy = calls.iter().any(|w| matches!(w, Wake::Phy(PhyEnable::Phy { .. })));
        assert_eq!(clock, left_out != "clock");
        assert_eq!(phy, left_out != "phy");
        let want = if left_out == "store" { 0x00ff_1234 } else { 0x234 };
        assert_eq!(rd(&m, BLK), want);
        assert_eq!(s.blk_after_store, want);
        assert!(matches!(calls.last(), Some(Wake::Phy(PhyEnable::Readback { .. }))));
    }
    let mut m = asleep();
    let mut s = PmStats::new();
    let w = cr_pm_disconnected_wake(&mut m, &mut s, CELLS, 8);
    assert_eq!(run(&mut m, &mut s, 8, w, chip), vec![Wake::RomPhy]);
    assert_eq!(rd8(&m, PM + 0x121), 2);
    assert_eq!(rd(&m, BLK), 0x00ff_1234);
    let mut m = asleep();
    let w = cr_pm_on_data_tx(&m, &mut s, CELLS, 16, 0);
    assert_eq!(run(&mut m, &mut s, 16, w, chip), vec![Wake::VendorDisconnectedWake]);
    assert_eq!(s.wakes, 2);
    assert!(m.stores().is_empty());
}

#[test]
fn a_simulation_has_no_phy_to_enable() {
    let mut m = asleep();
    let mut s = PmStats::new();
    let p = PhyEnable::IsChip { maskp: MASKP, mode: 0 };
    assert_eq!(resume_phy_enable(&mut m, &mut s, CELLS, 0, p, 0), PhyEnable::Done);
    assert_eq!(rd(&m, BLK), 0x234);
}

#[test]
fn a_second_phy_user_is_only_entered() {
    let mut m = asleep();
    m.poke8(MASKP, 1);
    assert_eq!(cr_wifi_rf_phy_enable(&mut m, 3), PhyEnable::Done);
    assert_eq!(rd8(&m, MASKP), 9);
    assert_eq!(cr_wifi_rf_phy_enable(&mut m, 9), PhyEnable::Done);
    assert_eq!(rd8(&m, MASKP), 11);
    assert_eq!(rd(&m, BLK), 0x00ff_1234);
}

#[test]
fn mac_sleep_counts_as_odd() {
    let mut m = asleep();
    m.poke8(0x4083_1000, 1);
    let mut s = PmStats::new();
    let p = PhyEnable::Clock { maskp: MASKP, mode: 0 };
    let next = resume_phy_enable(&mut m, &mut s, CELLS, 0, p, 0);
    assert_eq!(next, PhyEnable::IsChip { maskp: MASKP, mode: 0 });
    assert_eq!(s.odd, 1);
}

#[test]
fn a_connected_station_keeps_some_queues_blocked() {
    let mut m = asleep();
    m.poke32(BLK, 0xffff_ffff);
    m.poke8(PM + 0xe, 1);
    cr_hal_mac_init(&mut m, CELLS);
    assert_eq!(rd(&m, BLK), 0xff0e_efff);
    m.poke8(PM + 0xf, 1);
    cr_hal_mac_init(&mut m, CELLS);
    assert_eq!(rd(&m, BLK), 0xff00_efff);
    m.poke32(BLK, 0xffff_ffff);
    m.poke8(PM + 0x46a, 1);
    cr_hal_mac_init(&mut m, CELLS);
    assert_eq!(rd(&m, BLK), 0xff0e_efff);
}

#[test]
fn block_counters_around_a_wake() {
    let mut m = asleep();
    let mut s = PmStats::new();
    let (pre, w) = on_data_tx(&m, &mut s, CELLS, 0, 0, true, false);
    assert_eq!(pre, 0x00ff_1234);
    assert_eq!(w, Wake::CoexStatus);
    run(&mut m, &mut s, 0, w, chip);
    on_data_tx_done(&m, &mut s, pre);
    assert_eq!((s.pre_blocked, s.post_blocked), (1, 0));
    assert_eq!(s.blk, 0xff12_0002);
    on_data_tx_done(&m, &mut s, pre);
    m.poke32(BLK, 0x1000);
    on_data_tx_done(&m, &mut s, 0);
    assert_eq!((s.pre_blocked, s.post_blocked), (2, 1));
}

#[test]
fn the_wake_can_be_left_out_or_to_the_vendor() {
    let m = asleep();
    let mut s = PmStats::new();
    assert_eq!(on_data_tx(&m, &mut s, CELLS, 0, 0, false, false).1, Wake::Done);
    let vendor = on_data_tx(&m, &mut s, CELLS, 0, 1, true, true).1;
    assert_eq!(vendor, Wake::VendorOnDataTx { iface: 1 });
}

#[test]
fn the_snapshot_shows_what_the_wake_reads() {
    let mut m = asleep();
    m.poke8(PM + 2, 1);
    m.poke8(MASKP, 4);
    let p = snapshot(&m, CELLS);
    assert_eq!((p.disc, p.iface, p.rf_mask, p.ic), (3, 1, 4, IC));
    assert_eq!(p.blk, 0x00ff_1234);
    assert!(!p.mesh);
}

#[test]
fn callbacks_are_found_in_the_table() {
    let mut m = asleep();
    m.poke32(0x4087_ff6c, 0x4084_0000);
    for (off, w) in [
        (0x190, Wake::CoexStatus),
        (0x198, Wake::CoexRequest { duration: 3 }),
        (0x0c8, Wake::Phy(PhyEnable::SleepLock { maskp: 0, mode: 0 })),
        (0x0f8, Wake::Phy(PhyEnable::Clock { maskp: 0, mode: 0 })),
        (0x004, Wake::Phy(PhyEnable::IsChip { maskp: 0, mode: 0 })),
        (0x0d4, Wake::Phy(PhyEnable::Phy { maskp: 0, mode: 0 })),
    ] {
        m.poke32(0x4084_0000 + off, 0x4200_0000 + off);
        assert_eq!(callback(&m, w), Some(0x4200_0000 + off));
        assert_eq!(osi_slot(&m, off), 0x4200_0000 + off);
    }
    assert_eq!(callback(&m, Wake::Now), None);
    assert_eq!(callback(&m, Wake::RomPhy), None);
    assert_eq!(callback(&m, Wake::Phy(PhyEnable::Readback { maskp: 0, mode: 0 })), None);
}
