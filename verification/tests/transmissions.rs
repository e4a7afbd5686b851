use c6_open_mac::beacon::{build, MAC_RUST, SSID_RUST};
use c6_open_mac::config::{from_values, Config};
use c6_open_mac::diag::{probe, probe_verdict, pwr_dump};
use c6_open_mac::eb_pool::{cr_pool_alloc, free_len, init};
use c6_open_mac::hal_mac_tx::Ppdu;
use c6_open_mac::interpose;
use c6_open_mac::interpose::Leaf;
use c6_open_mac::layout::{Eb, LmacTxq, PendingQ};
use c6_open_mac::mac_reg;
use c6_open_mac::mmio::{rd, rd16, rd8, Mem, Store};
use c6_open_mac::pending::cr_ppGetTxframe;
use c6_open_mac::pipeline::{
    complete_poll, cr_complete, cr_hal_random, cr_lmacTxFrame, cr_ppMapTxQueue, cr_ppProcessTxQ,
    cr_ppTxPkt, cr_rcGetSched, faithful_tx, faithful_tx_report, resume_arm, resume_faithful_tx,
    resume_submit, schedule_code, Arm, Driver, Job, Poll, Schedule, Submit, COMPLETE_POLLS,
};
use c6_open_mac::pm_wake::{PhyEnable, PmCells, PmStats, Wake};
use c6_open_mac::slot::{
    cr_hal_he_set_tx_protection, cr_mac_tx_set_len, cr_mac_tx_set_pti, mac_tx_set_plcp0,
};
use c6_open_mac::tx_loop::{boot_beacons, burst_beacons, interposed_report_due, TxLoop};

const POOL: u32 = 0x4081_0000;
const INST: u32 = 0x4082_0000;
const CXT: u32 = 0x4082_1000;
const WDEV: u32 = 0x4082_2000;
const PM: u32 = 0x4082_3000;
const MESH: u32 = 0x4082_4000;
const IC: u32 = 0x4082_5000;
const MIB: u32 = 0x4082_6000;

fn production() -> Config {
    from_values(0, 0, 0, 0, 0)
}

fn beacon() -> Vec<u8> {
    let mut buf = [0u8; 300];
    let n = build(&mut buf, SSID_RUST, MAC_RUST);
    buf[..n].to_vec()
}

/// A chip with a sleeping modem, interface 0 enabled, every AC idle with nothing pending, and a
/// driver with a full pool.
fn chip(cfg: Config) -> (Mem, Driver) {
    let mut m = Mem::new();
    m.poke32(0x4004_ffe0, INST);
    m.poke32(0x4087_ff80, CXT);
    m.poke32(0x4087_ff68, WDEV);
    m.poke8(WDEV + 0x31, 1);
    m.poke32(0x4087_ffa0, IC);
    m.poke32(0x4087_ff00, IC + 0x800);
    m.poke8(PM + 0x121, 3);
    m.poke32(mac_reg::PM_TXBLOCK_RETENTION, 0x00ff_1000);
    m.poke32(mac_reg::SYS_TIMER, 0x1000);
    m.poke16(MIB + 0x16, 2347);
    for ac in 0..5u32 {
        m.poke32(CXT + ac * 0x34 + 0x24, CXT + ac * 0x34 + 0x20);
        m.poke8(INST + ac * 0x34 + 4, ac as u8);
        m.poke8(INST + ac * 0x34 + 5, 3);
        m.poke8(INST + ac * 0x34 + 8, 4);
    }
    let cells = PmCells { g_pm: PM, g_mesh_is_started: MESH };
    let mut d = Driver::new(cfg, cells, MIB, POOL);
    init(&mut d.pool, &mut m, &beacon());
    m.take_stores();
    (m, d)
}

fn reply(j: Job) -> u64 {
    match j {
        Job::Submit { s: Submit::Wake { wake: Wake::Phy(PhyEnable::IsChip { .. }), .. }, .. } => 1,
        _ => 0,
    }
}

/// Runs a job to its end, and returns its report and the number of stops.
fn run(m: &mut Mem, d: &mut Driver, mut j: Job) -> ((i32, i32, u32, u32, u32, u32), u32) {
    let mut stops = 0;
    loop {
        if let Job::Over { before } = j {
            return (faithful_tx_report(m, before), stops);
        }
        stops += 1;
        j = resume_faithful_tx(m, d, j, reply(j));
    }
}

#[test]
fn a_beacon_is_armed_and_comes_back() {
    let (mut m, mut d) = chip(production());
    let eb = cr_pool_alloc(&mut d.pool, &mut m, &beacon());
    let j = faithful_tx(&mut m, &mut d, eb, 0x42);
    let ((ac, ret, blk0, blk1, plcp0, plcp1), stops) = run(&mut m, &mut d, j);
    assert_eq!((ac, ret), (0, 0));
    assert_eq!((blk0, blk1), (0, 0));
    assert_eq!(plcp0, 0);
    assert_eq!(plcp1, 0xc020_0000 | ((eb.0 + 0x3c) & 0xfffff));
    assert_eq!(plcp1 >> 24, 0xc0);
    assert!(stops < 270);
    assert_eq!(rd16(&m, eb.0 + 0xb8 + 0x16), 0x420);
    assert_eq!((d.pm.wakes, d.pm.pre_blocked, d.pm.post_blocked, d.pm.odd), (1, 1, 0, 0));
    // the control block holds the frame, still counts as idle, and the list is empty
    let txq = LmacTxq::for_ac(&m, 0);
    assert_eq!(txq.cur_eb(&m), eb);
    assert_eq!(txq.state(&m), LmacTxq::STATE_IDLE);
    assert_eq!(PendingQ::for_ac(&m, 0).head(&m), 0);
    // the arm is the last store
    let last = *m.stores().last().unwrap();
    assert_eq!(last, Store::Word { addr: 0x600a_4d6c, val: plcp1 });
    // the backoff is inside the window of its exponent
    assert!(txq.backoff(&m) < 16);
    assert_eq!(free_len(&d.pool), 11);
    m.poke32(0x600a_4d6c, plcp1 & 0x3fff_ffff);
    assert_eq!(complete_poll(&m, ac, COMPLETE_POLLS), Poll::Released);
    assert_eq!(cr_complete(&mut m, &mut d, ac, eb, Poll::Released), (true, 0));
    assert_eq!(free_len(&d.pool), 12);
    assert_eq!(d.status[0], 1);
    assert_eq!(rd(&m, mac_reg::CLR_STATE_B), 1);
}

#[test]
fn a_reused_block_is_in_order_for_the_next_beacon() {
    let (mut m, mut d) = chip(production());
    let mut l = TxLoop::new();
    let mut blocks = Vec::new();
    for _ in 0..5 {
        let (eb, j) = l.begin_frame(&mut m, &mut d, &beacon()).unwrap();
        let (report, _) = run(&mut m, &mut d, j);
        assert_eq!((report.0, report.1, report.5 >> 24), (0, 0, 0xc0));
        assert_eq!(report.5 & 0xfffff, (eb.0 + 0x3c) & 0xfffff);
        assert_eq!(free_len(&d.pool), 11);
        assert!(l.frame_over(report.1, report.5));
        m.poke32(0x600a_4d6c, report.5 & 0x3fff_ffff);
        let (done, _) = cr_complete(&mut m, &mut d, 0, eb, Poll::Released);
        l.frame_completed(done);
        assert_eq!(free_len(&d.pool), 12);
        // what the next use of the block rests on
        let ti = eb.txinfo(&m);
        assert_eq!(ti.0, eb.0 + 0x48);
        assert_eq!(eb.dma_desc(&m).0, eb.0 + 0x3c);
        assert_eq!(eb.sec_desc(&m).0, eb.0 + 0x3c);
        assert_eq!(ti.flags(&m) & 0x8104_0000, 0);
        assert_eq!(PendingQ::for_ac(&m, 0).head(&m), 0);
        blocks.push(eb);
    }
    assert!(blocks.iter().all(|b| *b == blocks[0]));
    assert_eq!((l.arms, l.latched, l.completed, l.allocfail), (5, 5, 5, 0));
}

#[test]
fn the_pool_changes_only_where_a_frame_is_dropped() {
    let mut cfg = production();
    cfg.cr_secframe = false;
    for (verdict, want) in [(0, 11), (1, 12)] {
        let (mut m, mut d) = chip(cfg);
        let eb = cr_pool_alloc(&mut d.pool, &mut m, &beacon());
        let mut j = faithful_tx(&mut m, &mut d, eb, 0);
        assert!(matches!(j, Job::Submit { s: Submit::VendorSecFrame { .. }, .. }));
        assert_eq!(free_len(&d.pool), 11);
        j = resume_faithful_tx(&mut m, &mut d, j, verdict);
        assert_eq!(free_len(&d.pool), want);
        while !matches!(j, Job::Over { .. }) {
            j = resume_faithful_tx(&mut m, &mut d, j, reply(j));
            assert_eq!(free_len(&d.pool), want);
        }
        assert!(matches!(j, Job::Over { before } if before.ret == verdict as i32));
    }
}

#[test]
fn a_fresh_beacon_goes_straight_to_the_wake() {
    let (mut m, mut d) = chip(production());
    let eb = cr_pool_alloc(&mut d.pool, &mut m, &beacon());
    m.take_stores();
    let j = faithful_tx(&mut m, &mut d, eb, 0);
    assert!(matches!(
        j,
        Job::Submit { s: Submit::Wake { pre: 0x00ff_1000, wake: Wake::CoexStatus, .. }, .. }
    ));
    for s in m.stores() {
        let a = match *s {
            Store::Byte { addr, .. } => addr,
            Store::Half { addr, .. } => addr,
            Store::Word { addr, .. } => addr,
        };
        assert!(eb.0 <= a && a < eb.0 + 0x2b8);
    }
    assert_eq!(eb.txinfo(&m).flags(&m), 0x2402);
    assert_eq!(eb.txinfo(&m).ac(&m), 0);
}

#[test]
fn a_frame_of_a_disabled_interface_is_dropped_and_given_back() {
    let (mut m, mut d) = chip(production());
    m.poke8(WDEV + 0x31, 0);
    let eb = cr_pool_alloc(&mut d.pool, &mut m, &beacon());
    assert_eq!(free_len(&d.pool), 11);
    m.take_stores();
    assert_eq!(cr_ppTxPkt(&mut m, &mut d, eb, 0), Submit::Done { ret: 1 });
    assert!(m.stores().is_empty());
    assert_eq!(free_len(&d.pool), 12);
    let eb = cr_pool_alloc(&mut d.pool, &mut m, &beacon());
    let j = faithful_tx(&mut m, &mut d, eb, 0);
    let (report, _) = run(&mut m, &mut d, j);
    assert_eq!(report.1, 1);
    assert_eq!(free_len(&d.pool), 12);
    assert_eq!(report.5 & mac_reg::SLOT_ARM, 0);
}

#[test]
fn the_vendor_security_step_decides() {
    let mut cfg = production();
    cfg.cr_secframe = false;
    let (mut m, mut d) = chip(cfg);
    let eb = cr_pool_alloc(&mut d.pool, &mut m, &beacon());
    let s = cr_ppTxPkt(&mut m, &mut d, eb, 0);
    assert_eq!(s, Submit::VendorSecFrame { eb });
    assert_eq!(resume_submit(&mut m, &mut d, s, 1), Submit::Done { ret: 1 });
    assert_eq!(free_len(&d.pool), 12);
    let eb = cr_pool_alloc(&mut d.pool, &mut m, &beacon());
    let s = cr_ppTxPkt(&mut m, &mut d, eb, 0);
    assert!(matches!(resume_submit(&mut m, &mut d, s, 0), Submit::Wake { .. }));
    assert_eq!(free_len(&d.pool), 11);
    let done = Submit::Done { ret: 0 };
    assert_eq!(resume_submit(&mut m, &mut d, done, 0), done);
}

#[test]
fn a_build_without_the_pool_leaves_the_buffer_to_its_caller() {
    let mut cfg = production();
    cfg.cr_pool_enabled = false;
    let (mut m, mut d) = chip(cfg);
    m.poke8(WDEV + 0x31, 0);
    let eb = cr_pool_alloc(&mut d.pool, &mut m, &beacon());
    assert_eq!(cr_ppTxPkt(&mut m, &mut d, eb, 0), Submit::Done { ret: 1 });
    assert_eq!(free_len(&d.pool), 11);
}

#[test]
fn frames_are_mapped_by_category_and_rate_context() {
    let (mut m, mut d) = chip(production());
    let eb = Eb(POOL);
    let ti = eb.txinfo(&m);
    ti.set_cat(&mut m, 0x47);
    ti.set_word10(&mut m, 0x00ff_0000);
    assert_eq!(cr_ppMapTxQueue(&mut m, &mut d, eb), None);
    assert_eq!(ti.ac(&m), 2);
    // a rate context that does not ask for the interface's AC
    ti.set_cat(&mut m, 0);
    eb.set_trc(&mut m, 0x4083_0000);
    ti.set_word10(&mut m, 0x0050_0000);
    assert_eq!(cr_ppMapTxQueue(&mut m, &mut d, eb), None);
    assert_eq!(ti.ac(&m), 5);
    // and one that does
    m.poke16(0x4083_000c, 0x80);
    m.poke8(PM + 2, 1);
    ti.set_word10(&mut m, 0x0058_0000);
    let w = cr_ppMapTxQueue(&mut m, &mut d, eb);
    assert_eq!(w, Some((0x00ff_1000, Wake::CoexStatus)));
    assert_eq!(ti.ac(&m), 1);
    assert_eq!(rd8(&m, ti.0 + 4), 7);
    cr_rcGetSched(&mut m, 0, ti);
}

#[test]
fn alternating_builds_wake_through_the_vendor_every_other_round() {
    let (mut m, mut d) = chip(from_values(0, 1, 0, 0, 0));
    let eb = Eb(POOL);
    let mut l = TxLoop::new();
    assert_eq!(l.begin_round(&mut d), 4);
    assert_eq!(cr_ppMapTxQueue(&mut m, &mut d, eb).unwrap().1, Wake::CoexStatus);
    l.end_round(&d.cfg);
    l.begin_round(&mut d);
    let w = cr_ppMapTxQueue(&mut m, &mut d, eb).unwrap().1;
    assert_eq!(w, Wake::VendorOnDataTx { iface: 0 });
    let (mut m, mut d) = chip(from_values(0, 0, 0, 0, 1));
    let w = cr_ppMapTxQueue(&mut m, &mut d, eb).unwrap().1;
    assert_eq!(w, Wake::VendorOnDataTx { iface: 0 });
}

#[test]
fn schedules_that_arm_nothing() {
    let (mut m, mut d) = chip(production());
    let s = cr_ppProcessTxQ(&mut m, &mut d, 0);
    assert_eq!(s, Schedule::Empty);
    assert_eq!(schedule_code(s), -2);
    m.poke8(INST + 0x12, 1);
    let s = cr_ppProcessTxQ(&mut m, &mut d, 0);
    assert_eq!(s, Schedule::Busy);
    assert_eq!(schedule_code(s), -1);
    assert!(m.stores().is_empty());
    assert_eq!(schedule_code(Schedule::Arm(Arm::Armed)), 0);
}

#[test]
fn a_busy_control_block_is_only_armed_again() {
    let (mut m, mut d) = chip(production());
    m.poke8(INST + 0x12, 1);
    m.poke32(INST, POOL + 0x2c0);
    assert_eq!(cr_lmacTxFrame(&mut m, &mut d, Eb(POOL), 0), Arm::Armed);
    assert_eq!(LmacTxq::for_ac(&m, 0).cur_eb(&m), Eb(POOL + 0x2c0));
    assert_eq!(rd(&m, 0x600a_4d6c), 0xc000_0000);
    assert_eq!(rd(&m, 0x600a_5488), 0);
}

#[test]
fn rts_flags_of_a_taken_frame() {
    // a short unicast frame, a long one, and a long broadcast one
    for (flags, threshold, want) in [
        (0x2000, 2347, 0x3000),
        (0x2000, 10, 0x2100),
        (0x2002, 10, 0x2002),
        (0x2100, 2347, 0x2100),
    ] {
        let (mut m, mut d) = chip(production());
        m.poke16(MIB + 0x16, threshold);
        let eb = Eb(POOL);
        let ti = eb.txinfo(&m);
        ti.set_flags(&mut m, flags);
        assert_eq!(cr_lmacTxFrame(&mut m, &mut d, eb, 0), Arm::Armed);
        assert_eq!(ti.flags(&m), want);
    }
}

#[test]
fn the_arm_of_an_ht_frame_waits_for_its_sig() {
    let (mut m, mut d) = chip(production());
    let eb = Eb(POOL);
    let ti = eb.txinfo(&m);
    ti.set_rate(&mut m, 0x12);
    let a = cr_lmacTxFrame(&mut m, &mut d, eb, 0);
    assert!(matches!(a, Arm::Ppdu { p: Ppdu::HtSig { .. }, .. }));
    assert_eq!(rd(&m, 0x600a_4d6c) & mac_reg::SLOT_ARM, 0);
    assert_eq!(resume_arm(&mut m, &mut d, a), Arm::Armed);
    assert_eq!(rd(&m, 0x600a_4d6c) & mac_reg::SLOT_ARM, mac_reg::SLOT_ARM);
    assert_eq!(resume_arm(&mut m, &mut d, Arm::Armed), Arm::Armed);
}

#[test]
fn the_backoff_generator() {
    let mut x = 0x1234_5678;
    assert_eq!(cr_hal_random(&mut x), 0x8798_5aa5);
    assert_eq!(x, 0x8798_5aa5);
    let mut one = 1;
    assert_eq!(cr_hal_random(&mut one), 0x0004_2021);
    let mut zero = 0;
    assert_eq!(cr_hal_random(&mut zero), 0);
    let mut y = 7;
    for _ in 0..1000 {
        assert_ne!(cr_hal_random(&mut y), 0);
    }
}

#[test]
fn the_completion_is_polled_for_a_bounded_time() {
    let mut m = Mem::new();
    m.poke32(0x600a_4d6c, 0x4000_0000);
    let mut left = COMPLETE_POLLS;
    let mut looks = 1;
    while let Poll::Again { left: n } = complete_poll(&m, 0, left) {
        left = n;
        looks += 1;
    }
    assert_eq!(complete_poll(&m, 0, left), Poll::TimedOut);
    assert_eq!(looks, 4000);
    assert_eq!(complete_poll(&m, 0, 0), Poll::TimedOut);
    m.poke32(0x600a_4d6c, 0x3fff_ffff);
    assert_eq!(complete_poll(&m, 0, 1), Poll::Released);
}

#[test]
fn a_completion_without_a_control_block_is_not_trigger_based() {
    let (mut m, mut d) = chip(production());
    m.poke32(0x600a_54d0, 0x10_0000);
    m.poke32(0x600a_54e8, 0x0000_3000);
    m.poke32(0x600a_54ec, 0x0000_7000);
    assert_eq!(cr_complete(&mut m, &mut d, 0, Eb(0), Poll::Released), (true, 7));
    m.poke32(0x4004_ffe0, 0);
    assert_eq!(cr_complete(&mut m, &mut d, 0, Eb(0), Poll::Released), (true, 3));
    assert_eq!((d.status[7], d.status[3]), (1, 1));
}

#[test]
fn frames_leave_in_the_order_of_their_submits() {
    let (mut m, mut d) = chip(production());
    let q = PendingQ::for_ac(&m, 0);
    let e1 = cr_pool_alloc(&mut d.pool, &mut m, &beacon());
    let e2 = cr_pool_alloc(&mut d.pool, &mut m, &beacon());
    assert_ne!(e1, e2);
    for eb in [e1, e2] {
        eb.txinfo(&m).set_cat(&mut m, 7);
        let mut s = cr_ppTxPkt(&mut m, &mut d, eb, 0);
        assert!(matches!(s, Submit::Wake { .. }));
        while !matches!(s, Submit::Done { .. }) {
            s = resume_submit(&mut m, &mut d, s, 1);
        }
        assert_eq!(s, Submit::Done { ret: 0 });
    }
    assert_eq!(q.head(&m), e1.0);
    assert_eq!(q.tail(&m), e2.pending_next_addr());
    assert_eq!(cr_ppGetTxframe(&mut m, 0), e1);
    assert_eq!(cr_ppGetTxframe(&mut m, 0), e2);
    assert!(cr_ppGetTxframe(&mut m, 0).is_null());
    assert_eq!(q.head(&m), 0);
    assert_eq!(q.tail(&m), q.head_addr());
}

#[test]
fn completion_statuses_are_counted() {
    let (mut m, mut d) = chip(production());
    let eb = cr_pool_alloc(&mut d.pool, &mut m, &beacon());
    m.poke32(0x600a_54e8, 0x0000_5000);
    assert_eq!(cr_complete(&mut m, &mut d, 0, eb, Poll::TimedOut), (false, 5));
    assert_eq!(d.status[5], 1);
    m.poke32(0x600a_54e8, 0x0000_f000);
    assert_eq!(cr_complete(&mut m, &mut d, 0, Eb(0), Poll::Released), (true, 15));
    let l = TxLoop::new();
    assert_eq!(l.health(&m, &d).status_rest, 1);
    assert_eq!(free_len(&d.pool), 12);
}

#[test]
fn the_loop_counts_arms_latches_and_completions() {
    let (mut m, mut d) = chip(production());
    let mut l = TxLoop::new();
    for _ in 0..3 {
        let (eb, j) = l.begin_frame(&mut m, &mut d, &beacon()).unwrap();
        let (report, _) = run(&mut m, &mut d, j);
        assert!(l.frame_over(report.1, report.5));
        m.poke32(0x600a_4d6c, report.5 & 0x3fff_ffff);
        let (done, status) = cr_complete(&mut m, &mut d, report.0, eb, Poll::Released);
        assert_eq!(status, 0);
        l.frame_completed(done);
    }
    assert_eq!((l.arms, l.latched, l.completed, l.allocfail, l.seq), (3, 3, 3, 0, 3));
    assert_eq!(l.last_plcp0 >> 24, 0xc0);
    assert_eq!(free_len(&d.pool), 12);
    assert_eq!(d.pm.odd, 0);
    assert_eq!(d.pm.wakes, 1);
    let h = l.health(&m, &d);
    assert_eq!((h.pool_free, h.blk_now, h.blk_before, h.blk_after), (12, 0, 0, 0));
}

#[test]
fn the_loop_does_not_await_what_was_dropped() {
    let (mut m, mut d) = chip(production());
    m.poke8(WDEV + 0x31, 0);
    let mut l = TxLoop::new();
    let (_, j) = l.begin_frame(&mut m, &mut d, &beacon()).unwrap();
    let (report, _) = run(&mut m, &mut d, j);
    assert!(!l.frame_over(report.1, report.5));
    assert_eq!((l.arms, l.latched), (1, 0));
    assert_eq!(free_len(&d.pool), 12);
}

#[test]
fn an_empty_pool_is_counted() {
    let (mut m, mut d) = chip(production());
    let mut l = TxLoop::new();
    for _ in 0..12 {
        assert!(l.begin_frame(&mut m, &mut d, &[0x80; 64]).is_some());
    }
    assert!(l.begin_frame(&mut m, &mut d, &[0x80; 64]).is_none());
    assert_eq!(l.allocfail, 1);
    l.no_buffer();
    assert_eq!(l.allocfail, 2);
}

#[test]
fn reports_are_due_by_round() {
    let mut l = TxLoop::new();
    let cfg = production();
    let mut seen = Vec::new();
    for _ in 0..40 {
        let due = l.end_round(&cfg);
        seen.push((due.pwr_dump, due.health, due.progress));
        assert_eq!(due.experiment, due.health);
    }
    assert_eq!(seen[7], (true, true, false));
    assert_eq!(seen[4], (false, false, true));
    assert_eq!(seen[15], (false, true, false));
    assert_eq!(seen[39], (false, true, true));
    assert_eq!(seen.iter().filter(|s| s.0).count(), 1);
    let burst = from_values(1, 0, 0, 0, 0);
    let mut l = TxLoop::new();
    for _ in 0..7 {
        l.end_round(&burst);
    }
    assert!(!l.end_round(&burst).experiment);
}

#[test]
fn control_beacons_by_build() {
    assert_eq!(boot_beacons(), 10);
    assert_eq!(burst_beacons(&production()), 0);
    assert_eq!(burst_beacons(&from_values(1, 0, 0, 0, 0)), 6);
    let (_, mut d) = chip(from_values(0, 0, 0, 1, 0));
    assert_eq!(TxLoop::new().begin_round(&mut d), 0);
    assert!(interposed_report_due(0) && interposed_report_due(40));
    assert!(!interposed_report_due(19));
}

#[test]
fn counters_start_at_zero() {
    let (_, d) = chip(production());
    assert_eq!(d.pm, PmStats::new());
    assert_eq!(d.status, [0; 16]);
    assert_eq!(d.rng, 0x1234_5678);
    assert_eq!(d.pm.blk_after_store, 0xffff_ffff);
}

#[test]
fn a_probe_finds_writable_slots_and_restores_them() {
    let mut m = Mem::new();
    let p = probe(&mut m, 1);
    assert_eq!((p.slot, p.plcp0, p.edca), (1, 0, 0));
    assert_eq!(rd(&m, 0x600a_4d58), 0xabc);
    assert!(probe_verdict(&mut m, p));
    assert_eq!(rd(&m, 0x600a_4d58), 0);
    // a slot whose bank drops the write
    let p = probe(&mut m, 2);
    m.poke32(0x600a_4d48, 0);
    assert!(!probe_verdict(&mut m, p));
    // a slot in use
    m.poke32(0x600a_4d68, 0x123);
    m.take_stores();
    let p = probe(&mut m, 0);
    assert!(probe_verdict(&mut m, p));
    assert!(m.stores().is_empty());
}

#[test]
fn the_power_dump_reads_its_registers() {
    let mut m = Mem::new();
    m.poke32(0x600a_4400, 1);
    m.poke32(0x600a_08d4, 2);
    m.poke32(0x600a_7030, 3);
    let p = pwr_dump(&m);
    assert_eq!((p.min_pwr, p.gain_d4, p.bb_7030, p.gain_c8), (1, 2, 3, 0));
}

/// Runs an interposed build with the driver's own register programming for the leaves.
fn interposed(m: &mut Mem) -> Vec<&'static str> {
    let mut seen = Vec::new();
    let mut l = interpose::hal_mac_tx_set_ppdu(m, INST);
    while l != Leaf::Done {
        let mut reply = 0;
        match l {
            Leaf::Protection { p, .. } => {
                seen.push("protection");
                cr_hal_he_set_tx_protection(m, p.slot, p.enable, p.threshold, p.val);
            }
            Leaf::RtsRate { b } => {
                seen.push("rts");
                reply = c6_open_mac::rates::cr_mac_tx_get_rts_rate(b.rate as i32) as u32;
            }
            Leaf::Len { .. } => {
                seen.push("len");
                cr_mac_tx_set_len(m, INST, INST);
            }
            Leaf::HeSig { .. } => seen.push("hesig"),
            Leaf::HtSig { .. } => seen.push("htsig"),
            Leaf::Txop { .. } => seen.push("txop"),
            Leaf::Pti => {
                seen.push("pti");
                cr_mac_tx_set_pti(m, INST);
            }
            Leaf::Done => unreachable!(),
        }
        l = interpose::hal_mac_tx_resume_ppdu(m, INST, l, reply);
    }
    seen
}

#[test]
fn the_interposed_build_is_the_own_build() {
    let (mut own, _) = chip(production());
    own.poke32(INST, POOL);
    own.poke8(0x4208_3134, 0x50);
    own.poke8(0x4208_3135, 0x51);
    let mut other = Mem::new();
    for a in (POOL..POOL + 0x2b8).step_by(4).chain((INST..INST + 0x44).step_by(4)) {
        other.poke32(a, rd(&own, a));
    }
    other.poke8(0x4208_3134, 0x50);
    other.poke8(0x4208_3135, 0x51);
    let p = c6_open_mac::hal_mac_tx::hal_mac_tx_set_ppdu(&mut own, INST, INST);
    assert_eq!(p, Ppdu::Done);
    assert_eq!(interposed(&mut other), vec!["protection", "rts", "len", "pti"]);
    assert_eq!(own.stores(), other.stores());
    assert_eq!(rd(&other, 0x600a_54ac), 0x5150_0050);
}

#[test]
fn the_interposed_build_stops_at_each_leaf() {
    let (mut m, _) = chip(production());
    m.poke32(INST, POOL);
    m.poke8(POOL + 0x48 + 0x0c, 0x12);
    assert_eq!(interposed(&mut m), vec!["protection", "rts", "htsig", "pti"]);
    let (mut m, _) = chip(production());
    m.poke32(INST, POOL);
    m.poke8(POOL + 0x48 + 0x0c, 0x12);
    m.poke32(POOL + 0x48, 0x8000_0000);
    assert_eq!(interposed(&mut m), vec!["protection", "rts", "hesig", "pti"]);
    let (mut m, _) = chip(production());
    m.poke32(INST, POOL);
    m.poke8(INST + 0x1c, 9);
    m.poke32(POOL + 0x30, POOL + 0x2c0);
    assert_eq!(interposed(&mut m), vec!["protection", "rts", "len", "txop", "pti"]);
}

#[test]
fn the_interposed_plcp0_hands_out_its_protection() {
    let (mut m, _) = chip(production());
    m.poke32(INST, POOL);
    m.poke32(POOL + 0x48, 0x2100);
    m.poke32(POOL + 0x48 + 0x30, 7 << 3);
    m.poke32(POOL + 0x48 + 0x34, 99);
    let p = interpose::mac_tx_set_plcp0(&mut m, INST);
    assert_eq!((p.slot, p.enable, p.threshold, p.val), (0, 1, 7, 99));
    let word = rd(&m, 0x600a_4d6c);
    assert_eq!(rd(&m, 0x600a_4d60), 0);
    mac_tx_set_plcp0(&mut m, INST);
    assert_eq!(rd(&m, 0x600a_4d6c), word);
    assert_eq!(rd(&m, 0x600a_4d60), 0x8000_0000);
}

#[test]
fn the_interposed_timeout_and_teardown_can_be_the_vendors() {
    let (mut m, _) = chip(production());
    m.poke32(INST, POOL);
    assert!(interpose::hal_mac_tx_config_timeout(&mut m, INST, 0x7ff));
    assert_eq!(rd(&m, 0x600a_4d68), 0x7ff);
    m.take_stores();
    m.poke8(0x4208_318c, 1);
    assert!(!interpose::hal_mac_tx_config_timeout(&mut m, INST, 0x7ff));
    assert!(m.stores().is_empty());
    assert!(!interpose::hal_mac_tx_clr_mplen(&m, 0));
    m.poke32(0x600a_4d54, 8);
    assert!(interpose::hal_mac_tx_clr_mplen(&m, 1));
}
