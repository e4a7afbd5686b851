//! The per-frame TX pipeline: submit, schedule, arm, complete.
//!
//! A frame is set up and submitted (`cr_ppTxPkt`: enable gate, protocol flags, security header, AC
//! mapping with the modem wake, enqueue), scheduled (`cr_ppProcessTxQ`: pop) and armed
//! (`cr_lmacTxFrame`: PPDU build, backoff, EDCA, arm bits); after the transmission `cr_complete`
//! reads the result and gives the buffer back. `faithful_tx` runs the first three. Where a step
//! needs work outside the address space, it stops, says what is due, and is resumed.
//!
//! The state byte of a control block is never set, so the vendor firmware's completion interrupt
//! leaves the driver's frames alone and the driver is the one owner of their buffers.
use crate::config::{Config, DIAG};
use crate::eb_pool;
use crate::eb_pool::{base_fits, EbPool, PoolView};
use crate::frame::{
    cr_hal_now, cr_ic_interface_enabled, cr_lmacIsLongFrame, cr_ppProcTxSecFrame, cr_ppTxProtoProc,
    interface_enabled, is_long, proto_marked, raw_desc_set, raw_set_up, raw_setup, sec_processed,
    FLAG_BROADCAST,
};
use crate::hal_mac_tx::{
    hal_mac_clr_txq_state, hal_mac_get_txq_complete, hal_mac_tx_clr_mplen, hal_mac_tx_resume_ppdu,
    hal_mac_tx_set_ppdu, hal_mac_txq_enable, is_trigger_based, ppdu_begun, ppdu_resumed, result_of,
    txq_state_cleared, Ppdu,
};
use crate::layout::{
    if_mask_of, instances_of, our_instances_base, Eb, LmacTxq, PendingQ, TxInfo,
};
use crate::mac_reg;
use crate::mac_reg::{conf_addr, PLCP0_ENABLE, PM_TXBLOCK_RETENTION, SLOT_ARM, SYS_TIMER};
use crate::mmio::{rd, rd16, Mem, MemView};
use crate::pending::{append, appended, cr_ppGetTxframe, popped};
use crate::pm_wake::{
    data_tx_begun, on_data_tx, on_data_tx_done, resume_wake, wake_counted, wake_resumed, PmCells,
    PmStats, Wake,
};
use crate::slot::{edca_set, hal_mac_tx_config_edca, hal_mac_tx_config_timeout, timeout_set};
use vstd::prelude::*;

verus! {

/// The seed of the backoff generator.
pub const RNG_SEED: u32 = 0x1234_5678;

/// The floor of a frame's timeout.
pub const TIMEOUT_FLOOR: i32 = 0x7ff;

/// How often the arm bits are read before a transmission counts as not completed.
pub const COMPLETE_POLLS: u32 = 4000;

/// What the driver keeps beside the address space.
pub struct Driver {
    /// The build's selectors.
    pub cfg: Config,
    /// Where the power-management state lies.
    pub cells: PmCells,
    /// Where the lmac configuration lies.
    pub mib: u32,
    /// The eb pool.
    pub pool: EbPool,
    /// The wake counters.
    pub pm: PmStats,
    /// The state of the backoff generator.
    pub rng: u32,
    /// This round wakes through the vendor firmware, where the build alternates.
    pub ab_use_vendor: bool,
    /// How often each completion status (0 = success) has come.
    pub status: [u32; 16],
}

/// What a `Driver` stands for.
#[verifier::ext_equal]
pub struct DriverView {
    pub cfg: Config,
    pub cells: PmCells,
    pub mib: u32,
    pub pool: PoolView,
    pub pm: PmStats,
    pub rng: u32,
    pub ab_use_vendor: bool,
    pub status: Seq<u32>,
}

impl View for Driver {
    type V = DriverView;

    open spec fn view(&self) -> DriverView {
        DriverView {
            cfg: self.cfg,
            cells: self.cells,
            mib: self.mib,
            pool: self.pool@,
            pm: self.pm,
            rng: self.rng,
            ab_use_vendor: self.ab_use_vendor,
            status: self.status@,
        }
    }
}

impl DriverView {
    /// The driver after a buffer has been given back: to its own pool, if that is in use.
    pub open spec fn recycled(self, eb: Eb) -> DriverView {
        if self.cfg.cr_pool_enabled {
            DriverView { pool: self.pool.recycled(eb), ..self }
        } else {
            self
        }
    }

    /// The wake goes through the vendor firmware.
    pub open spec fn use_vendor(self) -> bool {
        !self.cfg.pm_wake_rust || (self.cfg.ab_wake && self.ab_use_vendor)
    }
}

impl Driver {
    /// A driver with an empty pool at `base` and all counters at their start.
    pub fn new(cfg: Config, cells: PmCells, mib: u32, base: u32) -> (r: Driver)
        requires
            base_fits(base),
        ensures
            r.pool@ == (PoolView { base, free: Seq::empty() }),
            r.pool@.wf(),
            r.cfg == cfg,
            r.cells == cells,
            r.mib == mib,
            r.rng == RNG_SEED,
            r.ab_use_vendor == false,
            r.pm == (PmStats {
                wakes: 0,
                pre_blocked: 0,
                post_blocked: 0,
                odd: 0,
                blk: 0,
                blk_after_store: 0xffff_ffff,
            }),
            r.status@ == Seq::new(16, |i: int| 0u32),
    {
        let status = [0u32; 16];
        proof {
            assert(status@ =~= Seq::new(16, |i: int| 0u32));
        }
        Driver {
            cfg,
            cells,
            mib,
            pool: EbPool::new(base),
            pm: PmStats::new(),
            rng: RNG_SEED,
            ab_use_vendor: false,
            status,
        }
    }

    fn use_vendor_wake(&self) -> (r: bool)
        ensures
            r == self@.use_vendor(),
    {
        !self.cfg.pm_wake_rust || (self.cfg.ab_wake && self.ab_use_vendor)
    }

    /// Gives a buffer back to the driver's pool. A build that does not use that pool leaves the
    /// buffer to the caller.
    fn recycle(&mut self, eb: Eb)
        requires
            old(self)@.pool.wf(),
        ensures
            final(self)@ == old(self)@.recycled(eb),
            final(self)@.pool.wf(),
    {
        if self.cfg.cr_pool_enabled {
            eb_pool::recycle(&mut self.pool, eb);
        }
    }
}

/// One step of the backoff generator.
pub open spec fn xorshift(x: u32) -> u32 {
    let a = x ^ (x << 13);
    let b = a ^ (a >> 17);
    b ^ (b << 5)
}

/// Draws the next number of the backoff generator.
pub fn cr_hal_random(rng: &mut u32) -> (r: u32)
    ensures
        *final(rng) == xorshift(*old(rng)),
        r == *final(rng),
{
    let mut x = *rng;
    x = x ^ (x << 13);
    x = x ^ (x >> 17);
    x = x ^ (x << 5);
    *rng = x;
    x
}

/// Rate scheduling: a raw frame (`trc` null) has its rate in its descriptor, and no other frame is
/// scheduled here.
#[allow(non_snake_case)]
pub fn cr_rcGetSched(m: &mut Mem, trc: u32, txinfo: TxInfo)
    ensures
        final(m)@ == old(m)@,
{
}

/// The frame belongs to the interface's own AC: it has no rate context, or one that asks for it.
pub open spec fn maps_to_iface(v: MemView, eb: Eb) -> bool {
    let trc = eb.trc_in(v);
    trc == 0 || v.rd16(trc.wrapping_add(0xc)) & 0x80 != 0
}

/// The AC mapping: the address space, the driver, and the wake that the frame starts, with the block
/// register as it was before. A frame of category 4 goes to AC 2 and starts none; one that belongs
/// to its interface's AC becomes category 7 and wakes the modem; any other is left as it is.
pub open spec fn mapped(v: MemView, d: DriverView, eb: Eb) -> (
    MemView,
    DriverView,
    Option<(u32, Wake)>,
) {
    let ti = eb.txinfo_in(v);
    if ti.cat_word_in(v) & 0xf0 == 0x40 {
        (ti.with_word10(v, (ti.word10_in(v) & TxInfo::WORD10_AC_CLEAR) | 0x20_0000), d, None)
    } else if maps_to_iface(v, eb) {
        let iface = ti.iface_in(v);
        let v1 = ti.with_cat(v, 7);
        let v2 = ti.with_word10(
            v1,
            (ti.word10_in(v1) & TxInfo::WORD10_AC_CLEAR) | (iface << TxInfo::WORD10_AC_SHIFT),
        );
        let t = data_tx_begun(
            v2,
            d.pm,
            d.cells,
            d.cfg.pm_wake_experiment,
            iface,
            d.cfg.pm_on_data_tx,
            d.use_vendor(),
        );
        (
            v2,
            DriverView { pm: t.1, ..d },
            Some((v2.rd32(PM_TXBLOCK_RETENTION), t.2)),
        )
    } else {
        (v, d, None)
    }
}

/// Chooses the AC of a frame and starts the modem wake that goes with it.
#[allow(non_snake_case)]
pub fn cr_ppMapTxQueue(m: &mut Mem, d: &mut Driver, eb: Eb) -> (r: Option<(u32, Wake)>)
    ensures
        (final(m)@, final(d)@, r) == mapped(old(m)@, old(d)@, eb),
{
    let txinfo = eb.txinfo(m);
    if txinfo.cat_word(m) & 0xf0 == 0x40 {
        let w = txinfo.word10(m);
        txinfo.set_word10(m, (w & TxInfo::WORD10_AC_CLEAR) | 0x20_0000);
        None
    } else {
        let iface = txinfo.iface(m);
        let trc = eb.trc(m);
        if trc == 0 || rd16(m, trc.wrapping_add(0xc)) & 0x80 != 0 {
            txinfo.set_cat(m, 7);
            let w = txinfo.word10(m);
            txinfo.set_word10(
                m,
                (w & TxInfo::WORD10_AC_CLEAR) | (iface << TxInfo::WORD10_AC_SHIFT),
            );
            let use_vendor = d.use_vendor_wake();
            let (pre, wake) = on_data_tx(
                m,
                &mut d.pm,
                d.cells,
                d.cfg.pm_wake_experiment,
                iface,
                d.cfg.pm_on_data_tx,
                use_vendor,
            );
            Some((pre, wake))
        } else {
            None
        }
    }
}

/// A submit: done, or waiting for outside work.
#[derive(Clone, Copy, Debug, PartialEq, Eq, Structural)]
pub enum Submit {
    /// Enqueued (0), or dropped (1). A dropped frame has been given back to the driver's pool; in a
    /// build that does not use that pool, the caller is to give it back.
    Done { ret: i32 },
    /// The vendor firmware's security-header step is due; its reply decides.
    VendorSecFrame { eb: Eb },
    /// The wake's outside call is due. A wake that is done waits for the stores made so far to be
    /// performed: the block register is about to be read.
    Wake { eb: Eb, pre: u32, wake: Wake },
}

/// The address space after a mapped frame has been stamped and enqueued on the list of its AC.
pub open spec fn enqueued(v: MemView, eb: Eb) -> MemView {
    let ti = eb.txinfo_in(v);
    let v1 = ti.with_timestamp(v, v.rd32(SYS_TIMER));
    appended(v1, PendingQ::of_ac(v1, ti.ac_in(v1)), eb)
}

/// The submit once the security header is in place.
pub open spec fn submit_secured(v: MemView, d: DriverView, eb: Eb) -> (
    MemView,
    DriverView,
    Submit,
) {
    let t = mapped(v, d, eb);
    match t.2 {
        Some((pre, wake)) => (t.0, t.1, Submit::Wake { eb, pre, wake }),
        None => (enqueued(t.0, eb), t.1, Submit::Done { ret: 0 }),
    }
}

/// The submit from its start: a frame of a disabled interface is dropped, and given back if it came
/// from the driver's pool.
#[verifier::opaque]
pub open spec fn submit_begun(v: MemView, d: DriverView, eb: Eb) -> (MemView, DriverView, Submit) {
    if interface_enabled(if_mask_of(v), eb.txinfo_in(v).iface_in(v)) == 0 {
        (v, d.recycled(eb), Submit::Done { ret: 1 })
    } else {
        let v1 = proto_marked(v, eb);
        if d.cfg.cr_secframe {
            submit_secured(sec_processed(v1, eb), d, eb)
        } else {
            (v1, d, Submit::VendorSecFrame { eb })
        }
    }
}

/// The submit after the outside work that `s` was waiting for has returned `reply`. A reply of 1
/// from the vendor firmware's security-header step drops the frame.
#[verifier::opaque]
pub open spec fn submit_resumed(v: MemView, d: DriverView, s: Submit, reply: u64) -> (
    MemView,
    DriverView,
    Submit,
) {
    match s {
        Submit::Done { ret } => (v, d, s),
        Submit::VendorSecFrame { eb } => if reply == 1 {
            (v, d.recycled(eb), Submit::Done { ret: 1 })
        } else {
            submit_secured(v, d, eb)
        },
        Submit::Wake { eb, pre, wake } => if wake == Wake::Done {
            (
                enqueued(v, eb),
                DriverView { pm: wake_counted(d.pm, pre, v.rd32(PM_TXBLOCK_RETENTION)), ..d },
                Submit::Done { ret: 0 },
            )
        } else {
            let t = wake_resumed(v, d.pm, d.cells, d.cfg.pm_wake_experiment, wake, reply);
            (t.0, DriverView { pm: t.1, ..d }, Submit::Wake { eb, pre, wake: t.2 })
        },
    }
}

fn enqueue(m: &mut Mem, eb: Eb)
    ensures
        final(m)@ == enqueued(old(m)@, eb),
{
    let txinfo = eb.txinfo(m);
    let now = cr_hal_now(m);
    txinfo.set_timestamp(m, now);
    let q = PendingQ::for_ac(m, txinfo.ac(m));
    append(m, q, eb);
}

fn map_and_enqueue(m: &mut Mem, d: &mut Driver, eb: Eb) -> (r: Submit)
    ensures
        (final(m)@, final(d)@, r) == submit_secured(old(m)@, old(d)@, eb),
{
    let txinfo = eb.txinfo(m);
    let trc = eb.trc(m);
    cr_rcGetSched(m, trc, txinfo);
    match cr_ppMapTxQueue(m, d, eb) {
        Some((pre, wake)) => Submit::Wake { eb, pre, wake },
        None => {
            enqueue(m, eb);
            Submit::Done { ret: 0 }
        },
    }
}

/// Starts to submit a frame. A frame that is dropped is given back to the driver's pool here, so the
/// caller must not give it back again; in a build that does not use that pool, giving it back is left
/// to the caller. The caller drives the schedule itself, so there is nothing to kick.
#[allow(non_snake_case)]
pub fn cr_ppTxPkt(m: &mut Mem, d: &mut Driver, eb: Eb, kick: i32) -> (r: Submit)
    requires
        old(d)@.pool.wf(),
    ensures
        (final(m)@, final(d)@, r) == submit_begun(old(m)@, old(d)@, eb),
        final(d)@.pool.wf(),
{
    proof {
        reveal(submit_begun);
    }
    let iface = eb.txinfo(m).iface(m);
    if cr_ic_interface_enabled(m, iface) == 0 {
        d.recycle(eb);
        return Submit::Done { ret: 1 };
    }
    cr_ppTxProtoProc(m, eb);
    if !d.cfg.cr_secframe {
        return Submit::VendorSecFrame { eb };
    }
    cr_ppProcTxSecFrame(m, eb);
    map_and_enqueue(m, d, eb)
}

/// Goes on with a submit after the outside work that `s` was waiting for has returned `reply` (0
/// where it returns nothing).
pub fn resume_submit(m: &mut Mem, d: &mut Driver, s: Submit, reply: u64) -> (r: Submit)
    requires
        old(d)@.pool.wf(),
    ensures
        (final(m)@, final(d)@, r) == submit_resumed(old(m)@, old(d)@, s, reply),
        final(d)@.pool.wf(),
{
    proof {
        reveal(submit_resumed);
    }
    match s {
        Submit::Done { ret } => s,
        Submit::VendorSecFrame { eb } => {
            if reply == 1 {
                d.recycle(eb);
                Submit::Done { ret: 1 }
            } else {
                map_and_enqueue(m, d, eb)
            }
        },
        Submit::Wake { eb, pre, wake } => {
            match wake {
                Wake::Done => {
                    on_data_tx_done(m, &mut d.pm, pre);
                    enqueue(m, eb);
                    Submit::Done { ret: 0 }
                },
                _ => {
                    let next = resume_wake(
                        m,
                        &mut d.pm,
                        d.cells,
                        d.cfg.pm_wake_experiment,
                        wake,
                        reply,
                    );
                    Submit::Wake { eb, pre, wake: next }
                },
            }
        },
    }
}

/// The backoff that a random number gives for a contention-window exponent: its low bits, as many as
/// the exponent (modulo 32) says, cut to 16.
pub open spec fn backoff_of(r: u32, cw: u8) -> u16 {
    (!(0xffff_ffffu32 << (cw as u32 & 0x1f)) & r) as u16
}

/// The address space and the generator after the frame of a control block has been armed.
pub open spec fn armed(v: MemView, d: DriverView, txq: LmacTxq) -> (MemView, DriverView) {
    let r = xorshift(d.rng);
    let v1 = edca_set(txq.with_backoff(v, backoff_of(r, txq.cw_in(v))), txq);
    (
        v1.or32(conf_addr(PLCP0_ENABLE, txq.slot_in(v1)), SLOT_ARM),
        DriverView { rng: r, ..d },
    )
}

/// The address space after a frame has become the one of its control block and its RTS flags have
/// been set: bit 12 where the flag bits 1, 8 and 13 are 0, 0 and 1, and, for a long unicast frame,
/// bit 8 instead.
pub open spec fn frame_taken(v: MemView, mib: u32, txq: LmacTxq, eb: Eb) -> MemView {
    let ti = eb.txinfo_in(v);
    let flags = ti.flags_in(v);
    let v1 = txq.with_cur_eb(v, eb);
    let v2 = if flags & 0x2102 == 0x2000 {
        ti.with_flags(v1, flags | 0x1000)
    } else {
        v1
    };
    if is_long(v2, mib, eb) && ti.flags_in(v2) & FLAG_BROADCAST == 0 {
        ti.with_flags(v2, (ti.flags_in(v2) & 0xffff_efff) | 0x100)
    } else {
        v2
    }
}

/// The PPDU build of a control block from its start.
pub open spec fn set_tx_frame_begun(v: MemView, txq: LmacTxq) -> (MemView, Ppdu) {
    ppdu_begun(timeout_set(v, txq, TIMEOUT_FLOOR), txq, instances_of(v))
}

/// Starts the PPDU build of a control block.
#[allow(non_snake_case)]
pub fn cr_lmacSetTxFrame(m: &mut Mem, txq: LmacTxq) -> (r: Ppdu)
    ensures
        (final(m)@, r) == set_tx_frame_begun(old(m)@, txq),
{
    let instances = our_instances_base(m);
    hal_mac_tx_config_timeout(m, txq.ptr(), TIMEOUT_FLOOR);
    hal_mac_tx_set_ppdu(m, txq.ptr(), instances)
}

/// An arm: done, or waiting for the PPDU build.
#[derive(Clone, Copy, Debug, PartialEq, Eq, Structural)]
pub enum Arm {
    /// The slot is armed.
    Armed,
    /// The vendor firmware's part of the PPDU build is due.
    Ppdu { txq: LmacTxq, p: Ppdu },
}

/// The arm after a step of the PPDU build.
pub open spec fn arm_after_ppdu(t: (MemView, Ppdu), d: DriverView, txq: LmacTxq) -> (
    MemView,
    DriverView,
    Arm,
) {
    if t.1 == Ppdu::Done {
        let a = armed(t.0, d, txq);
        (a.0, a.1, Arm::Armed)
    } else {
        (t.0, d, Arm::Ppdu { txq, p: t.1 })
    }
}

/// The arm from its start. A control block that is neither idle nor released keeps its frame and
/// PPDU and is only armed again.
#[verifier::opaque]
pub open spec fn arm_begun(v: MemView, d: DriverView, eb: Eb, ac: u32) -> (
    MemView,
    DriverView,
    Arm,
) {
    let txq = LmacTxq::block(instances_of(v), ac);
    let state = txq.state_in(v);
    if state == LmacTxq::STATE_IDLE || state == LmacTxq::STATE_RELEASED {
        arm_after_ppdu(set_tx_frame_begun(frame_taken(v, d.mib, txq, eb), txq), d, txq)
    } else {
        let a = armed(v, d, txq);
        (a.0, a.1, Arm::Armed)
    }
}

/// The arm after the vendor firmware has done what `a` was waiting for.
#[verifier::opaque]
pub open spec fn arm_resumed(v: MemView, d: DriverView, a: Arm) -> (MemView, DriverView, Arm) {
    match a {
        Arm::Armed => (v, d, Arm::Armed),
        Arm::Ppdu { txq, p } => arm_after_ppdu(ppdu_resumed(v, txq, p), d, txq),
    }
}

fn arm_slot(m: &mut Mem, d: &mut Driver, txq: LmacTxq)
    ensures
        (final(m)@, final(d)@) == armed(old(m)@, old(d)@, txq),
{
    let r = cr_hal_random(&mut d.rng);
    let cw = txq.cw(m) as u32;
    proof {
        crate::bits::low_bits(cw);
    }
    let backoff = (!(0xffff_ffffu32 << (cw & 0x1f)) & r) as u16;
    txq.set_backoff(m, backoff);
    hal_mac_tx_config_edca(m, txq.ptr());
    let slot = txq.slot(m);
    hal_mac_txq_enable(m, slot as i32);
}

/// Starts to arm a frame on the slot of `ac`.
#[allow(non_snake_case)]
pub fn cr_lmacTxFrame(m: &mut Mem, d: &mut Driver, eb: Eb, ac: i32) -> (r: Arm)
    ensures
        (final(m)@, final(d)@, r) == arm_begun(old(m)@, old(d)@, eb, ac as u32),
        final(d)@.pool == old(d)@.pool,
{
    proof {
        reveal(arm_begun);
    }
    let txq = LmacTxq::for_ac(m, ac as u32);
    let txinfo = eb.txinfo(m);
    let flags = txinfo.flags(m);
    let state = txq.state(m);
    if state == LmacTxq::STATE_IDLE || state == LmacTxq::STATE_RELEASED {
        txq.set_cur_eb(m, eb);
        if flags & 0x2102 == 0x2000 {
            txinfo.set_flags(m, flags | 0x1000);
        }
        if cr_lmacIsLongFrame(m, d.mib, eb) != 0 && txinfo.flags(m) & FLAG_BROADCAST == 0 {
            let f = txinfo.flags(m);
            txinfo.set_flags(m, (f & 0xffff_efff) | 0x100);
        }
        let p = cr_lmacSetTxFrame(m, txq);
        match p {
            Ppdu::Done => {},
            _ => {
                return Arm::Ppdu { txq, p };
            },
        }
    }
    arm_slot(m, d, txq);
    Arm::Armed
}

/// Goes on with an arm after the vendor firmware has done what `a` was waiting for.
pub fn resume_arm(m: &mut Mem, d: &mut Driver, a: Arm) -> (r: Arm)
    ensures
        (final(m)@, final(d)@, r) == arm_resumed(old(m)@, old(d)@, a),
        final(d)@.pool == old(d)@.pool,
{
    proof {
        reveal(arm_resumed);
    }
    match a {
        Arm::Armed => Arm::Armed,
        Arm::Ppdu { txq, p } => {
            match hal_mac_tx_resume_ppdu(m, txq.ptr(), p) {
                Ppdu::Done => {
                    arm_slot(m, d, txq);
                    Arm::Armed
                },
                q => Arm::Ppdu { txq, p: q },
            }
        },
    }
}

/// A schedule: nothing was armed, or the arm.
#[derive(Clone, Copy, Debug, PartialEq, Eq, Structural)]
pub enum Schedule {
    /// The control block is not idle.
    Busy,
    /// Nothing is pending.
    Empty,
    /// A frame was popped.
    Arm(Arm),
}

/// The schedule of an AC from its start.
#[verifier::opaque]
pub open spec fn schedule_begun(v: MemView, d: DriverView, ac: u32) -> (
    MemView,
    DriverView,
    Schedule,
) {
    let txq = LmacTxq::block(instances_of(v), ac);
    if txq.state_in(v) != LmacTxq::STATE_IDLE {
        (v, d, Schedule::Busy)
    } else {
        let p = popped(v, PendingQ::of_ac(v, ac));
        if p.1.0 == 0 {
            (p.0, d, Schedule::Empty)
        } else {
            let t = arm_begun(p.0, d, p.1, ac);
            (t.0, t.1, Schedule::Arm(t.2))
        }
    }
}

/// Pops the next frame of `ac`, if its control block is idle, and starts to arm it.
#[allow(non_snake_case)]
pub fn cr_ppProcessTxQ(m: &mut Mem, d: &mut Driver, ac: i32) -> (r: Schedule)
    ensures
        (final(m)@, final(d)@, r) == schedule_begun(old(m)@, old(d)@, ac as u32),
        final(d)@.pool == old(d)@.pool,
{
    proof {
        reveal(schedule_begun);
    }
    let txq = LmacTxq::for_ac(m, ac as u32);
    if txq.state(m) != LmacTxq::STATE_IDLE {
        return Schedule::Busy;
    }
    let eb = cr_ppGetTxframe(m, ac);
    if eb.is_null() {
        return Schedule::Empty;
    }
    Schedule::Arm(cr_lmacTxFrame(m, d, eb, ac))
}

/// The number by which a finished schedule is reported: 0 armed, -1 busy, -2 nothing pending.
pub fn schedule_code(s: Schedule) -> (r: i32)
    ensures
        r == (match s {
            Schedule::Busy => -1,
            Schedule::Empty => -2,
            Schedule::Arm(a) => 0int,
        }),
{
    match s {
        Schedule::Busy => -1,
        Schedule::Empty => -2,
        Schedule::Arm(a) => 0,
    }
}

/// What a transmission looked like between submit and schedule.
#[derive(Clone, Copy, Debug, PartialEq, Eq, Structural)]
pub struct TxBefore {
    /// The AC that the frame was mapped to.
    pub ac: i32,
    /// The outcome of the submit.
    pub ret: i32,
    /// The block register.
    pub blk: u32,
    /// The slot's PLCP0_ENABLE register.
    pub plcp0: u32,
}

/// A transmission from set-up to arm, and where it stands. At each stop the stores made so far are
/// to be performed, then what the variant says, before the job is resumed.
#[derive(Clone, Copy, Debug, PartialEq, Eq, Structural)]
pub enum Job {
    /// The submit waits.
    Submit { txinfo: TxInfo, s: Submit },
    /// The arm waits.
    Arm { before: TxBefore, a: Arm },
    /// The schedule is over; the registers are about to be read.
    Over { before: TxBefore },
}

/// The job after a step of its schedule.
pub open spec fn job_after_schedule(
    t: (MemView, DriverView, Schedule),
    before: TxBefore,
) -> (MemView, DriverView, Job) {
    match t.2 {
        Schedule::Arm(a) => if a == Arm::Armed {
            (t.0, t.1, Job::Over { before })
        } else {
            (t.0, t.1, Job::Arm { before, a })
        },
        _ => (t.0, t.1, Job::Over { before }),
    }
}

/// The registers between submit and schedule.
pub open spec fn before_of(v: MemView, txinfo: TxInfo, ret: i32) -> TxBefore {
    let ac = txinfo.ac_in(v);
    TxBefore {
        ac: ac as i32,
        ret,
        blk: v.rd32(PM_TXBLOCK_RETENTION),
        plcp0: v.rd32(conf_addr(PLCP0_ENABLE, ac)),
    }
}

/// The job from its start: the frame is set up and its submit begun.
pub open spec fn job_begun(v: MemView, d: DriverView, eb: Eb, seq: u16) -> (
    MemView,
    DriverView,
    Job,
) {
    let t = submit_begun(raw_set_up(v, eb, seq), d, eb);
    (t.0, t.1, Job::Submit { txinfo: eb.txinfo_in(raw_desc_set(v, eb)), s: t.2 })
}

/// The job after the outside work that it was waiting for has returned `reply`. A finished submit,
/// whatever its outcome, is followed by the schedule of the frame's AC.
pub open spec fn job_resumed(v: MemView, d: DriverView, j: Job, reply: u64) -> (
    MemView,
    DriverView,
    Job,
) {
    match j {
        Job::Submit { txinfo, s } => match s {
            Submit::Done { ret } => job_after_schedule(
                schedule_begun(v, d, txinfo.ac_in(v)),
                before_of(v, txinfo, ret),
            ),
            _ => {
                let t = submit_resumed(v, d, s, reply);
                (t.0, t.1, Job::Submit { txinfo, s: t.2 })
            },
        },
        Job::Arm { before, a } => {
            let t = arm_resumed(v, d, a);
            job_after_schedule((t.0, t.1, Schedule::Arm(t.2)), before)
        },
        Job::Over { before } => (v, d, j),
    }
}

proof fn lemma_ac_range(w: u32)
    ensures
        (w >> 0x14) & 0xf < 16,
{
    crate::bits::low_bits(w >> 0x14);
}

/// Starts to transmit a frame: sets it up with the sequence number `seq` and submits it.
pub fn faithful_tx(m: &mut Mem, d: &mut Driver, eb: Eb, seq: u16) -> (r: Job)
    requires
        old(d)@.pool.wf(),
    ensures
        (final(m)@, final(d)@, r) == job_begun(old(m)@, old(d)@, eb, seq),
        final(d)@.pool.wf(),
{
    let txinfo = raw_setup(m, eb, seq);
    let s = cr_ppTxPkt(m, d, eb, 0);
    Job::Submit { txinfo, s }
}

/// Goes on with a transmission after the outside work that `j` was waiting for has returned `reply`
/// (0 where it returns nothing).
pub fn resume_faithful_tx(m: &mut Mem, d: &mut Driver, j: Job, reply: u64) -> (r: Job)
    requires
        old(d)@.pool.wf(),
    ensures
        (final(m)@, final(d)@, r) == job_resumed(old(m)@, old(d)@, j, reply),
        final(d)@.pool.wf(),
{
    match j {
        Job::Submit { txinfo, s } => {
            match s {
                Submit::Done { ret } => {
                    let ac = txinfo.ac(m);
                    proof {
                        lemma_ac_range(txinfo.word10_in(m@));
                    }
                    let before = TxBefore {
                        ac: ac as i32,
                        ret,
                        blk: rd(m, PM_TXBLOCK_RETENTION),
                        plcp0: rd(m, mac_reg::plcp0_enable(ac)),
                    };
                    match cr_ppProcessTxQ(m, d, ac as i32) {
                        Schedule::Arm(Arm::Armed) => Job::Over { before },
                        Schedule::Arm(a) => Job::Arm { before, a },
                        _ => Job::Over { before },
                    }
                },
                _ => {
                    let t = resume_submit(m, d, s, reply);
                    Job::Submit { txinfo, s: t }
                },
            }
        },
        Job::Arm { before, a } => {
            match resume_arm(m, d, a) {
                Arm::Armed => Job::Over { before },
                b => Job::Arm { before, a: b },
            }
        },
        Job::Over { before } => j,
    }
}

/// The report of a transmission that is over: AC, outcome of the submit, block register before and
/// after, PLCP0_ENABLE before and after.
pub fn faithful_tx_report(m: &Mem, before: TxBefore) -> (r: (i32, i32, u32, u32, u32, u32))
    ensures
        r == (
            before.ac,
            before.ret,
            before.blk,
            m@.rd32(PM_TXBLOCK_RETENTION),
            before.plcp0,
            m@.rd32(conf_addr(PLCP0_ENABLE, before.ac as u32)),
        ),
{
    let plcp0_after = rd(m, mac_reg::plcp0_enable(before.ac as u32));
    let blk_after = rd(m, PM_TXBLOCK_RETENTION);
    (before.ac, before.ret, before.blk, blk_after, before.plcp0, plcp0_after)
}

/// Waiting for the end of a transmission.
#[derive(Clone, Copy, Debug, PartialEq, Eq, Structural)]
pub enum Poll {
    /// The arm bits are clear.
    Released,
    /// The arm bits stayed set.
    TimedOut,
    /// The register is to be read again, at most `left` times.
    Again { left: u32 },
}

/// Looks at the arm bits of the slot of `ac`, with at most `left` looks to go. The MAC clears both
/// bits at the end of a transmission.
pub fn complete_poll(m: &Mem, ac: i32, left: u32) -> (r: Poll)
    ensures
        r == (if left == 0 {
            Poll::TimedOut
        } else if m@.rd32(conf_addr(PLCP0_ENABLE, ac as u32)) & SLOT_ARM == 0 {
            Poll::Released
        } else if left == 1 {
            Poll::TimedOut
        } else {
            Poll::Again { left: (left - 1) as u32 }
        }),
{
    if left == 0 {
        Poll::TimedOut
    } else if rd(m, mac_reg::plcp0_enable(ac as u32)) & SLOT_ARM == 0 {
        Poll::Released
    } else if left == 1 {
        Poll::TimedOut
    } else {
        Poll::Again { left: left - 1 }
    }
}

/// There is a control block for `ac`: its address is not 0.
pub open spec fn has_control_block(v: MemView, ac: i32) -> bool {
    LmacTxq::block(instances_of(v), ac as u32).0 != 0
}

/// The completion status of an AC: the state nibble of its result, 0 for success. Without a control
/// block the transmission counts as not trigger based.
pub open spec fn completion_status(v: MemView, ac: i32) -> u8 {
    let tb = is_trigger_based(v, has_control_block(v, ac), ac as u32, true);
    (result_of(v, ac as u32, tb)[1] >> 4) & 0xf
}

/// The driver after a completion with `status` whose buffer has been given back.
pub open spec fn completed(d: DriverView, status: u8, eb: Eb) -> DriverView {
    let d1 = DriverView {
        status: d.status.update(status as int, d.status[status as int].wrapping_add(1)),
        ..d
    };
    d1.recycled(eb)
}

/// Completes a transmission on `ac` after the poll has ended in `polled`: reads and counts the
/// status, clears the queue's completed bit, and gives the buffer back. Returns whether the
/// transmission has ended, and its status.
pub fn cr_complete(m: &mut Mem, d: &mut Driver, ac: i32, eb: Eb, polled: Poll) -> (r: (bool, u8))
    requires
        old(d)@.pool.wf(),
    ensures
        r.0 == (polled == Poll::Released),
        r.1 == completion_status(old(m)@, ac),
        r.1 < 16,
        final(m)@ == txq_state_cleared(old(m)@, 2, ac as u32),
        final(d)@ == completed(old(d)@, r.1, eb),
        final(d)@.pool.wf(),
{
    let txq = LmacTxq::for_ac(m, ac as u32);
    let ctx = if txq.ptr() == 0 {
        None
    } else {
        Some(txq)
    };
    let c = hal_mac_get_txq_complete(m, ctx, ac, true);
    if let Some(torn) = c.teardown {
        hal_mac_tx_clr_mplen(m, torn, ac);
    }
    let b = c.res[1];
    let status = (b >> 4) & 0xf;
    assert(status < 16) by (bit_vector)
        requires
            status == (b >> 4) & 0xf,
    ;
    if DIAG {
        d.status[status as usize] = d.status[status as usize].wrapping_add(1);
    }
    hal_mac_clr_txq_state(m, 2, ac as u32);
    d.recycle(eb);
    let done = match polled {
        Poll::Released => true,
        _ => false,
    };
    (done, status)
}

} // verus!
