//! The way of a beacon from the pool to the armed slot and back, stop by stop.
use crate::arm_laws::{broadcast_pending, pending_broadcast_is_armed};
use crate::beacon::beacon_bytes;
use crate::eb_pool::{block_cleaned, EB_OWN_DESC_OFF, EB_OWN_TXINFO_OFF, EB_SIZE};
use crate::hal_mac_tx::txq_state_cleared;
use crate::layout::{
    instances_of, DmaDesc, Eb, LmacTxq, PendingQ, TxInfo, OUR_INSTANCES_PTR, TXRXCXT_PTR,
};
use crate::mac_reg::{conf_addr, PLCP0_ENABLE, PM_TXBLOCK_RETENTION};
use crate::mmio::{ahead, apart, MemView};
use crate::pending::{holds, link_addr, poppable};
use crate::pipeline::{
    completed, job_begun, job_resumed, submit_resumed, DriverView, Job, Submit,
};
use crate::pipeline_laws::{every_buffer_comes_back_once, job_run, transmitted, Outside};
use crate::pm_wake::{wake_resumed, PmCells, Wake, G_IC_PTR, IC_RF_PHY_MASK, PM_DISC, PM_STATE};
use crate::pool_laws::{next_block, taken};
use crate::queue_laws::{agree_on, lemma_agreed_word};
use crate::submit_laws::{
    allocated_beacon_is_fresh, elsewhere, fresh_broadcast, fresh_broadcast_reaches_the_wake,
    idle_and_empty, in_order, in_waiting, interface_up, lemma_enqueue_keeps, lemma_words_outside,
    prepared, prepared_frame_is_enqueued, wake_keeps_the_frame,
};
use crate::tx_loop::{frame_begun, TxLoop};
use crate::wake_laws::{mask_of, wake_touches_only_pm_state};
use vstd::prelude::*;

verus! {

/// The bytes that the outside work of a transmission on AC 0 has to leave alone: the block of the
/// frame, the AC's control block and pending list, and the pointers to these and to the PHY user mask.
pub open spec fn bytes_of(txq: LmacTxq, q: PendingQ, eb: Eb) -> spec_fn(u32) -> bool {
    |a: u32|
        {
            ||| ahead(eb.0, a) < EB_SIZE
            ||| ahead(txq.0, a) < 0x44
            ||| ahead(q.0.wrapping_add(PendingQ::HEAD), a) < 0x18
            ||| ahead(OUR_INSTANCES_PTR, a) < 4
            ||| ahead(TXRXCXT_PTR, a) < 4
            ||| ahead(G_IC_PTR, a) < 4
        }
}

/// The same, with control block and list as the address space has them.
pub open spec fn frame_and_ac(v: MemView, eb: Eb) -> spec_fn(u32) -> bool {
    bytes_of(LmacTxq::block(instances_of(v), 0), PendingQ::of_ac(v, 0), eb)
}

/// The outside work of a job leaves the bytes of `keep` alone.
pub open spec fn job_work_spares(
    v: MemView,
    d: DriverView,
    j: Job,
    work: Seq<Outside>,
    keep: spec_fn(u32) -> bool,
) -> bool
    decreases work.len(),
{
    j is Over || work.len() == 0 || {
        let t = job_resumed(work[0].mem, d, j, work[0].reply);
        agree_on(v, work[0].mem, keep) && job_work_spares(t.0, t.1, t.2, work.drop_first(), keep)
    }
}

/// The same of the transmission of `eb` from its start.
pub open spec fn transmission_spares(
    v: MemView,
    d: DriverView,
    eb: Eb,
    seq: u16,
    work: Seq<Outside>,
) -> bool {
    let t = job_begun(v, d, eb, seq);
    job_work_spares(t.0, t.1, t.2, work, frame_and_ac(v, eb))
}

/// The address of the PHY user mask.
pub open spec fn user_mask_of(v: MemView) -> u32 {
    v.rd32(G_IC_PTR).wrapping_add(IC_RF_PHY_MASK)
}

/// A byte of the wake lies outside the frame, its AC and the pointers.
pub open spec fn wake_byte_elsewhere(v: MemView, eb: Eb, a: u32) -> bool {
    elsewhere(v, eb, a) && ahead(G_IC_PTR, a) >= 4
}

/// The bytes that a wake stores to lie outside the frame, its AC and the pointers.
pub open spec fn wake_elsewhere(v: MemView, cells: PmCells, eb: Eb) -> bool {
    &&& wake_byte_elsewhere(v, eb, user_mask_of(v))
    &&& wake_byte_elsewhere(v, eb, cells.g_pm.wrapping_add(PM_STATE))
    &&& wake_byte_elsewhere(v, eb, cells.g_pm.wrapping_add(PM_DISC))
}

/// The pointers to the AC and to the PHY user mask, and the AC's slot, are the same in both address
/// spaces.
spec fn same_ac(v: MemView, w: MemView) -> bool {
    let txq = LmacTxq::block(instances_of(v), 0);
    &&& w.rd32(OUR_INSTANCES_PTR) == v.rd32(OUR_INSTANCES_PTR)
    &&& w.rd32(TXRXCXT_PTR) == v.rd32(TXRXCXT_PTR)
    &&& w.rd32(G_IC_PTR) == v.rd32(G_IC_PTR)
    &&& txq.slot_in(w) == txq.slot_in(v)
}

proof fn lemma_same_ac_after_work(v0: MemView, v: MemView, w: MemView, eb: Eb)
    requires
        same_ac(v0, v),
        agree_on(v, w, frame_and_ac(v0, eb)),
    ensures
        same_ac(v0, w),
{
    let keep = frame_and_ac(v0, eb);
    let txq = LmacTxq::block(instances_of(v0), 0);
    lemma_agreed_word(v, w, keep, OUR_INSTANCES_PTR);
    lemma_agreed_word(v, w, keep, TXRXCXT_PTR);
    lemma_agreed_word(v, w, keep, G_IC_PTR);
    assert(keep(txq.0.wrapping_add(LmacTxq::SLOT)));
}

/// What the laws read of a frame in its block and of its AC is the same in both address spaces.
proof fn lemma_frame_after_work(v0: MemView, v: MemView, w: MemView, eb: Eb)
    requires
        same_ac(v0, v),
        agree_on(v, w, frame_and_ac(v0, eb)),
        prepared(v, eb),
    ensures
        prepared(w, eb),
{
    let keep = frame_and_ac(v0, eb);
    let desc = eb.0.wrapping_add(EB_OWN_DESC_OFF);
    let ti = eb.0.wrapping_add(EB_OWN_TXINFO_OFF);
    lemma_agreed_word(v, w, keep, eb.0.wrapping_add(Eb::DMA_DESC));
    lemma_agreed_word(v, w, keep, eb.0.wrapping_add(Eb::SEC_DESC));
    lemma_agreed_word(v, w, keep, eb.0.wrapping_add(Eb::TXINFO));
    lemma_agreed_word(v, w, keep, desc.wrapping_add(DmaDesc::FRAME_PTR));
    lemma_agreed_word(v, w, keep, ti.wrapping_add(TxInfo::FLAGS));
    lemma_agreed_word(v, w, keep, ti.wrapping_add(TxInfo::WORD10));
    assert(keep(ti.wrapping_add(TxInfo::RATE)));
}

proof fn lemma_ac_after_work(v0: MemView, v: MemView, w: MemView, eb: Eb)
    requires
        same_ac(v0, v),
        agree_on(v, w, frame_and_ac(v0, eb)),
    ensures
        ({
            let txq = LmacTxq::block(instances_of(v0), 0);
            let q = PendingQ::of_ac(v0, 0);
            &&& txq.state_in(w) == txq.state_in(v)
            &&& q.head_in(w) == q.head_in(v)
            &&& q.tail_in(w) == q.tail_in(v)
            &&& poppable(w, q) == poppable(v, q)
            &&& w.rd32(link_addr(eb.0)) == v.rd32(link_addr(eb.0))
        }),
{
    let keep = frame_and_ac(v0, eb);
    let txq = LmacTxq::block(instances_of(v0), 0);
    let q = PendingQ::of_ac(v0, 0);
    lemma_agreed_word(v, w, keep, q.0.wrapping_add(PendingQ::HEAD));
    lemma_agreed_word(v, w, keep, q.0.wrapping_add(PendingQ::TAIL));
    lemma_agreed_word(v, w, keep, q.0.wrapping_add(PendingQ::GUARD_WORD));
    lemma_agreed_word(v, w, keep, link_addr(eb.0));
    assert(keep(q.0.wrapping_add(PendingQ::GUARD_BYTE)));
    assert(keep(txq.0.wrapping_add(LmacTxq::STATE)));
}

/// The frame is ready to be enqueued, and its AC for it.
proof fn lemma_waiting_after_work(v0: MemView, v: MemView, w: MemView, eb: Eb)
    requires
        same_ac(v0, v),
        agree_on(v, w, frame_and_ac(v0, eb)),
        in_waiting(v, eb),
    ensures
        in_waiting(w, eb),
        same_ac(v0, w),
{
    lemma_same_ac_after_work(v0, v, w, eb);
    lemma_frame_after_work(v0, v, w, eb);
    lemma_ac_after_work(v0, v, w, eb);
}

proof fn lemma_pending_after_work(v0: MemView, v: MemView, w: MemView, eb: Eb)
    requires
        same_ac(v0, v),
        agree_on(v, w, frame_and_ac(v0, eb)),
        broadcast_pending(v, 0, eb),
        prepared(v, eb),
    ensures
        broadcast_pending(w, 0, eb),
        prepared(w, eb),
        same_ac(v0, w),
{
    lemma_same_ac_after_work(v0, v, w, eb);
    lemma_frame_after_work(v0, v, w, eb);
    lemma_ac_after_work(v0, v, w, eb);
    let q = PendingQ::of_ac(v0, 0);
    let s = seq![eb.0];
    assert(s[0] == eb.0 && s.last() == eb.0);
    assert(v.rd32(link_addr(s[0])) == 0);
    assert(holds(w, q, s));
}

/// The transmission of a frame is over and its slot is armed: both arm bits are set with no ack
/// awaited, over the frame's descriptor. The block is in order and its AC idle and empty.
pub open spec fn launched(v: MemView, w: MemView, eb: Eb) -> bool {
    let slot = LmacTxq::block(instances_of(v), 0).slot_in(v);
    let plcp0 = w.rd32(conf_addr(PLCP0_ENABLE, slot));
    &&& plcp0 >> 24 == 0xc0
    &&& plcp0 & 0xfffff == eb.0.wrapping_add(EB_OWN_DESC_OFF) & 0xfffff
    &&& in_order(w, eb.0)
    &&& idle_and_empty(w, 0, eb)
}

/// A transmission that began in `v0` with the driver `d0` has come to `j`.
spec fn under_way(
    v0: MemView,
    d0: DriverView,
    eb: Eb,
    v: MemView,
    d: DriverView,
    j: Job,
) -> bool {
    &&& d.cells == d0.cells
    &&& d.pool == d0.pool
    &&& match j {
        Job::Submit { txinfo, s } => {
            &&& txinfo.0 == eb.0.wrapping_add(EB_OWN_TXINFO_OFF)
            &&& same_ac(v0, v)
            &&& match s {
                Submit::Wake { eb: e, pre, wake } => {
                    &&& e == eb
                    &&& in_waiting(v, eb)
                    &&& mask_of(v, wake) == user_mask_of(v0)
                },
                Submit::Done { ret } => {
                    &&& ret == 0
                    &&& broadcast_pending(v, 0, eb)
                    &&& prepared(v, eb)
                },
                Submit::VendorSecFrame { eb: e } => false,
            }
        },
        Job::Arm { before, a } => false,
        Job::Over { before } => before.ret == 0 && before.ac == 0 && launched(v0, v, eb),
    }
}

proof fn lemma_begins(v: MemView, d: DriverView, eb: Eb, seq: u16)
    requires
        fresh_broadcast(v, eb),
        d.cfg.cr_secframe,
    ensures
        ({
            let t = job_begun(v, d, eb, seq);
            under_way(v, d, eb, t.0, t.1, t.2)
        }),
{
    reveal(crate::pipeline::submit_begun);
    fresh_broadcast_reaches_the_wake(v, d, eb, seq);
    let t = job_begun(v, d, eb, seq);
    let txq = LmacTxq::block(instances_of(v), 0);
    lemma_words_outside(v, t.0, eb.0, OUR_INSTANCES_PTR);
    lemma_words_outside(v, t.0, eb.0, TXRXCXT_PTR);
    lemma_words_outside(v, t.0, eb.0, G_IC_PTR);
    lemma_words_outside(v, t.0, eb.0, txq.0.wrapping_add(LmacTxq::SLOT));
}

proof fn lemma_wake_goes_on(
    v0: MemView,
    v: MemView,
    d: DriverView,
    eb: Eb,
    wake: Wake,
    reply: u64,
)
    requires
        same_ac(v0, v),
        in_waiting(v, eb),
        mask_of(v, wake) == user_mask_of(v0),
        wake_elsewhere(v0, d.cells, eb),
    ensures
        ({
            let t = wake_resumed(v, d.pm, d.cells, d.cfg.pm_wake_experiment, wake, reply);
            &&& same_ac(v0, t.0)
            &&& in_waiting(t.0, eb)
            &&& mask_of(t.0, t.2) == user_mask_of(v0)
        }),
{
    let exp = d.cfg.pm_wake_experiment;
    let t = wake_resumed(v, d.pm, d.cells, exp, wake, reply);
    let txq = LmacTxq::block(instances_of(v0), 0);
    wake_keeps_the_frame(v, d.pm, d.cells, exp, wake, reply, eb);
    let keep = |a: u32|
        {
            &&& a != user_mask_of(v0)
            &&& a != d.cells.g_pm.wrapping_add(PM_STATE)
            &&& a != d.cells.g_pm.wrapping_add(PM_DISC)
            &&& apart(PM_TXBLOCK_RETENTION, 4, a, 1)
        };
    assert forall|a: u32| keep(a) implies #[trigger] t.0.rd8(a) == v.rd8(a) by {
        wake_touches_only_pm_state(v, d.pm, d.cells, exp, wake, reply, a);
    }
    lemma_agreed_word(v, t.0, keep, OUR_INSTANCES_PTR);
    lemma_agreed_word(v, t.0, keep, TXRXCXT_PTR);
    lemma_agreed_word(v, t.0, keep, G_IC_PTR);
    assert(keep(txq.0.wrapping_add(LmacTxq::SLOT)));
}

proof fn lemma_is_armed(v0: MemView, d0: DriverView, v: MemView, d: DriverView, eb: Eb, j: Job)
    requires
        same_ac(v0, v),
        broadcast_pending(v, 0, eb),
        prepared(v, eb),
        d.cells == d0.cells,
        d.pool == d0.pool,
        j matches Job::Submit { txinfo, s } && txinfo.0 == eb.0.wrapping_add(EB_OWN_TXINFO_OFF)
            && s == (Submit::Done { ret: 0 }),
    ensures
        ({
            let t = job_resumed(v, d, j, 0);
            under_way(v0, d0, eb, t.0, t.1, t.2)
        }),
{
    pending_broadcast_is_armed(v, d, 0, eb);
    reveal(crate::pipeline::schedule_begun);
    reveal(crate::pipeline::arm_begun);
}

proof fn lemma_goes_on(
    v0: MemView,
    d0: DriverView,
    eb: Eb,
    v: MemView,
    d: DriverView,
    j: Job,
    o: Outside,
)
    requires
        wake_elsewhere(v0, d0.cells, eb),
        under_way(v0, d0, eb, v, d, j),
        !(j is Over),
        agree_on(v, o.mem, frame_and_ac(v0, eb)),
    ensures
        ({
            let t = job_resumed(o.mem, d, j, o.reply);
            under_way(v0, d0, eb, t.0, t.1, t.2)
        }),
{
    if let Job::Submit { txinfo, s } = j {
        match s {
            Submit::Wake { eb: e, pre, wake } => {
                reveal(submit_resumed);
                lemma_waiting_after_work(v0, v, o.mem, eb);
                if wake == Wake::Done {
                    prepared_frame_is_enqueued(o.mem, eb);
                    lemma_enqueue_keeps(o.mem, eb);
                } else {
                    lemma_wake_goes_on(v0, o.mem, d, eb, wake, o.reply);
                }
            },
            Submit::Done { ret } => {
                lemma_pending_after_work(v0, v, o.mem, eb);
                lemma_is_armed(v0, d0, o.mem, d, eb, j);
            },
            Submit::VendorSecFrame { eb: e } => {},
        }
    }
}

proof fn lemma_runs(
    v0: MemView,
    d0: DriverView,
    eb: Eb,
    v: MemView,
    d: DriverView,
    j: Job,
    work: Seq<Outside>,
)
    requires
        wake_elsewhere(v0, d0.cells, eb),
        under_way(v0, d0, eb, v, d, j),
        job_work_spares(v, d, j, work, frame_and_ac(v0, eb)),
    ensures
        ({
            let t = job_run(v, d, j, work);
            under_way(v0, d0, eb, t.0, t.1, t.2)
        }),
    decreases work.len(),
{
    if !(j is Over) && work.len() > 0 {
        let o = work[0];
        lemma_goes_on(v0, d0, eb, v, d, j, o);
        let t = job_resumed(o.mem, d, j, o.reply);
        lemma_runs(v0, d0, eb, t.0, t.1, t.2, work.drop_first());
    }
}

/// A fresh broadcast frame goes all the way, whatever its outside work replies: when its transmission
/// is over, it has been submitted to AC 0 and not dropped, its slot is armed with no ack awaited, and
/// its buffer is still taken. Its block is then in order for its next use, and the AC idle and empty.
pub proof fn fresh_broadcast_is_launched(
    v: MemView,
    d: DriverView,
    eb: Eb,
    seq: u16,
    work: Seq<Outside>,
)
    requires
        fresh_broadcast(v, eb),
        d.cfg.cr_secframe,
        wake_elsewhere(v, d.cells, eb),
        transmission_spares(v, d, eb, seq, work),
    ensures
        ({
            let t = transmitted(v, d, eb, seq, work);
            &&& t.1.pool == d.pool
            &&& t.2 matches Job::Over { before } ==> {
                &&& before.ret == 0
                &&& before.ac == 0
                &&& launched(v, t.0, eb)
            }
        }),
{
    lemma_begins(v, d, eb, seq);
    let t = job_begun(v, d, eb, seq);
    lemma_runs(v, d, eb, t.0, t.1, t.2, work);
}

/// A completion stores to no memory: a block that is in order stays so, and an AC idle and empty.
pub proof fn completion_keeps_the_block_in_order(v: MemView, eb: Eb, ac: u32)
    requires
        in_order(v, eb.0),
        idle_and_empty(v, 0, eb),
    ensures
        in_order(txq_state_cleared(v, 2, ac), eb.0),
        idle_and_empty(txq_state_cleared(v, 2, ac), 0, eb),
{
    broadcast use crate::mem_laws::group_loads;

}

/// Nothing that the next frame of the loop needs is missing: its block is in order, AC 0 idle and
/// empty, interface 0 enabled, and the wake stores to none of it.
pub open spec fn ready_for_a_beacon(v: MemView, d: DriverView) -> bool {
    let eb = next_block(d.pool);
    &&& d.pool.wf()
    &&& d.pool.free.len() > 0
    &&& d.cfg.cr_pool_enabled
    &&& d.cfg.cr_secframe
    &&& in_order(v, eb.0)
    &&& idle_and_empty(v, 0, eb)
    &&& interface_up(v, eb.0)
    &&& wake_elsewhere(v, d.cells, eb)
}

/// From the pool to the armed slot and back: a beacon that the loop begins is taken from the pool and
/// launched, and after the completion the pool is as it was, with the block in order and the AC idle
/// and empty for the next one.
pub proof fn beacon_is_launched_and_comes_back(
    v: MemView,
    d: DriverView,
    l: TxLoop,
    ssid: Seq<u8>,
    mac: Seq<u8>,
    work: Seq<Outside>,
    status: u8,
)
    requires
        ready_for_a_beacon(v, d),
        mac.len() == 6,
        ssid.len() <= crate::beacon::SSID_MAX,
        frame_begun(v, d, l, beacon_bytes(ssid, mac)).3 matches Some((eb, job)) && job_work_spares(
            frame_begun(v, d, l, beacon_bytes(ssid, mac)).0,
            frame_begun(v, d, l, beacon_bytes(ssid, mac)).1,
            job,
            work,
            frame_and_ac(v, next_block(d.pool)),
        ),
    ensures
        ({
            let t0 = frame_begun(v, d, l, beacon_bytes(ssid, mac));
            &&& t0.2 == l
            &&& t0.3 matches Some((eb, job))
            &&& eb == next_block(d.pool)
            &&& {
                let t = job_run(t0.0, t0.1, job, work);
                &&& t.1.pool == taken(d.pool)
                &&& t.2 matches Job::Over { before } ==> {
                    let w = txq_state_cleared(t.0, 2, 0);
                    &&& before.ret == 0
                    &&& before.ac == 0
                    &&& launched(v, t.0, eb)
                    &&& completed(t.1, status, eb).pool == d.pool
                    &&& in_order(w, eb.0)
                    &&& idle_and_empty(w, 0, eb)
                }
            }
        }),
{
    let eb = next_block(d.pool);
    let p = beacon_bytes(ssid, mac);
    let w = block_cleaned(v, eb.0, p);
    let during = DriverView { pool: taken(d.pool), ..d };
    let txq = LmacTxq::block(instances_of(v), 0);
    allocated_beacon_is_fresh(v, eb.0, ssid, mac);
    lemma_words_outside(v, w, eb.0, OUR_INSTANCES_PTR);
    lemma_words_outside(v, w, eb.0, TXRXCXT_PTR);
    lemma_words_outside(v, w, eb.0, G_IC_PTR);
    lemma_words_outside(v, w, eb.0, txq.0.wrapping_add(LmacTxq::SLOT));
    fresh_broadcast_is_launched(w, during, eb, l.seq, work);
    every_buffer_comes_back_once(w, d, l.seq, work, status);
    let t = transmitted(w, during, eb, l.seq, work);
    if t.2 is Over {
        completion_keeps_the_block_in_order(t.0, eb, 0);
    }
}

} // verus!
