//! What each step of the TX pipeline decides, and what it stores.
use crate::hal_mac_tx::{ppdu_begun, ppdu_resumed, Ppdu};
use crate::layout::{Eb, LmacTxq, PendingQ, TxInfo};
use crate::mmio::{apart, MemView};
use crate::pending::{appended, popped};
use crate::pipeline::{
    arm_begun, arm_resumed, armed, before_of, enqueued, frame_taken, job_begun, job_resumed, mapped,
    schedule_begun, submit_begun, submit_resumed, Arm, DriverView, Job, Schedule, Submit,
};
use crate::frame::{proto_marked, raw_desc_set, raw_set_up, sec_processed};
use crate::pm_wake::{data_tx_begun, wake_begun, wake_counted, wake_resumed, Wake};
use crate::slot::timeout_set;
use crate::submit_laws::lemma_mapped_bits;
use vstd::prelude::*;

verus! {

proof fn lemma_rts_bits(f: u32)
    by (bit_vector)
    ensures
        (f & 0x2102 == 0x2000) == (f & 2 == 0 && f & 0x100 == 0 && f & 0x2000 != 0),
        (f | 0x1000) & 2 == f & 2,
        ((f | 0x1000) & 0xffff_efff) | 0x100 == (f & 0xffff_efff) | 0x100,
{
}

/// What the taking of a frame reads and stores lies apart: the frame pointer of the control block, the
/// frame's flags and lengths, and the long-frame threshold.
pub open spec fn takes_apart(v: MemView, mib: u32, txq: LmacTxq, eb: Eb) -> bool {
    let ti = eb.txinfo_in(v).0;
    &&& apart(txq.0, 4, ti, 4)
    &&& apart(txq.0, 4, eb.0.wrapping_add(0x14), 4)
    &&& apart(ti, 4, eb.0.wrapping_add(0x14), 4)
    &&& apart(txq.0, 4, mib.wrapping_add(0x16), 2)
    &&& apart(ti, 4, mib.wrapping_add(0x16), 2)
}

/// A frame that is taken becomes the one of its control block. A unicast frame whose prefix and payload
/// together exceed the long-frame threshold gets the RTS flag (bit 8) and loses bit 12; a shorter one
/// with flag bit 13 and without RTS gets bit 12; any other frame, and every broadcast one (bit 1), keeps
/// its flags. Nothing else changes.
pub proof fn taken_frame_gets_its_rts_flags(v: MemView, mib: u32, txq: LmacTxq, eb: Eb, a: u32)
    requires
        takes_apart(v, mib, txq, eb),
    ensures
        ({
            let ti = eb.txinfo_in(v).0;
            let f = v.rd32(ti);
            let w = frame_taken(v, mib, txq, eb);
            let long = v.rd16(mib.wrapping_add(0x16)) < v.rd16(eb.0.wrapping_add(0x14)) + v.rd16(
                eb.0.wrapping_add(0x16),
            );
            &&& w.rd32(txq.0) == eb.0
            &&& f & 2 != 0 ==> w.rd32(ti) == f
            &&& f & 2 == 0 && long ==> w.rd32(ti) == (f & 0xffff_efff) | 0x100
            &&& f & 2 == 0 && !long && f & 0x100 == 0 && f & 0x2000 != 0 ==> w.rd32(ti) == f | 0x1000
            &&& f & 2 == 0 && !long && (f & 0x100 != 0 || f & 0x2000 == 0) ==> w.rd32(ti) == f
            &&& apart(txq.0, 4, a, 1) && apart(ti, 4, a, 1) ==> w.rd8(a) == v.rd8(a)
        }),
{
    broadcast use crate::mem_laws::group_loads;

    let ti = eb.txinfo_in(v).0;
    assert(ti.wrapping_add(0) == ti && txq.0.wrapping_add(0) == txq.0);
    lemma_rts_bits(v.rd32(ti));
}

/// The arm of a control block that is idle (state 0) or released (3) takes the frame, gives it a timeout
/// of at least 0x7ff, builds its PPDU from the control array at *0x4004ffe0, and then arms the slot, or
/// stops where the build does. In any other state the slot is only armed again.
pub proof fn arm_by_state(v: MemView, d: DriverView, eb: Eb, ac: u32)
    requires
        ac < 0x10,
    ensures
        ({
            let txq = LmacTxq(v.rd32(0x4004_ffe0).wrapping_add((ac * 0x34) as u32));
            let state = v.rd8(txq.0.wrapping_add(0x12));
            let t = arm_begun(v, d, eb, ac);
            let u = frame_taken(v, d.mib, txq, eb);
            let p = ppdu_begun(timeout_set(u, txq, 0x7ff), txq, u.rd32(0x4004_ffe0));
            &&& state != 0 && state != 3 ==> t.2 == Arm::Armed && (t.0, t.1) == armed(v, d, txq)
            &&& (state == 0 || state == 3) && p.1 == Ppdu::Done ==> t.2 == Arm::Armed && (t.0, t.1)
                == armed(p.0, d, txq)
            &&& (state == 0 || state == 3) && p.1 != Ppdu::Done ==> t == (
                p.0,
                d,
                Arm::Ppdu { txq, p: p.1 },
            )
        }),
{
    reveal(arm_begun);
    crate::layout_laws::pointer_cells(v, v.rd32(0x4004_ffe0), ac);
}

/// An arm that waits for its PPDU goes on with the build and arms the slot when that is done; an armed
/// slot is left alone.
pub proof fn waiting_arm_goes_on(v: MemView, d: DriverView, txq: LmacTxq, p: Ppdu)
    ensures
        arm_resumed(v, d, Arm::Armed) == (v, d, Arm::Armed),
        ({
            let t = arm_resumed(v, d, Arm::Ppdu { txq, p });
            let q = ppdu_resumed(v, txq, p);
            &&& q.1 == Ppdu::Done ==> t.2 == Arm::Armed && (t.0, t.1) == armed(q.0, d, txq)
            &&& q.1 != Ppdu::Done ==> t == (q.0, d, Arm::Ppdu { txq, p: q.1 })
        }),
{
    reveal(arm_resumed);
}

/// A schedule does nothing on a control block that is not idle (state 0), pops the AC's pending list
/// otherwise, and arms what it popped.
pub proof fn schedule_by_state(v: MemView, d: DriverView, ac: u32)
    requires
        ac < 0x10,
    ensures
        ({
            let txq = v.rd32(0x4004_ffe0).wrapping_add((ac * 0x34) as u32);
            let q = PendingQ(v.rd32(0x4087_ff80).wrapping_add((ac * 0x34) as u32));
            let idle = v.rd8(txq.wrapping_add(0x12)) == 0;
            let p = popped(v, q);
            let t = schedule_begun(v, d, ac);
            &&& !idle ==> t == (v, d, Schedule::Busy)
            &&& idle && p.1 == Eb(0) ==> t == (p.0, d, Schedule::Empty)
            &&& idle && p.1 != Eb(0) ==> {
                let u = arm_begun(p.0, d, p.1, ac);
                t == (u.0, u.1, Schedule::Arm(u.2))
            }
        }),
{
    reveal(schedule_begun);
    crate::layout_laws::pointer_cells(v, v.rd32(0x4004_ffe0), ac);
}

/// A pop of a list that is not guarded (byte 0x29 and word 0x34 both 0) gives its head and puts the
/// head's link in the head's place; if that is 0, the tail points at the head again. The link of what
/// was popped is cleared. A guarded or empty list gives none and stays as it is.
pub proof fn pop_unlinks_the_head(v: MemView, q: PendingQ, a: u32)
    requires
        apart(q.0.wrapping_add(0x20), 8, v.rd32(q.0.wrapping_add(0x20)).wrapping_add(0x30), 4),
    ensures
        ({
            let head = v.rd32(q.0.wrapping_add(0x20));
            let link = head.wrapping_add(0x30);
            let open = v.rd8(q.0.wrapping_add(0x29)) == 0 && v.rd32(q.0.wrapping_add(0x34)) == 0;
            let t = popped(v, q);
            &&& !open || head == 0 ==> t == (v, Eb(0))
            &&& open && head != 0 ==> {
                &&& t.1 == Eb(head)
                &&& t.0.rd32(q.0.wrapping_add(0x20)) == v.rd32(link)
                &&& t.0.rd32(q.0.wrapping_add(0x24)) == (if v.rd32(link) == 0 {
                    q.0.wrapping_add(0x20)
                } else {
                    v.rd32(q.0.wrapping_add(0x24))
                })
                &&& t.0.rd32(link) == 0
                &&& apart(q.0.wrapping_add(0x20), 8, a, 1) && apart(link, 4, a, 1) ==> t.0.rd8(a)
                    == v.rd8(a)
            }
        }),
{
    broadcast use crate::mem_laws::group_loads;

}

/// An append clears the eb's link, puts the eb where the tail points, and lets the tail point at the
/// eb's link. Nothing else changes.
pub proof fn append_links_at_the_tail(v: MemView, q: PendingQ, eb: Eb, a: u32)
    requires
        apart(eb.0.wrapping_add(0x30), 4, q.0.wrapping_add(0x20), 8),
        apart(v.rd32(q.0.wrapping_add(0x24)), 4, q.0.wrapping_add(0x24), 4),
        apart(v.rd32(q.0.wrapping_add(0x24)), 4, eb.0.wrapping_add(0x30), 4),
    ensures
        ({
            let link = eb.0.wrapping_add(0x30);
            let tail = v.rd32(q.0.wrapping_add(0x24));
            let w = appended(v, q, eb);
            &&& w.rd32(link) == 0
            &&& w.rd32(tail) == eb.0
            &&& w.rd32(q.0.wrapping_add(0x24)) == link
            &&& apart(link, 4, a, 1) && apart(tail, 4, a, 1) && apart(q.0.wrapping_add(0x24), 4, a, 1)
                ==> w.rd8(a) == v.rd8(a)
        }),
{
    broadcast use crate::mem_laws::group_loads;

}

/// An enqueued frame has the time of the enqueue in its timestamp and stands at the end of the list of
/// its AC.
pub proof fn enqueue_stamps_the_frame(v: MemView, eb: Eb)
    requires
        apart(eb.txinfo_in(v).0.wrapping_add(0x18), 4, 0x4087_ff80, 4),
    ensures
        ({
            let ti = eb.txinfo_in(v).0;
            let ac = (v.rd32(ti.wrapping_add(0x10)) / 0x10_0000) % 0x10;
            let v1 = v.st32(ti.wrapping_add(0x18), v.rd32(0x600a_d000));
            let q = PendingQ(v.rd32(0x4087_ff80).wrapping_add((ac * 0x34) as u32));
            enqueued(v, eb) == appended(v1, q, eb)
        }),
{
    broadcast use crate::mem_laws::group_loads;

    let ti = eb.txinfo_in(v);
    let v1 = v.st32(ti.0.wrapping_add(0x18), v.rd32(0x600a_d000));
    let w10 = v.rd32(ti.0.wrapping_add(0x10));
    assert(v1.rd32(ti.0.wrapping_add(0x10)) == w10);
    crate::bits::high_bits(w10);
    crate::bits::low_bits(w10 >> 20);
    crate::layout_laws::pointer_cells(v1, 0, ti.ac_in(v));
}

/// A frame of category 4 (bits 4-7 of its category) goes to AC 2 and wakes nothing. One without a rate
/// context, or with one that has bit 7 of its halfword 0xc set, becomes category 7, goes to the AC of
/// its interface, and begins the wake, with the block register as it is now kept for the count. Any
/// other frame is left as it is. The rest of the frame's word, the memory and the driver stay.
pub proof fn mapping_by_category(v: MemView, d: DriverView, eb: Eb, a: u32)
    requires
        apart(eb.txinfo_in(v).0, 0x14, 0x600a_4ca8, 4),
    ensures
        ({
            let ti = eb.txinfo_in(v).0;
            let trc = v.rd32(eb.0.wrapping_add(0x2c));
            let category4 = v.rd32(ti.wrapping_add(4)) & 0xf0 == 0x40;
            let own = trc == 0 || v.rd16(trc.wrapping_add(0xc)) & 0x80 != 0;
            let w10 = ti.wrapping_add(0x10);
            let iface = (v.rd32(w10) >> 19) & 1;
            let t = mapped(v, d, eb);
            &&& category4 ==> {
                &&& (t.0.rd32(w10) >> 20) & 0xf == 2
                &&& t.0.rd32(w10) & 0xff0f_ffff == v.rd32(w10) & 0xff0f_ffff
                &&& t.1 == d && t.2 is None
                &&& apart(w10, 4, a, 1) ==> t.0.rd8(a) == v.rd8(a)
            }
            &&& !category4 && own ==> {
                &&& t.0.rd8(ti.wrapping_add(4)) == 7
                &&& (t.0.rd32(w10) >> 20) & 0xf == iface
                &&& t.0.rd32(w10) & 0xff0f_ffff == v.rd32(w10) & 0xff0f_ffff
                &&& t.2 matches Some((pre, wake))
                &&& pre == v.rd32(0x600a_4ca8)
                &&& (t.1.pm, wake) == (
                    data_tx_begun(
                        t.0,
                        d.pm,
                        d.cells,
                        d.cfg.pm_wake_experiment,
                        iface,
                        d.cfg.pm_on_data_tx,
                        !d.cfg.pm_wake_rust || (d.cfg.ab_wake && d.ab_use_vendor),
                    ).1,
                    data_tx_begun(
                        t.0,
                        d.pm,
                        d.cells,
                        d.cfg.pm_wake_experiment,
                        iface,
                        d.cfg.pm_on_data_tx,
                        !d.cfg.pm_wake_rust || (d.cfg.ab_wake && d.ab_use_vendor),
                    ).2,
                )
                &&& t.1 == (DriverView { pm: t.1.pm, ..d })
                &&& apart(ti.wrapping_add(4), 1, a, 1) && apart(w10, 4, a, 1) ==> t.0.rd8(a)
                    == v.rd8(a)
            }
            &&& !category4 && !own ==> t == (v, d, None::<(u32, Wake)>)
        }),
{
    broadcast use crate::mem_laws::group_loads;

    let ti = eb.txinfo_in(v).0;
    let w = v.rd32(ti.wrapping_add(0x10));
    lemma_mapped_bits(w, 0);
    lemma_mapped_bits(w, (w >> 19) & 1);
}

/// The wake before a frame is skipped where it is switched off, left to the vendor firmware where that
/// is to wake, and begun by the driver otherwise.
pub proof fn wake_by_selector(
    v: MemView,
    d: DriverView,
    iface: u32,
    enabled: bool,
    use_vendor: bool,
)
    ensures
        ({
            let exp = d.cfg.pm_wake_experiment;
            let t = data_tx_begun(v, d.pm, d.cells, exp, iface, enabled, use_vendor);
            &&& !enabled ==> t == (v, d.pm, Wake::Done)
            &&& enabled && use_vendor ==> t == (v, d.pm, Wake::VendorOnDataTx { iface })
            &&& enabled && !use_vendor ==> t == wake_begun(v, d.pm, d.cells, exp, iface)
        }),
{
}

/// The steps of a submit and their order. A frame whose interface's bit in the enable mask is clear is
/// dropped, with nothing stored. Otherwise its protocol flags are set, then the security header put in
/// place, by the driver or by the vendor firmware, whose reply of 1 drops the frame; then the frame is
/// mapped, and enqueued once its wake is over.
pub proof fn submit_step_by_step(v: MemView, d: DriverView, eb: Eb, pre: u32, wake: Wake, reply: u64)
    ensures
        ({
            let iface = eb.txinfo_in(v).iface_in(v);
            let mask = v.rd8(v.rd32(0x4087_ff68).wrapping_add(0x31));
            let enabled = ((mask as u32) >> iface) & 1 == 1;
            let v1 = proto_marked(v, eb);
            let t = submit_begun(v, d, eb);
            let s = sec_processed(v1, eb);
            let m = mapped(s, d, eb);
            &&& !enabled ==> t == (v, d.recycled(eb), Submit::Done { ret: 1 })
            &&& enabled && !d.cfg.cr_secframe ==> t == (v1, d, Submit::VendorSecFrame { eb })
            &&& enabled && d.cfg.cr_secframe && m.2 is None ==> t == (
                enqueued(m.0, eb),
                m.1,
                Submit::Done { ret: 0 },
            )
            &&& enabled && d.cfg.cr_secframe ==> (m.2 matches Some((p, w)) ==> t == (
                m.0,
                m.1,
                Submit::Wake { eb, pre: p, wake: w },
            ))
        }),
        ({
            let t = submit_resumed(v, d, Submit::VendorSecFrame { eb }, reply);
            let m = mapped(v, d, eb);
            &&& reply == 1 ==> t == (v, d.recycled(eb), Submit::Done { ret: 1 })
            &&& reply != 1 && m.2 is None ==> t == (enqueued(m.0, eb), m.1, Submit::Done { ret: 0 })
            &&& reply != 1 ==> (m.2 matches Some((p, w)) ==> t == (
                m.0,
                m.1,
                Submit::Wake { eb, pre: p, wake: w },
            ))
        }),
        ({
            let t = submit_resumed(v, d, Submit::Wake { eb, pre, wake }, reply);
            let u = wake_resumed(v, d.pm, d.cells, d.cfg.pm_wake_experiment, wake, reply);
            let pm = wake_counted(d.pm, pre, v.rd32(0x600a_4ca8));
            &&& wake == Wake::Done ==> t == (
                enqueued(v, eb),
                DriverView { pm, ..d },
                Submit::Done { ret: 0 },
            )
            &&& wake != Wake::Done ==> t == (
                u.0,
                DriverView { pm: u.1, ..d },
                Submit::Wake { eb, pre, wake: u.2 },
            )
        }),
{
    reveal(submit_begun);
    reveal(submit_resumed);
    let iface = eb.txinfo_in(v).iface_in(v);
    crate::bits::low_bits(eb.txinfo_in(v).word10_in(v) >> 19);
    crate::bits::low_bits(iface);
    let mask = v.rd8(v.rd32(0x4087_ff68).wrapping_add(0x31));
    crate::bits::low_bits((mask as u32) >> iface);
}

/// A transmission sets the frame up and submits it; when the submit is over, whatever its outcome, it
/// notes the outcome, the block register and the slot's PLCP0_ENABLE, and schedules the frame's AC; and
/// it is over when the schedule is.
pub proof fn transmission_step_by_step(
    v: MemView,
    d: DriverView,
    eb: Eb,
    seq: u16,
    txinfo: TxInfo,
    ret: i32,
    reply: u64,
)
    ensures
        ({
            let t = job_begun(v, d, eb, seq);
            let u = submit_begun(raw_set_up(v, eb, seq), d, eb);
            &&& (t.0, t.1) == (u.0, u.1)
            &&& t.2 matches Job::Submit { txinfo: ti, s }
            &&& s == u.2
            &&& ti == eb.txinfo_in(raw_desc_set(v, eb))
        }),
        ({
            let ac = (v.rd32(txinfo.0.wrapping_add(0x10)) / 0x10_0000) % 0x10;
            let j = Job::Submit { txinfo, s: Submit::Done { ret } };
            let t = job_resumed(v, d, j, reply);
            let u = schedule_begun(v, d, ac as u32);
            let b = before_of(v, txinfo, ret);
            &&& b.ac == ac
            &&& b.ret == ret
            &&& b.blk == v.rd32(0x600a_4ca8)
            &&& b.plcp0 == v.rd32((0x600a_4d6c - 0x10 * ac) as u32)
            &&& (t.0, t.1) == (u.0, u.1)
            &&& u.2 == Schedule::Busy || u.2 == Schedule::Empty || u.2 == Schedule::Arm(Arm::Armed)
                ==> t.2 == (Job::Over { before: b })
            &&& u.2 matches Schedule::Arm(a) ==> a != Arm::Armed ==> t.2 == (Job::Arm { before: b, a })
        }),
{
    let w10 = v.rd32(txinfo.0.wrapping_add(0x10));
    crate::bits::high_bits(w10);
    crate::bits::low_bits(w10 >> 20);
    crate::mac_reg::register_map((w10 >> 20) & 0xf);
}

/// Giving a buffer back is for the pool, if the driver's pool is in use, and changes nothing else of the
/// driver. The vendor firmware wakes where the driver does not, and in the rounds that are its own.
pub proof fn driver_gives_back_to_its_pool(d: DriverView, eb: Eb)
    ensures
        d.cfg.cr_pool_enabled ==> d.recycled(eb) == (DriverView { pool: d.pool.recycled(eb), ..d }),
        !d.cfg.cr_pool_enabled ==> d.recycled(eb) == d,
        d.use_vendor() <==> !d.cfg.pm_wake_rust || (d.cfg.ab_wake && d.ab_use_vendor),
{
}

} // verus!
