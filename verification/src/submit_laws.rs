//! How a fresh broadcast frame gets from the pool to the pending list.
use crate::arm_laws::{broadcast_pending, laid_out, pending_broadcast_is_armed, SRAM_END, SRAM_START};
use crate::beacon::beacon_bytes;
use crate::eb_pool::{
    block_cleaned, fitting, EB_FRAME_OFF, EB_OWN_DESC_OFF, EB_OWN_TXINFO_OFF, EB_SIZE,
    TXINFO_FLAGS_SEED,
};
use crate::frame::{
    interface_enabled, proto_marked, raw_set_up, sec_processed, FLAG_BROADCAST, FRAME_ADDR1,
    SEC_HDR_ROOM,
};
use crate::frame_laws::own_parts;
use crate::layout::{
    if_mask_of, instances_of, DmaDesc, Eb, LmacTxq, PendingQ, TxInfo, OUR_INSTANCES_PTR,
    TXRXCXT_PTR, WDEVCTRL_IF_ENABLED_MASK, WDEVCTRL_PTR,
};
use crate::mac_reg::{conf_addr, PLCP0_ENABLE, PM_TXBLOCK_RETENTION, SLOTS, SYS_TIMER};
use crate::mem_laws::{rd32_after_st_bytes, rd8_after_st_bytes};
use crate::mmio::{ahead, apart, MemView};
use crate::pending::{append_adds_at_the_end, holds, links_apart, poppable};
use crate::pipeline::{
    enqueued, job_begun, job_resumed, mapped, submit_begun, submit_resumed, DriverView, Job, Submit,
};
use crate::pm_wake::{
    marked_awake, phy_marked, tx_unblocked, wake_resumed, PmCells, PmStats, Wake, DISC_AWAKE, G_IC_PTR,
    PM_DISC, PM_STATE,
};
use crate::pool_laws::{
    alloc_hands_out_a_clean_block, alloc_keeps_the_pointers, self_contained,
};
use crate::wake_laws::mask_of;
use vstd::prelude::*;

verus! {

/// Nothing outside the block at `b` differs between the two address spaces.
pub open spec fn only_block_changed(v: MemView, w: MemView, b: u32) -> bool {
    forall|a: u32| ahead(b, a) >= EB_SIZE ==> #[trigger] w.rd8(a) == v.rd8(a)
}

pub(crate) proof fn lemma_words_outside(v: MemView, w: MemView, b: u32, a: u32)
    requires
        only_block_changed(v, w, b),
        0 < b < SRAM_END,
        apart(b, EB_SIZE as int, a, 4),
    ensures
        w.rd32(a) == v.rd32(a),
        w.rd8(a) == v.rd8(a),
{
    reveal(MemView::rd32);
    assert(ahead(b, a.wrapping_add(1)) >= EB_SIZE);
    assert(ahead(b, a.wrapping_add(2)) >= EB_SIZE);
    assert(ahead(b, a.wrapping_add(3)) >= EB_SIZE);
}

/// The AC is idle, with nothing pending.
pub open spec fn idle_and_empty(v: MemView, ac: u32, eb: Eb) -> bool {
    let txq = LmacTxq::block(instances_of(v), ac);
    let q = PendingQ::of_ac(v, ac);
    &&& laid_out(txq, q, eb)
    &&& txq.state_in(v) == LmacTxq::STATE_IDLE
    &&& txq.slot_in(v) < SLOTS
    &&& holds(v, q, Seq::empty())
    &&& poppable(v, q)
}

proof fn lemma_ac_outside(v: MemView, w: MemView, ac: u32, eb: Eb)
    requires
        idle_and_empty(v, ac, eb),
        only_block_changed(v, w, eb.0),
    ensures
        idle_and_empty(w, ac, eb),
        PendingQ::of_ac(w, ac) == PendingQ::of_ac(v, ac),
        instances_of(w) == instances_of(v),
{
    let txq = LmacTxq::block(instances_of(v), ac);
    let q = PendingQ::of_ac(v, ac);
    lemma_words_outside(v, w, eb.0, OUR_INSTANCES_PTR);
    lemma_words_outside(v, w, eb.0, TXRXCXT_PTR);
    lemma_words_outside(v, w, eb.0, q.0.wrapping_add(PendingQ::HEAD));
    lemma_words_outside(v, w, eb.0, q.0.wrapping_add(PendingQ::TAIL));
    lemma_words_outside(v, w, eb.0, q.0.wrapping_add(PendingQ::GUARD_BYTE));
    lemma_words_outside(v, w, eb.0, q.0.wrapping_add(PendingQ::GUARD_WORD));
    lemma_words_outside(v, w, eb.0, txq.0.wrapping_add(LmacTxq::SLOT));
    lemma_words_outside(v, w, eb.0, txq.0.wrapping_add(LmacTxq::STATE));
}

/// The flags are neither those of an HE frame nor those of an encrypted aggregate.
pub open spec fn plain(flags: u32) -> bool {
    flags & 0x8000_0000 == 0 && flags & 0x0104_0000 == 0
}

/// A broadcast frame of the driver's pool is ready to be enqueued on AC 0.
pub open spec fn prepared(v: MemView, eb: Eb) -> bool {
    &&& own_parts(v, eb)
    &&& plain(eb.txinfo_in(v).flags_in(v))
    &&& eb.txinfo_in(v).flags_in(v) & FLAG_BROADCAST != 0
    &&& eb.txinfo_in(v).rate_in(v) == 0
    &&& eb.txinfo_in(v).ac_in(v) == 0
}

/// A prepared frame is enqueued as the only one, and is then what the schedule finds.
pub proof fn prepared_frame_is_enqueued(v: MemView, eb: Eb)
    requires
        prepared(v, eb),
        idle_and_empty(v, 0, eb),
    ensures
        broadcast_pending(enqueued(v, eb), 0, eb),
        prepared(enqueued(v, eb), eb),
{
    broadcast use crate::mem_laws::group_loads;

    let ti = eb.txinfo_in(v);
    let v1 = ti.with_timestamp(v, v.rd32(SYS_TIMER));
    let q = PendingQ::of_ac(v, 0);
    let txq = LmacTxq::block(instances_of(v), 0);
    assert(only_block_changed(v, v1, eb.0));
    lemma_ac_outside(v, v1, 0, eb);
    let s = Seq::<u32>::empty();
    assert(s.push(eb.0) =~= seq![eb.0]);
    assert(links_apart(q, s.push(eb.0)));
    append_adds_at_the_end(v1, q, s, eb);
    assert(prepared(v1, eb));
    let w = enqueued(v, eb);
    assert(q.tail_in(v1) == q.0.wrapping_add(PendingQ::HEAD));
    assert(prepared(w, eb));
    assert(instances_of(w) == instances_of(v));
    assert(PendingQ::of_ac(w, 0) == q);
    assert(txq.state_in(w) == txq.state_in(v));
    assert(txq.slot_in(w) == txq.slot_in(v));
}

/// Once its wake is over, a prepared frame is submitted and then armed, in two steps and without any
/// vendor firmware; its slot ends up with 0xc0 in the top byte of PLCP0_ENABLE.
pub proof fn woken_frame_is_armed(v: MemView, d: DriverView, eb: Eb, pre: u32, reply: u64)
    requires
        prepared(v, eb),
        idle_and_empty(v, 0, eb),
    ensures
        ({
            let txinfo = eb.txinfo_in(v);
            let slot = LmacTxq::block(instances_of(v), 0).slot_in(v);
            let j0 = Job::Submit { txinfo, s: Submit::Wake { eb, pre, wake: Wake::Done } };
            let t1 = job_resumed(v, d, j0, reply);
            let t2 = job_resumed(t1.0, t1.1, t1.2, reply);
            &&& t1.2 == (Job::Submit { txinfo, s: Submit::Done { ret: 0 } })
            &&& t2.2 is Over
            &&& t2.2->Over_before.ret == 0
            &&& t2.2->Over_before.ac == 0
            &&& t2.0.rd32(conf_addr(PLCP0_ENABLE, slot)) >> 24 == 0xc0
            &&& t2.1.pool == d.pool
        }),
{
    reveal(submit_resumed);
    prepared_frame_is_enqueued(v, eb);
    let w = enqueued(v, eb);
    let txinfo = eb.txinfo_in(v);
    assert(txinfo.ac_in(w) == 0 && instances_of(w) == instances_of(v) && LmacTxq::block(
        instances_of(v),
        0,
    ).slot_in(w) == LmacTxq::block(instances_of(v), 0).slot_in(v)) by {
        lemma_enqueue_keeps(v, eb);
    }
    let j0 = Job::Submit { txinfo, s: Submit::Wake { eb, pre, wake: Wake::Done } };
    let t1 = job_resumed(v, d, j0, reply);
    assert(t1.0 == w);
    pending_broadcast_is_armed(w, t1.1, 0, eb);
}

pub(crate) proof fn lemma_enqueue_keeps(v: MemView, eb: Eb)
    requires
        prepared(v, eb),
        idle_and_empty(v, 0, eb),
    ensures
        ({
            let w = enqueued(v, eb);
            let txq = LmacTxq::block(instances_of(v), 0);
            &&& eb.txinfo_in(v).ac_in(w) == 0
            &&& instances_of(w) == instances_of(v)
            &&& w.rd32(TXRXCXT_PTR) == v.rd32(TXRXCXT_PTR)
            &&& w.rd32(G_IC_PTR) == v.rd32(G_IC_PTR)
            &&& txq.slot_in(w) == txq.slot_in(v)
        }),
{
    broadcast use crate::mem_laws::group_loads;

    let ti = eb.txinfo_in(v);
    let v1 = ti.with_timestamp(v, v.rd32(SYS_TIMER));
    assert(only_block_changed(v, v1, eb.0));
    lemma_ac_outside(v, v1, 0, eb);
    assert(PendingQ::of_ac(v1, 0).tail_in(v1) == PendingQ::of_ac(v, 0).0.wrapping_add(
        PendingQ::HEAD,
    ));
    assert(ti.ac_in(v1) == 0);
}

/// The parts of a frame that the submit relies on.
spec fn frame_state(v: MemView, eb: Eb) -> bool {
    &&& own_parts(v, eb)
    &&& plain(eb.txinfo_in(v).flags_in(v))
    &&& eb.txinfo_in(v).flags_in(v) & FLAG_BROADCAST != 0
    &&& eb.txinfo_in(v).rate_in(v) == 0
    &&& eb.txinfo_in(v).iface_in(v) == 0
    &&& eb.trc_in(v) == 0
    &&& v.rd8(eb.txinfo_in(v).0.wrapping_add(TxInfo::CAT)) == 7
}

proof fn lemma_flag_bits(f: u32)
    by (bit_vector)
    ensures
        (f | 0x402u32) & 0x2u32 != 0,
        (f | 0x2u32) & 0x2u32 != 0,
        (f | 0x8u32) & 0x2u32 == f & 0x2u32,
        (f & 0xffff_fff7u32) & 0x2u32 == f & 0x2u32,
        ((f | 0x402u32) & 0x8000_0000u32) == f & 0x8000_0000u32,
        ((f | 0x402u32) & 0x0104_0000u32) == f & 0x0104_0000u32,
        ((f | 0x2u32) & 0x8000_0000u32) == f & 0x8000_0000u32,
        ((f | 0x2u32) & 0x0104_0000u32) == f & 0x0104_0000u32,
        ((f | 0x8u32) & 0x8000_0000u32) == f & 0x8000_0000u32,
        ((f | 0x8u32) & 0x0104_0000u32) == f & 0x0104_0000u32,
        ((f & 0xffff_fff7u32) & 0x8000_0000u32) == f & 0x8000_0000u32,
        ((f & 0xffff_fff7u32) & 0x0104_0000u32) == f & 0x0104_0000u32,
        ((f & 0xfff7_ffffu32) >> 0x13) & 1 == 0,
{
}

proof fn lemma_setup(v: MemView, eb: Eb, seq: u16)
    requires
        own_parts(v, eb),
        SRAM_START <= eb.0 < SRAM_END,
        eb.dma_desc_in(v).frame_ptr_in(v) == eb.0 + EB_FRAME_OFF,
        v.rd8(eb.dma_desc_in(v).frame_ptr_in(v).wrapping_add(FRAME_ADDR1)) & 1 != 0,
        plain(eb.txinfo_in(v).flags_in(v)),
    ensures
        ({
            let w = raw_set_up(v, eb, seq);
            &&& frame_state(w, eb)
            &&& eb.txinfo_in(crate::frame::raw_desc_set(v, eb)) == eb.txinfo_in(v)
            &&& only_block_changed(v, w, eb.0)
        }),
{
    broadcast use crate::mem_laws::group_loads;

    lemma_flag_bits(eb.txinfo_in(v).flags_in(v));
    lemma_flag_bits(eb.txinfo_in(v).word10_in(v));
}

proof fn lemma_proto(v: MemView, eb: Eb)
    requires
        frame_state(v, eb),
        SRAM_START <= eb.0 < SRAM_END,
    ensures
        ({
            let w = proto_marked(v, eb);
            &&& frame_state(w, eb)
            &&& only_block_changed(v, w, eb.0)
        }),
{
    broadcast use crate::mem_laws::group_loads;

    let f = eb.txinfo_in(v).flags_in(v);
    lemma_flag_bits(f);
    lemma_flag_bits(f | 0x2);
    lemma_flag_bits(f | 0x8);
    lemma_flag_bits((f | 0x2) | 0x8);
}

proof fn lemma_zeros_in_block(v: MemView, eb: Eb, hdr: u32)
    requires
        frame_state(v, eb),
        SRAM_START <= eb.0 < SRAM_END,
        hdr == eb.0 + EB_FRAME_OFF || hdr == eb.0 + EB_FRAME_OFF - SEC_HDR_ROOM,
    ensures
        ({
            let w = v.st_bytes(hdr, Seq::new(SEC_HDR_ROOM as nat, |i: int| 0u8));
            &&& frame_state(w, eb)
            &&& only_block_changed(v, w, eb.0)
        }),
{
    let z = Seq::new(SEC_HDR_ROOM as nat, |i: int| 0u8);
    let w = v.st_bytes(hdr, z);
    let ti = eb.txinfo_in(v).0;
    let desc = eb.dma_desc_in(v).0;
    rd32_after_st_bytes(v, hdr, z, eb.0.wrapping_add(Eb::DMA_DESC));
    rd32_after_st_bytes(v, hdr, z, eb.0.wrapping_add(Eb::SEC_DESC));
    rd32_after_st_bytes(v, hdr, z, eb.0.wrapping_add(Eb::TXINFO));
    rd32_after_st_bytes(v, hdr, z, eb.0.wrapping_add(Eb::TRC));
    rd32_after_st_bytes(v, hdr, z, desc.wrapping_add(DmaDesc::FRAME_PTR));
    rd32_after_st_bytes(v, hdr, z, ti.wrapping_add(TxInfo::FLAGS));
    rd32_after_st_bytes(v, hdr, z, ti.wrapping_add(TxInfo::WORD10));
    rd8_after_st_bytes(v, hdr, z, ti.wrapping_add(TxInfo::RATE));
    rd8_after_st_bytes(v, hdr, z, ti.wrapping_add(TxInfo::CAT));
    assert(ti.wrapping_add(TxInfo::FLAGS) == ti);
    assert forall|a: u32| ahead(eb.0, a) >= EB_SIZE implies #[trigger] w.rd8(a) == v.rd8(a) by {
        rd8_after_st_bytes(v, hdr, z, a);
    }
}

proof fn lemma_sec(v: MemView, eb: Eb)
    requires
        frame_state(v, eb),
        SRAM_START <= eb.0 < SRAM_END,
        eb.dma_desc_in(v).frame_ptr_in(v) == eb.0 + EB_FRAME_OFF,
    ensures
        ({
            let w = sec_processed(v, eb);
            &&& frame_state(w, eb)
            &&& only_block_changed(v, w, eb.0)
        }),
{
    broadcast use crate::mem_laws::group_loads;

    let ti = eb.txinfo_in(v);
    let len = crate::frame::sec_len_of(v, ti.word10_in(v));
    let v1 = eb.with_payload_len(v, (eb.payload_len_in(v) + len) as u16);
    let dma = eb.dma_desc_in(v);
    let v2 = dma.with_ctrl(v1, crate::layout::ctrl_plus_len(dma.ctrl_in(v1), len));
    let v3 = dma.with_ctrl(v2, dma.ctrl_in(v2) | DmaDesc::CTRL_EOF);
    assert(frame_state(v3, eb));
    assert(only_block_changed(v, v3, eb.0));
    let v4 = if eb.flags16_in(v3) & Eb::FLAG16_HDR_SHIFTED == 0 {
        crate::frame::header_shifted(v3, eb)
    } else {
        v3
    };
    assert(frame_state(v4, eb));
    assert(only_block_changed(v3, v4, eb.0));
    let hdr = dma.frame_ptr_in(v4);
    lemma_zeros_in_block(v4, eb, hdr);
}

proof fn lemma_low_byte(b0: u8, b1: u8, b2: u8, b3: u8)
    by (bit_vector)
    requires
        b0 == 7,
    ensures
        ((b0 as u32) | ((b1 as u32) << 8) | ((b2 as u32) << 16) | ((b3 as u32) << 24)) & 0xf0 == 0,
{
}

proof fn lemma_ac_bits(w: u32)
    ensures
        (((w & 0xff0f_ffffu32) | (0u32 << 0x14)) >> 0x14) & 0xf == 0,
{
    lemma_mapped_bits(w, 0);
}

proof fn lemma_map(v: MemView, d: DriverView, eb: Eb)
    requires
        frame_state(v, eb),
        SRAM_START <= eb.0 < SRAM_END,
    ensures
        ({
            let t = mapped(v, d, eb);
            &&& t.2 is Some
            &&& prepared(t.0, eb)
            &&& only_block_changed(v, t.0, eb.0)
        }),
{
    broadcast use crate::mem_laws::group_loads;

    let ti = eb.txinfo_in(v);
    let c = ti.0.wrapping_add(TxInfo::CAT);
    assert(ti.cat_word_in(v) & 0xf0 == 0) by {
        reveal(MemView::rd32);
        lemma_low_byte(
            v.rd8(c),
            v.rd8(c.wrapping_add(1)),
            v.rd8(c.wrapping_add(2)),
            v.rd8(c.wrapping_add(3)),
        );
    }
    let v1 = ti.with_cat(v, 7);
    lemma_ac_bits(ti.word10_in(v1));
}

pub(crate) proof fn lemma_mapped_bits(w: u32, iface: u32)
    by (bit_vector)
    requires
        iface <= 1,
    ensures
        (((w & 0xff0f_ffffu32) | (iface << 0x14)) >> 0x14) & 0xf == iface,
        ((w & 0xff0f_ffffu32) | (iface << 0x14)) & 0xff0f_ffffu32 == w & 0xff0f_ffffu32,
        (((w & 0xff0f_ffffu32) | 0x20_0000u32) >> 0x14) & 0xf == 2,
        ((w & 0xff0f_ffffu32) | 0x20_0000u32) & 0xff0f_ffffu32 == w & 0xff0f_ffffu32,
        (w >> 0x13) & 1 <= 1,
{
}

/// The AC mapping puts a frame of category 4 on AC 2 and a raw frame on the AC of its interface, and
/// keeps everything else in WORD10.
pub proof fn mapping_chooses_the_ac(v: MemView, d: DriverView, eb: Eb)
    requires
        own_parts(v, eb),
        SRAM_START <= eb.0 < SRAM_END,
    ensures
        ({
            let ti = eb.txinfo_in(v);
            let w = mapped(v, d, eb).0;
            let category4 = ti.cat_word_in(v) & 0xf0 == 0x40;
            &&& category4 ==> ti.ac_in(w) == 2
            &&& !category4 && eb.trc_in(v) == 0 ==> ti.ac_in(w) == ti.iface_in(v)
            &&& ti.word10_in(w) & 0xff0f_ffff == ti.word10_in(v) & 0xff0f_ffff
        }),
{
    broadcast use crate::mem_laws::group_loads;

    let ti = eb.txinfo_in(v);
    let w = ti.word10_in(v);
    lemma_mapped_bits(w, 0);
    lemma_mapped_bits(w, ti.iface_in(v));
}

/// Interface 0 is enabled, and the byte that says so lies outside the block at `b`.
pub open spec fn interface_up(v: MemView, b: u32) -> bool {
    &&& interface_enabled(if_mask_of(v), 0) != 0
    &&& ahead(b, v.rd32(WDEVCTRL_PTR).wrapping_add(WDEVCTRL_IF_ENABLED_MASK)) >= EB_SIZE
}

/// A fresh broadcast frame of the driver's pool, with interface 0 enabled and AC 0 idle and empty.
pub open spec fn fresh_broadcast(v: MemView, eb: Eb) -> bool {
    let frame = eb.0.wrapping_add(EB_FRAME_OFF);
    let flags = eb.txinfo_in(v).flags_in(v);
    &&& own_parts(v, eb)
    &&& eb.dma_desc_in(v).frame_ptr_in(v) == frame
    &&& v.rd8(frame.wrapping_add(FRAME_ADDR1)) & 1 != 0
    &&& plain(flags)
    &&& idle_and_empty(v, 0, eb)
    &&& interface_up(v, eb.0)
}

/// The submit of a fresh broadcast frame goes straight to the modem wake with the frame prepared for
/// AC 0, nothing outside its block stored to, and its buffer still taken.
pub proof fn fresh_broadcast_reaches_the_wake(v: MemView, d: DriverView, eb: Eb, seq: u16)
    requires
        fresh_broadcast(v, eb),
        d.cfg.cr_secframe,
    ensures
        ({
            let t = job_begun(v, d, eb, seq);
            &&& t.2 matches Job::Submit { txinfo, s: Submit::Wake { eb: e, pre, wake } }
            &&& e == eb
            &&& txinfo == eb.txinfo_in(t.0)
            &&& prepared(t.0, eb)
            &&& idle_and_empty(t.0, 0, eb)
            &&& only_block_changed(v, t.0, eb.0)
            &&& t.1.pool == d.pool
        }),
{
    reveal(submit_begun);
    lemma_setup(v, eb, seq);
    let v1 = raw_set_up(v, eb, seq);
    lemma_setup_keeps_frame(v, eb, seq);
    lemma_proto(v1, eb);
    let v2 = proto_marked(v1, eb);
    lemma_proto_keeps_frame(v1, eb);
    lemma_sec(v2, eb);
    let v3 = sec_processed(v2, eb);
    lemma_map(v3, d, eb);
    let v4 = mapped(v3, d, eb).0;
    let mask_addr = v.rd32(WDEVCTRL_PTR).wrapping_add(WDEVCTRL_IF_ENABLED_MASK);
    assert(if_mask_of(v1) == if_mask_of(v)) by {
        lemma_words_outside(v, v1, eb.0, WDEVCTRL_PTR);
    }
    assert(only_block_changed(v, v2, eb.0));
    assert(only_block_changed(v, v3, eb.0));
    assert(only_block_changed(v, v4, eb.0));
    lemma_ac_outside(v, v4, 0, eb);
}

proof fn lemma_setup_keeps_frame(v: MemView, eb: Eb, seq: u16)
    requires
        own_parts(v, eb),
        SRAM_START <= eb.0 < SRAM_END,
    ensures
        eb.dma_desc_in(raw_set_up(v, eb, seq)).frame_ptr_in(raw_set_up(v, eb, seq))
            == eb.dma_desc_in(v).frame_ptr_in(v),
{
    broadcast use crate::mem_laws::group_loads;

}

proof fn lemma_proto_keeps_frame(v: MemView, eb: Eb)
    requires
        own_parts(v, eb),
        SRAM_START <= eb.0 < SRAM_END,
    ensures
        eb.dma_desc_in(proto_marked(v, eb)).frame_ptr_in(proto_marked(v, eb)) == eb.dma_desc_in(
            v,
        ).frame_ptr_in(v),
{
    broadcast use crate::mem_laws::group_loads;

}

/// A byte at `a` is part neither of the frame nor of what AC 0 is scheduled from.
pub open spec fn elsewhere(v: MemView, eb: Eb, a: u32) -> bool {
    let txq = LmacTxq::block(instances_of(v), 0);
    let q = PendingQ::of_ac(v, 0);
    &&& ahead(eb.0, a) >= EB_SIZE
    &&& ahead(txq.0, a) >= 0x44
    &&& ahead(q.0.wrapping_add(PendingQ::HEAD), a) >= 0x18
    &&& ahead(OUR_INSTANCES_PTR, a) >= 4
    &&& ahead(TXRXCXT_PTR, a) >= 4
}

/// The frame is ready for AC 0, and the AC for the frame.
pub open spec fn in_waiting(v: MemView, eb: Eb) -> bool {
    prepared(v, eb) && idle_and_empty(v, 0, eb)
}

proof fn lemma_byte_elsewhere(v: MemView, eb: Eb, p: u32, x: u8)
    requires
        in_waiting(v, eb),
        elsewhere(v, eb, p),
    ensures
        in_waiting(v.st8(p, x), eb),
        instances_of(v.st8(p, x)) == instances_of(v),
        PendingQ::of_ac(v.st8(p, x), 0) == PendingQ::of_ac(v, 0),
{
    broadcast use crate::mem_laws::group_loads;

}

proof fn lemma_register_elsewhere(v: MemView, eb: Eb, x: u32)
    requires
        in_waiting(v, eb),
    ensures
        in_waiting(v.st32(PM_TXBLOCK_RETENTION, x), eb),
        instances_of(v.st32(PM_TXBLOCK_RETENTION, x)) == instances_of(v),
        PendingQ::of_ac(v.st32(PM_TXBLOCK_RETENTION, x), 0) == PendingQ::of_ac(v, 0),
{
    broadcast use crate::mem_laws::group_loads;

}

proof fn lemma_marked_elsewhere(v: MemView, cells: PmCells, eb: Eb)
    requires
        in_waiting(v, eb),
        elsewhere(v, eb, cells.g_pm.wrapping_add(PM_STATE)),
        elsewhere(v, eb, cells.g_pm.wrapping_add(PM_DISC)),
    ensures
        in_waiting(marked_awake(v, cells), eb),
{
    let v1 = cells.with_u8(v, PM_DISC, DISC_AWAKE);
    lemma_byte_elsewhere(v, eb, cells.g_pm.wrapping_add(PM_DISC), DISC_AWAKE);
    lemma_byte_elsewhere(v1, eb, cells.g_pm.wrapping_add(PM_STATE), 0);
}

/// Every step of the wake leaves a prepared frame prepared and its AC idle and empty, so that the
/// frame can be enqueued when the wake is over.
pub proof fn wake_keeps_the_frame(
    v: MemView,
    s: PmStats,
    cells: PmCells,
    exp: u8,
    w: Wake,
    reply: u64,
    eb: Eb,
)
    requires
        prepared(v, eb),
        idle_and_empty(v, 0, eb),
        elsewhere(v, eb, mask_of(v, w)),
        elsewhere(v, eb, cells.g_pm.wrapping_add(PM_STATE)),
        elsewhere(v, eb, cells.g_pm.wrapping_add(PM_DISC)),
    ensures
        ({
            let t = wake_resumed(v, s, cells, exp, w, reply).0;
            prepared(t, eb) && idle_and_empty(t, 0, eb)
        }),
{
    let maskp = mask_of(v, w);
    let keep = !((cells.retention_mask_in(v) & 0x00ff_0000) | 0x1000);
    let u = tx_unblocked(v, cells);
    lemma_register_elsewhere(v, eb, v.rd32(PM_TXBLOCK_RETENTION) & keep);
    assert(in_waiting(u, eb));
    assert forall|mode: u32, z: MemView|
        (z == v || z == u) implies in_waiting(#[trigger] phy_marked(z, maskp, mode), eb)
        && in_waiting(marked_awake(phy_marked(z, maskp, mode), cells), eb) by {
        let x = z.rd8(maskp) | (1u8 << (mode & 7));
        lemma_byte_elsewhere(z, eb, maskp, x);
        lemma_marked_elsewhere(z.st8(maskp, x), cells, eb);
    }
    lemma_marked_elsewhere(v, cells, eb);
    assert(in_waiting(wake_resumed(v, s, cells, exp, w, reply).0, eb));
}

/// The block at `b` points at its own parts, and the flags in its txinfo are plain.
pub open spec fn in_order(v: MemView, b: u32) -> bool {
    let desc = DmaDesc(b.wrapping_add(EB_OWN_DESC_OFF));
    let ti = TxInfo(b.wrapping_add(EB_OWN_TXINFO_OFF));
    &&& Eb(b).dma_desc_in(v) == desc
    &&& Eb(b).sec_desc_in(v) == desc
    &&& Eb(b).txinfo_in(v) == ti
    &&& plain(ti.flags_in(v))
}

proof fn lemma_seeds()
    ensures
        plain(TXINFO_FLAGS_SEED),
        0xffu8 & 1 != 0,
        0u16 & 0x2000 == 0,
{
    assert(0xffu8 & 1 != 0 && 0u16 & 0x2000 == 0 && 0x2000u32 & 0x8000_0000 == 0 && 0x2000u32
        & 0x0104_0000 == 0) by (bit_vector);
}

/// A block that `init` has built is in order.
pub proof fn built_block_is_in_order(v: MemView, b: u32)
    requires
        self_contained(v, b),
    ensures
        in_order(v, b),
{
    lemma_seeds();
}

proof fn lemma_cleaned(v: MemView, b: u32, payload: Seq<u8>)
    requires
        0 < b < SRAM_END,
    ensures
        only_block_changed(v, block_cleaned(v, b, payload), b),
        TxInfo(b.wrapping_add(EB_OWN_TXINFO_OFF)).flags_in(block_cleaned(v, b, payload)) == TxInfo(
            b.wrapping_add(EB_OWN_TXINFO_OFF),
        ).flags_in(v),
{
    broadcast use crate::mem_laws::group_loads;

    let p = fitting(payload);
    let f = b.wrapping_add(EB_FRAME_OFF);
    let v1 = v.st_bytes(f, p);
    rd32_after_st_bytes(v, f, p, b.wrapping_add(EB_OWN_TXINFO_OFF));
    assert forall|a: u32| ahead(b, a) >= EB_SIZE implies #[trigger] v1.rd8(a) == v.rd8(a) by {
        rd8_after_st_bytes(v, f, p, a);
    }
}

/// A beacon that was taken from the pool, in a block that is in order, is a fresh broadcast frame: it
/// has its parts to itself, no header in front of it, a broadcast receiver and plain flags. It is a
/// management frame.
pub proof fn allocated_beacon_is_fresh(v: MemView, b: u32, ssid: Seq<u8>, mac: Seq<u8>)
    requires
        in_order(v, b),
        idle_and_empty(v, 0, Eb(b)),
        interface_up(v, b),
        mac.len() == 6,
        ssid.len() <= crate::beacon::SSID_MAX,
    ensures
        ({
            let w = block_cleaned(v, b, beacon_bytes(ssid, mac));
            &&& fresh_broadcast(w, Eb(b))
            &&& Eb(b).flags16_in(w) & Eb::FLAG16_HDR_SHIFTED == 0
            &&& w.rd8((b + EB_FRAME_OFF) as u32) == 0x80
            &&& only_block_changed(v, w, b)
        }),
{
    let p = beacon_bytes(ssid, mac);
    let w = block_cleaned(v, b, p);
    assert(p.len() == crate::beacon::BEACON_OVERHEAD + ssid.len());
    assert(p[0] == 0x80 && p[4] == 0xff);
    alloc_keeps_the_pointers(v, b, p);
    alloc_hands_out_a_clean_block(v, b, p, 0);
    alloc_hands_out_a_clean_block(v, b, p, 4);
    lemma_seeds();
    lemma_cleaned(v, b, p);
    lemma_ac_outside(v, w, 0, Eb(b));
    lemma_words_outside(v, w, b, WDEVCTRL_PTR);
}

} // verus!
