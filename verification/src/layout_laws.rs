//! Where the fields of the structures lie.
use crate::bits::{high_bits, low_bits};
use crate::layout::{
    if_mask_of, instances_of, DmaDesc, Eb, LmacTxq, PendingQ, TxInfo,
};
use crate::mmio::MemView;
use vstd::prelude::*;

verus! {

/// A descriptor holds its control word at 0, its frame pointer at 4 and its link at 8.
pub proof fn descriptor_fields(v: MemView, d: DmaDesc, w: u32)
    ensures
        d.ctrl_in(v) == v.rd32(d.0),
        d.with_ctrl(v, w) == v.st32(d.0, w),
        d.frame_ptr_in(v) == v.rd32(d.0.wrapping_add(0x4)),
        d.with_frame_ptr(v, w) == v.st32(d.0.wrapping_add(0x4), w),
        d.with_next(v, w) == v.st32(d.0.wrapping_add(0x8), w),
{
}

/// A txinfo holds its flags at 0, category at 4, rate at 0xc, key slot at 0x10, and in the word there
/// the interface in bit 19 and the AC in bits 20-23; the timestamp at 0x18, the PTI at 0x20 and 0x22, the
/// protection words at 0x30 and 0x34 and the lifetime at 0x40.
pub proof fn txinfo_fields(v: MemView, t: TxInfo, b: u8, w: u32)
    ensures
        t.flags_in(v) == v.rd32(t.0),
        t.with_flags(v, w) == v.st32(t.0, w),
        t.cat_word_in(v) == v.rd32(t.0.wrapping_add(0x4)),
        t.with_cat(v, b) == v.st8(t.0.wrapping_add(0x4), b),
        t.rate_in(v) == v.rd8(t.0.wrapping_add(0xc)),
        t.with_rate(v, b) == v.st8(t.0.wrapping_add(0xc), b),
        t.word10_in(v) == v.rd32(t.0.wrapping_add(0x10)),
        t.with_word10(v, w) == v.st32(t.0.wrapping_add(0x10), w),
        t.keyslot_in(v) == v.rd8(t.0.wrapping_add(0x10)),
        t.with_timestamp(v, w) == v.st32(t.0.wrapping_add(0x18), w),
        t.pti_in(v) == v.rd8(t.0.wrapping_add(0x20)),
        t.pti_hi_in(v) == v.rd16(t.0.wrapping_add(0x22)),
        t.word30_in(v) == v.rd32(t.0.wrapping_add(0x30)),
        t.word34_in(v) == v.rd32(t.0.wrapping_add(0x34)),
        t.lifetime_lo_in(v) == v.rd32(t.0.wrapping_add(0x40)),
        t.lifetime_hi_in(v) == v.rd32(t.0.wrapping_add(0x44)),
        t.iface_in(v) == (v.rd32(t.0.wrapping_add(0x10)) / 0x8_0000) % 2,
        t.ac_in(v) == (v.rd32(t.0.wrapping_add(0x10)) / 0x10_0000) % 0x10,
{
    let w10 = v.rd32(t.0.wrapping_add(0x10));
    high_bits(w10);
    low_bits(w10 >> 19);
    low_bits(w10 >> 20);
    assert(t.0.wrapping_add(0) == t.0);
}

/// An eb holds its two descriptor pointers at 4 and 8, prefix and payload length at 0x14 and 0x16, its
/// flags at 0x24, the rate context at 0x2c, the link at 0x30 and the txinfo pointer at 0x34.
pub proof fn eb_fields(v: MemView, e: Eb, h: u16, w: u32)
    ensures
        e.dma_desc_in(v) == DmaDesc(v.rd32(e.0.wrapping_add(0x4))),
        e.sec_desc_in(v) == DmaDesc(v.rd32(e.0.wrapping_add(0x8))),
        e.prefix_len_in(v) == v.rd16(e.0.wrapping_add(0x14)),
        e.with_prefix_len(v, h) == v.st16(e.0.wrapping_add(0x14), h),
        e.payload_len_in(v) == v.rd16(e.0.wrapping_add(0x16)),
        e.with_payload_len(v, h) == v.st16(e.0.wrapping_add(0x16), h),
        e.flags16_in(v) == v.rd16(e.0.wrapping_add(0x24)),
        e.with_flags16(v, h) == v.st16(e.0.wrapping_add(0x24), h),
        e.trc_in(v) == v.rd32(e.0.wrapping_add(0x2c)),
        e.with_trc(v, w) == v.st32(e.0.wrapping_add(0x2c), w),
        e.pending_next_in(v) == v.rd32(e.0.wrapping_add(0x30)),
        e.with_pending_next(v, w) == v.st32(e.0.wrapping_add(0x30), w),
        e.txinfo_in(v) == TxInfo(v.rd32(e.0.wrapping_add(0x34))),
{
}

/// A control block holds its frame at 0, slot at 4, AIFSN at 5, backoff at 6, contention-window exponent
/// at 8, state at 0x12, burst count and depth at 0x1c and 0x1d, skip flags at 0x28 and the channel
/// widths at 0x40 and 0x41.
pub proof fn control_block_fields(v: MemView, q: LmacTxq, h: u16, w: u32)
    ensures
        q.cur_eb_in(v) == Eb(v.rd32(q.0)),
        q.with_cur_eb(v, Eb(w)) == v.st32(q.0, w),
        q.slot_in(v) == v.rd8(q.0.wrapping_add(0x4)) as u32,
        q.aifsn_in(v) == v.rd8(q.0.wrapping_add(0x5)),
        q.backoff_in(v) == v.rd16(q.0.wrapping_add(0x6)),
        q.with_backoff(v, h) == v.st16(q.0.wrapping_add(0x6), h),
        q.cw_in(v) == v.rd8(q.0.wrapping_add(0x8)),
        q.state_in(v) == v.rd8(q.0.wrapping_add(0x12)),
        q.txop_count_in(v) == v.rd8(q.0.wrapping_add(0x1c)) as u32,
        q.txop_depth_in(v) == v.rd8(q.0.wrapping_add(0x1d)) as u32,
        q.txlen_cbw_sel_in(v) == v.rd8(q.0.wrapping_add(0x40)) as u32,
        q.txlen_cbw_in(v) == v.rd8(q.0.wrapping_add(0x41)) as u32,
        q.skip_flags_in(v) == v.rd8(q.0.wrapping_add(0x28)),
{
    assert(q.0.wrapping_add(0) == q.0);
}

/// A pending list holds its head at 0x20, its tail at 0x24 and its guards at 0x29 and 0x34.
pub proof fn pending_list_fields(v: MemView, p: PendingQ, w: u32)
    ensures
        p.head_in(v) == v.rd32(p.0.wrapping_add(0x20)),
        p.with_head(v, w) == v.st32(p.0.wrapping_add(0x20), w),
        p.tail_in(v) == v.rd32(p.0.wrapping_add(0x24)),
        p.with_tail(v, w) == v.st32(p.0.wrapping_add(0x24), w),
        p.guard_byte_in(v) == v.rd8(p.0.wrapping_add(0x29)),
        p.guard_word_in(v) == v.rd32(p.0.wrapping_add(0x34)),
{
}

/// The per-AC arrays have a stride of 0x34 and are found through their pointer cells, and so is the
/// interface-enable mask, at 0x31 behind its pointer.
pub proof fn pointer_cells(v: MemView, base: u32, ac: u32)
    ensures
        instances_of(v) == v.rd32(0x4004_ffe0),
        if_mask_of(v) == v.rd8(v.rd32(0x4087_ff68).wrapping_add(0x31)),
        ac < 0x10 ==> LmacTxq::block(base, ac).0 == base.wrapping_add((ac * 0x34) as u32),
        ac < 0x10 ==> PendingQ::of_ac(v, ac).0 == v.rd32(0x4087_ff80).wrapping_add(
            (ac * 0x34) as u32,
        ),
{
}

} // verus!
