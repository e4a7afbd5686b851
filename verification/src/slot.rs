//! Programming a TX slot: the PLCP words, protection, length, TXOP, PTI and EDCA registers.
//!
//! The functions here take the address of the slot's lmac control block (`ctx`), whose armed frame
//! supplies the values.
use crate::layout::LmacTxq;
use crate::mac_reg;
use crate::mac_reg::{
    conf_addr, slot_addr, CONF0, CONF0_BIT31, CONF1, PLCP0_ENABLE, PLCP0_TXOP, PLCP1, PROT_THRESH,
    PTI, RESP_DUR, TXLEN,
};
use crate::mmio::{mask, rd, rmw, set_bits, wr, Mem, MemView};
use crate::rates::{cr_mac_tx_get_rts_rate, rts_rate};
use vstd::prelude::*;

verus! {

/// The PLCP0 word of a frame: the low 20 bits of its descriptor address, the format bits 0x600000,
/// and in bits 24-26 the kind of ack to wait for. No ack is awaited for a broadcast or raw frame
/// (flag bits 1 and 10) nor inside an aggregate without an ack type.
pub open spec fn plcp0_word(flags: u32, desc: u32, flags16: u16) -> u32 {
    let base = (desc & 0xfffff) | 0x60_0000;
    if (flags & 0x402) != 0 || (flags & 0x4048_0000) == 0x40_0000 {
        base
    } else if (flags & 0x10_0000) != 0 {
        (desc & 0xfffff) | 0x360_0000
    } else if flags >= 0x8000_0000 {
        if (flags & 0x4000_0000) == 0 {
            (desc & 0xfffff) | 0x260_0000
        } else if (flags16 & 0x1000) == 0 {
            base | (1u32 << 0x18)
        } else {
            base | (5u32 << 0x18)
        }
    } else {
        base | ((((flags >> 0x13) & 1) + 1) as u32) << 0x18
    }
}

/// The address space after the slot's protection has been set: CONF0 bit 31 says whether it is on,
/// and a threshold, where there is one, brings the low half of `val` into PROT_THRESH.
pub open spec fn protection_set(
    v: MemView,
    slot: u32,
    enable: u32,
    threshold: u32,
    val: u32,
) -> MemView {
    let v1 = if enable == 0 {
        v.and32(conf_addr(CONF0, slot), 0x7fff_ffff)
    } else {
        v.or32(conf_addr(CONF0, slot), CONF0_BIT31)
    };
    if threshold != 0 {
        v1.st32(slot_addr(PROT_THRESH, slot), (val & 0xffff) | 0x1_0000)
    } else {
        v1
    }
}

/// Sets the slot's RTS/TXOP protection.
pub fn cr_hal_he_set_tx_protection(m: &mut Mem, slot: u32, enable: u32, threshold: u32, val: u32)
    ensures
        final(m)@ == protection_set(old(m)@, slot, enable, threshold, val),
{
    let conf0 = mac_reg::conf0(slot);
    if enable == 0 {
        mask(m, conf0, 0x7fff_ffff);
    } else {
        set_bits(m, conf0, CONF0_BIT31);
    }
    if threshold != 0 {
        wr(m, mac_reg::prot_thresh(slot), (val & 0xffff) | 0x1_0000);
    }
}

/// What the protection of a slot is set from.
#[derive(Clone, Copy, Debug, PartialEq, Eq, Structural)]
pub struct Protection {
    pub slot: u32,
    pub enable: u32,
    pub threshold: u32,
    pub val: u32,
}

/// The address space after the armed frame's PLCP0 word has been written.
pub open spec fn plcp0_written(v: MemView, txq: LmacTxq) -> MemView {
    let eb = txq.cur_eb_in(v);
    v.st32(
        conf_addr(PLCP0_ENABLE, txq.slot_in(v)),
        plcp0_word(eb.txinfo_in(v).flags_in(v), eb.dma_desc_in(v).0, eb.flags16_in(v)),
    )
}

/// The protection that the armed frame asks for: flag bit 8, and the threshold and value that its
/// descriptor holds once PLCP0 has been written.
pub open spec fn protection_of(v: MemView, txq: LmacTxq) -> Protection {
    let ti = txq.cur_eb_in(v).txinfo_in(v);
    let v1 = plcp0_written(v, txq);
    Protection {
        slot: txq.slot_in(v),
        enable: (ti.flags_in(v) >> 8) & 1,
        threshold: (ti.word30_in(v1) >> 3) & 0x3ff,
        val: ti.word34_in(v1),
    }
}

/// The address space after PLCP0 and the protection of the armed frame have been set.
pub open spec fn plcp0_set(v: MemView, txq: LmacTxq) -> MemView {
    let p = protection_of(v, txq);
    protection_set(plcp0_written(v, txq), p.slot, p.enable, p.threshold, p.val)
}

/// Writes the PLCP0 word of the armed frame and hands out the protection that it asks for. The
/// whole register is written, so the arm bits are clear afterwards.
pub(crate) fn write_plcp0(m: &mut Mem, txq: LmacTxq) -> (p: Protection)
    ensures
        final(m)@ == plcp0_written(old(m)@, txq),
        p == protection_of(old(m)@, txq),
{
    let eb = txq.cur_eb(m);
    let desc = eb.dma_desc(m).0;
    let txinfo = eb.txinfo(m);
    let flags = txinfo.flags(m);
    let base = (desc & 0xfffff) | 0x60_0000;
    let mut v: u32 = base;
    if (flags & 0x402) == 0 && (flags & 0x4048_0000) != 0x40_0000 {
        if (flags & 0x10_0000) == 0 {
            if flags >= 0x8000_0000 {
                if (flags & 0x4000_0000) == 0 {
                    v = (desc & 0xfffff) | 0x260_0000;
                } else if (eb.flags16(m) & 0x1000) == 0 {
                    v = base | (1u32 << 0x18);
                } else {
                    v = base | (5u32 << 0x18);
                }
            } else {
                proof {
                    crate::bits::low_bits(flags >> 0x13);
                }
                v = base | ((((flags >> 0x13) & 1) + 1) << 0x18);
            }
        } else {
            v = (desc & 0xfffff) | 0x360_0000;
        }
    }
    let slot = txq.slot(m);
    wr(m, mac_reg::plcp0_enable(slot), v);
    let enable = (flags >> 8) & 1;
    let threshold = (txinfo.word30(m) >> 3) & 0x3ff;
    let val = txinfo.word34(m);
    Protection { slot, enable, threshold, val }
}

/// Programs the slot's PLCP0 word and RTS/TXOP protection from the armed frame.
pub fn mac_tx_set_plcp0(m: &mut Mem, ctx: u32) -> (r: u32)
    ensures
        final(m)@ == plcp0_set(old(m)@, LmacTxq(ctx)),
        r == 0,
{
    let p = write_plcp0(m, LmacTxq::from_ctx(ctx));
    cr_hal_he_set_tx_protection(m, p.slot, p.enable, p.threshold, p.val);
    0
}

/// The PLCP1 word of a frame: the HT (bit 25) or HE (bit 26) mode of an HT/HE rate, the key slot in
/// bits 17-24, the rate in bits 12-16, the frame length in bits 0-11 of any other rate, and LDPC
/// (bit 29) where the frame and its peer both take it.
pub open spec fn plcp1_word(
    rate: u8,
    flags: u32,
    keyslot: u8,
    len_word: u32,
    word10: u32,
) -> u32 {
    let ht = (rate as u32).wrapping_sub(0x10) & 0xff;
    let mode = if ht > 0x13 {
        0u32
    } else if flags >= 0x8000_0000 {
        0x400_0000
    } else {
        0x200_0000
    };
    let field = if rate > 0x28 {
        ht & 0x1f
    } else {
        (rate as u32) & 0x1f
    };
    let len = if ht > 0x13 {
        len_word & 0xfff
    } else {
        0
    };
    let ldpc = if (flags & 0x4000) != 0 && (word10 & 0x40000) != 0 && flags < 0x8000_0000 {
        0x2000_0000u32
    } else {
        0
    };
    mode | ((keyslot as u32) << 0x11) | (field << 0xc) | len | ldpc
}

/// The address space after the armed frame's PLCP1 word has been written.
pub open spec fn plcp1_set(v: MemView, txq: LmacTxq) -> MemView {
    let eb = txq.cur_eb_in(v);
    let ti = eb.txinfo_in(v);
    v.st32(
        slot_addr(PLCP1, txq.slot_in(v)),
        plcp1_word(
            ti.rate_in(v),
            ti.flags_in(v),
            ti.keyslot_in(v),
            v.rd32(eb.dma_desc_in(v).frame_ptr_in(v)),
            ti.word10_in(v),
        ),
    )
}

/// Programs the slot's PLCP1 word from the armed frame.
pub fn mac_tx_set_plcp1(m: &mut Mem, ctx: u32) -> (r: u32)
    ensures
        final(m)@ == plcp1_set(old(m)@, LmacTxq(ctx)),
        r == 0,
{
    let txq = LmacTxq::from_ctx(ctx);
    let eb = txq.cur_eb(m);
    let txinfo = eb.txinfo(m);
    let lensrc = eb.dma_desc(m).frame_ptr(m);
    let rate = txinfo.rate(m) as u32;
    let flags = txinfo.flags(m);
    let keyslot = txinfo.keyslot(m) as u32;
    let ht = rate.wrapping_sub(0x10) & 0xff;
    let mode: u32 = if ht > 0x13 {
        0
    } else if flags >= 0x8000_0000 {
        0x400_0000
    } else {
        0x200_0000
    };
    let field = if rate > 0x28 { ht & 0x1f } else { rate & 0x1f };
    let len: u32 = if ht > 0x13 { rd(m, lensrc) & 0xfff } else { 0 };
    let ldpc: u32 = if (flags & 0x4000) != 0 && (txinfo.word10(m) & 0x40000) != 0 && flags
        < 0x8000_0000 {
        0x2000_0000
    } else {
        0
    };
    let v = mode | (keyslot << 0x11) | (field << 0xc) | len | ldpc;
    let slot = txq.slot(m);
    wr(m, mac_reg::plcp1(slot), v);
    0
}

/// The RESP_DUR word of a frame: the channel-width selector in bits 22-23, the response rate in bits
/// 6-13, bit 1 where WORD10 bits 12-15 hold 1 (40 MHz), and bit 2.
pub open spec fn resp_dur_word(rate: u8, word10: u32, cbw_sel: u32) -> u32 {
    let sel = if (rate as u32).wrapping_sub(0x10) & 0xff < 0x14 {
        cbw_sel & 3
    } else {
        1
    };
    let wide = if (word10 & 0xf000) == 0x1000 {
        2u32
    } else {
        0
    };
    (sel << 0x16) | wide | ((rts_rate(rate as int) as u32 & 0xff) << 6) | 4
}

/// The TXLEN word of an HT/HE frame: the channel width in bits 22-23, the rate inside its guard
/// interval from bit 28 on, and the frame length.
pub open spec fn txlen_word(rate: u8, cbw: u32, len: u32) -> u32 {
    let ht = if rate > 0x19 {
        (rate - 0x1a) as u32
    } else {
        (rate as u32).wrapping_sub(0x10) & 0xff
    };
    ((cbw & 3) << 0x16) | len | (ht << 0x1c)
}

/// The address space after the length registers of the armed frame have been set: RESP_DUR always,
/// TXLEN for an HT (not HE) rate, with the length that the frame starts with or, in an aggregate,
/// the sum of the eb's prefix and payload.
pub open spec fn len_set(v: MemView, txq: LmacTxq, instances: u32) -> MemView {
    let eb = txq.cur_eb_in(v);
    let ti = eb.txinfo_in(v);
    let frame = eb.dma_desc_in(v).frame_ptr_in(v);
    let slot = txq.slot_in(v);
    let ac_txq = LmacTxq::block(instances, ti.ac_in(v));
    let v1 = v.st32(
        slot_addr(RESP_DUR, slot),
        resp_dur_word(ti.rate_in(v), ti.word10_in(v), ac_txq.txlen_cbw_sel_in(v)),
    );
    let flags = ti.flags_in(v1);
    if flags < 0x8000_0000 && (ti.rate_in(v1) as u32).wrapping_sub(0x10) & 0xff < 0x14 {
        let len = if (flags & 0x40_0000) == 0 {
            v1.rd32(frame) & 0x3fff
        } else {
            (eb.payload_len_in(v1) + eb.prefix_len_in(v1)) as u32
        };
        v1.st32(
            slot_addr(TXLEN, slot),
            txlen_word(ti.rate_in(v1), ac_txq.txlen_cbw_in(v1), len),
        )
    } else {
        v1
    }
}

/// Programs the slot's length registers from the armed frame. `instances` is the base of the lmac
/// control array.
pub fn cr_mac_tx_set_len(m: &mut Mem, ctx: u32, instances: u32)
    ensures
        final(m)@ == len_set(old(m)@, LmacTxq(ctx), instances),
{
    let txq = LmacTxq::from_ctx(ctx);
    let eb = txq.cur_eb(m);
    let txinfo = eb.txinfo(m);
    let frame = eb.dma_desc(m).frame_ptr(m);
    let rate = txinfo.rate(m);
    let word10 = txinfo.word10(m);
    let rts = cr_mac_tx_get_rts_rate(rate as i32) as u32;
    let ac_txq = LmacTxq::in_array(instances, (word10 >> 0x14) & 0xf);
    let sel: u32 = if (rate as u32).wrapping_sub(0x10) & 0xff < 0x14 {
        ac_txq.txlen_cbw_sel(m) & 3
    } else {
        1
    };
    let wide: u32 = if (word10 & 0xf000) == 0x1000 { 2 } else { 0 };
    let slot = txq.slot(m);
    wr(m, mac_reg::resp_dur(slot), (sel << 0x16) | wide | ((rts & 0xff) << 6) | 4);
    let flags = txinfo.flags(m);
    if flags < 0x8000_0000 {
        let rate2 = txinfo.rate(m);
        let mut ht = (rate2 as u32).wrapping_sub(0x10) & 0xff;
        if ht < 0x14 {
            let len = if (flags & 0x40_0000) == 0 {
                rd(m, frame) & 0x3fff
            } else {
                eb.payload_len(m) as u32 + eb.prefix_len(m) as u32
            };
            if rate2 > 0x19 {
                ht = (rate2 - 0x1a) as u32;
            }
            let cbw = ac_txq.txlen_cbw(m);
            wr(m, mac_reg::txlen(slot), ((cbw & 3) << 0x16) | len | (ht << 0x1c));
        }
    }
}

/// One MPDU of an aggregate whose hardware TXOP fields the vendor firmware has yet to fill.
#[derive(Clone, Copy, Debug, PartialEq, Eq, Structural)]
pub struct TxopFill {
    /// The MPDU's eb.
    pub mpdu: u32,
    /// TXOP burst depth.
    pub depth: u32,
    /// Position in the aggregate, from 1.
    pub idx: u32,
    /// TXOP burst count: the position at which the walk ends.
    pub count: u32,
}

/// The address space after the slot's TXOP registers have been set. A burst deeper than 2 only
/// clears the RESP_DUR nibble (bits 24-27); otherwise RESP_DUR takes the low nibble of the count
/// there and the depth in bits 28-29, CONF0 bit 31 follows flag bit 8 and PLCP0_ENABLE bit 22 says
/// that the flag bits 6-7 are 2.
pub open spec fn txop_regs_set(v: MemView, txq: LmacTxq) -> MemView {
    let slot = txq.slot_in(v);
    let ti = txq.cur_eb_in(v).txinfo_in(v);
    let depth = txq.txop_depth_in(v);
    let dur = slot_addr(RESP_DUR, slot);
    if depth > 2 {
        v.and32(dur, 0xf0ff_ffff)
    } else {
        let v2 = v.rmw32(dur, 0xf0ff_ffff, (txq.txop_count_in(v) << 0x18) & 0x0f00_0000).rmw32(
            dur,
            0xcfff_ffff,
            depth << 0x1c,
        );
        let v3 = if (ti.flags_in(v2) & 0x100) != 0 {
            v2.or32(conf_addr(CONF0, slot), CONF0_BIT31)
        } else {
            v2.and32(conf_addr(CONF0, slot), 0x7fff_ffff)
        };
        if (ti.flags_in(v3) & 0xc0) == 0x80 {
            v3.or32(conf_addr(PLCP0_ENABLE, slot), PLCP0_TXOP)
        } else {
            v3.and32(conf_addr(PLCP0_ENABLE, slot), 0xffbf_ffff)
        }
    }
}

/// The fill of `mpdu` at position `idx`, where there is an MPDU.
pub open spec fn fill_of(v: MemView, txq: LmacTxq, mpdu: u32, idx: u32, count: u32) -> Option<
    TxopFill,
> {
    if mpdu == 0 {
        None
    } else {
        Some(TxopFill { mpdu, depth: txq.txop_depth_in(v), idx, count })
    }
}

/// The first fill that a frame needs once its TXOP registers are set: that of the MPDU chained to
/// it, unless the burst is deeper than 2.
pub open spec fn txop_first_fill(v: MemView, txq: LmacTxq) -> Option<TxopFill> {
    let v1 = txop_regs_set(v, txq);
    if txq.txop_depth_in(v) > 2 {
        None
    } else {
        fill_of(v1, txq, txq.cur_eb_in(v).pending_next_in(v1), 1, txq.txop_count_in(v))
    }
}

/// The fill that follows `f`: the walk ends at the position that equals the burst count, or at the
/// end of the chain.
pub open spec fn txop_next_fill(v: MemView, txq: LmacTxq, f: TxopFill) -> Option<TxopFill> {
    if f.count == f.idx {
        None
    } else {
        fill_of(
            v,
            txq,
            crate::layout::Eb(f.mpdu).pending_next_in(v),
            f.idx.wrapping_add(1) & 0xff,
            f.count,
        )
    }
}

/// Programs the slot's TXOP registers from the armed frame and hands out the first MPDU that is
/// left to fill (none for a single frame).
pub fn mac_tx_set_txop_q(m: &mut Mem, ctx: u32) -> (r: Option<TxopFill>)
    ensures
        final(m)@ == txop_regs_set(old(m)@, LmacTxq(ctx)),
        r == txop_first_fill(old(m)@, LmacTxq(ctx)),
{
    let txq = LmacTxq::from_ctx(ctx);
    let slot = txq.slot(m);
    let eb = txq.cur_eb(m);
    let depth = txq.txop_depth(m);
    let dur = mac_reg::resp_dur(slot);
    let txinfo = eb.txinfo(m);
    if depth > 2 {
        mask(m, dur, 0xf0ff_ffff);
        return None;
    }
    let count = txq.txop_count(m);
    rmw(m, dur, 0xf0ff_ffff, (count << 0x18) & 0x0f00_0000);
    rmw(m, dur, 0xcfff_ffff, depth << 0x1c);
    let conf0 = mac_reg::conf0(slot);
    if (txinfo.flags(m) & 0x100) != 0 {
        set_bits(m, conf0, CONF0_BIT31);
    } else {
        mask(m, conf0, 0x7fff_ffff);
    }
    let plcp0 = mac_reg::plcp0_enable(slot);
    if (txinfo.flags(m) & 0xc0) == 0x80 {
        set_bits(m, plcp0, PLCP0_TXOP);
    } else {
        mask(m, plcp0, 0xffbf_ffff);
    }
    let mpdu = eb.pending_next(m);
    if mpdu == 0 {
        None
    } else {
        Some(TxopFill { mpdu, depth: txq.txop_depth(m), idx: 1, count })
    }
}

/// The MPDU to fill after `f` has been filled.
pub fn mac_tx_next_txop_fill(m: &Mem, ctx: u32, f: TxopFill) -> (r: Option<TxopFill>)
    ensures
        r == txop_next_fill(m@, LmacTxq(ctx), f),
{
    if f.count == f.idx {
        return None;
    }
    let txq = LmacTxq::from_ctx(ctx);
    let idx = f.idx.wrapping_add(1) & 0xff;
    let mpdu = crate::layout::Eb(f.mpdu).pending_next(m);
    if mpdu == 0 {
        None
    } else {
        Some(TxopFill { mpdu, depth: txq.txop_depth(m), idx, count: f.count })
    }
}

/// The address space after the armed frame's PTI has been set: its low nibble goes into the top
/// nibble of CONF1 and into each of the four nibbles of PTI bits 4-19, its high field into PTI bits
/// 20-31.
pub open spec fn pti_set(v: MemView, txq: LmacTxq) -> MemView {
    let ti = txq.cur_eb_in(v).txinfo_in(v);
    let p = ti.pti_in(v) as u32;
    let hi = ti.pti_hi_in(v) as u32;
    let slot = txq.slot_in(v);
    let a = slot_addr(PTI, slot);
    v.rmw32(conf_addr(CONF1, slot), 0x0fff_ffff, p << 0x1c)
        .rmw32(a, 0xffff_0fff, (p << 0xc) & 0xf000)
        .rmw32(a, 0xffff_f0ff, (p << 8) & 0xf00)
        .rmw32(a, 0xffff_ff0f, (p << 4) & 0xf0)
        .rmw32(a, 0xfff0_ffff, (p << 0x10) & 0xf_0000)
        .rmw32(a, 0x000f_ffff, hi << 0x14)
}

/// Programs the slot's packet traffic indication from the armed frame.
pub fn cr_mac_tx_set_pti(m: &mut Mem, ctx: u32)
    ensures
        final(m)@ == pti_set(old(m)@, LmacTxq(ctx)),
{
    let txq = LmacTxq::from_ctx(ctx);
    let txinfo = txq.cur_eb(m).txinfo(m);
    let p = txinfo.pti(m) as u32;
    let hi = txinfo.pti_hi(m) as u32;
    let slot = txq.slot(m);
    rmw(m, mac_reg::conf1(slot), 0x0fff_ffff, p << 0x1c);
    let a = mac_reg::pti(slot);
    rmw(m, a, 0xffff_0fff, (p << 0xc) & 0xf000);
    rmw(m, a, 0xffff_f0ff, (p << 8) & 0xf00);
    rmw(m, a, 0xffff_ff0f, (p << 4) & 0xf0);
    rmw(m, a, 0xfff0_ffff, (p << 0x10) & 0xf_0000);
    rmw(m, a, 0x000f_ffff, hi << 0x14);
}

/// The address space after the EDCA parameters of a control block have been set in CONF1: AIFSN in
/// bits 24-27, backoff in bits 12-21, interface in bit 22 (bit 23 clear).
pub open spec fn edca_set(v: MemView, txq: LmacTxq) -> MemView {
    let a = conf_addr(CONF1, txq.slot_in(v));
    let v1 = v.rmw32(a, 0xf0ff_ffff, ((txq.aifsn_in(v) & 0xf) as u32) << 24);
    let v2 = v1.rmw32(a, 0xffc0_0fff, ((txq.backoff_in(v1) & 0x3ff) as u32) << 12);
    v2.rmw32(a, 0xff3f_ffff, txq.cur_eb_in(v2).txinfo_in(v2).iface_in(v2) << 0x16)
}

/// Programs the slot's EDCA parameters from the control block.
pub fn hal_mac_tx_config_edca(m: &mut Mem, ctx: u32) -> (r: u32)
    ensures
        final(m)@ == edca_set(old(m)@, LmacTxq(ctx)),
        r == 0,
{
    let txq = LmacTxq::from_ctx(ctx);
    let slot = txq.slot(m);
    let conf1 = mac_reg::conf1(slot);
    let aifsn = (txq.aifsn(m) & 0xf) as u32;
    rmw(m, conf1, 0xf0ff_ffff, aifsn << 24);
    let backoff = (txq.backoff(m) & 0x3ff) as u32;
    rmw(m, conf1, 0xffc0_0fff, backoff << 12);
    let iface = txq.cur_eb(m).txinfo(m).iface(m);
    rmw(m, conf1, 0xff3f_ffff, iface << 0x16);
    0
}

/// The timeout field for a lifetime: the lifetime in units of 1024, at most 0xfff and at least
/// `floor`. A negative `floor` takes the place of the lifetime. Only 12 bits of `floor` count.
pub open spec fn timeout_field(lo: u32, hi: u32, floor: i32) -> u32 {
    let units = (hi * 0x1_0000_0000 + lo) / 1024;
    let capped = if units > 0xfff {
        0xfff
    } else {
        units
    };
    if floor < 0 || capped < floor {
        (floor as u32) & 0xfff
    } else {
        capped as u32
    }
}

/// The address space after the armed frame's timeout has been set in CONF1 bits 0-11.
pub open spec fn timeout_set(v: MemView, txq: LmacTxq, floor: i32) -> MemView {
    let ti = txq.cur_eb_in(v).txinfo_in(v);
    v.rmw32(
        conf_addr(CONF1, txq.slot_in(v)),
        0xffff_f000,
        timeout_field(ti.lifetime_lo_in(v), ti.lifetime_hi_in(v), floor),
    )
}

proof fn lemma_lifetime_units(lo: u32, hi: u32)
    ensures
        ({
            let w = (lo >> 10) | (hi << 0x16);
            let units = (hi * 0x1_0000_0000 + lo) / 1024;
            &&& (hi >> 10) != 0 ==> units > 0xfff
            &&& (hi >> 10) == 0 ==> units == w
        }),
{
    let w = (lo >> 10) | (hi << 0x16);
    assert(((hi >> 10) == 0 <==> hi < 1024) && (hi < 1024 ==> w == (lo / 1024) + hi * 0x40_0000))
        by (bit_vector)
        requires
            w == (lo >> 10) | (hi << 0x16),
    ;
}

/// Programs the slot's timeout from the armed frame's lifetime.
pub fn hal_mac_tx_config_timeout(m: &mut Mem, ctx: u32, floor: i32) -> (r: u32)
    ensures
        final(m)@ == timeout_set(old(m)@, LmacTxq(ctx), floor),
        r == 0,
{
    let txq = LmacTxq::from_ctx(ctx);
    let slot = txq.slot(m);
    let conf1 = mac_reg::conf1(slot);
    let txinfo = txq.cur_eb(m).txinfo(m);
    let hi = txinfo.lifetime_hi(m);
    let lo = txinfo.lifetime_lo(m);
    let mut units: u32 = (lo >> 10) | (hi << 0x16);
    if (hi >> 10) != 0 || units > 0xfff {
        units = 0xfff;
    }
    let result: u32 = if floor < 0 {
        floor as u32
    } else if units >= floor as u32 {
        units
    } else {
        floor as u32
    };
    proof {
        lemma_lifetime_units(lo, hi);
        assert(units <= 0xfff ==> units & 0xfff == units) by (bit_vector);
    }
    rmw(m, conf1, 0xffff_f000, result & 0xfff);
    0
}

} // verus!
