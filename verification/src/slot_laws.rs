//! What the slot programming leaves in the registers.
use crate::bits::{high_bits, low_bits};
use crate::hal_mac_tx::{antenna_pass1, antenna_pass2, is_ht};
use crate::layout::LmacTxq;
use crate::mac_reg::{
    conf_addr, conf_registers_apart, register_blocks_apart, slot_addr, slot_registers_apart, CONF0,
    CONF0_BIT31, CONF1, PLCP0_ENABLE, PLCP0_TXOP, PLCP1, PROT_THRESH, PTI, RESP_DUR, SLOTS, SLOT_ARM,
    SLOT_ARM_CLEAR, TXLEN,
};
use crate::mmio::{apart, MemView, Store};
use crate::rates::rts_rate;
use crate::slot::{
    edca_set, len_set, plcp0_set, plcp0_word, plcp0_written, plcp1_set, protection_of,
    protection_set, pti_set, timeout_field,
    timeout_set, txop_first_fill, txop_next_fill, txop_regs_set, TxopFill,
};
use vstd::prelude::*;

verus! {

/// An object at `a` lies in RAM or flash, with at least a page after its start: below every
/// register, and not at address 0.
pub open spec fn in_ram(a: u32) -> bool {
    0 < a < 0x5000_0000
}

/// The control block, its armed eb and the eb's txinfo lie in RAM, and the slot exists.
pub open spec fn armed_in_ram(v: MemView, txq: LmacTxq) -> bool {
    &&& in_ram(txq.0)
    &&& in_ram(txq.cur_eb_in(v).0)
    &&& in_ram(txq.cur_eb_in(v).txinfo_in(v).0)
    &&& txq.slot_in(v) < SLOTS
}

pub(crate) proof fn lemma_arm_bits(w: u32)
    by (bit_vector)
    ensures
        ((((w & 0xffff_fff8u32) & 0xffff_fff7u32) | 0x20) & 0xffff_ffefu32) == (w & 0xffff_ffc0u32)
            | 0x20,
        (w | 0xc000_0000u32) & 0xc000_0000u32 == 0xc000_0000u32,
        (w | 0xc000_0000u32) & 0x3fff_ffffu32 == w & 0x3fff_ffffu32,
        w & 0xc000_0000u32 == 0 ==> w & 0x3fff_ffffu32 == w,
        (w & 0x3fff_ffffu32) & 0xc000_0000u32 == 0,
        (w & 0x3fff_ffffu32) & 0x3fff_ffffu32 == w & 0x3fff_ffffu32,
{
}

/// Arming sets both arm bits and keeps the others, disarming clears both and keeps the others, and
/// disarming undoes the arming of a slot that was not armed.
pub proof fn disarm_undoes_arm(v: MemView, slot: u32)
    ensures
        ({
            let a = conf_addr(PLCP0_ENABLE, slot);
            let on = v.or32(a, SLOT_ARM);
            let off = on.and32(a, SLOT_ARM_CLEAR);
            &&& on.rd32(a) & SLOT_ARM == SLOT_ARM
            &&& on.rd32(a) & SLOT_ARM_CLEAR == v.rd32(a) & SLOT_ARM_CLEAR
            &&& off.rd32(a) & SLOT_ARM == 0
            &&& off.rd32(a) & SLOT_ARM_CLEAR == v.rd32(a) & SLOT_ARM_CLEAR
            &&& v.rd32(a) & SLOT_ARM == 0 ==> off.rd32(a) == v.rd32(a)
        }),
{
    broadcast use crate::mem_laws::group_loads;

    let w = v.rd32(conf_addr(PLCP0_ENABLE, slot));
    lemma_arm_bits(w);
}

/// A PLCP0 word never arms the slot, carries the low 20 bits of the descriptor address and the
/// format bits, and awaits no ack for a broadcast or raw frame.
pub proof fn plcp0_word_does_not_arm(flags: u32, desc: u32, flags16: u16)
    ensures
        plcp0_word(flags, desc, flags16) & SLOT_ARM == 0,
        plcp0_word(flags, desc, flags16) & 0xff_ffff == (desc & 0xfffff) | 0x60_0000,
        flags & 0x402 != 0 ==> plcp0_word(flags, desc, flags16) == (desc & 0xfffff) | 0x60_0000,
{
    lemma_plcp0_fields(desc, flags);
}

proof fn lemma_plcp0_fields(d: u32, flags: u32)
    by (bit_vector)
    ensures
        ({
            let desc = d & 0xfffff;
            let base = desc | 0x60_0000;
            let ack = (((flags >> 0x13) & 1) + 1) as u32;
            &&& base >> 24 == 0 && base & 0xff_ffff == base
            &&& base & 0xfffff == desc && (base >> 20) & 0xf == 6
            &&& (desc | 0x360_0000) >> 24 == 3 && (desc | 0x360_0000) & 0xff_ffff == base
            &&& (desc | 0x260_0000) >> 24 == 2 && (desc | 0x260_0000) & 0xff_ffff == base
            &&& (base | (1u32 << 0x18)) >> 24 == 1 && (base | (1u32 << 0x18)) & 0xff_ffff == base
            &&& (base | (5u32 << 0x18)) >> 24 == 5 && (base | (5u32 << 0x18)) & 0xff_ffff == base
            &&& (base | (ack << 0x18)) >> 24 == ack && (base | (ack << 0x18)) & 0xff_ffff == base
            &&& ack == (if flags & 0x8_0000 == 0 {
                1u32
            } else {
                2u32
            })
            &&& (flags & 0x402 != 0) == (flags & 2 != 0 || flags & 0x400 != 0)
            &&& (flags & 0x4048_0000 == 0x40_0000) == (flags & 0x40_0000 != 0 && flags & 0x8_0000
                == 0 && flags & 0x4000_0000 == 0)
            &&& (flags >= 0x8000_0000) == (flags & 0x8000_0000 != 0)
            &&& ((flags >> 8) & 1 != 0) == (flags & 0x100 != 0)
            &&& (((flags >> 3) & 0x3ff) != 0) == (flags & 0x1ff8 != 0)
            &&& base & 0xc000_0000 == 0 && (desc | 0x360_0000) & 0xc000_0000 == 0 && (desc
                | 0x260_0000) & 0xc000_0000 == 0 && (base | (1u32 << 0x18)) & 0xc000_0000 == 0 && (
            base | (5u32 << 0x18)) & 0xc000_0000 == 0 && (base | (ack << 0x18)) & 0xc000_0000 == 0
            &&& (d & 0xffff) | 0x1_0000 == 0x1_0000 + d % 0x1_0000
            &&& forall|w: u32| #[trigger] (w & 0xff_ffff) == base ==> w & 0xfffff == desc && (w
                >> 20) & 0xf == 6
        }),
{
}

/// PLCP0_ENABLE ends up with the low 20 bits of the descriptor's address, the format 6 in bits 20-23,
/// and above them the kind of ack to wait for, which also leaves both arm bits clear. None is awaited
/// for a broadcast frame (flag bit 1) or a raw one (bit 10), nor for an aggregate (bit 22) without ack
/// type (bit 19) that is not HE extended (bit 30). Kind 3 goes with flag bit 20. Otherwise it is 2 with
/// the ack type and 1 without it, but for an HE frame (bit 31) 2, or, extended, 5 or 1 as eb flag 12
/// says.
pub proof fn plcp0_register(v: MemView, txq: LmacTxq)
    requires
        armed_in_ram(v, txq),
    ensures
        ({
            let eb = txq.cur_eb_in(v);
            let f = eb.txinfo_in(v).flags_in(v);
            let w = plcp0_set(v, txq).rd32(conf_addr(PLCP0_ENABLE, txq.slot_in(v)));
            &&& w & 0xfffff == eb.dma_desc_in(v).0 & 0xfffff
            &&& (w >> 20) & 0xf == 6
            &&& w >> 24 == (if f & 2 != 0 || f & 0x400 != 0 {
                0u32
            } else if f & 0x40_0000 != 0 && f & 0x8_0000 == 0 && f & 0x4000_0000 == 0 {
                0
            } else if f & 0x10_0000 != 0 {
                3
            } else if f & 0x8000_0000 == 0 {
                if f & 0x8_0000 == 0 {
                    1
                } else {
                    2
                }
            } else if f & 0x4000_0000 == 0 {
                2
            } else if eb.flags16_in(v) & 0x1000 == 0 {
                1
            } else {
                5
            })
        }),
{
    let eb = txq.cur_eb_in(v);
    protection_keeps_plcp0(v, txq);
    lemma_plcp0_fields(eb.dma_desc_in(v).0, eb.txinfo_in(v).flags_in(v));
}

/// CONF0 bit 31 says whether the frame asks for protection (flag bit 8), and the rest of CONF0 stays.
/// A frame with a threshold (WORD30 bits 3-12) brings the low half of WORD34 into PROT_THRESH, with bit
/// 16 set over it; without one PROT_THRESH stays as it was.
pub proof fn protection_registers(v: MemView, txq: LmacTxq)
    requires
        armed_in_ram(v, txq),
    ensures
        ({
            let ti = txq.cur_eb_in(v).txinfo_in(v);
            let s = txq.slot_in(v);
            let c = conf_addr(CONF0, s);
            let p = slot_addr(PROT_THRESH, s);
            let w = plcp0_set(v, txq);
            &&& (w.rd32(c) & 0x8000_0000 != 0) == (ti.flags_in(v) & 0x100 != 0)
            &&& w.rd32(c) & 0x7fff_ffff == v.rd32(c) & 0x7fff_ffff
            &&& ti.word30_in(v) & 0x1ff8 == 0 ==> w.rd32(p) == v.rd32(p)
            &&& ti.word30_in(v) & 0x1ff8 != 0 ==> w.rd32(p) == 0x1_0000 + ti.word34_in(v) % 0x1_0000
        }),
        ({
            let ti = txq.cur_eb_in(v).txinfo_in(v);
            let p = protection_of(v, txq);
            &&& p.slot == txq.slot_in(v)
            &&& p.enable == (ti.flags_in(v) / 0x100) % 2
            &&& p.threshold == (ti.word30_in(v) / 8) % 0x400
            &&& p.val == ti.word34_in(v)
        }),
{
    broadcast use crate::mem_laws::group_loads;

    let ti = txq.cur_eb_in(v).txinfo_in(v);
    let s = txq.slot_in(v);
    conf_registers_apart(CONF0, s, PLCP0_ENABLE, s);
    register_blocks_apart(PLCP0_ENABLE, s, PROT_THRESH, s, crate::mac_reg::SYS_TIMER);
    register_blocks_apart(CONF0, s, PROT_THRESH, s, crate::mac_reg::SYS_TIMER);
    lemma_plcp0_fields(0, ti.flags_in(v));
    lemma_plcp0_fields(0, ti.word30_in(v));
    lemma_txop_bits(v.rd32(conf_addr(CONF0, s)), 0, 0);
    lemma_plcp0_fields(ti.word34_in(v), 0);
    low_bits(ti.flags_in(v) >> 8);
    high_bits(ti.flags_in(v));
    low_bits(ti.word30_in(v) >> 3);
    high_bits(ti.word30_in(v));
}

proof fn lemma_plcp1_fields(mode: u32, key: u32, field: u32, len: u32, ldpc: u32)
    by (bit_vector)
    requires
        mode == 0 || mode == 0x200_0000 || mode == 0x400_0000,
        key <= 0xff,
        field <= 0x1f,
        len <= 0xfff,
        ldpc == 0 || ldpc == 0x2000_0000,
    ensures
        ({
            let w = mode | (key << 0x11) | (field << 0xc) | len | ldpc;
            &&& w & 0xfff == len
            &&& (w >> 12) & 0x1f == field
            &&& (w >> 17) & 0xff == key
            &&& w & 0x600_0000 == mode
            &&& w & 0x2000_0000 == ldpc
            &&& w & 0xd800_0000 == 0
        }),
{
}

/// PLCP1 ends up with the low 12 bits of the frame's first word in bits 0-11, whatever its flags,
/// unless the rate is HT/HE (0x10 to 0x23), when they are 0; the rate (above 0x28, the rate less 0x10)
/// modulo 32 in bits 12-16; the key slot in bits 17-24; bit 26 for HE and bit 25 for HT; bit 29 where
/// flag bit 14 and WORD10 bit 18 are set and the frame is not HE; and nothing else.
pub proof fn plcp1_register(v: MemView, txq: LmacTxq)
    ensures
        ({
            let eb = txq.cur_eb_in(v);
            let ti = eb.txinfo_in(v);
            let rate = ti.rate_in(v);
            let f = ti.flags_in(v);
            let ht = 0x10 <= rate <= 0x23;
            let he = f >= 0x8000_0000;
            let w = plcp1_set(v, txq).rd32(slot_addr(PLCP1, txq.slot_in(v)));
            &&& !ht ==> w & 0xfff == v.rd32(eb.dma_desc_in(v).frame_ptr_in(v)) & 0xfff
            &&& ht ==> w & 0xfff == 0
            &&& rate <= 0x28 ==> (w >> 12) & 0x1f == rate % 0x20
            &&& rate > 0x28 ==> (w >> 12) & 0x1f == (rate - 0x10) % 0x20
            &&& (w >> 17) & 0xff == ti.keyslot_in(v)
            &&& w & 0x600_0000 == (if !ht {
                0u32
            } else if he {
                0x400_0000
            } else {
                0x200_0000
            })
            &&& (w & 0x2000_0000 != 0) == (f & 0x4000 != 0 && ti.word10_in(v) & 0x4_0000 != 0 && !he)
            &&& w & 0xd800_0000 == 0
        }),
{
    broadcast use crate::mem_laws::group_loads;

    let eb = txq.cur_eb_in(v);
    let ti = eb.txinfo_in(v);
    let rate = ti.rate_in(v);
    let f = ti.flags_in(v);
    let first = v.rd32(eb.dma_desc_in(v).frame_ptr_in(v));
    let ht = (rate as u32).wrapping_sub(0x10) & 0xff;
    lemma_ht_rate(rate);
    low_bits((rate as u32).wrapping_sub(0x10));
    low_bits(ht);
    low_bits(rate as u32);
    low_bits(first);
    let mode: u32 = if ht > 0x13 {
        0
    } else if f >= 0x8000_0000 {
        0x400_0000
    } else {
        0x200_0000
    };
    let field = if rate > 0x28 {
        ht & 0x1f
    } else {
        (rate as u32) & 0x1f
    };
    let len = if ht > 0x13 {
        first & 0xfff
    } else {
        0
    };
    let ldpc: u32 = if (f & 0x4000) != 0 && (ti.word10_in(v) & 0x40000) != 0 && f < 0x8000_0000 {
        0x2000_0000
    } else {
        0
    };
    lemma_plcp1_fields(mode, ti.keyslot_in(v) as u32, field, len, ldpc);
}

/// Setting the protection leaves PLCP0_ENABLE as the frame's PLCP0 word, so a slot is not armed by
/// being programmed.
pub proof fn protection_keeps_plcp0(v: MemView, txq: LmacTxq)
    requires
        armed_in_ram(v, txq),
    ensures
        ({
            let eb = txq.cur_eb_in(v);
            plcp0_set(v, txq).rd32(conf_addr(PLCP0_ENABLE, txq.slot_in(v))) == plcp0_word(
                eb.txinfo_in(v).flags_in(v),
                eb.dma_desc_in(v).0,
                eb.flags16_in(v),
            )
        }),
{
    broadcast use crate::mem_laws::group_loads;

    let s = txq.slot_in(v);
    conf_registers_apart(CONF0, s, PLCP0_ENABLE, s);
    register_blocks_apart(PLCP0_ENABLE, s, PROT_THRESH, s, crate::mac_reg::SYS_TIMER);
}

proof fn lemma_pti_bits(w: u32, p: u32, hi: u32)
    by (bit_vector)
    ensures
        ({
            let a = (w & 0xffff_0fffu32) | ((p << 0xc) & 0xf000);
            let b = (a & 0xffff_f0ffu32) | ((p << 8) & 0xf00);
            let c = (b & 0xffff_ff0fu32) | ((p << 4) & 0xf0);
            let d = (c & 0xfff0_ffffu32) | ((p << 0x10) & 0xf_0000);
            let e = (d & 0x000f_ffffu32) | (hi << 0x14);
            let n = p & 0xf;
            e == (w & 0xf) | (n << 4) | (n << 8) | (n << 12) | (n << 16) | (hi << 20)
        }),
{
}

/// The PTI register ends up with the frame's PTI nibble in bits 4-7, 8-11, 12-15 and 16-19, its high
/// field in bits 20-31, and bits 0-3 as they were; CONF1 ends up with the nibble on top and the rest
/// as it was.
pub proof fn pti_registers(v: MemView, txq: LmacTxq)
    requires
        txq.slot_in(v) < SLOTS,
    ensures
        ({
            let ti = txq.cur_eb_in(v).txinfo_in(v);
            let s = txq.slot_in(v);
            let p = ti.pti_in(v) as u32;
            let n = p & 0xf;
            let a = slot_addr(PTI, s);
            let c = conf_addr(CONF1, s);
            let w = pti_set(v, txq);
            &&& w.rd32(a) == (v.rd32(a) & 0xf) | (n << 4) | (n << 8) | (n << 12) | (n << 16) | (
            (ti.pti_hi_in(v) as u32) << 20)
            &&& w.rd32(c) == (v.rd32(c) & 0x0fff_ffff) | (p << 28)
        }),
{
    broadcast use crate::mem_laws::group_loads;

    let ti = txq.cur_eb_in(v).txinfo_in(v);
    let s = txq.slot_in(v);
    register_blocks_apart(CONF1, s, PTI, s, crate::mac_reg::SYS_TIMER);
    lemma_pti_bits(v.rd32(slot_addr(PTI, s)), ti.pti_in(v) as u32, ti.pti_hi_in(v) as u32);
}

proof fn lemma_len_bits(sel: u32, wide: u32, rts: u32, cbw: u32, len: u32, ht: u32)
    by (bit_vector)
    requires
        sel <= 3,
        wide == 0 || wide == 2,
        rts <= 0xff,
        len <= 0x3f_ffff,
        ht <= 0xf,
    ensures
        ({
            let w = (sel << 0x16) | wide | ((rts & 0xff) << 6) | 4;
            &&& (w >> 22) & 3 == sel
            &&& (w >> 6) & 0xff == rts
            &&& w & 2 == wide
            &&& w & 4 != 0
            &&& w & 0xff3f_c039 == 0
        }),
        ({
            let w = ((cbw & 3) << 0x16) | len | (ht << 0x1c);
            &&& (w >> 28) == ht
            &&& (w >> 22) & 3 == cbw & 3
            &&& w & 0x3f_ffff == len
            &&& w & 0x0f00_0000 == 0
        }),
        cbw & 3 <= 3 && cbw & 0x3fff <= 0x3fff,
{
}

pub(crate) proof fn lemma_ht_rate(rate: u8)
    ensures
        ((rate as u32).wrapping_sub(0x10) & 0xff < 0x14) == is_ht(rate),
        is_ht(rate) ==> (rate as u32).wrapping_sub(0x10) & 0xff == rate - 0x10,
{
    let x = (rate as u32).wrapping_sub(0x10);
    assert((x <= 0xff ==> x & 0xff == x) && (0xffff_fff0 <= x ==> x & 0xff >= 0xf0))
        by (bit_vector);
}

/// RESP_DUR ends up with the channel-width selector (1 unless the rate is HT/HE) in bits 22-23, the
/// response rate in bits 6-13, the 40 MHz mark in bit 1 and bit 2 set, and nothing else.
pub proof fn resp_dur_register(v: MemView, txq: LmacTxq, instances: u32)
    requires
        txq.slot_in(v) < SLOTS,
    ensures
        ({
            let ti = txq.cur_eb_in(v).txinfo_in(v);
            let rate = ti.rate_in(v);
            let sel = LmacTxq::block(instances, ti.ac_in(v)).txlen_cbw_sel_in(v);
            let w = len_set(v, txq, instances).rd32(slot_addr(RESP_DUR, txq.slot_in(v)));
            &&& (w >> 22) & 3 == (if 0x10 <= rate <= 0x23 {
                sel & 3
            } else {
                1
            })
            &&& (w >> 6) & 0xff == rts_rate(rate as int)
            &&& (w & 2 != 0) == (ti.word10_in(v) & 0xf000 == 0x1000)
            &&& w & 4 != 0
            &&& w & 0xff3f_c039 == 0
        }),
{
    broadcast use crate::mem_laws::group_loads;

    let s = txq.slot_in(v);
    let ti = txq.cur_eb_in(v).txinfo_in(v);
    let rate = ti.rate_in(v);
    let sel = LmacTxq::block(instances, ti.ac_in(v)).txlen_cbw_sel_in(v);
    slot_registers_apart(RESP_DUR, s, TXLEN, s);
    lemma_len_bits(0, 0, 0, sel, 0, 0);
    lemma_ht_rate(rate);
    let used = if is_ht(rate) {
        sel & 3
    } else {
        1
    };
    let wide: u32 = if ti.word10_in(v) & 0xf000 == 0x1000 {
        2
    } else {
        0
    };
    lemma_len_bits(used, wide, rts_rate(rate as int) as u32, 0, 0, 0);
}

/// For an HT (not HE) rate, TXLEN ends up with the rate's number inside its guard interval, 0 to 9, in
/// bits 28-31, the channel width in bits 22-23 and the length in bits 0-21: that which the frame
/// starts with or, in an aggregate, the sum of prefix and payload. For any other rate it stays as it
/// was.
pub proof fn txlen_register(v: MemView, txq: LmacTxq, instances: u32)
    requires
        armed_in_ram(v, txq),
        in_ram(txq.cur_eb_in(v).dma_desc_in(v).frame_ptr_in(v)),
        in_ram(LmacTxq::block(instances, txq.cur_eb_in(v).txinfo_in(v).ac_in(v)).0),
    ensures
        ({
            let eb = txq.cur_eb_in(v);
            let ti = eb.txinfo_in(v);
            let rate = ti.rate_in(v);
            let a = slot_addr(TXLEN, txq.slot_in(v));
            let w = len_set(v, txq, instances).rd32(a);
            if 0x10 <= rate <= 0x23 && ti.flags_in(v) < 0x8000_0000 {
                &&& w >> 28 == (if rate > 0x19 {
                    rate - 0x1a
                } else {
                    rate - 0x10
                })
                &&& w >> 28 <= 9
                &&& (w >> 22) & 3 == LmacTxq::block(instances, ti.ac_in(v)).txlen_cbw_in(v) & 3
                &&& w & 0x3f_ffff == (if ti.flags_in(v) & 0x40_0000 == 0 {
                    (v.rd32(eb.dma_desc_in(v).frame_ptr_in(v)) & 0x3fff) as int
                } else {
                    eb.prefix_len_in(v) + eb.payload_len_in(v)
                })
                &&& w & 0x0f00_0000 == 0
            } else {
                w == v.rd32(a)
            }
        }),
{
    broadcast use crate::mem_laws::group_loads;

    let s = txq.slot_in(v);
    let eb = txq.cur_eb_in(v);
    let ti = eb.txinfo_in(v);
    let rate = ti.rate_in(v);
    slot_registers_apart(RESP_DUR, s, TXLEN, s);
    let first = v.rd32(eb.dma_desc_in(v).frame_ptr_in(v));
    lemma_len_bits(0, 0, 0, first, 0, 0);
    lemma_ht_rate(rate);
    let len: u32 = if ti.flags_in(v) & 0x40_0000 == 0 {
        first & 0x3fff
    } else {
        (eb.payload_len_in(v) + eb.prefix_len_in(v)) as u32
    };
    if is_ht(rate) {
        let ht: u32 = if rate > 0x19 {
            (rate - 0x1a) as u32
        } else {
            (rate - 0x10) as u32
        };
        lemma_len_bits(
            0,
            0,
            0,
            LmacTxq::block(instances, ti.ac_in(v)).txlen_cbw_in(v),
            len,
            ht,
        );
    }
}

proof fn lemma_edca_bits(w: u32, n: u8, b: u16, word10: u32)
    by (bit_vector)
    ensures
        ({
            let aifsn = (n & 0xf) as u32;
            let backoff = (b & 0x3ff) as u32;
            let iface = (word10 >> 0x13) & 1;
            let a = (w & 0xf0ff_ffffu32) | (aifsn << 24);
            let b = (a & 0xffc0_0fffu32) | (backoff << 12);
            let c = (b & 0xff3f_ffffu32) | (iface << 0x16);
            c == (w & 0xf000_0fff) | (aifsn << 24) | (iface << 22) | (backoff << 12)
        }),
        n & 0xf <= 0xf,
        b & 0x3ff <= 0x3ff,
        (word10 >> 0x13) & 1 <= 1,
{
}

proof fn lemma_edca_ranges(aifsn: u8, backoff: u16, word10: u32)
    ensures
        aifsn & 0xf <= 0xf,
        backoff & 0x3ff <= 0x3ff,
        (word10 >> 0x13) & 1 <= 1,
{
    lemma_edca_bits(0, aifsn, backoff, word10);
}

/// CONF1 ends up with AIFSN in bits 24-27, the interface in bit 22 and the backoff in bits 12-21,
/// with bit 23 clear and the PTI nibble and the timeout as they were.
pub proof fn edca_register(v: MemView, txq: LmacTxq)
    requires
        armed_in_ram(v, txq),
    ensures
        ({
            let ti = txq.cur_eb_in(v).txinfo_in(v);
            let c = conf_addr(CONF1, txq.slot_in(v));
            edca_set(v, txq).rd32(c) == (v.rd32(c) & 0xf000_0fff) | (((txq.aifsn_in(v) & 0xf)
                as u32) << 24) | (ti.iface_in(v) << 22) | (((txq.backoff_in(v) & 0x3ff) as u32)
                << 12)
        }),
{
    broadcast use crate::mem_laws::group_loads;

    let ti = txq.cur_eb_in(v).txinfo_in(v);
    let c = conf_addr(CONF1, txq.slot_in(v));
    lemma_edca_ranges(txq.aifsn_in(v), txq.backoff_in(v), ti.word10_in(v));
    lemma_edca_bits(v.rd32(c), txq.aifsn_in(v), txq.backoff_in(v), ti.word10_in(v));
}

proof fn lemma_timeout_bits(w: u32, t: u32, floor: i32)
    by (bit_vector)
    ensures
        floor as u32 == (if floor < 0 {
            floor + 0x1_0000_0000
        } else {
            floor + 0
        }),
        t <= 0xfff ==> ((w & 0xffff_f000u32) | t) & 0xfff == t,
        t <= 0xfff ==> ((w & 0xffff_f000u32) | t) & 0xffff_f000u32 == w & 0xffff_f000u32,
{
}

/// CONF1 takes the frame's lifetime, in units of 1024 and at most 0xfff, in bits 0-11, or the floor
/// where that is more, and keeps the rest. A negative floor counts as more than any lifetime, and of a
/// floor that does not fit the low 12 bits are taken.
pub proof fn timeout_register(v: MemView, txq: LmacTxq, floor: i32)
    ensures
        ({
            let ti = txq.cur_eb_in(v).txinfo_in(v);
            let units = (ti.lifetime_hi_in(v) * 0x1_0000_0000 + ti.lifetime_lo_in(v)) / 1024;
            let c = conf_addr(CONF1, txq.slot_in(v));
            let w = timeout_set(v, txq, floor).rd32(c);
            let t = w & 0xfff;
            &&& t == timeout_field(ti.lifetime_lo_in(v), ti.lifetime_hi_in(v), floor)
            &&& t <= 0xfff
            &&& 0 <= floor <= 0xfff ==> t >= floor
            &&& 0 <= floor <= units && units <= 0xfff ==> t == units
            &&& 0 <= floor <= 0xfff && units >= 0xfff ==> t == 0xfff
            &&& 0 <= floor <= 0xfff && units < floor ==> t == floor
            &&& floor > 0xfff ==> t == floor % 0x1000
            &&& floor < 0 ==> t == (floor + 0x1_0000_0000) % 0x1000
            &&& w & 0xffff_f000 == v.rd32(c) & 0xffff_f000
        }),
{
    broadcast use crate::mem_laws::group_loads;

    let ti = txq.cur_eb_in(v).txinfo_in(v);
    let t = timeout_field(ti.lifetime_lo_in(v), ti.lifetime_hi_in(v), floor);
    low_bits(floor as u32);
    lemma_timeout_bits(v.rd32(conf_addr(CONF1, txq.slot_in(v))), t, floor);
}

proof fn lemma_txop_bits(w: u32, count: u32, depth: u32)
    by (bit_vector)
    ensures
        ({
            let a = (w & 0xf0ff_ffffu32) | ((count << 0x18) & 0x0f00_0000);
            let b = (a & 0xcfff_ffffu32) | (depth << 0x1c);
            &&& (b >> 24) & 0xf == count & 0xf
            &&& depth <= 2 ==> (b >> 28) & 3 == depth
            &&& depth <= 2 ==> b & 0xc0ff_ffff == w & 0xc0ff_ffff
        }),
        (w & 0xf0ff_ffffu32) & 0x0f00_0000 == 0,
        (w & 0xf0ff_ffffu32) & 0xf0ff_ffff == w & 0xf0ff_ffff,
        (w | 0x8000_0000u32) & 0x8000_0000 != 0,
        (w & 0x7fff_ffffu32) & 0x8000_0000 == 0,
        (w | 0x8000_0000u32) & 0x7fff_ffff == w & 0x7fff_ffff,
        (w & 0x7fff_ffffu32) & 0x7fff_ffff == w & 0x7fff_ffff,
        (w | 0x40_0000u32) & 0x40_0000 != 0,
        (w & 0xffbf_ffffu32) & 0x40_0000 == 0,
        (w | 0x40_0000u32) & 0xffbf_ffff == w & 0xffbf_ffff,
        (w & 0xffbf_ffffu32) & 0xffbf_ffff == w & 0xffbf_ffff,
{
}

/// RESP_DUR ends up with the low nibble of the burst count in bits 24-27 and the depth in bits 28-29,
/// and the rest as it was; a burst deeper than 2 has the nibble cleared and all else as it was.
pub proof fn txop_count_and_depth(v: MemView, txq: LmacTxq)
    requires
        txq.slot_in(v) < SLOTS,
    ensures
        ({
            let dur = slot_addr(RESP_DUR, txq.slot_in(v));
            let depth = txq.txop_depth_in(v);
            let w = txop_regs_set(v, txq).rd32(dur);
            &&& depth <= 2 ==> {
                &&& (w >> 24) & 0xf == txq.txop_count_in(v) & 0xf
                &&& (w >> 28) & 3 == depth
                &&& w & 0xc0ff_ffff == v.rd32(dur) & 0xc0ff_ffff
            }
            &&& depth > 2 ==> {
                &&& w & 0x0f00_0000 == 0
                &&& w & 0xf0ff_ffff == v.rd32(dur) & 0xf0ff_ffff
            }
        }),
{
    broadcast use crate::mem_laws::group_loads;

    let s = txq.slot_in(v);
    register_blocks_apart(CONF0, s, RESP_DUR, s, crate::mac_reg::SYS_TIMER);
    register_blocks_apart(PLCP0_ENABLE, s, RESP_DUR, s, crate::mac_reg::SYS_TIMER);
    lemma_txop_bits(v.rd32(slot_addr(RESP_DUR, s)), txq.txop_count_in(v), txq.txop_depth_in(v));
}

/// For a burst of depth 2 or less, CONF0 bit 31 says whether flag bit 8 is set and PLCP0_ENABLE bit
/// 22 whether the flag bits 6-7 are 2; the other bits of both registers stay as they were.
pub proof fn txop_flags_in_the_registers(v: MemView, txq: LmacTxq)
    requires
        armed_in_ram(v, txq),
        txq.txop_depth_in(v) <= 2,
    ensures
        ({
            let s = txq.slot_in(v);
            let flags = txq.cur_eb_in(v).txinfo_in(v).flags_in(v);
            let c = conf_addr(CONF0, s);
            let p = conf_addr(PLCP0_ENABLE, s);
            let w = txop_regs_set(v, txq);
            &&& (w.rd32(c) & CONF0_BIT31 != 0) == (flags & 0x100 != 0)
            &&& w.rd32(c) & 0x7fff_ffff == v.rd32(c) & 0x7fff_ffff
            &&& (w.rd32(p) & PLCP0_TXOP != 0) == (flags & 0xc0 == 0x80)
            &&& w.rd32(p) & 0xffbf_ffff == v.rd32(p) & 0xffbf_ffff
        }),
{
    broadcast use crate::mem_laws::group_loads;

    let s = txq.slot_in(v);
    conf_registers_apart(CONF0, s, PLCP0_ENABLE, s);
    register_blocks_apart(CONF0, s, RESP_DUR, s, crate::mac_reg::SYS_TIMER);
    register_blocks_apart(PLCP0_ENABLE, s, RESP_DUR, s, crate::mac_reg::SYS_TIMER);
    lemma_txop_bits(v.rd32(conf_addr(CONF0, s)), 0, 0);
    lemma_txop_bits(v.rd32(conf_addr(PLCP0_ENABLE, s)), 0, 0);
}

/// The walk over an aggregate begins with the MPDU that the frame links to, at position 1, with the
/// burst's depth and count as the control block holds them; there is none for a frame without a link
/// or a burst deeper than 2.
pub proof fn first_fill_is_the_linked_mpdu(v: MemView, txq: LmacTxq)
    requires
        armed_in_ram(v, txq),
    ensures
        ({
            let next = txq.cur_eb_in(v).pending_next_in(v);
            let fill = txop_first_fill(v, txq);
            &&& fill is None <==> next == 0 || txq.txop_depth_in(v) > 2
            &&& fill matches Some(f) ==> {
                &&& f.mpdu == next
                &&& f.idx == 1
                &&& f.depth == txq.txop_depth_in(v)
                &&& f.count == txq.txop_count_in(v)
            }
        }),
{
    broadcast use crate::mem_laws::group_loads;

    let s = txq.slot_in(v);
    lemma_slot_register(RESP_DUR, s);
    lemma_slot_register(CONF0, s);
    lemma_slot_register(PLCP0_ENABLE, s);
}

/// Each further fill is the MPDU that the last one links to, at the next position modulo 256. The walk
/// ends behind the position that equals the count, and at the end of the chain.
pub proof fn next_fill_is_the_linked_mpdu(v: MemView, txq: LmacTxq, f: TxopFill)
    ensures
        ({
            let next = v.rd32(f.mpdu.wrapping_add(0x30));
            let fill = txop_next_fill(v, txq, f);
            &&& fill is None <==> f.idx == f.count || next == 0
            &&& fill matches Some(g) ==> {
                &&& g.mpdu == next
                &&& g.idx == (f.idx + 1) % 0x100
                &&& g.depth == txq.txop_depth_in(v)
                &&& g.count == f.count
            }
        }),
{
    low_bits(f.idx.wrapping_add(1));
}

proof fn lemma_slot_register(base: u32, slot: u32)
    requires
        slot < SLOTS,
        0x600a_4000 <= base <= 0x600a_5fff,
    ensures
        0x6000_0000 <= conf_addr(base, slot) <= 0x7000_0000,
        0x6000_0000 <= slot_addr(base, slot) <= 0x7000_0000,
{
}

/// How many more fills the walk over an aggregate can take.
pub open spec fn fills_left(f: TxopFill) -> int {
    if f.count >= f.idx {
        f.count - f.idx
    } else {
        f.count - f.idx + 0x100
    }
}

proof fn lemma_next_position(idx: u32)
    requires
        idx <= 0xff,
    ensures
        ((idx + 1) as u32) & 0xff == (if idx == 0xff {
            0
        } else {
            idx + 1
        }),
{
    low_bits((idx + 1) as u32);
}

/// The walk over an aggregate ends: each fill leaves one less to come, so a walk from position 1
/// takes at most 256.
pub proof fn txop_walk_ends(v: MemView, txq: LmacTxq, f: TxopFill)
    requires
        f.idx <= 0xff,
        f.count <= 0xff,
    ensures
        0 <= fills_left(f) < 0x100,
        txop_next_fill(v, txq, f) matches Some(g) ==> {
            &&& fills_left(g) == fills_left(f) - 1
            &&& g.idx <= 0xff
            &&& g.count == f.count
        },
{
    lemma_next_position(f.idx);
}

proof fn lemma_antenna_bits(w: u32)
    ensures
        ((((w & 0xffff_fff8u32) & 0xffff_fff7u32) | 0x20) & 0xffff_ffefu32) == (w & 0xffff_ffc0u32)
            | 0x20,
{
    lemma_arm_bits(w);
}

proof fn lemma_pass1(v: MemView, n: nat, s: u32)
    requires
        n <= SLOTS,
        s < SLOTS,
    ensures
        antenna_pass1(v, n).rd32(slot_addr(RESP_DUR, s)) == (if s < n {
            v.rd32(slot_addr(RESP_DUR, s)) & 0xffff_fff8
        } else {
            v.rd32(slot_addr(RESP_DUR, s))
        }),
    decreases n,
{
    broadcast use crate::mem_laws::group_loads;

    if n > 0 {
        lemma_pass1(v, (n - 1) as nat, s);
        if s != n - 1 {
            slot_registers_apart(RESP_DUR, (n - 1) as u32, RESP_DUR, s);
        }
    }
}

proof fn lemma_pass2(v: MemView, n: nat, s: u32)
    requires
        n <= SLOTS,
        s < SLOTS,
    ensures
        antenna_pass2(v, n).rd32(slot_addr(RESP_DUR, s)) == (if s < n {
            ((v.rd32(slot_addr(RESP_DUR, s)) & 0xffff_fff7) | 0x20) & 0xffff_ffef
        } else {
            v.rd32(slot_addr(RESP_DUR, s))
        }),
    decreases n,
{
    broadcast use crate::mem_laws::group_loads;

    if n > 0 {
        lemma_pass2(v, (n - 1) as nat, s);
        if s != n - 1 {
            slot_registers_apart(RESP_DUR, (n - 1) as u32, RESP_DUR, s);
        }
    }
}

/// The antenna reset leaves 0x20 in the low six bits of every slot's RESP_DUR register and the rest
/// as it was.
pub proof fn antenna_reset(v: MemView, s: u32)
    requires
        s < SLOTS,
    ensures
        antenna_pass2(antenna_pass1(v, SLOTS as nat), SLOTS as nat).rd32(slot_addr(RESP_DUR, s))
            == (v.rd32(slot_addr(RESP_DUR, s)) & 0xffff_ffc0) | 0x20,
{
    lemma_pass1(v, SLOTS as nat, s);
    lemma_pass2(antenna_pass1(v, SLOTS as nat), SLOTS as nat, s);
    lemma_antenna_bits(v.rd32(slot_addr(RESP_DUR, s)));
}

/// The byte at `a` is none of the register at `r`.
pub open spec fn not_in(r: u32, a: u32) -> bool {
    apart(r, 4, a, 1)
}

/// Each step of the slot programming stores to its own registers and nowhere else: PLCP0 with the
/// protection to PLCP0_ENABLE, CONF0 and PROT_THRESH; PLCP1 to PLCP1; the lengths to RESP_DUR and
/// TXLEN; the TXOP fields to RESP_DUR, CONF0 and PLCP0_ENABLE; the PTI to CONF1 and PTI; EDCA and
/// timeout to CONF1.
pub proof fn steps_store_only_to_their_registers(
    v: MemView,
    txq: LmacTxq,
    instances: u32,
    floor: i32,
    a: u32,
)
    requires
        txq.slot_in(v) < SLOTS,
    ensures
        ({
            let s = txq.slot_in(v);
            let plcp0 = not_in(conf_addr(PLCP0_ENABLE, s), a);
            let conf0 = not_in(conf_addr(CONF0, s), a);
            let conf1 = not_in(conf_addr(CONF1, s), a);
            let prot = not_in(slot_addr(PROT_THRESH, s), a);
            let plcp1 = not_in(slot_addr(PLCP1, s), a);
            let dur = not_in(slot_addr(RESP_DUR, s), a);
            let len = not_in(slot_addr(TXLEN, s), a);
            let pti = not_in(slot_addr(PTI, s), a);
            &&& plcp0 && conf0 && prot ==> plcp0_set(v, txq).rd8(a) == v.rd8(a)
            &&& plcp1 ==> plcp1_set(v, txq).rd8(a) == v.rd8(a)
            &&& dur && len ==> len_set(v, txq, instances).rd8(a) == v.rd8(a)
            &&& dur && conf0 && plcp0 ==> txop_regs_set(v, txq).rd8(a) == v.rd8(a)
            &&& conf1 && pti ==> pti_set(v, txq).rd8(a) == v.rd8(a)
            &&& conf1 ==> edca_set(v, txq).rd8(a) == v.rd8(a)
            &&& conf1 ==> timeout_set(v, txq, floor).rd8(a) == v.rd8(a)
        }),
{
    broadcast use crate::mem_laws::group_loads;

}

/// The number of stores that each step makes: one for PLCP1 and the timeout, three for EDCA, six for
/// the PTI; for PLCP0 with the protection, two, and one more for a threshold; for the lengths one, and
/// one more for an HT rate; for the TXOP fields four, or one for a deep burst.
pub proof fn steps_count_their_stores(
    v: MemView,
    txq: LmacTxq,
    instances: u32,
    floor: i32,
)
    requires
        armed_in_ram(v, txq),
    ensures
        ({
            let n = v.log.len();
            let ti = txq.cur_eb_in(v).txinfo_in(v);
            let ht = 0x10 <= ti.rate_in(v) <= 0x23 && ti.flags_in(v) < 0x8000_0000;
            &&& plcp0_set(v, txq).log.len() == n + 2 + (if ti.word30_in(v) & 0x1ff8 != 0 {
                1int
            } else {
                0
            })
            &&& plcp1_set(v, txq).log.len() == n + 1
            &&& len_set(v, txq, instances).log.len() == n + 1 + (if ht {
                1int
            } else {
                0
            })
            &&& txop_regs_set(v, txq).log.len() == n + (if txq.txop_depth_in(v) > 2 {
                1int
            } else {
                4
            })
            &&& pti_set(v, txq).log.len() == n + 6
            &&& edca_set(v, txq).log.len() == n + 3
            &&& timeout_set(v, txq, floor).log.len() == n + 1
        }),
{
    broadcast use {crate::mem_laws::group_loads, crate::mem_laws::group_log};

    let ti = txq.cur_eb_in(v).txinfo_in(v);
    let s = txq.slot_in(v);
    lemma_slot_register(RESP_DUR, s);
    lemma_slot_register(PLCP0_ENABLE, s);
    lemma_ht_rate(ti.rate_in(v));
    lemma_plcp0_fields(0, ti.word30_in(v));
}

/// The same of whole words: a register that none of a step's own registers overlaps reads as before.
pub proof fn steps_keep_other_registers(
    v: MemView,
    txq: LmacTxq,
    instances: u32,
    floor: i32,
    r: u32,
)
    requires
        txq.slot_in(v) < SLOTS,
    ensures
        ({
            let s = txq.slot_in(v);
            let plcp0 = apart(conf_addr(PLCP0_ENABLE, s), 4, r, 4);
            let conf0 = apart(conf_addr(CONF0, s), 4, r, 4);
            let conf1 = apart(conf_addr(CONF1, s), 4, r, 4);
            let prot = apart(slot_addr(PROT_THRESH, s), 4, r, 4);
            let plcp1 = apart(slot_addr(PLCP1, s), 4, r, 4);
            let dur = apart(slot_addr(RESP_DUR, s), 4, r, 4);
            let len = apart(slot_addr(TXLEN, s), 4, r, 4);
            let pti = apart(slot_addr(PTI, s), 4, r, 4);
            &&& plcp0 && conf0 && prot ==> plcp0_set(v, txq).rd32(r) == v.rd32(r)
            &&& plcp1 ==> plcp1_set(v, txq).rd32(r) == v.rd32(r)
            &&& dur && len ==> len_set(v, txq, instances).rd32(r) == v.rd32(r)
            &&& dur && conf0 && plcp0 ==> txop_regs_set(v, txq).rd32(r) == v.rd32(r)
            &&& conf1 && pti ==> pti_set(v, txq).rd32(r) == v.rd32(r)
            &&& conf1 ==> edca_set(v, txq).rd32(r) == v.rd32(r)
            &&& conf1 ==> timeout_set(v, txq, floor).rd32(r) == v.rd32(r)
        }),
{
    broadcast use crate::mem_laws::group_loads;

}

/// Setting a protection turns CONF0 bit 31 on or off, and for a threshold writes the low half of the
/// value to PROT_THRESH with bit 16 over it; nothing else changes.
pub proof fn protection_by_arguments(
    v: MemView,
    slot: u32,
    enable: u32,
    threshold: u32,
    val: u32,
    a: u32,
)
    requires
        slot < SLOTS,
    ensures
        ({
            let c = (0x600a_4d60 - 0x10 * slot) as u32;
            let p = (0x600a_548c - 0x74 * slot) as u32;
            let w = protection_set(v, slot, enable, threshold, val);
            &&& (w.rd32(c) & 0x8000_0000 != 0) == (enable != 0)
            &&& w.rd32(c) & 0x7fff_ffff == v.rd32(c) & 0x7fff_ffff
            &&& threshold == 0 ==> w.rd32(p) == v.rd32(p)
            &&& threshold != 0 ==> w.rd32(p) == 0x1_0000 + val % 0x1_0000
            &&& apart(c, 4, a, 1) && apart(p, 4, a, 1) ==> w.rd8(a) == v.rd8(a)
        }),
{
    broadcast use crate::mem_laws::group_loads;

    crate::mac_reg::register_map(slot);
    register_blocks_apart(CONF0, slot, PROT_THRESH, slot, crate::mac_reg::SYS_TIMER);
    lemma_txop_bits(v.rd32(conf_addr(CONF0, slot)), 0, 0);
    lemma_plcp0_fields(val, 0);
}

/// The PLCP0 word alone is the one that stands there once the protection is set too, and its store is
/// the only one.
pub proof fn plcp0_word_alone(v: MemView, txq: LmacTxq, a: u32)
    requires
        armed_in_ram(v, txq),
    ensures
        ({
            let r = conf_addr(PLCP0_ENABLE, txq.slot_in(v));
            let w = plcp0_written(v, txq);
            &&& w.rd32(r) == plcp0_set(v, txq).rd32(r)
            &&& apart(r, 4, a, 1) ==> w.rd8(a) == v.rd8(a)
            &&& w.log.len() == v.log.len() + 1
        }),
{
    broadcast use {crate::mem_laws::group_loads, crate::mem_laws::group_log};

    protection_keeps_plcp0(v, txq);
}

proof fn lemma_passes_elsewhere(v: MemView, n: nat, a: u32)
    requires
        n <= SLOTS,
        forall|s: u32| s < SLOTS ==> apart(#[trigger] slot_addr(RESP_DUR, s), 4, a, 1),
    ensures
        antenna_pass1(v, n).rd8(a) == v.rd8(a),
        antenna_pass2(v, n).rd8(a) == v.rd8(a),
    decreases n,
{
    broadcast use crate::mem_laws::group_loads;

    if n > 0 {
        lemma_passes_elsewhere(v, (n - 1) as nat, a);
        assert(apart(slot_addr(RESP_DUR, (n - 1) as u32), 4, a, 1));
    }
}

/// The antenna reset passes store to the RESP_DUR registers of the eight slots and nowhere else.
pub proof fn antenna_reset_stores_nowhere_else(v: MemView, a: u32)
    requires
        forall|s: int| 0 <= s < 8 ==> apart((0x600a_54bc - #[trigger] (0x74 * s)) as u32, 4, a, 1),
    ensures
        antenna_pass2(antenna_pass1(v, SLOTS as nat), SLOTS as nat).rd8(a) == v.rd8(a),
{
    assert forall|s: u32| s < SLOTS implies apart(#[trigger] slot_addr(RESP_DUR, s), 4, a, 1) by {
        crate::mac_reg::register_map(s);
        assert(apart((0x600a_54bc - 0x74 * (s as int)) as u32, 4, a, 1));
    }
    lemma_passes_elsewhere(v, SLOTS as nat, a);
    lemma_passes_elsewhere(antenna_pass1(v, SLOTS as nat), SLOTS as nat, a);
}

/// The address of a recorded store.
pub open spec fn stored_at(s: Store) -> u32 {
    match s {
        Store::Byte { addr, val } => addr,
        Store::Half { addr, val } => addr,
        Store::Word { addr, val } => addr,
    }
}

/// The record of `w` is that of `v` and then stores to these addresses, in this order.
pub open spec fn stores_since(v: MemView, w: MemView, addrs: Seq<u32>) -> bool {
    &&& w.log.len() == v.log.len() + addrs.len()
    &&& forall|i: int| 0 <= i < v.log.len() ==> #[trigger] w.log[i] == v.log[i]
    &&& forall|i: int|
        v.log.len() <= i < w.log.len() ==> stored_at(#[trigger] w.log[i]) == addrs[i - v.log.len()]
}

/// Records follow each other.
pub proof fn stores_follow(u: MemView, v: MemView, w: MemView, x: Seq<u32>, y: Seq<u32>)
    requires
        stores_since(u, v, x),
        stores_since(v, w, y),
    ensures
        stores_since(u, w, x + y),
{
    assert forall|i: int| 0 <= i < u.log.len() implies #[trigger] w.log[i] == u.log[i] by {
        assert(v.log[i] == u.log[i]);
    }
    assert forall|i: int| u.log.len() <= i < w.log.len() implies stored_at(#[trigger] w.log[i]) == (x
        + y)[i - u.log.len()] by {
        if i < v.log.len() {
            assert(w.log[i] == v.log[i]);
        }
    }
}

/// The order of the stores of each step: PLCP0_ENABLE before CONF0 before PROT_THRESH; PLCP1 alone;
/// RESP_DUR before TXLEN; RESP_DUR twice, then CONF0, then PLCP0_ENABLE; CONF1 before PTI; EDCA and
/// timeout in CONF1 alone.
pub proof fn steps_store_in_order(v: MemView, txq: LmacTxq, instances: u32, floor: i32)
    requires
        armed_in_ram(v, txq),
    ensures
        ({
            let s = txq.slot_in(v);
            let ti = txq.cur_eb_in(v).txinfo_in(v);
            let plcp0 = conf_addr(PLCP0_ENABLE, s);
            let conf0 = conf_addr(CONF0, s);
            let conf1 = conf_addr(CONF1, s);
            let prot = slot_addr(PROT_THRESH, s);
            let dur = slot_addr(RESP_DUR, s);
            let len = slot_addr(TXLEN, s);
            let pti = slot_addr(PTI, s);
            let a = plcp0_set(v, txq);
            let b = len_set(v, txq, instances);
            let c = txop_regs_set(v, txq);
            &&& ti.word30_in(v) & 0x1ff8 == 0 ==> stores_since(v, a, seq![plcp0, conf0])
            &&& ti.word30_in(v) & 0x1ff8 != 0 ==> stores_since(v, a, seq![plcp0, conf0, prot])
            &&& stores_since(v, plcp1_set(v, txq), seq![slot_addr(PLCP1, s)])
            &&& if 0x10 <= ti.rate_in(v) <= 0x23 && ti.flags_in(v) < 0x8000_0000 {
                stores_since(v, b, seq![dur, len])
            } else {
                stores_since(v, b, seq![dur])
            }
            &&& txq.txop_depth_in(v) > 2 ==> stores_since(v, c, seq![dur])
            &&& txq.txop_depth_in(v) <= 2 ==> stores_since(v, c, seq![dur, dur, conf0, plcp0])
            &&& stores_since(v, pti_set(v, txq), seq![conf1, pti, pti, pti, pti, pti])
            &&& stores_since(v, edca_set(v, txq), seq![conf1, conf1, conf1])
            &&& stores_since(v, timeout_set(v, txq, floor), seq![conf1])
        }),
{
    broadcast use {crate::mem_laws::group_loads, crate::mem_laws::group_log};

    let ti = txq.cur_eb_in(v).txinfo_in(v);
    let s = txq.slot_in(v);
    lemma_slot_register(RESP_DUR, s);
    lemma_slot_register(PLCP0_ENABLE, s);
    lemma_slot_register(CONF1, s);
    lemma_ht_rate(ti.rate_in(v));
    lemma_plcp0_fields(0, ti.word30_in(v));
}

} // verus!
