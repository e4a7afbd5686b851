//! The TX queue operations interposed between the vendor scheduler and the vendor leaves.
//!
//! The same register programming as in `hal_mac_tx`, but with protection, response rate, length,
//! SIG, TXOP fill and PTI left to the vendor firmware. The PPDU build stops at each of these leaves.
use crate::layout::{Eb, LmacTxq, TxInfo};
use crate::mac_reg;
use crate::mac_reg::{conf_addr, slot_addr, CONF1_REAL, PLCP0_ENABLE, PLCP_RATE_DUR};
use crate::mmio::{mask, rd, rd8, wr, Mem, MemView};
use crate::hal_mac_tx::{is_ht, pwr_byte, pwr_row, pwr_word};
use crate::slot::{
    mac_tx_next_txop_fill, mac_tx_set_plcp1, mac_tx_set_txop_q,
    plcp0_written, plcp1_set, protection_of, timeout_set, txop_first_fill, txop_next_fill,
    txop_regs_set, write_plcp0, Protection, TxopFill,
};
use vstd::prelude::*;

verus! {

/// Per-AC switches in flash that take the EDCA set-up out of the driver's hands.
pub const ESP_TEST_IS_DISABLE_EDCA: u32 = 0x4208_318c;

/// PLCP0_ENABLE of queue 0, the highest slot.
pub const PLCP0_Q0: i32 = 0x600a_4d6c;

proof fn lemma_signed_bits(x: i32)
    by (bit_vector)
    ensures
        x as u32 == (if x < 0 {
            x + 0x1_0000_0000
        } else {
            x + 0
        }),
{
}

/// The address of a queue's PLCP0_ENABLE register.
pub fn txq_plcp0_enable_addr(ac: i32) -> (r: u32)
    ensures
        r == conf_addr(PLCP0_ENABLE, ac as u32),
{
    let step = ac.wrapping_mul(0x10);
    let a = PLCP0_Q0.wrapping_sub(step);
    proof {
        lemma_signed_bits(ac);
        lemma_signed_bits(step);
        lemma_signed_bits(a);
    }
    a as u32
}

/// Writes the PLCP0 word of the armed frame and hands out the protection that the vendor leaf is to
/// set.
pub fn mac_tx_set_plcp0(m: &mut Mem, ctx: u32) -> (p: Protection)
    ensures
        final(m)@ == plcp0_written(old(m)@, LmacTxq(ctx)),
        p == protection_of(old(m)@, LmacTxq(ctx)),
{
    write_plcp0(m, LmacTxq::from_ctx(ctx))
}

/// Whether the timeout of a control block is left to the vendor firmware.
pub open spec fn edca_disabled(v: MemView, txq: LmacTxq) -> bool {
    v.rd8(ESP_TEST_IS_DISABLE_EDCA.wrapping_add(txq.slot_in(v))) != 0
}

/// Programs the slot's timeout, or says (`false`) that the vendor firmware is to do it.
pub fn hal_mac_tx_config_timeout(m: &mut Mem, ctx: u32, floor: i32) -> (r: bool)
    ensures
        r == !edca_disabled(old(m)@, LmacTxq(ctx)),
        final(m)@ == (if r {
            timeout_set(old(m)@, LmacTxq(ctx), floor)
        } else {
            old(m)@
        }),
{
    let slot = LmacTxq::from_ctx(ctx).slot(m);
    if rd8(m, ESP_TEST_IS_DISABLE_EDCA.wrapping_add(slot)) != 0 {
        return false;
    }
    crate::slot::hal_mac_tx_config_timeout(m, ctx, floor);
    true
}

/// Whether a queue has an MPDU length bitmap (CONF1_REAL bit 3), which the vendor firmware is to
/// tear down.
pub fn hal_mac_tx_clr_mplen(m: &Mem, q: i32) -> (r: bool)
    ensures
        r == (m@.rd32(conf_addr(CONF1_REAL, q as u32)) & 8 != 0),
{
    rd(m, mac_reg::conf1_real(q as u32)) & 8 != 0
}

/// The part of a PPDU build that later steps need.
#[derive(Clone, Copy, Debug, PartialEq, Eq, Structural)]
pub struct Build {
    pub eb: Eb,
    pub txinfo: TxInfo,
    pub slot: u32,
    pub rate: u8,
    /// The response-power half of the rate/duration word.
    pub power: u32,
}

/// A PPDU build: done, or the vendor leaf that is due.
#[derive(Clone, Copy, Debug, PartialEq, Eq, Structural)]
pub enum Leaf {
    /// The slot is programmed.
    Done,
    /// Set the protection.
    Protection { eb: Eb, p: Protection },
    /// Look up the response rate of `b.rate`; the reply is the row.
    RtsRate { b: Build },
    /// Set the length registers.
    Len { b: Build },
    /// Fill in the HE SIG fields.
    HeSig { b: Build },
    /// Fill in the HT SIG fields.
    HtSig { b: Build },
    /// Fill in the hardware TXOP fields of an aggregated MPDU.
    Txop { fill: TxopFill, b: Build },
    /// Set the PTI.
    Pti,
}

/// The response-power half of the rate/duration word for a row of the power table.
pub open spec fn row_power(v: MemView, row: u32) -> u32 {
    (pwr_word(v, row.wrapping_mul(2)) << 16) | (pwr_word(v, row.wrapping_mul(2).wrapping_add(1))
        << 24)
}

/// The build once the protection is set: PLCP1 is written, CONF1_REAL bit 3 cleared, and the
/// response rate is asked for.
pub open spec fn protected(v: MemView, txq: LmacTxq, eb: Eb) -> (MemView, Leaf) {
    let v1 = plcp1_set(v, txq);
    let slot = txq.slot_in(v1);
    let v2 = v1.and32(conf_addr(CONF1_REAL, slot), 0xffff_fff7);
    let txinfo = eb.txinfo_in(v2);
    let b = Build { eb, txinfo, slot, rate: txinfo.rate_in(v2), power: 0 };
    (v2, Leaf::RtsRate { b })
}

/// The address space after the rate/duration word of a DSSS/OFDM frame has been written.
pub open spec fn legacy_rate_set(v: MemView, b: Build) -> MemView {
    v.st32(
        slot_addr(PLCP_RATE_DUR, b.slot),
        pwr_word(v, (b.txinfo.rate_in(v) as u32).wrapping_mul(2)) | b.power,
    )
}

/// The address space after the rate/duration word of an HT/HE frame has been written.
pub open spec fn sig_rate_set(v: MemView, b: Build) -> MemView {
    let row = pwr_row(b.eb.txinfo_in(v).rate_in(v) as u32).wrapping_mul(2);
    v.st32(
        slot_addr(PLCP_RATE_DUR, b.slot),
        (pwr_word(v, row.wrapping_add(1)) << 8) | (pwr_word(v, row) | b.power),
    )
}

/// The build with the next MPDU to fill, if there is one.
pub open spec fn filled(v: MemView, next: Option<TxopFill>, b: Build) -> (MemView, Leaf) {
    match next {
        Some(fill) => (v, Leaf::Txop { fill, b }),
        None => (legacy_rate_set(v, b), Leaf::Pti),
    }
}

/// The build after the vendor leaf that `l` stands for has returned `reply`.
pub open spec fn leaf_resumed(v: MemView, txq: LmacTxq, l: Leaf, reply: u32) -> (MemView, Leaf) {
    match l {
        Leaf::Done => (v, Leaf::Done),
        Leaf::Protection { eb, p } => protected(v, txq, eb),
        Leaf::RtsRate { b } => {
            let b1 = Build { power: row_power(v, reply), ..b };
            (
                v,
                if is_ht(b.rate) {
                    if b.txinfo.flags_in(v) >= 0x8000_0000 {
                        Leaf::HeSig { b: b1 }
                    } else {
                        Leaf::HtSig { b: b1 }
                    }
                } else {
                    Leaf::Len { b: b1 }
                },
            )
        },
        Leaf::Len { b } => filled(txop_regs_set(v, txq), txop_first_fill(v, txq), b),
        Leaf::HeSig { b } => (sig_rate_set(v, b), Leaf::Pti),
        Leaf::HtSig { b } => (sig_rate_set(v, b), Leaf::Pti),
        Leaf::Txop { fill, b } => filled(v, txop_next_fill(v, txq, fill), b),
        Leaf::Pti => (v, Leaf::Done),
    }
}

/// Starts to program the slot for the armed frame.
pub fn hal_mac_tx_set_ppdu(m: &mut Mem, ctx: u32) -> (r: Leaf)
    ensures
        final(m)@ == plcp0_written(old(m)@, LmacTxq(ctx)),
        r == (Leaf::Protection {
            eb: LmacTxq(ctx).cur_eb_in(old(m)@),
            p: protection_of(old(m)@, LmacTxq(ctx)),
        }),
{
    let eb = LmacTxq::from_ctx(ctx).cur_eb(m);
    let p = mac_tx_set_plcp0(m, ctx);
    Leaf::Protection { eb, p }
}

fn set_legacy_rate(m: &mut Mem, b: Build)
    ensures
        final(m)@ == legacy_rate_set(old(m)@, b),
{
    let rate = b.txinfo.rate(m) as u32;
    let p = pwr_byte(m, rate.wrapping_mul(2));
    wr(m, mac_reg::plcp_rate_dur(b.slot), p | b.power);
}

fn set_sig_rate(m: &mut Mem, b: Build)
    ensures
        final(m)@ == sig_rate_set(old(m)@, b),
{
    let rate = b.eb.txinfo(m).rate(m) as u32;
    let idx = if rate > 0x19 { rate - 0xa } else { rate };
    let row = idx.wrapping_mul(2);
    let c1 = pwr_byte(m, row);
    let c2 = pwr_byte(m, row.wrapping_add(1));
    wr(m, mac_reg::plcp_rate_dur(b.slot), (c2 << 8) | (c1 | b.power));
}

fn fill_next(m: &mut Mem, next: Option<TxopFill>, b: Build) -> (r: Leaf)
    ensures
        (final(m)@, r) == filled(old(m)@, next, b),
{
    match next {
        Some(fill) => Leaf::Txop { fill, b },
        None => {
            set_legacy_rate(m, b);
            Leaf::Pti
        },
    }
}

/// Goes on with a PPDU build after the vendor leaf that `l` stands for has returned `reply` (0 where
/// it returns nothing).
pub fn hal_mac_tx_resume_ppdu(m: &mut Mem, ctx: u32, l: Leaf, reply: u32) -> (r: Leaf)
    ensures
        (final(m)@, r) == leaf_resumed(old(m)@, LmacTxq(ctx), l, reply),
{
    match l {
        Leaf::Done => Leaf::Done,
        Leaf::Protection { eb, p } => {
            mac_tx_set_plcp1(m, ctx);
            let slot = LmacTxq::from_ctx(ctx).slot(m);
            mask(m, mac_reg::conf1_real(slot), 0xffff_fff7);
            let txinfo = eb.txinfo(m);
            let b = Build { eb, txinfo, slot, rate: txinfo.rate(m), power: 0 };
            Leaf::RtsRate { b }
        },
        Leaf::RtsRate { b } => {
            let lo = pwr_byte(m, reply.wrapping_mul(2));
            let hi = pwr_byte(m, reply.wrapping_mul(2).wrapping_add(1));
            let mut b1 = b;
            b1.power = (lo << 16) | (hi << 24);
            if 0x10 <= b.rate && b.rate <= 0x23 {
                if b.txinfo.flags(m) >= 0x8000_0000 {
                    Leaf::HeSig { b: b1 }
                } else {
                    Leaf::HtSig { b: b1 }
                }
            } else {
                Leaf::Len { b: b1 }
            }
        },
        Leaf::Len { b } => {
            let next = mac_tx_set_txop_q(m, ctx);
            fill_next(m, next, b)
        },
        Leaf::HeSig { b } => {
            set_sig_rate(m, b);
            Leaf::Pti
        },
        Leaf::HtSig { b } => {
            set_sig_rate(m, b);
            Leaf::Pti
        },
        Leaf::Txop { fill, b } => {
            let next = mac_tx_next_txop_fill(m, ctx, fill);
            fill_next(m, next, b)
        },
        Leaf::Pti => Leaf::Done,
    }
}

/// The address space after the interposed build of the armed frame, if it is a DSSS/OFDM frame
/// without further MPDUs and the driver's own register programming stands in for the vendor leaves.
pub open spec fn built_with_own_leaves(v: MemView, txq: LmacTxq, instances: u32) -> MemView {
    let p = protection_of(v, txq);
    let v1 = crate::slot::protection_set(
        plcp0_written(v, txq),
        p.slot,
        p.enable,
        p.threshold,
        p.val,
    );
    let t1 = leaf_resumed(v1, txq, Leaf::Protection { eb: txq.cur_eb_in(v), p }, 0);
    let row = crate::rates::rts_rate(t1.1->RtsRate_b.rate as int) as u32;
    let t2 = leaf_resumed(t1.0, txq, t1.1, row);
    let t3 = leaf_resumed(crate::slot::len_set(t2.0, txq, instances), txq, t2.1, 0);
    crate::slot::pti_set(t3.0, txq)
}

/// With the driver's own register programming in place of the vendor leaves, the interposed build of
/// a frame that needs no vendor firmware is the driver's own build, store for store.
pub proof fn interposed_build_is_the_own_build(v: MemView, txq: LmacTxq, instances: u32)
    requires
        crate::hal_mac_tx::ppdu_begun(v, txq, instances).1 == crate::hal_mac_tx::Ppdu::Done,
    ensures
        built_with_own_leaves(v, txq, instances) == crate::hal_mac_tx::ppdu_begun(
            v,
            txq,
            instances,
        ).0,
{
}

/// The timeout is the vendor firmware's where the slot's byte of the table at 0x4208318c is not 0.
pub proof fn timeout_switch(v: MemView, txq: LmacTxq)
    ensures
        edca_disabled(v, txq) <==> v.rd8(0x4208_318cu32.wrapping_add(txq.slot_in(v))) != 0,
{
}

/// The interposed build writes the same rate/duration words as the driver's own, each followed by the
/// PTI, and the same response half for the same row.
pub proof fn interposed_rate_words_are_the_own(v: MemView, txq: LmacTxq, b: Build, rate: u8)
    ensures
        crate::slot::pti_set(legacy_rate_set(v, b), txq) == crate::hal_mac_tx::ppdu_legacy_tail(
            v,
            txq,
            b.txinfo,
            b.slot,
            b.power,
        ),
        crate::slot::pti_set(sig_rate_set(v, b), txq) == crate::hal_mac_tx::ppdu_sig_tail(
            v,
            txq,
            b.eb,
            b.slot,
            b.power,
        ),
        row_power(v, crate::rates::rts_rate(rate as int) as u32)
            == crate::hal_mac_tx::response_power(v, rate),
{
}

/// The interposed build leaf by leaf. Behind the protection come PLCP1, the clearing of CONF1_REAL bit 3,
/// and the question for the response rate; its reply is the row of the response half. An HT/HE rate
/// (0x10 to 0x23) goes on to the HE or HT SIG fields, as flag bit 31 says, then to its rate/duration
/// word and the PTI; any other to the lengths, the TXOP registers, the MPDUs one by one, its
/// rate/duration word and the PTI, which is the last.
pub proof fn interposed_build_leaf_by_leaf(
    v: MemView,
    txq: LmacTxq,
    eb: Eb,
    p: Protection,
    b: Build,
    fill: TxopFill,
    reply: u32,
)
    ensures
        ({
            let v1 = plcp1_set(v, txq);
            let slot = txq.slot_in(v1);
            let v2 = v1.and32(conf_addr(CONF1_REAL, slot), 0xffff_fff7);
            let ti = eb.txinfo_in(v2);
            leaf_resumed(v, txq, Leaf::Protection { eb, p }, reply) == (
                v2,
                Leaf::RtsRate { b: Build { eb, txinfo: ti, slot, rate: ti.rate_in(v2), power: 0 } },
            )
        }),
        ({
            let t = leaf_resumed(v, txq, Leaf::RtsRate { b }, reply);
            let c = Build { power: row_power(v, reply), ..b };
            let ht = 0x10 <= b.rate <= 0x23;
            let he = v.rd32(b.txinfo.0) >= 0x8000_0000;
            &&& t.0 == v
            &&& ht && he ==> t.1 == (Leaf::HeSig { b: c })
            &&& ht && !he ==> t.1 == (Leaf::HtSig { b: c })
            &&& !ht ==> t.1 == (Leaf::Len { b: c })
        }),
        ({
            let w = txop_regs_set(v, txq);
            let t = leaf_resumed(v, txq, Leaf::Len { b }, reply);
            match txop_first_fill(v, txq) {
                Some(fill) => t == (w, Leaf::Txop { fill, b }),
                None => t == (legacy_rate_set(w, b), Leaf::Pti),
            }
        }),
        ({
            let t = leaf_resumed(v, txq, Leaf::Txop { fill, b }, reply);
            match txop_next_fill(v, txq, fill) {
                Some(fill) => t == (v, Leaf::Txop { fill, b }),
                None => t == (legacy_rate_set(v, b), Leaf::Pti),
            }
        }),
        leaf_resumed(v, txq, Leaf::HeSig { b }, reply) == (sig_rate_set(v, b), Leaf::Pti),
        leaf_resumed(v, txq, Leaf::HtSig { b }, reply) == (sig_rate_set(v, b), Leaf::Pti),
        leaf_resumed(v, txq, Leaf::Pti, reply) == (v, Leaf::Done),
        leaf_resumed(v, txq, Leaf::Done, reply) == (v, Leaf::Done),
{
    assert(b.txinfo.0.wrapping_add(0) == b.txinfo.0);
}

} // verus!
