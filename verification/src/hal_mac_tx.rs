//! The TX queue operations: arm and disarm, state, completion, power, and the PPDU build.
use crate::layout::{Eb, LmacTxq, TxInfo};
use crate::mac_reg;
use crate::mac_reg::{
    conf_addr, perslot, slot_addr, ATTENNA_GLOBAL, AUX_54D0, AUX_54E0, AUX_54EC, AUX_54F4,
    BA_BITMAP, CLR_STATE_A, CLR_STATE_B, CONF1_REAL, PLCP0_ENABLE, PLCP_RATE_DUR, PMD, RESP_DUR,
    RESP_DUR_BLOCK_END, SLOTS, SLOT_ARM, SLOT_ARM_CLEAR, SLOT_STRIDE, STATE_A, STATE_B, TX_MIN_PWR,
};
use crate::mmio::{mask, rd, rd8, rmw, set_bits, wr, Mem, MemView};
use crate::rates::{cr_mac_tx_get_rts_rate, rts_rate};
use crate::slot::{
    cr_mac_tx_set_len, cr_mac_tx_set_pti, len_set, mac_tx_next_txop_fill, mac_tx_set_plcp0,
    mac_tx_set_plcp1, mac_tx_set_txop_q, plcp0_set, plcp1_set, pti_set, txop_first_fill,
    txop_next_fill, txop_regs_set, TxopFill,
};
use vstd::prelude::*;

verus! {

/// Statistics hook of the lmac; there is nothing to update.
pub fn lmac_update_tx_statistic(m: &mut Mem)
    ensures
        final(m)@ == old(m)@,
{
}

/// Auto-ack rate set-up; there is nothing to set.
pub fn hal_mac_rate_autoack_init(m: &mut Mem)
    ensures
        final(m)@ == old(m)@,
{
}

/// Arms the slot of `ac`: sets both arm bits of its PLCP0_ENABLE register and keeps the rest.
pub fn hal_mac_txq_enable(m: &mut Mem, ac: i32)
    ensures
        final(m)@ == old(m)@.or32(conf_addr(PLCP0_ENABLE, ac as u32), SLOT_ARM),
{
    set_bits(m, mac_reg::plcp0_enable(ac as u32), SLOT_ARM);
}

/// Disarms the slot of `ac`: clears both arm bits of its PLCP0_ENABLE register and keeps the rest.
pub fn hal_mac_txq_disable(m: &mut Mem, ac: i32)
    ensures
        final(m)@ == old(m)@.and32(conf_addr(PLCP0_ENABLE, ac as u32), SLOT_ARM_CLEAR),
{
    mask(m, mac_reg::plcp0_enable(ac as u32), SLOT_ARM_CLEAR);
}

/// The state nibble of a TX queue: bits 0-3 of STATE_A for queue 0, bits 16-19 of STATE_A for queue
/// 1, bits 0-3 of STATE_B for queue 2, and 0 for any other.
pub open spec fn txq_state(v: MemView, ac: i32) -> u32 {
    if ac == 0 {
        v.rd32(STATE_A) & 0xf
    } else if ac == 1 {
        (v.rd32(STATE_A) >> 16) & 0xf
    } else if ac == 2 {
        v.rd32(STATE_B) & 0xf
    } else {
        0
    }
}

proof fn lemma_state_nibble(x: u32)
    by (bit_vector)
    ensures
        (x & 0x7ff) & 0xf == x & 0xf,
        (x & 0xff) & 0xf == x & 0xf,
        0u32 & 0xf == 0,
        x & 0x7f <= 0x7f,
{
}

/// Reads the state nibble of a TX queue.
pub fn hal_mac_get_txq_state(m: &Mem, ac: i32) -> (r: u32)
    ensures
        r == txq_state(m@, ac),
{
    let state = match ac {
        1 => (rd(m, STATE_A) >> 16) & 0xff,
        2 => rd(m, STATE_B) & 0x7ff,
        0 => rd(m, STATE_A) & 0x7ff,
        _ => 0,
    };
    proof {
        lemma_state_nibble(m@.rd32(STATE_A));
        lemma_state_nibble(m@.rd32(STATE_B));
        lemma_state_nibble(m@.rd32(STATE_A) >> 16);
    }
    state & 0xf
}

/// The address space after the state bit of a queue has been cleared through the clear registers.
pub open spec fn txq_state_cleared(v: MemView, kind: i32, bit: u32) -> MemView {
    if kind == 0 {
        v.st32(CLR_STATE_A, 1u32 << (bit & 0x1f))
    } else if kind == 1 {
        v.st32(CLR_STATE_A, 1u32 << (bit.wrapping_add(16) & 0x1f))
    } else if kind == 2 {
        v.or32(CLR_STATE_B, 1u32 << (bit & 0x1f))
    } else {
        v
    }
}

proof fn lemma_shift_range(x: u32)
    ensures
        x & 0x1f < 32,
{
    crate::bits::low_bits(x);
}

/// Clears a queue's state bit.
pub fn hal_mac_clr_txq_state(m: &mut Mem, kind: i32, bit: u32) -> (r: u32)
    ensures
        final(m)@ == txq_state_cleared(old(m)@, kind, bit),
        r == 0,
{
    proof {
        lemma_shift_range(bit);
        lemma_shift_range(bit.wrapping_add(16));
    }
    match kind {
        1 => wr(m, CLR_STATE_A, 1u32 << (bit.wrapping_add(16) & 0x1f)),
        2 => set_bits(m, CLR_STATE_B, 1u32 << (bit & 0x1f)),
        0 => wr(m, CLR_STATE_A, 1u32 << (bit & 0x1f)),
        _ => {},
    }
    0
}

/// Whether the slot is configured for 40 MHz (PMD bits 25-26).
pub fn hal_mac_tx_is_cbw40(m: &Mem, q: i32) -> (r: bool)
    ensures
        r == ((m@.rd32(slot_addr(PMD, q as u32)) >> 0x19) & 3 != 0),
{
    (rd(m, mac_reg::pmd(q as u32)) >> 0x19) & 3 != 0
}

/// A block ack as the MAC reports it.
#[derive(Clone, Copy, Debug, PartialEq, Eq, Structural)]
pub struct BlockAck {
    /// Fragment number (4 bits).
    pub frag: u8,
    /// Starting sequence number (12 bits).
    pub seq: u16,
    /// Bitmap word 1.
    pub word1: u32,
    /// Bitmap word 0.
    pub word0: u32,
}

/// The block ack in the slot's registers: the sequence number in bits 4-15 and the fragment number
/// in bits 16-19 of the header, and the two bitmap words.
pub open spec fn block_ack_of(v: MemView, q: u32) -> BlockAck {
    let hdr = v.rd32(slot_addr((BA_BITMAP + 8) as u32, q));
    BlockAck {
        frag: ((hdr >> 0x10) & 0xf) as u8,
        seq: ((hdr & 0xffff) as u16) >> 4,
        word1: v.rd32(slot_addr((BA_BITMAP + 4) as u32, q)),
        word0: v.rd32(slot_addr(BA_BITMAP, q)),
    }
}

/// Reads the slot's block ack.
pub fn hal_mac_tx_get_blockack(m: &Mem, q: i32) -> (r: BlockAck)
    ensures
        r == block_ack_of(m@, q as u32),
{
    let hdr = rd(m, perslot(BA_BITMAP + 8, q as u32));
    let word1 = rd(m, perslot(BA_BITMAP + 4, q as u32));
    let word0 = rd(m, perslot(BA_BITMAP, q as u32));
    BlockAck {
        frag: ((hdr >> 0x10) & 0xf) as u8,
        seq: ((hdr & 0xffff) as u16) >> 4,
        word1,
        word0,
    }
}

/// Programs the 6-bit minimum TX power (bits 4-9).
pub fn hal_set_tx_min_pwr(m: &mut Mem, pwr: u32)
    ensures
        final(m)@ == old(m)@.rmw32(TX_MIN_PWR, 0xffff_fc0f, (pwr & 0x3f) << 4),
{
    rmw(m, TX_MIN_PWR, 0xffff_fc0f, (pwr & 0x3f) << 4);
}

/// The TX power table in flash: two signed bytes per rate.
pub const TX_PWR_TABLE: u32 = 0x4208_3134;

/// A byte of a two's complement number.
pub open spec fn signed(b: u8) -> int {
    if b < 0x80 {
        b as int
    } else {
        b - 0x100
    }
}

/// The row of the power table for a rate: the rates above 0x19 share the rows ten below.
pub open spec fn pwr_row(rate: u32) -> u32 {
    if rate > 0x19 {
        (rate - 0xa) as u32
    } else {
        rate
    }
}

/// Looks up the signed maximum TX power of a rate.
pub fn hal_get_tx_pwr(m: &Mem, idx: u32) -> (r: i32)
    ensures
        r == signed(m@.rd8(TX_PWR_TABLE.wrapping_add(pwr_row(idx).wrapping_mul(2)))),
{
    let i = if idx > 0x19 { idx - 0xa } else { idx };
    let b = rd8(m, TX_PWR_TABLE.wrapping_add(i.wrapping_mul(2)));
    if b < 0x80 {
        b as i32
    } else {
        b as i32 - 0x100
    }
}

/// A byte of the power table, sign extended to a word.
pub open spec fn pwr_word(v: MemView, off: u32) -> u32 {
    let b = v.rd8(TX_PWR_TABLE.wrapping_add(off));
    if b < 0x80 {
        b as u32
    } else {
        (b + 0xffff_ff00) as u32
    }
}

pub(crate) fn pwr_byte(m: &Mem, off: u32) -> (r: u32)
    ensures
        r == pwr_word(m@, off),
{
    let b = rd8(m, TX_PWR_TABLE.wrapping_add(off));
    if b < 0x80 {
        b as u32
    } else {
        b as u32 + 0xffff_ff00
    }
}

/// The slot's PMD word without bit 24; its top nibble counts the completed TXOP subframes.
pub fn hal_mac_get_txq_pmd(m: &Mem, q: i32) -> (r: u32)
    ensures
        r == m@.rd32(slot_addr(PMD, q as u32)) & 0xfeff_ffff,
{
    rd(m, mac_reg::pmd(q as u32)) & 0xfeff_ffff
}

/// The address space after the first antenna pass over slots 0 to `n - 1`, which clears bits 0-2 of
/// each RESP_DUR.
pub open spec fn antenna_pass1(v: MemView, n: nat) -> MemView
    decreases n,
{
    if n == 0 {
        v
    } else {
        antenna_pass1(v, (n - 1) as nat).and32(slot_addr(RESP_DUR, (n - 1) as u32), 0xffff_fff8)
    }
}

/// The address space after the second antenna pass over slots 0 to `n - 1`, which clears bits 3 and
/// 4 and sets bit 5 of each RESP_DUR.
pub open spec fn antenna_pass2(v: MemView, n: nat) -> MemView
    decreases n,
{
    if n == 0 {
        v
    } else {
        let a = slot_addr(RESP_DUR, (n - 1) as u32);
        antenna_pass2(v, (n - 1) as nat).and32(a, 0xffff_fff7).or32(a, 0x20).and32(a, 0xffff_ffef)
    }
}

/// Resets the antenna/PHY select fields of every slot and of the global register.
pub fn hal_attenna_init(m: &mut Mem)
    ensures
        final(m)@ == antenna_pass2(antenna_pass1(old(m)@, SLOTS as nat), SLOTS as nat).rmw32(
            ATTENNA_GLOBAL,
            0xffff_fff8,
            0x20,
        ),
{
    let ghost v0 = m@;
    let mut a: u32 = RESP_DUR;
    let mut n: u32 = 0;
    while a != RESP_DUR_BLOCK_END
        invariant
            n <= SLOTS,
            a == RESP_DUR - n * SLOT_STRIDE,
            m@ == antenna_pass1(v0, n as nat),
        decreases SLOTS - n,
    {
        mask(m, a, 0xffff_fff8);
        a = a.wrapping_sub(SLOT_STRIDE);
        n = n + 1;
    }
    let ghost v1 = m@;
    a = RESP_DUR;
    n = 0;
    while a != RESP_DUR_BLOCK_END
        invariant
            n <= SLOTS,
            a == RESP_DUR - n * SLOT_STRIDE,
            m@ == antenna_pass2(v1, n as nat),
        decreases SLOTS - n,
    {
        mask(m, a, 0xffff_fff7);
        set_bits(m, a, 0x20);
        mask(m, a, 0xffff_ffef);
        a = a.wrapping_sub(SLOT_STRIDE);
        n = n + 1;
    }
    rmw(m, ATTENNA_GLOBAL, 0xffff_fff8, 0x20);
}

/// The result of a transmission as the completion registers report it.
#[derive(Clone, Copy, Debug)]
pub struct TxqComplete {
    /// Sub-status; state (high nibble, 0 = success) and error (low nibble); PMD bits 16-23; PMD
    /// bits 25-26; trigger-based send count; aux bits 16-23.
    pub res: [u8; 6],
    /// Block-ack and trigger-based information, where it was asked for.
    pub aux: Option<[u32; 2]>,
    /// The frame whose MPDU length bitmap is to be torn down.
    pub teardown: Option<Eb>,
}

/// The first aux word: bits 16-19 of `e0` on top, bits 25-31 of `d0` in bits 21-27, and bits 13-20
/// of `d0` in place.
pub open spec fn aux_word0(e0: u32, d0: u32) -> u32 {
    ((e0 >> 0x10) << 0x1c) | (d0 & 0xfe000) | (d0 & 0x10_0000) | ((d0 >> 0x19) << 0x15)
}

/// The second aux word: bits 20 and 21 of `e0` in bits 0 and 1, bits 7-13 of `f4` in bits 2-8.
pub open spec fn aux_word1(e0: u32, f4: u32) -> u32 {
    ((e0 >> 0x14) & 2) | ((e0 >> 0x14) & 1) | ((f4 >> 5) & 0x1fc)
}

/// State and error of a completion word: bits 12-15 and bits 8-11.
pub open spec fn status_byte(w: u32) -> u8 {
    (((w >> 0xc) & 0xf) as u8) << 4 | (((w >> 8) & 0xf) as u8)
}

/// The aux words in the registers of queue `q`.
pub open spec fn aux_of(v: MemView, q: u32) -> Seq<u32> {
    let e0 = v.rd32(slot_addr(AUX_54E0, q));
    let d0 = v.rd32(slot_addr(AUX_54D0, q));
    let f4 = v.rd32(slot_addr(AUX_54F4, q));
    seq![aux_word0(e0, d0), aux_word1(e0, f4)]
}

/// The six result bytes in the registers of queue `q`. After a trigger-based transmission (`tb`) the
/// status comes from the aux register, with the send count in its bits 24-30 as a signed number;
/// otherwise from PMD.
pub open spec fn result_of(v: MemView, q: u32, tb: bool) -> Seq<u8> {
    let pmd = v.rd32(slot_addr(PMD, q));
    let aux = v.rd32(slot_addr(AUX_54EC, q));
    let w = if tb {
        aux
    } else {
        pmd
    };
    let count = ((aux >> 0x18) & 0x7f) as u8;
    seq![
        (w & 0xff) as u8,
        status_byte(w),
        ((pmd >> 0x10) & 0xff) as u8,
        ((pmd >> 0x19) & 3) as u8,
        if !tb {
            0u8
        } else if (aux >> 0x18) & 0x40 == 0 {
            count
        } else {
            (count + 0x80) as u8
        },
        ((aux >> 0x10) & 0xff) as u8,
    ]
}

/// Whether the completion of queue `q` is that of a trigger-based transmission: there is a control
/// block and an aux request, and bit 20 of the first aux word is set.
pub open spec fn is_trigger_based(v: MemView, has_ctx: bool, q: u32, want_aux: bool) -> bool {
    has_ctx && want_aux && (aux_of(v, q)[0] & 0x10_0000) != 0
}

/// The frame whose MPDU length bitmap is to be torn down: the armed one, unless bit 2 of the skip
/// flags is set.
pub open spec fn teardown_of(v: MemView, ctx: Option<LmacTxq>) -> Option<Eb> {
    match ctx {
        Some(txq) => if (txq.skip_flags_in(v) & 4) != 0 || txq.cur_eb_in(v).0 == 0 {
            None
        } else {
            Some(txq.cur_eb_in(v))
        },
        None => None,
    }
}

/// Decodes the completion registers of queue `q`, each as the image holds it.
pub fn hal_mac_get_txq_complete(
    m: &Mem,
    ctx: Option<LmacTxq>,
    q: i32,
    want_aux: bool,
) -> (r: TxqComplete)
    ensures
        r.res@ == result_of(m@, q as u32, is_trigger_based(m@, ctx is Some, q as u32, want_aux)),
        r.aux is Some == want_aux,
        want_aux ==> r.aux->0@ == aux_of(m@, q as u32),
        r.teardown == teardown_of(m@, ctx),
{
    let slot = q as u32;
    let mut aux_out: Option<[u32; 2]> = None;
    let mut tb = false;
    if want_aux {
        let e0 = rd(m, perslot(AUX_54E0, slot));
        let d0 = rd(m, perslot(AUX_54D0, slot));
        let f4 = rd(m, perslot(AUX_54F4, slot));
        let w0 = ((e0 >> 0x10) << 0x1c) | (d0 & 0xfe000) | (d0 & 0x10_0000) | ((d0 >> 0x19) << 0x15);
        let w1 = ((e0 >> 0x14) & 2) | ((e0 >> 0x14) & 1) | ((f4 >> 5) & 0x1fc);
        aux_out = Some([w0, w1]);
        tb = ctx.is_some() && (w0 & 0x10_0000) != 0;
    }
    let pmd = rd(m, perslot(PMD, slot));
    let aux = rd(m, perslot(AUX_54EC, slot));
    let w = if tb { aux } else { pmd };
    let count = ((aux >> 0x18) & 0x7f) as u8;
    proof {
        lemma_state_nibble(aux >> 0x18);
    }
    let sent: u8 = if !tb {
        0
    } else if (aux >> 0x18) & 0x40 == 0 {
        count
    } else {
        count + 0x80
    };
    let res = [
        (w & 0xff) as u8,
        (((w >> 0xc) & 0xf) as u8) << 4 | (((w >> 8) & 0xf) as u8),
        ((pmd >> 0x10) & 0xff) as u8,
        ((pmd >> 0x19) & 3) as u8,
        sent,
        ((aux >> 0x10) & 0xff) as u8,
    ];
    let mut teardown: Option<Eb> = None;
    if let Some(txq) = ctx {
        let eb = txq.cur_eb(m);
        if (txq.skip_flags(m) & 4) == 0 && !eb.is_null() {
            teardown = Some(eb);
        }
    }
    TxqComplete { res, aux: aux_out, teardown }
}

/// Tears down the MPDU length bitmap of a frame. Only trigger-based aggregates have one, so there is
/// nothing to do for the frames that this driver builds.
pub fn hal_mac_tx_clr_mplen(m: &mut Mem, eb: Eb, q: i32)
    ensures
        final(m)@ == old(m)@,
{
}

/// A PPDU build: done, or waiting for the vendor firmware to fill in what only it can.
#[derive(Clone, Copy, Debug, PartialEq, Eq, Structural)]
pub enum Ppdu {
    /// The slot is programmed.
    Done,
    /// The HE SIG fields are to be filled in.
    HeSig { eb: Eb, slot: u32, power: u32 },
    /// The HT SIG fields are to be filled in.
    HtSig { eb: Eb, slot: u32, power: u32 },
    /// The hardware TXOP fields of an aggregated MPDU are to be filled in.
    Txop { fill: TxopFill, txinfo: TxInfo, slot: u32, power: u32 },
}

/// The response-power half of the rate/duration word: the two bytes of the response rate's row.
pub open spec fn response_power(v: MemView, rate: u8) -> u32 {
    let row = rts_rate(rate as int) as u32;
    (pwr_word(v, row.wrapping_mul(2)) << 16) | (pwr_word(v, row.wrapping_mul(2).wrapping_add(1))
        << 24)
}

/// The address space after the part of the PPDU build that every frame has: PLCP0, protection,
/// PLCP1, and CONF1_REAL bit 3 clear.
pub open spec fn ppdu_head(v: MemView, txq: LmacTxq) -> MemView {
    let v1 = plcp1_set(plcp0_set(v, txq), txq);
    v1.and32(conf_addr(CONF1_REAL, txq.slot_in(v1)), 0xffff_fff7)
}

/// Whether a rate is an HT/HE one.
pub open spec fn is_ht(rate: u8) -> bool {
    0x10 <= rate <= 0x23
}

/// What is left of the build of a DSSS/OFDM frame once its TXOP registers are set: the
/// rate/duration word and the PTI.
pub open spec fn ppdu_legacy_tail(
    v: MemView,
    txq: LmacTxq,
    txinfo: TxInfo,
    slot: u32,
    power: u32,
) -> MemView {
    pti_set(
        v.st32(
            slot_addr(PLCP_RATE_DUR, slot),
            pwr_word(v, (txinfo.rate_in(v) as u32).wrapping_mul(2)) | power,
        ),
        txq,
    )
}

/// What is left of the build of an HT/HE frame once its SIG fields are filled in.
pub open spec fn ppdu_sig_tail(v: MemView, txq: LmacTxq, eb: Eb, slot: u32, power: u32) -> MemView {
    let row = pwr_row(eb.txinfo_in(v).rate_in(v) as u32).wrapping_mul(2);
    pti_set(
        v.st32(
            slot_addr(PLCP_RATE_DUR, slot),
            (pwr_word(v, row.wrapping_add(1)) << 8) | (pwr_word(v, row) | power),
        ),
        txq,
    )
}

/// The PPDU build from its start: the address space and where the build stands. A DSSS/OFDM frame
/// without further MPDUs is done at once.
pub open spec fn ppdu_begun(v: MemView, txq: LmacTxq, instances: u32) -> (MemView, Ppdu) {
    let eb = txq.cur_eb_in(v);
    let v1 = plcp1_set(plcp0_set(v, txq), txq);
    let slot = txq.slot_in(v1);
    let v2 = ppdu_head(v, txq);
    let txinfo = eb.txinfo_in(v2);
    let rate = txinfo.rate_in(v2);
    let power = response_power(v2, rate);
    if is_ht(rate) {
        (
            v2,
            if txinfo.flags_in(v2) >= 0x8000_0000 {
                Ppdu::HeSig { eb, slot, power }
            } else {
                Ppdu::HtSig { eb, slot, power }
            },
        )
    } else {
        let v3 = len_set(v2, txq, instances);
        let v4 = txop_regs_set(v3, txq);
        match txop_first_fill(v3, txq) {
            Some(fill) => (v4, Ppdu::Txop { fill, txinfo, slot, power }),
            None => (ppdu_legacy_tail(v4, txq, txinfo, slot, power), Ppdu::Done),
        }
    }
}

/// The PPDU build after the vendor firmware has done what `p` waited for.
pub open spec fn ppdu_resumed(v: MemView, txq: LmacTxq, p: Ppdu) -> (MemView, Ppdu) {
    match p {
        Ppdu::Done => (v, Ppdu::Done),
        Ppdu::HeSig { eb, slot, power } => (ppdu_sig_tail(v, txq, eb, slot, power), Ppdu::Done),
        Ppdu::HtSig { eb, slot, power } => (ppdu_sig_tail(v, txq, eb, slot, power), Ppdu::Done),
        Ppdu::Txop { fill, txinfo, slot, power } => match txop_next_fill(v, txq, fill) {
            Some(next) => (v, Ppdu::Txop { fill: next, txinfo, slot, power }),
            None => (ppdu_legacy_tail(v, txq, txinfo, slot, power), Ppdu::Done),
        },
    }
}

fn finish_legacy(m: &mut Mem, ctx: u32, txinfo: TxInfo, slot: u32, power: u32)
    ensures
        final(m)@ == ppdu_legacy_tail(old(m)@, LmacTxq(ctx), txinfo, slot, power),
{
    let rate = txinfo.rate(m) as u32;
    let p = pwr_byte(m, rate.wrapping_mul(2));
    wr(m, mac_reg::plcp_rate_dur(slot), p | power);
    cr_mac_tx_set_pti(m, ctx);
}

fn finish_sig(m: &mut Mem, ctx: u32, eb: Eb, slot: u32, power: u32)
    ensures
        final(m)@ == ppdu_sig_tail(old(m)@, LmacTxq(ctx), eb, slot, power),
{
    let rate = eb.txinfo(m).rate(m) as u32;
    let idx = if rate > 0x19 { rate - 0xa } else { rate };
    let row = idx.wrapping_mul(2);
    let c1 = pwr_byte(m, row);
    let c2 = pwr_byte(m, row.wrapping_add(1));
    wr(m, mac_reg::plcp_rate_dur(slot), (c2 << 8) | (c1 | power));
    cr_mac_tx_set_pti(m, ctx);
}

/// Programs the slot for the armed frame. `instances` is the base of the lmac control array.
pub fn hal_mac_tx_set_ppdu(m: &mut Mem, ctx: u32, instances: u32) -> (r: Ppdu)
    ensures
        (final(m)@, r) == ppdu_begun(old(m)@, LmacTxq(ctx), instances),
{
    let txq = LmacTxq::from_ctx(ctx);
    let eb = txq.cur_eb(m);
    mac_tx_set_plcp0(m, ctx);
    mac_tx_set_plcp1(m, ctx);
    let slot = txq.slot(m);
    mask(m, mac_reg::conf1_real(slot), 0xffff_fff7);
    let txinfo = eb.txinfo(m);
    let rate = txinfo.rate(m);
    let row = cr_mac_tx_get_rts_rate(rate as i32) as u32;
    let power = (pwr_byte(m, row.wrapping_mul(2)) << 16) | (pwr_byte(
        m,
        row.wrapping_mul(2).wrapping_add(1),
    ) << 24);
    if 0x10 <= rate && rate <= 0x23 {
        if txinfo.flags(m) >= 0x8000_0000 {
            Ppdu::HeSig { eb, slot, power }
        } else {
            Ppdu::HtSig { eb, slot, power }
        }
    } else {
        cr_mac_tx_set_len(m, ctx, instances);
        match mac_tx_set_txop_q(m, ctx) {
            Some(fill) => Ppdu::Txop { fill, txinfo, slot, power },
            None => {
                finish_legacy(m, ctx, txinfo, slot, power);
                Ppdu::Done
            },
        }
    }
}

/// Goes on with a PPDU build after the vendor firmware has done what `p` waited for.
pub fn hal_mac_tx_resume_ppdu(m: &mut Mem, ctx: u32, p: Ppdu) -> (r: Ppdu)
    ensures
        (final(m)@, r) == ppdu_resumed(old(m)@, LmacTxq(ctx), p),
{
    match p {
        Ppdu::Done => Ppdu::Done,
        Ppdu::HeSig { eb, slot, power } => {
            finish_sig(m, ctx, eb, slot, power);
            Ppdu::Done
        },
        Ppdu::HtSig { eb, slot, power } => {
            finish_sig(m, ctx, eb, slot, power);
            Ppdu::Done
        },
        Ppdu::Txop { fill, txinfo, slot, power } => {
            match mac_tx_next_txop_fill(m, ctx, fill) {
                Some(next) => Ppdu::Txop { fill: next, txinfo, slot, power },
                None => {
                    finish_legacy(m, ctx, txinfo, slot, power);
                    Ppdu::Done
                },
            }
        },
    }
}

} // verus!
