//! What the queue operations read from the registers and write to them.
use crate::bits::{high_bits, low_bits};
use crate::hal_mac_tx::{
    aux_of, block_ack_of, is_trigger_based, ppdu_legacy_tail, ppdu_sig_tail, pwr_row, pwr_word,
    response_power, result_of, signed, teardown_of, txq_state, txq_state_cleared,
};
use crate::layout::{Eb, LmacTxq, TxInfo};
use crate::mac_reg::{
    register_blocks_apart, slot_addr, slot_registers_apart, CONF1, PLCP_RATE_DUR, PTI, SLOTS,
};
use crate::mmio::{apart, MemView};
use crate::pipeline::{completed, completion_status, has_control_block, DriverView};
use crate::rates::rts_rate;
use vstd::prelude::*;

verus! {

proof fn lemma_completion_bits(e0: u32, d0: u32, f4: u32, w: u32)
    by (bit_vector)
    ensures
        ({
            let a = ((e0 >> 0x10) << 0x1c) | (d0 & 0xfe000) | (d0 & 0x10_0000) | ((d0 >> 0x19)
                << 0x15);
            let b = ((e0 >> 0x14) & 2) | ((e0 >> 0x14) & 1) | ((f4 >> 5) & 0x1fc);
            &&& a >> 28 == (e0 >> 16) & 0xf
            &&& (a >> 21) & 0x7f == d0 >> 25
            &&& a & 0x1f_e000 == d0 & 0x1f_e000
            &&& a & 0x1fff == 0
            &&& a & 0x10_0000 == d0 & 0x10_0000
            &&& b & 3 == (e0 >> 20) & 3
            &&& (b >> 2) & 0x7f == (f4 >> 7) & 0x7f
            &&& b >> 9 == 0
        }),
        ({
            let s = (((w >> 0xc) & 0xf) as u8) << 4 | (((w >> 8) & 0xf) as u8);
            s >> 4 == ((w >> 12) & 0xf) as u8 && s & 0xf == ((w >> 8) & 0xf) as u8 && (s >> 4) & 0xf
                == s >> 4
        }),
        (w >> 24) & 0x7f <= 0x7f,
        ((w & 0xffff) as u16) >> 4 == ((w & 0xffff) >> 4) as u16,
        (w & 0xffff) >> 4 <= 0xfff,
        ((w >> 24) & 0x40 == 0) == ((w >> 24) & 0x7f < 0x40),
{
}

/// The result bytes of a completion. Bit 20 of the queue's register 0x600a54d0 marks a trigger-based
/// transmission; it counts where there is a control block and the aux words were asked for. Then the
/// first two bytes come from the register 0x600a54ec, otherwise from PMD (0x600a54e8): its low byte,
/// then the state (bits 12-15) over the error (bits 8-11). The next two are bits 16-23 and 25-26 of PMD,
/// and the last is bits 16-23 of 0x600a54ec. The fifth is the trigger-based send count, bits 24-30 of
/// 0x600a54ec as a signed number of 7 bits, and 0 otherwise.
pub proof fn completion_result(v: MemView, q: u32, has_ctx: bool, want_aux: bool)
    requires
        q < 0x10,
    ensures
        ({
            let r = result_of(v, q, is_trigger_based(v, has_ctx, q, want_aux));
            let d0 = v.rd32((0x600a_54d0 - 0x74 * q) as u32);
            let pmd = v.rd32((0x600a_54e8 - 0x74 * q) as u32);
            let ec = v.rd32((0x600a_54ec - 0x74 * q) as u32);
            let tb = has_ctx && want_aux && d0 & 0x10_0000 != 0;
            let w = if tb {
                ec
            } else {
                pmd
            };
            let count = (ec >> 24) & 0x7f;
            &&& r.len() == 6
            &&& r[0] == w & 0xff
            &&& r[1] >> 4 == (w >> 12) & 0xf
            &&& r[1] & 0xf == (w >> 8) & 0xf
            &&& r[2] == (pmd >> 16) & 0xff
            &&& r[3] == (pmd >> 25) & 3
            &&& !tb ==> r[4] == 0
            &&& tb && count < 0x40 ==> r[4] == count
            &&& tb && count >= 0x40 ==> r[4] == count + 0x80
            &&& r[5] == (ec >> 16) & 0xff
        }),
{
    let e0 = v.rd32((0x600a_54e0 - 0x74 * q) as u32);
    let d0 = v.rd32((0x600a_54d0 - 0x74 * q) as u32);
    let f4 = v.rd32((0x600a_54f4 - 0x74 * q) as u32);
    let pmd = v.rd32((0x600a_54e8 - 0x74 * q) as u32);
    let ec = v.rd32((0x600a_54ec - 0x74 * q) as u32);
    crate::mac_reg::register_map(q);
    lemma_completion_bits(e0, d0, f4, pmd);
    lemma_completion_bits(e0, d0, f4, ec);
    low_bits(pmd);
    low_bits(ec);
    low_bits(pmd >> 16);
    low_bits(pmd >> 25);
    low_bits(ec >> 16);
    low_bits(pmd >> 12);
    low_bits(pmd >> 8);
    low_bits(ec >> 12);
    low_bits(ec >> 8);
}

/// The aux words of a completion. The first has bits 16-19 of 0x600a54e0 on top, bits 25-31 of
/// 0x600a54d0 in bits 21-27, and bits 13-20 of 0x600a54d0 in place. The second has bits 20-21 of
/// 0x600a54e0 in bits 0-1 and bits 7-13 of 0x600a54f4 in bits 2-8. The other bits are 0.
pub proof fn completion_aux(v: MemView, q: u32)
    requires
        q < 0x10,
    ensures
        ({
            let e0 = v.rd32((0x600a_54e0 - 0x74 * q) as u32);
            let d0 = v.rd32((0x600a_54d0 - 0x74 * q) as u32);
            let f4 = v.rd32((0x600a_54f4 - 0x74 * q) as u32);
            let a = aux_of(v, q);
            &&& a.len() == 2
            &&& a[0] >> 28 == (e0 >> 16) & 0xf
            &&& (a[0] >> 21) & 0x7f == d0 >> 25
            &&& a[0] & 0x1f_e000 == d0 & 0x1f_e000
            &&& a[0] & 0x1fff == 0
            &&& a[1] & 3 == (e0 >> 20) & 3
            &&& (a[1] >> 2) & 0x7f == (f4 >> 7) & 0x7f
            &&& a[1] >> 9 == 0
        }),
{
    crate::mac_reg::register_map(q);
    lemma_completion_bits(
        v.rd32((0x600a_54e0 - 0x74 * q) as u32),
        v.rd32((0x600a_54d0 - 0x74 * q) as u32),
        v.rd32((0x600a_54f4 - 0x74 * q) as u32),
        0,
    );
}

/// The frame to tear down is the one that the control block holds, if it holds one, there is a control
/// block, and bit 2 of its skip flags is clear.
pub proof fn teardown_is_the_armed_frame(v: MemView, ctx: Option<LmacTxq>)
    ensures
        ctx is None ==> teardown_of(v, ctx) is None,
        ctx matches Some(txq) ==> {
            let eb = v.rd32(txq.0);
            let skip = v.rd8(txq.0.wrapping_add(0x28)) & 4 != 0;
            &&& skip || eb == 0 ==> teardown_of(v, ctx) is None
            &&& !skip && eb != 0 ==> teardown_of(v, ctx) == Some(Eb(eb))
        },
{
    if let Some(txq) = ctx {
        assert(txq.0.wrapping_add(0) == txq.0);
    }
}

/// The completion status of an AC is bits 12-15 of PMD unless bit 20 of 0x600a54d0 is set and the AC has
/// a control block; then it is bits 12-15 of 0x600a54ec.
pub proof fn completion_status_by_register(v: MemView, ac: i32)
    requires
        0 <= ac < 0x10,
    ensures
        ({
            let d0 = v.rd32((0x600a_54d0 - 0x74 * ac) as u32);
            let pmd = v.rd32((0x600a_54e8 - 0x74 * ac) as u32);
            let ec = v.rd32((0x600a_54ec - 0x74 * ac) as u32);
            let block = v.rd32(0x4004_ffe0).wrapping_add((ac * 0x34) as u32);
            &&& d0 & 0x10_0000 == 0 || block == 0 ==> completion_status(v, ac) == (pmd / 0x1000) % 0x10
            &&& d0 & 0x10_0000 != 0 && block != 0 ==> completion_status(v, ac) == (ec / 0x1000) % 0x10
        }),
{
    let q = ac as u32;
    let d0 = v.rd32((0x600a_54d0 - 0x74 * q) as u32);
    let pmd = v.rd32((0x600a_54e8 - 0x74 * q) as u32);
    let ec = v.rd32((0x600a_54ec - 0x74 * q) as u32);
    completion_result(v, q, has_control_block(v, ac), true);
    crate::layout_laws::pointer_cells(v, v.rd32(0x4004_ffe0), q);
    lemma_completion_bits(0, d0, 0, pmd);
    lemma_completion_bits(0, d0, 0, ec);
    crate::mac_reg::register_map(q);
    high_bits(pmd);
    high_bits(ec);
    low_bits(pmd >> 12);
    low_bits(ec >> 12);
    low_bits(pmd >> 8);
    low_bits(ec >> 8);
}

/// A completion counts its status once and no other, gives the buffer back to the pool, and changes
/// nothing else of the driver.
pub proof fn completion_counts_its_status(d: DriverView, status: u8, eb: Eb, k: int)
    requires
        d.status.len() == 16,
        status < 16,
        0 <= k < 16,
    ensures
        ({
            let e = completed(d, status, eb);
            &&& e.status.len() == 16
            &&& k == status ==> e.status[k] == d.status[k].wrapping_add(1)
            &&& k != status ==> e.status[k] == d.status[k]
            &&& d.cfg.cr_pool_enabled ==> e.pool == d.pool.recycled(eb)
            &&& !d.cfg.cr_pool_enabled ==> e.pool == d.pool
            &&& e.cfg == d.cfg && e.cells == d.cells && e.mib == d.mib && e.pm == d.pm
            &&& e.rng == d.rng && e.ab_use_vendor == d.ab_use_vendor
        }),
{
}

/// The state of queue 0 is bits 0-3 of 0x600a4cb0, that of queue 1 bits 16-19 of it, and that of queue 2
/// bits 0-3 of 0x600a4cb8; any other queue has state 0.
pub proof fn queue_states(v: MemView, ac: i32)
    ensures
        txq_state(v, 0) == v.rd32(0x600a_4cb0) % 0x10,
        txq_state(v, 1) == (v.rd32(0x600a_4cb0) / 0x1_0000) % 0x10,
        txq_state(v, 2) == v.rd32(0x600a_4cb8) % 0x10,
        ac < 0 || ac > 2 ==> txq_state(v, ac) == 0,
{
    low_bits(v.rd32(0x600a_4cb0));
    high_bits(v.rd32(0x600a_4cb0));
    low_bits(v.rd32(0x600a_4cb0) >> 16);
    low_bits(v.rd32(0x600a_4cb8));
}

proof fn lemma_one_bit(w: u32, k: u32, i: u32)
    by (bit_vector)
    requires
        k < 32,
        i < 32,
    ensures
        ((1u32 << k) >> i) & 1 == (if i == k {
            1u32
        } else {
            0u32
        }),
        ((w | (1u32 << k)) >> i) & 1 == (if i == k {
            1u32
        } else {
            (w >> i) & 1
        }),
{
}

/// Clearing a state writes the queue's bit alone: of kind 0 and 1 (bits 16 and up) to 0x600a4cac, of
/// kind 2 on top of what 0x600a4cb4 holds. It is one store, and none for any other kind.
pub proof fn state_is_cleared_by_its_bit(v: MemView, kind: i32, bit: u32, i: u32, a: u32)
    requires
        i < 32,
    ensures
        ({
            let w = txq_state_cleared(v, kind, bit);
            let wa = w.rd32(0x600a_4cac);
            let wb = w.rd32(0x600a_4cb4);
            &&& kind == 0 ==> (wa >> i) & 1 == (if i == bit % 32 {
                1u32
            } else {
                0
            })
            &&& kind == 1 ==> (wa >> i) & 1 == (if i == (bit + 16) % 32 {
                1u32
            } else {
                0
            })
            &&& kind == 2 ==> (wb >> i) & 1 == (if i == bit % 32 {
                1
            } else {
                (v.rd32(0x600a_4cb4) >> i) & 1
            })
            &&& kind < 0 || kind > 2 ==> w == v
            &&& 0 <= kind <= 2 ==> w.log.len() == v.log.len() + 1
            &&& kind == 2 && apart(0x600a_4cb4, 4, a, 1) ==> w.rd8(a) == v.rd8(a)
            &&& kind != 2 && apart(0x600a_4cac, 4, a, 1) ==> w.rd8(a) == v.rd8(a)
        }),
{
    broadcast use {crate::mem_laws::group_loads, crate::mem_laws::group_log};

    let k = bit & 0x1f;
    let l = bit.wrapping_add(16) & 0x1f;
    assert(k == bit % 32 && l == (bit + 16) % 32) by {
        low_bits(bit);
        low_bits(bit.wrapping_add(16));
    }
    lemma_one_bit(v.rd32(0x600a_4cb4), k, i);
    lemma_one_bit(0, l, i);
}

/// A block ack: the sequence number is bits 4-15 and the fragment number bits 16-19 of 0x600a54dc, and
/// the bitmap words are 0x600a54d4 and 0x600a54d8.
pub proof fn block_ack_fields(v: MemView, q: u32)
    requires
        q < 0x10,
    ensures
        ({
            let hdr = v.rd32((0x600a_54dc - 0x74 * q) as u32);
            let b = block_ack_of(v, q);
            &&& b.seq == (hdr % 0x1_0000) / 0x10
            &&& b.frag == (hdr / 0x1_0000) % 0x10
            &&& b.word0 == v.rd32((0x600a_54d4 - 0x74 * q) as u32)
            &&& b.word1 == v.rd32((0x600a_54d8 - 0x74 * q) as u32)
        }),
{
    let hdr = v.rd32((0x600a_54dc - 0x74 * q) as u32);
    low_bits(hdr);
    high_bits(hdr);
    low_bits(hdr >> 16);
    high_bits(hdr & 0xffff);
    lemma_completion_bits(0, 0, 0, hdr);
}

/// The maximum power of a rate is the first byte of its row in the table at 0x42083134, as a signed
/// number. A row has two bytes; the rates above 0x19 share the rows ten below.
pub proof fn power_of_a_rate(v: MemView, idx: u32)
    requires
        idx < 0x1_0000,
    ensures
        ({
            let row: int = if idx <= 0x19 {
                idx as int
            } else {
                idx - 10
            };
            let b = v.rd8((0x4208_3134 + 2 * row) as u32);
            let p = signed(v.rd8(0x4208_3134u32.wrapping_add(pwr_row(idx).wrapping_mul(2))));
            &&& crate::hal_mac_tx::TX_PWR_TABLE == 0x4208_3134
            &&& b < 0x80 ==> p == b
            &&& b >= 0x80 ==> p == b - 0x100
        }),
{
}

proof fn lemma_power_bits(a: u32, b: u32, p: u32)
    by (bit_vector)
    requires
        a <= 0xff,
        b <= 0xff,
    ensures
        ({
            let x = if a < 0x80 {
                a
            } else {
                (a + 0xffff_ff00u32) as u32
            };
            let y = if b < 0x80 {
                b
            } else {
                (b + 0xffff_ff00u32) as u32
            };
            let r = (x << 16) | (y << 24);
            let l = x | p;
            let s = (y << 8) | (x | p);
            &&& r & 0xffff == 0
            &&& (r >> 16) & 0xff == a
            &&& r >> 24 == (if a >= 0x80 {
                0xffu32
            } else {
                b
            })
            &&& p & 0xffff == 0 ==> l & 0xff == a && s & 0xff == a
            &&& p & 0xffff == 0 ==> (l >> 8) & 0xff == (if a >= 0x80 {
                0xffu32
            } else {
                0u32
            })
            &&& p & 0xffff == 0 ==> (s >> 8) & 0xff == (if a >= 0x80 {
                0xffu32
            } else {
                b
            })
            &&& p & 0xffff == 0 ==> l >> 16 == (if a >= 0x80 {
                0xffffu32
            } else {
                p >> 16
            })
            &&& p & 0xffff == 0 ==> s >> 16 == (if a >= 0x80 || b >= 0x80 {
                0xffffu32
            } else {
                p >> 16
            })
        }),
{
}

/// The response half of the rate/duration word has the two bytes of the response rate's row in bits
/// 16-23 and 24-31, the first with its sign over the second, and nothing below.
pub proof fn response_power_bytes(v: MemView, rate: u8)
    ensures
        ({
            let row = rts_rate(rate as int);
            let a = v.rd8((0x4208_3134 + 2 * row) as u32);
            let b = v.rd8((0x4208_3135 + 2 * row) as u32);
            let p = response_power(v, rate);
            &&& p & 0xffff == 0
            &&& (p >> 16) & 0xff == a
            &&& p >> 24 == (if a >= 0x80 {
                0xffu8
            } else {
                b
            })
        }),
{
    let row = rts_rate(rate as int);
    let a = v.rd8((0x4208_3134 + 2 * row) as u32);
    let b = v.rd8((0x4208_3135 + 2 * row) as u32);
    lemma_power_bits(a as u32, b as u32, 0);
}

/// The rate/duration word of a DSSS/OFDM frame has the first byte of its rate's row in bits 0-7, its
/// sign in bits 8-15, and the response half above, which the sign covers too.
pub proof fn legacy_rate_word(
    v: MemView,
    txq: LmacTxq,
    txinfo: TxInfo,
    slot: u32,
    power: u32,
)
    requires
        slot < SLOTS,
        txq.slot_in(v) < SLOTS,
        0 < txq.0 < 0x5000_0000,
        power & 0xffff == 0,
    ensures
        ({
            let a = v.rd8((0x4208_3134 + 2 * txinfo.rate_in(v)) as u32);
            let w = ppdu_legacy_tail(v, txq, txinfo, slot, power).rd32(
                (0x600a_54ac - 0x74 * slot) as u32,
            );
            &&& w & 0xff == a
            &&& (w >> 8) & 0xff == (if a >= 0x80 {
                0xffu32
            } else {
                0
            })
            &&& w >> 16 == (if a >= 0x80 {
                0xffffu32
            } else {
                power >> 16
            })
        }),
{
    broadcast use crate::mem_laws::group_loads;

    let s = txq.slot_in(v);
    crate::mac_reg::register_map(slot);
    slot_registers_apart(PLCP_RATE_DUR, slot, PTI, s);
    register_blocks_apart(CONF1, s, PLCP_RATE_DUR, slot, crate::mac_reg::SYS_TIMER);
    lemma_power_bits(v.rd8((0x4208_3134 + 2 * txinfo.rate_in(v)) as u32) as u32, 0, power);
    let x = pwr_word(v, (txinfo.rate_in(v) as u32).wrapping_mul(2)) | power;
    let v1 = v.st32(slot_addr(PLCP_RATE_DUR, slot), x);
    assert(txq.slot_in(v1) == s);
}

/// The rate/duration word of an HT/HE frame has both bytes of its rate's row in bits 0-7 and 8-15, and
/// the response half above; the sign of a byte covers all that is above it.
pub proof fn sig_rate_word(v: MemView, txq: LmacTxq, eb: Eb, slot: u32, power: u32)
    requires
        slot < SLOTS,
        txq.slot_in(v) < SLOTS,
        0 < txq.0 < 0x5000_0000,
        power & 0xffff == 0,
    ensures
        ({
            let rate = eb.txinfo_in(v).rate_in(v);
            let row: int = if rate <= 0x19 {
                rate as int
            } else {
                rate - 10
            };
            let a = v.rd8((0x4208_3134 + 2 * row) as u32);
            let b = v.rd8((0x4208_3135 + 2 * row) as u32);
            let w = ppdu_sig_tail(v, txq, eb, slot, power).rd32((0x600a_54ac - 0x74 * slot) as u32);
            &&& w & 0xff == a
            &&& (w >> 8) & 0xff == (if a >= 0x80 {
                0xffu8
            } else {
                b
            })
            &&& w >> 16 == (if a >= 0x80 || b >= 0x80 {
                0xffffu32
            } else {
                power >> 16
            })
        }),
{
    broadcast use crate::mem_laws::group_loads;

    let s = txq.slot_in(v);
    let rate = eb.txinfo_in(v).rate_in(v);
    let row: int = if rate <= 0x19 {
        rate as int
    } else {
        rate - 10
    };
    crate::mac_reg::register_map(slot);
    slot_registers_apart(PLCP_RATE_DUR, slot, PTI, s);
    register_blocks_apart(CONF1, s, PLCP_RATE_DUR, slot, crate::mac_reg::SYS_TIMER);
    let a = v.rd8((0x4208_3134 + 2 * row) as u32);
    let b = v.rd8((0x4208_3135 + 2 * row) as u32);
    lemma_power_bits(a as u32, b as u32, power);
    let r = pwr_row(rate as u32).wrapping_mul(2);
    let x = (pwr_word(v, r.wrapping_add(1)) << 8) | (pwr_word(v, r) | power);
    let v1 = v.st32(slot_addr(PLCP_RATE_DUR, slot), x);
    assert(txq.slot_in(v1) == s);
}

/// The response half of the rate/duration word of the interposed build, for any row that it is told.
pub proof fn row_power_bytes(v: MemView, row: u32)
    requires
        row < 0x1_0000,
    ensures
        ({
            let a = v.rd8((0x4208_3134 + 2 * row) as u32);
            let b = v.rd8((0x4208_3135 + 2 * row) as u32);
            let p = crate::interpose::row_power(v, row);
            &&& p & 0xffff == 0
            &&& (p >> 16) & 0xff == a
            &&& p >> 24 == (if a >= 0x80 {
                0xffu8
            } else {
                b
            })
        }),
{
    let a = v.rd8((0x4208_3134 + 2 * row) as u32);
    let b = v.rd8((0x4208_3135 + 2 * row) as u32);
    lemma_power_bits(a as u32, b as u32, 0);
}

} // verus!
