//! What a scheduled broadcast frame leaves in its slot.
use crate::eb_pool::EB_SIZE;
use crate::frame::FLAG_BROADCAST;
use crate::frame_laws::own_parts;
use crate::hal_mac_tx::{is_ht, ppdu_begun, ppdu_head, Ppdu};
use crate::layout::{instances_of, Eb, LmacTxq, PendingQ, TXRXCXT_PTR};
use crate::mac_reg::{
    conf_addr, conf_registers_apart, register_blocks_apart, slot_addr, CONF0, CONF1, CONF1_REAL,
    PLCP0_ENABLE, PLCP1, PLCP_RATE_DUR, PROT_THRESH, PTI, RESP_DUR, SLOTS, SLOT_ARM, SYS_TIMER,
    TXLEN,
};
use crate::mmio::{apart, MemView};
use crate::pending::{holds, poppable, popped};
use crate::pipeline::{
    arm_begun, armed, backoff_of, frame_taken, schedule_begun, xorshift, Arm, DriverView, Schedule,
    TIMEOUT_FLOOR,
};
use crate::slot::{
    edca_set, len_set, plcp0_set, plcp0_word, plcp0_written, plcp1_set, protection_of, pti_set,
    timeout_set, txop_regs_set,
};
use crate::slot_laws::{armed_in_ram, plcp0_word_does_not_arm, protection_keeps_plcp0};
use vstd::prelude::*;

verus! {

/// The end of what counts as memory: an object in RAM ends below it, and every register lies above.
pub const RAM_END: u32 = 0x5000_1000;

/// The start of the SRAM.
pub const SRAM_START: u32 = 0x4080_0000;

/// The end of the SRAM below the ROM's own cells.
pub const SRAM_END: u32 = 0x4087_f000;

/// The two address spaces hold the same memory; their registers may differ.
pub open spec fn same_ram(v: MemView, w: MemView) -> bool {
    &&& forall|a: u32| a < RAM_END ==> #[trigger] w.rd8(a) == v.rd8(a)
    &&& forall|a: u32| a < RAM_END ==> #[trigger] w.rd16(a) == v.rd16(a)
    &&& forall|a: u32| a < RAM_END ==> #[trigger] w.rd32(a) == v.rd32(a)
}

/// A store to a register changes that register and no memory.
proof fn lemma_register_store(v: MemView, a: u32, x: u32)
    requires
        0x6000_0000 <= a <= 0x7000_0000,
    ensures
        same_ram(v, v.st32(a, x)),
{
    broadcast use crate::mem_laws::group_loads;

}

proof fn lemma_register_range(base: u32, slot: u32)
    requires
        slot < SLOTS,
        0x600a_0000 <= base <= 0x600a_ffff,
    ensures
        0x6000_0000 <= conf_addr(base, slot) <= 0x7000_0000,
        0x6000_0000 <= slot_addr(base, slot) <= 0x7000_0000,
{
}

/// The slot's PLCP0_ENABLE register shares no byte with the other registers that a frame programs.
proof fn lemma_plcp0_apart(s: u32)
    requires
        s < SLOTS,
    ensures
        ({
            let a = conf_addr(PLCP0_ENABLE, s);
            &&& apart(conf_addr(CONF0, s), 4, a, 4)
            &&& apart(conf_addr(CONF1, s), 4, a, 4)
            &&& apart(conf_addr(CONF1_REAL, s), 4, a, 4)
            &&& apart(slot_addr(RESP_DUR, s), 4, a, 4)
            &&& apart(slot_addr(TXLEN, s), 4, a, 4)
            &&& apart(slot_addr(PLCP1, s), 4, a, 4)
            &&& apart(slot_addr(PLCP_RATE_DUR, s), 4, a, 4)
            &&& apart(slot_addr(PROT_THRESH, s), 4, a, 4)
            &&& apart(slot_addr(PTI, s), 4, a, 4)
        }),
{
    conf_registers_apart(CONF0, s, PLCP0_ENABLE, s);
    conf_registers_apart(CONF1, s, PLCP0_ENABLE, s);
    conf_registers_apart(CONF1_REAL, s, PLCP0_ENABLE, s);
    register_blocks_apart(PLCP0_ENABLE, s, RESP_DUR, s, SYS_TIMER);
    register_blocks_apart(PLCP0_ENABLE, s, TXLEN, s, SYS_TIMER);
    register_blocks_apart(PLCP0_ENABLE, s, PLCP1, s, SYS_TIMER);
    register_blocks_apart(PLCP0_ENABLE, s, PLCP_RATE_DUR, s, SYS_TIMER);
    register_blocks_apart(PLCP0_ENABLE, s, PROT_THRESH, s, SYS_TIMER);
    register_blocks_apart(PLCP0_ENABLE, s, PTI, s, SYS_TIMER);
}

/// The step from `v` to `w` changed no memory and not the slot's PLCP0_ENABLE register.
spec fn quiet(v: MemView, w: MemView, s: u32) -> bool {
    &&& same_ram(v, w)
    &&& w.rd32(conf_addr(PLCP0_ENABLE, s)) == v.rd32(conf_addr(PLCP0_ENABLE, s))
}

proof fn lemma_quiet_store(v: MemView, a: u32, x: u32, s: u32)
    requires
        s < SLOTS,
        0x6000_0000 <= a <= 0x7000_0000,
        apart(a, 4, conf_addr(PLCP0_ENABLE, s), 4),
    ensures
        quiet(v, v.st32(a, x), s),
{
    broadcast use crate::mem_laws::group_loads;

    lemma_register_store(v, a, x);
}

proof fn lemma_pti_quiet(v: MemView, txq: LmacTxq)
    requires
        txq.slot_in(v) < SLOTS,
    ensures
        quiet(v, pti_set(v, txq), txq.slot_in(v)),
{
    let ti = txq.cur_eb_in(v).txinfo_in(v);
    let p = ti.pti_in(v) as u32;
    let hi = ti.pti_hi_in(v) as u32;
    let s = txq.slot_in(v);
    let a = slot_addr(PTI, s);
    let c = conf_addr(CONF1, s);
    lemma_plcp0_apart(s);
    lemma_register_range(PTI, s);
    lemma_register_range(CONF1, s);
    let v1 = v.rmw32(c, 0x0fff_ffff, p << 0x1c);
    let v2 = v1.rmw32(a, 0xffff_0fff, (p << 0xc) & 0xf000);
    let v3 = v2.rmw32(a, 0xffff_f0ff, (p << 8) & 0xf00);
    let v4 = v3.rmw32(a, 0xffff_ff0f, (p << 4) & 0xf0);
    let v5 = v4.rmw32(a, 0xfff0_ffff, (p << 0x10) & 0xf_0000);
    lemma_quiet_store(v, c, (v.rd32(c) & 0x0fff_ffff) | p << 0x1c, s);
    lemma_quiet_store(v1, a, (v1.rd32(a) & 0xffff_0fff) | (p << 0xc) & 0xf000, s);
    lemma_quiet_store(v2, a, (v2.rd32(a) & 0xffff_f0ff) | (p << 8) & 0xf00, s);
    lemma_quiet_store(v3, a, (v3.rd32(a) & 0xffff_ff0f) | (p << 4) & 0xf0, s);
    lemma_quiet_store(v4, a, (v4.rd32(a) & 0xfff0_ffff) | (p << 0x10) & 0xf_0000, s);
    lemma_quiet_store(v5, a, (v5.rd32(a) & 0x000f_ffff) | hi << 0x14, s);
}

proof fn lemma_len_quiet(v: MemView, txq: LmacTxq, instances: u32)
    requires
        txq.slot_in(v) < SLOTS,
    ensures
        quiet(v, len_set(v, txq, instances), txq.slot_in(v)),
{
    let s = txq.slot_in(v);
    let ti = txq.cur_eb_in(v).txinfo_in(v);
    let ac_txq = LmacTxq::block(instances, ti.ac_in(v));
    lemma_plcp0_apart(s);
    lemma_register_range(RESP_DUR, s);
    lemma_register_range(TXLEN, s);
    let x = crate::slot::resp_dur_word(ti.rate_in(v), ti.word10_in(v), ac_txq.txlen_cbw_sel_in(v));
    let v1 = v.st32(slot_addr(RESP_DUR, s), x);
    lemma_quiet_store(v, slot_addr(RESP_DUR, s), x, s);
    assert forall|y: u32| quiet(v1, #[trigger] v1.st32(slot_addr(TXLEN, s), y), s) by {
        lemma_quiet_store(v1, slot_addr(TXLEN, s), y, s);
    }
}

proof fn lemma_txop_bits(w: u32)
    by (bit_vector)
    ensures
        (w | 0x40_0000u32) & 0xff00_0000u32 == w & 0xff00_0000u32,
        (w & 0xffbf_ffffu32) & 0xff00_0000u32 == w & 0xff00_0000u32,
        (w | 0x40_0000u32) & 0xfffffu32 == w & 0xfffffu32,
        (w & 0xffbf_ffffu32) & 0xfffffu32 == w & 0xfffffu32,
{
}

/// The TXOP registers touch no memory, and of PLCP0_ENABLE only the TXOP bit.
proof fn lemma_txop(v: MemView, txq: LmacTxq)
    requires
        armed_in_ram(v, txq),
    ensures
        ({
            let w = txop_regs_set(v, txq);
            let a = conf_addr(PLCP0_ENABLE, txq.slot_in(v));
            &&& same_ram(v, w)
            &&& w.rd32(a) & 0xff00_0000 == v.rd32(a) & 0xff00_0000
            &&& w.rd32(a) & 0xfffff == v.rd32(a) & 0xfffff
        }),
{
    broadcast use crate::mem_laws::group_loads;

    let s = txq.slot_in(v);
    let a = conf_addr(PLCP0_ENABLE, s);
    let dur = slot_addr(RESP_DUR, s);
    let c = conf_addr(CONF0, s);
    let depth = txq.txop_depth_in(v);
    lemma_plcp0_apart(s);
    lemma_register_range(RESP_DUR, s);
    lemma_register_range(CONF0, s);
    lemma_register_range(PLCP0_ENABLE, s);
    lemma_txop_bits(v.rd32(a));
    if depth > 2 {
        lemma_quiet_store(v, dur, v.rd32(dur) & 0xf0ff_ffff, s);
    } else {
        let x1 = (txq.txop_count_in(v) << 0x18) & 0x0f00_0000;
        let v1 = v.rmw32(dur, 0xf0ff_ffff, x1);
        let v2 = v1.rmw32(dur, 0xcfff_ffff, depth << 0x1c);
        lemma_quiet_store(v, dur, (v.rd32(dur) & 0xf0ff_ffff) | x1, s);
        lemma_quiet_store(v1, dur, (v1.rd32(dur) & 0xcfff_ffff) | depth << 0x1c, s);
        lemma_quiet_store(v2, c, v2.rd32(c) | crate::mac_reg::CONF0_BIT31, s);
        lemma_quiet_store(v2, c, v2.rd32(c) & 0x7fff_ffff, s);
        let ti = txq.cur_eb_in(v).txinfo_in(v);
        let v3 = if (ti.flags_in(v2) & 0x100) != 0 {
            v2.or32(c, crate::mac_reg::CONF0_BIT31)
        } else {
            v2.and32(c, 0x7fff_ffff)
        };
        assert(quiet(v, v3, s));
        lemma_register_store(v3, a, v3.rd32(a) | crate::mac_reg::PLCP0_TXOP);
        lemma_register_store(v3, a, v3.rd32(a) & 0xffbf_ffff);
    }
}

/// The head of a PPDU build touches no memory and leaves the frame's PLCP0 word.
proof fn lemma_head(v: MemView, txq: LmacTxq)
    requires
        armed_in_ram(v, txq),
    ensures
        ({
            let w = ppdu_head(v, txq);
            let eb = txq.cur_eb_in(v);
            &&& same_ram(v, w)
            &&& w.rd32(conf_addr(PLCP0_ENABLE, txq.slot_in(v))) == plcp0_word(
                eb.txinfo_in(v).flags_in(v),
                eb.dma_desc_in(v).0,
                eb.flags16_in(v),
            )
        }),
{
    broadcast use crate::mem_laws::group_loads;

    let s = txq.slot_in(v);
    let a = conf_addr(PLCP0_ENABLE, s);
    let eb = txq.cur_eb_in(v);
    let ti = eb.txinfo_in(v);
    lemma_plcp0_apart(s);
    lemma_register_range(PLCP0_ENABLE, s);
    lemma_register_range(CONF0, s);
    lemma_register_range(PROT_THRESH, s);
    lemma_register_range(PLCP1, s);
    lemma_register_range(CONF1_REAL, s);
    protection_keeps_plcp0(v, txq);
    let v1 = plcp0_written(v, txq);
    lemma_register_store(v, a, plcp0_word(ti.flags_in(v), eb.dma_desc_in(v).0, eb.flags16_in(v)));
    let p = protection_of(v, txq);
    let c = conf_addr(CONF0, s);
    lemma_register_store(v1, c, v1.rd32(c) & 0x7fff_ffff);
    lemma_register_store(v1, c, v1.rd32(c) | crate::mac_reg::CONF0_BIT31);
    let v2 = if p.enable == 0 {
        v1.and32(c, 0x7fff_ffff)
    } else {
        v1.or32(c, crate::mac_reg::CONF0_BIT31)
    };
    assert(same_ram(v, v2));
    lemma_register_store(v2, slot_addr(PROT_THRESH, s), (p.val & 0xffff) | 0x1_0000);
    let v3 = plcp0_set(v, txq);
    assert(same_ram(v, v3));
    let v4 = plcp1_set(v3, txq);
    assert(txq.slot_in(v3) == s);
    let x = crate::slot::plcp1_word(
        txq.cur_eb_in(v3).txinfo_in(v3).rate_in(v3),
        txq.cur_eb_in(v3).txinfo_in(v3).flags_in(v3),
        txq.cur_eb_in(v3).txinfo_in(v3).keyslot_in(v3),
        v3.rd32(txq.cur_eb_in(v3).dma_desc_in(v3).frame_ptr_in(v3)),
        txq.cur_eb_in(v3).txinfo_in(v3).word10_in(v3),
    );
    lemma_quiet_store(v3, slot_addr(PLCP1, s), x, s);
    let r = conf_addr(CONF1_REAL, s);
    lemma_quiet_store(v4, r, v4.rd32(r) & 0xffff_fff7, s);
}

/// The PPDU build of a DSSS/OFDM frame without further MPDUs is done at once; it touches no memory,
/// and leaves PLCP0_ENABLE with the top byte and the low 20 bits of the frame's PLCP0 word.
pub proof fn legacy_ppdu_is_done_at_once(v: MemView, txq: LmacTxq, instances: u32)
    requires
        armed_in_ram(v, txq),
        !is_ht(txq.cur_eb_in(v).txinfo_in(v).rate_in(v)),
        txq.cur_eb_in(v).pending_next_in(v) == 0,
    ensures
        ({
            let t = ppdu_begun(v, txq, instances);
            let eb = txq.cur_eb_in(v);
            let w = plcp0_word(
                eb.txinfo_in(v).flags_in(v),
                eb.dma_desc_in(v).0,
                eb.flags16_in(v),
            );
            let r = t.0.rd32(conf_addr(PLCP0_ENABLE, txq.slot_in(v)));
            &&& t.1 == Ppdu::Done
            &&& same_ram(v, t.0)
            &&& r & 0xff00_0000 == w & 0xff00_0000
            &&& r & 0xfffff == w & 0xfffff
        }),
{
    let eb = txq.cur_eb_in(v);
    let s = txq.slot_in(v);
    let a = conf_addr(PLCP0_ENABLE, s);
    let v2 = ppdu_head(v, txq);
    lemma_head(v, txq);
    let v1 = plcp1_set(plcp0_set(v, txq), txq);
    assert(txq.slot_in(v1) == s) by {
        lemma_plcp1_slot(v, txq);
    }
    let txinfo = eb.txinfo_in(v2);
    let power = crate::hal_mac_tx::response_power(v2, txinfo.rate_in(v2));
    lemma_len_quiet(v2, txq, instances);
    let v3 = len_set(v2, txq, instances);
    assert(armed_in_ram(v3, txq));
    lemma_txop(v3, txq);
    let v4 = txop_regs_set(v3, txq);
    assert(eb.pending_next_in(v4) == 0);
    lemma_plcp0_apart(s);
    lemma_register_range(PLCP_RATE_DUR, s);
    let x = crate::hal_mac_tx::pwr_word(v4, (txinfo.rate_in(v4) as u32).wrapping_mul(2)) | power;
    let v5 = v4.st32(slot_addr(PLCP_RATE_DUR, s), x);
    lemma_quiet_store(v4, slot_addr(PLCP_RATE_DUR, s), x, s);
    lemma_pti_quiet(v5, txq);
}

proof fn lemma_plcp1_slot(v: MemView, txq: LmacTxq)
    requires
        armed_in_ram(v, txq),
    ensures
        txq.slot_in(plcp1_set(plcp0_set(v, txq), txq)) == txq.slot_in(v),
{
    broadcast use crate::mem_laws::group_loads;

    let s = txq.slot_in(v);
    lemma_register_range(PLCP0_ENABLE, s);
    lemma_register_range(CONF0, s);
    lemma_register_range(PROT_THRESH, s);
    lemma_register_range(PLCP1, s);
    let v3 = plcp0_set(v, txq);
    assert(txq.slot_in(v3) == s);
}

/// The control block of an AC, its pending list with the guards, and the eb lie in SRAM, apart from
/// each other.
pub open spec fn laid_out(txq: LmacTxq, q: PendingQ, eb: Eb) -> bool {
    &&& SRAM_START <= txq.0 < SRAM_END
    &&& SRAM_START <= q.0 < SRAM_END
    &&& SRAM_START <= eb.0 < SRAM_END
    &&& apart(eb.0, EB_SIZE as int, txq.0, 0x44)
    &&& apart(eb.0, EB_SIZE as int, q.0.wrapping_add(PendingQ::HEAD), 0x18)
    &&& apart(txq.0, 0x44, q.0.wrapping_add(PendingQ::HEAD), 0x18)
}

/// A broadcast DSSS/OFDM frame of the driver's pool is all that is pending on an idle AC.
pub open spec fn broadcast_pending(v: MemView, ac: u32, eb: Eb) -> bool {
    let txq = LmacTxq::block(instances_of(v), ac);
    let q = PendingQ::of_ac(v, ac);
    &&& laid_out(txq, q, eb)
    &&& own_parts(v, eb)
    &&& txq.state_in(v) == LmacTxq::STATE_IDLE
    &&& txq.slot_in(v) < SLOTS
    &&& holds(v, q, seq![eb.0])
    &&& poppable(v, q)
    &&& eb.txinfo_in(v).flags_in(v) & FLAG_BROADCAST != 0
    &&& !is_ht(eb.txinfo_in(v).rate_in(v))
}

/// What a step from `v` to `w` keeps of a frame and its control block on the way to the arm: the
/// pointers, the state and the slot, and the frame's flags and rate.
pub open spec fn frame_kept(v: MemView, w: MemView, txq: LmacTxq, eb: Eb) -> bool {
    let ti = eb.txinfo_in(v);
    &&& instances_of(w) == instances_of(v)
    &&& w.rd32(TXRXCXT_PTR) == v.rd32(TXRXCXT_PTR)
    &&& txq.state_in(w) == txq.state_in(v)
    &&& txq.slot_in(w) == txq.slot_in(v)
    &&& eb.txinfo_in(w) == ti
    &&& eb.dma_desc_in(w) == eb.dma_desc_in(v)
    &&& eb.sec_desc_in(w) == eb.sec_desc_in(v)
    &&& ti.flags_in(w) == ti.flags_in(v)
    &&& ti.rate_in(w) == ti.rate_in(v)
}

proof fn lemma_pop(v: MemView, ac: u32, eb: Eb)
    requires
        broadcast_pending(v, ac, eb),
    ensures
        ({
            let txq = LmacTxq::block(instances_of(v), ac);
            let q = PendingQ::of_ac(v, ac);
            let t = popped(v, q);
            &&& t.1 == eb
            &&& frame_kept(v, t.0, txq, eb)
            &&& eb.pending_next_in(t.0) == 0
            &&& holds(t.0, q, Seq::empty())
            &&& poppable(t.0, q)
        }),
{
    broadcast use crate::mem_laws::group_loads;

    let q = PendingQ::of_ac(v, ac);
    let s = seq![eb.0];
    assert(s[0] == eb.0);
    assert(s.last() == eb.0);
    assert(v.rd32(crate::pending::link_addr(s[0])) == 0);
}

proof fn lemma_taken(v: MemView, mib: u32, txq: LmacTxq, q: PendingQ, eb: Eb)
    requires
        laid_out(txq, q, eb),
        own_parts(v, eb),
        eb.txinfo_in(v).flags_in(v) & FLAG_BROADCAST != 0,
        eb.pending_next_in(v) == 0,
        holds(v, q, Seq::empty()),
        poppable(v, q),
    ensures
        ({
            let w = frame_taken(v, mib, txq, eb);
            &&& frame_kept(v, w, txq, eb)
            &&& txq.cur_eb_in(w) == eb
            &&& eb.pending_next_in(w) == 0
            &&& holds(w, q, Seq::empty())
            &&& poppable(w, q)
        }),
{
    broadcast use crate::mem_laws::group_loads;

    let flags = eb.txinfo_in(v).flags_in(v);
    assert(flags & 0x2 != 0 ==> flags & 0x2102 != 0x2000) by (bit_vector);
}

proof fn lemma_armed(v: MemView, d: DriverView, txq: LmacTxq, q: PendingQ, eb: Eb)
    requires
        laid_out(txq, q, eb),
        txq.cur_eb_in(v) == eb,
        txq.slot_in(v) < SLOTS,
        holds(v, q, Seq::empty()),
        poppable(v, q),
        eb.txinfo_in(v).0 == eb.0 + crate::eb_pool::EB_OWN_TXINFO_OFF,
    ensures
        ({
            let w = armed(v, d, txq).0;
            let a = conf_addr(PLCP0_ENABLE, txq.slot_in(v));
            &&& w.rd32(a) == v.rd32(a) | SLOT_ARM
            &&& frame_kept(v, w, txq, eb)
            &&& holds(w, q, Seq::empty())
            &&& poppable(w, q)
        }),
{
    broadcast use crate::mem_laws::group_loads;

    let s = txq.slot_in(v);
    let c = conf_addr(CONF1, s);
    let a = conf_addr(PLCP0_ENABLE, s);
    lemma_plcp0_apart(s);
    lemma_register_range(CONF1, s);
    lemma_register_range(PLCP0_ENABLE, s);
    let r = xorshift(d.rng);
    let v1 = txq.with_backoff(v, backoff_of(r, txq.cw_in(v)));
    assert(v1.rd32(a) == v.rd32(a));
    assert(txq.slot_in(v1) == s);
    assert(txq.cur_eb_in(v1) == eb);
    assert(frame_kept(v, v1, txq, eb) && poppable(v1, q));
    let x1 = ((txq.aifsn_in(v1) & 0xf) as u32) << 24;
    let v2 = v1.rmw32(c, 0xf0ff_ffff, x1);
    lemma_quiet_store(v1, c, (v1.rd32(c) & 0xf0ff_ffff) | x1, s);
    let x2 = ((txq.backoff_in(v2) & 0x3ff) as u32) << 12;
    let v3 = v2.rmw32(c, 0xffc0_0fff, x2);
    lemma_quiet_store(v2, c, (v2.rd32(c) & 0xffc0_0fff) | x2, s);
    let x3 = txq.cur_eb_in(v3).txinfo_in(v3).iface_in(v3) << 0x16;
    let v4 = v3.rmw32(c, 0xff3f_ffff, x3);
    lemma_quiet_store(v3, c, (v3.rd32(c) & 0xff3f_ffff) | x3, s);
    assert(v4 == edca_set(v1, txq));
    assert(quiet(v1, v4, s));
    lemma_register_store(v4, a, v4.rd32(a) | SLOT_ARM);
}

proof fn lemma_launch_bits(r: u32, desc: u32, flags: u32)
    by (bit_vector)
    ensures
        ({
            let w = (desc & 0xfffff) | 0x60_0000;
            r & 0xff00_0000u32 == w & 0xff00_0000u32 && r & 0xfffffu32 == w & 0xfffffu32 ==> {
                &&& (r | 0xc000_0000u32) >> 24 == 0xc0
                &&& (r | 0xc000_0000u32) & 0xfffffu32 == desc & 0xfffff
            }
        }),
        flags & 0x2 != 0 ==> flags & 0x402 != 0,
{
}

proof fn lemma_broadcast_bits(flags: u32)
    requires
        flags & 0x2 != 0,
    ensures
        flags & 0x402 != 0,
{
    lemma_launch_bits(0, 0, flags);
}

/// A broadcast frame that is pending on an idle AC is popped and armed in one go, without any vendor
/// firmware: its slot ends up with 0xc0 in the top byte of PLCP0_ENABLE (armed, no ack awaited) over
/// the frame's descriptor, the list is empty, the control block still counts as idle, and the frame
/// keeps its pointers and flags.
#[verifier::rlimit(60)]
pub proof fn pending_broadcast_is_armed(v: MemView, d: DriverView, ac: u32, eb: Eb)
    requires
        broadcast_pending(v, ac, eb),
    ensures
        ({
            let txq = LmacTxq::block(instances_of(v), ac);
            let q = PendingQ::of_ac(v, ac);
            let t = schedule_begun(v, d, ac);
            let plcp0 = t.0.rd32(conf_addr(PLCP0_ENABLE, txq.slot_in(v)));
            &&& t.2 == Schedule::Arm(Arm::Armed)
            &&& plcp0 >> 24 == 0xc0
            &&& plcp0 & 0xfffff == eb.dma_desc_in(v).0 & 0xfffff
            &&& frame_kept(v, t.0, txq, eb)
            &&& txq.state_in(t.0) == LmacTxq::STATE_IDLE
            &&& holds(t.0, q, Seq::empty())
            &&& poppable(t.0, q)
            &&& t.1.pool == d.pool
        }),
{
    let txq = LmacTxq::block(instances_of(v), ac);
    let q = PendingQ::of_ac(v, ac);
    let s = txq.slot_in(v);
    let c = conf_addr(CONF1, s);
    let flags = eb.txinfo_in(v).flags_in(v);
    reveal(schedule_begun);
    reveal(arm_begun);
    lemma_pop(v, ac, eb);
    let v1 = popped(v, q).0;
    assert(own_parts(v1, eb)) by {
        lemma_pop_keeps_parts(v, ac, eb);
    }
    lemma_taken(v1, d.mib, txq, q, eb);
    let v2 = frame_taken(v1, d.mib, txq, eb);
    let ti = eb.txinfo_in(v2);
    let f = crate::slot::timeout_field(ti.lifetime_lo_in(v2), ti.lifetime_hi_in(v2), TIMEOUT_FLOOR);
    lemma_register_range(CONF1, s);
    lemma_register_store(v2, c, (v2.rd32(c) & 0xffff_f000) | f);
    let v3 = timeout_set(v2, txq, TIMEOUT_FLOOR);
    assert(same_ram(v2, v3));
    legacy_ppdu_is_done_at_once(v3, txq, instances_of(v2));
    let v4 = ppdu_begun(v3, txq, instances_of(v2)).0;
    assert(same_ram(v2, v4));
    lemma_armed(v4, d, txq, q, eb);
    plcp0_word_does_not_arm(flags, eb.dma_desc_in(v).0, eb.flags16_in(v3));
    lemma_broadcast_bits(flags);
    lemma_launch_bits(v4.rd32(conf_addr(PLCP0_ENABLE, s)), eb.dma_desc_in(v).0, flags);
}

proof fn lemma_pop_keeps_parts(v: MemView, ac: u32, eb: Eb)
    requires
        broadcast_pending(v, ac, eb),
    ensures
        own_parts(popped(v, PendingQ::of_ac(v, ac)).0, eb),
{
    broadcast use crate::mem_laws::group_loads;

    let s = seq![eb.0];
    assert(s[0] == eb.0);
    assert(v.rd32(crate::pending::link_addr(s[0])) == 0);
}

} // verus!
