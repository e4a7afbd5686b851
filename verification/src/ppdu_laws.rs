//! What a whole PPDU build leaves in the registers of its slot.
use crate::arm_laws::same_ram;
use crate::hal_laws::{legacy_rate_word, response_power_bytes};
use crate::hal_mac_tx::{
    ppdu_begun, ppdu_head, ppdu_legacy_tail, ppdu_resumed, ppdu_sig_tail, response_power, Ppdu,
};
use crate::layout::{LmacTxq, TxInfo};
use crate::mac_reg::{
    conf_addr, slot_addr, CONF0, CONF1, CONF1_REAL, PLCP0_ENABLE, PLCP1, PLCP_RATE_DUR, PROT_THRESH,
    PTI, RESP_DUR, SLOTS, TXLEN,
};
use crate::mmio::{apart, MemView};
use crate::slot::{len_set, plcp0_set, plcp1_set, pti_set, txop_first_fill, txop_regs_set};
use crate::slot_laws::{
    armed_in_ram, first_fill_is_the_linked_mpdu, in_ram, steps_keep_other_registers,
    steps_store_in_order, steps_store_only_to_their_registers, stores_follow, stores_since,
};
use vstd::prelude::*;

verus! {

proof fn lemma_ram(v: MemView, w: MemView)
    requires
        forall|a: u32| a < 0x6000_0000 ==> #[trigger] w.rd8(a) == v.rd8(a),
    ensures
        same_ram(v, w),
{
    assert forall|a: u32| a < 0x5000_1000 implies #[trigger] w.rd16(a) == v.rd16(a) by {
        reveal(MemView::rd16);
    }
    assert forall|a: u32| a < 0x5000_1000 implies #[trigger] w.rd32(a) == v.rd32(a) by {
        reveal(MemView::rd32);
    }
}

/// No step of a PPDU build stores to memory.
proof fn lemma_steps_ram(v: MemView, txq: LmacTxq, instances: u32, x: u32)
    requires
        txq.slot_in(v) < SLOTS,
    ensures
        same_ram(v, plcp0_set(v, txq)),
        same_ram(v, plcp1_set(v, txq)),
        same_ram(v, len_set(v, txq, instances)),
        same_ram(v, txop_regs_set(v, txq)),
        same_ram(v, pti_set(v, txq)),
        same_ram(v, v.st32(slot_addr(PLCP_RATE_DUR, txq.slot_in(v)), x)),
        same_ram(v, v.st32(conf_addr(CONF1_REAL, txq.slot_in(v)), x)),
{
    let s = txq.slot_in(v);
    crate::mac_reg::register_map(s);
    assert forall|a: u32| a < 0x6000_0000 implies #[trigger] plcp0_set(v, txq).rd8(a) == v.rd8(a) by {
        steps_store_only_to_their_registers(v, txq, instances, 0, a);
    }
    assert forall|a: u32| a < 0x6000_0000 implies #[trigger] plcp1_set(v, txq).rd8(a) == v.rd8(a) by {
        steps_store_only_to_their_registers(v, txq, instances, 0, a);
    }
    assert forall|a: u32| a < 0x6000_0000 implies #[trigger] len_set(v, txq, instances).rd8(a) == v.rd8(a) by {
        steps_store_only_to_their_registers(v, txq, instances, 0, a);
    }
    assert forall|a: u32| a < 0x6000_0000 implies #[trigger] txop_regs_set(v, txq).rd8(a) == v.rd8(a) by {
        steps_store_only_to_their_registers(v, txq, instances, 0, a);
    }
    assert forall|a: u32| a < 0x6000_0000 implies #[trigger] pti_set(v, txq).rd8(a) == v.rd8(a) by {
        steps_store_only_to_their_registers(v, txq, instances, 0, a);
    }
    assert forall|a: u32| a < 0x6000_0000 implies #[trigger] v.st32(slot_addr(PLCP_RATE_DUR, s), x).rd8(a)
        == v.rd8(a) by {
        broadcast use crate::mem_laws::group_loads;

    }
    assert forall|a: u32| a < 0x6000_0000 implies #[trigger] v.st32(conf_addr(CONF1_REAL, s), x).rd8(a)
        == v.rd8(a) by {
        broadcast use crate::mem_laws::group_loads;

    }
    lemma_ram(v, plcp0_set(v, txq));
    lemma_ram(v, plcp1_set(v, txq));
    lemma_ram(v, len_set(v, txq, instances));
    lemma_ram(v, txop_regs_set(v, txq));
    lemma_ram(v, pti_set(v, txq));
    lemma_ram(v, v.st32(slot_addr(PLCP_RATE_DUR, s), x));
    lemma_ram(v, v.st32(conf_addr(CONF1_REAL, s), x));
}

/// The registers of a slot share no byte.
proof fn lemma_registers_apart(s: u32)
    requires
        s < SLOTS,
    ensures
        ({
            let plcp0 = conf_addr(PLCP0_ENABLE, s);
            let conf0 = conf_addr(CONF0, s);
            let conf1 = conf_addr(CONF1, s);
            let ext = conf_addr(CONF1_REAL, s);
            let prot = slot_addr(PROT_THRESH, s);
            let plcp1 = slot_addr(PLCP1, s);
            let dur = slot_addr(RESP_DUR, s);
            let len = slot_addr(TXLEN, s);
            let pti = slot_addr(PTI, s);
            let rate = slot_addr(PLCP_RATE_DUR, s);
            &&& plcp0 == 0x600a_4d6c - 0x10 * s && conf0 == plcp0 - 0xc && ext == plcp0 - 8 && conf1
                == plcp0 - 4
            &&& plcp1 == 0x600a_5488 - 0x74 * s && prot == plcp1 + 4 && pti == plcp1 + 8 && rate
                == plcp1 + 0x24 && len == plcp1 + 0x30 && dur == plcp1 + 0x34
        }),
{
    crate::mac_reg::register_map(s);
}

/// The head of a PPDU build leaves the PLCP words and the protection as those steps set them and clears
/// bit 3 of CONF1_REAL; no other byte changes, and no memory does.
pub proof fn head_of_a_build(v: MemView, txq: LmacTxq, a: u32)
    requires
        armed_in_ram(v, txq),
        in_ram(txq.cur_eb_in(v).dma_desc_in(v).0),
        in_ram(txq.cur_eb_in(v).dma_desc_in(v).frame_ptr_in(v)),
    ensures
        ({
            let s = txq.slot_in(v);
            let w = ppdu_head(v, txq);
            let conf = (0x600a_4d60 - 0x10 * s) as u32;
            let plcp1 = slot_addr(PLCP1, s);
            &&& w.rd32(conf_addr(PLCP0_ENABLE, s)) == plcp0_set(v, txq).rd32(
                conf_addr(PLCP0_ENABLE, s),
            )
            &&& w.rd32(conf_addr(CONF0, s)) == plcp0_set(v, txq).rd32(conf_addr(CONF0, s))
            &&& w.rd32(slot_addr(PROT_THRESH, s)) == plcp0_set(v, txq).rd32(
                slot_addr(PROT_THRESH, s),
            )
            &&& w.rd32(plcp1) == plcp1_set(v, txq).rd32(plcp1)
            &&& w.rd32(conf_addr(CONF1_REAL, s)) == v.rd32(conf_addr(CONF1_REAL, s)) & 0xffff_fff7
            &&& w.rd32(conf_addr(CONF1, s)) == v.rd32(conf_addr(CONF1, s))
            &&& apart(conf, 16, a, 1) && apart(plcp1, 8, a, 1) ==> w.rd8(a) == v.rd8(a)
            &&& same_ram(v, w)
        }),
{
    broadcast use crate::mem_laws::group_loads;

    let s = txq.slot_in(v);
    lemma_registers_apart(s);
    let v1 = plcp0_set(v, txq);
    let v2 = plcp1_set(v1, txq);
    let e = conf_addr(CONF1_REAL, s);
    lemma_steps_ram(v, txq, 0, 0);
    lemma_steps_ram(v1, txq, 0, 0);
    lemma_steps_ram(v2, txq, 0, v2.rd32(e) & 0xffff_fff7);
    steps_store_only_to_their_registers(v, txq, 0, 0, a);
    steps_store_only_to_their_registers(v1, txq, 0, 0, a);
    steps_keep_other_registers(v, txq, 0, 0, e);
    steps_keep_other_registers(v, txq, 0, 0, conf_addr(CONF1, s));
    steps_keep_other_registers(v1, txq, 0, 0, e);
    steps_keep_other_registers(v1, txq, 0, 0, conf_addr(CONF1, s));
    steps_keep_other_registers(v1, txq, 0, 0, conf_addr(PLCP0_ENABLE, s));
    steps_keep_other_registers(v1, txq, 0, 0, conf_addr(CONF0, s));
    steps_keep_other_registers(v1, txq, 0, 0, slot_addr(PROT_THRESH, s));
    let eb = txq.cur_eb_in(v);
    assert(v1.rd32(eb.dma_desc_in(v1).frame_ptr_in(v1)) == v.rd32(
        eb.dma_desc_in(v).frame_ptr_in(v),
    ));
}

/// The frame of a control block can be built: all that the build reads of it lies in RAM.
pub open spec fn buildable(v: MemView, txq: LmacTxq) -> bool {
    &&& armed_in_ram(v, txq)
    &&& in_ram(txq.cur_eb_in(v).dma_desc_in(v).0)
    &&& in_ram(txq.cur_eb_in(v).dma_desc_in(v).frame_ptr_in(v))
}

/// The response half of the rate/duration word depends on memory alone.
proof fn lemma_same_power(v: MemView, w: MemView, rate: u8)
    requires
        same_ram(v, w),
    ensures
        response_power(w, rate) == response_power(v, rate),
{
}

/// The steps read memory and their own registers, and nothing else.
proof fn lemma_same_steps(v: MemView, w: MemView, txq: LmacTxq, instances: u32)
    requires
        armed_in_ram(v, txq),
        same_ram(v, w),
        !(0x10 <= txq.cur_eb_in(v).txinfo_in(v).rate_in(v) <= 0x23),
    ensures
        ({
            let s = txq.slot_in(v);
            let dur = slot_addr(RESP_DUR, s);
            let conf0 = conf_addr(CONF0, s);
            let plcp0 = conf_addr(PLCP0_ENABLE, s);
            let pti = slot_addr(PTI, s);
            let conf1 = conf_addr(CONF1, s);
            &&& len_set(w, txq, instances).rd32(dur) == len_set(v, txq, instances).rd32(dur)
            &&& w.rd32(dur) == v.rd32(dur) ==> txop_regs_set(w, txq).rd32(dur) == txop_regs_set(
                v,
                txq,
            ).rd32(dur)
            &&& w.rd32(conf0) == v.rd32(conf0) ==> txop_regs_set(w, txq).rd32(conf0)
                == txop_regs_set(v, txq).rd32(conf0)
            &&& w.rd32(plcp0) == v.rd32(plcp0) ==> txop_regs_set(w, txq).rd32(plcp0)
                == txop_regs_set(v, txq).rd32(plcp0)
            &&& w.rd32(pti) == v.rd32(pti) ==> pti_set(w, txq).rd32(pti) == pti_set(v, txq).rd32(pti)
            &&& w.rd32(conf1) == v.rd32(conf1) ==> pti_set(w, txq).rd32(conf1) == pti_set(
                v,
                txq,
            ).rd32(conf1)
        }),
{
    broadcast use crate::mem_laws::group_loads;

    lemma_registers_apart(txq.slot_in(v));
    crate::slot_laws::lemma_ht_rate(txq.cur_eb_in(v).txinfo_in(v).rate_in(v));
}

/// The length step of a DSSS/OFDM frame stores to RESP_DUR alone.
proof fn lemma_len_of_dsss(v: MemView, txq: LmacTxq, instances: u32, r: u32)
    requires
        armed_in_ram(v, txq),
        !(0x10 <= txq.cur_eb_in(v).txinfo_in(v).rate_in(v) <= 0x23),
        apart(slot_addr(RESP_DUR, txq.slot_in(v)), 4, r, 4),
    ensures
        len_set(v, txq, instances).rd32(r) == v.rd32(r),
{
    broadcast use crate::mem_laws::group_loads;

    lemma_registers_apart(txq.slot_in(v));
    crate::slot_laws::lemma_ht_rate(txq.cur_eb_in(v).txinfo_in(v).rate_in(v));
}

/// The build of a DSSS/OFDM frame. A frame without an MPDU linked to it, or in a burst deeper than 2, is
/// done at once; otherwise the build stops for the first MPDU, before the rate/duration word and the
/// PTI. Each register then holds what its steps put there: PLCP0_ENABLE and CONF0 the PLCP0 and TXOP
/// steps, RESP_DUR the length and TXOP steps, PROT_THRESH and PLCP1 their own; CONF1_REAL loses bit 3;
/// TXLEN stays; and no memory changes.
pub proof fn build_of_a_dsss_frame(v: MemView, txq: LmacTxq, instances: u32)
    requires
        buildable(v, txq),
        !(0x10 <= txq.cur_eb_in(v).txinfo_in(v).rate_in(v) <= 0x23),
    ensures
        ({
            let s = txq.slot_in(v);
            let eb = txq.cur_eb_in(v);
            let ti = eb.txinfo_in(v);
            let single = v.rd32(eb.0.wrapping_add(0x30)) == 0 || txq.txop_depth_in(v) > 2;
            let t = ppdu_begun(v, txq, instances);
            let w = t.0;
            let plcp0 = conf_addr(PLCP0_ENABLE, s);
            let conf0 = conf_addr(CONF0, s);
            let conf1 = conf_addr(CONF1, s);
            let ext = conf_addr(CONF1_REAL, s);
            let prot = slot_addr(PROT_THRESH, s);
            let plcp1 = slot_addr(PLCP1, s);
            let dur = slot_addr(RESP_DUR, s);
            let len = slot_addr(TXLEN, s);
            let pti = slot_addr(PTI, s);
            let rate = slot_addr(PLCP_RATE_DUR, s);
            let first = v.rd8((0x4208_3134 + 2 * ti.rate_in(v)) as u32);
            &&& w.rd32(plcp0) == txop_regs_set(plcp0_set(v, txq), txq).rd32(plcp0)
            &&& w.rd32(conf0) == txop_regs_set(plcp0_set(v, txq), txq).rd32(conf0)
            &&& w.rd32(prot) == plcp0_set(v, txq).rd32(prot)
            &&& w.rd32(plcp1) == plcp1_set(v, txq).rd32(plcp1)
            &&& w.rd32(ext) == v.rd32(ext) & 0xffff_fff7
            &&& w.rd32(dur) == txop_regs_set(len_set(v, txq, instances), txq).rd32(dur)
            &&& w.rd32(len) == v.rd32(len)
            &&& same_ram(v, w)
            &&& single ==> {
                &&& t.1 == Ppdu::Done
                &&& w.rd32(pti) == pti_set(v, txq).rd32(pti)
                &&& w.rd32(conf1) == pti_set(v, txq).rd32(conf1)
                &&& w.rd32(rate) & 0xff == first
                &&& (w.rd32(rate) >> 8) & 0xff == (if first >= 0x80 {
                    0xffu32
                } else {
                    0
                })
                &&& w.rd32(rate) >> 16 == (if first >= 0x80 {
                    0xffffu32
                } else {
                    response_power(v, ti.rate_in(v)) >> 16
                })
            }
            &&& !single ==> {
                &&& t.1 matches Ppdu::Txop { fill, txinfo, slot, power }
                &&& fill.mpdu == v.rd32(eb.0.wrapping_add(0x30))
                &&& fill.idx == 1
                &&& fill.count == txq.txop_count_in(v)
                &&& fill.depth == txq.txop_depth_in(v)
                &&& txinfo == ti
                &&& slot == s
                &&& power == response_power(v, ti.rate_in(v))
                &&& w.rd32(pti) == v.rd32(pti)
                &&& w.rd32(conf1) == v.rd32(conf1)
                &&& w.rd32(rate) == v.rd32(rate)
            }
        }),
{
    let s = txq.slot_in(v);
    let eb = txq.cur_eb_in(v);
    let ti = eb.txinfo_in(v);
    let plcp0 = conf_addr(PLCP0_ENABLE, s);
    let conf0 = conf_addr(CONF0, s);
    let conf1 = conf_addr(CONF1, s);
    let ext = conf_addr(CONF1_REAL, s);
    let prot = slot_addr(PROT_THRESH, s);
    let plcp1 = slot_addr(PLCP1, s);
    let dur = slot_addr(RESP_DUR, s);
    let len = slot_addr(TXLEN, s);
    let pti = slot_addr(PTI, s);
    let rate = slot_addr(PLCP_RATE_DUR, s);
    lemma_registers_apart(s);
    let v0 = plcp0_set(v, txq);
    let v1 = plcp1_set(v0, txq);
    let v2 = ppdu_head(v, txq);
    head_of_a_build(v, txq, 0);
    lemma_steps_ram(v, txq, instances, 0);
    lemma_steps_ram(v0, txq, instances, 0);
    assert(txq.slot_in(v1) == s);
    lemma_same_power(v, v2, ti.rate_in(v));
    lemma_head_keeps(v, txq, len);
    lemma_head_keeps(v, txq, dur);
    lemma_head_keeps(v, txq, pti);
    lemma_head_keeps(v, txq, rate);
    let v3 = len_set(v2, txq, instances);
    lemma_steps_ram(v2, txq, instances, 0);
    assert(same_ram(v, v3));
    lemma_dsss_len_keeps(v2, txq, instances);
    let v4 = txop_regs_set(v3, txq);
    lemma_steps_ram(v3, txq, instances, 0);
    assert(same_ram(v, v4));
    lemma_txop_keeps(v3, txq);
    lemma_same_steps(v, v2, txq, instances);
    lemma_same_steps(v0, v3, txq, instances);
    lemma_same_steps(len_set(v, txq, instances), v3, txq, instances);
    first_fill_is_the_linked_mpdu(v3, txq);
    let power = response_power(v, ti.rate_in(v));
    response_power_bytes(v, ti.rate_in(v));
    if txop_first_fill(v3, txq) is None {
        legacy_rate_word(v4, txq, ti, s, power);
        lemma_tail_keeps(v4, txq, ti, power);
        lemma_same_steps(v, v4, txq, instances);
    }
}

proof fn lemma_head_keeps(v: MemView, txq: LmacTxq, r: u32)
    requires
        buildable(v, txq),
        r == slot_addr(TXLEN, txq.slot_in(v)) || r == slot_addr(RESP_DUR, txq.slot_in(v)) || r
            == slot_addr(PTI, txq.slot_in(v)) || r == slot_addr(PLCP_RATE_DUR, txq.slot_in(v)),
    ensures
        ppdu_head(v, txq).rd32(r) == v.rd32(r),
{
    broadcast use crate::mem_laws::group_loads;

    let s = txq.slot_in(v);
    lemma_registers_apart(s);
    let v1 = plcp0_set(v, txq);
    lemma_steps_ram(v, txq, 0, 0);
    lemma_steps_ram(v1, txq, 0, 0);
    steps_keep_other_registers(v, txq, 0, 0, r);
    steps_keep_other_registers(v1, txq, 0, 0, r);
}

proof fn lemma_dsss_len_keeps(v: MemView, txq: LmacTxq, instances: u32)
    requires
        armed_in_ram(v, txq),
        !(0x10 <= txq.cur_eb_in(v).txinfo_in(v).rate_in(v) <= 0x23),
    ensures
        ({
            let s = txq.slot_in(v);
            let w = len_set(v, txq, instances);
            &&& w.rd32(conf_addr(PLCP0_ENABLE, s)) == v.rd32(conf_addr(PLCP0_ENABLE, s))
            &&& w.rd32(conf_addr(CONF0, s)) == v.rd32(conf_addr(CONF0, s))
            &&& w.rd32(conf_addr(CONF1, s)) == v.rd32(conf_addr(CONF1, s))
            &&& w.rd32(conf_addr(CONF1_REAL, s)) == v.rd32(conf_addr(CONF1_REAL, s))
            &&& w.rd32(slot_addr(PROT_THRESH, s)) == v.rd32(slot_addr(PROT_THRESH, s))
            &&& w.rd32(slot_addr(PLCP1, s)) == v.rd32(slot_addr(PLCP1, s))
            &&& w.rd32(slot_addr(TXLEN, s)) == v.rd32(slot_addr(TXLEN, s))
            &&& w.rd32(slot_addr(PTI, s)) == v.rd32(slot_addr(PTI, s))
            &&& w.rd32(slot_addr(PLCP_RATE_DUR, s)) == v.rd32(slot_addr(PLCP_RATE_DUR, s))
        }),
{
    let s = txq.slot_in(v);
    lemma_registers_apart(s);
    lemma_len_of_dsss(v, txq, instances, conf_addr(PLCP0_ENABLE, s));
    lemma_len_of_dsss(v, txq, instances, conf_addr(CONF0, s));
    lemma_len_of_dsss(v, txq, instances, conf_addr(CONF1, s));
    lemma_len_of_dsss(v, txq, instances, conf_addr(CONF1_REAL, s));
    lemma_len_of_dsss(v, txq, instances, slot_addr(PROT_THRESH, s));
    lemma_len_of_dsss(v, txq, instances, slot_addr(PLCP1, s));
    lemma_len_of_dsss(v, txq, instances, slot_addr(TXLEN, s));
    lemma_len_of_dsss(v, txq, instances, slot_addr(PTI, s));
    lemma_len_of_dsss(v, txq, instances, slot_addr(PLCP_RATE_DUR, s));
}

proof fn lemma_txop_keeps(v: MemView, txq: LmacTxq)
    requires
        armed_in_ram(v, txq),
    ensures
        ({
            let s = txq.slot_in(v);
            let w = txop_regs_set(v, txq);
            &&& w.rd32(conf_addr(CONF1, s)) == v.rd32(conf_addr(CONF1, s))
            &&& w.rd32(conf_addr(CONF1_REAL, s)) == v.rd32(conf_addr(CONF1_REAL, s))
            &&& w.rd32(slot_addr(PROT_THRESH, s)) == v.rd32(slot_addr(PROT_THRESH, s))
            &&& w.rd32(slot_addr(PLCP1, s)) == v.rd32(slot_addr(PLCP1, s))
            &&& w.rd32(slot_addr(TXLEN, s)) == v.rd32(slot_addr(TXLEN, s))
            &&& w.rd32(slot_addr(PTI, s)) == v.rd32(slot_addr(PTI, s))
            &&& w.rd32(slot_addr(PLCP_RATE_DUR, s)) == v.rd32(slot_addr(PLCP_RATE_DUR, s))
        }),
{
    let s = txq.slot_in(v);
    lemma_registers_apart(s);
    steps_keep_other_registers(v, txq, 0, 0, conf_addr(CONF1, s));
    steps_keep_other_registers(v, txq, 0, 0, conf_addr(CONF1_REAL, s));
    steps_keep_other_registers(v, txq, 0, 0, slot_addr(PROT_THRESH, s));
    steps_keep_other_registers(v, txq, 0, 0, slot_addr(PLCP1, s));
    steps_keep_other_registers(v, txq, 0, 0, slot_addr(TXLEN, s));
    steps_keep_other_registers(v, txq, 0, 0, slot_addr(PTI, s));
    steps_keep_other_registers(v, txq, 0, 0, slot_addr(PLCP_RATE_DUR, s));
}

proof fn lemma_tail_keeps(v: MemView, txq: LmacTxq, txinfo: TxInfo, power: u32)
    requires
        armed_in_ram(v, txq),
    ensures
        ({
            let s = txq.slot_in(v);
            let w = ppdu_legacy_tail(v, txq, txinfo, s, power);
            &&& same_ram(v, w)
            &&& w.rd32(slot_addr(PTI, s)) == pti_set(v, txq).rd32(slot_addr(PTI, s))
            &&& w.rd32(conf_addr(CONF1, s)) == pti_set(v, txq).rd32(conf_addr(CONF1, s))
            &&& w.rd32(conf_addr(PLCP0_ENABLE, s)) == v.rd32(conf_addr(PLCP0_ENABLE, s))
            &&& w.rd32(conf_addr(CONF0, s)) == v.rd32(conf_addr(CONF0, s))
            &&& w.rd32(conf_addr(CONF1_REAL, s)) == v.rd32(conf_addr(CONF1_REAL, s))
            &&& w.rd32(slot_addr(PROT_THRESH, s)) == v.rd32(slot_addr(PROT_THRESH, s))
            &&& w.rd32(slot_addr(PLCP1, s)) == v.rd32(slot_addr(PLCP1, s))
            &&& w.rd32(slot_addr(TXLEN, s)) == v.rd32(slot_addr(TXLEN, s))
            &&& w.rd32(slot_addr(RESP_DUR, s)) == v.rd32(slot_addr(RESP_DUR, s))
        }),
{
    let s = txq.slot_in(v);
    let x = crate::hal_mac_tx::pwr_word(v, (txinfo.rate_in(v) as u32).wrapping_mul(2)) | power;
    let v1 = v.st32(slot_addr(PLCP_RATE_DUR, s), x);
    lemma_registers_apart(s);
    lemma_steps_ram(v, txq, 0, x);
    lemma_steps_ram(v1, txq, 0, 0);
    steps_keep_other_registers(v1, txq, 0, 0, conf_addr(PLCP0_ENABLE, s));
    steps_keep_other_registers(v1, txq, 0, 0, conf_addr(CONF0, s));
    steps_keep_other_registers(v1, txq, 0, 0, conf_addr(CONF1_REAL, s));
    steps_keep_other_registers(v1, txq, 0, 0, slot_addr(PROT_THRESH, s));
    steps_keep_other_registers(v1, txq, 0, 0, slot_addr(PLCP1, s));
    steps_keep_other_registers(v1, txq, 0, 0, slot_addr(TXLEN, s));
    steps_keep_other_registers(v1, txq, 0, 0, slot_addr(RESP_DUR, s));
    broadcast use crate::mem_laws::group_loads;

}

/// The build of an HT/HE frame stops behind its head for the SIG fields: HE for flag bit 31, HT without.
/// It carries the frame, the slot, and the response half of the rate/duration word.
pub proof fn build_of_an_ht_frame(v: MemView, txq: LmacTxq, instances: u32)
    requires
        buildable(v, txq),
        0x10 <= txq.cur_eb_in(v).txinfo_in(v).rate_in(v) <= 0x23,
    ensures
        ({
            let eb = txq.cur_eb_in(v);
            let slot = txq.slot_in(v);
            let power = response_power(v, eb.txinfo_in(v).rate_in(v));
            let t = ppdu_begun(v, txq, instances);
            &&& t.0 == ppdu_head(v, txq)
            &&& eb.txinfo_in(v).flags_in(v) >= 0x8000_0000 ==> t.1 == (Ppdu::HeSig { eb, slot, power })
            &&& eb.txinfo_in(v).flags_in(v) < 0x8000_0000 ==> t.1 == (Ppdu::HtSig { eb, slot, power })
        }),
{
    let v0 = plcp0_set(v, txq);
    head_of_a_build(v, txq, 0);
    lemma_steps_ram(v, txq, instances, 0);
    lemma_steps_ram(v0, txq, instances, 0);
    assert(txq.slot_in(plcp1_set(v0, txq)) == txq.slot_in(v));
    lemma_same_power(v, ppdu_head(v, txq), txq.cur_eb_in(v).txinfo_in(v).rate_in(v));
}

/// A build that has stopped goes on with the rate/duration word and the PTI once its SIG fields or its
/// last MPDU are filled in, and stores nothing before that.
pub proof fn stopped_builds_go_on(v: MemView, txq: LmacTxq, p: Ppdu)
    ensures
        ({
            let t = ppdu_resumed(v, txq, p);
            &&& p == Ppdu::Done ==> t == (v, Ppdu::Done)
            &&& p matches Ppdu::HeSig { eb, slot, power } ==> t == (
                ppdu_sig_tail(v, txq, eb, slot, power),
                Ppdu::Done,
            )
            &&& p matches Ppdu::HtSig { eb, slot, power } ==> t == (
                ppdu_sig_tail(v, txq, eb, slot, power),
                Ppdu::Done,
            )
            &&& p matches Ppdu::Txop { fill, txinfo, slot, power } ==> {
                let next = v.rd32(fill.mpdu.wrapping_add(0x30));
                if fill.idx == fill.count || next == 0 {
                    t == (ppdu_legacy_tail(v, txq, txinfo, slot, power), Ppdu::Done)
                } else {
                    &&& t.0 == v
                    &&& t.1 matches Ppdu::Txop { fill: f, txinfo: ti, slot: s, power: o }
                    &&& f.mpdu == next && f.idx == (fill.idx + 1) % 0x100 && f.count == fill.count
                    &&& ti == txinfo && s == slot && o == power
                }
            }
        }),
{
    if let Ppdu::Txop { fill, txinfo, slot, power } = p {
        crate::slot_laws::next_fill_is_the_linked_mpdu(v, txq, fill);
    }
}

/// The order of the stores of a whole build of a single DSSS/OFDM frame without protection threshold, in
/// a burst of depth 2 or less: PLCP0 and protection, PLCP1, CONF1_REAL, the length, the TXOP fields, the
/// rate/duration word, and the PTI last.
pub proof fn stores_of_a_single_build(v: MemView, txq: LmacTxq, instances: u32)
    requires
        buildable(v, txq),
        !(0x10 <= txq.cur_eb_in(v).txinfo_in(v).rate_in(v) <= 0x23),
        txq.cur_eb_in(v).txinfo_in(v).word30_in(v) & 0x1ff8 == 0,
        txq.cur_eb_in(v).pending_next_in(v) == 0,
        txq.txop_depth_in(v) <= 2,
    ensures
        ({
            let s = txq.slot_in(v);
            let plcp0 = conf_addr(PLCP0_ENABLE, s);
            let conf0 = conf_addr(CONF0, s);
            let conf1 = conf_addr(CONF1, s);
            let ext = conf_addr(CONF1_REAL, s);
            let plcp1 = slot_addr(PLCP1, s);
            let dur = slot_addr(RESP_DUR, s);
            let pti = slot_addr(PTI, s);
            let rate = slot_addr(PLCP_RATE_DUR, s);
            stores_since(
                v,
                ppdu_begun(v, txq, instances).0,
                seq![
                    plcp0,
                    conf0,
                    plcp1,
                    ext,
                    dur,
                    dur,
                    dur,
                    conf0,
                    plcp0,
                    rate,
                    conf1,
                    pti,
                    pti,
                    pti,
                    pti,
                    pti,
                ],
            )
        }),
{
    let s = txq.slot_in(v);
    let eb = txq.cur_eb_in(v);
    let ti = eb.txinfo_in(v);
    let plcp0 = conf_addr(PLCP0_ENABLE, s);
    let conf0 = conf_addr(CONF0, s);
    let conf1 = conf_addr(CONF1, s);
    let ext = conf_addr(CONF1_REAL, s);
    let plcp1 = slot_addr(PLCP1, s);
    let dur = slot_addr(RESP_DUR, s);
    let pti = slot_addr(PTI, s);
    let rate = slot_addr(PLCP_RATE_DUR, s);
    let v0 = plcp0_set(v, txq);
    lemma_steps_ram(v, txq, instances, 0);
    steps_store_in_order(v, txq, instances, 0);
    let v1 = plcp1_set(v0, txq);
    lemma_steps_ram(v0, txq, instances, 0);
    steps_store_in_order(v0, txq, instances, 0);
    stores_follow(v, v0, v1, seq![plcp0, conf0], seq![plcp1]);
    let v2 = ppdu_head(v, txq);
    lemma_one_store(v1, ext, v1.rd32(ext) & 0xffff_fff7);
    lemma_steps_ram(v1, txq, instances, v1.rd32(ext) & 0xffff_fff7);
    stores_follow(v, v1, v2, seq![plcp0, conf0] + seq![plcp1], seq![ext]);
    let v3 = len_set(v2, txq, instances);
    lemma_steps_ram(v2, txq, instances, 0);
    steps_store_in_order(v2, txq, instances, 0);
    stores_follow(v, v2, v3, seq![plcp0, conf0] + seq![plcp1] + seq![ext], seq![dur]);
    let v4 = txop_regs_set(v3, txq);
    lemma_steps_ram(v3, txq, instances, 0);
    steps_store_in_order(v3, txq, instances, 0);
    let x4 = seq![plcp0, conf0] + seq![plcp1] + seq![ext] + seq![dur];
    stores_follow(v, v3, v4, x4, seq![dur, dur, conf0, plcp0]);
    first_fill_is_the_linked_mpdu(v3, txq);
    let power = response_power(v2, ti.rate_in(v2));
    let y = crate::hal_mac_tx::pwr_word(v4, (ti.rate_in(v4) as u32).wrapping_mul(2)) | power;
    let v5 = v4.st32(rate, y);
    lemma_one_store(v4, rate, y);
    lemma_steps_ram(v4, txq, instances, y);
    let x5 = x4 + seq![dur, dur, conf0, plcp0];
    stores_follow(v, v4, v5, x5, seq![rate]);
    let v6 = pti_set(v5, txq);
    steps_store_in_order(v5, txq, instances, 0);
    stores_follow(v, v5, v6, x5 + seq![rate], seq![conf1, pti, pti, pti, pti, pti]);
    assert(ppdu_begun(v, txq, instances).0 == v6);
    assert(x5 + seq![rate] + seq![conf1, pti, pti, pti, pti, pti] =~= seq![
        plcp0,
        conf0,
        plcp1,
        ext,
        dur,
        dur,
        dur,
        conf0,
        plcp0,
        rate,
        conf1,
        pti,
        pti,
        pti,
        pti,
        pti,
    ]);
}

proof fn lemma_one_store(v: MemView, a: u32, x: u32)
    ensures
        stores_since(v, v.st32(a, x), seq![a]),
{
    broadcast use crate::mem_laws::group_log;

}

} // verus!
