//! Frames leave a pending list in the order in which they were submitted.
use crate::eb_pool::EB_SIZE;
use crate::frame::{
    header_shifted, header_written, proto_marked, sec_len_of, sec_processed, SEC_HDR_ROOM,
};
use crate::frame_laws::own_parts;
use crate::layout::{ctrl_plus_len, DmaDesc, Eb, PendingQ, TxInfo, TXRXCXT_PTR};
use crate::mac_reg::{PM_TXBLOCK_RETENTION, SYS_TIMER};
use crate::mem_laws::{rd32_after_st_bytes, rd8_after_st_bytes};
use crate::mmio::{ahead, apart, MemView};
use crate::pending::{
    append_adds_at_the_end, appended, holds, link_addr, links_apart, pop_of_nothing,
    pop_takes_the_first, poppable, popped,
};
use crate::pipeline::{enqueued, mapped, submit_begun, submit_resumed, DriverView, Submit};
use crate::pipeline_laws::{submit_gives_back_only_what_it_drops, Outside};
use crate::pm_wake::{wake_resumed, PmCells, Wake, G_IC_PTR, IC_RF_PHY_MASK, PM_DISC, PM_STATE};
use crate::submit_laws::lemma_mapped_bits;
use crate::wake_laws::{mask_of, wake_touches_only_pm_state};
use vstd::prelude::*;

verus! {

/// Bytes of an eb up to and with its txinfo pointer.
pub const EB_BYTES: u32 = 0x38;

/// Bytes of a txinfo up to and with its timestamp.
pub const TXINFO_BYTES: u32 = 0x1c;

/// Bytes of a descriptor up to and with its frame pointer.
pub const DESC_BYTES: u32 = 8;

/// Where the submit of a frame stores: the parts of the frame, and the bytes of the modem wake.
pub struct Footprint {
    pub eb: u32,
    pub txinfo: u32,
    pub dma: u32,
    pub sec: u32,
    /// The reserved header, in front of the frame's own bytes.
    pub hdr: u32,
    /// The PHY user mask.
    pub mask: u32,
    /// The two state bytes of the power management.
    pub state: u32,
    pub disc: u32,
}

/// The footprint of the submit of `eb`.
pub open spec fn footprint_of(v: MemView, cells: PmCells, eb: Eb) -> Footprint {
    let dma = eb.dma_desc_in(v);
    let p = dma.frame_ptr_in(v);
    Footprint {
        eb: eb.0,
        txinfo: eb.txinfo_in(v).0,
        dma: dma.0,
        sec: eb.sec_desc_in(v).0,
        hdr: if eb.flags16_in(v) & Eb::FLAG16_HDR_SHIFTED != 0 {
            p
        } else {
            p.wrapping_sub(SEC_HDR_ROOM)
        },
        mask: v.rd32(G_IC_PTR).wrapping_add(IC_RF_PHY_MASK),
        state: cells.g_pm.wrapping_add(PM_STATE),
        disc: cells.g_pm.wrapping_add(PM_DISC),
    }
}

impl Footprint {
    /// The wake stores to none of the `n` bytes from `b`.
    pub open spec fn wake_spares(self, b: u32, n: int) -> bool {
        &&& apart(self.mask, 1, b, n)
        &&& apart(self.state, 1, b, n)
        &&& apart(self.disc, 1, b, n)
        &&& apart(PM_TXBLOCK_RETENTION, 4, b, n)
    }

    /// None of the `n` bytes from `b` is part of the frame.
    pub open spec fn frame_spares(self, b: u32, n: int) -> bool {
        &&& apart(self.eb, EB_BYTES as int, b, n)
        &&& apart(self.txinfo, TXINFO_BYTES as int, b, n)
        &&& apart(self.dma, DESC_BYTES as int, b, n)
        &&& apart(self.sec, DESC_BYTES as int, b, n)
        &&& apart(self.hdr, SEC_HDR_ROOM as int, b, n)
    }

    /// The submit stores to none of the `n` bytes from `b`.
    pub open spec fn spares(self, b: u32, n: int) -> bool {
        self.frame_spares(b, n) && self.wake_spares(b, n)
    }

    /// The byte at `a` is part of the eb, the txinfo or a descriptor of the frame.
    pub open spec fn has(self, a: u32) -> bool {
        ||| ahead(self.eb, a) < EB_BYTES
        ||| ahead(self.txinfo, a) < TXINFO_BYTES
        ||| ahead(self.dma, a) < DESC_BYTES
        ||| ahead(self.sec, a) < DESC_BYTES
    }

    /// The submit stores to no part of the frame of `other`.
    pub open spec fn spares_frame(self, other: Footprint) -> bool {
        &&& self.spares(other.eb, EB_BYTES as int)
        &&& self.spares(other.txinfo, TXINFO_BYTES as int)
        &&& self.spares(other.dma, DESC_BYTES as int)
        &&& self.spares(other.sec, DESC_BYTES as int)
    }

    /// The parts of the frame lie apart, but for the two descriptors, which may be one, and the wake
    /// stores to neither eb nor txinfo.
    pub open spec fn wf(self) -> bool {
        &&& self.eb != 0
        &&& apart(self.eb, EB_BYTES as int, self.txinfo, TXINFO_BYTES as int)
        &&& apart(self.eb, EB_BYTES as int, self.dma, DESC_BYTES as int)
        &&& apart(self.eb, EB_BYTES as int, self.sec, DESC_BYTES as int)
        &&& apart(self.eb, EB_BYTES as int, self.hdr, SEC_HDR_ROOM as int)
        &&& apart(self.txinfo, TXINFO_BYTES as int, self.dma, DESC_BYTES as int)
        &&& apart(self.txinfo, TXINFO_BYTES as int, self.sec, DESC_BYTES as int)
        &&& apart(self.txinfo, TXINFO_BYTES as int, self.hdr, SEC_HDR_ROOM as int)
        &&& self.sec == self.dma || apart(self.sec, DESC_BYTES as int, self.dma, DESC_BYTES as int)
        &&& self.wake_spares(self.eb, EB_BYTES as int)
        &&& self.wake_spares(self.txinfo, TXINFO_BYTES as int)
    }
}

/// Outside the footprint the two address spaces agree.
pub open spec fn agree_outside(v: MemView, w: MemView, f: Footprint) -> bool {
    forall|a: u32| f.spares(a, 1) ==> #[trigger] w.rd8(a) == v.rd8(a)
}

/// What the submit reads of a frame to map it is the same in both address spaces.
spec fn same_mapping(v: MemView, w: MemView, eb: Eb) -> bool {
    let ti = eb.txinfo_in(v);
    &&& eb.txinfo_in(w) == ti
    &&& eb.trc_in(w) == eb.trc_in(v)
    &&& ti.cat_word_in(w) == ti.cat_word_in(v)
    &&& ti.word10_in(w) == ti.word10_in(v)
}

proof fn lemma_spared_byte(f: Footprint, b: u32, n: int, a: u32)
    requires
        f.spares(b, n),
        ahead(b, a) < n,
    ensures
        f.spares(a, 1),
{
}

proof fn lemma_spared_word(v: MemView, w: MemView, f: Footprint, b: u32)
    requires
        agree_outside(v, w, f),
        f.spares(b, 4),
    ensures
        w.rd32(b) == v.rd32(b),
{
    reveal(MemView::rd32);
    lemma_spared_byte(f, b, 4, b);
    lemma_spared_byte(f, b, 4, b.wrapping_add(1));
    lemma_spared_byte(f, b, 4, b.wrapping_add(2));
    lemma_spared_byte(f, b, 4, b.wrapping_add(3));
}

proof fn lemma_proto_step(v: MemView, cells: PmCells, eb: Eb)
    requires
        footprint_of(v, cells, eb).wf(),
        footprint_of(v, cells, eb).spares(G_IC_PTR, 4),
    ensures
        ({
            let w = proto_marked(v, eb);
            &&& agree_outside(v, w, footprint_of(v, cells, eb))
            &&& same_mapping(v, w, eb)
            &&& footprint_of(w, cells, eb) == footprint_of(v, cells, eb)
        }),
{
    broadcast use crate::mem_laws::group_loads;

}

proof fn lemma_header_step(v: MemView, f: Footprint, eb: Eb)
    requires
        f.wf(),
        f.eb == eb.0,
        f.txinfo == eb.txinfo_in(v).0,
    ensures
        ({
            let w = header_written(v, eb, f.hdr);
            agree_outside(v, w, f) && same_mapping(v, w, eb)
        }),
{
    broadcast use crate::mem_laws::group_loads;

    let z = Seq::new(SEC_HDR_ROOM as nat, |i: int| 0u8);
    let v1 = v.st_bytes(f.hdr, z);
    let ti = eb.txinfo_in(v).0;
    rd32_after_st_bytes(v, f.hdr, z, eb.0.wrapping_add(Eb::TXINFO));
    rd32_after_st_bytes(v, f.hdr, z, eb.0.wrapping_add(Eb::TRC));
    rd32_after_st_bytes(v, f.hdr, z, ti.wrapping_add(TxInfo::CAT));
    rd32_after_st_bytes(v, f.hdr, z, ti.wrapping_add(TxInfo::WORD10));
    assert(same_mapping(v, v1, eb));
    assert forall|a: u32| f.spares(a, 1) implies #[trigger] v1.rd8(a) == v.rd8(a) by {
        rd8_after_st_bytes(v, f.hdr, z, a);
    }
}

/// Nothing but lengths and descriptor control words differs between the two address spaces.
spec fn steady(v: MemView, w: MemView, f: Footprint, eb: Eb) -> bool {
    &&& agree_outside(v, w, f)
    &&& same_mapping(v, w, eb)
    &&& eb.dma_desc_in(w) == eb.dma_desc_in(v)
    &&& eb.sec_desc_in(w) == eb.sec_desc_in(v)
    &&& eb.flags16_in(w) == eb.flags16_in(v)
    &&& eb.dma_desc_in(v).frame_ptr_in(w) == eb.dma_desc_in(v).frame_ptr_in(v)
}

/// The footprint is that of the frame.
spec fn fits(v: MemView, f: Footprint, eb: Eb) -> bool {
    &&& f.wf()
    &&& f.eb == eb.0
    &&& f.txinfo == eb.txinfo_in(v).0
    &&& f.dma == eb.dma_desc_in(v).0
    &&& f.sec == eb.sec_desc_in(v).0
}

proof fn lemma_ctrl_step(v: MemView, f: Footprint, eb: Eb, desc: DmaDesc, x: u32)
    requires
        fits(v, f, eb),
        desc.0 == f.dma || desc.0 == f.sec,
    ensures
        steady(v, desc.with_ctrl(v, x), f, eb),
{
    broadcast use crate::mem_laws::group_loads;

}

proof fn lemma_length_step(v: MemView, f: Footprint, eb: Eb, x: u16)
    requires
        fits(v, f, eb),
    ensures
        steady(v, eb.with_payload_len(v, x), f, eb),
        steady(v, eb.with_prefix_len(v, x), f, eb),
{
    broadcast use crate::mem_laws::group_loads;

}

proof fn lemma_shift_step(v: MemView, f: Footprint, eb: Eb)
    requires
        fits(v, f, eb),
    ensures
        ({
            let w = header_shifted(v, eb);
            &&& agree_outside(v, w, f)
            &&& same_mapping(v, w, eb)
            &&& eb.dma_desc_in(v).frame_ptr_in(w) == eb.dma_desc_in(v).frame_ptr_in(v).wrapping_sub(
                SEC_HDR_ROOM,
            )
        }),
{
    let dma = eb.dma_desc_in(v);
    let p = dma.frame_ptr_in(v).wrapping_sub(SEC_HDR_ROOM);
    let v1 = dma.with_frame_ptr(v, p);
    let v2 = eb.with_prefix_len(v1, (eb.prefix_len_in(v1) + SEC_HDR_ROOM) as u16);
    let v3 = eb.with_flags16(v2, eb.flags16_in(v2) | Eb::FLAG16_HDR_SHIFTED);
    assert(agree_outside(v, v1, f) && same_mapping(v, v1, eb) && fits(v1, f, eb)
        && dma.frame_ptr_in(v1) == p) by {
        broadcast use crate::mem_laws::group_loads;

    }
    lemma_length_step(v1, f, eb, (eb.prefix_len_in(v1) + SEC_HDR_ROOM) as u16);
    assert(agree_outside(v2, v3, f) && same_mapping(v2, v3, eb) && fits(v3, f, eb)
        && dma.frame_ptr_in(v3) == p) by {
        broadcast use crate::mem_laws::group_loads;

    }
    lemma_ctrl_step(v3, f, eb, dma, ctrl_plus_len(dma.ctrl_in(v3), SEC_HDR_ROOM));
}

proof fn lemma_sec_step(v: MemView, cells: PmCells, eb: Eb)
    requires
        footprint_of(v, cells, eb).wf(),
    ensures
        ({
            let w = sec_processed(v, eb);
            &&& agree_outside(v, w, footprint_of(v, cells, eb))
            &&& same_mapping(v, w, eb)
        }),
{
    let f = footprint_of(v, cells, eb);
    let ti = eb.txinfo_in(v);
    let len = sec_len_of(v, ti.word10_in(v));
    let n = (eb.payload_len_in(v) + len) as u16;
    let v1 = eb.with_payload_len(v, n);
    lemma_length_step(v, f, eb, n);
    let sec = eb.sec_desc_in(v1);
    let c2 = ctrl_plus_len(sec.ctrl_in(v1), len);
    let v2 = sec.with_ctrl(v1, c2);
    lemma_ctrl_step(v1, f, eb, sec, c2);
    let c3 = sec.ctrl_in(v2) | DmaDesc::CTRL_EOF;
    let v3 = sec.with_ctrl(v2, c3);
    lemma_ctrl_step(v2, f, eb, sec, c3);
    assert(steady(v, v3, f, eb));
    lemma_shift_step(v3, f, eb);
    let v4 = if eb.flags16_in(v3) & Eb::FLAG16_HDR_SHIFTED == 0 {
        header_shifted(v3, eb)
    } else {
        v3
    };
    assert(eb.dma_desc_in(v3).frame_ptr_in(v4) == f.hdr);
    lemma_header_step(v4, f, eb);
}

/// The frame is mapped to the AC of its interface.
pub open spec fn maps_to(v: MemView, eb: Eb, ac: u32) -> bool {
    let ti = eb.txinfo_in(v);
    &&& ti.cat_word_in(v) & 0xf0 != 0x40
    &&& eb.trc_in(v) == 0
    &&& ti.iface_in(v) == ac
}

/// The frame is about to be enqueued on the list of `ac`.
spec fn mapped_to(v: MemView, eb: Eb, txinfo: u32, ac: u32) -> bool {
    eb.txinfo_in(v).0 == txinfo && eb.txinfo_in(v).ac_in(v) == ac
}

proof fn lemma_map_step(v: MemView, d: DriverView, f: Footprint, eb: Eb, ac: u32)
    requires
        f.wf(),
        f.eb == eb.0,
        f.txinfo == eb.txinfo_in(v).0,
        f.mask == v.rd32(G_IC_PTR).wrapping_add(IC_RF_PHY_MASK),
        f.spares(G_IC_PTR, 4),
        maps_to(v, eb, ac),
    ensures
        ({
            let t = mapped(v, d, eb);
            &&& t.2 matches Some((pre, wake))
            &&& agree_outside(v, t.0, f)
            &&& mapped_to(t.0, eb, f.txinfo, ac)
            &&& t.0.rd32(G_IC_PTR) == v.rd32(G_IC_PTR)
            &&& mask_of(t.0, wake) == f.mask
            &&& t.1.cells == d.cells
        }),
{
    broadcast use crate::mem_laws::group_loads;

    let ti = eb.txinfo_in(v);
    let v1 = ti.with_cat(v, 7);
    lemma_mapped_bits(ti.word10_in(v), 0);
    lemma_mapped_bits(ti.word10_in(v), ti.iface_in(v));
    assert(ti.word10_in(v1) == ti.word10_in(v));
}

proof fn lemma_wake_step(
    v: MemView,
    d: DriverView,
    f: Footprint,
    eb: Eb,
    ac: u32,
    w: Wake,
    reply: u64,
)
    requires
        f.wf(),
        f.eb == eb.0,
        f.state == d.cells.g_pm.wrapping_add(PM_STATE),
        f.disc == d.cells.g_pm.wrapping_add(PM_DISC),
        f.mask == v.rd32(G_IC_PTR).wrapping_add(IC_RF_PHY_MASK),
        f.mask == mask_of(v, w),
        f.spares(G_IC_PTR, 4),
        mapped_to(v, eb, f.txinfo, ac),
    ensures
        ({
            let t = wake_resumed(v, d.pm, d.cells, d.cfg.pm_wake_experiment, w, reply);
            &&& agree_outside(v, t.0, f)
            &&& mapped_to(t.0, eb, f.txinfo, ac)
            &&& t.0.rd32(G_IC_PTR) == v.rd32(G_IC_PTR)
            &&& mask_of(t.0, t.2) == f.mask
        }),
{
    let t = wake_resumed(v, d.pm, d.cells, d.cfg.pm_wake_experiment, w, reply);
    assert forall|a: u32| f.wake_spares(a, 1) implies #[trigger] t.0.rd8(a) == v.rd8(a) by {
        wake_touches_only_pm_state(v, d.pm, d.cells, d.cfg.pm_wake_experiment, w, reply, a);
    }
    lemma_wake_spared_word(v, t.0, f, G_IC_PTR);
    lemma_wake_spared_word(v, t.0, f, eb.0.wrapping_add(Eb::TXINFO));
    lemma_wake_spared_word(v, t.0, f, f.txinfo.wrapping_add(TxInfo::WORD10));
}

proof fn lemma_wake_spared_word(v: MemView, w: MemView, f: Footprint, b: u32)
    requires
        forall|a: u32| f.wake_spares(a, 1) ==> #[trigger] w.rd8(a) == v.rd8(a),
        f.wake_spares(b, 4),
    ensures
        w.rd32(b) == v.rd32(b),
{
    reveal(MemView::rd32);
    assert(f.wake_spares(b, 1));
    assert(f.wake_spares(b.wrapping_add(1), 1));
    assert(f.wake_spares(b.wrapping_add(2), 1));
    assert(f.wake_spares(b.wrapping_add(3), 1));
}

/// A submit with all the outside work that it waits for.
pub open spec fn submit_run(v: MemView, d: DriverView, s: Submit, work: Seq<Outside>) -> (
    MemView,
    DriverView,
    Submit,
)
    decreases work.len(),
{
    if s is Done || work.len() == 0 {
        (v, d, s)
    } else {
        let t = submit_resumed(work[0].mem, d, s, work[0].reply);
        submit_run(t.0, t.1, t.2, work.drop_first())
    }
}

/// The submit of `eb` from its start.
pub open spec fn submitted(v: MemView, d: DriverView, eb: Eb, work: Seq<Outside>) -> (
    MemView,
    DriverView,
    Submit,
) {
    let t = submit_begun(v, d, eb);
    submit_run(t.0, t.1, t.2, work)
}

/// The two address spaces agree on the bytes of `keep`.
pub open spec fn agree_on(v: MemView, w: MemView, keep: spec_fn(u32) -> bool) -> bool {
    forall|a: u32| keep(a) ==> #[trigger] w.rd8(a) == v.rd8(a)
}

/// The outside work of a submit leaves the bytes of `keep` alone.
pub open spec fn work_spares(
    v: MemView,
    d: DriverView,
    s: Submit,
    work: Seq<Outside>,
    keep: spec_fn(u32) -> bool,
) -> bool
    decreases work.len(),
{
    s is Done || work.len() == 0 || {
        let t = submit_resumed(work[0].mem, d, s, work[0].reply);
        agree_on(v, work[0].mem, keep) && work_spares(t.0, t.1, t.2, work.drop_first(), keep)
    }
}

/// The same of a submit of `eb` from its start.
pub open spec fn submit_spares(
    v: MemView,
    d: DriverView,
    eb: Eb,
    work: Seq<Outside>,
    keep: spec_fn(u32) -> bool,
) -> bool {
    let t = submit_begun(v, d, eb);
    work_spares(t.0, t.1, t.2, work, keep)
}

/// The `n` bytes from `b` belong to `keep`.
pub open spec fn covers(keep: spec_fn(u32) -> bool, b: u32, n: int) -> bool {
    forall|a: u32| ahead(b, a) < n ==> #[trigger] keep(a)
}

/// The eb, the txinfo and the descriptors of a frame belong to `keep`.
pub open spec fn covers_frame(keep: spec_fn(u32) -> bool, f: Footprint) -> bool {
    &&& covers(keep, f.eb, EB_BYTES as int)
    &&& covers(keep, f.txinfo, TXINFO_BYTES as int)
    &&& covers(keep, f.dma, DESC_BYTES as int)
    &&& covers(keep, f.sec, DESC_BYTES as int)
}

/// The pending list, its guards and the pointers to it and to the PHY user mask belong to `keep`.
pub open spec fn covers_queue(keep: spec_fn(u32) -> bool, q: PendingQ) -> bool {
    &&& covers(keep, q.0.wrapping_add(PendingQ::HEAD), 8)
    &&& covers(keep, q.0.wrapping_add(PendingQ::GUARD_BYTE), 1)
    &&& covers(keep, q.0.wrapping_add(PendingQ::GUARD_WORD), 4)
    &&& covers(keep, TXRXCXT_PTR, 4)
    &&& covers(keep, G_IC_PTR, 4)
}

/// The list lies apart from the submit's footprint and from the two pointers.
pub open spec fn queue_apart(f: Footprint, q: PendingQ) -> bool {
    &&& f.spares(q.0.wrapping_add(PendingQ::HEAD), 8)
    &&& f.spares(q.0.wrapping_add(PendingQ::GUARD_BYTE), 1)
    &&& f.spares(q.0.wrapping_add(PendingQ::GUARD_WORD), 4)
    &&& f.spares(TXRXCXT_PTR, 4)
    &&& f.spares(G_IC_PTR, 4)
    &&& apart(q.0.wrapping_add(PendingQ::HEAD), 8, TXRXCXT_PTR, 4)
    &&& apart(q.0.wrapping_add(PendingQ::HEAD), 8, G_IC_PTR, 4)
}

/// The links of the pending ebs lie apart from each other, from the list, from the submit's footprint
/// and from the two pointers.
pub open spec fn pending_apart(f: Footprint, q: PendingQ, s: Seq<u32>) -> bool {
    &&& links_apart(q, s)
    &&& forall|i: int|
        0 <= i < s.len() ==> {
            &&& f.spares(link_addr(#[trigger] s[i]), 4)
            &&& apart(link_addr(s[i]), 4, TXRXCXT_PTR, 4)
            &&& apart(link_addr(s[i]), 4, G_IC_PTR, 4)
        }
}

/// The links of the pending ebs belong to `keep`.
pub open spec fn covers_links(keep: spec_fn(u32) -> bool, s: Seq<u32>) -> bool {
    forall|i: int| 0 <= i < s.len() ==> covers(keep, link_addr(#[trigger] s[i]), 4)
}

/// Of the bytes of `keep`, a submit with the footprint `f` to the list `q`, on which `s` is pending,
/// changes only those of its footprint, of the list's head and tail, and of the links.
pub open spec fn kept_by_submit(
    v: MemView,
    w: MemView,
    keep: spec_fn(u32) -> bool,
    f: Footprint,
    q: PendingQ,
    s: Seq<u32>,
) -> bool {
    forall|a: u32|
        keep(a) && f.spares(a, 1) && apart(q.0.wrapping_add(PendingQ::HEAD), 8, a, 1) && (forall|
            i: int,
        |
            0 <= i < s.len() ==> apart(link_addr(#[trigger] s[i]), 4, a, 1)) ==> #[trigger] w.rd8(a)
            == v.rd8(a)
}

/// Of the bytes of `keep`, only those of the footprint have changed.
spec fn kept(v: MemView, w: MemView, keep: spec_fn(u32) -> bool, f: Footprint) -> bool {
    forall|a: u32| keep(a) && f.spares(a, 1) ==> #[trigger] w.rd8(a) == v.rd8(a)
}

pub(crate) proof fn lemma_agreed_word(v: MemView, w: MemView, keep: spec_fn(u32) -> bool, b: u32)
    requires
        agree_on(v, w, keep),
        covers(keep, b, 4),
    ensures
        w.rd32(b) == v.rd32(b),
{
    reveal(MemView::rd32);
    assert(keep(b) && keep(b.wrapping_add(1)) && keep(b.wrapping_add(2)) && keep(
        b.wrapping_add(3),
    ));
}

proof fn lemma_kept_word(
    v: MemView,
    w: MemView,
    keep: spec_fn(u32) -> bool,
    f: Footprint,
    b: u32,
)
    requires
        kept(v, w, keep, f),
        covers(keep, b, 4),
        f.spares(b, 4),
    ensures
        w.rd32(b) == v.rd32(b),
{
    let both = |a: u32| keep(a) && f.spares(a, 1);
    assert forall|a: u32| ahead(b, a) < 4 implies #[trigger] both(a) by {
        lemma_spared_byte(f, b, 4, a);
    }
    lemma_agreed_word(v, w, both, b);
}

proof fn lemma_part_spared(f: Footprint, b: u32, n: int, c: u32, k: int)
    requires
        f.spares(b, n),
        ahead(b, c) + k <= n,
        k > 0,
    ensures
        f.spares(c, k),
{
}

proof fn lemma_list_kept(
    v: MemView,
    w: MemView,
    keep: spec_fn(u32) -> bool,
    f: Footprint,
    q: PendingQ,
    s: Seq<u32>,
)
    requires
        kept(v, w, keep, f),
        covers_queue(keep, q),
        covers_links(keep, s),
        queue_apart(f, q),
        pending_apart(f, q, s),
        holds(v, q, s),
    ensures
        holds(w, q, s),
        poppable(w, q) == poppable(v, q),
        w.rd32(TXRXCXT_PTR) == v.rd32(TXRXCXT_PTR),
        w.rd32(G_IC_PTR) == v.rd32(G_IC_PTR),
{
    let h = q.0.wrapping_add(PendingQ::HEAD);
    let t = q.0.wrapping_add(PendingQ::TAIL);
    lemma_part_spared(f, h, 8, h, 4);
    lemma_part_spared(f, h, 8, t, 4);
    lemma_kept_word(v, w, keep, f, h);
    lemma_kept_word(v, w, keep, f, t);
    lemma_kept_word(v, w, keep, f, q.0.wrapping_add(PendingQ::GUARD_WORD));
    lemma_kept_word(v, w, keep, f, TXRXCXT_PTR);
    lemma_kept_word(v, w, keep, f, G_IC_PTR);
    assert(keep(q.0.wrapping_add(PendingQ::GUARD_BYTE)));
    assert forall|i: int| 0 <= i < s.len() implies #[trigger] s[i] != 0 && w.rd32(link_addr(s[i]))
        == (if i + 1 < s.len() {
        s[i + 1]
    } else {
        0
    }) by {
        lemma_kept_word(v, w, keep, f, link_addr(s[i]));
    }
}

/// The frame is mapped to `ac` and pending behind those of `s`.
spec fn queued(
    v: MemView,
    w: MemView,
    keep: spec_fn(u32) -> bool,
    f: Footprint,
    q: PendingQ,
    s: Seq<u32>,
    ac: u32,
) -> bool {
    &&& holds(w, q, s.push(f.eb))
    &&& mapped_to(w, Eb(f.eb), f.txinfo, ac)
    &&& poppable(w, q) == poppable(v, q)
    &&& w.rd32(TXRXCXT_PTR) == v.rd32(TXRXCXT_PTR)
    &&& w.rd32(G_IC_PTR) == v.rd32(G_IC_PTR)
    &&& kept_by_submit(v, w, keep, f, q, s)
}

proof fn lemma_links_with(f: Footprint, q: PendingQ, s: Seq<u32>)
    requires
        queue_apart(f, q),
        pending_apart(f, q, s),
    ensures
        links_apart(q, s.push(f.eb)),
{
    let t = s.push(f.eb);
    assert(t[s.len() as int] == f.eb);
    assert forall|i: int| 0 <= i < t.len() implies {
        &&& apart(link_addr(#[trigger] t[i]), 4, q.0.wrapping_add(PendingQ::HEAD), 8)
        &&& apart(link_addr(t[i]), 4, q.0.wrapping_add(PendingQ::GUARD_BYTE), 1)
        &&& apart(link_addr(t[i]), 4, q.0.wrapping_add(PendingQ::GUARD_WORD), 4)
    } by {
        if i < s.len() {
            assert(t[i] == s[i]);
        }
    }
    assert forall|i: int, j: int| 0 <= i < j < t.len() implies apart(
        link_addr(#[trigger] t[i]),
        4,
        link_addr(#[trigger] t[j]),
        4,
    ) by {
        assert(t[i] == s[i]);
        if j < s.len() {
            assert(t[j] == s[j]);
        } else {
            assert(f.spares(link_addr(s[i]), 4));
        }
    }
}

/// The tail of the list points at its head or at the last link.
spec fn tail_in_place(v: MemView, q: PendingQ, s: Seq<u32>) -> bool {
    q.tail_in(v) == q.0.wrapping_add(PendingQ::HEAD) || (s.len() > 0 && q.tail_in(v) == link_addr(
        s.last(),
    ))
}

proof fn lemma_append_byte(v: MemView, f: Footprint, q: PendingQ, s: Seq<u32>, a: u32)
    requires
        queue_apart(f, q),
        tail_in_place(v, q, s),
        apart(link_addr(f.eb), 4, a, 1),
        apart(q.0.wrapping_add(PendingQ::HEAD), 8, a, 1),
        s.len() > 0 ==> apart(link_addr(s.last()), 4, a, 1),
    ensures
        appended(v, q, Eb(f.eb)).rd8(a) == v.rd8(a),
{
    let eb = Eb(f.eb);
    let v1 = eb.with_pending_next(v, 0);
    assert(q.tail_in(v1) == q.tail_in(v)) by {
        broadcast use crate::mem_laws::group_loads;

    }
    broadcast use crate::mem_laws::group_loads;

}

proof fn lemma_append_word(v: MemView, f: Footprint, q: PendingQ, s: Seq<u32>, b: u32)
    requires
        queue_apart(f, q),
        tail_in_place(v, q, s),
        apart(link_addr(f.eb), 4, b, 4),
        apart(q.0.wrapping_add(PendingQ::HEAD), 8, b, 4),
        s.len() > 0 ==> apart(link_addr(s.last()), 4, b, 4),
    ensures
        appended(v, q, Eb(f.eb)).rd32(b) == v.rd32(b),
{
    reveal(MemView::rd32);
    lemma_append_byte(v, f, q, s, b);
    lemma_append_byte(v, f, q, s, b.wrapping_add(1));
    lemma_append_byte(v, f, q, s, b.wrapping_add(2));
    lemma_append_byte(v, f, q, s, b.wrapping_add(3));
}

proof fn lemma_link_spares(f: Footprint, b: u32, n: int)
    requires
        f.spares(b, n),
        n > 0,
    ensures
        apart(link_addr(f.eb), 4, b, n),
{
}

proof fn lemma_append_keeps_the_mapping(
    v: MemView,
    f: Footprint,
    q: PendingQ,
    s: Seq<u32>,
    ac: u32,
)
    requires
        f.wf(),
        queue_apart(f, q),
        tail_in_place(v, q, s),
        s.len() > 0 ==> f.spares(link_addr(s.last()), 4),
        mapped_to(v, Eb(f.eb), f.txinfo, ac),
    ensures
        mapped_to(appended(v, q, Eb(f.eb)), Eb(f.eb), f.txinfo, ac),
{
    lemma_append_word(v, f, q, s, f.eb.wrapping_add(Eb::TXINFO));
    lemma_append_word(v, f, q, s, f.txinfo.wrapping_add(TxInfo::WORD10));
}

proof fn lemma_enqueue_step(
    v0: MemView,
    v: MemView,
    keep: spec_fn(u32) -> bool,
    f: Footprint,
    q: PendingQ,
    s: Seq<u32>,
    eb: Eb,
    ac: u32,
)
    requires
        kept(v0, v, keep, f),
        covers_queue(keep, q),
        covers_links(keep, s),
        queue_apart(f, q),
        pending_apart(f, q, s),
        holds(v0, q, s),
        q == PendingQ::of_ac(v0, ac),
        f.wf(),
        f.eb == eb.0,
        mapped_to(v, eb, f.txinfo, ac),
    ensures
        queued(v0, enqueued(v, eb), keep, f, q, s, ac),
{
    let ti = eb.txinfo_in(v);
    let v1 = ti.with_timestamp(v, v.rd32(SYS_TIMER));
    assert(agree_outside(v, v1, f) && mapped_to(v1, eb, f.txinfo, ac)) by {
        broadcast use crate::mem_laws::group_loads;

    }
    assert(kept(v0, v1, keep, f));
    lemma_list_kept(v0, v1, keep, f, q, s);
    assert(PendingQ::of_ac(v1, ac) == q);
    lemma_links_with(f, q, s);
    append_adds_at_the_end(v1, q, s, eb);
    let w = appended(v1, q, eb);
    assert(tail_in_place(v1, q, s));
    if s.len() > 0 {
        assert(s.last() == s[s.len() - 1]);
    }
    lemma_link_spares(f, TXRXCXT_PTR, 4);
    lemma_link_spares(f, G_IC_PTR, 4);
    lemma_append_word(v1, f, q, s, TXRXCXT_PTR);
    lemma_append_word(v1, f, q, s, G_IC_PTR);
    lemma_append_keeps_the_mapping(v1, f, q, s, ac);
    assert forall|a: u32|
        keep(a) && f.spares(a, 1) && apart(q.0.wrapping_add(PendingQ::HEAD), 8, a, 1) && (forall|
            i: int,
        |
            0 <= i < s.len() ==> apart(link_addr(#[trigger] s[i]), 4, a, 1)) implies #[trigger] w.rd8(
        a,
    ) == v0.rd8(a) by {
        assert(v1.rd8(a) == v0.rd8(a));
        lemma_link_spares(f, a, 1);
        lemma_append_byte(v1, f, q, s, a);
    }
}

/// The frame `eb` can be submitted to the list of `ac`, on which `s` is pending, and `keep` has all
/// that its outside work has to leave alone.
pub open spec fn can_join(
    v: MemView,
    cells: PmCells,
    eb: Eb,
    ac: u32,
    s: Seq<u32>,
    keep: spec_fn(u32) -> bool,
) -> bool {
    let f = footprint_of(v, cells, eb);
    let q = PendingQ::of_ac(v, ac);
    &&& f.wf()
    &&& maps_to(v, eb, ac)
    &&& queue_apart(f, q)
    &&& pending_apart(f, q, s)
    &&& covers_frame(keep, f)
    &&& covers_queue(keep, q)
    &&& covers_links(keep, s)
}

/// A submit that began in `v0` has come to `st`.
spec fn on_its_way(
    v0: MemView,
    cells: PmCells,
    eb: Eb,
    ac: u32,
    s: Seq<u32>,
    keep: spec_fn(u32) -> bool,
    v: MemView,
    d: DriverView,
    st: Submit,
) -> bool {
    let f = footprint_of(v0, cells, eb);
    &&& d.cells == cells
    &&& match st {
        Submit::Done { ret } => ret == 0 ==> queued(
            v0,
            v,
            keep,
            f,
            PendingQ::of_ac(v0, ac),
            s,
            ac,
        ),
        Submit::VendorSecFrame { eb: e } => {
            &&& e == eb
            &&& kept(v0, v, keep, f)
            &&& v.rd32(G_IC_PTR) == v0.rd32(G_IC_PTR)
            &&& eb.txinfo_in(v).0 == f.txinfo
            &&& maps_to(v, eb, ac)
        },
        Submit::Wake { eb: e, pre, wake } => {
            &&& e == eb
            &&& kept(v0, v, keep, f)
            &&& v.rd32(G_IC_PTR) == v0.rd32(G_IC_PTR)
            &&& mapped_to(v, eb, f.txinfo, ac)
            &&& mask_of(v, wake) == f.mask
        },
    }
}

proof fn lemma_begin(
    v: MemView,
    d: DriverView,
    eb: Eb,
    ac: u32,
    s: Seq<u32>,
    keep: spec_fn(u32) -> bool,
)
    requires
        can_join(v, d.cells, eb, ac, s, keep),
    ensures
        ({
            let t = submit_begun(v, d, eb);
            on_its_way(v, d.cells, eb, ac, s, keep, t.0, t.1, t.2)
        }),
{
    reveal(submit_begun);
    let f = footprint_of(v, d.cells, eb);
    lemma_proto_step(v, d.cells, eb);
    let v1 = proto_marked(v, eb);
    lemma_spared_word(v, v1, f, G_IC_PTR);
    lemma_sec_step(v1, d.cells, eb);
    let v2 = sec_processed(v1, eb);
    lemma_spared_word(v1, v2, f, G_IC_PTR);
    lemma_map_step(v2, d, f, eb, ac);
}

proof fn lemma_step(
    v0: MemView,
    cells: PmCells,
    eb: Eb,
    ac: u32,
    s: Seq<u32>,
    keep: spec_fn(u32) -> bool,
    v: MemView,
    d: DriverView,
    st: Submit,
    o: Outside,
)
    requires
        can_join(v0, cells, eb, ac, s, keep),
        holds(v0, PendingQ::of_ac(v0, ac), s),
        on_its_way(v0, cells, eb, ac, s, keep, v, d, st),
        !(st is Done),
        agree_on(v, o.mem, keep),
    ensures
        ({
            let t = submit_resumed(o.mem, d, st, o.reply);
            on_its_way(v0, cells, eb, ac, s, keep, t.0, t.1, t.2)
        }),
{
    reveal(submit_resumed);
    let f = footprint_of(v0, cells, eb);
    let q = PendingQ::of_ac(v0, ac);
    lemma_agreed_word(v, o.mem, keep, G_IC_PTR);
    lemma_agreed_word(v, o.mem, keep, eb.0.wrapping_add(Eb::TXINFO));
    lemma_agreed_word(v, o.mem, keep, eb.0.wrapping_add(Eb::TRC));
    lemma_agreed_word(v, o.mem, keep, f.txinfo.wrapping_add(TxInfo::CAT));
    lemma_agreed_word(v, o.mem, keep, f.txinfo.wrapping_add(TxInfo::WORD10));
    assert(kept(v0, o.mem, keep, f));
    match st {
        Submit::Done { ret } => {},
        Submit::VendorSecFrame { eb: e } => {
            lemma_map_step(o.mem, d, f, eb, ac);
        },
        Submit::Wake { eb: e, pre, wake } => {
            if wake == Wake::Done {
                lemma_enqueue_step(v0, o.mem, keep, f, q, s, eb, ac);
            } else {
                lemma_wake_step(o.mem, d, f, eb, ac, wake, o.reply);
            }
        },
    }
}

proof fn lemma_run(
    v0: MemView,
    cells: PmCells,
    eb: Eb,
    ac: u32,
    s: Seq<u32>,
    keep: spec_fn(u32) -> bool,
    v: MemView,
    d: DriverView,
    st: Submit,
    work: Seq<Outside>,
)
    requires
        can_join(v0, cells, eb, ac, s, keep),
        holds(v0, PendingQ::of_ac(v0, ac), s),
        on_its_way(v0, cells, eb, ac, s, keep, v, d, st),
        work_spares(v, d, st, work, keep),
    ensures
        ({
            let t = submit_run(v, d, st, work);
            on_its_way(v0, cells, eb, ac, s, keep, t.0, t.1, t.2)
        }),
    decreases work.len(),
{
    if !(st is Done) && work.len() > 0 {
        let o = work[0];
        lemma_step(v0, cells, eb, ac, s, keep, v, d, st, o);
        let t = submit_resumed(o.mem, d, st, o.reply);
        lemma_run(v0, cells, eb, ac, s, keep, t.0, t.1, t.2, work.drop_first());
    }
}

proof fn lemma_run_keeps_the_pool(
    v: MemView,
    d: DriverView,
    eb: Eb,
    st: Submit,
    work: Seq<Outside>,
)
    requires
        st is Done || crate::pipeline_laws::submitted(st, eb),
    ensures
        ({
            let t = submit_run(v, d, st, work);
            t.2 == (Submit::Done { ret: 0 }) ==> t.1.pool == d.pool
        }),
    decreases work.len(),
{
    if !(st is Done) && work.len() > 0 {
        let o = work[0];
        submit_gives_back_only_what_it_drops(o.mem, d, eb, st, o.reply);
        let t = submit_resumed(o.mem, d, st, o.reply);
        lemma_run_keeps_the_pool(t.0, t.1, eb, t.2, work.drop_first());
    }
}

/// A frame that was submitted and not dropped is mapped to the AC of its interface and pending there
/// behind all those that were pending before it, whatever its outside work replied; the guards and the
/// pool stay as they are.
pub proof fn submitted_frame_comes_last(
    v: MemView,
    d: DriverView,
    eb: Eb,
    ac: u32,
    s: Seq<u32>,
    work: Seq<Outside>,
    keep: spec_fn(u32) -> bool,
)
    requires
        can_join(v, d.cells, eb, ac, s, keep),
        holds(v, PendingQ::of_ac(v, ac), s),
        submit_spares(v, d, eb, work, keep),
        submitted(v, d, eb, work).2 == (Submit::Done { ret: 0 }),
    ensures
        ({
            let t = submitted(v, d, eb, work);
            let q = PendingQ::of_ac(v, ac);
            &&& PendingQ::of_ac(t.0, ac) == q
            &&& holds(t.0, q, s.push(eb.0))
            &&& poppable(t.0, q) == poppable(v, q)
            &&& eb.txinfo_in(t.0) == eb.txinfo_in(v)
            &&& eb.txinfo_in(v).ac_in(t.0) == ac
            &&& t.1.pool == d.pool
            &&& t.0.rd32(G_IC_PTR) == v.rd32(G_IC_PTR)
            &&& kept_by_submit(v, t.0, keep, footprint_of(v, d.cells, eb), q, s)
            &&& t.1.cells == d.cells
        }),
{
    let t = submit_begun(v, d, eb);
    lemma_begin(v, d, eb, ac, s, keep);
    submit_gives_back_only_what_it_drops(v, d, eb, Submit::VendorSecFrame { eb }, 0);
    lemma_run_keeps_the_pool(t.0, t.1, eb, t.2, work);
    lemma_run(v, d.cells, eb, ac, s, keep, t.0, t.1, t.2, work);
}

/// The bytes that the outside work of two submits to the list `q` has to leave alone: the list with
/// its guards and pointers, and the two frames.
pub open spec fn list_and_frames(q: PendingQ, f1: Footprint, f2: Footprint) -> spec_fn(u32) -> bool {
    |a: u32|
        {
            ||| ahead(q.0.wrapping_add(PendingQ::HEAD), a) < 8
            ||| ahead(q.0.wrapping_add(PendingQ::GUARD_BYTE), a) < 1
            ||| ahead(q.0.wrapping_add(PendingQ::GUARD_WORD), a) < 4
            ||| ahead(TXRXCXT_PTR, a) < 4
            ||| ahead(G_IC_PTR, a) < 4
            ||| f1.has(a)
            ||| f2.has(a)
        }
}

/// An empty list of `ac` that may be popped, and two frames for it that share no byte with it or with
/// each other.
pub open spec fn two_frames_for(v: MemView, cells: PmCells, ac: u32, e1: Eb, e2: Eb) -> bool {
    let q = PendingQ::of_ac(v, ac);
    let f1 = footprint_of(v, cells, e1);
    let f2 = footprint_of(v, cells, e2);
    &&& holds(v, q, Seq::empty())
    &&& poppable(v, q)
    &&& maps_to(v, e1, ac)
    &&& maps_to(v, e2, ac)
    &&& f1.wf()
    &&& f2.wf()
    &&& queue_apart(f1, q)
    &&& queue_apart(f2, q)
    &&& f1.spares_frame(f2)
    &&& f2.spares_frame(f1)
}

proof fn lemma_word_of_the_other(
    v: MemView,
    w: MemView,
    keep: spec_fn(u32) -> bool,
    f: Footprint,
    q: PendingQ,
    part: u32,
    n: int,
    b: u32,
)
    requires
        kept_by_submit(v, w, keep, f, q, Seq::empty()),
        covers(keep, part, n),
        f.spares(part, n),
        apart(q.0.wrapping_add(PendingQ::HEAD), 8, part, n),
        ahead(part, b) + 4 <= n,
    ensures
        w.rd32(b) == v.rd32(b),
        w.rd16(b) == v.rd16(b),
{
    let all = |a: u32| keep(a) && f.spares(a, 1) && apart(q.0.wrapping_add(PendingQ::HEAD), 8, a, 1);
    assert forall|a: u32| ahead(b, a) < 4 implies #[trigger] all(a) by {
        assert(ahead(part, a) < n);
        assert(keep(a));
        lemma_spared_byte(f, part, n, a);
    }
    lemma_agreed_word(v, w, all, b);
    reveal(MemView::rd16);
    assert(all(b) && all(b.wrapping_add(1)));
}

proof fn lemma_other_frame(
    v: MemView,
    w: MemView,
    cells: PmCells,
    keep: spec_fn(u32) -> bool,
    f: Footprint,
    q: PendingQ,
    eb: Eb,
    ac: u32,
)
    requires
        kept_by_submit(v, w, keep, f, q, Seq::empty()),
        w.rd32(G_IC_PTR) == v.rd32(G_IC_PTR),
        covers_frame(keep, footprint_of(v, cells, eb)),
        f.spares_frame(footprint_of(v, cells, eb)),
        queue_apart(footprint_of(v, cells, eb), q),
        maps_to(v, eb, ac),
    ensures
        footprint_of(w, cells, eb) == footprint_of(v, cells, eb),
        maps_to(w, eb, ac),
{
    let g = footprint_of(v, cells, eb);
    let n = EB_BYTES as int;
    let k = TXINFO_BYTES as int;
    let c = g.txinfo.wrapping_add(TxInfo::CAT);
    let x = g.txinfo.wrapping_add(TxInfo::WORD10);
    let p = g.dma.wrapping_add(DmaDesc::FRAME_PTR);
    lemma_word_of_the_other(v, w, keep, f, q, g.eb, n, g.eb.wrapping_add(Eb::DMA_DESC));
    lemma_word_of_the_other(v, w, keep, f, q, g.eb, n, g.eb.wrapping_add(Eb::SEC_DESC));
    lemma_word_of_the_other(v, w, keep, f, q, g.eb, n, g.eb.wrapping_add(Eb::FLAGS16));
    lemma_word_of_the_other(v, w, keep, f, q, g.eb, n, g.eb.wrapping_add(Eb::TRC));
    lemma_word_of_the_other(v, w, keep, f, q, g.eb, n, g.eb.wrapping_add(Eb::TXINFO));
    lemma_word_of_the_other(v, w, keep, f, q, g.txinfo, k, c);
    lemma_word_of_the_other(v, w, keep, f, q, g.txinfo, k, x);
    lemma_word_of_the_other(v, w, keep, f, q, g.dma, DESC_BYTES as int, p);
}

proof fn lemma_pop_keeps_the_list(v: MemView, q: PendingQ, s: Seq<u32>, ac: u32)
    requires
        q == PendingQ::of_ac(v, ac),
        holds(v, q, s),
        s.len() > 0,
        apart(q.0.wrapping_add(PendingQ::HEAD), 8, TXRXCXT_PTR, 4),
        apart(link_addr(s[0]), 4, TXRXCXT_PTR, 4),
    ensures
        PendingQ::of_ac(popped(v, q).0, ac) == q,
{
    broadcast use crate::mem_laws::group_loads;

}

proof fn lemma_three_pops(v: MemView, q: PendingQ, ac: u32, s: Seq<u32>)
    requires
        q == PendingQ::of_ac(v, ac),
        s.len() == 2,
        holds(v, q, s),
        poppable(v, q),
        links_apart(q, s),
        apart(q.0.wrapping_add(PendingQ::HEAD), 8, TXRXCXT_PTR, 4),
        apart(link_addr(s[0]), 4, TXRXCXT_PTR, 4),
        apart(link_addr(s[1]), 4, TXRXCXT_PTR, 4),
    ensures
        ({
            let p1 = popped(v, PendingQ::of_ac(v, ac));
            let p2 = popped(p1.0, PendingQ::of_ac(p1.0, ac));
            let p3 = popped(p2.0, PendingQ::of_ac(p2.0, ac));
            &&& p1.1 == Eb(s[0])
            &&& p2.1 == Eb(s[1])
            &&& p3.1 == Eb(0)
            &&& PendingQ::of_ac(p3.0, ac) == q
            &&& holds(p3.0, q, Seq::empty())
            &&& poppable(p3.0, q)
        }),
{
    pop_takes_the_first(v, q, s);
    lemma_pop_keeps_the_list(v, q, s, ac);
    let p1 = popped(v, q);
    let last = s.drop_first();
    assert(last[0] == s[1]);
    assert(links_apart(q, last));
    pop_takes_the_first(p1.0, q, last);
    lemma_pop_keeps_the_list(p1.0, q, last, ac);
    let p2 = popped(p1.0, q);
    assert(last.drop_first() =~= Seq::<u32>::empty());
    pop_of_nothing(p2.0, q);
}

proof fn lemma_keep_covers(q: PendingQ, f1: Footprint, f2: Footprint)
    ensures
        covers_queue(list_and_frames(q, f1, f2), q),
        covers_frame(list_and_frames(q, f1, f2), f1),
        covers_frame(list_and_frames(q, f1, f2), f2),
        covers(list_and_frames(q, f1, f2), link_addr(f1.eb), 4),
{
    let keep = list_and_frames(q, f1, f2);
    assert forall|a: u32| ahead(link_addr(f1.eb), a) < 4 implies #[trigger] keep(a) by {
        assert(f1.has(a));
    }
}

proof fn lemma_first_link(f1: Footprint, f2: Footprint, q: PendingQ)
    requires
        queue_apart(f1, q),
        f2.spares_frame(f1),
    ensures
        pending_apart(f2, q, seq![f1.eb]),
        apart(link_addr(f1.eb), 4, TXRXCXT_PTR, 4),
{
    lemma_part_spared(f2, f1.eb, EB_BYTES as int, link_addr(f1.eb), 4);
}

/// First in, first out: of two frames that were submitted one after the other to an empty list and
/// not dropped, the first pop gives the first, the second pop the second, and the third none; the list
/// is then empty as it was, with its tail at its own head.
pub proof fn frames_leave_in_the_order_of_their_submits(
    v: MemView,
    d: DriverView,
    ac: u32,
    e1: Eb,
    e2: Eb,
    work1: Seq<Outside>,
    work2: Seq<Outside>,
)
    requires
        two_frames_for(v, d.cells, ac, e1, e2),
        ({
            let keep = list_and_frames(
                PendingQ::of_ac(v, ac),
                footprint_of(v, d.cells, e1),
                footprint_of(v, d.cells, e2),
            );
            let t1 = submitted(v, d, e1, work1);
            let t2 = submitted(t1.0, t1.1, e2, work2);
            &&& submit_spares(v, d, e1, work1, keep)
            &&& t1.2 == (Submit::Done { ret: 0 })
            &&& submit_spares(t1.0, t1.1, e2, work2, keep)
            &&& t2.2 == (Submit::Done { ret: 0 })
        }),
    ensures
        ({
            let t1 = submitted(v, d, e1, work1);
            let t2 = submitted(t1.0, t1.1, e2, work2);
            let p1 = popped(t2.0, PendingQ::of_ac(t2.0, ac));
            let p2 = popped(p1.0, PendingQ::of_ac(p1.0, ac));
            let p3 = popped(p2.0, PendingQ::of_ac(p2.0, ac));
            let q = PendingQ::of_ac(v, ac);
            &&& p1.1 == e1
            &&& p2.1 == e2
            &&& p3.1 == Eb(0)
            &&& PendingQ::of_ac(p3.0, ac) == q
            &&& q.head_in(p3.0) == 0
            &&& q.tail_in(p3.0) == q.0.wrapping_add(PendingQ::HEAD)
            &&& poppable(p3.0, q)
        }),
{
    let q = PendingQ::of_ac(v, ac);
    let f1 = footprint_of(v, d.cells, e1);
    let f2 = footprint_of(v, d.cells, e2);
    let keep = list_and_frames(q, f1, f2);
    let none = Seq::<u32>::empty();
    let one = seq![e1.0];
    let both = one.push(e2.0);
    lemma_keep_covers(q, f1, f2);
    assert(can_join(v, d.cells, e1, ac, none, keep));
    submitted_frame_comes_last(v, d, e1, ac, none, work1, keep);
    assert(none.push(e1.0) =~= one);
    let t1 = submitted(v, d, e1, work1);
    lemma_other_frame(v, t1.0, d.cells, keep, f1, q, e2, ac);
    lemma_first_link(f1, f2, q);
    assert(can_join(t1.0, d.cells, e2, ac, one, keep));
    submitted_frame_comes_last(t1.0, t1.1, e2, ac, one, work2, keep);
    let t2 = submitted(t1.0, t1.1, e2, work2);
    lemma_links_with(f2, q, one);
    lemma_first_link(f2, f1, q);
    lemma_three_pops(t2.0, q, ac, both);
}

/// The `n` bytes from `b` lie outside the block at `e`, and the wake does not store to them.
pub open spec fn outside_block(f: Footprint, e: u32, b: u32, n: int) -> bool {
    apart(e, EB_SIZE as int, b, n) && f.wake_spares(b, n)
}

/// The list of `ac` and its pointers lie outside the block `eb`, and so does what the wake stores to.
pub open spec fn list_outside_block(v: MemView, cells: PmCells, ac: u32, eb: Eb) -> bool {
    let f = footprint_of(v, cells, eb);
    let q = PendingQ::of_ac(v, ac);
    &&& outside_block(f, eb.0, q.0.wrapping_add(PendingQ::HEAD), 8)
    &&& outside_block(f, eb.0, q.0.wrapping_add(PendingQ::GUARD_BYTE), 1)
    &&& outside_block(f, eb.0, q.0.wrapping_add(PendingQ::GUARD_WORD), 4)
    &&& outside_block(f, eb.0, TXRXCXT_PTR, 4)
    &&& outside_block(f, eb.0, G_IC_PTR, 4)
    &&& apart(q.0.wrapping_add(PendingQ::HEAD), 8, TXRXCXT_PTR, 4)
    &&& apart(q.0.wrapping_add(PendingQ::HEAD), 8, G_IC_PTR, 4)
    &&& f.wake_spares(eb.0, EB_SIZE as int)
}

proof fn lemma_block_parts(v: MemView, cells: PmCells, ac: u32, eb: Eb)
    requires
        own_parts(v, eb),
        list_outside_block(v, cells, ac, eb),
    ensures
        footprint_of(v, cells, eb).wf(),
        queue_apart(footprint_of(v, cells, eb), PendingQ::of_ac(v, ac)),
{
}

proof fn lemma_other_block(v: MemView, cells: PmCells, e1: Eb, e2: Eb, part: u32, n: int)
    requires
        own_parts(v, e1),
        apart(e1.0, EB_SIZE as int, e2.0, EB_SIZE as int),
        footprint_of(v, cells, e1).wake_spares(e2.0, EB_SIZE as int),
        n > 0,
        ahead(e2.0, part) + n <= EB_SIZE,
    ensures
        footprint_of(v, cells, e1).spares(part, n),
{
    let f = footprint_of(v, cells, e1);
    assert(apart(e1.0, EB_SIZE as int, part, n));
    assert(f.wake_spares(part, n));
}

/// Two blocks of the pool are two frames as the law of their order asks for, where nothing else lies
/// in the blocks.
pub proof fn pool_blocks_share_nothing(v: MemView, cells: PmCells, ac: u32, e1: Eb, e2: Eb)
    requires
        own_parts(v, e1),
        own_parts(v, e2),
        apart(e1.0, EB_SIZE as int, e2.0, EB_SIZE as int),
        list_outside_block(v, cells, ac, e1),
        list_outside_block(v, cells, ac, e2),
        maps_to(v, e1, ac),
        maps_to(v, e2, ac),
        holds(v, PendingQ::of_ac(v, ac), Seq::empty()),
        poppable(v, PendingQ::of_ac(v, ac)),
    ensures
        two_frames_for(v, cells, ac, e1, e2),
{
    lemma_block_parts(v, cells, ac, e1);
    lemma_block_parts(v, cells, ac, e2);
    let f1 = footprint_of(v, cells, e1);
    let f2 = footprint_of(v, cells, e2);
    let n = EB_BYTES as int;
    let k = TXINFO_BYTES as int;
    let m = DESC_BYTES as int;
    lemma_other_block(v, cells, e1, e2, f2.eb, n);
    lemma_other_block(v, cells, e1, e2, f2.txinfo, k);
    lemma_other_block(v, cells, e1, e2, f2.dma, m);
    lemma_other_block(v, cells, e2, e1, f1.eb, n);
    lemma_other_block(v, cells, e2, e1, f1.txinfo, k);
    lemma_other_block(v, cells, e2, e1, f1.dma, m);
}

} // verus!
