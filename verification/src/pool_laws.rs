//! What holds of the eb pool over several calls.
use crate::eb_pool::{
    base_fits, block_addr, block_built, block_cleaned, blocks_built, fitting, PoolView, EB_AUX_OFF,
    EB_AUX_PTR, EB_DESC_SIZE_SEED, EB_FRAME_OFF, EB_ONE, EB_OWN_DESC_OFF, EB_OWN_TXINFO_OFF,
    EB_POOL_TYPE, EB_SIZE, POOL_N, TXINFO_FLAGS_SEED,
};
use crate::layout::{DmaDesc, Eb, TxInfo};
use crate::mem_laws::{rd32_after_st_bytes, rd8_after_st_bytes};
use crate::mmio::{apart, MemView};
use vstd::prelude::*;

verus! {

/// The pool after its last freed block has been handed out.
pub open spec fn taken(p: PoolView) -> PoolView {
    PoolView { base: p.base, free: p.free.drop_last() }
}

/// The block that is handed out next.
pub open spec fn next_block(p: PoolView) -> Eb {
    Eb(block_addr(p.base, p.free.last() as int) as u32)
}

/// No block is on the stack twice.
pub open spec fn no_block_twice(p: PoolView) -> bool {
    forall|i: int, j: int|
        0 <= i < j < p.free.len() ==> #[trigger] p.free[i] != #[trigger] p.free[j]
}

/// The eb is free.
pub open spec fn is_free(p: PoolView, eb: Eb) -> bool {
    p.owns(eb) && p.free.contains(p.index_of(eb))
}

/// Different blocks share no byte, and every block is aligned and inside the address space.
pub proof fn blocks_apart(base: u32, i: int, j: int)
    requires
        base_fits(base),
        0 <= i < POOL_N,
        0 <= j < POOL_N,
        i != j,
    ensures
        0 < block_addr(base, i) <= 0x1_0000_0000 - EB_SIZE,
        block_addr(base, i) % 16 == 0,
        apart(block_addr(base, i) as u32, EB_SIZE as int, block_addr(base, j) as u32, EB_SIZE as int),
{
}

proof fn lemma_block_index(p: PoolView, i: int)
    requires
        p.wf(),
        0 <= i < POOL_N,
    ensures
        0 < block_addr(p.base, i) <= 0xffff_ffff,
        p.owns(Eb(block_addr(p.base, i) as u32)),
        p.index_of(Eb(block_addr(p.base, i) as u32)) == i,
{
    let eb = Eb(block_addr(p.base, i) as u32);
    assert(eb.0 == block_addr(p.base, i));
    assert((i * 0x2c0) / 0x2c0 == i);
}

/// Giving back the block that was handed out undoes the handing out.
pub proof fn recycle_undoes_alloc(p: PoolView)
    requires
        p.wf(),
        p.free.len() > 0,
    ensures
        taken(p).recycled(next_block(p)) == p,
{
    let i = p.free.last();
    assert(p.free[p.free.len() - 1] < POOL_N);
    lemma_block_index(p, i as int);
    lemma_block_index(taken(p), i as int);
    assert(p.free.drop_last().push(i) =~= p.free);
}

/// A buffer that is not one of the pool's blocks, such as one of the vendor firmware's, is ignored.
pub proof fn foreign_buffer_is_ignored(p: PoolView, eb: Eb)
    requires
        !p.owns(eb),
    ensures
        p.recycled(eb) == p,
{
}

/// The same by address: only the twelve addresses that lie a multiple of 0x2c0 above the base are the
/// pool's.
pub proof fn other_addresses_are_ignored(p: PoolView, eb: Eb)
    requires
        forall|i: int| 0 <= i < 12 ==> eb.0 != p.base + #[trigger] (i * 0x2c0),
    ensures
        p.recycled(eb) == p,
{
    if p.owns(eb) {
        let i = choose|i: int| 0 <= i < POOL_N && eb.0 == #[trigger] block_addr(p.base, i);
        assert(eb.0 != p.base + i * 0x2c0);
    }
}

/// Blocks lie 0x2c0 apart from the base on. The block that was given back last is handed out next: its
/// number goes on top of the free ones, unless all twelve are free already.
pub proof fn given_back_block_is_on_top(p: PoolView, i: int)
    requires
        p.wf(),
        0 <= i < 12,
    ensures
        block_addr(p.base, i) == p.base + i * 0x2c0,
        ({
            let q = p.recycled(Eb((p.base + i * 0x2c0) as u32));
            &&& q.base == p.base
            &&& p.free.len() < 12 ==> {
                &&& q.free == p.free.push(i as u16)
                &&& next_block(q).0 == p.base + i * 0x2c0
                &&& taken(q) == p
            }
            &&& p.free.len() >= 12 ==> q.free == p.free
        }),
{
    lemma_block_index(p, i);
    let q = p.recycled(Eb((p.base + i * 0x2c0) as u32));
    if p.free.len() < 12 {
        assert(q.free.last() == i as u16);
        assert(q.free.drop_last() =~= p.free);
    }
}

/// A fresh pool has every block on the stack once.
pub proof fn fresh_pool_has_no_block_twice(base: u32)
    requires
        base_fits(base),
    ensures
        ({
            let p = PoolView { base, free: Seq::new(POOL_N as nat, |i: int| i as u16) };
            p.wf() && no_block_twice(p)
        }),
{
}

/// Handing out a block keeps the stack free of repetitions, and the block is then not free.
pub proof fn alloc_keeps_blocks_distinct(p: PoolView)
    requires
        p.wf(),
        no_block_twice(p),
        p.free.len() > 0,
    ensures
        taken(p).wf(),
        no_block_twice(taken(p)),
        taken(p).owns(next_block(p)),
        !is_free(taken(p), next_block(p)),
        next_block(p).0 != 0,
{
    let i = p.free.last();
    let t = taken(p);
    assert(p.free[p.free.len() - 1] < POOL_N);
    lemma_block_index(p, i as int);
    assert forall|k: int| 0 <= k < t.free.len() implies (#[trigger] t.free[k]) < POOL_N by {
        assert(t.free[k] == p.free[k]);
    }
    assert forall|k: int, l: int| 0 <= k < l < t.free.len() implies #[trigger] t.free[k]
        != #[trigger] t.free[l] by {
        assert(t.free[k] == p.free[k] && t.free[l] == p.free[l]);
    }
    lemma_block_index(t, i as int);
    assert(!t.free.contains(i)) by {
        if t.free.contains(i) {
            let k = choose|k: int| 0 <= k < t.free.len() && t.free[k] == i;
            assert(p.free[k] == p.free[p.free.len() - 1]);
        }
    }
}

/// Giving back a block that is not free keeps the stack free of repetitions. (Giving one back twice
/// puts it on the stack twice.)
pub proof fn recycle_keeps_blocks_distinct(p: PoolView, eb: Eb)
    requires
        p.wf(),
        no_block_twice(p),
        !is_free(p, eb),
    ensures
        p.recycled(eb).wf(),
        no_block_twice(p.recycled(eb)),
{
    if p.owns(eb) && p.free.len() < POOL_N {
        let i = choose|i: int| 0 <= i < POOL_N && eb.0 == #[trigger] block_addr(p.base, i);
        lemma_block_index(p, i);
        let q = p.recycled(eb);
        assert forall|k: int, l: int| 0 <= k < l < q.free.len() implies #[trigger] q.free[k]
            != #[trigger] q.free[l] by {
            if l == p.free.len() {
                assert(q.free[k] == p.free[k]);
                assert(p.free.contains(p.free[k]));
            }
        }
    }
}

/// A block that is handed out is clean: no prefix, no flags, no pending link, a seeded descriptor that
/// points at the frame again, and the payload with its length. A payload of up to 0x200 bytes is there
/// whole, of a longer one the first 0x200 bytes.
pub proof fn alloc_hands_out_a_clean_block(v: MemView, b: u32, payload: Seq<u8>, k: int)
    requires
        b <= 0x1_0000_0000 - EB_SIZE,
    ensures
        ({
            let w = block_cleaned(v, b, payload);
            let eb = Eb(b);
            let desc = DmaDesc((b + 0x3c) as u32);
            &&& eb.prefix_len_in(w) == 0
            &&& eb.flags16_in(w) == 0
            &&& eb.pending_next_in(w) == 0
            &&& desc.ctrl_in(w) == 0x68
            &&& desc.frame_ptr_in(w) == b + 0xb8
            &&& eb.payload_len_in(w) == fitting(payload).len()
            &&& payload.len() <= 0x200 ==> eb.payload_len_in(w) == payload.len()
            &&& payload.len() > 0x200 ==> eb.payload_len_in(w) == 0x200
            &&& 0 <= k < payload.len() && k < 0x200 ==> w.rd8((b + 0xb8 + k) as u32) == payload[k]
        }),
{
    broadcast use crate::mem_laws::group_loads;

    let p = fitting(payload);
    let f = b.wrapping_add(EB_FRAME_OFF);
    if 0 <= k < p.len() {
        rd8_after_st_bytes(v, f, p, (b + EB_FRAME_OFF + k) as u32);
    }
}

/// Handing out a block stores to its lengths, flags and link, to the first two words of its descriptor
/// and to the payload's bytes of its frame; no other byte changes, in the block or outside it.
pub proof fn alloc_stores_nowhere_else(v: MemView, b: u32, payload: Seq<u8>, a: u32)
    requires
        b <= 0x1_0000_0000 - EB_SIZE,
        apart((b + 0x14) as u32, 4, a, 1),
        apart((b + 0x24) as u32, 2, a, 1),
        apart((b + 0x30) as u32, 4, a, 1),
        apart((b + 0x3c) as u32, 8, a, 1),
        !(b + 0xb8 <= a < b + 0xb8 + payload.len() && a < b + 0x2b8),
    ensures
        block_cleaned(v, b, payload).rd8(a) == v.rd8(a),
{
    broadcast use crate::mem_laws::group_loads;

    rd8_after_st_bytes(v, b.wrapping_add(EB_FRAME_OFF), fitting(payload), a);
}

/// Handing out a block leaves the pointers to its descriptors and its txinfo as they were.
pub proof fn alloc_keeps_the_pointers(v: MemView, b: u32, payload: Seq<u8>)
    requires
        b <= 0x1_0000_0000 - EB_SIZE,
    ensures
        ({
            let w = block_cleaned(v, b, payload);
            &&& Eb(b).dma_desc_in(w) == Eb(b).dma_desc_in(v)
            &&& Eb(b).sec_desc_in(w) == Eb(b).sec_desc_in(v)
            &&& Eb(b).txinfo_in(w) == Eb(b).txinfo_in(v)
        }),
{
    broadcast use crate::mem_laws::group_loads;

    let p = fitting(payload);
    let f = b.wrapping_add(EB_FRAME_OFF);
    rd32_after_st_bytes(v, f, p, b.wrapping_add(Eb::DMA_DESC));
    rd32_after_st_bytes(v, f, p, b.wrapping_add(Eb::SEC_DESC));
    rd32_after_st_bytes(v, f, p, b.wrapping_add(Eb::TXINFO));
}

/// The block at `b` points at its own parts: both descriptor pointers at its descriptor, the txinfo
/// pointer at its txinfo; its descriptor ends the chain and its txinfo has the seed flags.
pub open spec fn self_contained(v: MemView, b: u32) -> bool {
    let ti = TxInfo(b.wrapping_add(EB_OWN_TXINFO_OFF));
    let desc = b.wrapping_add(EB_OWN_DESC_OFF);
    &&& Eb(b).dma_desc_in(v) == DmaDesc(desc)
    &&& Eb(b).sec_desc_in(v) == DmaDesc(desc)
    &&& Eb(b).txinfo_in(v) == ti
    &&& ti.flags_in(v) == TXINFO_FLAGS_SEED
    &&& v.rd32(desc.wrapping_add(DmaDesc::NEXT)) == 0
}

proof fn lemma_built(v: MemView, b: u32, payload: Seq<u8>)
    requires
        b <= 0x1_0000_0000 - EB_SIZE,
    ensures
        self_contained(block_built(v, b, payload), b),
{
    broadcast use crate::mem_laws::group_loads;

    let desc = DmaDesc(b.wrapping_add(EB_OWN_DESC_OFF));
    let v0 = v.st_bytes(b, Seq::new(EB_SIZE as nat, |i: int| 0u8));
    let v1 = v0.st32(b.wrapping_add(Eb::DMA_DESC), desc.0).st32(
        b.wrapping_add(Eb::SEC_DESC),
        desc.0,
    ).st32(b.wrapping_add(EB_ONE), 1).st32(
        b.wrapping_add(EB_AUX_PTR),
        b.wrapping_add(EB_AUX_OFF),
    ).st8(b.wrapping_add(EB_POOL_TYPE), 1).st32(
        b.wrapping_add(Eb::TXINFO),
        b.wrapping_add(EB_OWN_TXINFO_OFF),
    );
    let v2 = desc.with_ctrl(v1, EB_DESC_SIZE_SEED);
    let v3 = desc.with_frame_ptr(v2, b.wrapping_add(EB_FRAME_OFF));
    let v4 = desc.with_next(v3, 0);
    let v5 = TxInfo(b.wrapping_add(EB_OWN_TXINFO_OFF)).with_flags(v4, TXINFO_FLAGS_SEED);
    assert(self_contained(v5, b));
    let p = fitting(payload);
    let f = b.wrapping_add(EB_FRAME_OFF);
    rd32_after_st_bytes(v5, f, p, b.wrapping_add(Eb::DMA_DESC));
    rd32_after_st_bytes(v5, f, p, b.wrapping_add(Eb::SEC_DESC));
    rd32_after_st_bytes(v5, f, p, b.wrapping_add(Eb::TXINFO));
    rd32_after_st_bytes(v5, f, p, b.wrapping_add(EB_OWN_TXINFO_OFF));
    rd32_after_st_bytes(v5, f, p, desc.0.wrapping_add(DmaDesc::NEXT));
}

/// Building a block leaves every word that it does not overlap as it was.
proof fn lemma_built_elsewhere(v: MemView, b: u32, payload: Seq<u8>, a: u32)
    requires
        b <= 0x1_0000_0000 - EB_SIZE,
        apart(b, EB_SIZE as int, a, 4),
    ensures
        block_built(v, b, payload).rd32(a) == v.rd32(a),
{
    broadcast use crate::mem_laws::group_loads;

    let desc = DmaDesc(b.wrapping_add(EB_OWN_DESC_OFF));
    let z = Seq::new(EB_SIZE as nat, |i: int| 0u8);
    let v0 = v.st_bytes(b, z);
    rd32_after_st_bytes(v, b, z, a);
    let v1 = v0.st32(b.wrapping_add(Eb::DMA_DESC), desc.0).st32(
        b.wrapping_add(Eb::SEC_DESC),
        desc.0,
    ).st32(b.wrapping_add(EB_ONE), 1).st32(
        b.wrapping_add(EB_AUX_PTR),
        b.wrapping_add(EB_AUX_OFF),
    ).st8(b.wrapping_add(EB_POOL_TYPE), 1).st32(
        b.wrapping_add(Eb::TXINFO),
        b.wrapping_add(EB_OWN_TXINFO_OFF),
    );
    assert(v1.rd32(a) == v.rd32(a));
    let v2 = desc.with_ctrl(v1, EB_DESC_SIZE_SEED);
    let v3 = desc.with_frame_ptr(v2, b.wrapping_add(EB_FRAME_OFF));
    let v4 = desc.with_next(v3, 0);
    let v5 = TxInfo(b.wrapping_add(EB_OWN_TXINFO_OFF)).with_flags(v4, TXINFO_FLAGS_SEED);
    assert(v5.rd32(a) == v.rd32(a));
    rd32_after_st_bytes(v5, b.wrapping_add(EB_FRAME_OFF), fitting(payload), a);
}

proof fn lemma_built_up_to(v: MemView, base: u32, payload: Seq<u8>, n: nat, i: int)
    requires
        base_fits(base),
        0 <= i < n <= POOL_N,
    ensures
        self_contained(blocks_built(v, base, payload, n), block_addr(base, i) as u32),
    decreases n,
{
    let w = blocks_built(v, base, payload, (n - 1) as nat);
    let b = block_addr(base, n - 1) as u32;
    let c = block_addr(base, i) as u32;
    if i == n - 1 {
        lemma_built(w, b, payload);
    } else {
        lemma_built_up_to(v, base, payload, (n - 1) as nat, i);
        blocks_apart(base, n - 1, i);
        lemma_built_elsewhere(w, b, payload, c.wrapping_add(Eb::DMA_DESC));
        lemma_built_elsewhere(w, b, payload, c.wrapping_add(Eb::SEC_DESC));
        lemma_built_elsewhere(w, b, payload, c.wrapping_add(Eb::TXINFO));
        lemma_built_elsewhere(w, b, payload, c.wrapping_add(EB_OWN_TXINFO_OFF));
        lemma_built_elsewhere(
            w,
            b,
            payload,
            c.wrapping_add(EB_OWN_DESC_OFF).wrapping_add(DmaDesc::NEXT),
        );
    }
}

/// A block that `init` builds: both descriptor pointers at its own descriptor, 1 at 0xc, the aux pointer
/// at its aux part, pool type 1, the txinfo pointer at its txinfo; a seeded descriptor over the frame
/// that ends the chain; seed flags; and the payload with its length, cut to 0x200 bytes.
pub proof fn built_block_fields(v: MemView, b: u32, payload: Seq<u8>, k: int)
    requires
        b <= 0x1_0000_0000 - EB_SIZE,
    ensures
        ({
            let w = block_built(v, b, payload);
            &&& w.rd32((b + 0x04) as u32) == b + 0x3c
            &&& w.rd32((b + 0x08) as u32) == b + 0x3c
            &&& w.rd32((b + 0x0c) as u32) == 1
            &&& w.rd32((b + 0x10) as u32) == b + 0x90
            &&& w.rd8((b + 0x1a) as u32) == 1
            &&& w.rd32((b + 0x34) as u32) == b + 0x48
            &&& w.rd32((b + 0x3c) as u32) == 0x68
            &&& w.rd32((b + 0x40) as u32) == b + 0xb8
            &&& w.rd32((b + 0x44) as u32) == 0
            &&& w.rd32((b + 0x48) as u32) == 0x2000
            &&& payload.len() <= 0x200 ==> w.rd16((b + 0x16) as u32) == payload.len()
            &&& payload.len() > 0x200 ==> w.rd16((b + 0x16) as u32) == 0x200
            &&& 0 <= k < payload.len() && k < 0x200 ==> w.rd8((b + 0xb8 + k) as u32) == payload[k]
        }),
{
    broadcast use crate::mem_laws::group_loads;

    let desc = DmaDesc(b.wrapping_add(EB_OWN_DESC_OFF));
    let v5 = lemma_seeded(v, b);
    let p = fitting(payload);
    let f = b.wrapping_add(EB_FRAME_OFF);
    rd32_after_st_bytes(v5, f, p, b.wrapping_add(Eb::DMA_DESC));
    rd32_after_st_bytes(v5, f, p, b.wrapping_add(Eb::SEC_DESC));
    rd32_after_st_bytes(v5, f, p, b.wrapping_add(EB_ONE));
    rd32_after_st_bytes(v5, f, p, b.wrapping_add(EB_AUX_PTR));
    rd8_after_st_bytes(v5, f, p, b.wrapping_add(EB_POOL_TYPE));
    rd32_after_st_bytes(v5, f, p, b.wrapping_add(Eb::TXINFO));
    rd32_after_st_bytes(v5, f, p, b.wrapping_add(EB_OWN_TXINFO_OFF));
    rd32_after_st_bytes(v5, f, p, desc.0);
    rd32_after_st_bytes(v5, f, p, desc.0.wrapping_add(DmaDesc::FRAME_PTR));
    rd32_after_st_bytes(v5, f, p, desc.0.wrapping_add(DmaDesc::NEXT));
    if 0 <= k < p.len() {
        rd8_after_st_bytes(v5, f, p, (b + EB_FRAME_OFF + k) as u32);
    }
}

/// The block before its payload is loaded.
spec fn seeded(v: MemView, b: u32) -> MemView {
    let desc = DmaDesc(b.wrapping_add(EB_OWN_DESC_OFF));
    let v1 = v.st_bytes(b, Seq::new(EB_SIZE as nat, |i: int| 0u8)).st32(
        b.wrapping_add(Eb::DMA_DESC),
        desc.0,
    ).st32(b.wrapping_add(Eb::SEC_DESC), desc.0).st32(b.wrapping_add(EB_ONE), 1).st32(
        b.wrapping_add(EB_AUX_PTR),
        b.wrapping_add(EB_AUX_OFF),
    ).st8(b.wrapping_add(EB_POOL_TYPE), 1).st32(
        b.wrapping_add(Eb::TXINFO),
        b.wrapping_add(EB_OWN_TXINFO_OFF),
    );
    let v2 = desc.with_ctrl(v1, EB_DESC_SIZE_SEED);
    let v3 = desc.with_frame_ptr(v2, b.wrapping_add(EB_FRAME_OFF));
    let v4 = desc.with_next(v3, 0);
    TxInfo(b.wrapping_add(EB_OWN_TXINFO_OFF)).with_flags(v4, TXINFO_FLAGS_SEED)
}

proof fn lemma_seeded(v: MemView, b: u32) -> (w: MemView)
    requires
        b <= 0x1_0000_0000 - EB_SIZE,
    ensures
        w == seeded(v, b),
        w.rd32(b.wrapping_add(Eb::DMA_DESC)) == b + 0x3c,
        w.rd32(b.wrapping_add(Eb::SEC_DESC)) == b + 0x3c,
        w.rd32(b.wrapping_add(EB_ONE)) == 1,
        w.rd32(b.wrapping_add(EB_AUX_PTR)) == b + 0x90,
        w.rd8(b.wrapping_add(EB_POOL_TYPE)) == 1,
        w.rd32(b.wrapping_add(Eb::TXINFO)) == b + 0x48,
        w.rd32(b.wrapping_add(EB_OWN_DESC_OFF)) == 0x68,
        w.rd32(b.wrapping_add(EB_OWN_DESC_OFF).wrapping_add(DmaDesc::FRAME_PTR)) == b + 0xb8,
        w.rd32(b.wrapping_add(EB_OWN_DESC_OFF).wrapping_add(DmaDesc::NEXT)) == 0,
        w.rd32(b.wrapping_add(EB_OWN_TXINFO_OFF)) == 0x2000,
{
    broadcast use crate::mem_laws::group_loads;

    seeded(v, b)
}

proof fn lemma_byte_built_elsewhere(v: MemView, b: u32, payload: Seq<u8>, a: u32)
    requires
        b <= 0x1_0000_0000 - EB_SIZE,
        !(b <= a < b + EB_SIZE),
    ensures
        block_built(v, b, payload).rd8(a) == v.rd8(a),
{
    broadcast use crate::mem_laws::group_loads;

    let z = Seq::new(EB_SIZE as nat, |i: int| 0u8);
    rd8_after_st_bytes(v, b, z, a);
    let v5 = seeded(v, b);
    assert(v5.rd8(a) == v.rd8(a));
    rd8_after_st_bytes(v5, b.wrapping_add(EB_FRAME_OFF), fitting(payload), a);
}

/// Every other byte of a built block is zero, whatever was there before.
pub proof fn built_block_is_zero_elsewhere(v: MemView, b: u32, payload: Seq<u8>, o: int)
    requires
        b <= 0x1_0000_0000 - EB_SIZE,
        0 <= o < 4 || 0x14 <= o < 0x16 || 0x18 <= o < 0x1a || 0x1b <= o < 0x34 || 0x38 <= o < 0x3c
            || 0x4c <= o < 0xb8 || (0xb8 + payload.len() <= o < 0x2b8),
    ensures
        block_built(v, b, payload).rd8((b + o) as u32) == 0,
{
    broadcast use crate::mem_laws::group_loads;

    let z = Seq::new(EB_SIZE as nat, |i: int| 0u8);
    let a = (b + o) as u32;
    rd8_after_st_bytes(v, b, z, a);
    let v5 = seeded(v, b);
    assert(v5.rd8(a) == 0);
    rd8_after_st_bytes(v5, b.wrapping_add(EB_FRAME_OFF), fitting(payload), a);
}

proof fn lemma_bytes_up_to(v: MemView, base: u32, payload: Seq<u8>, n: nat, i: int, o: int)
    requires
        base_fits(base),
        0 <= i < n <= POOL_N,
        0 <= o < EB_SIZE,
    ensures
        ({
            let b = block_addr(base, i) as u32;
            blocks_built(v, base, payload, n).rd8((b + o) as u32) == block_built(
                blocks_built(v, base, payload, i as nat),
                b,
                payload,
            ).rd8((b + o) as u32)
        }),
    decreases n,
{
    if i < n - 1 {
        let w = blocks_built(v, base, payload, (n - 1) as nat);
        let b = block_addr(base, i) as u32;
        lemma_bytes_up_to(v, base, payload, (n - 1) as nat, i, o);
        lemma_byte_built_elsewhere(w, block_addr(base, n - 1) as u32, payload, (b + o) as u32);
    }
}

proof fn lemma_outside_up_to(v: MemView, base: u32, payload: Seq<u8>, n: nat, a: u32)
    requires
        base_fits(base),
        n <= POOL_N,
        !(base <= a < base + 12 * 0x2c0),
    ensures
        blocks_built(v, base, payload, n).rd8(a) == v.rd8(a),
    decreases n,
{
    if n > 0 {
        lemma_outside_up_to(v, base, payload, (n - 1) as nat, a);
        lemma_byte_built_elsewhere(
            blocks_built(v, base, payload, (n - 1) as nat),
            block_addr(base, n - 1) as u32,
            payload,
            a,
        );
    }
}

/// `init` builds all twelve blocks, each as if it were the only one, and stores nowhere else.
pub proof fn init_builds_every_block(
    v: MemView,
    base: u32,
    payload: Seq<u8>,
    i: int,
    o: int,
    a: u32,
)
    requires
        base_fits(base),
        0 <= i < 12,
        0 <= o < 0x2b8,
        !(base <= a < base + 12 * 0x2c0),
    ensures
        exists|u: MemView|
            blocks_built(v, base, payload, 12).rd8((base + i * 0x2c0 + o) as u32)
                == #[trigger] block_built(u, (base + i * 0x2c0) as u32, payload).rd8(
                (base + i * 0x2c0 + o) as u32,
            ),
        blocks_built(v, base, payload, 12).rd8(a) == v.rd8(a),
{
    lemma_bytes_up_to(v, base, payload, 12, i, o);
    lemma_outside_up_to(v, base, payload, 12, a);
    let u = blocks_built(v, base, payload, i as nat);
    assert(block_addr(base, i) == base + i * 0x2c0);
    assert(blocks_built(v, base, payload, 12).rd8((base + i * 0x2c0 + o) as u32) == block_built(
        u,
        (base + i * 0x2c0) as u32,
        payload,
    ).rd8((base + i * 0x2c0 + o) as u32));
}

/// After `init`, every block points at its own parts and no other block's.
pub proof fn init_makes_blocks_self_contained(v: MemView, base: u32, payload: Seq<u8>, i: int)
    requires
        base_fits(base),
        0 <= i < POOL_N,
    ensures
        self_contained(
            blocks_built(v, base, payload, POOL_N as nat),
            block_addr(base, i) as u32,
        ),
{
    lemma_built_up_to(v, base, payload, POOL_N as nat, i);
}

} // verus!
