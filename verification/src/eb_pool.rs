//! The driver's own pool of eb packet buffers.
//!
//! A fixed number of contiguous blocks, each laid out as one eb with everything it points to:
//!   +0x04, +0x08 -> DMA descriptor (+0x3c)    +0x0c = 1       +0x10 -> aux (+0x90)
//!   +0x16 payload length    +0x1a pool type (1)    +0x30 pending link    +0x34 -> txinfo (+0x48)
//!   +0xb8 frame bytes
//! The free list is a stack of block numbers kept outside the blocks, because the pending link of
//! an eb belongs to the scheduler.
use crate::layout::{DmaDesc, Eb, TxInfo};
use crate::mmio::{wr, wr8, wr_bytes, wr_zeros, Mem, MemView};
use vstd::prelude::*;

verus! {

/// Number of blocks.
pub const POOL_N: usize = 12;

/// Offset of the word that is always 1 in a live eb.
pub const EB_ONE: u32 = 0x0c;

/// Offset of the pointer to the aux area.
pub const EB_AUX_PTR: u32 = 0x10;

/// Offset of the pool type byte.
pub const EB_POOL_TYPE: u32 = 0x1a;

/// Offset of a block's own DMA descriptor.
pub const EB_OWN_DESC_OFF: u32 = 0x3c;

/// Offset of a block's own txinfo.
pub const EB_OWN_TXINFO_OFF: u32 = 0x48;

/// Offset of a block's aux area.
pub const EB_AUX_OFF: u32 = 0x90;

/// Offset of a block's frame bytes.
pub const EB_FRAME_OFF: u32 = 0xb8;

/// Room for frame bytes in a block.
pub const EB_FRAME_MAX: usize = 0x200;

/// Buffer size that a fresh DMA descriptor starts with.
pub const EB_DESC_SIZE_SEED: u32 = 0x68;

/// Flags that a fresh txinfo starts with.
pub const TXINFO_FLAGS_SEED: u32 = 0x2000;

/// Bytes in a block.
pub const EB_SIZE: u32 = 0x2b8;

/// Distance between blocks: `EB_SIZE` rounded up to the 16-byte alignment of a block.
pub const EB_STRIDE: u32 = 0x2c0;

/// The pool: where its blocks lie, and the stack of free block numbers.
pub struct EbPool {
    base: u32,
    free: Vec<u16>,
}

/// What a pool stands for: the address of its first block, and the free block numbers with the next
/// one to hand out last.
#[verifier::ext_equal]
pub struct PoolView {
    pub base: u32,
    pub free: Seq<u16>,
}

impl View for EbPool {
    type V = PoolView;

    closed spec fn view(&self) -> PoolView {
        PoolView { base: self.base, free: self.free@ }
    }
}

/// Blocks can lie at `base`: they are aligned, do not start at address 0, and end inside the address
/// space.
pub open spec fn base_fits(base: u32) -> bool {
    base % 16 == 0 && 0 < base && base + POOL_N * EB_STRIDE <= 0x1_0000_0000
}

/// The address of block `i`.
pub open spec fn block_addr(base: u32, i: int) -> int {
    base + i * EB_STRIDE
}

impl PoolView {
    /// The blocks fit, and the stack holds block numbers, at most as many as there are blocks.
    pub open spec fn wf(self) -> bool {
        &&& base_fits(self.base)
        &&& self.free.len() <= POOL_N
        &&& forall|i: int| 0 <= i < self.free.len() ==> (#[trigger] self.free[i]) < POOL_N
    }

    /// The eb is one of the pool's blocks.
    pub open spec fn owns(self, eb: Eb) -> bool {
        exists|i: int| 0 <= i < POOL_N && eb.0 == #[trigger] block_addr(self.base, i)
    }

    /// The number of a block of the pool.
    pub open spec fn index_of(self, eb: Eb) -> u16 {
        ((eb.0 - self.base) / EB_STRIDE as int) as u16
    }

    /// The pool after `eb` has been given back. A buffer that is not one of the pool's blocks is
    /// ignored, and so is any buffer while the stack is full.
    pub open spec fn recycled(self, eb: Eb) -> PoolView {
        if self.owns(eb) && self.free.len() < POOL_N {
            PoolView { base: self.base, free: self.free.push(self.index_of(eb)) }
        } else {
            self
        }
    }
}

/// The part of a payload that fits into a block.
pub open spec fn fitting(payload: Seq<u8>) -> Seq<u8> {
    if payload.len() <= EB_FRAME_MAX {
        payload
    } else {
        payload.take(EB_FRAME_MAX as int)
    }
}

/// The address space after `payload` has been copied into the block at `b`.
pub open spec fn payload_loaded(v: MemView, b: u32, payload: Seq<u8>) -> MemView {
    let p = fitting(payload);
    Eb(b).with_payload_len(
        v.st_bytes(b.wrapping_add(EB_FRAME_OFF), p),
        p.len() as u16,
    )
}

/// The address space after the block at `b` has been built: cleared, its pointers set to its own
/// parts, descriptor and txinfo seeded, and the payload copied in.
pub open spec fn block_built(v: MemView, b: u32, payload: Seq<u8>) -> MemView {
    let desc = DmaDesc(b.wrapping_add(EB_OWN_DESC_OFF));
    let v1 = v.st_bytes(b, Seq::new(EB_SIZE as nat, |i: int| 0u8))
        .st32(b.wrapping_add(Eb::DMA_DESC), desc.0)
        .st32(b.wrapping_add(Eb::SEC_DESC), desc.0)
        .st32(b.wrapping_add(EB_ONE), 1)
        .st32(b.wrapping_add(EB_AUX_PTR), b.wrapping_add(EB_AUX_OFF))
        .st8(b.wrapping_add(EB_POOL_TYPE), 1)
        .st32(b.wrapping_add(Eb::TXINFO), b.wrapping_add(EB_OWN_TXINFO_OFF));
    let v2 = desc.with_ctrl(v1, EB_DESC_SIZE_SEED);
    let v3 = desc.with_frame_ptr(v2, b.wrapping_add(EB_FRAME_OFF));
    let v4 = desc.with_next(v3, 0);
    let v5 = TxInfo(b.wrapping_add(EB_OWN_TXINFO_OFF)).with_flags(v4, TXINFO_FLAGS_SEED);
    payload_loaded(v5, b, payload)
}

/// The address space after blocks 0 to `n - 1` have been built.
pub open spec fn blocks_built(v: MemView, base: u32, payload: Seq<u8>, n: nat) -> MemView
    decreases n,
{
    if n == 0 {
        v
    } else {
        block_built(
            blocks_built(v, base, payload, (n - 1) as nat),
            block_addr(base, n - 1) as u32,
            payload,
        )
    }
}

/// The address space after the block at `b` has been handed out clean: payload, lengths, flags and
/// pending link reset, and the descriptor pointed back at the frame.
pub open spec fn block_cleaned(v: MemView, b: u32, payload: Seq<u8>) -> MemView {
    let eb = Eb(b);
    let desc = DmaDesc(b.wrapping_add(EB_OWN_DESC_OFF));
    let v1 = eb.with_prefix_len(payload_loaded(v, b, payload), 0);
    let v2 = eb.with_pending_next(eb.with_flags16(v1, 0), 0);
    desc.with_frame_ptr(desc.with_ctrl(v2, EB_DESC_SIZE_SEED), b.wrapping_add(EB_FRAME_OFF))
}

impl EbPool {
    /// A pool whose blocks will lie at `base`, with nothing to hand out until `init`.
    pub fn new(base: u32) -> (r: EbPool)
        requires
            base_fits(base),
        ensures
            r@ == (PoolView { base, free: Seq::empty() }),
            r@.wf(),
    {
        EbPool { base, free: Vec::new() }
    }
}

fn eb_base(pool: &EbPool, i: usize) -> (r: u32)
    requires
        pool@.wf(),
        i < POOL_N,
    ensures
        r == block_addr(pool@.base, i as int),
{
    assert(i * EB_STRIDE <= 11 * EB_STRIDE) by (nonlinear_arith)
        requires
            i < 12,
            EB_STRIDE == 0x2c0,
    ;
    pool.base + i as u32 * EB_STRIDE
}

/// Copies a payload, as far as it fits, into the block at `b` and sets its payload length.
fn eb_load_payload(m: &mut Mem, b: u32, payload: &[u8])
    ensures
        final(m)@ == payload_loaded(old(m)@, b, payload@),
{
    let n = if payload.len() <= EB_FRAME_MAX { payload.len() } else { EB_FRAME_MAX };
    proof {
        assert(payload@.take(n as int) =~= fitting(payload@));
    }
    wr_bytes(m, b.wrapping_add(EB_FRAME_OFF), payload, n);
    Eb(b).set_payload_len(m, n as u16);
}

/// Builds every block with `payload` in it and makes all of them free; block 11 is handed out first.
pub fn init(pool: &mut EbPool, m: &mut Mem, payload: &[u8])
    requires
        old(pool)@.wf(),
    ensures
        final(pool)@ == (PoolView {
            base: old(pool)@.base,
            free: Seq::new(POOL_N as nat, |i: int| i as u16),
        }),
        final(pool)@.wf(),
        final(m)@ == blocks_built(old(m)@, old(pool)@.base, payload@, POOL_N as nat),
{
    let ghost base = pool@.base;
    let ghost v0 = m@;
    let mut free: Vec<u16> = Vec::new();
    let mut i: usize = 0;
    while i < POOL_N
        invariant
            i <= POOL_N,
            pool@.wf(),
            pool@.base == base,
            free@ =~= Seq::new(i as nat, |i: int| i as u16),
            m@ == blocks_built(v0, base, payload@, i as nat),
        decreases POOL_N - i,
    {
        let b = eb_base(pool, i);
        wr_zeros(m, b, EB_SIZE);
        let own_desc = b.wrapping_add(EB_OWN_DESC_OFF);
        wr(m, b.wrapping_add(Eb::DMA_DESC), own_desc);
        wr(m, b.wrapping_add(Eb::SEC_DESC), own_desc);
        wr(m, b.wrapping_add(EB_ONE), 1);
        wr(m, b.wrapping_add(EB_AUX_PTR), b.wrapping_add(EB_AUX_OFF));
        wr8(m, b.wrapping_add(EB_POOL_TYPE), 1);
        wr(m, b.wrapping_add(Eb::TXINFO), b.wrapping_add(EB_OWN_TXINFO_OFF));
        let desc = DmaDesc(own_desc);
        desc.set_ctrl(m, EB_DESC_SIZE_SEED);
        desc.set_frame_ptr(m, b.wrapping_add(EB_FRAME_OFF));
        desc.set_next(m, 0);
        TxInfo(b.wrapping_add(EB_OWN_TXINFO_OFF)).set_flags(m, TXINFO_FLAGS_SEED);
        eb_load_payload(m, b, payload);
        free.push(i as u16);
        i = i + 1;
    }
    pool.free = free;
}

/// Takes the last freed block off the stack and hands it out clean with `payload` in it, or hands
/// out the null buffer, and touches nothing, if there is none.
pub fn cr_pool_alloc(pool: &mut EbPool, m: &mut Mem, payload: &[u8]) -> (r: Eb)
    requires
        old(pool)@.wf(),
    ensures
        final(pool)@.wf(),
        old(pool)@.free.len() == 0 ==> {
            &&& r == Eb(0)
            &&& final(pool)@ == old(pool)@
            &&& final(m)@ == old(m)@
        },
        old(pool)@.free.len() > 0 ==> {
            &&& r.0 == block_addr(old(pool)@.base, old(pool)@.free.last() as int)
            &&& final(pool)@ == (PoolView {
                base: old(pool)@.base,
                free: old(pool)@.free.drop_last(),
            })
            &&& final(m)@ == block_cleaned(old(m)@, r.0, payload@)
        },
{
    match pool.free.pop() {
        None => {
            proof {
                assert(pool@.free =~= old(pool)@.free);
            }
            Eb(0)
        },
        Some(i) => {
            proof {
                assert(i == old(pool)@.free.last());
                assert(old(pool)@.free[old(pool)@.free.len() - 1] < POOL_N);
                assert(pool@.free =~= old(pool)@.free.drop_last());
            }
            let b = eb_base(pool, i as usize);
            let eb = Eb(b);
            eb_load_payload(m, b, payload);
            eb.set_prefix_len(m, 0);
            eb.set_flags16(m, 0);
            eb.set_pending_next(m, 0);
            let desc = DmaDesc(b.wrapping_add(EB_OWN_DESC_OFF));
            desc.set_ctrl(m, EB_DESC_SIZE_SEED);
            desc.set_frame_ptr(m, b.wrapping_add(EB_FRAME_OFF));
            eb
        },
    }
}

/// Gives a block back to the pool. Whether it is already free is for the caller to know.
pub fn recycle(pool: &mut EbPool, eb: Eb)
    requires
        old(pool)@.wf(),
    ensures
        final(pool)@ == old(pool)@.recycled(eb),
        final(pool)@.wf(),
{
    let base0 = eb_base(pool, 0);
    if eb.0 < base0 {
        proof {
            assert(!pool@.owns(eb));
        }
        return;
    }
    let idx = ((eb.0 - base0) / EB_SIZE) as usize;
    if idx >= POOL_N || eb_base(pool, idx) != eb.0 {
        proof {
            assert(!pool@.owns(eb)) by {
                if pool@.owns(eb) {
                    let i = choose|i: int|
                        0 <= i < POOL_N && eb.0 == #[trigger] block_addr(pool@.base, i);
                    assert(eb.0 - base0 == i * 0x2c0);
                    assert((i * 0x2c0) / 0x2b8 == i);
                }
            }
        }
        return;
    }
    proof {
        assert(eb.0 == block_addr(pool@.base, idx as int));
        assert(pool@.owns(eb));
        assert(pool@.index_of(eb) == idx);
    }
    if pool.free.len() < POOL_N {
        pool.free.push(idx as u16);
    }
}

/// Number of free blocks.
pub fn free_len(pool: &EbPool) -> (r: usize)
    ensures
        r == pool@.free.len(),
{
    pool.free.len()
}

} // verus!
