//! What a load gives back after a store.
use crate::mmio::{ahead, apart, MemView, Store};
use vstd::prelude::*;

verus! {

proof fn lemma_le_bits(v: u32, h: u16)
    by (bit_vector)
    ensures
        (((v & 0xff) as u8) as u32) | ((((v >> 8) & 0xff) as u8) as u32) << 8 | ((((v >> 16) & 0xff)
            as u8) as u32) << 16 | ((((v >> 24) & 0xff) as u8) as u32) << 24 == v,
        (((h & 0xff) as u8) as u16) | ((((h >> 8) & 0xff) as u8) as u16) << 8 == h,
        forall|a: u8, b: u8| #[trigger] ((a as u16) | ((b as u16) << 8)) == a as u16 + 0x100 * b as u16,
        forall|a: u8, b: u8, c: u8, d: u8|
            #[trigger] ((a as u32) | ((b as u32) << 8) | ((c as u32) << 16) | ((d as u32) << 24))
                == a as u32 + 0x100 * b as u32 + 0x1_0000 * c as u32 + 0x100_0000 * d as u32,
{
}

/// A byte load after a byte store.
pub broadcast proof fn rd8_after_st8(m: MemView, a: u32, v: u8, b: u32)
    ensures
        #[trigger] m.st8(a, v).rd8(b) == (if a == b {
            v
        } else {
            m.rd8(b)
        }),
{
    reveal(MemView::rd8);
    reveal(MemView::st8);
}

/// A byte load after a halfword store: byte `i` of the halfword inside it, unchanged elsewhere.
pub broadcast proof fn rd8_after_st16(m: MemView, a: u32, v: u16, b: u32)
    ensures
        #[trigger] m.st16(a, v).rd8(b) == (if ahead(a, b) == 0 {
            (v & 0xff) as u8
        } else if ahead(a, b) == 1 {
            ((v >> 8) & 0xff) as u8
        } else {
            m.rd8(b)
        }),
{
    reveal(MemView::rd8);
    reveal(MemView::st16);
}

/// A byte load after a word store: byte `i` of the word inside it, unchanged elsewhere.
pub broadcast proof fn rd8_after_st32(m: MemView, a: u32, v: u32, b: u32)
    ensures
        #[trigger] m.st32(a, v).rd8(b) == (if ahead(a, b) == 0 {
            (v & 0xff) as u8
        } else if ahead(a, b) == 1 {
            ((v >> 8) & 0xff) as u8
        } else if ahead(a, b) == 2 {
            ((v >> 16) & 0xff) as u8
        } else if ahead(a, b) == 3 {
            ((v >> 24) & 0xff) as u8
        } else {
            m.rd8(b)
        }),
{
    reveal(MemView::rd8);
    reveal(MemView::st32);
}

/// A halfword load after a store that does not touch it.
pub broadcast proof fn rd16_after_st8(m: MemView, a: u32, v: u8, b: u32)
    requires
        apart(a, 1, b, 2),
    ensures
        #[trigger] m.st8(a, v).rd16(b) == m.rd16(b),
{
    reveal(MemView::rd16);
    rd8_after_st8(m, a, v, b);
    rd8_after_st8(m, a, v, b.wrapping_add(1));
}

/// A halfword load after a halfword store, at the same address or apart from it.
pub broadcast proof fn rd16_after_st16(m: MemView, a: u32, v: u16, b: u32)
    requires
        a == b || apart(a, 2, b, 2),
    ensures
        #[trigger] m.st16(a, v).rd16(b) == (if a == b {
            v
        } else {
            m.rd16(b)
        }),
{
    reveal(MemView::rd16);
    rd8_after_st16(m, a, v, b);
    rd8_after_st16(m, a, v, b.wrapping_add(1));
    lemma_le_bits(0, v);
}

/// A halfword load after a word store that does not touch it.
pub broadcast proof fn rd16_after_st32(m: MemView, a: u32, v: u32, b: u32)
    requires
        apart(a, 4, b, 2),
    ensures
        #[trigger] m.st32(a, v).rd16(b) == m.rd16(b),
{
    reveal(MemView::rd16);
    rd8_after_st32(m, a, v, b);
    rd8_after_st32(m, a, v, b.wrapping_add(1));
}

/// A word load after a byte store that does not touch it.
pub broadcast proof fn rd32_after_st8(m: MemView, a: u32, v: u8, b: u32)
    requires
        apart(a, 1, b, 4),
    ensures
        #[trigger] m.st8(a, v).rd32(b) == m.rd32(b),
{
    reveal(MemView::rd32);
    rd8_after_st8(m, a, v, b);
    rd8_after_st8(m, a, v, b.wrapping_add(1));
    rd8_after_st8(m, a, v, b.wrapping_add(2));
    rd8_after_st8(m, a, v, b.wrapping_add(3));
}

/// A word load after a halfword store that does not touch it.
pub broadcast proof fn rd32_after_st16(m: MemView, a: u32, v: u16, b: u32)
    requires
        apart(a, 2, b, 4),
    ensures
        #[trigger] m.st16(a, v).rd32(b) == m.rd32(b),
{
    reveal(MemView::rd32);
    rd8_after_st16(m, a, v, b);
    rd8_after_st16(m, a, v, b.wrapping_add(1));
    rd8_after_st16(m, a, v, b.wrapping_add(2));
    rd8_after_st16(m, a, v, b.wrapping_add(3));
}

/// A word load after a word store, at the same address or apart from it.
pub broadcast proof fn rd32_after_st32(m: MemView, a: u32, v: u32, b: u32)
    requires
        a == b || apart(a, 4, b, 4),
    ensures
        #[trigger] m.st32(a, v).rd32(b) == (if a == b {
            v
        } else {
            m.rd32(b)
        }),
{
    reveal(MemView::rd32);
    rd8_after_st32(m, a, v, b);
    rd8_after_st32(m, a, v, b.wrapping_add(1));
    rd8_after_st32(m, a, v, b.wrapping_add(2));
    rd8_after_st32(m, a, v, b.wrapping_add(3));
    lemma_le_bits(v, 0);
}

/// Every store is recorded, at the end of the record.
pub broadcast proof fn log_after_st8(m: MemView, a: u32, v: u8)
    ensures
        (#[trigger] m.st8(a, v)).log == m.log.push(Store::Byte { addr: a, val: v }),
{
    reveal(MemView::st8);
}

/// Every store is recorded, at the end of the record.
pub broadcast proof fn log_after_st16(m: MemView, a: u32, v: u16)
    ensures
        (#[trigger] m.st16(a, v)).log == m.log.push(Store::Half { addr: a, val: v }),
{
    reveal(MemView::st16);
}

/// Every store is recorded, at the end of the record.
pub broadcast proof fn log_after_st32(m: MemView, a: u32, v: u32)
    ensures
        (#[trigger] m.st32(a, v)).log == m.log.push(Store::Word { addr: a, val: v }),
{
    reveal(MemView::st32);
}

pub broadcast group group_loads {
    rd8_after_st8,
    rd8_after_st16,
    rd8_after_st32,
    rd16_after_st8,
    rd16_after_st16,
    rd16_after_st32,
    rd32_after_st8,
    rd32_after_st16,
    rd32_after_st32,
}

pub broadcast group group_log {
    log_after_st8,
    log_after_st16,
    log_after_st32,
}

/// A byte load after a run of bytes was stored: the byte of the run inside it, unchanged elsewhere.
pub proof fn rd8_after_st_bytes(m: MemView, a: u32, s: Seq<u8>, b: u32)
    requires
        s.len() <= 0x1_0000_0000,
    ensures
        m.st_bytes(a, s).rd8(b) == (if ahead(a, b) < s.len() {
            s[ahead(a, b)]
        } else {
            m.rd8(b)
        }),
    decreases s.len(),
{
    if s.len() > 0 {
        rd8_after_st_bytes(m, a, s.drop_last(), b);
        rd8_after_st8(
            m.st_bytes(a, s.drop_last()),
            a.wrapping_add((s.len() - 1) as u32),
            s.last(),
            b,
        );
    }
}

/// A halfword load that a run of stored bytes does not touch.
pub proof fn rd16_after_st_bytes(m: MemView, a: u32, s: Seq<u8>, b: u32)
    requires
        s.len() <= 0x1_0000_0000,
        apart(a, s.len() as int, b, 2),
    ensures
        m.st_bytes(a, s).rd16(b) == m.rd16(b),
{
    reveal(MemView::rd16);
    rd8_after_st_bytes(m, a, s, b);
    rd8_after_st_bytes(m, a, s, b.wrapping_add(1));
}

/// A word load that a run of stored bytes does not touch.
pub proof fn rd32_after_st_bytes(m: MemView, a: u32, s: Seq<u8>, b: u32)
    requires
        s.len() <= 0x1_0000_0000,
        apart(a, s.len() as int, b, 4),
    ensures
        m.st_bytes(a, s).rd32(b) == m.rd32(b),
{
    reveal(MemView::rd32);
    rd8_after_st_bytes(m, a, s, b);
    rd8_after_st_bytes(m, a, s, b.wrapping_add(1));
    rd8_after_st_bytes(m, a, s, b.wrapping_add(2));
    rd8_after_st_bytes(m, a, s, b.wrapping_add(3));
}

/// Halfwords and words are little-endian, and the address space wraps around.
pub proof fn words_are_little_endian(m: MemView, a: u32)
    ensures
        m.rd16(a) == m.rd8(a) + 0x100 * m.rd8(a.wrapping_add(1)),
        m.rd32(a) == m.rd8(a) + 0x100 * m.rd8(a.wrapping_add(1)) + 0x1_0000 * m.rd8(
            a.wrapping_add(2),
        ) + 0x100_0000 * m.rd8(a.wrapping_add(3)),
{
    reveal(MemView::rd16);
    reveal(MemView::rd32);
    lemma_le_bits(0, 0);
}

/// What has not been filled in reads as zero; what is filled in reads as if it had been stored, and is
/// not recorded.
pub proof fn filling_in_is_an_unrecorded_store(m: MemView, a: u32, b: u8, h: u16, w: u32, c: u32)
    ensures
        !m.bytes.contains_key(c) ==> m.rd8(c) == 0,
        (MemView { bytes: MemView::put8(m.bytes, a, b), log: m.log }).rd8(c) == m.st8(a, b).rd8(c),
        (MemView { bytes: MemView::put16(m.bytes, a, h), log: m.log }).rd8(c) == m.st16(a, h).rd8(c),
        (MemView { bytes: MemView::put32(m.bytes, a, w), log: m.log }).rd8(c) == m.st32(a, w).rd8(c),
{
    reveal(MemView::rd8);
    reveal(MemView::st8);
    reveal(MemView::st16);
    reveal(MemView::st32);
}

/// A read-modify-write keeps what its mask says and sets what is to be set, and leaves every byte
/// outside the word alone.
pub proof fn read_modify_write(m: MemView, a: u32, keep: u32, set: u32, b: u32)
    ensures
        m.rmw32(a, keep, set).rd32(a) == (m.rd32(a) & keep) | set,
        m.and32(a, keep).rd32(a) == m.rd32(a) & keep,
        m.or32(a, set).rd32(a) == m.rd32(a) | set,
        apart(a, 4, b, 1) ==> m.rmw32(a, keep, set).rd8(b) == m.rd8(b),
        apart(a, 4, b, 1) ==> m.and32(a, keep).rd8(b) == m.rd8(b),
        apart(a, 4, b, 1) ==> m.or32(a, set).rd8(b) == m.rd8(b),
{
    broadcast use group_loads;

}

} // verus!
