//! The address space that the driver reads and writes.
//!
//! The MAC registers and the scheduler structures are all reached by address, with loads and
//! stores of one, two or four bytes (little endian). `Mem` is the image of that address space that
//! the driver computes on: the caller fills in what the hardware and the vendor firmware hold
//! (`poke8`, `poke16`, `poke32`), runs a driver function, and then performs the stores that the
//! function has recorded (`take_stores`), in the order in which they were made. A load gives what was
//! last stored or filled in; where the hardware may disagree (a store to a gated register is lost),
//! the driver stops before it loads, and the caller performs the stores and fills in afresh.
use std::collections::HashMap;
use vstd::prelude::*;

verus! {

/// One store to the address space, with its width.
#[allow(inconsistent_fields)]
#[derive(Clone, Copy, Debug, PartialEq, Eq, Structural)]
pub enum Store {
    Byte { addr: u32, val: u8 },
    Half { addr: u32, val: u16 },
    Word { addr: u32, val: u32 },
}

/// What a `Mem` stands for: the bytes of the address space (an address that was never filled in
/// reads as zero) and the stores made so far, oldest first.
#[verifier::ext_equal]
pub struct MemView {
    pub bytes: Map<u32, u8>,
    pub log: Seq<Store>,
}

/// The distance from address `a` up to address `b`, going round the end of the address space.
pub open spec fn ahead(a: u32, b: u32) -> int {
    if b >= a {
        b - a
    } else {
        b - a + 0x1_0000_0000
    }
}

/// The `n` bytes from `a` and the `k` bytes from `b` have no byte in common.
pub open spec fn apart(a: u32, n: int, b: u32, k: int) -> bool {
    n <= ahead(a, b) && k <= ahead(b, a)
}

/// Two bytes as a little-endian halfword.
pub open spec fn le16(b0: u8, b1: u8) -> u16 {
    (b0 as u16) | ((b1 as u16) << 8)
}

/// Four bytes as a little-endian word.
pub open spec fn le32(b0: u8, b1: u8, b2: u8, b3: u8) -> u32 {
    (b0 as u32) | ((b1 as u32) << 8) | ((b2 as u32) << 16) | ((b3 as u32) << 24)
}

impl MemView {
    /// The byte at `a`.
    #[verifier::opaque]
    pub open spec fn rd8(self, a: u32) -> u8 {
        if self.bytes.contains_key(a) {
            self.bytes[a]
        } else {
            0
        }
    }

    /// The halfword at `a`.
    #[verifier::opaque]
    pub open spec fn rd16(self, a: u32) -> u16 {
        le16(self.rd8(a), self.rd8(a.wrapping_add(1)))
    }

    /// The word at `a`.
    #[verifier::opaque]
    pub open spec fn rd32(self, a: u32) -> u32 {
        le32(
            self.rd8(a),
            self.rd8(a.wrapping_add(1)),
            self.rd8(a.wrapping_add(2)),
            self.rd8(a.wrapping_add(3)),
        )
    }

    /// The bytes with the byte at `a` set to `v`.
    pub open spec fn put8(bytes: Map<u32, u8>, a: u32, v: u8) -> Map<u32, u8> {
        bytes.insert(a, v)
    }

    /// The bytes with the halfword at `a` set to `v`.
    pub open spec fn put16(bytes: Map<u32, u8>, a: u32, v: u16) -> Map<u32, u8> {
        bytes.insert(a, (v & 0xff) as u8).insert(a.wrapping_add(1), ((v >> 8) & 0xff) as u8)
    }

    /// The bytes with the word at `a` set to `v`.
    pub open spec fn put32(bytes: Map<u32, u8>, a: u32, v: u32) -> Map<u32, u8> {
        bytes.insert(a, (v & 0xff) as u8)
            .insert(a.wrapping_add(1), ((v >> 8) & 0xff) as u8)
            .insert(a.wrapping_add(2), ((v >> 16) & 0xff) as u8)
            .insert(a.wrapping_add(3), ((v >> 24) & 0xff) as u8)
    }

    /// After a store of byte `v` at `a`.
    #[verifier::opaque]
    pub open spec fn st8(self, a: u32, v: u8) -> MemView {
        MemView {
            bytes: Self::put8(self.bytes, a, v),
            log: self.log.push(Store::Byte { addr: a, val: v }),
        }
    }

    /// After a store of halfword `v` at `a`.
    #[verifier::opaque]
    pub open spec fn st16(self, a: u32, v: u16) -> MemView {
        MemView {
            bytes: Self::put16(self.bytes, a, v),
            log: self.log.push(Store::Half { addr: a, val: v }),
        }
    }

    /// After a store of word `v` at `a`.
    #[verifier::opaque]
    pub open spec fn st32(self, a: u32, v: u32) -> MemView {
        MemView {
            bytes: Self::put32(self.bytes, a, v),
            log: self.log.push(Store::Word { addr: a, val: v }),
        }
    }

    /// After a read-modify-write of the word at `a`: the bits of `keep` stay, those of `set` are
    /// set.
    pub open spec fn rmw32(self, a: u32, keep: u32, set: u32) -> MemView {
        self.st32(a, (self.rd32(a) & keep) | set)
    }

    /// After a read-modify-write of the word at `a` that keeps only the bits of `keep`.
    pub open spec fn and32(self, a: u32, keep: u32) -> MemView {
        self.st32(a, self.rd32(a) & keep)
    }

    /// After a read-modify-write of the word at `a` that sets the bits of `set`.
    pub open spec fn or32(self, a: u32, set: u32) -> MemView {
        self.st32(a, self.rd32(a) | set)
    }

    /// After the bytes of `s` have been stored one by one from `a` upwards.
    pub open spec fn st_bytes(self, a: u32, s: Seq<u8>) -> MemView
        decreases s.len(),
    {
        if s.len() == 0 {
            self
        } else {
            self.st_bytes(a, s.drop_last()).st8(
                a.wrapping_add((s.len() - 1) as u32),
                s.last(),
            )
        }
    }
}

/// The image of the address space, with the stores made to it.
pub struct Mem {
    cells: HashMap<u32, u8>,
    log: Vec<Store>,
}

impl View for Mem {
    type V = MemView;

    closed spec fn view(&self) -> MemView {
        MemView { bytes: self.cells@, log: self.log@ }
    }
}

impl Mem {
    /// An address space that reads as zero everywhere.
    pub fn new() -> (r: Mem)
        ensures
            r@ == (MemView { bytes: Map::empty(), log: Seq::empty() }),
    {
        Mem { cells: HashMap::new(), log: Vec::new() }
    }

    /// Fills in the byte at `addr` without recording a store.
    pub fn poke8(&mut self, addr: u32, val: u8)
        ensures
            final(self)@ == (MemView {
                bytes: MemView::put8(old(self)@.bytes, addr, val),
                log: old(self)@.log,
            }),
    {
        self.cells.insert(addr, val);
    }

    /// Fills in the halfword at `addr` without recording a store.
    pub fn poke16(&mut self, addr: u32, val: u16)
        ensures
            final(self)@ == (MemView {
                bytes: MemView::put16(old(self)@.bytes, addr, val),
                log: old(self)@.log,
            }),
    {
        self.cells.insert(addr, (val & 0xff) as u8);
        self.cells.insert(addr.wrapping_add(1), ((val >> 8) & 0xff) as u8);
    }

    /// Fills in the word at `addr` without recording a store.
    pub fn poke32(&mut self, addr: u32, val: u32)
        ensures
            final(self)@ == (MemView {
                bytes: MemView::put32(old(self)@.bytes, addr, val),
                log: old(self)@.log,
            }),
    {
        self.cells.insert(addr, (val & 0xff) as u8);
        self.cells.insert(addr.wrapping_add(1), ((val >> 8) & 0xff) as u8);
        self.cells.insert(addr.wrapping_add(2), ((val >> 16) & 0xff) as u8);
        self.cells.insert(addr.wrapping_add(3), ((val >> 24) & 0xff) as u8);
    }

    /// The stores made so far, oldest first.
    pub fn stores(&self) -> (r: &Vec<Store>)
        ensures
            r@ == self@.log,
    {
        &self.log
    }

    /// Hands out the stores made so far, oldest first, and forgets them.
    pub fn take_stores(&mut self) -> (r: Vec<Store>)
        ensures
            r@ == old(self)@.log,
            final(self)@ == (MemView { bytes: old(self)@.bytes, log: Seq::empty() }),
    {
        let mut out: Vec<Store> = Vec::new();
        std::mem::swap(&mut out, &mut self.log);
        out
    }
}

/// Reads the word at `addr`.
pub fn rd(m: &Mem, addr: u32) -> (r: u32)
    ensures
        r == m@.rd32(addr),
{
    reveal(MemView::rd32);
    let b0 = rd8(m, addr);
    let b1 = rd8(m, addr.wrapping_add(1));
    let b2 = rd8(m, addr.wrapping_add(2));
    let b3 = rd8(m, addr.wrapping_add(3));
    (b0 as u32) | ((b1 as u32) << 8) | ((b2 as u32) << 16) | ((b3 as u32) << 24)
}

/// Stores the word `val` at `addr`.
pub fn wr(m: &mut Mem, addr: u32, val: u32)
    ensures
        final(m)@ == old(m)@.st32(addr, val),
{
    reveal(MemView::st32);
    m.poke32(addr, val);
    m.log.push(Store::Word { addr, val });
}

/// Reads the halfword at `addr`.
pub fn rd16(m: &Mem, addr: u32) -> (r: u16)
    ensures
        r == m@.rd16(addr),
{
    reveal(MemView::rd16);
    let b0 = rd8(m, addr);
    let b1 = rd8(m, addr.wrapping_add(1));
    (b0 as u16) | ((b1 as u16) << 8)
}

/// Stores the halfword `val` at `addr`.
pub fn wr16(m: &mut Mem, addr: u32, val: u16)
    ensures
        final(m)@ == old(m)@.st16(addr, val),
{
    reveal(MemView::st16);
    m.poke16(addr, val);
    m.log.push(Store::Half { addr, val });
}

/// Reads the byte at `addr`.
pub fn rd8(m: &Mem, addr: u32) -> (r: u8)
    ensures
        r == m@.rd8(addr),
{
    reveal(MemView::rd8);
    match m.cells.get(&addr) {
        Some(v) => *v,
        None => 0,
    }
}

/// Stores the byte `val` at `addr`.
pub fn wr8(m: &mut Mem, addr: u32, val: u8)
    ensures
        final(m)@ == old(m)@.st8(addr, val),
{
    reveal(MemView::st8);
    m.poke8(addr, val);
    m.log.push(Store::Byte { addr, val });
}

/// Read-modify-write of the word at `addr`: keeps the bits of `keep` and sets those of `set`.
pub(crate) fn rmw(m: &mut Mem, addr: u32, keep: u32, set: u32)
    ensures
        final(m)@ == old(m)@.rmw32(addr, keep, set),
{
    let v = rd(m, addr);
    wr(m, addr, (v & keep) | set);
}

/// Read-modify-write of the word at `addr` that keeps only the bits of `keep`.
pub(crate) fn mask(m: &mut Mem, addr: u32, keep: u32)
    ensures
        final(m)@ == old(m)@.and32(addr, keep),
{
    let v = rd(m, addr);
    wr(m, addr, v & keep);
}

/// Read-modify-write of the word at `addr` that sets the bits of `set`.
pub(crate) fn set_bits(m: &mut Mem, addr: u32, set: u32)
    ensures
        final(m)@ == old(m)@.or32(addr, set),
{
    let v = rd(m, addr);
    wr(m, addr, v | set);
}

/// Stores the bytes of `data` one by one from `addr` upwards.
pub(crate) fn wr_bytes(m: &mut Mem, addr: u32, data: &[u8], n: usize)
    requires
        n <= data@.len(),
        n <= 0x1_0000,
    ensures
        final(m)@ == old(m)@.st_bytes(addr, data@.take(n as int)),
{
    let mut i: usize = 0;
    proof {
        assert(data@.take(0) =~= Seq::<u8>::empty());
    }
    while i < n
        invariant
            i <= n <= data@.len(),
            n <= 0x1_0000,
            m@ == old(m)@.st_bytes(addr, data@.take(i as int)),
        decreases n - i,
    {
        wr8(m, addr.wrapping_add(i as u32), data[i]);
        proof {
            let t = data@.take(i + 1);
            assert(t.drop_last() =~= data@.take(i as int));
            assert(t.last() == data@[i as int]);
        }
        i = i + 1;
    }
}

/// Stores `n` zero bytes from `addr` upwards.
pub(crate) fn wr_zeros(m: &mut Mem, addr: u32, n: u32)
    ensures
        final(m)@ == old(m)@.st_bytes(addr, Seq::new(n as nat, |i: int| 0u8)),
{
    let mut i: u32 = 0;
    proof {
        assert(Seq::new(0, |i: int| 0u8) =~= Seq::<u8>::empty());
    }
    while i < n
        invariant
            i <= n,
            m@ == old(m)@.st_bytes(addr, Seq::new(i as nat, |i: int| 0u8)),
        decreases n - i,
    {
        wr8(m, addr.wrapping_add(i), 0);
        proof {
            let t = Seq::new((i + 1) as nat, |i: int| 0u8);
            assert(t.drop_last() =~= Seq::new(i as nat, |i: int| 0u8));
        }
        i = i + 1;
    }
}

} // verus!
