//! The vendor firmware's transmit structures, as typed views over a base address.
//!
//! Every accessor is one load or one store at `base + OFFSET`. The per-AC lmac TX control array
//! `our_instances` has its base in the ROM pointer cell `OUR_INSTANCES_PTR`; the per-AC pending
//! lists `TxRxCxt` hang off `TXRXCXT_PTR` with the same stride. Address arithmetic wraps at the end
//! of the 32-bit address space, as it does on the chip.
use crate::mmio::{rd, rd16, rd8, wr, wr16, wr8, Mem, MemView};
use vstd::prelude::*;

verus! {

/// ROM cell: address of the lmac per-AC TX control array (`LmacTxq`, stride `AC_STRIDE`).
pub const OUR_INSTANCES_PTR: u32 = 0x4004_ffe0;

/// ROM cell: address of the per-AC pending lists (`PendingQ`, stride `AC_STRIDE`).
pub const TXRXCXT_PTR: u32 = 0x4087_ff80;

/// ROM cell: address of the device control block.
pub const WDEVCTRL_PTR: u32 = 0x4087_ff68;

/// Offset of the interface-enable mask byte in the device control block.
pub const WDEVCTRL_IF_ENABLED_MASK: u32 = 0x31;

/// Stride of both per-AC arrays.
pub const AC_STRIDE: u32 = 0x34;

/// The base of the lmac TX control array.
pub open spec fn instances_of(v: MemView) -> u32 {
    v.rd32(OUR_INSTANCES_PTR)
}

/// Reads the base of the lmac TX control array.
pub fn our_instances_base(m: &Mem) -> (r: u32)
    ensures
        r == instances_of(m@),
{
    rd(m, OUR_INSTANCES_PTR)
}

/// The interface-enable mask byte.
pub open spec fn if_mask_of(v: MemView) -> u8 {
    v.rd8(v.rd32(WDEVCTRL_PTR).wrapping_add(WDEVCTRL_IF_ENABLED_MASK))
}

/// Reads the interface-enable mask byte, one bit per interface.
pub fn if_enabled_mask(m: &Mem) -> (r: u8)
    ensures
        r == if_mask_of(m@),
{
    let base = rd(m, WDEVCTRL_PTR);
    rd8(m, base.wrapping_add(WDEVCTRL_IF_ENABLED_MASK))
}

/// A TX DMA descriptor: `[size|ctrl, frame_ptr, next]`. `ctrl` packs the buffer size (bits 0-13),
/// the length (bits 14-27) and the owner/eof/link bits (31/30/29).
#[derive(Clone, Copy, Debug, PartialEq, Eq, Structural)]
pub struct DmaDesc(pub u32);

/// The control word `w` with `delta` added to its length field, modulo the field's 14 bits; every
/// other bit is kept.
pub open spec fn ctrl_plus_len(w: u32, delta: u32) -> u32 {
    ((((w >> 14) & 0x3fff).wrapping_add(delta) & 0x3fff) << 14) | (w & 0xf000_3fff)
}

impl DmaDesc {
    /// Position of the length field in the control word.
    pub const CTRL_LEN_SHIFT: u32 = 0xe;

    /// Width of the length field, as a mask.
    pub const CTRL_LEN_MASK: u32 = 0x3fff;

    /// Everything in the control word but the length field.
    pub const CTRL_KEEP_MASK: u32 = 0xf000_3fff;

    /// The MAC owns the descriptor.
    pub const CTRL_OWNER: u32 = 0x8000_0000;

    /// Last descriptor of the frame.
    pub const CTRL_EOF: u32 = 0x4000_0000;

    /// Everything in the control word but bit 29.
    pub const CTRL_BIT29_CLEAR: u32 = 0xdfff_ffff;

    /// Offset of the frame pointer.
    pub const FRAME_PTR: u32 = 4;

    /// Offset of the link to the next descriptor.
    pub const NEXT: u32 = 8;

    /// The control word.
    pub open spec fn ctrl_in(self, v: MemView) -> u32 {
        v.rd32(self.0)
    }

    /// Reads the control word.
    pub fn ctrl(self, m: &Mem) -> (r: u32)
        ensures
            r == self.ctrl_in(m@),
    {
        rd(m, self.0)
    }

    /// The address space after a write of the control word.
    pub open spec fn with_ctrl(self, v: MemView, val: u32) -> MemView {
        v.st32(self.0, val)
    }

    /// Writes the control word.
    pub fn set_ctrl(self, m: &mut Mem, val: u32)
        ensures
            final(m)@ == self.with_ctrl(old(m)@, val),
    {
        wr(m, self.0, val);
    }

    /// The frame pointer.
    pub open spec fn frame_ptr_in(self, v: MemView) -> u32 {
        v.rd32(self.0.wrapping_add(Self::FRAME_PTR))
    }

    /// Reads the frame pointer.
    pub fn frame_ptr(self, m: &Mem) -> (r: u32)
        ensures
            r == self.frame_ptr_in(m@),
    {
        rd(m, self.0.wrapping_add(Self::FRAME_PTR))
    }

    /// The address space after a write of the frame pointer.
    pub open spec fn with_frame_ptr(self, v: MemView, val: u32) -> MemView {
        v.st32(self.0.wrapping_add(Self::FRAME_PTR), val)
    }

    /// Writes the frame pointer.
    pub fn set_frame_ptr(self, m: &mut Mem, val: u32)
        ensures
            final(m)@ == self.with_frame_ptr(old(m)@, val),
    {
        wr(m, self.0.wrapping_add(Self::FRAME_PTR), val);
    }

    /// The address space after a write of the link to the next descriptor.
    pub open spec fn with_next(self, v: MemView, val: u32) -> MemView {
        v.st32(self.0.wrapping_add(Self::NEXT), val)
    }

    /// Writes the link to the next descriptor.
    pub fn set_next(self, m: &mut Mem, val: u32)
        ensures
            final(m)@ == self.with_next(old(m)@, val),
    {
        wr(m, self.0.wrapping_add(Self::NEXT), val);
    }

    /// Adds `delta` to the length field (bits 14-27) and keeps the rest of the control word.
    pub fn add_len(self, m: &mut Mem, delta: u32)
        ensures
            final(m)@ == self.with_ctrl(
                old(m)@,
                ctrl_plus_len(self.ctrl_in(old(m)@), delta),
            ),
    {
        let w = self.ctrl(m);
        let len = ((w >> 14) & 0x3fff).wrapping_add(delta) & 0x3fff;
        self.set_ctrl(m, (len << 14) | (w & 0xf000_3fff));
    }
}

/// The per-frame TX descriptor that an eb points to (0x48 bytes).
#[derive(Clone, Copy, Debug, PartialEq, Eq, Structural)]
pub struct TxInfo(pub u32);

impl TxInfo {
    /// Flags word: bit 1 no-ack/broadcast, bit 3 data, bit 8 RTS, bit 11 QoS null, bit 16 discard,
    /// bit 19 ack type, bit 22 AMPDU, bit 30 HE extended, bit 31 HE.
    pub const FLAGS: u32 = 0x00;

    /// Frame category (byte; 7 = management); the QoS class is in bits 4-7 of the word.
    pub const CAT: u32 = 0x04;

    /// Rate index (byte; 0 = 1 Mbit DSSS).
    pub const RATE: u32 = 0x0c;

    /// Key slot (bits 0-7), key type (8-11), bit 18, interface (19), AC (20-23).
    pub const WORD10: u32 = 0x10;

    /// Submit timestamp.
    pub const TIMESTAMP: u32 = 0x18;

    /// Coexistence PTI (byte).
    pub const PTI: u32 = 0x20;

    /// PTI high field (halfword).
    pub const PTI_HI: u32 = 0x22;

    /// Protection word (bits 3-12: RTS/TXOP threshold; bit 17).
    pub const WORD30: u32 = 0x30;

    /// Protection value.
    pub const WORD34: u32 = 0x34;

    /// Lifetime, low word.
    pub const LIFETIME_LO: u32 = 0x40;

    /// Lifetime, high word.
    pub const LIFETIME_HI: u32 = 0x44;

    /// Position of the interface bit in WORD10.
    pub const WORD10_IFACE_SHIFT: u32 = 0x13;

    /// Position of the AC field in WORD10.
    pub const WORD10_AC_SHIFT: u32 = 0x14;

    /// Everything in WORD10 but the AC field.
    pub const WORD10_AC_CLEAR: u32 = 0xff0f_ffff;

    /// The flags word.
    pub open spec fn flags_in(self, v: MemView) -> u32 {
        v.rd32(self.0.wrapping_add(Self::FLAGS))
    }

    /// Reads the flags word.
    pub fn flags(self, m: &Mem) -> (r: u32)
        ensures
            r == self.flags_in(m@),
    {
        rd(m, self.0.wrapping_add(Self::FLAGS))
    }

    /// The address space after a write of the flags word.
    pub open spec fn with_flags(self, v: MemView, val: u32) -> MemView {
        v.st32(self.0.wrapping_add(Self::FLAGS), val)
    }

    /// Writes the flags word.
    pub fn set_flags(self, m: &mut Mem, val: u32)
        ensures
            final(m)@ == self.with_flags(old(m)@, val),
    {
        wr(m, self.0.wrapping_add(Self::FLAGS), val);
    }

    /// The category word.
    pub open spec fn cat_word_in(self, v: MemView) -> u32 {
        v.rd32(self.0.wrapping_add(Self::CAT))
    }

    /// Reads the category word.
    pub fn cat_word(self, m: &Mem) -> (r: u32)
        ensures
            r == self.cat_word_in(m@),
    {
        rd(m, self.0.wrapping_add(Self::CAT))
    }

    /// The address space after a write of the category byte.
    pub open spec fn with_cat(self, v: MemView, val: u8) -> MemView {
        v.st8(self.0.wrapping_add(Self::CAT), val)
    }

    /// Writes the category byte.
    pub fn set_cat(self, m: &mut Mem, val: u8)
        ensures
            final(m)@ == self.with_cat(old(m)@, val),
    {
        wr8(m, self.0.wrapping_add(Self::CAT), val);
    }

    /// The rate index.
    pub open spec fn rate_in(self, v: MemView) -> u8 {
        v.rd8(self.0.wrapping_add(Self::RATE))
    }

    /// Reads the rate index.
    pub fn rate(self, m: &Mem) -> (r: u8)
        ensures
            r == self.rate_in(m@),
    {
        rd8(m, self.0.wrapping_add(Self::RATE))
    }

    /// The address space after a write of the rate index.
    pub open spec fn with_rate(self, v: MemView, val: u8) -> MemView {
        v.st8(self.0.wrapping_add(Self::RATE), val)
    }

    /// Writes the rate index.
    pub fn set_rate(self, m: &mut Mem, val: u8)
        ensures
            final(m)@ == self.with_rate(old(m)@, val),
    {
        wr8(m, self.0.wrapping_add(Self::RATE), val);
    }

    /// The key/interface/AC word.
    pub open spec fn word10_in(self, v: MemView) -> u32 {
        v.rd32(self.0.wrapping_add(Self::WORD10))
    }

    /// Reads the key/interface/AC word.
    pub fn word10(self, m: &Mem) -> (r: u32)
        ensures
            r == self.word10_in(m@),
    {
        rd(m, self.0.wrapping_add(Self::WORD10))
    }

    /// The address space after a write of the key/interface/AC word.
    pub open spec fn with_word10(self, v: MemView, val: u32) -> MemView {
        v.st32(self.0.wrapping_add(Self::WORD10), val)
    }

    /// Writes the key/interface/AC word.
    pub fn set_word10(self, m: &mut Mem, val: u32)
        ensures
            final(m)@ == self.with_word10(old(m)@, val),
    {
        wr(m, self.0.wrapping_add(Self::WORD10), val);
    }

    /// The key slot, the low byte of WORD10.
    pub open spec fn keyslot_in(self, v: MemView) -> u8 {
        v.rd8(self.0.wrapping_add(Self::WORD10))
    }

    /// Reads the key slot, the low byte of WORD10.
    pub fn keyslot(self, m: &Mem) -> (r: u8)
        ensures
            r == self.keyslot_in(m@),
    {
        rd8(m, self.0.wrapping_add(Self::WORD10))
    }

    /// The interface number.
    pub open spec fn iface_in(self, v: MemView) -> u32 {
        (self.word10_in(v) >> 0x13) & 1
    }

    /// Reads the interface number.
    pub fn iface(self, m: &Mem) -> (r: u32)
        ensures
            r == self.iface_in(m@),
    {
        (self.word10(m) >> 0x13) & 1
    }

    /// The access category.
    pub open spec fn ac_in(self, v: MemView) -> u32 {
        (self.word10_in(v) >> 0x14) & 0xf
    }

    /// Reads the access category.
    pub fn ac(self, m: &Mem) -> (r: u32)
        ensures
            r == self.ac_in(m@),
    {
        (self.word10(m) >> 0x14) & 0xf
    }

    /// The address space after a write of the submit timestamp.
    pub open spec fn with_timestamp(self, v: MemView, val: u32) -> MemView {
        v.st32(self.0.wrapping_add(Self::TIMESTAMP), val)
    }

    /// Writes the submit timestamp.
    pub fn set_timestamp(self, m: &mut Mem, val: u32)
        ensures
            final(m)@ == self.with_timestamp(old(m)@, val),
    {
        wr(m, self.0.wrapping_add(Self::TIMESTAMP), val);
    }

    /// The PTI.
    pub open spec fn pti_in(self, v: MemView) -> u8 {
        v.rd8(self.0.wrapping_add(Self::PTI))
    }

    /// Reads the PTI.
    pub fn pti(self, m: &Mem) -> (r: u8)
        ensures
            r == self.pti_in(m@),
    {
        rd8(m, self.0.wrapping_add(Self::PTI))
    }

    /// The PTI high field.
    pub open spec fn pti_hi_in(self, v: MemView) -> u16 {
        v.rd16(self.0.wrapping_add(Self::PTI_HI))
    }

    /// Reads the PTI high field.
    pub fn pti_hi(self, m: &Mem) -> (r: u16)
        ensures
            r == self.pti_hi_in(m@),
    {
        rd16(m, self.0.wrapping_add(Self::PTI_HI))
    }

    /// The protection word.
    pub open spec fn word30_in(self, v: MemView) -> u32 {
        v.rd32(self.0.wrapping_add(Self::WORD30))
    }

    /// Reads the protection word.
    pub fn word30(self, m: &Mem) -> (r: u32)
        ensures
            r == self.word30_in(m@),
    {
        rd(m, self.0.wrapping_add(Self::WORD30))
    }

    /// The protection value.
    pub open spec fn word34_in(self, v: MemView) -> u32 {
        v.rd32(self.0.wrapping_add(Self::WORD34))
    }

    /// Reads the protection value.
    pub fn word34(self, m: &Mem) -> (r: u32)
        ensures
            r == self.word34_in(m@),
    {
        rd(m, self.0.wrapping_add(Self::WORD34))
    }

    /// The low word of the lifetime.
    pub open spec fn lifetime_lo_in(self, v: MemView) -> u32 {
        v.rd32(self.0.wrapping_add(Self::LIFETIME_LO))
    }

    /// Reads the low word of the lifetime.
    pub fn lifetime_lo(self, m: &Mem) -> (r: u32)
        ensures
            r == self.lifetime_lo_in(m@),
    {
        rd(m, self.0.wrapping_add(Self::LIFETIME_LO))
    }

    /// The high word of the lifetime.
    pub open spec fn lifetime_hi_in(self, v: MemView) -> u32 {
        v.rd32(self.0.wrapping_add(Self::LIFETIME_HI))
    }

    /// Reads the high word of the lifetime.
    pub fn lifetime_hi(self, m: &Mem) -> (r: u32)
        ensures
            r == self.lifetime_hi_in(m@),
    {
        rd(m, self.0.wrapping_add(Self::LIFETIME_HI))
    }
}

/// An eb packet buffer, the unit that the scheduler passes around. `Eb(0)` is the null buffer.
#[derive(Clone, Copy, Debug, PartialEq, Eq, Structural)]
pub struct Eb(pub u32);

impl Eb {
    /// First of the two pointers to the (single) TX DMA descriptor.
    pub const DMA_DESC: u32 = 0x04;

    /// Second of the two pointers to the TX DMA descriptor.
    pub const SEC_DESC: u32 = 0x08;

    /// Bytes prepended in front of the payload (halfword).
    pub const PREFIX_LEN: u32 = 0x14;

    /// Payload length (halfword).
    pub const PAYLOAD_LEN: u32 = 0x16;

    /// Flags (halfword).
    pub const FLAGS16: u32 = 0x24;

    /// Bit 13 of the flags: the header has been shifted.
    pub const FLAG16_HDR_SHIFTED: u16 = 0x2000;

    /// Rate-control context; null for a raw frame.
    pub const TRC: u32 = 0x2c;

    /// Link to the next eb of a pending list, or to the next MPDU of an aggregate.
    pub const PENDING_NEXT: u32 = 0x30;

    /// Pointer to the `TxInfo`.
    pub const TXINFO: u32 = 0x34;

    /// The base address.
    pub fn addr(self) -> (r: u32)
        ensures
            r == self.0,
    {
        self.0
    }

    /// Whether this is the null buffer.
    pub fn is_null(self) -> (r: bool)
        ensures
            r == (self.0 == 0),
    {
        self.0 == 0
    }

    /// The DMA descriptor pointer.
    pub open spec fn dma_desc_in(self, v: MemView) -> DmaDesc {
        DmaDesc(v.rd32(self.0.wrapping_add(Self::DMA_DESC)))
    }

    /// Reads the DMA descriptor pointer.
    pub fn dma_desc(self, m: &Mem) -> (r: DmaDesc)
        ensures
            r == self.dma_desc_in(m@),
    {
        DmaDesc(rd(m, self.0.wrapping_add(Self::DMA_DESC)))
    }

    /// The second DMA descriptor pointer.
    pub open spec fn sec_desc_in(self, v: MemView) -> DmaDesc {
        DmaDesc(v.rd32(self.0.wrapping_add(Self::SEC_DESC)))
    }

    /// Reads the second DMA descriptor pointer.
    pub fn sec_desc(self, m: &Mem) -> (r: DmaDesc)
        ensures
            r == self.sec_desc_in(m@),
    {
        DmaDesc(rd(m, self.0.wrapping_add(Self::SEC_DESC)))
    }

    /// The prefix length.
    pub open spec fn prefix_len_in(self, v: MemView) -> u16 {
        v.rd16(self.0.wrapping_add(Self::PREFIX_LEN))
    }

    /// Reads the prefix length.
    pub fn prefix_len(self, m: &Mem) -> (r: u16)
        ensures
            r == self.prefix_len_in(m@),
    {
        rd16(m, self.0.wrapping_add(Self::PREFIX_LEN))
    }

    /// The address space after a write of the prefix length.
    pub open spec fn with_prefix_len(self, v: MemView, val: u16) -> MemView {
        v.st16(self.0.wrapping_add(Self::PREFIX_LEN), val)
    }

    /// Writes the prefix length.
    pub fn set_prefix_len(self, m: &mut Mem, val: u16)
        ensures
            final(m)@ == self.with_prefix_len(old(m)@, val),
    {
        wr16(m, self.0.wrapping_add(Self::PREFIX_LEN), val);
    }

    /// The payload length.
    pub open spec fn payload_len_in(self, v: MemView) -> u16 {
        v.rd16(self.0.wrapping_add(Self::PAYLOAD_LEN))
    }

    /// Reads the payload length.
    pub fn payload_len(self, m: &Mem) -> (r: u16)
        ensures
            r == self.payload_len_in(m@),
    {
        rd16(m, self.0.wrapping_add(Self::PAYLOAD_LEN))
    }

    /// The address space after a write of the payload length.
    pub open spec fn with_payload_len(self, v: MemView, val: u16) -> MemView {
        v.st16(self.0.wrapping_add(Self::PAYLOAD_LEN), val)
    }

    /// Writes the payload length.
    pub fn set_payload_len(self, m: &mut Mem, val: u16)
        ensures
            final(m)@ == self.with_payload_len(old(m)@, val),
    {
        wr16(m, self.0.wrapping_add(Self::PAYLOAD_LEN), val);
    }

    /// The flags.
    pub open spec fn flags16_in(self, v: MemView) -> u16 {
        v.rd16(self.0.wrapping_add(Self::FLAGS16))
    }

    /// Reads the flags.
    pub fn flags16(self, m: &Mem) -> (r: u16)
        ensures
            r == self.flags16_in(m@),
    {
        rd16(m, self.0.wrapping_add(Self::FLAGS16))
    }

    /// The address space after a write of the flags.
    pub open spec fn with_flags16(self, v: MemView, val: u16) -> MemView {
        v.st16(self.0.wrapping_add(Self::FLAGS16), val)
    }

    /// Writes the flags.
    pub fn set_flags16(self, m: &mut Mem, val: u16)
        ensures
            final(m)@ == self.with_flags16(old(m)@, val),
    {
        wr16(m, self.0.wrapping_add(Self::FLAGS16), val);
    }

    /// The rate-control context.
    pub open spec fn trc_in(self, v: MemView) -> u32 {
        v.rd32(self.0.wrapping_add(Self::TRC))
    }

    /// Reads the rate-control context.
    pub fn trc(self, m: &Mem) -> (r: u32)
        ensures
            r == self.trc_in(m@),
    {
        rd(m, self.0.wrapping_add(Self::TRC))
    }

    /// The address space after a write of the rate-control context.
    pub open spec fn with_trc(self, v: MemView, val: u32) -> MemView {
        v.st32(self.0.wrapping_add(Self::TRC), val)
    }

    /// Writes the rate-control context.
    pub fn set_trc(self, m: &mut Mem, val: u32)
        ensures
            final(m)@ == self.with_trc(old(m)@, val),
    {
        wr(m, self.0.wrapping_add(Self::TRC), val);
    }

    /// The pending-list link.
    pub open spec fn pending_next_in(self, v: MemView) -> u32 {
        v.rd32(self.0.wrapping_add(Self::PENDING_NEXT))
    }

    /// Reads the pending-list link.
    pub fn pending_next(self, m: &Mem) -> (r: u32)
        ensures
            r == self.pending_next_in(m@),
    {
        rd(m, self.0.wrapping_add(Self::PENDING_NEXT))
    }

    /// The address space after a write of the pending-list link.
    pub open spec fn with_pending_next(self, v: MemView, val: u32) -> MemView {
        v.st32(self.0.wrapping_add(Self::PENDING_NEXT), val)
    }

    /// Writes the pending-list link.
    pub fn set_pending_next(self, m: &mut Mem, val: u32)
        ensures
            final(m)@ == self.with_pending_next(old(m)@, val),
    {
        wr(m, self.0.wrapping_add(Self::PENDING_NEXT), val);
    }

    /// Address of the pending-list link (the tail of a pending list points here).
    pub fn pending_next_addr(self) -> (r: u32)
        ensures
            r == self.0.wrapping_add(Self::PENDING_NEXT),
    {
        self.0.wrapping_add(Self::PENDING_NEXT)
    }

    /// The `TxInfo` pointer.
    pub open spec fn txinfo_in(self, v: MemView) -> TxInfo {
        TxInfo(v.rd32(self.0.wrapping_add(Self::TXINFO)))
    }

    /// Reads the `TxInfo` pointer.
    pub fn txinfo(self, m: &Mem) -> (r: TxInfo)
        ensures
            r == self.txinfo_in(m@),
    {
        TxInfo(rd(m, self.0.wrapping_add(Self::TXINFO)))
    }
}

/// One lmac TX control block, the context of the slot functions.
#[derive(Clone, Copy, Debug, PartialEq, Eq, Structural)]
pub struct LmacTxq(pub u32);

impl LmacTxq {
    /// The armed frame.
    pub const CUR_EB: u32 = 0x00;

    /// Hardware slot (byte).
    pub const SLOT: u32 = 0x04;

    /// AIFSN (byte, low nibble).
    pub const AIFSN: u32 = 0x05;

    /// Random backoff (halfword).
    pub const BACKOFF: u32 = 0x06;

    /// Contention-window exponent (byte).
    pub const CW: u32 = 0x08;

    /// State (byte): 0 idle, 1 armed, 3 released, 5 success, 6 error.
    pub const STATE: u32 = 0x12;

    /// TXOP burst count (byte).
    pub const TXOP_COUNT: u32 = 0x1c;

    /// TXOP burst depth (byte).
    pub const TXOP_DEPTH: u32 = 0x1d;

    /// Byte whose bit 2 skips the MPDU-length teardown at completion.
    pub const SKIP_FLAGS: u32 = 0x28;

    /// OFDM/HT channel-width selector (byte).
    pub const TXLEN_CBW_SEL: u32 = 0x40;

    /// OFDM/HT channel width (byte).
    pub const TXLEN_CBW: u32 = 0x41;

    /// Nothing is armed.
    pub const STATE_IDLE: u8 = 0;

    /// The slot was released.
    pub const STATE_RELEASED: u8 = 3;

    /// The control block of `ac` in the array at `base`.
    pub open spec fn block(base: u32, ac: u32) -> LmacTxq {
        LmacTxq(base.wrapping_add(ac.wrapping_mul(AC_STRIDE)))
    }

    /// The control block of `ac` in the live array.
    pub fn for_ac(m: &Mem, ac: u32) -> (r: Self)
        ensures
            r == Self::block(instances_of(m@), ac),
    {
        Self::in_array(our_instances_base(m), ac)
    }

    /// The control block of `ac` in the array at `base`.
    pub fn in_array(base: u32, ac: u32) -> (r: Self)
        ensures
            r == Self::block(base, ac),
    {
        LmacTxq(base.wrapping_add(ac.wrapping_mul(AC_STRIDE)))
    }

    /// The control block at the context address `ctx`.
    pub fn from_ctx(ctx: u32) -> (r: Self)
        ensures
            r.0 == ctx,
    {
        LmacTxq(ctx)
    }

    /// The context address of the control block.
    pub fn ptr(self) -> (r: u32)
        ensures
            r == self.0,
    {
        self.0
    }

    /// The armed frame.
    pub open spec fn cur_eb_in(self, v: MemView) -> Eb {
        Eb(v.rd32(self.0.wrapping_add(Self::CUR_EB)))
    }

    /// Reads the armed frame.
    pub fn cur_eb(self, m: &Mem) -> (r: Eb)
        ensures
            r == self.cur_eb_in(m@),
    {
        Eb(rd(m, self.0.wrapping_add(Self::CUR_EB)))
    }

    /// The address space after a write of the armed frame.
    pub open spec fn with_cur_eb(self, v: MemView, val: Eb) -> MemView {
        v.st32(self.0.wrapping_add(Self::CUR_EB), val.0)
    }

    /// Writes the armed frame.
    pub fn set_cur_eb(self, m: &mut Mem, val: Eb)
        ensures
            final(m)@ == self.with_cur_eb(old(m)@, val),
    {
        wr(m, self.0.wrapping_add(Self::CUR_EB), val.0);
    }

    /// The hardware slot.
    pub open spec fn slot_in(self, v: MemView) -> u32 {
        v.rd8(self.0.wrapping_add(Self::SLOT)) as u32
    }

    /// Reads the hardware slot.
    pub fn slot(self, m: &Mem) -> (r: u32)
        ensures
            r == self.slot_in(m@),
    {
        rd8(m, self.0.wrapping_add(Self::SLOT)) as u32
    }

    /// The AIFSN.
    pub open spec fn aifsn_in(self, v: MemView) -> u8 {
        v.rd8(self.0.wrapping_add(Self::AIFSN))
    }

    /// Reads the AIFSN.
    pub fn aifsn(self, m: &Mem) -> (r: u8)
        ensures
            r == self.aifsn_in(m@),
    {
        rd8(m, self.0.wrapping_add(Self::AIFSN))
    }

    /// The backoff.
    pub open spec fn backoff_in(self, v: MemView) -> u16 {
        v.rd16(self.0.wrapping_add(Self::BACKOFF))
    }

    /// Reads the backoff.
    pub fn backoff(self, m: &Mem) -> (r: u16)
        ensures
            r == self.backoff_in(m@),
    {
        rd16(m, self.0.wrapping_add(Self::BACKOFF))
    }

    /// The address space after a write of the backoff.
    pub open spec fn with_backoff(self, v: MemView, val: u16) -> MemView {
        v.st16(self.0.wrapping_add(Self::BACKOFF), val)
    }

    /// Writes the backoff.
    pub fn set_backoff(self, m: &mut Mem, val: u16)
        ensures
            final(m)@ == self.with_backoff(old(m)@, val),
    {
        wr16(m, self.0.wrapping_add(Self::BACKOFF), val);
    }

    /// The contention-window exponent.
    pub open spec fn cw_in(self, v: MemView) -> u8 {
        v.rd8(self.0.wrapping_add(Self::CW))
    }

    /// Reads the contention-window exponent.
    pub fn cw(self, m: &Mem) -> (r: u8)
        ensures
            r == self.cw_in(m@),
    {
        rd8(m, self.0.wrapping_add(Self::CW))
    }

    /// The state.
    pub open spec fn state_in(self, v: MemView) -> u8 {
        v.rd8(self.0.wrapping_add(Self::STATE))
    }

    /// Reads the state.
    pub fn state(self, m: &Mem) -> (r: u8)
        ensures
            r == self.state_in(m@),
    {
        rd8(m, self.0.wrapping_add(Self::STATE))
    }

    /// The TXOP burst count.
    pub open spec fn txop_count_in(self, v: MemView) -> u32 {
        v.rd8(self.0.wrapping_add(Self::TXOP_COUNT)) as u32
    }

    /// Reads the TXOP burst count.
    pub fn txop_count(self, m: &Mem) -> (r: u32)
        ensures
            r == self.txop_count_in(m@),
    {
        rd8(m, self.0.wrapping_add(Self::TXOP_COUNT)) as u32
    }

    /// The TXOP burst depth.
    pub open spec fn txop_depth_in(self, v: MemView) -> u32 {
        v.rd8(self.0.wrapping_add(Self::TXOP_DEPTH)) as u32
    }

    /// Reads the TXOP burst depth.
    pub fn txop_depth(self, m: &Mem) -> (r: u32)
        ensures
            r == self.txop_depth_in(m@),
    {
        rd8(m, self.0.wrapping_add(Self::TXOP_DEPTH)) as u32
    }

    /// The channel-width selector.
    pub open spec fn txlen_cbw_sel_in(self, v: MemView) -> u32 {
        v.rd8(self.0.wrapping_add(Self::TXLEN_CBW_SEL)) as u32
    }

    /// Reads the channel-width selector.
    pub fn txlen_cbw_sel(self, m: &Mem) -> (r: u32)
        ensures
            r == self.txlen_cbw_sel_in(m@),
    {
        rd8(m, self.0.wrapping_add(Self::TXLEN_CBW_SEL)) as u32
    }

    /// The channel width.
    pub open spec fn txlen_cbw_in(self, v: MemView) -> u32 {
        v.rd8(self.0.wrapping_add(Self::TXLEN_CBW)) as u32
    }

    /// Reads the channel width.
    pub fn txlen_cbw(self, m: &Mem) -> (r: u32)
        ensures
            r == self.txlen_cbw_in(m@),
    {
        rd8(m, self.0.wrapping_add(Self::TXLEN_CBW)) as u32
    }

    /// The completion skip flags.
    pub open spec fn skip_flags_in(self, v: MemView) -> u8 {
        v.rd8(self.0.wrapping_add(Self::SKIP_FLAGS))
    }

    /// Reads the completion skip flags.
    pub fn skip_flags(self, m: &Mem) -> (r: u8)
        ensures
            r == self.skip_flags_in(m@),
    {
        rd8(m, self.0.wrapping_add(Self::SKIP_FLAGS))
    }
}

/// One per-AC pending list: ebs linked through `Eb::PENDING_NEXT`. The tail is the address of the
/// link to fill next, which is the head field itself while the list is empty.
#[derive(Clone, Copy, Debug, PartialEq, Eq, Structural)]
pub struct PendingQ(pub u32);

impl PendingQ {
    /// The first eb.
    pub const HEAD: u32 = 0x20;

    /// Address of the link to fill next.
    pub const TAIL: u32 = 0x24;

    /// Byte that must be zero for a pop.
    pub const GUARD_BYTE: u32 = 0x29;

    /// Word that must be zero for a pop.
    pub const GUARD_WORD: u32 = 0x34;

    /// The pending list of `ac`.
    pub open spec fn of_ac(v: MemView, ac: u32) -> PendingQ {
        PendingQ(v.rd32(TXRXCXT_PTR).wrapping_add(ac.wrapping_mul(AC_STRIDE)))
    }

    /// The pending list of `ac`.
    pub fn for_ac(m: &Mem, ac: u32) -> (r: Self)
        ensures
            r == Self::of_ac(m@, ac),
    {
        PendingQ(rd(m, TXRXCXT_PTR).wrapping_add(ac.wrapping_mul(AC_STRIDE)))
    }

    /// The first eb.
    pub open spec fn head_in(self, v: MemView) -> u32 {
        v.rd32(self.0.wrapping_add(Self::HEAD))
    }

    /// Reads the first eb.
    pub fn head(self, m: &Mem) -> (r: u32)
        ensures
            r == self.head_in(m@),
    {
        rd(m, self.0.wrapping_add(Self::HEAD))
    }

    /// The address space after a write of the first eb.
    pub open spec fn with_head(self, v: MemView, val: u32) -> MemView {
        v.st32(self.0.wrapping_add(Self::HEAD), val)
    }

    /// Writes the first eb.
    pub fn set_head(self, m: &mut Mem, val: u32)
        ensures
            final(m)@ == self.with_head(old(m)@, val),
    {
        wr(m, self.0.wrapping_add(Self::HEAD), val);
    }

    /// Address of the head field.
    pub fn head_addr(self) -> (r: u32)
        ensures
            r == self.0.wrapping_add(Self::HEAD),
    {
        self.0.wrapping_add(Self::HEAD)
    }

    /// The address of the link to fill next.
    pub open spec fn tail_in(self, v: MemView) -> u32 {
        v.rd32(self.0.wrapping_add(Self::TAIL))
    }

    /// Reads the address of the link to fill next.
    pub fn tail(self, m: &Mem) -> (r: u32)
        ensures
            r == self.tail_in(m@),
    {
        rd(m, self.0.wrapping_add(Self::TAIL))
    }

    /// The address space after a write of the address of the link to fill next.
    pub open spec fn with_tail(self, v: MemView, val: u32) -> MemView {
        v.st32(self.0.wrapping_add(Self::TAIL), val)
    }

    /// Writes the address of the link to fill next.
    pub fn set_tail(self, m: &mut Mem, val: u32)
        ensures
            final(m)@ == self.with_tail(old(m)@, val),
    {
        wr(m, self.0.wrapping_add(Self::TAIL), val);
    }

    /// The guard byte.
    pub open spec fn guard_byte_in(self, v: MemView) -> u8 {
        v.rd8(self.0.wrapping_add(Self::GUARD_BYTE))
    }

    /// Reads the guard byte.
    pub fn guard_byte(self, m: &Mem) -> (r: u8)
        ensures
            r == self.guard_byte_in(m@),
    {
        rd8(m, self.0.wrapping_add(Self::GUARD_BYTE))
    }

    /// The guard word.
    pub open spec fn guard_word_in(self, v: MemView) -> u32 {
        v.rd32(self.0.wrapping_add(Self::GUARD_WORD))
    }

    /// Reads the guard word.
    pub fn guard_word(self, m: &Mem) -> (r: u32)
        ensures
            r == self.guard_word_in(m@),
    {
        rd(m, self.0.wrapping_add(Self::GUARD_WORD))
    }
}

/// Adding to the length field changes the length by that much, modulo its 14 bits, and keeps the
/// buffer size and the owner/eof/link bits.
pub proof fn add_len_touches_only_the_length(w: u32, delta: u32)
    ensures
        (ctrl_plus_len(w, delta) >> 14) & 0x3fff == (((w >> 14) & 0x3fff) + delta) % 0x4000,
        ctrl_plus_len(w, delta) & 0xf000_3fff == w & 0xf000_3fff,
{
    let l = (w >> 14) & 0x3fff;
    let s = l.wrapping_add(delta);
    assert({
        let r = ((s & 0x3fff) << 14) | (w & 0xf000_3fff);
        &&& s & 0x3fff == s % 0x4000
        &&& (r >> 14) & 0x3fff == s & 0x3fff
        &&& r & 0xf000_3fff == w & 0xf000_3fff
    }) by (bit_vector);
}

} // verus!
