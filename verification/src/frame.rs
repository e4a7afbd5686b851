//! What a frame goes through before it is queued: the raw-frame set-up, the protocol flags, the
//! security header, and the two predicates that the submit and the arm ask.
use crate::layout::{if_enabled_mask, if_mask_of, DmaDesc, Eb, TxInfo};
use crate::mac_reg::SYS_TIMER;
use crate::mmio::{rd, rd16, rd8, wr, wr16, wr_zeros, Mem, MemView};
use vstd::prelude::*;

verus! {

/// Offset of the first receiver-address byte in a frame.
pub const FRAME_ADDR1: u32 = 4;

/// Offset of the sequence-control halfword in a frame.
pub const FRAME_SEQ_CTRL: u32 = 0x16;

/// Security-header lengths by key type, in flash.
pub const SEC_LEN_TABLE: u32 = 0x4200_b100;

/// Offset of the long-frame threshold in the lmac configuration.
pub const LMACCONFMIB_LONG_FRAME_THRESHOLD: u32 = 0x16;

/// Bytes that are reserved in front of a frame for its security header.
pub const SEC_HDR_ROOM: u32 = 8;

/// The txinfo flag of a broadcast or multicast frame.
pub const FLAG_BROADCAST: u32 = 0x2;

/// Reads the free-running system timer.
pub fn cr_hal_now(m: &Mem) -> (r: u32)
    ensures
        r == m@.rd32(SYS_TIMER),
{
    rd(m, SYS_TIMER)
}

/// Whether an interface is enabled: bit `iface`, counted modulo 32, of the enable mask.
pub open spec fn interface_enabled(mask: u8, iface: u32) -> u32 {
    ((mask as u32) >> (iface & 0x1f)) & 1
}

/// Whether an interface is enabled (1) or not (0).
pub fn cr_ic_interface_enabled(m: &Mem, iface: u32) -> (r: i32)
    ensures
        r == interface_enabled(if_mask_of(m@), iface),
        r == 0 || r == 1,
{
    let mask = if_enabled_mask(m) as u32;
    proof {
        crate::bits::low_bits(iface);
        crate::bits::low_bits(mask >> (iface & 0x1f));
    }
    let bit = (mask >> (iface & 0x1f)) & 1;
    bit as i32
}

/// The control word of a raw frame's descriptor: owned by the hardware, end of frame, bit 29 clear,
/// the payload length in the length field, and the low 14 bits as they were.
pub open spec fn raw_ctrl(w: u32, len: u32) -> u32 {
    ((len & DmaDesc::CTRL_LEN_MASK) << DmaDesc::CTRL_LEN_SHIFT) | (((w | DmaDesc::CTRL_OWNER
        | DmaDesc::CTRL_EOF) & DmaDesc::CTRL_BIT29_CLEAR) & DmaDesc::CTRL_KEEP_MASK)
}

/// The address space after the descriptor of a raw frame has been set up.
pub open spec fn raw_desc_set(v: MemView, eb: Eb) -> MemView {
    let dma = eb.dma_desc_in(v);
    let v1 = eb.with_prefix_len(v, 0);
    dma.with_ctrl(v1, raw_ctrl(dma.ctrl_in(v1), eb.payload_len_in(v1) as u32))
}

/// The address space after a raw frame has been set up for interface 0 at 1 Mbit/s.
pub open spec fn raw_set_up(v: MemView, eb: Eb, seq: u16) -> MemView {
    let frame = eb.dma_desc_in(v).frame_ptr_in(v);
    let v2 = raw_desc_set(v, eb);
    let ti = eb.txinfo_in(v2);
    let v3 = ti.with_cat(v2, 7);
    let v4 = ti.with_timestamp(v3, v3.rd32(SYS_TIMER));
    let v5 = ti.with_word10(v4, ti.word10_in(v4) & 0xfff7_ffff);
    let v6 = if v5.rd8(frame.wrapping_add(FRAME_ADDR1)) & 1 != 0 {
        ti.with_flags(v5, ti.flags_in(v5) | 0x402)
    } else {
        v5
    };
    let v7 = ti.with_rate(v6, 0);
    let v8 = v7.st16(frame.wrapping_add(FRAME_SEQ_CTRL), seq << 4);
    eb.with_trc(v8, 0)
}

/// Sets up a raw frame with the sequence number `seq` and hands out its txinfo.
pub fn raw_setup(m: &mut Mem, eb: Eb, seq: u16) -> (r: TxInfo)
    ensures
        final(m)@ == raw_set_up(old(m)@, eb, seq),
        r == eb.txinfo_in(raw_desc_set(old(m)@, eb)),
{
    let dma = eb.dma_desc(m);
    let frame = dma.frame_ptr(m);
    eb.set_prefix_len(m, 0);
    let len = eb.payload_len(m) as u32;
    let mut w0 = dma.ctrl(m);
    w0 = w0 | DmaDesc::CTRL_OWNER | DmaDesc::CTRL_EOF;
    w0 = w0 & DmaDesc::CTRL_BIT29_CLEAR;
    w0 = ((len & DmaDesc::CTRL_LEN_MASK) << DmaDesc::CTRL_LEN_SHIFT) | (w0
        & DmaDesc::CTRL_KEEP_MASK);
    dma.set_ctrl(m, w0);
    let txinfo = eb.txinfo(m);
    txinfo.set_cat(m, 7);
    let now = cr_hal_now(m);
    txinfo.set_timestamp(m, now);
    let word10 = txinfo.word10(m);
    txinfo.set_word10(m, word10 & 0xfff7_ffff);
    if rd8(m, frame.wrapping_add(FRAME_ADDR1)) & 1 != 0 {
        let flags = txinfo.flags(m);
        txinfo.set_flags(m, flags | 0x402);
    }
    txinfo.set_rate(m, 0);
    wr16(m, frame.wrapping_add(FRAME_SEQ_CTRL), seq << 4);
    eb.set_trc(m, 0);
    txinfo
}

/// Where a frame's own bytes start: behind the reserved header, once that has been put in front.
pub open spec fn frame_start_of(v: MemView, eb: Eb) -> u32 {
    let p = eb.dma_desc_in(v).frame_ptr_in(v);
    if eb.flags16_in(v) & Eb::FLAG16_HDR_SHIFTED != 0 {
        p.wrapping_add(SEC_HDR_ROOM)
    } else {
        p
    }
}

/// The address space after the protocol flags of a frame have been set: bit 1 for a broadcast or
/// multicast receiver; bit 3 for data, unless it is a null frame that WORD30 bit 17 does not mark;
/// and for a unicast probe, bit 27 (response) or bit 11 (request).
pub open spec fn proto_marked(v: MemView, eb: Eb) -> MemView {
    let frame = frame_start_of(v, eb);
    let ti = eb.txinfo_in(v);
    let v1 = if v.rd8(frame.wrapping_add(FRAME_ADDR1)) & 1 != 0 {
        ti.with_flags(v, ti.flags_in(v) | FLAG_BROADCAST)
    } else {
        v
    };
    let fc = v1.rd8(frame);
    if fc & 0xc == 8 {
        let v2 = ti.with_flags(v1, ti.flags_in(v1) | 8);
        if ti.word30_in(v2) & 0x2_0000 == 0 && fc & 0x70 == 0x40 {
            ti.with_flags(v2, ti.flags_in(v2) & 0xffff_fff7)
        } else {
            v2
        }
    } else if fc & 0xc == 0 && ti.flags_in(v1) & FLAG_BROADCAST == 0 {
        if fc & 0xf0 == 0x50 {
            ti.with_flags(v1, ti.flags_in(v1) | 0x800_0000)
        } else if fc & 0xf0 == 0x40 {
            ti.with_flags(v1, ti.flags_in(v1) | 0x800)
        } else {
            v1
        }
    } else {
        v1
    }
}

/// Sets the protocol flags of a frame from its frame-control byte and its receiver.
#[allow(non_snake_case)]
pub fn cr_ppTxProtoProc(m: &mut Mem, eb: Eb)
    ensures
        final(m)@ == proto_marked(old(m)@, eb),
{
    let mut frame = eb.dma_desc(m).frame_ptr(m);
    if eb.flags16(m) & Eb::FLAG16_HDR_SHIFTED != 0 {
        frame = frame.wrapping_add(SEC_HDR_ROOM);
    }
    let txinfo = eb.txinfo(m);
    if rd8(m, frame.wrapping_add(FRAME_ADDR1)) & 1 != 0 {
        let flags = txinfo.flags(m);
        txinfo.set_flags(m, flags | FLAG_BROADCAST);
    }
    let fc = rd8(m, frame);
    if fc & 0xc == 8 {
        let flags = txinfo.flags(m);
        txinfo.set_flags(m, flags | 8);
        if txinfo.word30(m) & 0x2_0000 == 0 && fc & 0x70 == 0x40 {
            let flags2 = txinfo.flags(m);
            txinfo.set_flags(m, flags2 & 0xffff_fff7);
        }
    } else if fc & 0xc == 0 {
        let flags = txinfo.flags(m);
        if fc & 0xf0 == 0x50 {
            if flags & FLAG_BROADCAST == 0 {
                txinfo.set_flags(m, flags | 0x800_0000);
            }
        } else if fc & 0xf0 == 0x40 && flags & FLAG_BROADCAST == 0 {
            txinfo.set_flags(m, flags | 0x800);
        }
    }
}

/// The length of the security header: from the table for a key of types 1 to 9 (WORD10 bits 8-11),
/// 4 without one.
pub open spec fn sec_len_of(v: MemView, word10: u32) -> u32 {
    let key = ((word10 >> 8) & 0xf).wrapping_sub(1) & 0xff;
    if key <= 8 {
        v.rd8(SEC_LEN_TABLE.wrapping_add(key)) as u32
    } else {
        4
    }
}

/// The address space after the reserved header has been put in front of the frame.
pub open spec fn header_shifted(v: MemView, eb: Eb) -> MemView {
    let dma = eb.dma_desc_in(v);
    let v1 = dma.with_frame_ptr(v, dma.frame_ptr_in(v).wrapping_sub(SEC_HDR_ROOM));
    let v2 = eb.with_prefix_len(v1, (eb.prefix_len_in(v1) + SEC_HDR_ROOM) as u16);
    let v3 = eb.with_flags16(v2, eb.flags16_in(v2) | Eb::FLAG16_HDR_SHIFTED);
    dma.with_ctrl(v3, crate::layout::ctrl_plus_len(dma.ctrl_in(v3), SEC_HDR_ROOM))
}

/// The address space after the reserved header has been cleared and the frame length written into
/// the low 14 bits of its first word.
pub open spec fn header_written(v: MemView, eb: Eb, hdr: u32) -> MemView {
    let v1 = v.st_bytes(hdr, Seq::new(SEC_HDR_ROOM as nat, |i: int| 0u8));
    let total = (eb.prefix_len_in(v1) + eb.payload_len_in(v1)) as u32;
    let len = total.wrapping_sub(SEC_HDR_ROOM) & 0x3fff;
    v1.st32(hdr, len | (v1.rd32(hdr) & 0xffff_c000))
}

/// The address space after the security-header step: the security header counts towards payload and
/// descriptor length, and, unless the frame is HE or an encrypted aggregate, the reserved header is
/// put in front of it once and written.
pub open spec fn sec_processed(v: MemView, eb: Eb) -> MemView {
    let ti = eb.txinfo_in(v);
    let len = sec_len_of(v, ti.word10_in(v));
    let v1 = eb.with_payload_len(v, (eb.payload_len_in(v) + len) as u16);
    let dma = eb.sec_desc_in(v1);
    let v2 = dma.with_ctrl(v1, crate::layout::ctrl_plus_len(dma.ctrl_in(v1), len));
    let flags = ti.flags_in(v2);
    if flags & 0x8000_0000 != 0 || flags & 0x0104_0000 != 0 {
        v2
    } else {
        let v3 = dma.with_ctrl(v2, dma.ctrl_in(v2) | DmaDesc::CTRL_EOF);
        let v4 = if eb.flags16_in(v3) & Eb::FLAG16_HDR_SHIFTED == 0 {
            header_shifted(v3, eb)
        } else {
            v3
        };
        header_written(v4, eb, eb.dma_desc_in(v3).frame_ptr_in(v4))
    }
}

/// Reserves the security header of a frame without encryption. Returns 0: go on.
#[allow(non_snake_case)]
pub fn cr_ppProcTxSecFrame(m: &mut Mem, eb: Eb) -> (r: i32)
    ensures
        final(m)@ == sec_processed(old(m)@, eb),
        r == 0,
{
    let txinfo = eb.txinfo(m);
    let key = ((txinfo.word10(m) >> 8) & 0xf).wrapping_sub(1) & 0xff;
    let len: u32 = if key <= 8 {
        rd8(m, SEC_LEN_TABLE.wrapping_add(key)) as u32
    } else {
        4
    };
    let payload = eb.payload_len(m) as u32 + len;
    eb.set_payload_len(m, payload as u16);
    let dma = eb.sec_desc(m);
    dma.add_len(m, len);
    let flags = txinfo.flags(m);
    if flags & 0x8000_0000 != 0 || flags & 0x0104_0000 != 0 {
        return 0;
    }
    let ctrl = dma.ctrl(m);
    dma.set_ctrl(m, ctrl | DmaDesc::CTRL_EOF);
    let dma4 = eb.dma_desc(m);
    if eb.flags16(m) & Eb::FLAG16_HDR_SHIFTED == 0 {
        let p = dma4.frame_ptr(m);
        dma4.set_frame_ptr(m, p.wrapping_sub(SEC_HDR_ROOM));
        let prefix = eb.prefix_len(m) as u32 + SEC_HDR_ROOM;
        eb.set_prefix_len(m, prefix as u16);
        let flags16 = eb.flags16(m);
        eb.set_flags16(m, flags16 | Eb::FLAG16_HDR_SHIFTED);
        dma4.add_len(m, SEC_HDR_ROOM);
    }
    let hdr = dma4.frame_ptr(m);
    wr_zeros(m, hdr, SEC_HDR_ROOM);
    let total = eb.prefix_len(m) as u32 + eb.payload_len(m) as u32;
    let word = rd(m, hdr);
    wr(m, hdr, (total.wrapping_sub(SEC_HDR_ROOM) & 0x3fff) | (word & 0xffff_c000));
    0
}

/// Whether a frame is longer than the long-frame threshold. `mib` is the address of the lmac
/// configuration.
pub open spec fn is_long(v: MemView, mib: u32, eb: Eb) -> bool {
    v.rd16(mib.wrapping_add(LMACCONFMIB_LONG_FRAME_THRESHOLD)) < eb.prefix_len_in(v)
        + eb.payload_len_in(v)
}

/// Whether a frame is longer than the long-frame threshold (1) or not (0).
#[allow(non_snake_case)]
pub fn cr_lmacIsLongFrame(m: &Mem, mib: u32, eb: Eb) -> (r: i32)
    ensures
        r == (if is_long(m@, mib, eb) {
            1i32
        } else {
            0
        }),
{
    let threshold = rd16(m, mib.wrapping_add(LMACCONFMIB_LONG_FRAME_THRESHOLD)) as u32;
    let len = eb.prefix_len(m) as u32 + eb.payload_len(m) as u32;
    if threshold < len {
        1
    } else {
        0
    }
}

} // verus!
