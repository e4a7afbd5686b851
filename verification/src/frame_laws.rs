//! The net effect of the frame preparation on a frame whose parts lie apart.
use crate::eb_pool::{EB_FRAME_OFF, EB_OWN_DESC_OFF, EB_OWN_TXINFO_OFF};
use crate::frame::{
    frame_start_of, header_shifted, header_written, interface_enabled, is_long, proto_marked,
    raw_set_up, sec_len_of, sec_processed, FLAG_BROADCAST, FRAME_ADDR1, FRAME_SEQ_CTRL, SEC_HDR_ROOM,
};
use crate::layout::{ctrl_plus_len, DmaDesc, Eb, TxInfo};
use crate::mem_laws::{rd16_after_st_bytes, rd32_after_st_bytes, rd8_after_st_bytes};
use crate::mmio::{apart, MemView};
use vstd::prelude::*;

verus! {

/// The eb is a block of the pool: it lies in RAM, and its descriptor, txinfo and frame are its own.
/// The frame pointer may already have been moved in front of the frame bytes.
pub open spec fn own_parts(v: MemView, eb: Eb) -> bool {
    let desc = DmaDesc(eb.0.wrapping_add(EB_OWN_DESC_OFF));
    let frame = eb.0.wrapping_add(EB_FRAME_OFF);
    &&& 0 < eb.0 < 0x5000_0000
    &&& eb.dma_desc_in(v) == desc
    &&& eb.sec_desc_in(v) == desc
    &&& eb.txinfo_in(v) == TxInfo(eb.0.wrapping_add(EB_OWN_TXINFO_OFF))
    &&& desc.frame_ptr_in(v) == frame || (desc.frame_ptr_in(v) == frame - SEC_HDR_ROOM)
}

/// The flags that the protocol step gives a frame with the flags `flags`, the frame-control byte
/// `fc` and the first receiver byte `addr1`.
pub open spec fn proto_flags(flags: u32, fc: u8, addr1: u8, word30: u32) -> u32 {
    let f = if addr1 & 1 != 0 {
        flags | FLAG_BROADCAST
    } else {
        flags
    };
    if fc & 0xc == 8 {
        if word30 & 0x2_0000 == 0 && fc & 0x70 == 0x40 {
            (f | 8) & 0xffff_fff7
        } else {
            f | 8
        }
    } else if fc & 0xc == 0 && f & FLAG_BROADCAST == 0 && fc & 0xf0 == 0x50 {
        f | 0x800_0000
    } else if fc & 0xc == 0 && f & FLAG_BROADCAST == 0 && fc & 0xf0 == 0x40 {
        f | 0x800
    } else {
        f
    }
}

/// The protocol step changes the flags of the frame and nothing else.
pub proof fn proto_step_sets_only_flags(v: MemView, eb: Eb, a: u32)
    requires
        own_parts(v, eb),
        apart(eb.txinfo_in(v).0, 4, a, 4),
    ensures
        ({
            let ti = eb.txinfo_in(v);
            let frame = frame_start_of(v, eb);
            let w = proto_marked(v, eb);
            &&& ti.flags_in(w) == proto_flags(
                ti.flags_in(v),
                v.rd8(frame),
                v.rd8(frame.wrapping_add(FRAME_ADDR1)),
                ti.word30_in(v),
            )
            &&& w.rd32(a) == v.rd32(a)
        }),
{
    broadcast use crate::mem_laws::group_loads;

}

proof fn lemma_broadcast_management(flags: u32, fc: u8, addr1: u8, word30: u32)
    requires
        addr1 & 1 != 0,
        fc & 0xc == 0,
    ensures
        (flags | 2) & 2 != 0,
        fc & 0xc != 8,
{
    lemma_raw_bits(0, 0, 0, flags, 0);
}

/// A broadcast management frame, such as a beacon, gets the broadcast flag and no other.
pub proof fn broadcast_management_flags(flags: u32, fc: u8, addr1: u8, word30: u32)
    requires
        addr1 & 1 != 0,
        fc & 0xc == 0,
    ensures
        proto_flags(flags, fc, addr1, word30) == flags | FLAG_BROADCAST,
{
    lemma_broadcast_management(flags, fc, addr1, word30);
}

proof fn lemma_raw_bits(w: u32, len: u32, w10: u32, flags: u32, seq: u16)
    by (bit_vector)
    ensures
        ({
            let c = ((len & 0x3fff) << 0xe) | (((w | 0x8000_0000 | 0x4000_0000) & 0xdfff_ffff)
                & 0xf000_3fff);
            &&& (c >> 0xe) & 0x3fff == len & 0x3fff
            &&& c & 0x3fff == w & 0x3fff
            &&& c & 0xe000_0000 == 0xc000_0000
        }),
        ((w10 & 0xfff7_ffffu32) >> 0x13) & 1 == 0,
        (flags | 0x402) & 0x402 == 0x402,
        (flags | 2) & 2 != 0,
        (seq << 4) & 0xf == 0,
        seq < 0x1000 ==> (seq << 4) >> 4 == seq,
{
}

/// A raw frame is set up for interface 0 at rate 0 without rate context or prefix; its descriptor is
/// the hardware's, ends the frame and has the payload length; the sequence number stands in its
/// header with fragment 0; and a multicast frame is marked as broadcast and raw, so that it awaits
/// no ack.
pub proof fn raw_setup_fields(v: MemView, eb: Eb, seq: u16)
    requires
        own_parts(v, eb),
    ensures
        ({
            let w = raw_set_up(v, eb, seq);
            let ti = eb.txinfo_in(v);
            let dma = eb.dma_desc_in(v);
            let frame = dma.frame_ptr_in(v);
            let c = dma.ctrl_in(w);
            let sc = w.rd16(frame.wrapping_add(FRAME_SEQ_CTRL));
            &&& own_parts(w, eb)
            &&& eb.prefix_len_in(w) == 0
            &&& eb.trc_in(w) == 0
            &&& eb.payload_len_in(w) == eb.payload_len_in(v)
            &&& ti.rate_in(w) == 0
            &&& ti.iface_in(w) == 0
            &&& w.rd8(ti.0.wrapping_add(TxInfo::CAT)) == 7
            &&& (c >> 14) & 0x3fff == (eb.payload_len_in(v) as u32) & 0x3fff
            &&& c & 0x3fff == dma.ctrl_in(v) & 0x3fff
            &&& c & 0xe000_0000 == 0xc000_0000
            &&& sc == seq << 4
            &&& sc & 0xf == 0
            &&& seq < 0x1000 ==> sc >> 4 == seq
            &&& v.rd8(frame.wrapping_add(FRAME_ADDR1)) & 1 != 0 ==> ti.flags_in(w) & 0x402 == 0x402
        }),
{
    broadcast use crate::mem_laws::group_loads;

    let ti = eb.txinfo_in(v);
    let dma = eb.dma_desc_in(v);
    lemma_raw_bits(
        dma.ctrl_in(v),
        eb.payload_len_in(v) as u32,
        ti.word10_in(v),
        ti.flags_in(v),
        seq,
    );
}

proof fn lemma_zero_word()
    by (bit_vector)
    ensures
        (0u8 as u32) | ((0u8 as u32) << 8) | ((0u8 as u32) << 16) | ((0u8 as u32) << 24) == 0u32,
        0u32 & 0xffff_c000u32 == 0,
        forall|x: u32| #[trigger] (x | 0u32) == x,
{
}

proof fn lemma_eof_bits(w: u32, f: u16)
    by (bit_vector)
    ensures
        ((w | 0x4000_0000u32) >> 14) & 0x3fff == (w >> 14) & 0x3fff,
        (w | 0x4000_0000u32) & 0x4000_0000u32 == 0x4000_0000u32,
        (w | 0x4000_0000u32) & 0x3fff == w & 0x3fff,
        (w & 0xf000_3fffu32) & 0x4000_0000u32 == w & 0x4000_0000u32,
        (w & 0xf000_3fffu32) & 0x3fff == w & 0x3fff,
        (f | 0x2000u16) & 0x2000u16 != 0,
        w & 0xf00 == 0 ==> (w >> 8) & 0xf == 0,
        0xffff_ffffu32 & 0xff == 0xff,
{
}

/// A word inside a run of zero bytes reads as zero.
proof fn lemma_zeros(v: MemView, a: u32)
    ensures
        v.st_bytes(a, Seq::new(SEC_HDR_ROOM as nat, |i: int| 0u8)).rd32(a) == 0,
        v.st_bytes(a, Seq::new(SEC_HDR_ROOM as nat, |i: int| 0u8)).rd32(a.wrapping_add(4)) == 0,
{
    let z = Seq::new(SEC_HDR_ROOM as nat, |i: int| 0u8);
    reveal(MemView::rd32);
    lemma_zero_word();
    rd8_after_st_bytes(v, a, z, a);
    rd8_after_st_bytes(v, a, z, a.wrapping_add(1));
    rd8_after_st_bytes(v, a, z, a.wrapping_add(2));
    rd8_after_st_bytes(v, a, z, a.wrapping_add(3));
    let b = a.wrapping_add(4);
    rd8_after_st_bytes(v, a, z, b);
    rd8_after_st_bytes(v, a, z, b.wrapping_add(1));
    rd8_after_st_bytes(v, a, z, b.wrapping_add(2));
    rd8_after_st_bytes(v, a, z, b.wrapping_add(3));
}

/// The fields that the security-header step leaves, given those that it found.
pub open spec fn sec_fields(v: MemView, w: MemView, eb: Eb, len: u32, room: u32) -> bool {
    let dma = eb.dma_desc_in(v);
    let hdr = dma.frame_ptr_in(w);
    &&& hdr == dma.frame_ptr_in(v) - room
    &&& eb.payload_len_in(w) == eb.payload_len_in(v) + len
    &&& eb.prefix_len_in(w) == eb.prefix_len_in(v) + room
    &&& eb.flags16_in(w) & Eb::FLAG16_HDR_SHIFTED != 0
    &&& (dma.ctrl_in(w) >> 14) & 0x3fff == (((dma.ctrl_in(v) >> 14) & 0x3fff) + len + room) % 0x4000
    &&& dma.ctrl_in(w) & DmaDesc::CTRL_EOF != 0
    &&& dma.ctrl_in(w) & 0x3fff == dma.ctrl_in(v) & 0x3fff
    &&& w.rd32(hdr) == ((eb.prefix_len_in(w) + eb.payload_len_in(w)) as u32).wrapping_sub(
        SEC_HDR_ROOM,
    ) & 0x3fff
    &&& w.rd32(hdr.wrapping_add(4)) == 0
}

proof fn lemma_header_written(v: MemView, eb: Eb)
    requires
        own_parts(v, eb),
        eb.dma_desc_in(v).frame_ptr_in(v) == eb.0 + EB_FRAME_OFF - SEC_HDR_ROOM,
    ensures
        ({
            let dma = eb.dma_desc_in(v);
            let hdr = dma.frame_ptr_in(v);
            let w = header_written(v, eb, hdr);
            &&& dma.frame_ptr_in(w) == hdr
            &&& dma.ctrl_in(w) == dma.ctrl_in(v)
            &&& eb.payload_len_in(w) == eb.payload_len_in(v)
            &&& eb.prefix_len_in(w) == eb.prefix_len_in(v)
            &&& eb.flags16_in(w) == eb.flags16_in(v)
            &&& w.rd32(hdr) == ((eb.prefix_len_in(w) + eb.payload_len_in(w)) as u32).wrapping_sub(
                SEC_HDR_ROOM,
            ) & 0x3fff
            &&& w.rd32(hdr.wrapping_add(4)) == 0
        }),
{
    broadcast use crate::mem_laws::group_loads;

    let dma = eb.dma_desc_in(v);
    let hdr = dma.frame_ptr_in(v);
    let z = Seq::new(SEC_HDR_ROOM as nat, |i: int| 0u8);
    lemma_zeros(v, hdr);
    lemma_zero_word();
    rd32_after_st_bytes(v, hdr, z, dma.0.wrapping_add(DmaDesc::FRAME_PTR));
    rd32_after_st_bytes(v, hdr, z, dma.0);
    rd16_after_st_bytes(v, hdr, z, eb.0.wrapping_add(Eb::PREFIX_LEN));
    rd16_after_st_bytes(v, hdr, z, eb.0.wrapping_add(Eb::PAYLOAD_LEN));
    rd16_after_st_bytes(v, hdr, z, eb.0.wrapping_add(Eb::FLAGS16));
}

/// The first security-header step on a frame without encryption puts the reserved header in front of
/// it: the frame pointer moves down by 8, prefix and descriptor length grow by 8, payload and
/// descriptor length by the security header, and the reserved header holds the frame length.
pub proof fn first_sec_step_shifts_the_header(v: MemView, eb: Eb)
    requires
        own_parts(v, eb),
        eb.dma_desc_in(v).frame_ptr_in(v) == eb.0 + EB_FRAME_OFF,
        eb.flags16_in(v) & Eb::FLAG16_HDR_SHIFTED == 0,
        eb.txinfo_in(v).flags_in(v) & 0x8000_0000 == 0,
        eb.txinfo_in(v).flags_in(v) & 0x0104_0000 == 0,
        eb.payload_len_in(v) + sec_len_of(v, eb.txinfo_in(v).word10_in(v)) < 0x1_0000,
        eb.prefix_len_in(v) + SEC_HDR_ROOM < 0x1_0000,
    ensures
        sec_fields(
            v,
            sec_processed(v, eb),
            eb,
            sec_len_of(v, eb.txinfo_in(v).word10_in(v)),
            SEC_HDR_ROOM,
        ),
{
    broadcast use crate::mem_laws::group_loads;

    let ti = eb.txinfo_in(v);
    let len = sec_len_of(v, ti.word10_in(v));
    let v1 = eb.with_payload_len(v, (eb.payload_len_in(v) + len) as u16);
    let dma = eb.dma_desc_in(v);
    let c0 = dma.ctrl_in(v);
    let c1 = ctrl_plus_len(c0, len);
    let v2 = dma.with_ctrl(v1, c1);
    let c2 = c1 | DmaDesc::CTRL_EOF;
    let v3 = dma.with_ctrl(v2, c2);
    let v4 = header_shifted(v3, eb);
    let c3 = ctrl_plus_len(c2, SEC_HDR_ROOM);
    assert(own_parts(v3, eb));
    assert(dma.ctrl_in(v4) == c3);
    assert(own_parts(v4, eb));
    assert(sec_processed(v, eb) == header_written(v4, eb, dma.frame_ptr_in(v4)));
    lemma_header_written(v4, eb);
    crate::layout::add_len_touches_only_the_length(c0, len);
    crate::layout::add_len_touches_only_the_length(c2, SEC_HDR_ROOM);
    lemma_eof_bits(c0, 0);
    lemma_eof_bits(c1, eb.flags16_in(v));
    lemma_eof_bits(c2, 0);
    lemma_eof_bits(c3, 0);
}

/// A security-header step on a frame whose header has been put in front already moves nothing: only
/// the security header is counted again, and the frame length written anew.
pub proof fn later_sec_steps_do_not_shift(v: MemView, eb: Eb)
    requires
        own_parts(v, eb),
        eb.dma_desc_in(v).frame_ptr_in(v) == eb.0 + EB_FRAME_OFF - SEC_HDR_ROOM,
        eb.flags16_in(v) & Eb::FLAG16_HDR_SHIFTED != 0,
        eb.txinfo_in(v).flags_in(v) & 0x8000_0000 == 0,
        eb.txinfo_in(v).flags_in(v) & 0x0104_0000 == 0,
        eb.payload_len_in(v) + sec_len_of(v, eb.txinfo_in(v).word10_in(v)) < 0x1_0000,
    ensures
        sec_fields(
            v,
            sec_processed(v, eb),
            eb,
            sec_len_of(v, eb.txinfo_in(v).word10_in(v)),
            0,
        ),
{
    broadcast use crate::mem_laws::group_loads;

    let ti = eb.txinfo_in(v);
    let len = sec_len_of(v, ti.word10_in(v));
    let v1 = eb.with_payload_len(v, (eb.payload_len_in(v) + len) as u16);
    let dma = eb.dma_desc_in(v);
    let c0 = dma.ctrl_in(v);
    let c1 = ctrl_plus_len(c0, len);
    let v2 = dma.with_ctrl(v1, c1);
    let c2 = c1 | DmaDesc::CTRL_EOF;
    let v3 = dma.with_ctrl(v2, c2);
    assert(own_parts(v3, eb));
    lemma_header_written(v3, eb);
    crate::layout::add_len_touches_only_the_length(c0, len);
    lemma_eof_bits(c0, 0);
    lemma_eof_bits(c1, 0);
    lemma_eof_bits(c2, 0);
}

/// A frame without a key counts 4 bytes of security header.
pub proof fn no_key_counts_four_bytes(v: MemView, word10: u32)
    requires
        word10 & 0xf00 == 0,
    ensures
        sec_len_of(v, word10) == 4,
{
    lemma_eof_bits(word10, 0);
}

/// An interface is enabled if its bit, counted modulo 32, of the enable mask is set.
pub proof fn interface_bit(mask: u8, iface: u32)
    ensures
        interface_enabled(mask, iface) == ((mask as u32) >> (iface % 32)) % 2,
        interface_enabled(mask, 0) == mask % 2,
        interface_enabled(mask, 1) == (mask / 2) % 2,
{
    crate::bits::low_bits(iface);
    crate::bits::low_bits(0);
    crate::bits::low_bits(1);
    crate::bits::low_bits((mask as u32) >> (iface & 0x1f));
    crate::bits::low_bits((mask as u32) >> 0u32);
    crate::bits::low_bits((mask as u32) >> 1u32);
    lemma_proto_bits(mask as u32);
}

/// A frame is long if its prefix and payload together exceed the threshold at 0x16 of the lmac
/// configuration.
pub proof fn long_frames(v: MemView, mib: u32, eb: Eb)
    ensures
        is_long(v, mib, eb) <==> v.rd16(mib.wrapping_add(0x16)) < v.rd16(eb.0.wrapping_add(0x14))
            + v.rd16(eb.0.wrapping_add(0x16)),
{
}

proof fn lemma_proto_bits(f: u32)
    by (bit_vector)
    ensures
        f >> 0u32 == f,
        f >> 1u32 == f / 2,
        (f | 2) & 2 != 0 && (f | 2) & 0xf7ff_f7f5 == f & 0xf7ff_f7f5,
        (f | 2) & 8 == f & 8 && (f | 2) & 0x800_0000 == f & 0x800_0000 && (f | 2) & 0x800 == f & 0x800,
        (f | 8) & 8 != 0 && (f | 8) & 0xf7ff_f7f5 == f & 0xf7ff_f7f5,
        (f | 8) & 2 == f & 2 && (f | 8) & 0x800_0000 == f & 0x800_0000 && (f | 8) & 0x800 == f & 0x800,
        (f & 0xffff_fff7) & 8 == 0 && (f & 0xffff_fff7) & 0xf7ff_f7f5 == f & 0xf7ff_f7f5,
        (f & 0xffff_fff7) & 2 == f & 2 && (f & 0xffff_fff7) & 0x800_0000 == f & 0x800_0000 && (f
            & 0xffff_fff7) & 0x800 == f & 0x800,
        (f | 0x800_0000) & 0x800_0000 != 0 && (f | 0x800_0000) & 0xf7ff_f7f5 == f & 0xf7ff_f7f5,
        (f | 0x800_0000) & 2 == f & 2 && (f | 0x800_0000) & 8 == f & 8 && (f | 0x800_0000) & 0x800 == f
            & 0x800,
        (f | 0x800) & 0x800 != 0 && (f | 0x800) & 0xf7ff_f7f5 == f & 0xf7ff_f7f5,
        (f | 0x800) & 2 == f & 2 && (f | 0x800) & 8 == f & 8 && (f | 0x800) & 0x800_0000 == f
            & 0x800_0000,
{
}

/// The protocol flags of a frame, from its frame-control byte and the first byte of its receiver, which
/// stand behind the reserved header once that has been put in front. A group receiver sets bit 1. A data
/// frame (type 2) sets bit 3, but a null frame clears it unless WORD30 bit 17 is set. A probe response to
/// one station sets bit 27, and a probe request to one station bit 11. All other flags stay, and so does
/// every byte outside them.
pub proof fn protocol_flags_by_frame(v: MemView, eb: Eb, a: u32)
    requires
        apart(eb.txinfo_in(v).0, 4, frame_start_of(v, eb), 1),
    ensures
        ({
            let p = v.rd32(v.rd32(eb.0.wrapping_add(4)).wrapping_add(4));
            let start = if v.rd16(eb.0.wrapping_add(0x24)) & 0x2000 != 0 {
                p.wrapping_add(8)
            } else {
                p
            };
            let fc = v.rd8(start);
            let group = v.rd8(start.wrapping_add(4)) & 1 != 0;
            let ti = eb.txinfo_in(v).0;
            let f = v.rd32(ti);
            let g = proto_marked(v, eb).rd32(ti);
            let data = fc & 0xc == 8;
            let management = fc & 0xc == 0;
            let null = v.rd32(ti.wrapping_add(0x30)) & 0x2_0000 == 0 && fc & 0x70 == 0x40;
            &&& (g & 2 != 0) == (f & 2 != 0 || group)
            &&& data ==> (g & 8 != 0) == !null
            &&& !data ==> g & 8 == f & 8
            &&& (g & 0x800_0000 != 0) == (f & 0x800_0000 != 0 || (management && g & 2 == 0 && fc & 0xf0
                == 0x50))
            &&& (g & 0x800 != 0) == (f & 0x800 != 0 || (management && g & 2 == 0 && fc & 0xf0 == 0x40))
            &&& g & 0xf7ff_f7f5 == f & 0xf7ff_f7f5
            &&& apart(ti, 4, a, 1) ==> proto_marked(v, eb).rd8(a) == v.rd8(a)
        }),
{
    broadcast use crate::mem_laws::group_loads;

    let ti = eb.txinfo_in(v).0;
    let f = v.rd32(ti);
    assert(ti.wrapping_add(0) == ti);
    lemma_proto_bits(f);
    lemma_proto_bits(f | 2);
    lemma_proto_bits(f | 8);
    lemma_proto_bits((f | 2) | 8);
}

proof fn lemma_ctrl_bits(w: u32, len: u32, w10: u32)
    by (bit_vector)
    ensures
        ({
            let c = ((len & 0x3fff) << 0xe) | (((w | 0x8000_0000 | 0x4000_0000) & 0xdfff_ffff)
                & 0xf000_3fff);
            c & 0x1000_0000 == w & 0x1000_0000
        }),
        (w10 & 0xfff7_ffff) & 0xfff7_ffff == w10 & 0xfff7_ffff,
{
}

/// A raw frame's set-up also stamps it with the system timer, keeps the rest of WORD10 and of the
/// descriptor, sets the flags 1 and 10 for a group receiver and none otherwise, and stores nowhere else.
pub proof fn raw_setup_keeps_the_rest(v: MemView, eb: Eb, seq: u16, a: u32)
    requires
        own_parts(v, eb),
        eb.dma_desc_in(v).frame_ptr_in(v) == eb.0 + EB_FRAME_OFF,
    ensures
        ({
            let w = raw_set_up(v, eb, seq);
            let ti = eb.txinfo_in(v).0;
            let dma = eb.dma_desc_in(v).0;
            let frame = eb.dma_desc_in(v).frame_ptr_in(v);
            let group = v.rd8(frame.wrapping_add(4)) & 1 != 0;
            &&& w.rd32(ti.wrapping_add(0x18)) == v.rd32(0x600a_d000)
            &&& w.rd32(ti.wrapping_add(0x10)) & 0xfff7_ffff == v.rd32(ti.wrapping_add(0x10))
                & 0xfff7_ffff
            &&& group ==> w.rd32(ti) == v.rd32(ti) | 0x402
            &&& !group ==> w.rd32(ti) == v.rd32(ti)
            &&& w.rd32(dma) & 0x1000_0000 == v.rd32(dma) & 0x1000_0000
            &&& ({
                &&& apart(eb.0.wrapping_add(0x14), 2, a, 1)
                &&& apart(eb.0.wrapping_add(0x2c), 4, a, 1)
                &&& apart(dma, 4, a, 1)
                &&& apart(ti, 5, a, 1)
                &&& apart(ti.wrapping_add(0xc), 1, a, 1)
                &&& apart(ti.wrapping_add(0x10), 4, a, 1)
                &&& apart(ti.wrapping_add(0x18), 4, a, 1)
                &&& apart(frame.wrapping_add(0x16), 2, a, 1)
            } ==> w.rd8(a) == v.rd8(a))
        }),
{
    broadcast use crate::mem_laws::group_loads;

    let ti = eb.txinfo_in(v).0;
    assert(ti.wrapping_add(0) == ti);
    lemma_ctrl_bits(
        eb.dma_desc_in(v).ctrl_in(v),
        eb.payload_len_in(v) as u32,
        v.rd32(ti.wrapping_add(0x10)),
    );
}

/// The security header of a key of type 1 to 9 (WORD10 bits 8-11) has the length in the table at
/// 0x4200b100; of any other frame it is 4.
pub proof fn security_header_length(v: MemView, word10: u32)
    ensures
        ({
            let key = (word10 / 0x100) % 0x10;
            &&& 1 <= key <= 9 ==> sec_len_of(v, word10) == v.rd8((0x4200_b100 + key - 1) as u32)
            &&& !(1 <= key <= 9) ==> sec_len_of(v, word10) == 4
        }),
{
    let key = (word10 >> 8) & 0xf;
    crate::bits::high_bits(word10);
    crate::bits::low_bits(word10 >> 8);
    crate::bits::low_bits(key.wrapping_sub(1));
}

/// The security-header step of an HE frame (flag bit 31) or an encrypted aggregate (bits 18 and 24) only
/// counts the security header, in payload and descriptor length, and stores nowhere else.
pub proof fn he_frames_only_count_the_header(v: MemView, eb: Eb, a: u32)
    requires
        own_parts(v, eb),
        eb.txinfo_in(v).flags_in(v) & 0x8000_0000 != 0 || eb.txinfo_in(v).flags_in(v) & 0x0104_0000
            != 0,
        eb.payload_len_in(v) + sec_len_of(v, eb.txinfo_in(v).word10_in(v)) < 0x1_0000,
    ensures
        ({
            let w = sec_processed(v, eb);
            let len = sec_len_of(v, eb.txinfo_in(v).word10_in(v));
            let dma = eb.dma_desc_in(v);
            &&& eb.payload_len_in(w) == eb.payload_len_in(v) + len
            &&& (dma.ctrl_in(w) >> 14) & 0x3fff == (((dma.ctrl_in(v) >> 14) & 0x3fff) + len) % 0x4000
            &&& dma.ctrl_in(w) & 0xf000_3fff == dma.ctrl_in(v) & 0xf000_3fff
            &&& apart(eb.0.wrapping_add(0x16), 2, a, 1) && apart(dma.0, 4, a, 1) ==> w.rd8(a) == v.rd8(
                a,
            )
        }),
{
    broadcast use crate::mem_laws::group_loads;

    let len = sec_len_of(v, eb.txinfo_in(v).word10_in(v));
    crate::layout::add_len_touches_only_the_length(eb.dma_desc_in(v).ctrl_in(v), len);
}

/// Apart from the lengths, the header mark, the descriptor and the eight bytes of the reserved header,
/// the security-header step stores nowhere.
pub proof fn sec_step_stores_nowhere_else(v: MemView, eb: Eb, a: u32)
    requires
        own_parts(v, eb),
        eb.dma_desc_in(v).frame_ptr_in(v) == eb.0 + EB_FRAME_OFF,
        eb.flags16_in(v) & Eb::FLAG16_HDR_SHIFTED == 0,
        apart(eb.0.wrapping_add(0x14), 4, a, 1),
        apart(eb.0.wrapping_add(0x24), 2, a, 1),
        apart(eb.dma_desc_in(v).0, 8, a, 1),
        apart(eb.0.wrapping_add(0xb0), 8, a, 1),
    ensures
        sec_processed(v, eb).rd8(a) == v.rd8(a),
{
    broadcast use crate::mem_laws::group_loads;

    let ti = eb.txinfo_in(v);
    let len = sec_len_of(v, ti.word10_in(v));
    let v1 = eb.with_payload_len(v, (eb.payload_len_in(v) + len) as u16);
    let dma = eb.dma_desc_in(v);
    let v2 = dma.with_ctrl(v1, ctrl_plus_len(dma.ctrl_in(v1), len));
    let v3 = dma.with_ctrl(v2, dma.ctrl_in(v2) | DmaDesc::CTRL_EOF);
    let v4 = header_shifted(v3, eb);
    assert(eb.dma_desc_in(v3) == dma && eb.sec_desc_in(v1) == dma);
    assert(dma.frame_ptr_in(v4) == eb.0 + EB_FRAME_OFF - SEC_HDR_ROOM);
    assert(v4.rd8(a) == v.rd8(a));
    let z = Seq::new(SEC_HDR_ROOM as nat, |i: int| 0u8);
    rd8_after_st_bytes(v4, dma.frame_ptr_in(v4), z, a);
}

proof fn lemma_kept_bits(w: u32, f: u16)
    by (bit_vector)
    ensures
        (w | 0x4000_0000) & 0xb000_0000 == w & 0xb000_0000,
        (w & 0xf000_3fff) & 0xb000_0000 == w & 0xb000_0000,
        (f | 0x2000) & 0xdfff == f & 0xdfff,
{
}

/// The security-header step keeps every other flag of the eb, and the owner and link bits (28, 29 and 31)
/// of the descriptor; the frame's own bytes, its txinfo, and all that is not the frame's stay as they
/// were, whether the reserved header is put in front now or was before.
pub proof fn sec_step_keeps_the_rest(v: MemView, eb: Eb, a: u32)
    requires
        own_parts(v, eb),
        eb.txinfo_in(v).flags_in(v) & 0x8000_0000 == 0,
        eb.txinfo_in(v).flags_in(v) & 0x0104_0000 == 0,
        (eb.flags16_in(v) & 0x2000 == 0) == (eb.dma_desc_in(v).frame_ptr_in(v) == eb.0 + 0xb8),
    ensures
        ({
            let w = sec_processed(v, eb);
            let dma = eb.dma_desc_in(v);
            &&& eb.flags16_in(w) & 0xdfff == eb.flags16_in(v) & 0xdfff
            &&& dma.ctrl_in(w) & 0xb000_0000 == dma.ctrl_in(v) & 0xb000_0000
            &&& apart(eb.0, 0x48, a, 1) && apart(eb.0.wrapping_add(0xb0), 8, a, 1) ==> w.rd8(a)
                == v.rd8(a)
        }),
{
    broadcast use crate::mem_laws::group_loads;

    let ti = eb.txinfo_in(v);
    let len = sec_len_of(v, ti.word10_in(v));
    let v1 = eb.with_payload_len(v, (eb.payload_len_in(v) + len) as u16);
    let dma = eb.dma_desc_in(v);
    let c0 = dma.ctrl_in(v);
    let c1 = ctrl_plus_len(c0, len);
    let v2 = dma.with_ctrl(v1, c1);
    let c2 = c1 | DmaDesc::CTRL_EOF;
    let v3 = dma.with_ctrl(v2, c2);
    assert(own_parts(v3, eb));
    assert(eb.flags16_in(v3) == eb.flags16_in(v));
    assert(v3.rd8(a) == v.rd8(a) || !apart(eb.0, 0x48, a, 1));
    crate::layout::add_len_touches_only_the_length(c0, len);
    crate::layout::add_len_touches_only_the_length(c2, SEC_HDR_ROOM);
    lemma_kept_bits(c0, eb.flags16_in(v));
    lemma_kept_bits(c1, 0);
    lemma_kept_bits(c2, 0);
    lemma_kept_bits(ctrl_plus_len(c2, SEC_HDR_ROOM), 0);
    let z = Seq::new(SEC_HDR_ROOM as nat, |i: int| 0u8);
    if eb.flags16_in(v3) & Eb::FLAG16_HDR_SHIFTED == 0 {
        let v4 = header_shifted(v3, eb);
        assert(own_parts(v4, eb));
        assert(dma.ctrl_in(v4) == ctrl_plus_len(c2, SEC_HDR_ROOM));
        assert(eb.flags16_in(v4) == eb.flags16_in(v) | 0x2000);
        assert(v4.rd8(a) == v3.rd8(a) || !apart(eb.0, 0x48, a, 1));
        lemma_header_written(v4, eb);
        rd8_after_st_bytes(v4, dma.frame_ptr_in(v4), z, a);
    } else {
        lemma_header_written(v3, eb);
        rd8_after_st_bytes(v3, dma.frame_ptr_in(v3), z, a);
    }
}

} // verus!
