//! The transmit registers of the Wi-Fi MAC.
//!
//! Per-slot registers live in two blocks, and the queue index maps to slots in reverse (queue 0 is
//! the highest slot), so the register of slot `s` is at `base - s * stride`: `CONF_STRIDE` in the
//! per-slot config block at 0x600a4d6x, `SLOT_STRIDE` in the completion/TXOP block at 0x600a54xx.
use crate::mmio::apart;
use vstd::prelude::*;

verus! {

/// Stride between adjacent slots in the config block.
pub const CONF_STRIDE: u32 = 0x10;

/// Stride between adjacent slots in the completion/TXOP block.
pub const SLOT_STRIDE: u32 = 0x74;

/// Number of TX slots in each block.
pub const SLOTS: u32 = 8;

/// Config block: dma/length/format word and the arm bits.
pub const PLCP0_ENABLE: u32 = 0x600a_4d6c;

/// Config block: RTS/TXOP protection enable and TXOP valid (bit 31).
pub const CONF0: u32 = 0x600a_4d60;

/// Config block: EDCA AIFSN, backoff and timeout; PTI in the top nibble.
pub const CONF1: u32 = 0x600a_4d68;

/// Config block: the word after CONF0; bit 3 marks a valid HE-TB MPDU length.
pub const CONF1_REAL: u32 = 0x600a_4d64;

/// Completion block: response rate/duration and TXOP depth/count.
pub const RESP_DUR: u32 = 0x600a_54bc;

/// Completion block: OFDM/HT TX length.
pub const TXLEN: u32 = 0x600a_54b8;

/// Completion block: rate, key slot, HT/HE mode, legacy length, LDPC.
pub const PLCP1: u32 = 0x600a_5488;

/// Completion block: PLCP rate/duration word.
pub const PLCP_RATE_DUR: u32 = 0x600a_54ac;

/// Completion block: RTS/TXOP duration threshold.
pub const PROT_THRESH: u32 = 0x600a_548c;

/// Completion block: packet traffic indication for BT coexistence.
pub const PTI: u32 = 0x600a_5490;

/// Completion block: PMD, the completion result.
pub const PMD: u32 = 0x600a_54e8;

/// Completion block: block-ack bitmap word 0 (word 1 at +4, header at +8).
pub const BA_BITMAP: u32 = 0x600a_54d4;

/// Completion block: completion aux (HE-TB and block-ack info).
pub const AUX_54E0: u32 = 0x600a_54e0;

/// Completion block: completion aux (bit 20: the last transmission was trigger based).
pub const AUX_54D0: u32 = 0x600a_54d0;

/// Completion block: completion aux (sub-status, trigger-based send count).
pub const AUX_54EC: u32 = 0x600a_54ec;

/// Completion block: completion aux.
pub const AUX_54F4: u32 = 0x600a_54f4;

/// TX state of queues 0 and 1.
pub const STATE_A: u32 = 0x600a_4cb0;

/// TX state of queue 2.
pub const STATE_B: u32 = 0x600a_4cb8;

/// Clear register of `STATE_A`.
pub const CLR_STATE_A: u32 = 0x600a_4cac;

/// Clear register of `STATE_B`.
pub const CLR_STATE_B: u32 = 0x600a_4cb4;

/// Minimum TX power (bits 4-9).
pub const TX_MIN_PWR: u32 = 0x600a_4400;

/// The TX interlock: 0x00ff1000 blocks every armed frame, 0 lets it launch.
pub const PM_TXBLOCK_RETENTION: u32 = 0x600a_4ca8;

/// Free-running system timer.
pub const SYS_TIMER: u32 = 0x600a_d000;

/// The antenna reset walks the RESP_DUR registers down to this address, exclusive.
pub const RESP_DUR_BLOCK_END: u32 = 0x600a_511c;

/// Global antenna/PHY select register.
pub const ATTENNA_GLOBAL: u32 = 0x600a_42cc;

/// TX gain memory word 0.
pub const GAIN_MEM_C8: u32 = 0x600a_08c8;

/// TX gain memory word 1.
pub const GAIN_MEM_CC: u32 = 0x600a_08cc;

/// TX gain memory word 2.
pub const GAIN_MEM_D0: u32 = 0x600a_08d0;

/// TX gain memory word 3.
pub const GAIN_MEM_D4: u32 = 0x600a_08d4;

/// Front-end configuration.
pub const FE_0910: u32 = 0x600a_0910;

/// Front-end configuration.
pub const FE_00C0: u32 = 0x600a_00c0;

/// Baseband configuration.
pub const BB_7030: u32 = 0x600a_7030;

/// PLCP0_ENABLE bit 31.
pub const SLOT_VALID: u32 = 0x8000_0000;

/// PLCP0_ENABLE bit 30.
pub const SLOT_ENABLED: u32 = 0x4000_0000;

/// Both arm bits, `SLOT_VALID | SLOT_ENABLED`.
pub const SLOT_ARM: u32 = 0xc000_0000;

/// Everything but the arm bits, `!SLOT_ARM`.
pub const SLOT_ARM_CLEAR: u32 = 0x3fff_ffff;

/// CONF0 protection enable / TXOP valid.
pub const CONF0_BIT31: u32 = 0x8000_0000;

/// PLCP0_ENABLE TXOP bit 22.
pub const PLCP0_TXOP: u32 = 0x0040_0000;

/// PM_TXBLOCK_RETENTION: the per-queue TX-block byte (bits 16-23) and bit 12, set when the modem
/// goes to sleep and cleared when it wakes.
pub const PM_TXBLOCK_BITS: u32 = 0x00ff_1000;

/// The address of `base` of the config block for `slot`.
pub open spec fn conf_addr(base: u32, slot: u32) -> u32 {
    base.wrapping_sub(slot.wrapping_mul(CONF_STRIDE))
}

/// The address of `base` of the completion/TXOP block for `slot`.
pub open spec fn slot_addr(base: u32, slot: u32) -> u32 {
    base.wrapping_sub(slot.wrapping_mul(SLOT_STRIDE))
}

fn conf(base: u32, slot: u32) -> (r: u32)
    ensures
        r == conf_addr(base, slot),
{
    base.wrapping_sub(slot.wrapping_mul(CONF_STRIDE))
}

pub(crate) fn perslot(base: u32, slot: u32) -> (r: u32)
    ensures
        r == slot_addr(base, slot),
{
    base.wrapping_sub(slot.wrapping_mul(SLOT_STRIDE))
}

/// Address of the slot's PLCP0_ENABLE register.
pub fn plcp0_enable(slot: u32) -> (r: u32)
    ensures
        r == conf_addr(PLCP0_ENABLE, slot),
{
    conf(PLCP0_ENABLE, slot)
}

/// Address of the slot's CONF0 register.
pub fn conf0(slot: u32) -> (r: u32)
    ensures
        r == conf_addr(CONF0, slot),
{
    conf(CONF0, slot)
}

/// Address of the slot's CONF1 register.
pub fn conf1(slot: u32) -> (r: u32)
    ensures
        r == conf_addr(CONF1, slot),
{
    conf(CONF1, slot)
}

/// Address of the slot's CONF1_REAL register.
pub fn conf1_real(slot: u32) -> (r: u32)
    ensures
        r == conf_addr(CONF1_REAL, slot),
{
    conf(CONF1_REAL, slot)
}

/// Address of the slot's RESP_DUR register.
pub fn resp_dur(slot: u32) -> (r: u32)
    ensures
        r == slot_addr(RESP_DUR, slot),
{
    perslot(RESP_DUR, slot)
}

/// Address of the slot's TXLEN register.
pub fn txlen(slot: u32) -> (r: u32)
    ensures
        r == slot_addr(TXLEN, slot),
{
    perslot(TXLEN, slot)
}

/// Address of the slot's PLCP1 register.
pub fn plcp1(slot: u32) -> (r: u32)
    ensures
        r == slot_addr(PLCP1, slot),
{
    perslot(PLCP1, slot)
}

/// Address of the slot's PLCP_RATE_DUR register.
pub fn plcp_rate_dur(slot: u32) -> (r: u32)
    ensures
        r == slot_addr(PLCP_RATE_DUR, slot),
{
    perslot(PLCP_RATE_DUR, slot)
}

/// Address of the slot's PROT_THRESH register.
pub fn prot_thresh(slot: u32) -> (r: u32)
    ensures
        r == slot_addr(PROT_THRESH, slot),
{
    perslot(PROT_THRESH, slot)
}

/// Address of the slot's PTI register.
pub fn pti(slot: u32) -> (r: u32)
    ensures
        r == slot_addr(PTI, slot),
{
    perslot(PTI, slot)
}

/// Address of the slot's PMD register.
pub fn pmd(slot: u32) -> (r: u32)
    ensures
        r == slot_addr(PMD, slot),
{
    perslot(PMD, slot)
}

/// The registers of the config block.
pub open spec fn in_conf_block(base: u32) -> bool {
    base == PLCP0_ENABLE || base == CONF0 || base == CONF1 || base == CONF1_REAL
}

/// The registers of the completion/TXOP block.
pub open spec fn in_slot_block(base: u32) -> bool {
    ||| base == RESP_DUR
    ||| base == TXLEN
    ||| base == PLCP1
    ||| base == PLCP_RATE_DUR
    ||| base == PROT_THRESH
    ||| base == PTI
    ||| base == PMD
    ||| base == BA_BITMAP
    ||| base == BA_BITMAP + 4
    ||| base == BA_BITMAP + 8
    ||| base == AUX_54E0
    ||| base == AUX_54D0
    ||| base == AUX_54EC
    ||| base == AUX_54F4
}

/// The registers that are not per slot.
pub open spec fn is_global(a: u32) -> bool {
    ||| a == STATE_A
    ||| a == STATE_B
    ||| a == CLR_STATE_A
    ||| a == CLR_STATE_B
    ||| a == TX_MIN_PWR
    ||| a == PM_TXBLOCK_RETENTION
    ||| a == SYS_TIMER
    ||| a == ATTENNA_GLOBAL
}

/// The register map: the config block steps down by 0x10 and the completion/TXOP block by 0x74 for
/// each slot, from these addresses.
pub proof fn register_map(slot: u32)
    requires
        slot < 0x10,
    ensures
        conf_addr(PLCP0_ENABLE, slot) == 0x600a_4d6c - 0x10 * slot,
        conf_addr(CONF0, slot) == 0x600a_4d60 - 0x10 * slot,
        conf_addr(CONF1, slot) == 0x600a_4d68 - 0x10 * slot,
        conf_addr(CONF1_REAL, slot) == 0x600a_4d64 - 0x10 * slot,
        slot_addr(RESP_DUR, slot) == 0x600a_54bc - 0x74 * slot,
        slot_addr(TXLEN, slot) == 0x600a_54b8 - 0x74 * slot,
        slot_addr(PLCP1, slot) == 0x600a_5488 - 0x74 * slot,
        slot_addr(PLCP_RATE_DUR, slot) == 0x600a_54ac - 0x74 * slot,
        slot_addr(PROT_THRESH, slot) == 0x600a_548c - 0x74 * slot,
        slot_addr(PTI, slot) == 0x600a_5490 - 0x74 * slot,
        slot_addr(PMD, slot) == 0x600a_54e8 - 0x74 * slot,
        slot_addr(BA_BITMAP, slot) == 0x600a_54d4 - 0x74 * slot,
        slot_addr(AUX_54E0, slot) == 0x600a_54e0 - 0x74 * slot,
        slot_addr(AUX_54D0, slot) == 0x600a_54d0 - 0x74 * slot,
        slot_addr(AUX_54EC, slot) == 0x600a_54ec - 0x74 * slot,
        slot_addr(AUX_54F4, slot) == 0x600a_54f4 - 0x74 * slot,
        STATE_A == 0x600a_4cb0,
        STATE_B == 0x600a_4cb8,
        CLR_STATE_A == 0x600a_4cac,
        CLR_STATE_B == 0x600a_4cb4,
        TX_MIN_PWR == 0x600a_4400,
        PM_TXBLOCK_RETENTION == 0x600a_4ca8,
        SYS_TIMER == 0x600a_d000,
        ATTENNA_GLOBAL == 0x600a_42cc,
        GAIN_MEM_C8 == 0x600a_08c8,
        GAIN_MEM_CC == 0x600a_08cc,
        GAIN_MEM_D0 == 0x600a_08d0,
        GAIN_MEM_D4 == 0x600a_08d4,
        FE_0910 == 0x600a_0910,
        FE_00C0 == 0x600a_00c0,
        BB_7030 == 0x600a_7030,
        SLOT_ARM == 0xc000_0000,
        SLOT_ARM_CLEAR == 0x3fff_ffff,
        CONF0_BIT31 == 0x8000_0000,
        PLCP0_TXOP == 0x40_0000,
        PM_TXBLOCK_BITS == 0xff_1000,
        SLOTS == 8,
{
}

/// Slots count downwards: the register of the next slot is one stride below.
pub proof fn slots_count_down(base: u32, slot: u32)
    requires
        in_conf_block(base) || in_slot_block(base),
        slot + 1 < SLOTS,
    ensures
        conf_addr(base, (slot + 1) as u32) == conf_addr(base, slot) - CONF_STRIDE,
        slot_addr(base, (slot + 1) as u32) == slot_addr(base, slot) - SLOT_STRIDE,
        conf_addr(base, 0) == base,
        slot_addr(base, 0) == base,
{
}

/// No two registers of the config block share a byte, whatever their slots.
pub proof fn conf_registers_apart(b: u32, s: u32, c: u32, t: u32)
    requires
        in_conf_block(b),
        in_conf_block(c),
        s < SLOTS,
        t < SLOTS,
        b != c || s != t,
    ensures
        apart(conf_addr(b, s), 4, conf_addr(c, t), 4),
{
}

/// No two registers of the completion/TXOP block share a byte, whatever their slots.
pub proof fn slot_registers_apart(b: u32, s: u32, c: u32, t: u32)
    requires
        in_slot_block(b),
        in_slot_block(c),
        s < SLOTS,
        t < SLOTS,
        b != c || s != t,
    ensures
        apart(slot_addr(b, s), 4, slot_addr(c, t), 4),
{
    assert(slot_addr(b, s) == b - 0x74 * s && slot_addr(c, t) == c - 0x74 * t);
    assert(0x600a_5488 <= b <= 0x600a_54f4 && 0x600a_5488 <= c <= 0x600a_54f4);
    assert(b != c ==> b - c >= 4 || c - b >= 4);
    assert(s < t ==> 0x74 * t - 0x74 * s >= 0x74);
    assert(t < s ==> 0x74 * s - 0x74 * t >= 0x74);
}

/// The two blocks and the global registers share no byte.
pub proof fn register_blocks_apart(b: u32, s: u32, c: u32, t: u32, g: u32)
    requires
        in_conf_block(b),
        in_slot_block(c),
        is_global(g),
        s < SLOTS,
        t < SLOTS,
    ensures
        apart(conf_addr(b, s), 4, slot_addr(c, t), 4),
        apart(conf_addr(b, s), 4, g, 4),
        apart(slot_addr(c, t), 4, g, 4),
{
}

} // verus!
