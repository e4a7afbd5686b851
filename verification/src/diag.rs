//! Out-of-band diagnostics; never on the hot TX path.
use crate::mac_reg;
use crate::mac_reg::{
    conf_addr, BB_7030, CONF1, FE_00C0, FE_0910, GAIN_MEM_C8, GAIN_MEM_CC, GAIN_MEM_D0,
    GAIN_MEM_D4, PLCP0_ENABLE, TX_MIN_PWR,
};
use crate::mmio::{rd, wr, Mem, MemView};
use vstd::prelude::*;

verus! {

/// The value that a probe writes.
pub const PROBE_VALUE: u32 = 0xabc;

/// A probe of one slot's configuration bank.
#[derive(Clone, Copy, Debug, PartialEq, Eq, Structural)]
pub struct Probe {
    pub slot: u32,
    /// PLCP0_ENABLE as found.
    pub plcp0: u32,
    /// CONF1 as found.
    pub edca: u32,
}

/// The address space after a probe has begun: CONF1 is only written to if it holds nothing, because
/// what it holds otherwise is the scheduler's.
pub open spec fn probe_begun(v: MemView, slot: u32) -> MemView {
    let e = conf_addr(CONF1, slot);
    if v.rd32(e) == 0 {
        v.st32(e, PROBE_VALUE)
    } else {
        v
    }
}

/// Begins to probe a slot. The store, if one was made, is to be performed before the verdict.
pub fn probe(m: &mut Mem, slot: u32) -> (r: Probe)
    ensures
        final(m)@ == probe_begun(old(m)@, slot),
        r == (Probe {
            slot,
            plcp0: old(m)@.rd32(conf_addr(PLCP0_ENABLE, slot)),
            edca: old(m)@.rd32(conf_addr(CONF1, slot)),
        }),
{
    let plcp0 = rd(m, mac_reg::plcp0_enable(slot));
    let e = mac_reg::conf1(slot);
    let edca = rd(m, e);
    if edca == 0 {
        wr(m, e, PROBE_VALUE);
    }
    Probe { slot, plcp0, edca }
}

/// The address space after the verdict on a probe: what the probe wrote is cleared again.
pub open spec fn probe_ended(v: MemView, p: Probe) -> MemView {
    if p.edca == 0 {
        v.st32(conf_addr(CONF1, p.slot), 0)
    } else {
        v
    }
}

/// Whether the probed slot is writable: the value written reads back, or the scheduler uses it.
pub fn probe_verdict(m: &mut Mem, p: Probe) -> (r: bool)
    ensures
        final(m)@ == probe_ended(old(m)@, p),
        r == (p.edca != 0 || old(m)@.rd32(conf_addr(CONF1, p.slot)) == PROBE_VALUE),
{
    if p.edca != 0 {
        return true;
    }
    let e = mac_reg::conf1(p.slot);
    let ok = rd(m, e) == PROBE_VALUE;
    wr(m, e, 0);
    ok
}

/// The PHY TX-power and gain registers.
#[derive(Clone, Copy, Debug, PartialEq, Eq, Structural)]
pub struct PwrDump {
    pub min_pwr: u32,
    pub gain_c8: u32,
    pub gain_cc: u32,
    pub gain_d0: u32,
    pub gain_d4: u32,
    pub fe_0910: u32,
    pub fe_00c0: u32,
    pub bb_7030: u32,
}

/// Reads the PHY TX-power and gain registers.
pub fn pwr_dump(m: &Mem) -> (r: PwrDump)
    ensures
        r == (PwrDump {
            min_pwr: m@.rd32(TX_MIN_PWR),
            gain_c8: m@.rd32(GAIN_MEM_C8),
            gain_cc: m@.rd32(GAIN_MEM_CC),
            gain_d0: m@.rd32(GAIN_MEM_D0),
            gain_d4: m@.rd32(GAIN_MEM_D4),
            fe_0910: m@.rd32(FE_0910),
            fe_00c0: m@.rd32(FE_00C0),
            bb_7030: m@.rd32(BB_7030),
        }),
{
    PwrDump {
        min_pwr: rd(m, TX_MIN_PWR),
        gain_c8: rd(m, GAIN_MEM_C8),
        gain_cc: rd(m, GAIN_MEM_CC),
        gain_d0: rd(m, GAIN_MEM_D0),
        gain_d4: rd(m, GAIN_MEM_D4),
        fe_0910: rd(m, FE_0910),
        fe_00c0: rd(m, FE_00C0),
        bb_7030: rd(m, BB_7030),
    }
}

/// On a writable slot a probe is undone: the configuration reads as before, and so does every word
/// that it does not overlap.
pub proof fn probe_leaves_the_slot_as_found(v: MemView, slot: u32, a: u32)
    requires
        a == conf_addr(CONF1, slot) || crate::mmio::apart(conf_addr(CONF1, slot), 4, a, 4),
    ensures
        ({
            let p = Probe {
                slot,
                plcp0: v.rd32(conf_addr(PLCP0_ENABLE, slot)),
                edca: v.rd32(conf_addr(CONF1, slot)),
            };
            probe_ended(probe_begun(v, slot), p).rd32(a) == v.rd32(a)
        }),
{
    broadcast use crate::mem_laws::group_loads;

}

/// A probe writes 0xabc to a slot's CONF1 if that holds nothing, and clears it again; otherwise it stores
/// nothing. No other byte changes.
pub proof fn probe_writes_only_what_it_clears(v: MemView, p: Probe, a: u32)
    requires
        p.slot < 8,
    ensures
        ({
            let e = (0x600a_4d68 - 0x10 * p.slot) as u32;
            let b = probe_begun(v, p.slot);
            let c = probe_ended(v, p);
            &&& v.rd32(e) == 0 ==> b.rd32(e) == 0xabc && b.log.len() == v.log.len() + 1
            &&& v.rd32(e) != 0 ==> b == v
            &&& p.edca == 0 ==> c.rd32(e) == 0 && c.log.len() == v.log.len() + 1
            &&& p.edca != 0 ==> c == v
            &&& crate::mmio::apart(e, 4, a, 1) ==> b.rd8(a) == v.rd8(a) && c.rd8(a) == v.rd8(a)
            &&& PROBE_VALUE == 0xabc
        }),
{
    broadcast use {crate::mem_laws::group_loads, crate::mem_laws::group_log};

    crate::mac_reg::register_map(p.slot);
}

} // verus!
