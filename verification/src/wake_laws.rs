//! What holds of the modem wake as a whole.
use crate::config::{EXP_NO_CLOCK, EXP_NO_PHY, EXP_NO_STORE, EXP_ROM_PHY};
use crate::mac_reg::{PM_TXBLOCK_BITS, PM_TXBLOCK_RETENTION};
use crate::mmio::{apart, MemView};
use crate::pm_wake::{
    callback_offset, disconnected_wake_begun, marked_awake, phy_begun, phy_marked, phy_resumed,
    snapshot_of, tx_unblocked, wake_begun, wake_counted, wake_resumed, PhyEnable, PmCells, PmStats, Wake, DISC_ASLEEP, DISC_AWAKE, G_IC_PTR,
    IC_RF_PHY_MASK, PM_CONNECTED, PM_DISC, PM_IFACE, PM_STATE,
};
use vstd::prelude::*;

verus! {

proof fn lemma_unblock_bits(w: u32)
    by (bit_vector)
    ensures
        ({
            let all = !((0xffff_ffffu32 & 0x00ff_0000) | 0x1000);
            let some = !((0xfff1_ffffu32 & 0x00ff_0000) | 0x1000);
            &&& (w & all) & 0x00ff_1000 == 0
            &&& (w & all) & 0xff00_efff == w & 0xff00_efff
            &&& (w & all) & 0x00f1_1000 == 0
            &&& (w & some) & 0x00f1_1000 == 0
            &&& (w & some) & 0xff0e_efff == w & 0xff0e_efff
        }),
{
}

/// While disconnected, the unblocking store clears every TX-block bit; while connected with power
/// save it spares those of queues 1 to 3. Either way it keeps all other bits.
pub proof fn unblock_clears_the_block_bits(v: MemView, cells: PmCells)
    ensures
        ({
            let w = tx_unblocked(v, cells).rd32(PM_TXBLOCK_RETENTION);
            let w0 = v.rd32(PM_TXBLOCK_RETENTION);
            let spared = if cells.retention_mask_in(v) == 0xffff_ffff {
                0xff00_efffu32
            } else {
                0xff0e_efff
            };
            &&& cells.u8_in(v, PM_CONNECTED) == 0 ==> w & PM_TXBLOCK_BITS == 0
            &&& w & 0x00f1_1000 == 0
            &&& w & spared == w0 & spared
        }),
{
    broadcast use crate::mem_laws::group_loads;

    let w0 = v.rd32(PM_TXBLOCK_RETENTION);
    lemma_unblock_bits(w0);
}

/// A state that the wake does not handle (TWT, mesh, connected) is counted as odd and left alone: no
/// store, no outside call.
pub proof fn unhandled_states_are_left_alone(
    v: MemView,
    s: PmStats,
    cells: PmCells,
    exp: u8,
    iface: u32,
)
    requires
        (iface == 0 && cells.twt_in(v)) || cells.mesh_in(v) || (cells.u8_in(v, PM_IFACE) == iface
            && cells.u8_in(v, PM_CONNECTED) != 0),
    ensures
        ({
            let t = wake_begun(v, s, cells, exp, iface);
            &&& t.0 == v
            &&& t.1 == s.plus_odd() || t.1 == s.plus_odd().plus_odd()
            &&& t.2 == Wake::Done
        }),
{
}

/// A frame of an interface that the power management does not belong to wakes nothing and counts
/// nothing.
pub proof fn other_interface_wakes_nothing(
    v: MemView,
    s: PmStats,
    cells: PmCells,
    exp: u8,
    iface: u32,
)
    requires
        !(iface == 0 && cells.twt_in(v)),
        !cells.mesh_in(v),
        cells.u8_in(v, PM_IFACE) != iface,
    ensures
        wake_begun(v, s, cells, exp, iface) == (v, s, Wake::Done),
{
}

/// An awake modem is not woken again: no store, no outside call, no count.
pub proof fn awake_modem_is_not_woken(v: MemView, s: PmStats, cells: PmCells, exp: u8)
    requires
        cells.u8_in(v, PM_DISC) != DISC_ASLEEP || cells.mesh_in(v),
    ensures
        disconnected_wake_begun(v, s, cells, exp) == (v, s, Wake::Done),
{
}

/// The start of a wake stores nothing, and neither does any step of it before the clocks and the
/// PHY are on: what is stored to a sleeping MAC is lost.
pub proof fn nothing_is_stored_before_the_clocks(
    v: MemView,
    s: PmStats,
    cells: PmCells,
    exp: u8,
    iface: u32,
    p: PhyEnable,
    reply: u64,
)
    requires
        p is SleepLock || p is Clock,
    ensures
        wake_begun(v, s, cells, exp, iface).0 == v,
        phy_resumed(v, s, cells, exp, p, reply).0 == v,
        wake_resumed(v, s, cells, exp, Wake::Phy(p), reply).0 == v,
        wake_resumed(v, s, cells, exp, Wake::CoexStatus, reply).0 == v,
{
}

/// The PHY user mask lies apart from the PM block, and both lie below the registers.
pub open spec fn cells_apart(v: MemView, cells: PmCells) -> bool {
    let maskp = v.rd32(G_IC_PTR).wrapping_add(IC_RF_PHY_MASK);
    &&& 0 < cells.g_pm < 0x5000_0000
    &&& maskp < 0x5000_0000
    &&& apart(maskp, 1, cells.g_pm, 0x500)
}

/// A wake of a sleeping modem in production: sleep lock, clocks, chip question and PHY come in that
/// order with nothing stored in between; then the TX block is cleared, the PHY user entered, and the
/// modem marked awake, and every block bit reads as clear.
pub proof fn wake_runs_in_order(
    v: MemView,
    s: PmStats,
    cells: PmCells,
    r1: u64,
    r2: u64,
    r3: u64,
    r4: u64,
)
    requires
        cells.asleep_in(v),
        cells.u8_in(v, PM_CONNECTED) == 0,
        v.rd8(v.rd32(G_IC_PTR).wrapping_add(IC_RF_PHY_MASK)) == 0,
        cells_apart(v, cells),
        r3 != 0,
    ensures
        ({
            let maskp = v.rd32(G_IC_PTR).wrapping_add(IC_RF_PHY_MASK);
            let mode = 0u32;
            let t0 = disconnected_wake_begun(v, s, cells, 0);
            let t1 = wake_resumed(t0.0, t0.1, cells, 0, t0.2, r1);
            let t2 = wake_resumed(t1.0, t1.1, cells, 0, t1.2, r2);
            let t3 = wake_resumed(t2.0, t2.1, cells, 0, t2.2, r3);
            let t4 = wake_resumed(t3.0, t3.1, cells, 0, t3.2, r4);
            &&& t0.2 == Wake::Phy(PhyEnable::SleepLock { maskp, mode })
            &&& t1.2 == Wake::Phy(PhyEnable::Clock { maskp, mode })
            &&& t2.2 == Wake::Phy(PhyEnable::IsChip { maskp, mode })
            &&& t3.2 == Wake::Phy(PhyEnable::Phy { maskp, mode })
            &&& t4.2 == Wake::Done
            &&& t0.0 == v && t1.0 == v && t2.0 == v && t3.0 == v
            &&& t4.0 == marked_awake(phy_marked(tx_unblocked(v, cells), maskp, mode), cells)
            &&& t4.0.rd32(PM_TXBLOCK_RETENTION) & PM_TXBLOCK_BITS == 0
            &&& cells.u8_in(t4.0, PM_DISC) == DISC_AWAKE
            &&& cells.u8_in(t4.0, PM_STATE) == 0
            &&& t4.0.rd8(maskp) != 0
            &&& t4.1.wakes == s.wakes.wrapping_add(1)
        }),
{
    broadcast use crate::mem_laws::group_loads;

    assert(0u8 & EXP_ROM_PHY == 0 && 0u8 & EXP_NO_CLOCK == 0 && 0u8 & EXP_NO_PHY == 0 && 0u8
        & EXP_NO_STORE == 0 && (forall|w: u8| #[trigger] (w | (1u8 << (0u32 & 7))) != 0))
        by (bit_vector);
    unblock_clears_the_block_bits(v, cells);
}

/// Once woken, the modem stays awake for the driver: the next frame finds it awake and wakes nothing.
pub proof fn woken_modem_is_not_woken_again(v: MemView, s: PmStats, cells: PmCells, exp: u8)
    requires
        0 < cells.g_pm < 0x5000_0000,
    ensures
        disconnected_wake_begun(marked_awake(v, cells), s, cells, exp) == (
            marked_awake(v, cells),
            s,
            Wake::Done,
        ),
{
    broadcast use crate::mem_laws::group_loads;

}

/// The number of outside calls that a PHY enable can still take.
pub open spec fn phy_steps(p: PhyEnable) -> nat {
    match p {
        PhyEnable::Done => 0,
        PhyEnable::Readback { maskp, mode } => 1,
        PhyEnable::Phy { maskp, mode } => 2,
        PhyEnable::IsChip { maskp, mode } => 3,
        PhyEnable::Clock { maskp, mode } => 4,
        PhyEnable::SleepLock { maskp, mode } => 5,
    }
}

/// The number of outside calls that a wake can still take.
pub open spec fn wake_steps(w: Wake) -> nat {
    match w {
        Wake::Done => 0,
        Wake::Phy(p) => phy_steps(p) + 1,
        Wake::CoexRequest { duration } => 7,
        Wake::Now => 8,
        Wake::CoexStatus => 9,
        _ => 1,
    }
}

/// A wake ends: every outside call leaves fewer to come, at most nine in all.
pub proof fn wake_ends(
    v: MemView,
    s: PmStats,
    cells: PmCells,
    exp: u8,
    w: Wake,
    reply: u64,
    iface: u32,
)
    ensures
        w != Wake::Done ==> wake_steps(wake_resumed(v, s, cells, exp, w, reply).2) < wake_steps(w),
        wake_steps(wake_begun(v, s, cells, exp, iface).2) <= 9,
{
}

/// The address of the user mask that a wake enters the PHY user into.
pub open spec fn mask_of(v: MemView, w: Wake) -> u32 {
    match w {
        Wake::Phy(PhyEnable::SleepLock { maskp, mode }) => maskp,
        Wake::Phy(PhyEnable::Clock { maskp, mode }) => maskp,
        Wake::Phy(PhyEnable::IsChip { maskp, mode }) => maskp,
        Wake::Phy(PhyEnable::Phy { maskp, mode }) => maskp,
        Wake::Phy(PhyEnable::Readback { maskp, mode }) => maskp,
        _ => v.rd32(G_IC_PTR).wrapping_add(IC_RF_PHY_MASK),
    }
}

/// A wake stores to the block register, the PHY user mask and the two state bytes of the PM block,
/// and nowhere else.
pub proof fn wake_touches_only_pm_state(
    v: MemView,
    s: PmStats,
    cells: PmCells,
    exp: u8,
    w: Wake,
    reply: u64,
    a: u32,
)
    requires
        a != mask_of(v, w),
        a != cells.g_pm.wrapping_add(PM_STATE),
        a != cells.g_pm.wrapping_add(PM_DISC),
        apart(PM_TXBLOCK_RETENTION, 4, a, 1),
    ensures
        wake_resumed(v, s, cells, exp, w, reply).0.rd8(a) == v.rd8(a),
{
    broadcast use crate::mem_laws::group_loads;

}

proof fn lemma_wake_bits(w: u32, pre: u32, post: u32, users: u8, mode: u32, i: u32)
    by (bit_vector)
    requires
        i < 8,
        mode < 8,
    ensures
        ({
            let m = users | (1u8 << mode);
            (m >> i) & 1 == (if i == mode {
                1u8
            } else {
                (users >> i) & 1
            })
        }),
        w & !((0xffff_ffffu32 & 0x00ff_0000) | 0x1000) == w & 0xff00_efff,
        w & !((0xfff1_ffffu32 & 0x00ff_0000) | 0x1000) == w & 0xff0e_efff,
        (((pre >> 8) << 16) | ((post >> 8) & 0xffff)) >> 16 == (pre >> 8) & 0xffff,
        (((pre >> 8) << 16) | ((post >> 8) & 0xffff)) & 0xffff == (post >> 8) & 0xffff,
{
}

/// The unblocking store clears the block bits 0x00ff1000 of the register 0x600a4ca8 and keeps the rest.
/// While connected (byte 0xe of the PM block), with byte 0xf clear or byte 0x46a set, bits 17-19 stay as
/// well. It is the one store.
pub proof fn unblock_by_pm_state(v: MemView, cells: PmCells, a: u32)
    ensures
        ({
            let w = tx_unblocked(v, cells);
            let blk = v.rd32(0x600a_4ca8);
            let spare = v.rd8(cells.g_pm.wrapping_add(0xe)) != 0 && (v.rd8(
                cells.g_pm.wrapping_add(0xf),
            ) == 0 || v.rd8(cells.g_pm.wrapping_add(0x46a)) != 0);
            &&& !spare ==> w.rd32(0x600a_4ca8) == blk & 0xff00_efff
            &&& spare ==> w.rd32(0x600a_4ca8) == blk & 0xff0e_efff
            &&& apart(0x600a_4ca8, 4, a, 1) ==> w.rd8(a) == v.rd8(a)
            &&& w.log.len() == v.log.len() + 1
        }),
{
    broadcast use {crate::mem_laws::group_loads, crate::mem_laws::group_log};

    lemma_wake_bits(v.rd32(0x600a_4ca8), 0, 0, 0, 0, 0);
}

/// Entering a PHY user sets its bit, counted modulo 8, in the user mask and keeps the others; no other
/// byte changes.
pub proof fn phy_user_is_entered(v: MemView, maskp: u32, mode: u32, i: u32, a: u32)
    requires
        i < 8,
    ensures
        ({
            let w = phy_marked(v, maskp, mode);
            &&& (w.rd8(maskp) >> i) & 1 == (if i == mode % 8 {
                1u8
            } else {
                (v.rd8(maskp) >> i) & 1
            })
            &&& a != maskp ==> w.rd8(a) == v.rd8(a)
            &&& w.log.len() == v.log.len() + 1
        }),
{
    broadcast use {crate::mem_laws::group_loads, crate::mem_laws::group_log};

    crate::bits::low_bits(mode);
    lemma_wake_bits(0, 0, 0, v.rd8(maskp), mode & 7, i);
}

/// The PHY enable step by step. The user mask lies at 0x24e behind the pointer at 0x4087ffa0. Only the
/// first user goes through the callbacks: sleep lock; clocks, unless experiment bit 0 leaves them out;
/// the chip question, with MAC sleep (the byte that *0x4087ff00 points at) counted as odd before it; the
/// PHY, unless the reply is 0 or experiment bit 1 leaves it out; then the unblocking store, unless bit 2
/// leaves it out; in an experiment, a readback of the block register; and the user is entered. Any other
/// user is only entered.
pub proof fn phy_enable_step_by_step(
    v: MemView,
    s: PmStats,
    cells: PmCells,
    exp: u8,
    maskp: u32,
    mode: u32,
    reply: u64,
)
    ensures
        ({
            let p = v.rd32(0x4087_ffa0).wrapping_add(0x24e);
            let t = phy_begun(v, mode);
            &&& v.rd8(p) == 0 ==> t == (v, PhyEnable::SleepLock { maskp: p, mode })
            &&& v.rd8(p) != 0 ==> t == (phy_marked(v, p, mode), PhyEnable::Done)
        }),
        ({
            let asked = (
                v,
                PmStats {
                    odd: if v.rd8(v.rd32(0x4087_ff00)) != 0 {
                        s.odd.wrapping_add(1)
                    } else {
                        s.odd
                    },
                    ..s
                },
                PhyEnable::IsChip { maskp, mode },
            );
            let u = if exp & 4 == 0 {
                tx_unblocked(v, cells)
            } else {
                v
            };
            let up = if exp == 0 {
                (phy_marked(u, maskp, mode), s, PhyEnable::Done)
            } else {
                (u, s, PhyEnable::Readback { maskp, mode })
            };
            let lock = phy_resumed(v, s, cells, exp, PhyEnable::SleepLock { maskp, mode }, reply);
            let chip = phy_resumed(v, s, cells, exp, PhyEnable::IsChip { maskp, mode }, reply);
            &&& exp & 1 == 0 ==> lock == (v, s, PhyEnable::Clock { maskp, mode })
            &&& exp & 1 != 0 ==> lock == asked
            &&& phy_resumed(v, s, cells, exp, PhyEnable::Clock { maskp, mode }, reply) == asked
            &&& reply != 0 && exp & 2 == 0 ==> chip == (v, s, PhyEnable::Phy { maskp, mode })
            &&& reply == 0 || exp & 2 != 0 ==> chip == up
            &&& phy_resumed(v, s, cells, exp, PhyEnable::Phy { maskp, mode }, reply) == up
            &&& phy_resumed(v, s, cells, exp, PhyEnable::Readback { maskp, mode }, reply) == (
                phy_marked(v, maskp, mode),
                PmStats { blk_after_store: v.rd32(0x600a_4ca8), ..s },
                PhyEnable::Done,
            )
            &&& phy_resumed(v, s, cells, exp, PhyEnable::Done, reply) == (v, s, PhyEnable::Done)
        }),
{
}

/// A modem is marked awake by 2 in byte 0x121 and 0 in byte 1 of the PM block, and nothing else.
pub proof fn marking_awake(v: MemView, cells: PmCells, a: u32)
    ensures
        ({
            let w = marked_awake(v, cells);
            let disc = cells.g_pm.wrapping_add(0x121);
            let state = cells.g_pm.wrapping_add(1);
            &&& w.rd8(disc) == 2
            &&& w.rd8(state) == 0
            &&& a != disc && a != state ==> w.rd8(a) == v.rd8(a)
        }),
{
    broadcast use crate::mem_laws::group_loads;

}

/// The disconnected wake is for a modem that sleeps (3 in byte 0x121 of the PM block) while the mesh is
/// off: it is counted, goes through the ROM for experiment bit 3 and through the PHY enable of user 0
/// otherwise, and marks the modem awake when that is done. Any other modem is left alone.
pub proof fn disconnected_wake_by_state(v: MemView, s: PmStats, cells: PmCells, exp: u8)
    ensures
        ({
            let asleep = v.rd8(cells.g_pm.wrapping_add(0x121)) == 3 && v.rd8(cells.g_mesh_is_started)
                == 0;
            let counted = PmStats { wakes: s.wakes.wrapping_add(1), ..s };
            let b = phy_begun(v, 0);
            let t = disconnected_wake_begun(v, s, cells, exp);
            &&& !asleep ==> t == (v, s, Wake::Done)
            &&& asleep && exp & 8 != 0 ==> t == (v, counted, Wake::RomPhy)
            &&& asleep && exp & 8 == 0 && b.1 == PhyEnable::Done ==> t == (
                marked_awake(b.0, cells),
                counted,
                Wake::Done,
            )
            &&& asleep && exp & 8 == 0 && b.1 != PhyEnable::Done ==> t == (
                b.0,
                counted,
                Wake::Phy(b.1),
            )
        }),
{
}

/// Whether a frame wakes the modem. With a TWT session on interface 0 (bytes 0x1c2 and 0x2e4 of the PM
/// block) or the mesh on, it does not, and that is odd. Nor does a frame of another interface than byte
/// 2 says. A state other than 0 in byte 1 is odd; so is a connection (byte 0xe), which ends it. The
/// wake then goes through the vendor firmware for experiment bit 4, counted if the modem sleeps, and
/// asks for the coexistence status otherwise. Nothing is stored.
pub proof fn wake_by_pm_state(v: MemView, s: PmStats, cells: PmCells, exp: u8, iface: u32)
    ensures
        ({
            let g = cells.g_pm;
            let twt = v.rd8(g.wrapping_add(0x1c2)) != 0 || v.rd8(g.wrapping_add(0x2e4)) != 0;
            let mesh = v.rd8(cells.g_mesh_is_started) != 0;
            let odd = s.odd.wrapping_add(1);
            let first = if v.rd8(g.wrapping_add(1)) != 0 {
                PmStats { odd, ..s }
            } else {
                s
            };
            let own = v.rd8(g.wrapping_add(2)) as u32 == iface;
            let connected = v.rd8(g.wrapping_add(0xe)) != 0;
            let asleep = v.rd8(g.wrapping_add(0x121)) == 3;
            let out = (iface == 0 && twt) || mesh;
            let t = wake_begun(v, s, cells, exp, iface);
            &&& out ==> t == (v, PmStats { odd, ..s }, Wake::Done)
            &&& !out && !own ==> t == (v, s, Wake::Done)
            &&& !out && own && connected ==> t == (
                v,
                PmStats { odd: first.odd.wrapping_add(1), ..first },
                Wake::Done,
            )
            &&& !out && own && !connected && exp & 16 != 0 ==> t == (
                v,
                if asleep {
                    PmStats { wakes: s.wakes.wrapping_add(1), ..first }
                } else {
                    first
                },
                Wake::VendorDisconnectedWake,
            )
            &&& !out && own && !connected && exp & 16 == 0 ==> t == (v, first, Wake::CoexStatus)
        }),
{
}

/// The wake step by step. Active coexistence is odd. Before the start of the slice, the 64-bit number in
/// the words 0x70 and 0x74 of the PM block, the medium is requested for the time that is left, modulo
/// 2^32; then the disconnected wake begins. A PHY enable goes on callback by callback and, like the
/// ROM's, is followed by the mark; a wake through the vendor firmware is not.
pub proof fn wake_step_by_step(
    v: MemView,
    s: PmStats,
    cells: PmCells,
    exp: u8,
    w: Wake,
    reply: u64,
)
    ensures
        ({
            let lo = v.rd32(cells.g_pm.wrapping_add(0x70));
            let hi = v.rd32(cells.g_pm.wrapping_add(0x74));
            let start = hi * 0x1_0000_0000 + lo;
            let t = wake_resumed(v, s, cells, exp, w, reply);
            let begun = disconnected_wake_begun(v, s, cells, exp);
            &&& w == Wake::Done ==> t == (v, s, Wake::Done)
            &&& w == Wake::CoexStatus && reply == 0 ==> t == (v, s, Wake::Now)
            &&& w == Wake::CoexStatus && reply != 0 ==> t == (
                v,
                PmStats { odd: s.odd.wrapping_add(1), ..s },
                Wake::Now,
            )
            &&& w == Wake::Now && reply >= start ==> t == begun
            &&& w == Wake::Now && reply < start ==> {
                &&& t.0 == v && t.1 == s
                &&& t.2 matches Wake::CoexRequest { duration }
                &&& duration == (lo + 0x1_0000_0000 - reply % 0x1_0000_0000) % 0x1_0000_0000
            }
            &&& w is CoexRequest ==> t == begun
            &&& w matches Wake::Phy(p) ==> {
                let q = phy_resumed(v, s, cells, exp, p, reply);
                if q.2 == PhyEnable::Done {
                    t == (marked_awake(q.0, cells), q.1, Wake::Done)
                } else {
                    t == (q.0, q.1, Wake::Phy(q.2))
                }
            }
            &&& w == Wake::RomPhy ==> t == (marked_awake(v, cells), s, Wake::Done)
            &&& w == Wake::VendorDisconnectedWake || w is VendorOnDataTx ==> t == (v, s, Wake::Done)
        }),
{
    lemma_low_word(reply);
}

proof fn lemma_low_word(x: u64)
    by (bit_vector)
    ensures
        x & 0xffff_ffff == x % 0x1_0000_0000,
{
}

/// A wake counts as blocked before and after by the block bits 0x00ff1000, and keeps bits 8-23 of the
/// register, as it was before in the upper and after in the lower half.
pub proof fn wakes_are_counted_by_the_block_bits(s: PmStats, pre: u32, post: u32)
    ensures
        ({
            let t = wake_counted(s, pre, post);
            &&& t.pre_blocked == (if pre & 0xff_1000 != 0 {
                s.pre_blocked.wrapping_add(1)
            } else {
                s.pre_blocked
            })
            &&& t.post_blocked == (if post & 0xff_1000 != 0 {
                s.post_blocked.wrapping_add(1)
            } else {
                s.post_blocked
            })
            &&& t.blk >> 16 == (pre >> 8) & 0xffff
            &&& t.blk & 0xffff == (post >> 8) & 0xffff
            &&& t.wakes == s.wakes && t.odd == s.odd && t.blk_after_store == s.blk_after_store
        }),
{
    lemma_wake_bits(0, pre, post, 0, 0, 0);
}

/// Where the callbacks lie in their table: the coexistence status at 0x190 and request at 0x198, the
/// sleep lock at 0xc8, the clocks at 0xf8, the chip question at 4 and the PHY at 0xd4; no other stop is
/// a callback.
pub proof fn callbacks_in_the_table(w: Wake)
    ensures
        callback_offset(Wake::CoexStatus) == Some(0x190u32),
        w is CoexRequest ==> callback_offset(w) == Some(0x198u32),
        w matches Wake::Phy(p) ==> callback_offset(w) == (match p {
            PhyEnable::SleepLock { maskp, mode } => Some(0xc8u32),
            PhyEnable::Clock { maskp, mode } => Some(0xf8u32),
            PhyEnable::IsChip { maskp, mode } => Some(4u32),
            PhyEnable::Phy { maskp, mode } => Some(0xd4u32),
            PhyEnable::Done => None,
            PhyEnable::Readback { maskp, mode } => None,
        }),
        w == Wake::Done || w == Wake::Now || w == Wake::RomPhy || w == Wake::VendorDisconnectedWake
            || w is VendorOnDataTx ==> callback_offset(w) is None,
        crate::pm_wake::G_OSI_FUNCS_P == 0x4087_ff6c,
{
}

/// What a snapshot shows: the state bytes of the PM block, the mesh, the pointers, the PHY user mask, the
/// MAC sleep switch and the block register.
pub proof fn snapshot_fields(v: MemView, cells: PmCells)
    ensures
        ({
            let p = snapshot_of(v, cells);
            let g = cells.g_pm;
            &&& p.state == v.rd8(g.wrapping_add(1))
            &&& p.disc == v.rd8(g.wrapping_add(0x121))
            &&& p.connected == v.rd8(g.wrapping_add(0xe))
            &&& p.iface == v.rd8(g.wrapping_add(2))
            &&& p.twt_a == v.rd8(g.wrapping_add(0x1c2))
            &&& p.twt_b == v.rd8(g.wrapping_add(0x2e4))
            &&& p.mesh == (v.rd8(cells.g_mesh_is_started) != 0)
            &&& p.osi == v.rd32(0x4087_ff6c)
            &&& p.ic == v.rd32(0x4087_ffa0)
            &&& p.rf_mask == v.rd8(v.rd32(0x4087_ffa0).wrapping_add(0x24e))
            &&& p.mac_sleep_en == v.rd8(v.rd32(0x4087_ff00))
            &&& p.blk == v.rd32(0x600a_4ca8)
        }),
{
}

} // verus!
