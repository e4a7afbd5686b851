//! The modem wake that precedes a frame.
//!
//! While the modem sleeps, the MAC clock is gated (every register write is dropped) and the TX-block
//! bits of PM_TXBLOCK_RETENTION keep an armed frame from launching. The wake re-enables clocks and
//! PHY through the operating-system callbacks and then clears the block bits. It is a sequence of
//! decisions with an outside call between each two: `Wake` says which call is due, the caller makes
//! it and hands the reply to `resume_wake`.
//!
//! Only the states of a disconnected station are handled; any other is counted in `PmStats::odd`.
use crate::config::{EXP_NO_CLOCK, EXP_NO_PHY, EXP_NO_STORE, EXP_ROM_PHY, EXP_VENDOR_WAKE};
use crate::mac_reg::{PM_TXBLOCK_BITS, PM_TXBLOCK_RETENTION};
use crate::mmio::{rd, rd8, wr, wr8, Mem, MemView};
use vstd::prelude::*;

verus! {

/// ROM cell: address of the operating-system callback table.
pub const G_OSI_FUNCS_P: u32 = 0x4087_ff6c;

/// ROM cell: address of the interface control block.
pub const G_IC_PTR: u32 = 0x4087_ffa0;

/// Offset of the byte in the interface control block that says which users have enabled the PHY.
pub const IC_RF_PHY_MASK: u32 = 0x24e;

/// ROM cell: address of the MAC-sleep switch.
pub const G_MAC_SLEEP_EN_PTR: u32 = 0x4087_ff00;

/// Callback table: is this a chip (rather than a simulation)?
pub const OSI_ENV_IS_CHIP: u32 = 0x004;

/// Callback table: acquire the sleep lock.
pub const OSI_WIFI_PM_SLEEP_LOCK_ACQUIRE: u32 = 0x0c8;

/// Callback table: enable the PHY.
pub const OSI_PHY_ENABLE: u32 = 0x0d4;

/// Callback table: enable the Wi-Fi clocks.
pub const OSI_WIFI_CLOCK_ENABLE: u32 = 0x0f8;

/// Callback table: coexistence status.
pub const OSI_COEX_STATUS_GET: u32 = 0x190;

/// Callback table: coexistence request.
pub const OSI_COEX_WIFI_REQUEST: u32 = 0x198;

/// PM block: power-save state.
pub const PM_STATE: u32 = 1;

/// PM block: the interface that the power management belongs to.
pub const PM_IFACE: u32 = 2;

/// PM block: connected, with power save.
pub const PM_CONNECTED: u32 = 0xe;

/// PM block: narrows the TX block to be retained while connected.
pub const PM_RETAIN_A: u32 = 0xf;

/// PM block: start of the coexistence slice, low word.
pub const PM_SLICE_LO: u32 = 0x70;

/// PM block: start of the coexistence slice, high word.
pub const PM_SLICE_HI: u32 = 0x74;

/// PM block: modem state while disconnected.
pub const PM_DISC: u32 = 0x121;

/// PM block: a TWT session is on.
pub const PM_TWT_A: u32 = 0x1c2;

/// PM block: a TWT session is on.
pub const PM_TWT_B: u32 = 0x2e4;

/// PM block: widens the TX block to be retained while connected.
pub const PM_RETAIN_B: u32 = 0x46a;

/// `PM_DISC` of an awake modem.
pub const DISC_AWAKE: u8 = 2;

/// `PM_DISC` of a sleeping modem.
pub const DISC_ASLEEP: u8 = 3;

/// Where the linked firmware keeps its power-management state.
#[derive(Clone, Copy, Debug, PartialEq, Eq, Structural)]
pub struct PmCells {
    /// Address of the PM block.
    pub g_pm: u32,
    /// Address of the mesh switch.
    pub g_mesh_is_started: u32,
}

/// What the wake has seen so far. The counters wrap.
#[derive(Clone, Copy, Debug, PartialEq, Eq, Structural)]
pub struct PmStats {
    /// Frames that found the modem asleep and woke it.
    pub wakes: u32,
    /// Frames before whose wake the TX was blocked.
    pub pre_blocked: u32,
    /// Frames after whose wake the TX was blocked.
    pub post_blocked: u32,
    /// States that the wake does not handle; stays 0.
    pub odd: u32,
    /// Bits 8-23 of the block register before (high half) and after (low half) the last wake.
    pub blk: u32,
    /// The block register right after the store that clears it, in an experiment.
    pub blk_after_store: u32,
}

impl PmStats {
    /// The counters after one more odd state.
    pub open spec fn plus_odd(self) -> PmStats {
        PmStats { odd: self.odd.wrapping_add(1), ..self }
    }

    /// The counters after one more wake.
    pub open spec fn plus_wake(self) -> PmStats {
        PmStats { wakes: self.wakes.wrapping_add(1), ..self }
    }

    /// Nothing seen yet.
    pub fn new() -> (r: PmStats)
        ensures
            r == (PmStats {
                wakes: 0,
                pre_blocked: 0,
                post_blocked: 0,
                odd: 0,
                blk: 0,
                blk_after_store: 0xffff_ffff,
            }),
    {
        PmStats {
            wakes: 0,
            pre_blocked: 0,
            post_blocked: 0,
            odd: 0,
            blk: 0,
            blk_after_store: 0xffff_ffff,
        }
    }

    fn count_odd(&mut self)
        ensures
            *final(self) == old(self).plus_odd(),
    {
        self.odd = self.odd.wrapping_add(1);
    }

    fn count_wake(&mut self)
        ensures
            *final(self) == old(self).plus_wake(),
    {
        self.wakes = self.wakes.wrapping_add(1);
    }
}

impl PmCells {
    /// A byte of the PM block.
    pub open spec fn u8_in(self, v: MemView, off: u32) -> u8 {
        v.rd8(self.g_pm.wrapping_add(off))
    }

    /// A word of the PM block.
    pub open spec fn u32_in(self, v: MemView, off: u32) -> u32 {
        v.rd32(self.g_pm.wrapping_add(off))
    }

    /// The address space with a byte of the PM block set.
    pub open spec fn with_u8(self, v: MemView, off: u32, val: u8) -> MemView {
        v.st8(self.g_pm.wrapping_add(off), val)
    }

    /// The mesh is on.
    pub open spec fn mesh_in(self, v: MemView) -> bool {
        v.rd8(self.g_mesh_is_started) != 0
    }

    /// A TWT session is on.
    pub open spec fn twt_in(self, v: MemView) -> bool {
        self.u8_in(v, PM_TWT_A) != 0 || self.u8_in(v, PM_TWT_B) != 0
    }

    /// The modem sleeps and the mesh is off.
    pub open spec fn asleep_in(self, v: MemView) -> bool {
        self.u8_in(v, PM_DISC) == DISC_ASLEEP && !self.mesh_in(v)
    }

    /// The TX-block bits that the wake clears: all of them while disconnected, all but those of
    /// queues 1 to 3 while connected with power save.
    pub open spec fn retention_mask_in(self, v: MemView) -> u32 {
        if self.u8_in(v, PM_CONNECTED) != 0 && (self.u8_in(v, PM_RETAIN_A) == 0 || self.u8_in(
            v,
            PM_RETAIN_B,
        ) != 0) {
            0xfff1_ffff
        } else {
            0xffff_ffff
        }
    }

    fn pm_u8(self, m: &Mem, off: u32) -> (r: u8)
        ensures
            r == self.u8_in(m@, off),
    {
        rd8(m, self.g_pm.wrapping_add(off))
    }

    fn pm_u32(self, m: &Mem, off: u32) -> (r: u32)
        ensures
            r == self.u32_in(m@, off),
    {
        rd(m, self.g_pm.wrapping_add(off))
    }

    fn pm_set_u8(self, m: &mut Mem, off: u32, val: u8)
        ensures
            final(m)@ == self.with_u8(old(m)@, off, val),
    {
        wr8(m, self.g_pm.wrapping_add(off), val);
    }

    fn mesh_started(self, m: &Mem) -> (r: bool)
        ensures
            r == self.mesh_in(m@),
    {
        rd8(m, self.g_mesh_is_started) != 0
    }

    fn cr_pm_is_twt_start(self, m: &Mem) -> (r: bool)
        ensures
            r == self.twt_in(m@),
    {
        self.pm_u8(m, PM_TWT_A) != 0 || self.pm_u8(m, PM_TWT_B) != 0
    }

    fn cr_pm_get_tx_blocks_retention_mask(self, m: &Mem) -> (r: u32)
        ensures
            r == self.retention_mask_in(m@),
    {
        if self.pm_u8(m, PM_CONNECTED) != 0 && (self.pm_u8(m, PM_RETAIN_A) == 0 || self.pm_u8(
            m,
            PM_RETAIN_B,
        ) != 0) {
            0xfff1_ffff
        } else {
            0xffff_ffff
        }
    }
}

/// The address space after the TX block has been cleared.
pub open spec fn tx_unblocked(v: MemView, cells: PmCells) -> MemView {
    v.and32(PM_TXBLOCK_RETENTION, !((cells.retention_mask_in(v) & 0x00ff_0000) | 0x1000))
}

/// Clears the TX-block bits, which lets armed frames launch.
pub fn cr_hal_mac_init(m: &mut Mem, cells: PmCells)
    ensures
        final(m)@ == tx_unblocked(old(m)@, cells),
{
    let mask = cells.cr_pm_get_tx_blocks_retention_mask(m);
    let v = rd(m, PM_TXBLOCK_RETENTION);
    wr(m, PM_TXBLOCK_RETENTION, v & !((mask & 0x00ff_0000) | 0x1000));
}

/// The PHY enable: the callback that is due, or done. `maskp` is the address of the user mask and
/// `mode` the user.
#[derive(Clone, Copy, Debug, PartialEq, Eq, Structural)]
pub enum PhyEnable {
    /// The PHY is enabled.
    Done,
    /// Acquire the sleep lock.
    SleepLock { maskp: u32, mode: u32 },
    /// Enable the Wi-Fi clocks.
    Clock { maskp: u32, mode: u32 },
    /// Ask whether this is a chip; the reply is not 0 if it is.
    IsChip { maskp: u32, mode: u32 },
    /// Enable the PHY.
    Phy { maskp: u32, mode: u32 },
    /// Perform the stores made so far: the block register is about to be read back.
    Readback { maskp: u32, mode: u32 },
}

/// The address space after the user has been entered into the mask.
pub open spec fn phy_marked(v: MemView, maskp: u32, mode: u32) -> MemView {
    v.st8(maskp, v.rd8(maskp) | (1u8 << (mode & 7)))
}

/// The PHY enable from its start: only the first user goes through the callbacks.
pub open spec fn phy_begun(v: MemView, mode: u32) -> (MemView, PhyEnable) {
    let maskp = v.rd32(G_IC_PTR).wrapping_add(IC_RF_PHY_MASK);
    if v.rd8(maskp) == 0 {
        (v, PhyEnable::SleepLock { maskp, mode })
    } else {
        (phy_marked(v, maskp, mode), PhyEnable::Done)
    }
}

/// The PHY enable once clocks and PHY are on: the TX block is cleared and the user entered, after a
/// readback in an experiment.
pub open spec fn phy_up(
    v: MemView,
    s: PmStats,
    cells: PmCells,
    exp: u8,
    maskp: u32,
    mode: u32,
) -> (MemView, PmStats, PhyEnable) {
    let v1 = if exp & EXP_NO_STORE == 0 {
        tx_unblocked(v, cells)
    } else {
        v
    };
    if exp != 0 {
        (v1, s, PhyEnable::Readback { maskp, mode })
    } else {
        (phy_marked(v1, maskp, mode), s, PhyEnable::Done)
    }
}

/// The PHY enable once the clocks are on. MAC sleep is not handled.
pub open spec fn phy_clocked(
    v: MemView,
    s: PmStats,
    maskp: u32,
    mode: u32,
) -> (MemView, PmStats, PhyEnable) {
    let s1 = if v.rd8(v.rd32(G_MAC_SLEEP_EN_PTR)) != 0 {
        s.plus_odd()
    } else {
        s
    };
    (v, s1, PhyEnable::IsChip { maskp, mode })
}

/// The PHY enable after the callback that `p` was waiting for has returned `reply`.
pub open spec fn phy_resumed(
    v: MemView,
    s: PmStats,
    cells: PmCells,
    exp: u8,
    p: PhyEnable,
    reply: u64,
) -> (MemView, PmStats, PhyEnable) {
    match p {
        PhyEnable::Done => (v, s, PhyEnable::Done),
        PhyEnable::SleepLock { maskp, mode } => if exp & EXP_NO_CLOCK == 0 {
            (v, s, PhyEnable::Clock { maskp, mode })
        } else {
            phy_clocked(v, s, maskp, mode)
        },
        PhyEnable::Clock { maskp, mode } => phy_clocked(v, s, maskp, mode),
        PhyEnable::IsChip { maskp, mode } => if reply != 0 && exp & EXP_NO_PHY == 0 {
            (v, s, PhyEnable::Phy { maskp, mode })
        } else {
            phy_up(v, s, cells, exp, maskp, mode)
        },
        PhyEnable::Phy { maskp, mode } => phy_up(v, s, cells, exp, maskp, mode),
        PhyEnable::Readback { maskp, mode } => (
            phy_marked(v, maskp, mode),
            PmStats { blk_after_store: v.rd32(PM_TXBLOCK_RETENTION), ..s },
            PhyEnable::Done,
        ),
    }
}

proof fn lemma_mode_range(mode: u32)
    ensures
        mode & 7 < 8,
{
    crate::bits::low_bits(mode);
}

fn mark_phy(m: &mut Mem, maskp: u32, mode: u32)
    ensures
        final(m)@ == phy_marked(old(m)@, maskp, mode),
{
    proof {
        lemma_mode_range(mode);
    }
    let users = rd8(m, maskp);
    wr8(m, maskp, users | (1u8 << (mode & 7)));
}

/// Starts to enable the PHY for the user `mode` (bit `mode`, counted modulo 8, of the user mask).
pub fn cr_wifi_rf_phy_enable(m: &mut Mem, mode: u32) -> (r: PhyEnable)
    ensures
        (final(m)@, r) == phy_begun(old(m)@, mode),
{
    let maskp = rd(m, G_IC_PTR).wrapping_add(IC_RF_PHY_MASK);
    if rd8(m, maskp) == 0 {
        PhyEnable::SleepLock { maskp, mode }
    } else {
        mark_phy(m, maskp, mode);
        PhyEnable::Done
    }
}

fn bring_phy_up(m: &mut Mem, s: &PmStats, cells: PmCells, exp: u8, maskp: u32, mode: u32) -> (r:
    PhyEnable)
    ensures
        (final(m)@, *s, r) == phy_up(old(m)@, *s, cells, exp, maskp, mode),
{
    if exp & EXP_NO_STORE == 0 {
        cr_hal_mac_init(m, cells);
    }
    if exp != 0 {
        return PhyEnable::Readback { maskp, mode };
    }
    mark_phy(m, maskp, mode);
    PhyEnable::Done
}

fn after_clock(m: &Mem, s: &mut PmStats, maskp: u32, mode: u32) -> (r: PhyEnable)
    ensures
        (m@, *final(s), r) == phy_clocked(m@, *old(s), maskp, mode),
{
    if rd8(m, rd(m, G_MAC_SLEEP_EN_PTR)) != 0 {
        s.count_odd();
    }
    PhyEnable::IsChip { maskp, mode }
}

/// Goes on with the PHY enable after the callback that `p` was waiting for has returned `reply`.
pub fn resume_phy_enable(
    m: &mut Mem,
    s: &mut PmStats,
    cells: PmCells,
    exp: u8,
    p: PhyEnable,
    reply: u64,
) -> (r: PhyEnable)
    ensures
        (final(m)@, *final(s), r) == phy_resumed(old(m)@, *old(s), cells, exp, p, reply),
{
    match p {
        PhyEnable::Done => PhyEnable::Done,
        PhyEnable::SleepLock { maskp, mode } => {
            if exp & EXP_NO_CLOCK == 0 {
                PhyEnable::Clock { maskp, mode }
            } else {
                after_clock(m, s, maskp, mode)
            }
        },
        PhyEnable::Clock { maskp, mode } => after_clock(m, s, maskp, mode),
        PhyEnable::IsChip { maskp, mode } => {
            if reply != 0 && exp & EXP_NO_PHY == 0 {
                PhyEnable::Phy { maskp, mode }
            } else {
                bring_phy_up(m, s, cells, exp, maskp, mode)
            }
        },
        PhyEnable::Phy { maskp, mode } => bring_phy_up(m, s, cells, exp, maskp, mode),
        PhyEnable::Readback { maskp, mode } => {
            s.blk_after_store = rd(m, PM_TXBLOCK_RETENTION);
            mark_phy(m, maskp, mode);
            PhyEnable::Done
        },
    }
}

/// The wake: the outside call that is due, or done.
#[derive(Clone, Copy, Debug, PartialEq, Eq, Structural)]
pub enum Wake {
    /// Nothing more to do.
    Done,
    /// Ask for the coexistence status; the reply is not 0 while coexistence is active.
    CoexStatus,
    /// Ask for the time in microseconds.
    Now,
    /// Request the medium from the coexistence arbiter, with `(1, 0, duration)`.
    CoexRequest { duration: u32 },
    /// Enable the PHY.
    Phy(PhyEnable),
    /// Enable the PHY through the ROM.
    RomPhy,
    /// Wake through the vendor firmware's disconnected wake.
    VendorDisconnectedWake,
    /// Wake through the vendor firmware.
    VendorOnDataTx { iface: u32 },
}

/// The address space after the modem has been marked awake.
pub open spec fn marked_awake(v: MemView, cells: PmCells) -> MemView {
    cells.with_u8(cells.with_u8(v, PM_DISC, DISC_AWAKE), PM_STATE, 0)
}

/// The wake after a step of its PHY enable.
pub open spec fn wake_after_phy(
    t: (MemView, PmStats, PhyEnable),
    cells: PmCells,
) -> (MemView, PmStats, Wake) {
    if t.2 == PhyEnable::Done {
        (marked_awake(t.0, cells), t.1, Wake::Done)
    } else {
        (t.0, t.1, Wake::Phy(t.2))
    }
}

/// The disconnected wake from its start: a sleeping modem is woken, anything else left alone.
pub open spec fn disconnected_wake_begun(
    v: MemView,
    s: PmStats,
    cells: PmCells,
    exp: u8,
) -> (MemView, PmStats, Wake) {
    if !cells.asleep_in(v) {
        (v, s, Wake::Done)
    } else if exp & EXP_ROM_PHY != 0 {
        (v, s.plus_wake(), Wake::RomPhy)
    } else {
        let b = phy_begun(v, 0);
        wake_after_phy((b.0, s.plus_wake(), b.1), cells)
    }
}

/// The wake from its start.
pub open spec fn wake_begun(
    v: MemView,
    s: PmStats,
    cells: PmCells,
    exp: u8,
    iface: u32,
) -> (MemView, PmStats, Wake) {
    if (iface == 0 && cells.twt_in(v)) || cells.mesh_in(v) {
        (v, s.plus_odd(), Wake::Done)
    } else if cells.u8_in(v, PM_IFACE) as u32 != iface {
        (v, s, Wake::Done)
    } else {
        let s1 = if cells.u8_in(v, PM_STATE) != 0 {
            s.plus_odd()
        } else {
            s
        };
        if cells.u8_in(v, PM_CONNECTED) != 0 {
            (v, s1.plus_odd(), Wake::Done)
        } else if exp & EXP_VENDOR_WAKE != 0 {
            let s2 = if cells.u8_in(v, PM_DISC) == DISC_ASLEEP {
                s1.plus_wake()
            } else {
                s1
            };
            (v, s2, Wake::VendorDisconnectedWake)
        } else {
            (v, s1, Wake::CoexStatus)
        }
    }
}

/// The start of the coexistence slice.
pub open spec fn slice_start_of(v: MemView, cells: PmCells) -> int {
    cells.u32_in(v, PM_SLICE_HI) * 0x1_0000_0000 + cells.u32_in(v, PM_SLICE_LO)
}

/// The wake after the call that `w` was waiting for has returned `reply`.
pub open spec fn wake_resumed(
    v: MemView,
    s: PmStats,
    cells: PmCells,
    exp: u8,
    w: Wake,
    reply: u64,
) -> (MemView, PmStats, Wake) {
    match w {
        Wake::Done => (v, s, Wake::Done),
        Wake::CoexStatus => (
            v,
            if reply != 0 {
                s.plus_odd()
            } else {
                s
            },
            Wake::Now,
        ),
        Wake::Now => if reply < slice_start_of(v, cells) {
            let now = (reply & 0xffff_ffff) as u32;
            let duration = cells.u32_in(v, PM_SLICE_LO).wrapping_sub(now);
            (v, s, Wake::CoexRequest { duration })
        } else {
            disconnected_wake_begun(v, s, cells, exp)
        },
        Wake::CoexRequest { duration } => disconnected_wake_begun(v, s, cells, exp),
        Wake::Phy(p) => wake_after_phy(phy_resumed(v, s, cells, exp, p, reply), cells),
        Wake::RomPhy => (marked_awake(v, cells), s, Wake::Done),
        Wake::VendorDisconnectedWake => (v, s, Wake::Done),
        Wake::VendorOnDataTx { iface } => (v, s, Wake::Done),
    }
}

fn mark_awake(m: &mut Mem, cells: PmCells)
    ensures
        final(m)@ == marked_awake(old(m)@, cells),
{
    cells.pm_set_u8(m, PM_DISC, DISC_AWAKE);
    cells.pm_set_u8(m, PM_STATE, 0);
}

/// Starts the disconnected wake: wakes the modem if it sleeps and the mesh is off.
pub fn cr_pm_disconnected_wake(m: &mut Mem, s: &mut PmStats, cells: PmCells, exp: u8) -> (r: Wake)
    ensures
        (final(m)@, *final(s), r) == disconnected_wake_begun(old(m)@, *old(s), cells, exp),
{
    if cells.pm_u8(m, PM_DISC) == DISC_ASLEEP && !cells.mesh_started(m) {
        s.count_wake();
        if exp & EXP_ROM_PHY != 0 {
            return Wake::RomPhy;
        }
        match cr_wifi_rf_phy_enable(m, 0) {
            PhyEnable::Done => {
                mark_awake(m, cells);
                Wake::Done
            },
            p => Wake::Phy(p),
        }
    } else {
        Wake::Done
    }
}

/// Starts the wake for a frame of `iface`.
pub fn cr_pm_on_data_tx(m: &Mem, s: &mut PmStats, cells: PmCells, exp: u8, iface: u32) -> (r: Wake)
    ensures
        (m@, *final(s), r) == wake_begun(m@, *old(s), cells, exp, iface),
{
    if iface == 0 && cells.cr_pm_is_twt_start(m) {
        s.count_odd();
        return Wake::Done;
    }
    if cells.mesh_started(m) {
        s.count_odd();
        return Wake::Done;
    }
    if cells.pm_u8(m, PM_IFACE) as u32 != iface {
        return Wake::Done;
    }
    if cells.pm_u8(m, PM_STATE) != 0 {
        s.count_odd();
    }
    if cells.pm_u8(m, PM_CONNECTED) != 0 {
        s.count_odd();
        return Wake::Done;
    }
    if exp & EXP_VENDOR_WAKE != 0 {
        if cells.pm_u8(m, PM_DISC) == DISC_ASLEEP {
            s.count_wake();
        }
        return Wake::VendorDisconnectedWake;
    }
    Wake::CoexStatus
}

proof fn lemma_join_words(hi: u32, lo: u32)
    by (bit_vector)
    ensures
        ((hi as u64) << 32) | lo as u64 == (hi as u64) * 0x1_0000_0000 + lo as u64,
{
}

/// Goes on with the wake after the call that `w` was waiting for has returned `reply` (0 where the
/// call returns nothing).
pub fn resume_wake(
    m: &mut Mem,
    s: &mut PmStats,
    cells: PmCells,
    exp: u8,
    w: Wake,
    reply: u64,
) -> (r: Wake)
    ensures
        (final(m)@, *final(s), r) == wake_resumed(old(m)@, *old(s), cells, exp, w, reply),
{
    match w {
        Wake::Done => Wake::Done,
        Wake::CoexStatus => {
            if reply != 0 {
                s.count_odd();
            }
            Wake::Now
        },
        Wake::Now => {
            let hi = cells.pm_u32(m, PM_SLICE_HI);
            let lo = cells.pm_u32(m, PM_SLICE_LO);
            let slice_start = ((hi as u64) << 32) | lo as u64;
            proof {
                lemma_join_words(hi, lo);
            }
            if reply < slice_start {
                let now = (reply & 0xffff_ffff) as u32;
                Wake::CoexRequest { duration: lo.wrapping_sub(now) }
            } else {
                cr_pm_disconnected_wake(m, s, cells, exp)
            }
        },
        Wake::CoexRequest { duration } => cr_pm_disconnected_wake(m, s, cells, exp),
        Wake::Phy(p) => {
            match resume_phy_enable(m, s, cells, exp, p, reply) {
                PhyEnable::Done => {
                    mark_awake(m, cells);
                    Wake::Done
                },
                q => Wake::Phy(q),
            }
        },
        Wake::RomPhy => {
            mark_awake(m, cells);
            Wake::Done
        },
        Wake::VendorDisconnectedWake => Wake::Done,
        Wake::VendorOnDataTx { iface } => Wake::Done,
    }
}

/// The offset in the callback table of the callback that is due, if it is one.
pub open spec fn callback_offset(w: Wake) -> Option<u32> {
    match w {
        Wake::CoexStatus => Some(OSI_COEX_STATUS_GET),
        Wake::CoexRequest { duration } => Some(OSI_COEX_WIFI_REQUEST),
        Wake::Phy(PhyEnable::SleepLock { maskp, mode }) => Some(OSI_WIFI_PM_SLEEP_LOCK_ACQUIRE),
        Wake::Phy(PhyEnable::Clock { maskp, mode }) => Some(OSI_WIFI_CLOCK_ENABLE),
        Wake::Phy(PhyEnable::IsChip { maskp, mode }) => Some(OSI_ENV_IS_CHIP),
        Wake::Phy(PhyEnable::Phy { maskp, mode }) => Some(OSI_PHY_ENABLE),
        _ => None,
    }
}

/// Reads an entry of the callback table.
pub fn osi_slot(m: &Mem, off: u32) -> (r: u32)
    ensures
        r == m@.rd32(m@.rd32(G_OSI_FUNCS_P).wrapping_add(off)),
{
    rd(m, rd(m, G_OSI_FUNCS_P).wrapping_add(off))
}

/// The address of the callback that is due, if it is one of the callback table's.
pub fn callback(m: &Mem, w: Wake) -> (r: Option<u32>)
    ensures
        r == (match callback_offset(w) {
            Some(off) => Some(m@.rd32(m@.rd32(G_OSI_FUNCS_P).wrapping_add(off))),
            None => None,
        }),
{
    match w {
        Wake::CoexStatus => Some(osi_slot(m, OSI_COEX_STATUS_GET)),
        Wake::CoexRequest { duration } => Some(osi_slot(m, OSI_COEX_WIFI_REQUEST)),
        Wake::Phy(PhyEnable::SleepLock { maskp, mode }) => Some(
            osi_slot(m, OSI_WIFI_PM_SLEEP_LOCK_ACQUIRE),
        ),
        Wake::Phy(PhyEnable::Clock { maskp, mode }) => Some(osi_slot(m, OSI_WIFI_CLOCK_ENABLE)),
        Wake::Phy(PhyEnable::IsChip { maskp, mode }) => Some(osi_slot(m, OSI_ENV_IS_CHIP)),
        Wake::Phy(PhyEnable::Phy { maskp, mode }) => Some(osi_slot(m, OSI_PHY_ENABLE)),
        _ => None,
    }
}

/// The counters after a wake that found `pre` in the block register and left `post` there.
pub open spec fn wake_counted(s: PmStats, pre: u32, post: u32) -> PmStats {
    PmStats {
        pre_blocked: if (pre & PM_TXBLOCK_BITS) != 0 {
            s.pre_blocked.wrapping_add(1)
        } else {
            s.pre_blocked
        },
        post_blocked: if (post & PM_TXBLOCK_BITS) != 0 {
            s.post_blocked.wrapping_add(1)
        } else {
            s.post_blocked
        },
        blk: ((pre >> 8) << 16) | ((post >> 8) & 0xffff),
        ..s
    }
}

/// The wake before a frame from its start, with the block register as it was before.
pub open spec fn data_tx_begun(
    v: MemView,
    s: PmStats,
    cells: PmCells,
    exp: u8,
    iface: u32,
    enabled: bool,
    use_vendor: bool,
) -> (MemView, PmStats, Wake) {
    if !enabled {
        (v, s, Wake::Done)
    } else if use_vendor {
        (v, s, Wake::VendorOnDataTx { iface })
    } else {
        wake_begun(v, s, cells, exp, iface)
    }
}

/// Starts the wake before a frame of `iface`, through the driver or the vendor firmware, and reads
/// the block register as it is before. `enabled` is off only to see that the wake is needed.
pub fn on_data_tx(
    m: &Mem,
    s: &mut PmStats,
    cells: PmCells,
    exp: u8,
    iface: u32,
    enabled: bool,
    use_vendor: bool,
) -> (r: (u32, Wake))
    ensures
        r.0 == m@.rd32(PM_TXBLOCK_RETENTION),
        (m@, *final(s), r.1) == data_tx_begun(
            m@,
            *old(s),
            cells,
            exp,
            iface,
            enabled,
            use_vendor,
        ),
{
    let pre = rd(m, PM_TXBLOCK_RETENTION);
    let w = if !enabled {
        Wake::Done
    } else if use_vendor {
        Wake::VendorOnDataTx { iface }
    } else {
        cr_pm_on_data_tx(m, s, cells, exp, iface)
    };
    (pre, w)
}

/// Counts a finished wake that found `pre` in the block register.
pub fn on_data_tx_done(m: &Mem, s: &mut PmStats, pre: u32)
    ensures
        *final(s) == wake_counted(*old(s), pre, m@.rd32(PM_TXBLOCK_RETENTION)),
{
    let post = rd(m, PM_TXBLOCK_RETENTION);
    if (pre & PM_TXBLOCK_BITS) != 0 {
        s.pre_blocked = s.pre_blocked.wrapping_add(1);
    }
    if (post & PM_TXBLOCK_BITS) != 0 {
        s.post_blocked = s.post_blocked.wrapping_add(1);
    }
    s.blk = ((pre >> 8) << 16) | ((post >> 8) & 0xffff);
}

/// The power-management state that the wake relies on.
#[derive(Clone, Copy, Debug, PartialEq, Eq, Structural)]
pub struct PmSnapshot {
    pub state: u8,
    pub disc: u8,
    pub connected: u8,
    pub iface: u8,
    pub twt_a: u8,
    pub twt_b: u8,
    pub mesh: bool,
    pub osi: u32,
    pub ic: u32,
    pub rf_mask: u8,
    pub mac_sleep_en: u8,
    pub blk: u32,
}

/// The snapshot of an address space.
pub open spec fn snapshot_of(v: MemView, cells: PmCells) -> PmSnapshot {
    PmSnapshot {
        state: cells.u8_in(v, PM_STATE),
        disc: cells.u8_in(v, PM_DISC),
        connected: cells.u8_in(v, PM_CONNECTED),
        iface: cells.u8_in(v, PM_IFACE),
        twt_a: cells.u8_in(v, PM_TWT_A),
        twt_b: cells.u8_in(v, PM_TWT_B),
        mesh: cells.mesh_in(v),
        osi: v.rd32(G_OSI_FUNCS_P),
        ic: v.rd32(G_IC_PTR),
        rf_mask: v.rd8(v.rd32(G_IC_PTR).wrapping_add(IC_RF_PHY_MASK)),
        mac_sleep_en: v.rd8(v.rd32(G_MAC_SLEEP_EN_PTR)),
        blk: v.rd32(PM_TXBLOCK_RETENTION),
    }
}

/// Takes a snapshot of the power-management state.
pub fn snapshot(m: &Mem, cells: PmCells) -> (r: PmSnapshot)
    ensures
        r == snapshot_of(m@, cells),
{
    let ic = rd(m, G_IC_PTR);
    PmSnapshot {
        state: cells.pm_u8(m, PM_STATE),
        disc: cells.pm_u8(m, PM_DISC),
        connected: cells.pm_u8(m, PM_CONNECTED),
        iface: cells.pm_u8(m, PM_IFACE),
        twt_a: cells.pm_u8(m, PM_TWT_A),
        twt_b: cells.pm_u8(m, PM_TWT_B),
        mesh: cells.mesh_started(m),
        osi: rd(m, G_OSI_FUNCS_P),
        ic,
        rf_mask: rd8(m, ic.wrapping_add(IC_RF_PHY_MASK)),
        mac_sleep_en: rd8(m, rd(m, G_MAC_SLEEP_EN_PTR)),
        blk: rd(m, PM_TXBLOCK_RETENTION),
    }
}

} // verus!
