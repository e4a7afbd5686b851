//! The sustained TX loop: rounds of a few frames each, their counters, and what is reported when.
use crate::config::{Config, CONTROL_BEACON, DIAG};
use crate::eb_pool;
use crate::eb_pool::{block_addr, block_cleaned, free_len, PoolView};
use crate::layout::Eb;
use crate::mac_reg::{PM_TXBLOCK_RETENTION, SLOT_ARM};
use crate::mmio::{rd, Mem, MemView};
use crate::pipeline::{faithful_tx, job_begun, Driver, DriverView, Job};
use vstd::prelude::*;

verus! {

/// Frames in a round.
pub const FRAMES_PER_ROUND: u32 = 4;

/// Control beacons at boot.
pub const BOOT_BEACONS: u32 = 10;

/// Control beacons after a round.
pub const BURST_BEACONS: u32 = 6;

/// The loop's counters. They wrap.
#[derive(Clone, Copy, Debug, PartialEq, Eq, Structural)]
pub struct TxLoop {
    /// Finished rounds.
    pub round: u32,
    /// The next frame's sequence number.
    pub seq: u16,
    /// Frames that went through the pipeline.
    pub arms: u32,
    /// Frames after which the arm bits were set.
    pub latched: u32,
    /// Frames whose transmission ended in time.
    pub completed: u32,
    /// Frames for which there was no buffer.
    pub allocfail: u32,
    /// PLCP0_ENABLE after the last frame.
    pub last_plcp0: u32,
}

/// What is to be reported after a round.
#[derive(Clone, Copy, Debug, PartialEq, Eq, Structural)]
pub struct Due {
    /// The power registers.
    pub pwr_dump: bool,
    /// The counters.
    pub health: bool,
    /// The experiment.
    pub experiment: bool,
    /// The number of rounds.
    pub progress: bool,
}

/// The counters for a health report.
#[derive(Clone, Copy, Debug, PartialEq, Eq, Structural)]
pub struct Health {
    pub counters: TxLoop,
    /// Bits 8-23 of the block register before the last wake.
    pub blk_before: u32,
    /// Bits 8-23 of the block register after the last wake.
    pub blk_after: u32,
    /// Free buffers.
    pub pool_free: usize,
    /// The block register.
    pub blk_now: u32,
    /// Completions with a status of 8 or more.
    pub status_rest: u32,
}

/// The wrapping sum of the completions with a status of 8 to `n - 1`.
pub open spec fn status_sum(status: Seq<u32>, n: int) -> u32
    decreases n,
{
    if n <= 8 {
        0
    } else {
        status_sum(status, n - 1).wrapping_add(status[n - 1])
    }
}

fn sum_status(status: &[u32; 16]) -> (r: u32)
    ensures
        r == status_sum(status@, 16),
{
    let mut i: usize = 8;
    let mut s: u32 = 0;
    while i < 16
        invariant
            8 <= i <= 16,
            s == status_sum(status@, i as int),
        decreases 16 - i,
    {
        s = s.wrapping_add(status[i]);
        i = i + 1;
    }
    s
}

/// A frame from the pool: the address space, the driver and the counters after it was taken and its
/// transmission begun, with its buffer, or none if the pool is empty.
pub open spec fn frame_begun(
    v: MemView,
    d: DriverView,
    l: TxLoop,
    payload: Seq<u8>,
) -> (MemView, DriverView, TxLoop, Option<(Eb, Job)>) {
    let free = d.pool.free;
    if free.len() == 0 {
        (v, d, TxLoop { allocfail: l.allocfail.wrapping_add(1), ..l }, None)
    } else {
        let eb = Eb(block_addr(d.pool.base, free.last() as int) as u32);
        let d1 = DriverView {
            pool: PoolView { base: d.pool.base, free: free.drop_last() },
            ..d
        };
        let t = job_begun(block_cleaned(v, eb.0, payload), d1, eb, l.seq);
        (t.0, t.1, l, Some((eb, t.2)))
    }
}

impl TxLoop {
    /// The loop at its start.
    pub fn new() -> (r: TxLoop)
        ensures
            r == (TxLoop {
                round: 0,
                seq: 0,
                arms: 0,
                latched: 0,
                completed: 0,
                allocfail: 0,
                last_plcp0: 0,
            }),
    {
        TxLoop {
            round: 0,
            seq: 0,
            arms: 0,
            latched: 0,
            completed: 0,
            allocfail: 0,
            last_plcp0: 0,
        }
    }

    /// Begins a round: an alternating build wakes through the vendor firmware in every other one.
    /// Returns the number of frames to send.
    pub fn begin_round(&self, d: &mut Driver) -> (r: u32)
        ensures
            final(d)@ == (DriverView {
                ab_use_vendor: if old(d)@.cfg.ab_wake {
                    self.round % 2 == 1
                } else {
                    old(d)@.ab_use_vendor
                },
                ..old(d)@
            }),
            r == (if old(d)@.cfg.tx_mode_control_only {
                0
            } else {
                FRAMES_PER_ROUND
            }),
    {
        if d.cfg.ab_wake {
            d.ab_use_vendor = self.round % 2 == 1;
        }
        if d.cfg.tx_mode_control_only {
            0
        } else {
            FRAMES_PER_ROUND
        }
    }

    /// Takes a buffer for `payload` from the driver's pool and begins to transmit it.
    pub fn begin_frame(&mut self, m: &mut Mem, d: &mut Driver, payload: &[u8]) -> (r: Option<
        (Eb, Job),
    >)
        requires
            old(d)@.pool.wf(),
        ensures
            (final(m)@, final(d)@, *final(self), r) == frame_begun(
                old(m)@,
                old(d)@,
                *old(self),
                payload@,
            ),
            final(d)@.pool.wf(),
    {
        let eb = eb_pool::cr_pool_alloc(&mut d.pool, m, payload);
        if eb.is_null() {
            self.allocfail = self.allocfail.wrapping_add(1);
            return None;
        }
        let job = faithful_tx(m, d, eb, self.seq);
        Some((eb, job))
    }

    /// Counts a frame that went through the pipeline, with the outcome of its submit and the
    /// PLCP0_ENABLE register after it. Says whether its completion is to be awaited: a frame that
    /// was dropped has been given back already.
    pub fn frame_over(&mut self, ret: i32, plcp0: u32) -> (r: bool)
        ensures
            *final(self) == (TxLoop {
                seq: old(self).seq.wrapping_add(1),
                arms: old(self).arms.wrapping_add(1),
                latched: if plcp0 & SLOT_ARM != 0 {
                    old(self).latched.wrapping_add(1)
                } else {
                    old(self).latched
                },
                last_plcp0: plcp0,
                ..*old(self)
            }),
            r == (ret == 0),
    {
        self.seq = self.seq.wrapping_add(1);
        self.arms = self.arms.wrapping_add(1);
        if plcp0 & SLOT_ARM != 0 {
            self.latched = self.latched.wrapping_add(1);
        }
        self.last_plcp0 = plcp0;
        ret == 0
    }

    /// Counts a completion that ended in time or not.
    pub fn frame_completed(&mut self, done: bool)
        ensures
            *final(self) == (TxLoop {
                completed: if done {
                    old(self).completed.wrapping_add(1)
                } else {
                    old(self).completed
                },
                ..*old(self)
            }),
    {
        if done {
            self.completed = self.completed.wrapping_add(1);
        }
    }

    /// Counts a frame for which the vendor firmware's pool had no buffer.
    pub fn no_buffer(&mut self)
        ensures
            *final(self) == (TxLoop {
                allocfail: old(self).allocfail.wrapping_add(1),
                ..*old(self)
            }),
    {
        self.allocfail = self.allocfail.wrapping_add(1);
    }

    /// Ends a round and says what is to be reported: the power registers after 8 rounds, the
    /// counters after every 8, the number of rounds after every 5.
    pub fn end_round(&mut self, cfg: &Config) -> (r: Due)
        ensures
            *final(self) == (TxLoop { round: old(self).round.wrapping_add(1), ..*old(self) }),
            r == ({
                let n = final(self).round;
                Due {
                    pwr_dump: DIAG && n == 8,
                    health: DIAG && n % 8 == 0,
                    experiment: DIAG && n % 8 == 0 && (cfg.pm_wake_experiment != 0
                        || !cfg.control_burst || !cfg.pm_wake_rust),
                    progress: DIAG && n % 5 == 0,
                }
            }),
    {
        self.round = self.round.wrapping_add(1);
        let n = self.round;
        let health = DIAG && n % 8 == 0;
        Due {
            pwr_dump: DIAG && n == 8,
            health,
            experiment: health && (cfg.pm_wake_experiment != 0 || !cfg.control_burst
                || !cfg.pm_wake_rust),
            progress: DIAG && n % 5 == 0,
        }
    }

    /// Gathers the counters for a health report.
    pub fn health(&self, m: &Mem, d: &Driver) -> (r: Health)
        ensures
            r == (Health {
                counters: *self,
                blk_before: d@.pm.blk >> 16,
                blk_after: d@.pm.blk & 0xffff,
                pool_free: d@.pool.free.len() as usize,
                blk_now: m@.rd32(PM_TXBLOCK_RETENTION),
                status_rest: status_sum(d@.status, 16),
            }),
    {
        Health {
            counters: *self,
            blk_before: d.pm.blk >> 16,
            blk_after: d.pm.blk & 0xffff,
            pool_free: free_len(&d.pool),
            blk_now: rd(m, PM_TXBLOCK_RETENTION),
            status_rest: sum_status(&d.status),
        }
    }
}

/// The number of control beacons after a round.
pub fn burst_beacons(cfg: &Config) -> (r: u32)
    ensures
        r == (if CONTROL_BEACON && cfg.control_burst {
            BURST_BEACONS
        } else {
            0
        }),
{
    if CONTROL_BEACON && cfg.control_burst {
        BURST_BEACONS
    } else {
        0
    }
}

/// The number of control beacons at boot.
pub fn boot_beacons() -> (r: u32)
    ensures
        r == (if CONTROL_BEACON {
            BOOT_BEACONS
        } else {
            0
        }),
{
    if CONTROL_BEACON {
        BOOT_BEACONS
    } else {
        0
    }
}

/// Whether the interposed build reports its beacon `n`: every twentieth.
pub fn interposed_report_due(n: u32) -> (r: bool)
    ensures
        r == (n % 20 == 0),
{
    n % 20 == 0
}

/// A round has four frames; ten control beacons go out at boot and six after a round that has them. The
/// first backoff is drawn from 0x12345678, and a completion is looked for 4000 times.
pub proof fn loop_numbers()
    ensures
        FRAMES_PER_ROUND == 4,
        BOOT_BEACONS == 10,
        BURST_BEACONS == 6,
        CONTROL_BEACON,
        DIAG,
        crate::pipeline::RNG_SEED == 0x1234_5678,
        crate::pipeline::COMPLETE_POLLS == 4000,
{
}

/// A frame is begun with the block that was freed last, 0x2c0 times its number above the pool's base. It
/// is taken off the free ones, cleaned with the payload in it, and its transmission begun with the
/// loop's sequence number, which stays until the frame is over. Without a free block the frame is
/// counted as failed, and nothing else happens.
pub proof fn frames_are_begun_in_fresh_blocks(v: MemView, d: DriverView, l: TxLoop, payload: Seq<u8>)
    ensures
        ({
            let free = d.pool.free;
            let t = frame_begun(v, d, l, payload);
            &&& free.len() == 0 ==> {
                &&& t.0 == v && t.1 == d && t.3 is None
                &&& t.2 == (TxLoop { allocfail: l.allocfail.wrapping_add(1), ..l })
            }
            &&& free.len() > 0 ==> {
                let b = (d.pool.base + free[free.len() - 1] * 0x2c0) as u32;
                let rest = PoolView { base: d.pool.base, free: free.take(free.len() - 1) };
                let u = job_begun(
                    block_cleaned(v, b, payload),
                    DriverView { pool: rest, ..d },
                    Eb(b),
                    l.seq,
                );
                &&& t.0 == u.0 && t.1 == u.1 && t.2 == l
                &&& t.3 == Some((Eb(b), u.2))
            }
        }),
{
    let free = d.pool.free;
    if free.len() > 0 {
        assert(free.drop_last() =~= free.take(free.len() - 1));
    }
}

/// The completions of status 8 and above are summed modulo 2^32.
pub proof fn high_statuses_are_summed(status: Seq<u32>)
    requires
        status.len() == 16,
    ensures
        status_sum(status, 16) == (status[8] + status[9] + status[10] + status[11] + status[12]
            + status[13] + status[14] + status[15]) % 0x1_0000_0000,
{
    reveal_with_fuel(status_sum, 9);
}

} // verus!
