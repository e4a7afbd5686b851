//! What holds of the TX pipeline as a whole.
use crate::frame::{interface_enabled, proto_marked, raw_set_up, sec_processed};
use crate::hal_mac_tx::{
    is_trigger_based, ppdu_begun, ppdu_head, ppdu_resumed, status_byte, Ppdu,
};
use crate::layout::{if_mask_of, instances_of, Eb, LmacTxq, PendingQ, TxInfo};
use crate::mac_reg::{conf_addr, slot_addr, PLCP0_ENABLE, PMD, SLOT_ARM};
use crate::mmio::{apart, MemView, Store};
use crate::pending::popped;
use crate::pipeline::{
    arm_begun, arm_resumed, armed, backoff_of, completed, completion_status, frame_taken,
    has_control_block, job_begun, job_resumed, mapped, schedule_begun, submit_begun, submit_resumed,
    xorshift, Arm, DriverView, Job, Submit, TIMEOUT_FLOOR,
};
use crate::pm_wake::Wake;
use crate::pool_laws::{next_block, recycle_undoes_alloc, taken};
use crate::slot::{edca_set, len_set, timeout_set, txop_first_fill, txop_next_fill};
use crate::slot_laws::{fills_left, txop_walk_ends};
use crate::wake_laws::{wake_ends, wake_steps};
use vstd::prelude::*;

verus! {

proof fn lemma_backoff_bits(r: u32, k: u32, i: u32)
    by (bit_vector)
    requires
        k < 32,
        i < 16,
    ensures
        ({
            let b = (!(0xffff_ffffu32 << k) & r) as u16;
            &&& ((b as u32) >> i) & 1 == (if i < k {
                (r >> i) & 1
            } else {
                0u32
            })
            &&& (b as u32) < 1u32 << k
            &&& k >= 16 || r < 1u32 << k ==> b == r as u16
            &&& k == 0 ==> b == 0
        }),
{
}

/// The backoff lies in the contention window, below two to the exponent (modulo 32), and every number
/// in the window that fits 16 bits is the backoff of some draw: of itself.
pub proof fn backoff_is_in_the_window(r: u32, cw: u8)
    ensures
        (backoff_of(r, cw) as u32) < 1u32 << (cw as u32 & 0x1f),
        r < 0x1_0000 && r < 1u32 << (cw as u32 & 0x1f) ==> backoff_of(r, cw) == r,
{
    crate::bits::low_bits(cw as u32);
    lemma_backoff_bits(r, cw as u32 & 0x1f, 0);
}

/// Two draws that agree in their low bits, as many as the exponent says, give the same backoff; two
/// that differ in one of these, up to bit 15, give different ones. Each such bit of the backoff is that
/// of the draw, and the others are 0.
pub proof fn backoff_bits_are_the_draws(r: u32, cw: u8, i: u32)
    requires
        i < 16,
    ensures
        i < cw % 32 ==> ((backoff_of(r, cw) as u32) >> i) & 1 == (r >> i) & 1,
        i >= cw % 32 ==> ((backoff_of(r, cw) as u32) >> i) & 1 == 0,
{
    crate::bits::low_bits(cw as u32);
    lemma_backoff_bits(r, cw as u32 & 0x1f, i);
}

/// The backoff generator never gets stuck at zero, no two states lead to the same one, and the step
/// of a sum (bit by bit) is the sum of the steps.
pub proof fn generator_does_not_collapse(x: u32, y: u32)
    ensures
        x != 0 ==> xorshift(x) != 0,
        xorshift(x) == xorshift(y) ==> x == y,
        xorshift(x ^ y) == xorshift(x) ^ xorshift(y),
        exists|a: u32, b: u32|
            #![trigger a ^ x, b ^ a]
            a ^ x == x << 13 && b ^ a == a >> 17 && xorshift(x) ^ b == b << 5,
{
    let a = x ^ (x << 13);
    let b = a ^ (a >> 17);
    assert((x != 0 ==> xorshift(x) != 0) && (xorshift(x) == xorshift(y) ==> x == y) && xorshift(
        x ^ y,
    ) == xorshift(x) ^ xorshift(y) && a ^ x == x << 13 && b ^ a == a >> 17 && xorshift(x) ^ b == b
        << 5) by (bit_vector)
        requires
            a == x ^ (x << 13),
            b == a ^ (a >> 17),
    ;
}

/// The control block of a slot and what the arm reads of its frame lie in RAM, apart from each other.
pub open spec fn ready_to_arm(v: MemView, txq: LmacTxq) -> bool {
    let eb = txq.cur_eb_in(v);
    &&& crate::slot_laws::armed_in_ram(v, txq)
    &&& apart(txq.0, 0x10, eb.0.wrapping_add(Eb::TXINFO), 4)
    &&& apart(txq.0, 0x10, eb.txinfo_in(v).0.wrapping_add(TxInfo::WORD10), 4)
}

/// An arm draws the next random number, puts its low bits, as many as the contention-window exponent
/// (modulo 32) says, into the control block's backoff and the low ten of these into CONF1 bits 12-21,
/// beside AIFSN (bits 24-27) and interface (bit 22), and sets both arm bits. The rest of CONF1's top and
/// bottom, of PLCP0_ENABLE and of the memory stays as it was, and so does the driver but for the drawn
/// number.
pub proof fn arm_takes_the_drawn_backoff(v: MemView, d: DriverView, txq: LmacTxq, i: u32, a: u32)
    requires
        ready_to_arm(v, txq),
        i < 16,
    ensures
        ({
            let t = armed(v, d, txq);
            let s = txq.slot_in(v);
            let drawn = t.1.rng;
            let b = t.0.rd16(txq.0.wrapping_add(6));
            let conf1 = (0x600a_4d68 - 0x10 * s) as u32;
            let plcp0 = (0x600a_4d6c - 0x10 * s) as u32;
            let c = t.0.rd32(conf1);
            &&& i < v.rd8(txq.0.wrapping_add(8)) % 32 ==> ((b as u32) >> i) & 1 == (drawn >> i) & 1
            &&& i >= v.rd8(txq.0.wrapping_add(8)) % 32 ==> ((b as u32) >> i) & 1 == 0
            &&& (c >> 12) & 0x3ff == b & 0x3ff
            &&& (c >> 24) & 0xf == v.rd8(txq.0.wrapping_add(5)) & 0xf
            &&& (c >> 22) & 3 == txq.cur_eb_in(v).txinfo_in(v).iface_in(v)
            &&& c & 0xf000_0fff == v.rd32(conf1) & 0xf000_0fff
            &&& t.0.rd32(plcp0) == v.rd32(plcp0) | 0xc000_0000
            &&& t.1 == (DriverView { rng: drawn, ..d })
            &&& drawn == xorshift(d.rng)
            &&& t.0.log.len() == v.log.len() + 5
            &&& apart(txq.0.wrapping_add(6), 2, a, 1) && apart(conf1, 8, a, 1) ==> t.0.rd8(a)
                == v.rd8(a)
        }),
{
    broadcast use {crate::mem_laws::group_loads, crate::mem_laws::group_log};

    let s = txq.slot_in(v);
    let drawn = xorshift(d.rng);
    let b = backoff_of(drawn, txq.cw_in(v));
    let v1 = txq.with_backoff(v, b);
    crate::mac_reg::register_map(s);
    backoff_bits_are_the_draws(drawn, txq.cw_in(v), i);
    assert(txq.slot_in(v1) == s && txq.cur_eb_in(v1) == txq.cur_eb_in(v));
    assert(txq.cur_eb_in(v1).txinfo_in(v1) == txq.cur_eb_in(v).txinfo_in(v));
    assert(crate::slot_laws::armed_in_ram(v1, txq));
    crate::slot_laws::edca_register(v1, txq);
    crate::slot_laws::steps_keep_other_registers(
        v1,
        txq,
        0,
        0,
        conf_addr(PLCP0_ENABLE, s),
    );
    crate::slot_laws::steps_store_only_to_their_registers(v1, txq, 0, 0, a);
    crate::slot_laws::steps_count_their_stores(v1, txq, 0, 0);
    let v2 = edca_set(v1, txq);
    assert(txq.backoff_in(v2) == b);
    assert(txq.slot_in(v2) == s);
    crate::bits::low_bits(txq.cur_eb_in(v).txinfo_in(v).word10_in(v) >> 0x13);
    lemma_conf1_fields(
        v.rd32(conf_addr(crate::mac_reg::CONF1, s)),
        txq.aifsn_in(v),
        txq.cur_eb_in(v).txinfo_in(v).iface_in(v),
        b,
    );
}

proof fn lemma_conf1_fields(w: u32, aifsn: u8, iface: u32, b: u16)
    by (bit_vector)
    requires
        iface <= 1,
    ensures
        ({
            let c = (w & 0xf000_0fff) | (((aifsn & 0xf) as u32) << 24) | (iface << 22) | (((b & 0x3ff)
                as u32) << 12);
            &&& (c >> 12) & 0x3ff == (b & 0x3ff) as u32
            &&& (c >> 24) & 0xf == (aifsn & 0xf) as u32
            &&& (c >> 22) & 3 == iface
            &&& c & 0xf000_0fff == w & 0xf000_0fff
        }),
{
}

/// A frame of a disabled interface is dropped at once: it is given back and nothing is stored.
pub proof fn disabled_interface_drops(v: MemView, d: DriverView, eb: Eb)
    requires
        interface_enabled(if_mask_of(v), eb.txinfo_in(v).iface_in(v)) == 0,
    ensures
        submit_begun(v, d, eb) == (v, d.recycled(eb), Submit::Done { ret: 1 }),
{
    reveal(submit_begun);
}

/// The eb that a submit is about.
pub open spec fn submitted(s: Submit, eb: Eb) -> bool {
    match s {
        Submit::Done { ret } => false,
        Submit::VendorSecFrame { eb: e } => e == eb,
        Submit::Wake { eb: e, pre, wake } => e == eb,
    }
}

/// A buffer has one owner: a submit gives it back exactly when it drops the frame, and is the
/// frame's owner until then; a frame that is enqueued or still under way is not given back.
pub proof fn submit_gives_back_only_what_it_drops(
    v: MemView,
    d: DriverView,
    eb: Eb,
    s: Submit,
    reply: u64,
)
    requires
        submitted(s, eb),
    ensures
        ({
            let t = submit_begun(v, d, eb);
            let u = submit_resumed(v, d, s, reply);
            &&& t.2 == (Submit::Done { ret: 1 }) ==> t.1.pool == d.recycled(eb).pool
            &&& t.2 != (Submit::Done { ret: 1 }) ==> t.1.pool == d.pool
            &&& t.2 == (Submit::Done { ret: 0 }) || t.2 == (Submit::Done { ret: 1 }) || submitted(
                t.2,
                eb,
            )
            &&& u.2 == (Submit::Done { ret: 1 }) ==> u.1.pool == d.recycled(eb).pool
            &&& u.2 != (Submit::Done { ret: 1 }) ==> u.1.pool == d.pool
            &&& u.2 == (Submit::Done { ret: 0 }) || u.2 == (Submit::Done { ret: 1 }) || submitted(
                u.2,
                eb,
            )
        }),
{
    reveal(submit_begun);
    reveal(submit_resumed);
}

/// The job is about `eb`: its submit is, or is over with one of the two outcomes.
pub open spec fn job_of(j: Job, eb: Eb) -> bool {
    match j {
        Job::Submit { txinfo, s } => match s {
            Submit::Done { ret } => ret == 0 || ret == 1,
            _ => submitted(s, eb),
        },
        Job::Arm { before, a } => before.ret == 0 || before.ret == 1,
        Job::Over { before } => before.ret == 0 || before.ret == 1,
    }
}

/// The submit of the job is over.
pub open spec fn submit_over(j: Job) -> bool {
    match j {
        Job::Submit { txinfo, s } => s is Done,
        _ => true,
    }
}

/// The submit of the job has dropped the frame.
pub open spec fn dropped(j: Job) -> bool {
    match j {
        Job::Submit { txinfo, s } => s == (Submit::Done { ret: 1 }),
        Job::Arm { before, a } => before.ret == 1,
        Job::Over { before } => before.ret == 1,
    }
}

/// A job gives its buffer back in the step in which its submit drops the frame, and in no other step
/// does the pool change. Once the submit is over, its outcome stays.
pub proof fn job_gives_back_only_what_it_drops(
    v: MemView,
    d: DriverView,
    eb: Eb,
    seq: u16,
    j: Job,
    reply: u64,
)
    requires
        job_of(j, eb),
    ensures
        ({
            let t = job_begun(v, d, eb, seq);
            &&& job_of(t.2, eb)
            &&& t.1.pool == (if dropped(t.2) {
                d.recycled(eb).pool
            } else {
                d.pool
            })
            &&& t.1.cfg == d.cfg
        }),
        ({
            let t = job_resumed(v, d, j, reply);
            &&& job_of(t.2, eb)
            &&& t.1.pool == (if dropped(t.2) && !dropped(j) {
                d.recycled(eb).pool
            } else {
                d.pool
            })
            &&& submit_over(j) ==> submit_over(t.2) && dropped(t.2) == dropped(j)
            &&& t.1.cfg == d.cfg
        }),
{
    reveal(submit_begun);
    reveal(submit_resumed);
    reveal(schedule_begun);
    reveal(arm_begun);
    reveal(arm_resumed);
}

/// The address space as outside work leaves it, and the reply.
pub struct Outside {
    pub mem: MemView,
    pub reply: u64,
}

/// A job with the outside work of its stops.
pub open spec fn job_run(v: MemView, d: DriverView, j: Job, work: Seq<Outside>) -> (
    MemView,
    DriverView,
    Job,
)
    decreases work.len(),
{
    if j is Over || work.len() == 0 {
        (v, d, j)
    } else {
        let t = job_resumed(work[0].mem, d, j, work[0].reply);
        job_run(t.0, t.1, t.2, work.drop_first())
    }
}

/// The transmission of `eb` from its start.
pub open spec fn transmitted(v: MemView, d: DriverView, eb: Eb, seq: u16, work: Seq<Outside>) -> (
    MemView,
    DriverView,
    Job,
) {
    let t = job_begun(v, d, eb, seq);
    job_run(t.0, t.1, t.2, work)
}

proof fn lemma_run_gives_back(
    v: MemView,
    d: DriverView,
    eb: Eb,
    j: Job,
    work: Seq<Outside>,
)
    requires
        job_of(j, eb),
    ensures
        ({
            let t = job_run(v, d, j, work);
            &&& job_of(t.2, eb)
            &&& t.1.pool == (if dropped(t.2) && !dropped(j) {
                d.recycled(eb).pool
            } else {
                d.pool
            })
            &&& dropped(j) ==> dropped(t.2)
            &&& t.1.cfg == d.cfg
        }),
    decreases work.len(),
{
    if !(j is Over) && work.len() > 0 {
        let o = work[0];
        job_gives_back_only_what_it_drops(o.mem, d, eb, 0, j, o.reply);
        let t = job_resumed(o.mem, d, j, o.reply);
        lemma_run_gives_back(t.0, t.1, eb, t.2, work.drop_first());
    }
}

/// Every buffer comes back once. Whatever the outside work of a transmission does, the block that was
/// taken for it is back in the pool exactly from the drop of the frame on. So when the transmission is
/// over, the block of a dropped frame is back and that of any other frame is still taken, and then it
/// is the completion that gives it back: either way the pool ends up as it was before the block was
/// taken.
pub proof fn every_buffer_comes_back_once(
    v: MemView,
    d: DriverView,
    seq: u16,
    work: Seq<Outside>,
    status: u8,
)
    requires
        d.pool.wf(),
        d.pool.free.len() > 0,
        d.cfg.cr_pool_enabled,
    ensures
        ({
            let eb = next_block(d.pool);
            let t = transmitted(v, DriverView { pool: taken(d.pool), ..d }, eb, seq, work);
            &&& t.1.pool == (if dropped(t.2) {
                d.pool
            } else {
                taken(d.pool)
            })
            &&& t.2 matches Job::Over { before } ==> {
                &&& before.ret == 0 || before.ret == 1
                &&& before.ret == 1 ==> t.1.pool == d.pool
                &&& before.ret == 0 ==> t.1.pool == taken(d.pool) && completed(
                    t.1,
                    status,
                    eb,
                ).pool == d.pool
            }
        }),
{
    let eb = next_block(d.pool);
    let during = DriverView { pool: taken(d.pool), ..d };
    recycle_undoes_alloc(d.pool);
    let t = job_begun(v, during, eb, seq);
    job_gives_back_only_what_it_drops(
        v,
        during,
        eb,
        seq,
        Job::Submit { txinfo: TxInfo(0), s: Submit::Done { ret: 0 } },
        0,
    );
    lemma_run_gives_back(t.0, t.1, eb, t.2, work);
}

/// The arm bits are the last thing that an arm stores, and both are set.
pub proof fn arm_bits_come_last(v: MemView, d: DriverView, txq: LmacTxq)
    ensures
        ({
            let w = armed(v, d, txq).0;
            &&& w.log.len() > 0
            &&& w.log.last() matches Store::Word { addr, val }
            &&& val & SLOT_ARM == SLOT_ARM
            &&& w.rd32(addr) == val
        }),
{
    broadcast use {crate::mem_laws::group_loads, crate::mem_laws::group_log};

    let r = xorshift(d.rng);
    let v1 = edca_set(txq.with_backoff(v, backoff_of(r, txq.cw_in(v))), txq);
    let a = conf_addr(PLCP0_ENABLE, txq.slot_in(v1));
    crate::slot_laws::lemma_arm_bits(v1.rd32(a));
}

proof fn lemma_status_bits(w: u32)
    ensures
        (status_byte(w) >> 4) & 0xf == ((w >> 12) & 0xf) as u8,
{
    assert((((((w >> 0xc) & 0xf) as u8) << 4 | (((w >> 8) & 0xf) as u8)) >> 4) & 0xf == ((w >> 12)
        & 0xf) as u8) by (bit_vector);
}

/// Unless the transmission was trigger based, the completion status is bits 12-15 of PMD.
pub proof fn completion_status_is_in_pmd(v: MemView, ac: i32)
    requires
        !is_trigger_based(v, has_control_block(v, ac), ac as u32, true),
    ensures
        completion_status(v, ac) == ((v.rd32(slot_addr(PMD, ac as u32)) >> 12) & 0xf) as u8,
{
    lemma_status_bits(v.rd32(slot_addr(PMD, ac as u32)));
}

/// The positions of a PPDU build's walk over an aggregate are bytes, as the control block holds them.
pub open spec fn ppdu_valid(p: Ppdu) -> bool {
    p matches Ppdu::Txop { fill, txinfo, slot, power } ==> fill.idx <= 0xff && fill.count <= 0xff
}

/// The same of a job.
pub open spec fn job_valid(j: Job) -> bool {
    j matches Job::Arm { before, a: Arm::Ppdu { txq, p } } ==> ppdu_valid(p)
}

/// The number of stops that a PPDU build can still make.
pub open spec fn ppdu_steps(p: Ppdu) -> int {
    match p {
        Ppdu::Done => 0,
        Ppdu::HeSig { eb, slot, power } => 1,
        Ppdu::HtSig { eb, slot, power } => 1,
        Ppdu::Txop { fill, txinfo, slot, power } => fills_left(fill) + 1,
    }
}

/// The number of stops that a submit can still make.
pub open spec fn submit_steps(s: Submit) -> int {
    match s {
        Submit::Done { ret } => 0,
        Submit::Wake { eb, pre, wake } => wake_steps(wake) as int + 1,
        Submit::VendorSecFrame { eb } => 11,
    }
}

/// The number of stops that a job can still make.
pub open spec fn job_steps(j: Job) -> int {
    match j {
        Job::Over { before } => 0,
        Job::Arm { before, a } => match a {
            Arm::Armed => 1,
            Arm::Ppdu { txq, p } => 1 + ppdu_steps(p),
        },
        Job::Submit { txinfo, s } => 258 + submit_steps(s),
    }
}

proof fn lemma_ppdu_begins(v: MemView, txq: LmacTxq, instances: u32)
    ensures
        ({
            let p = ppdu_begun(v, txq, instances).1;
            ppdu_valid(p) && ppdu_steps(p) <= 256
        }),
{
    let v3 = len_set(ppdu_head(v, txq), txq, instances);
    if let Some(f) = txop_first_fill(v3, txq) {
        txop_walk_ends(v3, txq, f);
    }
}

proof fn lemma_ppdu_goes_on(v: MemView, txq: LmacTxq, p: Ppdu)
    requires
        ppdu_valid(p),
    ensures
        ({
            let q = ppdu_resumed(v, txq, p).1;
            &&& ppdu_valid(q)
            &&& q == Ppdu::Done || ppdu_steps(q) < ppdu_steps(p)
            &&& 0 <= ppdu_steps(q) <= 256
        }),
{
    if let Ppdu::Txop { fill, txinfo, slot, power } = p {
        txop_walk_ends(v, txq, fill);
        if let Some(g) = txop_next_fill(v, txq, fill) {
            txop_walk_ends(v, txq, g);
        }
    }
}

/// A transmission ends: each time it is resumed it has fewer stops left, whatever the outside work
/// replies, and it makes fewer than 270 in all.
#[verifier::rlimit(60)]
pub proof fn transmission_ends(
    v: MemView,
    d: DriverView,
    j: Job,
    reply: u64,
    eb: Eb,
    seq: u16,
)
    requires
        job_valid(j),
    ensures
        ({
            let k = job_resumed(v, d, j, reply).2;
            &&& job_valid(k)
            &&& j !is Over ==> job_steps(k) < job_steps(j)
            &&& job_steps(j) >= 0
        }),
        ({
            let k = job_begun(v, d, eb, seq).2;
            job_valid(k) && job_steps(k) < 270
        }),
{
    reveal(submit_begun);
    reveal(submit_resumed);
    reveal(schedule_begun);
    reveal(arm_begun);
    reveal(arm_resumed);
    match j {
        Job::Submit { txinfo, s } => {
            match s {
                Submit::Done { ret } => {
                    let ac = txinfo.ac_in(v);
                    let txq = LmacTxq::block(instances_of(v), ac);
                    let p = popped(v, PendingQ::of_ac(v, ac));
                    let txq1 = LmacTxq::block(instances_of(p.0), ac);
                    let v2 = frame_taken(p.0, d.mib, txq1, p.1);
                    lemma_ppdu_begins(
                        timeout_set(v2, txq1, TIMEOUT_FLOOR),
                        txq1,
                        instances_of(v2),
                    );
                },
                Submit::Wake { eb: e, pre, wake } => {
                    wake_ends(v, d.pm, d.cells, d.cfg.pm_wake_experiment, wake, reply, 0);
                },
                Submit::VendorSecFrame { eb: e } => {
                    lemma_wake_after_map(v, d, e);
                },
            }
        },
        Job::Arm { before, a } => {
            if let Arm::Ppdu { txq, p } = a {
                lemma_ppdu_goes_on(v, txq, p);
                if let Ppdu::Txop { fill, txinfo, slot, power } = p {
                    txop_walk_ends(v, txq, fill);
                }
            }
        },
        Job::Over { before } => {},
    }
    let v1 = proto_marked(raw_set_up(v, eb, seq), eb);
    lemma_wake_after_map(sec_processed(v1, eb), d, eb);
}

proof fn lemma_run_ends(v: MemView, d: DriverView, j: Job, work: Seq<Outside>)
    requires
        job_valid(j),
        job_steps(j) <= work.len(),
    ensures
        job_run(v, d, j, work).2 is Over,
    decreases work.len(),
{
    if !(j is Over) {
        transmission_ends(v, d, j, 0, Eb(0), 0);
        if work.len() > 0 {
            let o = work[0];
            transmission_ends(o.mem, d, j, o.reply, Eb(0), 0);
            let t = job_resumed(o.mem, d, j, o.reply);
            lemma_run_ends(t.0, t.1, t.2, work.drop_first());
        }
    }
}

/// A transmission is over after at most 269 stops.
pub proof fn transmission_is_over(
    v: MemView,
    d: DriverView,
    eb: Eb,
    seq: u16,
    work: Seq<Outside>,
)
    requires
        work.len() >= 269,
    ensures
        transmitted(v, d, eb, seq, work).2 is Over,
{
    let t = job_begun(v, d, eb, seq);
    transmission_ends(v, d, t.2, 0, eb, seq);
    lemma_run_ends(t.0, t.1, t.2, work);
}

proof fn lemma_wake_after_map(v: MemView, d: DriverView, eb: Eb)
    ensures
        mapped(v, d, eb).2 matches Some((pre, wake)) ==> wake_steps(wake) <= 9,
{
    let ti = eb.txinfo_in(v);
    let iface = ti.iface_in(v);
    let v1 = ti.with_cat(v, 7);
    let v2 = ti.with_word10(
        v1,
        (ti.word10_in(v1) & TxInfo::WORD10_AC_CLEAR) | (iface << TxInfo::WORD10_AC_SHIFT),
    );
    wake_ends(v2, d.pm, d.cells, d.cfg.pm_wake_experiment, Wake::Done, 0, iface);
}

} // verus!
