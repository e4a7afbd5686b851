//! The per-AC pending lists: enqueue at the tail, pop at the head.
use crate::layout::{Eb, PendingQ};
use crate::mmio::{apart, wr, Mem, MemView};
use vstd::prelude::*;

verus! {

/// The address space after an eb has been linked to the end of a pending list.
pub open spec fn appended(v: MemView, q: PendingQ, eb: Eb) -> MemView {
    let v1 = eb.with_pending_next(v, 0);
    let v2 = v1.st32(q.tail_in(v1), eb.0);
    q.with_tail(v2, eb.0.wrapping_add(Eb::PENDING_NEXT))
}

/// Links an eb to the end of a pending list.
pub fn append(m: &mut Mem, q: PendingQ, eb: Eb)
    ensures
        final(m)@ == appended(old(m)@, q, eb),
{
    eb.set_pending_next(m, 0);
    let tail = q.tail(m);
    wr(m, tail, eb.0);
    q.set_tail(m, eb.pending_next_addr());
}

/// A pending list may be popped.
pub open spec fn poppable(v: MemView, q: PendingQ) -> bool {
    q.guard_byte_in(v) == 0 && q.guard_word_in(v) == 0
}

/// The address space after the head of a pending list has been unlinked.
pub open spec fn unlinked(v: MemView, q: PendingQ) -> MemView {
    let head = Eb(q.head_in(v));
    let next = head.pending_next_in(v);
    let v1 = q.with_head(v, next);
    let v2 = if next == 0 {
        q.with_tail(v1, q.0.wrapping_add(PendingQ::HEAD))
    } else {
        v1
    };
    head.with_pending_next(v2, 0)
}

/// A pop: the address space after it and the eb that it gives, which is null for an empty or guarded
/// list.
pub open spec fn popped(v: MemView, q: PendingQ) -> (MemView, Eb) {
    if poppable(v, q) && q.head_in(v) != 0 {
        (unlinked(v, q), Eb(q.head_in(v)))
    } else {
        (v, Eb(0))
    }
}

/// Pops the head of the pending list of `ac`.
#[allow(non_snake_case)]
pub fn cr_ppGetTxframe(m: &mut Mem, ac: i32) -> (r: Eb)
    ensures
        (final(m)@, r) == popped(old(m)@, PendingQ::of_ac(old(m)@, ac as u32)),
{
    let q = PendingQ::for_ac(m, ac as u32);
    if q.guard_byte(m) == 0 && q.guard_word(m) == 0 {
        let head = Eb(q.head(m));
        if !head.is_null() {
            let next = head.pending_next(m);
            q.set_head(m, next);
            if next == 0 {
                q.set_tail(m, q.head_addr());
            }
            head.set_pending_next(m, 0);
            return head;
        }
    }
    Eb(0)
}

/// The address of an eb's link.
pub open spec fn link_addr(eb: u32) -> u32 {
    eb.wrapping_add(Eb::PENDING_NEXT)
}

/// The pending list `q` holds the ebs of `s`, first one first.
pub open spec fn holds(v: MemView, q: PendingQ, s: Seq<u32>) -> bool {
    &&& q.head_in(v) == (if s.len() == 0 {
        0
    } else {
        s[0]
    })
    &&& q.tail_in(v) == (if s.len() == 0 {
        q.0.wrapping_add(PendingQ::HEAD)
    } else {
        link_addr(s.last())
    })
    &&& forall|i: int|
        0 <= i < s.len() ==> #[trigger] s[i] != 0 && v.rd32(link_addr(s[i])) == (if i + 1
            < s.len() {
            s[i + 1]
        } else {
            0
        })
}

/// The links of the ebs of `s` overlap neither each other nor the fields of `q`.
pub open spec fn links_apart(q: PendingQ, s: Seq<u32>) -> bool {
    &&& forall|i: int|
        0 <= i < s.len() ==> {
            &&& apart(link_addr(#[trigger] s[i]), 4, q.0.wrapping_add(PendingQ::HEAD), 8)
            &&& apart(link_addr(s[i]), 4, q.0.wrapping_add(PendingQ::GUARD_BYTE), 1)
            &&& apart(link_addr(s[i]), 4, q.0.wrapping_add(PendingQ::GUARD_WORD), 4)
        }
    &&& forall|i: int, j: int|
        0 <= i < j < s.len() ==> apart(link_addr(#[trigger] s[i]), 4, link_addr(#[trigger] s[j]), 4)
}

/// An enqueued eb comes after all those that are pending already, and the guards stay as they are.
pub proof fn append_adds_at_the_end(v: MemView, q: PendingQ, s: Seq<u32>, eb: Eb)
    requires
        holds(v, q, s),
        links_apart(q, s.push(eb.0)),
        eb.0 != 0,
    ensures
        holds(appended(v, q, eb), q, s.push(eb.0)),
        poppable(appended(v, q, eb), q) == poppable(v, q),
{
    broadcast use crate::mem_laws::group_loads;

    let t = s.push(eb.0);
    let n = s.len() as int;
    let v1 = eb.with_pending_next(v, 0);
    let v2 = v1.st32(q.tail_in(v1), eb.0);
    let v3 = appended(v, q, eb);
    assert(t[n] == eb.0);
    assert(q.tail_in(v1) == q.tail_in(v));
    if n > 0 {
        assert(t[n - 1] == s.last());
        assert(t[0] == s[0]);
    }
    assert forall|i: int| 0 <= i < t.len() implies #[trigger] t[i] != 0 && v3.rd32(link_addr(t[i]))
        == (if i + 1 < t.len() {
        t[i + 1]
    } else {
        0
    }) by {
        if i < n {
            assert(t[i] == s[i]);
            if i + 1 < n {
                assert(t[i + 1] == s[i + 1]);
            }
        }
    }
}

/// A pop gives the eb that has been pending longest and leaves the others in their order, and the
/// guards as they are.
pub proof fn pop_takes_the_first(v: MemView, q: PendingQ, s: Seq<u32>)
    requires
        holds(v, q, s),
        links_apart(q, s),
        poppable(v, q),
        s.len() > 0,
    ensures
        popped(v, q).1 == Eb(s[0]),
        holds(popped(v, q).0, q, s.drop_first()),
        poppable(popped(v, q).0, q),
{
    broadcast use crate::mem_laws::group_loads;

    let t = s.drop_first();
    let n = s.len() as int;
    let w = popped(v, q).0;
    assert(s[0] != 0);
    if n > 1 {
        assert(s[1] != 0);
        assert(t[0] == s[1]);
        assert(t.last() == s.last());
    }
    assert forall|i: int| 0 <= i < t.len() implies #[trigger] t[i] != 0 && w.rd32(link_addr(t[i]))
        == (if i + 1 < t.len() {
        t[i + 1]
    } else {
        0
    }) by {
        assert(t[i] == s[i + 1]);
        if i + 1 < t.len() {
            assert(t[i + 1] == s[i + 2]);
        }
    }
}

/// A pop of an empty or guarded list gives the null eb and changes nothing.
pub proof fn pop_of_nothing(v: MemView, q: PendingQ)
    requires
        holds(v, q, Seq::empty()) || !poppable(v, q),
    ensures
        popped(v, q) == (v, Eb(0)),
{
}

/// What was enqueued onto an empty list is what the next pop gives, and the list is empty again.
pub proof fn pop_undoes_append(v: MemView, q: PendingQ, eb: Eb)
    requires
        holds(v, q, Seq::empty()),
        poppable(v, q),
        links_apart(q, seq![eb.0]),
        eb.0 != 0,
    ensures
        popped(appended(v, q, eb), q).1 == eb,
        holds(popped(appended(v, q, eb), q).0, q, Seq::empty()),
        poppable(popped(appended(v, q, eb), q).0, q),
{
    let s = Seq::<u32>::empty().push(eb.0);
    assert(s =~= seq![eb.0]);
    append_adds_at_the_end(v, q, Seq::empty(), eb);
    pop_takes_the_first(appended(v, q, eb), q, s);
    assert(s.drop_first() =~= Seq::<u32>::empty());
}

} // verus!
