//! What holds of every state the lock can reach: the invariant is set up by
//! a fresh lock and kept by every action, and mutual exclusion and the
//! hand-over rules follow from it.
use vstd::prelude::*;
use crate::model::{in_critical_section, in_queue, LockModel, Node, Phase, Slot};

verus! {

/// A lock with no participants and an empty tail satisfies the invariant.
pub proof fn lemma_fresh_lock_inv()
    ensures
        (LockModel { tail: Slot::Empty, nodes: Seq::empty(), phases: Seq::empty() }).inv(),
{
}

/// A participant joining keeps the invariant, and an idle lock idle.
pub proof fn lemma_join_keeps_inv(m: LockModel, node: Node)
    requires
        m.inv(),
        m.len() < usize::MAX,
    ensures
        m.join(node).inv(),
        m.idle() ==> m.join(node).idle(),
{
    let m2 = m.join(node);
    assert forall|i: int| 0 <= i < m.len() implies m2.phases[i] == m.phases[i] && m2.nodes[i]
        == m.nodes[i] && m2.has_token(i) == m.has_token(i) by {}
    assert(!m2.has_token(m.len()));
}

proof fn lemma_begin_lock_keeps_inv(m: LockModel, t: int)
    requires
        m.inv(),
        0 <= t < m.len(),
        m.phases[t] is Idle,
    ensures
        m.begin_lock(t).inv(),
{
    let m2 = m.begin_lock(t);
    assert forall|i: int| 0 <= i < m.len() && i != t implies m2.phases[i] == m.phases[i]
        && m2.nodes[i] == m.nodes[i] && m2.has_token(i) == m.has_token(i) by {}
    assert(!m2.has_token(t));
}

proof fn lemma_phase_change_keeps_inv(m: LockModel, t: int, ph: Phase)
    requires
        m.inv(),
        0 <= t < m.len(),
        (m.phases[t] is Holding && ph is ReadingSuccessor) || (m.phases[t] is Idle
            && ph is GuestLocking) || (m.phases[t] is GuestHolding && ph is GuestUnlocking) || (
        m.phases[t] is ReadingSuccessor && ph is Detaching) || (m.phases[t] is Detaching
            && ph is AwaitingSuccessor) || (m.phases[t] is Spinning && !m.nodes[t].waiting
            && ph is Holding),
    ensures
        m.with_phase(t, ph).inv(),
{
    let m2 = m.with_phase(t, ph);
    assert forall|i: int| 0 <= i < m.len() && i != t implies m2.phases[i] == m.phases[i]
        && m2.nodes[i] == m.nodes[i] && m2.has_token(i) == m.has_token(i) by {}
    assert(m2.has_token(t) == m.has_token(t));
}

proof fn lemma_read_successor_keeps_inv(m: LockModel, t: int)
    requires
        m.inv(),
        0 <= t < m.len(),
        m.phases[t] is ReadingSuccessor || m.phases[t] is AwaitingSuccessor,
        m.nodes[t].next is Some,
    ensures
        m.step(t).inv(),
{
    let s = m.nodes[t].next->Some_0;
    let m2 = m.step(t);
    assert(m2 == m.with_phase(t, Phase::Releasing(s)));
    assert forall|i: int| 0 <= i < m.len() && i != t implies m2.phases[i] == m.phases[i]
        && m2.nodes[i] == m.nodes[i] && m2.has_token(i) == m.has_token(i) by {}
    assert(m2.has_token(t));
    assert(m.has_token(t));
    assert forall|i: int| 0 <= i < m.len() implies m2.has_token(i) == m.has_token(i) by {}
    assert(in_queue(m.phases[t]));
    assert forall|i: int, j: int|
        0 <= i < m2.len() && 0 <= j < m2.len() && #[trigger] m2.phases[i] is Releasing && in_queue(
            #[trigger] m2.phases[j],
        ) implies m2.nodes[j].next != Some(m2.phases[i]->Releasing_0) by {
        if i != t {
            assert(m.phases[i] is Releasing);
        } else {
            assert(m.phases[j] == m2.phases[j]);
        }
    }
    assert forall|i: int, j: int|
        0 <= i < m2.len() && 0 <= j < m2.len() && i != j && #[trigger] m2.phases[i] is Releasing
            implies #[trigger] m2.phases[j] != m2.phases[i] by {
        if i == t {
            if m.phases[j] is Releasing {
                assert(m.nodes[t].next != Some(m.phases[j]->Releasing_0));
            }
        } else if j == t {
            assert(m.nodes[t].next != Some(m.phases[i]->Releasing_0));
        }
    }
}

proof fn lemma_swap_keeps_inv(m: LockModel, t: int)
    requires
        m.inv(),
        0 <= t < m.len(),
        m.phases[t] is Swapping,
    ensures
        m.step(t).inv(),
{
    let m2 = m.step(t);
    let c = m.phases[t]->Swapping_0;
    assert(m2.tail == c);
    assert(m2.nodes == m.nodes);
    assert forall|i: int| 0 <= i < m.len() && i != t implies m2.phases[i] == m.phases[i]
        && m2.has_token(i) == m.has_token(i) by {}
    match m.tail {
        Slot::Empty => {
            assert(m2.phases[t] is Holding);
            assert(forall|x: int| 0 <= x < m.len() ==> !(#[trigger] m.phases[x] is Republishing));
        },
        Slot::Guest => {
            assert(m2.phases[t] is Republishing);
            assert(!m2.has_token(t));
            assert(forall|x: int| 0 <= x < m.len() ==> !(#[trigger] m.phases[x] is Republishing));
        },
        Slot::Queued(p) => {
            assert(m2.phases[t] is Linking);
            assert(!m2.has_token(t));
        },
    }
}

proof fn lemma_republish_keeps_inv(m: LockModel, t: int)
    requires
        m.inv(),
        0 <= t < m.len(),
        m.phases[t] is Republishing,
    ensures
        m.step(t).inv(),
{
    let m2 = m.step(t);
    assert(m2.nodes == m.nodes);
    assert forall|i: int| 0 <= i < m.len() && i != t implies m2.phases[i] == m.phases[i]
        && m2.has_token(i) == m.has_token(i) by {}
    assert(!m2.has_token(t));
    assert(m.tail is Queued);
    assert forall|x: int| 0 <= x < m2.len() implies !(#[trigger] m2.phases[x] is Republishing) by {
        if x != t {
            assert(m2.phases[x] == m.phases[x]);
        }
    }
}

proof fn lemma_link_keeps_inv(m: LockModel, t: int)
    requires
        m.inv(),
        0 <= t < m.len(),
        m.phases[t] is Linking,
    ensures
        m.step(t).inv(),
{
    let m2 = m.step(t);
    let p = m.phases[t]->Linking_0 as int;
    assert(m.nodes[t].waiting);
    assert(m2.phases[t] is Spinning);
    assert(m2.nodes[t].waiting);
    assert forall|i: int| 0 <= i < m.len() && i != p implies m2.nodes[i] == m.nodes[i] by {}
    assert(m2.nodes[p].next == Some(t as usize));
    assert(m2.nodes[p].waiting == m.nodes[p].waiting);
    assert forall|i: int| 0 <= i < m.len() && i != t implies m2.phases[i] == m.phases[i]
        && m2.has_token(i) == m.has_token(i) by {}
    assert(!m2.has_token(t));
    // No one named `t` before, since it was not spinning.
    assert forall|i: int| 0 <= i < m.len() && in_queue(m.phases[i]) implies m.nodes[i].next != Some(
        t as usize,
    ) by {}
    assert forall|i: int| 0 <= i < m.len() && m.phases[i] is Releasing implies m.phases[i]->Releasing_0
        != t as usize by {}
    assert(m2.links_ok());
}

proof fn lemma_detach_keeps_inv(m: LockModel, t: int)
    requires
        m.inv(),
        0 <= t < m.len(),
        m.phases[t] is Detaching,
        m.tail == Slot::Queued(t as usize),
    ensures
        m.step(t).inv(),
{
    let m2 = m.step(t);
    assert(m2.nodes == m.nodes);
    assert(m.has_token(t));
    assert forall|i: int| 0 <= i < m.len() && i != t implies m2.phases[i] == m.phases[i]
        && m2.has_token(i) == m.has_token(i) && !m.has_token(i) by {}
    assert(!m2.has_token(t));
    assert forall|x: int| 0 <= x < m.len() implies !(#[trigger] m.phases[x] is Republishing) by {
        if m.phases[x] is Republishing {
            assert(m.only_guest_tokens());
            assert(m.has_token(t));
        }
    }
}

proof fn lemma_release_keeps_inv(m: LockModel, t: int)
    requires
        m.inv(),
        0 <= t < m.len(),
        m.phases[t] is Releasing,
    ensures
        m.step(t).inv(),
{
    let m2 = m.step(t);
    let s = m.phases[t]->Releasing_0 as int;
    assert(m.phases[s] is Spinning && m.nodes[s].waiting);
    assert(s != t);
    assert(m.has_token(t));
    assert forall|i: int| 0 <= i < m.len() && i != t implies m2.phases[i] == m.phases[i] by {}
    assert forall|i: int| 0 <= i < m.len() && i != s implies m2.nodes[i] == m.nodes[i] by {}
    assert forall|i: int| 0 <= i < m.len() && i != t && i != s implies m2.has_token(i)
        == m.has_token(i) && !m.has_token(i) by {}
    assert(m2.has_token(s));
    assert(!m2.has_token(t));
    assert forall|x: int| 0 <= x < m.len() implies !(#[trigger] m.phases[x] is Republishing) by {
        if m.phases[x] is Republishing {
            assert(m.only_guest_tokens());
            assert(m.has_token(t));
        }
    }
    assert(!(m.tail is Guest)) by {
        if m.tail is Guest {
            assert(m.only_guest_tokens());
            assert(m.has_token(t));
        }
    }
    assert forall|i: int| 0 <= i < m.len() && in_queue(m.phases[i]) implies m.nodes[i].next != Some(
        s as usize,
    ) by {}
    assert(m2.links_ok());
}

proof fn lemma_guest_step_keeps_inv(m: LockModel, t: int)
    requires
        m.inv(),
        0 <= t < m.len(),
        m.phases[t] is GuestLocking || m.phases[t] is GuestUnlocking,
    ensures
        m.step(t).inv(),
{
    let m2 = m.step(t);
    assert(m2.nodes == m.nodes);
    assert forall|i: int| 0 <= i < m.len() && i != t implies m2.phases[i] == m.phases[i]
        && m2.has_token(i) == m.has_token(i) by {}
    if m.phases[t] is GuestLocking && m.tail is Empty {
        assert forall|i: int| 0 <= i < m.len() && i != t implies !m2.has_token(i) by {}
        assert(forall|x: int| 0 <= x < m.len() ==> !(#[trigger] m.phases[x] is Republishing));
    }
    if m.phases[t] is GuestUnlocking && m.tail is Guest {
        assert(m.has_token(t));
        assert forall|i: int| 0 <= i < m.len() && i != t implies !m2.has_token(i) by {}
        assert(forall|x: int| 0 <= x < m.len() ==> !(#[trigger] m.phases[x] is Republishing));
    }
}

/// Every atomic action of every participant keeps the invariant.
pub proof fn lemma_step_keeps_inv(m: LockModel, t: int)
    requires
        m.inv(),
        0 <= t < m.len(),
    ensures
        m.step(t).inv(),
{
    match m.phases[t] {
        Phase::Swapping(_) => lemma_swap_keeps_inv(m, t),
        Phase::Republishing => lemma_republish_keeps_inv(m, t),
        Phase::Linking(_) => lemma_link_keeps_inv(m, t),
        Phase::Spinning => {
            if !m.nodes[t].waiting {
                lemma_phase_change_keeps_inv(m, t, Phase::Holding);
            }
        },
        Phase::ReadingSuccessor => {
            if m.nodes[t].next is Some {
                lemma_read_successor_keeps_inv(m, t);
            } else {
                lemma_phase_change_keeps_inv(m, t, Phase::Detaching);
            }
        },
        Phase::Detaching => {
            if m.tail == Slot::Queued(t as usize) {
                lemma_detach_keeps_inv(m, t);
            } else {
                lemma_phase_change_keeps_inv(m, t, Phase::AwaitingSuccessor);
            }
        },
        Phase::AwaitingSuccessor => {
            if m.nodes[t].next is Some {
                lemma_read_successor_keeps_inv(m, t);
            }
        },
        Phase::Releasing(_) => lemma_release_keeps_inv(m, t),
        Phase::GuestLocking | Phase::GuestUnlocking => lemma_guest_step_keeps_inv(m, t),
        _ => {},
    }
}

/// Starting an operation, as the protocol allows it, keeps the invariant.
pub proof fn lemma_begin_keeps_inv(m: LockModel, t: int)
    requires
        m.inv(),
        0 <= t < m.len(),
    ensures
        m.phases[t] is Idle ==> m.begin_lock(t).inv() && m.begin_glock(t).inv(),
        m.phases[t] is Holding ==> m.begin_unlock(t).inv(),
        m.phases[t] is GuestHolding ==> m.begin_gunlock(t).inv(),
{
    if m.phases[t] is Idle {
        lemma_begin_lock_keeps_inv(m, t);
        lemma_phase_change_keeps_inv(m, t, Phase::GuestLocking);
    }
    if m.phases[t] is Holding {
        lemma_phase_change_keeps_inv(m, t, Phase::ReadingSuccessor);
    }
    if m.phases[t] is GuestHolding {
        lemma_phase_change_keeps_inv(m, t, Phase::GuestUnlocking);
    }
}

/// Mutual exclusion, queued and guest holders alike: in every reachable
/// state at most one participant is inside the critical section.
pub proof fn lemma_mutual_exclusion(m: LockModel, i: int, j: int)
    requires
        m.inv(),
        0 <= i < m.len(),
        0 <= j < m.len(),
        in_critical_section(m.phases[i]),
        in_critical_section(m.phases[j]),
    ensures
        i == j,
{
    assert(m.has_token(i));
    assert(m.has_token(j));
}

/// A release wakes exactly one waiter: the named successor alone gains the
/// right to the critical section, no other node changes, and the successor's
/// next action takes it into the critical section.
pub proof fn lemma_release_wakes_one(m: LockModel, t: int)
    requires
        m.inv(),
        0 <= t < m.len(),
        m.phases[t] is Releasing,
    ensures
        ({
            let s = m.phases[t]->Releasing_0 as int;
            let m2 = m.step(t);
            &&& m.phases[s] is Spinning && m.nodes[s].waiting
            &&& m2.has_token(s)
            &&& forall|i: int| 0 <= i < m.len() && i != s ==> !#[trigger] m2.has_token(i)
            &&& forall|i: int| 0 <= i < m.len() && i != s ==> #[trigger] m2.nodes[i] == m.nodes[i]
            &&& m2.step(s).phases[s] is Holding
        }),
{
    let s = m.phases[t]->Releasing_0 as int;
    let m2 = m.step(t);
    lemma_step_keeps_inv(m, t);
    assert(m2.has_token(s));
    assert forall|i: int| 0 <= i < m.len() && i != s implies !#[trigger] m2.has_token(i) by {
        assert(m2.has_token(s));
    }
}

/// A queued waiter is let in by its predecessor alone: while the
/// predecessor `a` is in the queue with `b` linked behind it, `b` is outside
/// the critical section, and no action of any other participant changes that.
pub proof fn lemma_waiter_needs_predecessor(m: LockModel, a: int, b: int, u: int)
    requires
        m.inv(),
        0 <= a < m.len(),
        0 <= u < m.len(),
        in_queue(m.phases[a]),
        0 <= b <= usize::MAX,
        m.nodes[a].next == Some(b as usize),
        u != a,
    ensures
        0 <= b < m.len(),
        !m.has_token(b),
        m.step(u).phases[b] is Spinning,
        m.step(u).nodes[b].waiting,
{
    assert(m.nodes[a].next->Some_0 as int == b);
    assert(m.phases[b] is Spinning && m.nodes[b].waiting);
    if m.phases[u] is Releasing {
        assert(m.nodes[a].next != Some(m.phases[u]->Releasing_0));
    }
    if m.phases[u] is Linking {
        assert(u != b);
    }
}

/// On a lock whose tail is empty, a queued acquisition holds the lock after
/// its first action, and so does a guest acquisition.
pub proof fn lemma_free_lock_acquires_at_once(m: LockModel, t: int)
    requires
        m.inv(),
        0 <= t < m.len(),
        m.phases[t] is Idle,
        m.tail is Empty,
    ensures
        m.begin_lock(t).step(t).phases[t] is Holding,
        m.begin_lock(t).step(t).tail == Slot::Queued(t as usize),
        m.begin_glock(t).step(t).phases[t] is GuestHolding,
        m.begin_glock(t).step(t).tail is Guest,
{
}

/// A queued acquisition on a free lock, followed by its release, leaves the
/// lock free again with every participant where it stood; the same node can
/// then acquire once more, at once.
pub proof fn lemma_round_trip(m: LockModel, t: int)
    requires
        m.inv(),
        0 <= t < m.len(),
        m.phases[t] is Idle,
        m.tail is Empty,
    ensures
        ({
            let held = m.begin_lock(t).step(t);
            let back = held.begin_unlock(t).step(t).step(t);
            &&& held.phases[t] is Holding
            &&& back.inv()
            &&& back.tail is Empty
            &&& back.phases == m.phases
            &&& back.begin_lock(t).step(t).phases[t] is Holding
        }),
{
    let m1 = m.begin_lock(t);
    lemma_begin_keeps_inv(m, t);
    let held = m1.step(t);
    lemma_step_keeps_inv(m1, t);
    let r = held.begin_unlock(t);
    lemma_begin_keeps_inv(held, t);
    let r1 = r.step(t);
    lemma_step_keeps_inv(r, t);
    assert(r1.phases[t] is Detaching);
    let back = r1.step(t);
    lemma_step_keeps_inv(r1, t);
    assert(back.phases =~= m.phases);
}

/// A guest acquirer that is spinning gets in on its next attempt once the
/// tail is empty, whoever held the lock before.
pub proof fn lemma_guest_enters_on_empty_tail(m: LockModel, t: int)
    requires
        m.inv(),
        0 <= t < m.len(),
        m.phases[t] is GuestLocking,
        m.tail is Empty,
    ensures
        m.step(t).phases[t] is GuestHolding,
        m.step(t).tail is Guest,
        m.step(t).inv(),
{
    lemma_step_keeps_inv(m, t);
}

} // verus!
