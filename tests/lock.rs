use mscg::lock::MSCg;
use mscg::model::{LockState, Node, Phase, Slot};

fn with_participants(n: usize) -> MSCg {
    let mut l = MSCg::new();
    for _ in 0..n {
        l.add_node(Node::new());
    }
    l
}

fn holders(l: &MSCg) -> usize {
    let mut count = 0;
    for t in 0..l.len() {
        if matches!(l.phase(t), Phase::Holding | Phase::GuestHolding) {
            count += 1;
        }
    }
    count
}

#[test]
fn lock_unlock() {
    let mut l = MSCg::new();
    let p = l.add_node(Node::new());
    l.lock(p);
    l.unlock(p);
    l.glock(p);
    l.gunlock(p);
}

#[test]
fn node_new_is_clear() {
    let n = Node::new();
    assert_eq!(n.next, None);
    assert!(!n.waiting);
}

#[test]
fn single_participant_sequence_returns_to_idle() {
    let mut l = MSCg::new();
    let p = l.add_node(Node::new());
    assert_eq!(l.tail(), Slot::Empty);
    l.lock(p);
    assert_eq!(l.phase(p), Phase::Holding);
    assert_eq!(l.tail(), Slot::Queued(p));
    l.unlock(p);
    assert_eq!(l.phase(p), Phase::Idle);
    assert_eq!(l.tail(), Slot::Empty);
    l.glock(p);
    assert_eq!(l.phase(p), Phase::GuestHolding);
    assert_eq!(l.tail(), Slot::Guest);
    l.gunlock(p);
    assert_eq!(l.phase(p), Phase::Idle);
    assert_eq!(l.tail(), Slot::Empty);
}

#[test]
fn fresh_lock_acquires_on_first_swap() {
    let mut l = with_participants(3);
    l.begin_lock(1);
    l.step(1);
    assert_eq!(l.phase(1), Phase::Holding);
    assert_eq!(l.tail(), Slot::Queued(1));
}

#[test]
fn swap_tail_classifies_displaced_value() {
    let mut l = with_participants(2);
    assert_eq!(l.swap_tail(Slot::Queued(0)), LockState::Free);
    assert_eq!(l.swap_tail(Slot::Guest), LockState::RegularAcquired(0));
    assert_eq!(l.swap_tail(Slot::Queued(1)), LockState::GuestAcquired);
    assert_eq!(l.tail(), Slot::Queued(1));
}

#[test]
fn two_contenders_hand_over() {
    let mut l = with_participants(2);
    l.begin_lock(0);
    l.begin_lock(1);
    l.step(0);
    assert_eq!(l.phase(0), Phase::Holding);
    l.step(1);
    assert_eq!(l.phase(1), Phase::Linking(0));
    l.step(1);
    assert_eq!(l.phase(1), Phase::Spinning);
    assert_eq!(l.node(0).next, Some(1));
    l.step(1);
    assert_eq!(l.phase(1), Phase::Spinning);
    l.begin_unlock(0);
    l.step(0);
    assert_eq!(l.phase(0), Phase::Releasing(1));
    l.step(0);
    assert_eq!(l.phase(0), Phase::Idle);
    assert!(!l.node(1).waiting);
    l.step(1);
    assert_eq!(l.phase(1), Phase::Holding);
    assert_eq!(l.tail(), Slot::Queued(1));
    l.unlock(1);
    assert_eq!(l.tail(), Slot::Empty);
    assert_eq!(l.phase(1), Phase::Idle);
}

#[test]
fn queued_contenders_enter_in_swap_order() {
    let mut l = with_participants(3);
    for t in 0..3 {
        l.begin_lock(t);
        l.step(t);
    }
    l.step(1);
    l.step(2);
    let mut order = vec![];
    for _ in 0..20 {
        for t in 0..3 {
            l.step(t);
            if l.phase(t) == Phase::Holding && !order.contains(&t) {
                order.push(t);
                l.begin_unlock(t);
            }
        }
    }
    assert_eq!(order, vec![0, 1, 2]);
    assert_eq!(l.tail(), Slot::Empty);
}

#[test]
fn release_wakes_exactly_one_waiter() {
    let mut l = with_participants(3);
    for t in 0..3 {
        l.begin_lock(t);
        l.step(t);
    }
    l.step(1);
    l.step(2);
    l.step(1);
    l.step(2);
    assert!(l.node(1).waiting);
    assert!(l.node(2).waiting);
    l.begin_unlock(0);
    l.step(0);
    l.step(0);
    assert!(!l.node(1).waiting);
    assert!(l.node(2).waiting);
    l.step(1);
    l.step(2);
    assert_eq!(l.phase(1), Phase::Holding);
    assert_eq!(l.phase(2), Phase::Spinning);
}

#[test]
fn unlock_waits_for_a_late_link() {
    let mut l = with_participants(2);
    l.lock(0);
    l.begin_lock(1);
    l.step(1);
    assert_eq!(l.phase(1), Phase::Linking(0));
    l.begin_unlock(0);
    l.step(0);
    assert_eq!(l.phase(0), Phase::Detaching);
    l.step(0);
    assert_eq!(l.phase(0), Phase::AwaitingSuccessor);
    l.step(0);
    assert_eq!(l.phase(0), Phase::AwaitingSuccessor);
    l.step(1);
    l.step(0);
    assert_eq!(l.phase(0), Phase::Releasing(1));
    l.step(0);
    l.step(1);
    assert_eq!(l.phase(1), Phase::Holding);
}

#[test]
fn guest_and_queued_exclude_each_other() {
    let mut l = with_participants(2);
    l.glock(0);
    l.begin_lock(1);
    l.step(1);
    assert_eq!(l.phase(1), Phase::Republishing);
    assert_eq!(l.tail(), Slot::Queued(1));
    l.begin_gunlock(0);
    l.step(0);
    assert_eq!(l.phase(0), Phase::GuestUnlocking);
    l.step(1);
    assert_eq!(l.phase(1), Phase::Swapping(Slot::Queued(1)));
    assert_eq!(l.tail(), Slot::Guest);
    l.step(1);
    assert_eq!(l.phase(1), Phase::Republishing);
    l.step(1);
    l.step(0);
    assert_eq!(l.phase(0), Phase::Idle);
    assert_eq!(l.tail(), Slot::Empty);
    l.step(1);
    assert_eq!(l.phase(1), Phase::Holding);
    l.begin_glock(0);
    l.step(0);
    assert_eq!(l.phase(0), Phase::GuestLocking);
    l.unlock(1);
    l.step(0);
    assert_eq!(l.phase(0), Phase::GuestHolding);
}

#[test]
fn retry_carries_the_segment_linked_behind_it() {
    // A guest holds; participant 0 displaces the marker, 1 links behind 0,
    // and 0 puts the marker back, taking 1's node as its candidate.
    let mut l = with_participants(3);
    l.glock(2);
    l.begin_lock(0);
    l.step(0);
    l.begin_lock(1);
    l.step(1);
    l.step(1);
    assert_eq!(l.node(0).next, Some(1));
    l.step(0);
    assert_eq!(l.phase(0), Phase::Swapping(Slot::Queued(1)));
    l.gunlock(2);
    l.step(0);
    assert_eq!(l.phase(0), Phase::Holding);
    assert_eq!(l.tail(), Slot::Queued(1));
    l.unlock(0);
    l.step(1);
    assert_eq!(l.phase(1), Phase::Holding);
    l.unlock(1);
    assert_eq!(l.tail(), Slot::Empty);
}

#[test]
fn round_trip_reuses_the_node() {
    let mut l = with_participants(1);
    l.lock(0);
    l.unlock(0);
    l.lock(0);
    assert_eq!(l.phase(0), Phase::Holding);
    l.unlock(0);
    assert_eq!(l.tail(), Slot::Empty);
}

#[test]
fn interleavings_never_admit_two_holders() {
    let n = 5;
    let mut l = with_participants(n);
    let mut seed: u64 = 12345;
    let mut entries = 0;
    for _ in 0..20000 {
        seed = seed.wrapping_mul(6364136223846793005).wrapping_add(1442695040888963407);
        let t = ((seed >> 33) % n as u64) as usize;
        let guest = (seed >> 20) & 3 == 0;
        match l.phase(t) {
            Phase::Idle => {
                if guest {
                    l.begin_glock(t)
                } else {
                    l.begin_lock(t)
                }
            }
            Phase::Holding => {
                entries += 1;
                l.begin_unlock(t)
            }
            Phase::GuestHolding => {
                entries += 1;
                l.begin_gunlock(t)
            }
            _ => l.step(t),
        }
        assert!(holders(&l) <= 1);
    }
    assert!(entries > 100);
}
