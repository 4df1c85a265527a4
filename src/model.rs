use vstd::prelude::*;

verus! {

/// The value held by the lock's tail slot. The guest marker is a tag of its
/// own, so it can never be mistaken for a participant's node.
#[derive(Clone, Copy, Debug, PartialEq, Eq, Structural)]
pub enum Slot {
    Empty,
    Guest,
    Queued(usize),
}

/// What a swap on the tail slot displaced, read as the state of the lock.
#[derive(Clone, Copy, Debug, PartialEq, Eq, Structural)]
pub enum LockState {
    Free,
    GuestAcquired,
    RegularAcquired(usize),
}

/// The per-acquisition handshake record: the successor linked behind it and
/// the flag its owner spins on.
#[derive(Clone, Copy, Debug, PartialEq, Eq, Structural)]
pub struct Node {
    pub next: Option<usize>,
    pub waiting: bool,
}

/// Where a participant stands in the protocol. Each variant is the atomic
/// action the participant performs next.
#[derive(Clone, Copy, Debug, PartialEq, Eq, Structural)]
pub enum Phase {
    /// Outside the lock.
    Idle,
    /// Queued acquisition: about to swap the candidate into the tail.
    Swapping(Slot),
    /// Queued acquisition displaced the guest marker: about to swap it back.
    Republishing,
    /// Queued acquisition found a predecessor: about to link behind it.
    Linking(usize),
    /// Queued acquisition: spinning on its own `waiting` flag.
    Spinning,
    /// Queued holder, inside the critical section.
    Holding,
    /// Queued release: about to read its own successor.
    ReadingSuccessor,
    /// Queued release with no successor seen: about to detach the tail.
    Detaching,
    /// Queued release: spinning until the successor's link shows up.
    AwaitingSuccessor,
    /// Queued release: about to clear the successor's `waiting` flag.
    Releasing(usize),
    /// Guest acquisition: spinning on the tail from empty to the marker.
    GuestLocking,
    /// Guest holder, inside the critical section.
    GuestHolding,
    /// Guest release: spinning on the tail from the marker to empty.
    GuestUnlocking,
}

/// The whole shared state: the tail slot, one node per participant, and
/// where each participant stands. Participant `i` owns node `i`.
pub struct LockModel {
    pub tail: Slot,
    pub nodes: Seq<Node>,
    pub phases: Seq<Phase>,
}

/// How the value displaced from the tail is read.
pub open spec fn classify(old_tail: Slot) -> LockState {
    match old_tail {
        Slot::Empty => LockState::Free,
        Slot::Guest => LockState::GuestAcquired,
        Slot::Queued(p) => LockState::RegularAcquired(p),
    }
}

/// Phases in which the participant's node takes part in the queue.
pub open spec fn in_queue(ph: Phase) -> bool {
    match ph {
        Phase::Swapping(_) | Phase::Republishing | Phase::Linking(_) | Phase::Spinning
        | Phase::Holding | Phase::ReadingSuccessor | Phase::Detaching
        | Phase::AwaitingSuccessor => true,
        _ => false,
    }
}

/// Phases of a queued acquisition before the participant starts spinning.
pub open spec fn before_spin(ph: Phase) -> bool {
    ph is Swapping || ph is Republishing || ph is Linking
}

/// Phases in which a queued acquirer owns the lock.
pub open spec fn holds_queued(ph: Phase) -> bool {
    ph is Holding || ph is ReadingSuccessor || ph is Detaching || ph is AwaitingSuccessor
        || ph is Releasing
}

/// Phases in which a guest owns the lock.
pub open spec fn holds_guest(ph: Phase) -> bool {
    ph is GuestHolding || ph is GuestUnlocking
}

/// Phases inside the critical section.
pub open spec fn in_critical_section(ph: Phase) -> bool {
    ph is Holding || ph is GuestHolding
}

pub open spec fn slot_in_range(s: Slot, n: int) -> bool {
    s matches Slot::Queued(k) ==> k < n
}

pub open spec fn phase_in_range(ph: Phase, n: int) -> bool {
    match ph {
        Phase::Swapping(c) => c matches Slot::Queued(k) && k < n,
        Phase::Linking(p) => p < n,
        Phase::Releasing(s) => s < n,
        _ => true,
    }
}

impl LockModel {
    pub open spec fn len(self) -> int {
        self.phases.len() as int
    }

    /// Participant `i` owns the right to the critical section: it is in it,
    /// on its way out of it, or has just been handed it by its predecessor.
    pub open spec fn has_token(self, i: int) -> bool {
        holds_queued(self.phases[i]) || holds_guest(self.phases[i]) || (
        self.phases[i] is Spinning && !self.nodes[i].waiting)
    }

    pub open spec fn ranges_ok(self) -> bool {
        &&& self.nodes.len() == self.phases.len()
        &&& self.len() <= usize::MAX
        &&& slot_in_range(self.tail, self.len())
        &&& forall|i: int| 0 <= i < self.len() ==> phase_in_range(#[trigger] self.phases[i], self.len())
    }

    pub open spec fn waits_before_spin(self) -> bool {
        forall|i: int|
            0 <= i < self.len() && before_spin(#[trigger] self.phases[i]) ==> self.nodes[i].waiting
    }

    /// At most one participant holds the token, and none while the tail is empty.
    pub open spec fn token_unique(self) -> bool {
        &&& forall|i: int, j: int|
            0 <= i < self.len() && 0 <= j < self.len() && i != j && #[trigger] self.has_token(i)
                ==> !#[trigger] self.has_token(j)
        &&& self.tail is Empty ==> forall|i: int| 0 <= i < self.len() ==> !#[trigger] self.has_token(i)
    }

    /// Every token holder is a guest.
    pub open spec fn only_guest_tokens(self) -> bool {
        forall|j: int| 0 <= j < self.len() && #[trigger] self.has_token(j) ==> holds_guest(self.phases[j])
    }

    /// The guest marker in the tail, or a queued acquirer putting it back,
    /// means that a guest owns the lock; at most one acquirer is putting it back.
    pub open spec fn guest_marker_ok(self) -> bool {
        &&& self.tail is Guest ==> self.only_guest_tokens()
        &&& forall|x: int| 0 <= x < self.len() && #[trigger] self.phases[x] is Republishing ==> {
            &&& self.tail is Queued
            &&& self.only_guest_tokens()
            &&& forall|y: int| 0 <= y < self.len() && y != x ==> !(#[trigger] self.phases[y] is Republishing)
        }
    }

    /// A link or a pending release names a spinning, still waiting
    /// participant, and no participant is named twice.
    pub open spec fn links_ok(self) -> bool {
        &&& forall|i: int|
            #![trigger self.nodes[i], self.phases[i]]
            0 <= i < self.len() && in_queue(self.phases[i]) && self.nodes[i].next is Some ==> {
                let s = self.nodes[i].next->Some_0 as int;
                &&& s < self.len()
                &&& self.phases[s] is Spinning
                &&& self.nodes[s].waiting
            }
        &&& forall|i: int|
            0 <= i < self.len() && #[trigger] self.phases[i] is Releasing ==> {
                let s = self.phases[i]->Releasing_0 as int;
                &&& self.phases[s] is Spinning
                &&& self.nodes[s].waiting
            }
        &&& forall|i: int, j: int|
            0 <= i < self.len() && 0 <= j < self.len() && i != j && in_queue(
                #[trigger] self.phases[i],
            ) && in_queue(#[trigger] self.phases[j]) && self.nodes[i].next is Some
                ==> self.nodes[i].next != self.nodes[j].next
        &&& forall|i: int, j: int|
            0 <= i < self.len() && 0 <= j < self.len() && #[trigger] self.phases[i] is Releasing
                && in_queue(#[trigger] self.phases[j]) ==> self.nodes[j].next != Some(
                self.phases[i]->Releasing_0,
            )
        &&& forall|i: int, j: int|
            0 <= i < self.len() && 0 <= j < self.len() && i != j && #[trigger] self.phases[i]
                is Releasing ==> #[trigger] self.phases[j] != self.phases[i]
    }

    /// The invariant kept by every action of every participant.
    pub open spec fn inv(self) -> bool {
        &&& self.ranges_ok()
        &&& self.waits_before_spin()
        &&& self.token_unique()
        &&& self.guest_marker_ok()
        &&& self.links_ok()
    }

    /// A lock with no participants and an empty tail.
    pub open spec fn idle(self) -> bool {
        self.tail is Empty && forall|i: int| 0 <= i < self.len() ==> #[trigger] self.phases[i] is Idle
    }

    pub open spec fn with_phase(self, t: int, ph: Phase) -> LockModel {
        LockModel { phases: self.phases.update(t, ph), ..self }
    }

    /// A new participant joins, idle, with its own node.
    pub open spec fn join(self, node: Node) -> LockModel {
        LockModel { nodes: self.nodes.push(node), phases: self.phases.push(Phase::Idle), ..self }
    }

    /// `lock` begins: the node is reset and the own node is the first candidate.
    pub open spec fn begin_lock(self, t: int) -> LockModel {
        LockModel {
            nodes: self.nodes.update(t, Node { next: None, waiting: true }),
            phases: self.phases.update(t, Phase::Swapping(Slot::Queued(t as usize))),
            ..self
        }
    }

    pub open spec fn begin_unlock(self, t: int) -> LockModel {
        self.with_phase(t, Phase::ReadingSuccessor)
    }

    pub open spec fn begin_glock(self, t: int) -> LockModel {
        self.with_phase(t, Phase::GuestLocking)
    }

    pub open spec fn begin_gunlock(self, t: int) -> LockModel {
        self.with_phase(t, Phase::GuestUnlocking)
    }

    /// Participant `t` performs its next atomic action.
    pub open spec fn step(self, t: int) -> LockModel {
        let node = self.nodes[t];
        match self.phases[t] {
            Phase::Swapping(c) => {
                let moved = LockModel { tail: c, ..self };
                match classify(self.tail) {
                    LockState::Free => moved.with_phase(t, Phase::Holding),
                    LockState::GuestAcquired => moved.with_phase(t, Phase::Republishing),
                    LockState::RegularAcquired(p) => moved.with_phase(t, Phase::Linking(p)),
                }
            },
            Phase::Republishing => LockModel {
                tail: Slot::Guest,
                phases: self.phases.update(t, Phase::Swapping(self.tail)),
                ..self
            },
            Phase::Linking(p) => {
                let own = self.nodes.update(t, Node { waiting: true, ..node });
                LockModel {
                    nodes: own.update(p as int, Node { next: Some(t as usize), ..own[p as int] }),
                    phases: self.phases.update(t, Phase::Spinning),
                    ..self
                }
            },
            Phase::Spinning => if node.waiting {
                self
            } else {
                self.with_phase(t, Phase::Holding)
            },
            Phase::ReadingSuccessor => match node.next {
                Some(s) => self.with_phase(t, Phase::Releasing(s)),
                None => self.with_phase(t, Phase::Detaching),
            },
            Phase::Detaching => if self.tail == Slot::Queued(t as usize) {
                LockModel { tail: Slot::Empty, phases: self.phases.update(t, Phase::Idle), ..self }
            } else {
                self.with_phase(t, Phase::AwaitingSuccessor)
            },
            Phase::AwaitingSuccessor => match node.next {
                Some(s) => self.with_phase(t, Phase::Releasing(s)),
                None => self,
            },
            Phase::Releasing(s) => LockModel {
                nodes: self.nodes.update(
                    s as int,
                    Node { waiting: false, ..self.nodes[s as int] },
                ),
                phases: self.phases.update(t, Phase::Idle),
                ..self
            },
            Phase::GuestLocking => if self.tail is Empty {
                LockModel {
                    tail: Slot::Guest,
                    phases: self.phases.update(t, Phase::GuestHolding),
                    ..self
                }
            } else {
                self
            },
            Phase::GuestUnlocking => if self.tail is Guest {
                LockModel { tail: Slot::Empty, phases: self.phases.update(t, Phase::Idle), ..self }
            } else {
                self
            },
            _ => self,
        }
    }
}

} // verus!
