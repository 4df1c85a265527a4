use vstd::prelude::*;
use crate::laws::{lemma_begin_keeps_inv, lemma_join_keeps_inv, lemma_step_keeps_inv};
use crate::model::{classify, LockModel, LockState, Node, Phase, Slot};

verus! {

impl Node {
    /// A fresh handshake record: no successor, not waiting.
    pub fn new() -> (r: Node)
        ensures
            r.next is None,
            !r.waiting,
    {
        Node { next: None, waiting: false }
    }
}

/// A queue lock with a guest fast path. Participant `i` acquires through the
/// queue with node `i`, or as a guest with no node at all; both paths go
/// through the single tail slot.
pub struct MSCg {
    tail: Slot,
    nodes: Vec<Node>,
    phases: Vec<Phase>,
}

impl View for MSCg {
    type V = LockModel;

    closed spec fn view(&self) -> LockModel {
        LockModel { tail: self.tail, nodes: self.nodes@, phases: self.phases@ }
    }
}

impl MSCg {
    pub open spec fn wf(&self) -> bool {
        self@.inv()
    }

    /// An idle lock with no participants.
    pub fn new() -> (r: MSCg)
        ensures
            r.wf(),
            r@.idle(),
            r@.tail is Empty,
            r@.len() == 0,
    {
        MSCg { tail: Slot::Empty, nodes: Vec::new(), phases: Vec::new() }
    }

    /// Registers a participant with its node; returns the participant's index.
    pub fn add_node(&mut self, node: Node) -> (id: usize)
        requires
            old(self).wf(),
            old(self)@.len() < usize::MAX,
        ensures
            final(self).wf(),
            final(self)@ == old(self)@.join(node),
            id == old(self)@.len(),
            old(self)@.idle() ==> final(self)@.idle(),
    {
        proof {
            lemma_join_keeps_inv(self@, node);
        }
        let id = self.phases.len();
        self.nodes.push(node);
        self.phases.push(Phase::Idle);
        id
    }

    /// Number of participants.
    pub fn len(&self) -> (r: usize)
        requires
            self.wf(),
        ensures
            r == self@.len(),
    {
        self.phases.len()
    }

    /// The value in the tail slot.
    pub fn tail(&self) -> (r: Slot)
        ensures
            r == self@.tail,
    {
        self.tail
    }

    /// Where participant `t` stands.
    pub fn phase(&self, t: usize) -> (r: Phase)
        requires
            self.wf(),
            t < self@.len(),
        ensures
            r == self@.phases[t as int],
    {
        self.phases[t]
    }

    /// Participant `t`'s node.
    pub fn node(&self, t: usize) -> (r: Node)
        requires
            self.wf(),
            t < self@.len(),
        ensures
            r == self@.nodes[t as int],
    {
        self.nodes[t]
    }

    /// Swaps `v` into the tail and classifies the value it displaced.
    pub fn swap_tail(&mut self, v: Slot) -> (r: LockState)
        ensures
            r == classify(old(self)@.tail),
            final(self)@ == (LockModel { tail: v, ..old(self)@ }),
    {
        let pred = self.tail;
        self.tail = v;
        match pred {
            Slot::Empty => LockState::Free,
            Slot::Guest => LockState::GuestAcquired,
            Slot::Queued(p) => LockState::RegularAcquired(p),
        }
    }

    fn set_phase(&mut self, t: usize, ph: Phase)
        requires
            t < old(self).phases@.len(),
        ensures
            final(self)@ == old(self)@.with_phase(t as int, ph),
    {
        self.phases.set(t, ph);
    }

    /// Starts a queued acquisition by participant `t`: its node is reset and
    /// its own node becomes the first candidate for the tail.
    pub fn begin_lock(&mut self, t: usize)
        requires
            old(self).wf(),
            t < old(self)@.len(),
            old(self)@.phases[t as int] is Idle,
        ensures
            final(self).wf(),
            final(self)@ == old(self)@.begin_lock(t as int),
    {
        proof {
            lemma_begin_keeps_inv(self@, t as int);
        }
        self.nodes.set(t, Node { next: None, waiting: true });
        self.phases.set(t, Phase::Swapping(Slot::Queued(t)));
    }

    /// Starts the release of participant `t`'s queued acquisition.
    pub fn begin_unlock(&mut self, t: usize)
        requires
            old(self).wf(),
            t < old(self)@.len(),
            old(self)@.phases[t as int] is Holding,
        ensures
            final(self).wf(),
            final(self)@ == old(self)@.begin_unlock(t as int),
    {
        proof {
            lemma_begin_keeps_inv(self@, t as int);
        }
        self.set_phase(t, Phase::ReadingSuccessor);
    }

    /// Starts a guest acquisition by participant `t`.
    pub fn begin_glock(&mut self, t: usize)
        requires
            old(self).wf(),
            t < old(self)@.len(),
            old(self)@.phases[t as int] is Idle,
        ensures
            final(self).wf(),
            final(self)@ == old(self)@.begin_glock(t as int),
    {
        proof {
            lemma_begin_keeps_inv(self@, t as int);
        }
        self.set_phase(t, Phase::GuestLocking);
    }

    /// Starts the release of participant `t`'s guest acquisition.
    pub fn begin_gunlock(&mut self, t: usize)
        requires
            old(self).wf(),
            t < old(self)@.len(),
            old(self)@.phases[t as int] is GuestHolding,
        ensures
            final(self).wf(),
            final(self)@ == old(self)@.begin_gunlock(t as int),
    {
        proof {
            lemma_begin_keeps_inv(self@, t as int);
        }
        self.set_phase(t, Phase::GuestUnlocking);
    }

    /// Participant `t` performs its next atomic action; a spinning
    /// participant whose condition does not hold yet changes nothing.
    pub fn step(&mut self, t: usize)
        requires
            old(self).wf(),
            t < old(self)@.len(),
        ensures
            final(self).wf(),
            final(self)@ == old(self)@.step(t as int),
    {
        proof {
            lemma_step_keeps_inv(self@, t as int);
        }
        let node = self.nodes[t];
        match self.phases[t] {
            Phase::Swapping(c) => {
                match self.swap_tail(c) {
                    LockState::Free => self.set_phase(t, Phase::Holding),
                    LockState::GuestAcquired => self.set_phase(t, Phase::Republishing),
                    LockState::RegularAcquired(p) => self.set_phase(t, Phase::Linking(p)),
                }
            },
            Phase::Republishing => {
                let displaced = self.tail;
                self.tail = Slot::Guest;
                self.set_phase(t, Phase::Swapping(displaced));
            },
            Phase::Linking(p) => {
                self.nodes.set(t, Node { waiting: true, ..node });
                let prev = self.nodes[p];
                self.nodes.set(p, Node { next: Some(t), ..prev });
                self.set_phase(t, Phase::Spinning);
            },
            Phase::Spinning => {
                if !node.waiting {
                    self.set_phase(t, Phase::Holding);
                }
            },
            Phase::ReadingSuccessor | Phase::AwaitingSuccessor => {
                match node.next {
                    Some(s) => self.set_phase(t, Phase::Releasing(s)),
                    None => {
                        if self.phases[t] == Phase::ReadingSuccessor {
                            self.set_phase(t, Phase::Detaching);
                        }
                    },
                }
            },
            Phase::Detaching => {
                if self.tail == Slot::Queued(t) {
                    self.tail = Slot::Empty;
                    self.set_phase(t, Phase::Idle);
                } else {
                    self.set_phase(t, Phase::AwaitingSuccessor);
                }
            },
            Phase::Releasing(s) => {
                let succ = self.nodes[s];
                self.nodes.set(s, Node { waiting: false, ..succ });
                self.set_phase(t, Phase::Idle);
            },
            Phase::GuestLocking => {
                if self.tail == Slot::Empty {
                    self.tail = Slot::Guest;
                    self.set_phase(t, Phase::GuestHolding);
                }
            },
            Phase::GuestUnlocking => {
                if self.tail == Slot::Guest {
                    self.tail = Slot::Empty;
                    self.set_phase(t, Phase::Idle);
                }
            },
            Phase::Idle | Phase::Holding | Phase::GuestHolding => {},
        }
    }

    /// Queued acquisition by participant `t` while no one else acts: on a
    /// free lock the first swap finds the tail empty, so `t` holds the lock
    /// at once and its node is the tail.
    pub fn lock(&mut self, t: usize)
        requires
            old(self).wf(),
            t < old(self)@.len(),
            old(self)@.phases[t as int] is Idle,
            old(self)@.tail is Empty,
        ensures
            final(self).wf(),
            final(self)@ == old(self)@.begin_lock(t as int).step(t as int),
            final(self)@.phases[t as int] is Holding,
            final(self)@.tail == Slot::Queued(t),
    {
        self.begin_lock(t);
        self.step(t);
    }

    /// Release of participant `t`'s queued acquisition while no one else
    /// acts. A linked successor is woken and the tail is left alone;
    /// otherwise the tail must still be `t`'s node, and it is emptied.
    pub fn unlock(&mut self, t: usize)
        requires
            old(self).wf(),
            t < old(self)@.len(),
            old(self)@.phases[t as int] is Holding,
            old(self)@.nodes[t as int].next is Some || old(self)@.tail == Slot::Queued(t),
        ensures
            final(self).wf(),
            final(self)@ == old(self)@.begin_unlock(t as int).step(t as int).step(t as int),
            final(self)@.phases == old(self)@.phases.update(t as int, Phase::Idle),
            old(self)@.nodes[t as int].next matches Some(s) ==> {
                &&& final(self)@.tail == old(self)@.tail
                &&& final(self)@.nodes == old(self)@.nodes.update(
                    s as int,
                    Node { waiting: false, ..old(self)@.nodes[s as int] },
                )
            },
            old(self)@.nodes[t as int].next is None ==> {
                &&& final(self)@.tail is Empty
                &&& final(self)@.nodes == old(self)@.nodes
            },
    {
        self.begin_unlock(t);
        self.step(t);
        self.step(t);
    }

    /// Guest acquisition by participant `t` while no one else acts: the tail
    /// is empty, so the first attempt puts the guest marker in it.
    pub fn glock(&mut self, t: usize)
        requires
            old(self).wf(),
            t < old(self)@.len(),
            old(self)@.phases[t as int] is Idle,
            old(self)@.tail is Empty,
        ensures
            final(self).wf(),
            final(self)@ == old(self)@.begin_glock(t as int).step(t as int),
            final(self)@.phases == old(self)@.phases.update(t as int, Phase::GuestHolding),
            final(self)@.tail is Guest,
            final(self)@.nodes == old(self)@.nodes,
    {
        self.begin_glock(t);
        self.step(t);
    }

    /// Guest release by participant `t` while no one else acts: the guest
    /// marker is in the tail, so the first attempt empties it.
    pub fn gunlock(&mut self, t: usize)
        requires
            old(self).wf(),
            t < old(self)@.len(),
            old(self)@.phases[t as int] is GuestHolding,
            old(self)@.tail is Guest,
        ensures
            final(self).wf(),
            final(self)@ == old(self)@.begin_gunlock(t as int).step(t as int),
            final(self)@.phases == old(self)@.phases.update(t as int, Phase::Idle),
            final(self)@.tail is Empty,
            final(self)@.nodes == old(self)@.nodes,
    {
        self.begin_gunlock(t);
        self.step(t);
    }
}

} // verus!
