//! Allocation of the capture directory: the free slot with the lowest
//! number, found by probing the slots from 1 upwards.

use crate::layout::{directory_name, directory_name_text};
use vstd::prelude::*;

verus! {

/// The search for a free slot: `candidate` is the slot to probe next.
#[derive(Clone, Copy, Debug, PartialEq, Eq, Structural)]
pub struct DirectoryProbe {
    pub candidate: u64,
}

/// What a probe leads to.
#[derive(Clone, Copy, Debug, PartialEq, Eq, Structural)]
pub enum Allocation {
    /// The slot is free: the capture goes there.
    Chosen(u64),
    /// The slot is taken: probe on.
    Retry(DirectoryProbe),
    /// The slot is taken and no slot has a higher number.
    Exhausted,
}

/// Whether `slot` is the free slot with the lowest number, where `taken`
/// holds the slots in use.
pub open spec fn is_lowest_free(taken: Set<nat>, slot: nat) -> bool {
    &&& slot >= 1
    &&& !taken.contains(slot)
    &&& forall|k: nat| 1 <= k < slot ==> taken.contains(k)
}

impl DirectoryProbe {
    /// What follows from learning whether the candidate slot exists.
    pub open spec fn next(self, exists: bool) -> Allocation {
        if !exists {
            Allocation::Chosen(self.candidate)
        } else if self.candidate < u64::MAX {
            Allocation::Retry(DirectoryProbe { candidate: (self.candidate + 1) as u64 })
        } else {
            Allocation::Exhausted
        }
    }

    /// Whether the search can have come here with `taken` holding the slots
    /// in use: every slot below the candidate is taken.
    pub open spec fn consistent(self, taken: Set<nat>) -> bool {
        &&& self.candidate >= 1
        &&& forall|k: nat| 1 <= k < self.candidate ==> taken.contains(k)
    }

    /// The search at its start: slot 1 is probed first.
    pub fn new() -> (probe: DirectoryProbe)
        ensures
            probe.candidate == 1,
    {
        DirectoryProbe { candidate: 1 }
    }

    /// The name of the directory in the candidate slot, whose existence is
    /// to be learnt.
    pub fn directory(&self) -> (name: String)
        ensures
            name@ == directory_name(self.candidate as nat),
    {
        directory_name_text(self.candidate)
    }

    /// Takes the answer to whether the candidate's directory exists.
    pub fn step(self, exists: bool) -> (allocation: Allocation)
        ensures
            allocation == self.next(exists),
    {
        if !exists {
            Allocation::Chosen(self.candidate)
        } else if self.candidate < u64::MAX {
            Allocation::Retry(DirectoryProbe { candidate: self.candidate + 1 })
        } else {
            Allocation::Exhausted
        }
    }
}

/// The slots of a list as a set of numbers.
pub open spec fn slots(taken: Seq<u64>) -> Set<nat> {
    Set::new(|k: nat| exists|i: int| 0 <= i < taken.len() && #[trigger] taken[i] == k)
}

fn is_taken(taken: &Vec<u64>, slot: u64) -> (found: bool)
    ensures
        found == slots(taken@).contains(slot as nat),
{
    let mut i: usize = 0;
    while i < taken.len()
        invariant
            i <= taken.len(),
            forall|j: int| 0 <= j < i ==> taken@[j] != slot,
        decreases taken.len() - i,
    {
        if taken[i] == slot {
            return true;
        }
        i = i + 1;
    }
    false
}

/// Allocates a slot where `taken` lists the slots in use: the free slot
/// with the lowest number. It is never one of the slots in use. `None`
/// only where every slot that a `u64` can number is in use.
pub fn allocate_directory(taken: &Vec<u64>) -> (slot: Option<u64>)
    ensures
        match slot {
            Some(slot) => is_lowest_free(slots(taken@), slot as nat),
            None => forall|k: nat| 1 <= k <= u64::MAX ==> slots(taken@).contains(k),
        },
{
    let mut probe = DirectoryProbe::new();
    loop
        invariant
            probe.consistent(slots(taken@)),
        decreases u64::MAX - probe.candidate,
    {
        let exists = is_taken(taken, probe.candidate);
        proof {
            lemma_true_answer_keeps_consistency(probe, slots(taken@));
        }
        match probe.step(exists) {
            Allocation::Chosen(slot) => {
                return Some(slot);
            },
            Allocation::Retry(onward) => {
                probe = onward;
            },
            Allocation::Exhausted => {
                return None;
            },
        }
    }
}

/// The search starts in a state that fits any set of slots in use.
pub proof fn lemma_first_probe_is_consistent(taken: Set<nat>)
    ensures
        (DirectoryProbe { candidate: 1 }).consistent(taken),
{
}

/// A probe that is answered truly never chooses a slot in use: it chooses
/// the free slot with the lowest number, or goes on to a candidate below
/// which every slot is taken, or gives up with every slot taken.
pub proof fn lemma_true_answer_keeps_consistency(probe: DirectoryProbe, taken: Set<nat>)
    requires
        probe.consistent(taken),
    ensures
        match probe.next(taken.contains(probe.candidate as nat)) {
            Allocation::Chosen(slot) => is_lowest_free(taken, slot as nat),
            Allocation::Retry(onward) => onward.consistent(taken) && onward.candidate
                == probe.candidate + 1,
            Allocation::Exhausted => forall|k: nat| 1 <= k <= u64::MAX ==> taken.contains(k),
        },
{
}

/// Two allocations one after the other, the first slot taken in between,
/// choose different slots: the second has the higher number.
pub proof fn lemma_sequential_allocations_differ(taken: Set<nat>, first: nat, second: nat)
    requires
        is_lowest_free(taken, first),
        is_lowest_free(taken.insert(first), second),
    ensures
        first < second,
        !taken.contains(first),
        !taken.contains(second),
{
    if second < first {
        assert(taken.contains(second));
        assert(taken.insert(first).contains(second));
    }
}

} // verus!
