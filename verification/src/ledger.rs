//! An in-memory snapshot oracle: which snapshot, if any, stands at each
//! address.

use crate::account::{AccountSnapshot, SnapshotView};
use crate::address::Address;
use vstd::prelude::*;

verus! {

struct Entry {
    address: Address,
    snapshot: AccountSnapshot,
}

/// What stands at each address once the entries were recorded one after the
/// other: a later entry for an address replaces an earlier one.
spec fn recorded(entries: Seq<Entry>) -> Map<Seq<u8>, SnapshotView>
    decreases entries.len(),
{
    if entries.len() == 0 {
        Map::empty()
    } else {
        recorded(entries.drop_last()).insert(entries.last().address@, entries.last().snapshot@)
    }
}

/// Account state held in memory. It answers the one question a snapshot
/// oracle is asked: the snapshot at an address, or that there is none.
pub struct Ledger {
    entries: Vec<Entry>,
}

impl View for Ledger {
    type V = Map<Seq<u8>, SnapshotView>;

    closed spec fn view(&self) -> Map<Seq<u8>, SnapshotView> {
        recorded(self.entries@)
    }
}

impl Ledger {
    /// A ledger without any account.
    pub fn new() -> (ledger: Ledger)
        ensures
            ledger@ == Map::<Seq<u8>, SnapshotView>::empty(),
    {
        Ledger { entries: Vec::new() }
    }

    /// Puts `snapshot` at `address`, in place of what stood there.
    pub fn insert(&mut self, address: Address, snapshot: AccountSnapshot)
        ensures
            final(self)@ == old(self)@.insert(address@, snapshot@),
    {
        let ghost before = self.entries@;
        self.entries.push(Entry { address, snapshot });
        assert(self.entries@.drop_last() =~= before);
    }

    /// The snapshot at `address`, or `None` where the ledger has none.
    pub fn fetch(&self, address: &Address) -> (found: Option<&AccountSnapshot>)
        ensures
            match found {
                Some(snapshot) => self@.contains_key(address@) && self@[address@] == snapshot@,
                None => !self@.contains_key(address@),
            },
    {
        let mut left: usize = self.entries.len();
        assert(self.entries@.take(left as int) =~= self.entries@);
        while left > 0
            invariant
                left <= self.entries.len(),
                self@.contains_key(address@) == recorded(self.entries@.take(left as int)).contains_key(
                    address@,
                ),
                self@.contains_key(address@) ==> self@[address@] == recorded(
                    self.entries@.take(left as int),
                )[address@],
            decreases left,
        {
            let ghost upto = self.entries@.take(left as int);
            left = left - 1;
            assert(upto.drop_last() =~= self.entries@.take(left as int));
            assert(upto.last() == self.entries@[left as int]);
            if self.entries[left].address.same_as(address) {
                return Some(&self.entries[left].snapshot);
            }
        }
        None
    }
}

} // verus!
