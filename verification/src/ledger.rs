use vstd::prelude::*;
use crate::id::AlkaneId;

verus! {

/// One recorded amount of a per-alkane mapping.
#[derive(Debug, Clone, Copy, PartialEq, Eq, Structural)]
pub struct LedgerEntry {
    pub id: AlkaneId,
    pub amount: u128,
}

/// The amount recorded for `id` in `s`: the last entry for it, or 0 when there is none.
pub open spec fn lookup(s: Seq<LedgerEntry>, id: AlkaneId) -> u128
    decreases s.len(),
{
    if s.len() == 0 {
        0
    } else if s.last().id == id {
        s.last().amount
    } else {
        lookup(s.drop_last(), id)
    }
}

/// A mapping from alkane ids to amounts in which every id not recorded holds 0, as a
/// storage mapping reads.
#[derive(Debug)]
pub struct IdLedger {
    pub entries: Vec<LedgerEntry>,
}

impl IdLedger {
    /// The amount held for `id`.
    pub open spec fn spec_get(&self, id: AlkaneId) -> u128 {
        lookup(self.entries@, id)
    }

    pub fn new() -> (l: IdLedger)
        ensures
            forall|id: AlkaneId| l.spec_get(id) == 0,
    {
        IdLedger { entries: Vec::new() }
    }

    /// The amount held for `id`.
    pub fn get(&self, id: AlkaneId) -> (v: u128)
        ensures
            v == self.spec_get(id),
    {
        let mut i = self.entries.len();
        assert(self.entries@.take(i as int) =~= self.entries@);
        while i > 0
            invariant
                i <= self.entries@.len(),
                lookup(self.entries@, id) == lookup(self.entries@.take(i as int), id),
            decreases i,
        {
            let e = self.entries[i - 1];
            assert(self.entries@.take(i as int).drop_last() =~= self.entries@.take(i - 1));
            if e.id == id {
                return e.amount;
            }
            i = i - 1;
        }
        0
    }

    /// Records `amount` for `id`; every other id keeps its amount.
    pub fn set(&mut self, id: AlkaneId, amount: u128)
        ensures
            final(self).spec_get(id) == amount,
            forall|other: AlkaneId| other != id ==> final(self).spec_get(other) == old(
                self,
            ).spec_get(other),
    {
        let ghost before = self.entries@;
        self.entries.push(LedgerEntry { id, amount });
        assert(self.entries@.drop_last() =~= before);
    }
}

} // verus!
