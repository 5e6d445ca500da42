//! Caller-supplied configuration: the expected end-of-month balance table and
//! the per-account records it belongs to.
//!
//! The table maps a `(year, month)` pair to an expected signed balance in
//! integer minor units. It is sparse: a month without an entry is simply not
//! checked. The surrounding application fills it from its configuration file
//! and hands it to the engine read-only.

use vstd::prelude::*;
use crate::schema::MAX_AMOUNT_MINOR;

verus! {

/// One entry of the expected-balance table.
#[derive(Clone, Copy, PartialEq, Eq, Structural, Debug)]
pub struct BankEntry {
    pub year: i32,
    pub month: u32,
    pub balance: i64,
}

impl BankEntry {
    /// The `(year, month)` key of this entry.
    pub open spec fn key(self) -> (int, int) {
        (self.year as int, self.month as int)
    }

    /// A usable entry: a real calendar month, a year the date arithmetic
    /// supports, and a bounded balance.
    pub open spec fn wf(self) -> bool {
        &&& 1 <= self.month <= 12
        &&& 1 <= self.year <= 9999
        &&& -MAX_AMOUNT_MINOR <= self.balance <= MAX_AMOUNT_MINOR
    }
}

/// The map described by a sequence of entries; later entries override
/// earlier ones with the same key.
pub open spec fn entries_map(entries: Seq<BankEntry>) -> Map<(int, int), int>
    decreases entries.len(),
{
    if entries.len() == 0 {
        Map::empty()
    } else {
        entries_map(entries.drop_last()).insert(
            entries.last().key(),
            entries.last().balance as int,
        )
    }
}

/// The expected end-of-month balances for one account, keyed by year and
/// month, balances in signed minor units.
pub struct BankData {
    entries: Vec<BankEntry>,
}

impl View for BankData {
    type V = Map<(int, int), int>;

    closed spec fn view(&self) -> Map<(int, int), int> {
        entries_map(self.entries@)
    }
}

impl BankData {
    /// No two entries name the same month, and every entry is usable.
    pub closed spec fn wf(self) -> bool {
        &&& forall|i: int, j: int|
            0 <= i < j < self.entries@.len()
                ==> (#[trigger] self.entries@[i]).key() != (#[trigger] self.entries@[j]).key()
        &&& forall|i: int| 0 <= i < self.entries@.len() ==> (#[trigger] self.entries@[i]).wf()
    }

    /// An empty table: no month is checked.
    pub fn new() -> (table: BankData)
        ensures
            table.wf(),
            table@ == Map::<(int, int), int>::empty(),
    {
        BankData { entries: Vec::new() }
    }

    /// Sets the expected balance for one month, replacing any earlier value.
    pub fn set(&mut self, year: i32, month: u32, balance: i64)
        requires
            old(self).wf(),
            1 <= month <= 12,
            1 <= year <= 9999,
            -MAX_AMOUNT_MINOR <= balance <= MAX_AMOUNT_MINOR,
        ensures
            final(self).wf(),
            final(self)@ == old(self)@.insert((year as int, month as int), balance as int),
    {
        let n = self.entries.len();
        let mut i: usize = 0;
        while i < n
            invariant
                n == self.entries@.len(),
                i <= n,
                self == old(self),
                old(self).wf(),
                1 <= month <= 12,
                1 <= year <= 9999,
                -MAX_AMOUNT_MINOR <= balance <= MAX_AMOUNT_MINOR,
                forall|j: int|
                    0 <= j < i ==> (#[trigger] self.entries@[j]).key()
                        != (year as int, month as int),
            decreases n - i,
        {
            if self.entries[i].year == year && self.entries[i].month == month {
                let entry = BankEntry { year, month, balance };
                let ghost before = self.entries@;
                self.entries[i] = entry;
                proof {
                    lemma_entries_map_update(before, i as int, entry);
                    assert(forall|a: int, b: int|
                        0 <= a < b < self.entries@.len()
                            ==> (#[trigger] self.entries@[a]).key()
                            != (#[trigger] self.entries@[b]).key()) by {
                        assert(forall|a: int|
                            0 <= a < before.len() && a != i
                                ==> (#[trigger] self.entries@[a]) == before[a]);
                    }
                }
                return ;
            }
            i += 1;
        }
        let ghost before = self.entries@;
        self.entries.push(BankEntry { year, month, balance });
        proof {
            assert(self.entries@.drop_last() =~= before);
            assert(forall|a: int|
                0 <= a < before.len() ==> (#[trigger] self.entries@[a]) == before[a]);
        }
    }

    /// Looks a month up: the expected balance if the table names the month.
    pub fn lookup(&self, year: i32, month: u32) -> (expected: Option<i64>)
        requires
            self.wf(),
        ensures
            match expected {
                Some(v) => self@.contains_key((year as int, month as int))
                    && self@[(year as int, month as int)] == v as int
                    && -MAX_AMOUNT_MINOR <= v <= MAX_AMOUNT_MINOR,
                None => !self@.contains_key((year as int, month as int)),
            },
    {
        let n = self.entries.len();
        let mut i: usize = 0;
        while i < n
            invariant
                self.wf(),
                n == self.entries@.len(),
                i <= n,
                forall|j: int|
                    0 <= j < i ==> (#[trigger] self.entries@[j]).key()
                        != (year as int, month as int),
            decreases n - i,
        {
            if self.entries[i].year == year && self.entries[i].month == month {
                proof {
                    lemma_entries_map_get(self.entries@, i as int);
                }
                return Some(self.entries[i].balance);
            }
            i += 1;
        }
        proof {
            lemma_entries_map_absent(self.entries@, (year as int, month as int));
        }
        None
    }
}

/// One account to reconcile: its display name, its id at the remote
/// service, and its expected end-of-month balances.
pub struct Account {
    pub name: String,
    pub firefly_id: usize,
    pub data: BankData,
}

/// Everything a run needs: the bearer token and base URL of the remote
/// service, and the accounts to replay, each with its expected-balance
/// table.
pub struct Configuration {
    pub token: String,
    pub base_url: String,
    pub accounts: Vec<Account>,
}

/// A key held by no entry is not in the map.
proof fn lemma_entries_map_absent(entries: Seq<BankEntry>, key: (int, int))
    requires
        forall|i: int| 0 <= i < entries.len() ==> (#[trigger] entries[i]).key() != key,
    ensures
        !entries_map(entries).contains_key(key),
    decreases entries.len(),
{
    if entries.len() > 0 {
        lemma_entries_map_absent(entries.drop_last(), key);
    }
}

/// With pairwise-distinct keys, the map holds exactly each entry's balance.
proof fn lemma_entries_map_get(entries: Seq<BankEntry>, i: int)
    requires
        0 <= i < entries.len(),
        forall|a: int, b: int|
            0 <= a < b < entries.len()
                ==> (#[trigger] entries[a]).key() != (#[trigger] entries[b]).key(),
    ensures
        entries_map(entries).contains_key(entries[i].key()),
        entries_map(entries)[entries[i].key()] == entries[i].balance as int,
    decreases entries.len(),
{
    if i < entries.len() - 1 {
        lemma_entries_map_get(entries.drop_last(), i);
    }
}

/// Replacing the one entry that holds a key rewrites that key's value.
proof fn lemma_entries_map_update(entries: Seq<BankEntry>, i: int, entry: BankEntry)
    requires
        0 <= i < entries.len(),
        entries[i].key() == entry.key(),
        forall|a: int, b: int|
            0 <= a < b < entries.len()
                ==> (#[trigger] entries[a]).key() != (#[trigger] entries[b]).key(),
    ensures
        entries_map(entries.update(i, entry))
            =~= entries_map(entries).insert(entry.key(), entry.balance as int),
    decreases entries.len(),
{
    let updated = entries.update(i, entry);
    if i == entries.len() - 1 {
        assert(updated.drop_last() =~= entries.drop_last());
    } else {
        lemma_entries_map_update(entries.drop_last(), i, entry);
        assert(updated.drop_last() =~= entries.drop_last().update(i, entry));
        assert(entries.last().key() != entry.key());
    }
}

} // verus!
