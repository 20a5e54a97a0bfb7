use vstd::prelude::*;

use super::dividends::DividendId;
use super::payments::{Payments, TransactionView};
use crate::currency::Cash;
use crate::time::Date;

verus! {

/// A withholding tax is found by the day and the issuer of the dividend that it was taken from.
pub type TaxId = DividendId;

pub type TaxAccruals = Payments;

/// What a [`DividendId`] stands for: the day and the issuer of one event.
pub struct AccrualKey {
    pub date: Date,
    pub issuer: Seq<char>,
}

/// What an [`Accrual`] stands for.
pub struct AccrualView {
    pub key: AccrualKey,
    pub transactions: Seq<TransactionView>,
}

/// The transactions recorded under one key.
#[derive(Debug)]
pub struct Accrual {
    pub id: DividendId,
    pub payments: Payments,
}

impl View for Accrual {
    type V = AccrualView;

    open spec fn view(&self) -> AccrualView {
        AccrualView { key: self.id@, transactions: self.payments@ }
    }
}

/// The keys of the entries, in their order.
pub open spec fn keys(entries: Seq<AccrualView>) -> Seq<AccrualKey> {
    Seq::new(entries.len(), |i: int| entries[i].key)
}

/// Whether no key stands twice.
pub open spec fn distinct_keys(entries: Seq<AccrualView>) -> bool {
    forall|i: int, j: int|
        0 <= i < j < entries.len() ==> (#[trigger] entries[i]).key != (#[trigger] entries[j]).key
}

/// Where the key stands among the entries, if it does.
pub open spec fn position(entries: Seq<AccrualView>, key: AccrualKey) -> Option<int> {
    keys(entries).index_of_first(key)
}

/// The entries after a transaction was recorded under the key: added to the key's entry where
/// there is one, and else in a new entry behind all others.
pub open spec fn recorded(entries: Seq<AccrualView>, key: AccrualKey, transaction: TransactionView) -> Seq<
    AccrualView,
> {
    match position(entries, key) {
        Some(i) => entries.update(
            i,
            AccrualView { key, transactions: entries[i].transactions.push(transaction) },
        ),
        None => entries.push(AccrualView { key, transactions: seq![transaction] }),
    }
}

/// The entries without that of the key.
pub open spec fn without(entries: Seq<AccrualView>, key: AccrualKey) -> Seq<AccrualView> {
    match position(entries, key) {
        Some(i) => entries.remove(i),
        None => entries,
    }
}

/// The transactions recorded under the key: none where it has no entry.
pub open spec fn transactions_of(entries: Seq<AccrualView>, key: AccrualKey) -> Seq<
    TransactionView,
> {
    match position(entries, key) {
        Some(i) => entries[i].transactions,
        None => Seq::empty(),
    }
}

/// The first place at which a key stands is its position.
pub proof fn lemma_position(entries: Seq<AccrualView>, key: AccrualKey, i: int)
    requires
        0 <= i <= entries.len(),
        forall|j: int| 0 <= j < i ==> (#[trigger] entries[j]).key != key,
        i < entries.len() ==> entries[i].key == key,
    ensures
        position(entries, key) == if i < entries.len() {
            Some(i)
        } else {
            None
        },
{
    let all = keys(entries);
    all.index_of_first_ensures(key);
    if i < entries.len() {
        assert(all[i] == key);
        assert(all.contains(key));
        let found = all.index_of_first(key)->0;
        if found < i {
            assert(entries[found].key != key);
        }
        if i < found {
            assert(all[i] != key);
        }
    } else {
        if all.contains(key) {
            let j = choose|j: int| 0 <= j < all.len() && all[j] == key;
            assert(entries[j].key != key);
        }
    }
}

/// The pending accruals of one kind: for each key the transactions recorded under it, the keys
/// in the order in which each was first seen. A map that was filled by [`AccrualMap::record`]
/// alone holds no key twice.
#[derive(Debug)]
pub struct AccrualMap {
    entries: Vec<Accrual>,
}

impl View for AccrualMap {
    type V = Seq<AccrualView>;

    closed spec fn view(&self) -> Seq<AccrualView> {
        crate::types::views(self.entries@)
    }
}

impl AccrualMap {
    pub fn new() -> (r: AccrualMap)
        ensures
            r@ == Seq::<AccrualView>::empty(),
    {
        let r = AccrualMap { entries: Vec::new() };
        assert(r@ =~= Seq::<AccrualView>::empty());
        r
    }

    pub fn len(&self) -> (r: usize)
        ensures
            r == self@.len(),
    {
        self.entries.len()
    }

    pub fn is_empty(&self) -> (r: bool)
        ensures
            r == (self@.len() == 0),
    {
        self.entries.len() == 0
    }

    /// Where the entry of the key stands.
    fn find(&self, id: &DividendId) -> (r: Option<usize>)
        ensures
            match r {
                Some(i) => position(self@, id@) == Some(i as int) && i < self@.len() && self@[i as int].key
                    == id@,
                None => position(self@, id@) is None,
            },
    {
        let n = self.entries.len();
        let mut i: usize = 0;
        while i < n
            invariant
                0 <= i <= n,
                n == self.entries.len(),
                forall|j: int| 0 <= j < i ==> (#[trigger] self@[j]).key != id@,
            decreases n - i,
        {
            if self.entries[i].id.same(id) {
                proof {
                    lemma_position(self@, id@, i as int);
                }
                return Some(i);
            }
            i = i + 1;
        }
        proof {
            lemma_position(self@, id@, n as int);
        }
        None
    }

    pub fn contains(&self, id: &DividendId) -> (r: bool)
        ensures
            r == position(self@, id@).is_some(),
    {
        self.find(id).is_some()
    }

    /// Records a transaction of the signed amount under the key.
    pub fn record(&mut self, id: DividendId, date: Date, amount: Cash)
        ensures
            final(self)@ == recorded(old(self)@, id@, TransactionView { date, cash: amount@ }),
            distinct_keys(old(self)@) ==> distinct_keys(final(self)@),
    {
        let ghost before = self@;
        let ghost key = id@;
        let ghost transaction = TransactionView { date, cash: amount@ };
        match self.find(&id) {
            Some(i) => {
                self.entries[i].payments.add(date, amount);
                assert(self@ =~= recorded(before, key, transaction));
            },
            None => {
                let mut payments = Payments::new();
                payments.add(date, amount);
                assert(payments@ =~= seq![transaction]);
                self.entries.push(Accrual { id, payments });
                assert(self@ =~= recorded(before, key, transaction));
            },
        }
        proof {
            if distinct_keys(before) {
                lemma_recorded_distinct(before, key, transaction);
            }
        }
    }

    /// Takes the entry of the key out, if there is one.
    pub fn remove(&mut self, id: &DividendId) -> (r: Option<Payments>)
        ensures
            final(self)@ == without(old(self)@, id@),
            match r {
                Some(payments) => position(old(self)@, id@) is Some && payments@ == transactions_of(
                    old(self)@,
                    id@,
                ),
                None => position(old(self)@, id@) is None,
            },
    {
        let ghost before = self@;
        match self.find(id) {
            Some(i) => {
                let entry = self.entries.remove(i);
                assert(self@ =~= before.remove(i as int));
                Some(entry.payments)
            },
            None => None,
        }
    }

    /// The entries, in their order.
    pub fn into_entries(self) -> (r: Vec<Accrual>)
        ensures
            crate::types::views(r@) == self@,
    {
        self.entries
    }

    /// The keys of the entries, in their order.
    pub fn ids(&self) -> (r: Vec<DividendId>)
        ensures
            crate::types::views(r@) == keys(self@),
    {
        let n = self.entries.len();
        let mut ids: Vec<DividendId> = Vec::new();
        let mut i: usize = 0;
        while i < n
            invariant
                0 <= i <= n,
                n == self.entries.len(),
                crate::types::views(ids@) == keys(self@).take(i as int),
            decreases n - i,
        {
            let id = self.entries[i].id.clone();
            proof {
                crate::types::lemma_views_push(ids@, id);
                assert(keys(self@).take(i + 1) =~= keys(self@).take(i as int).push(id@));
            }
            ids.push(id);
            i = i + 1;
        }
        assert(keys(self@).take(n as int) =~= keys(self@));
        ids
    }
}

/// Recording keeps the keys distinct.
pub proof fn lemma_recorded_distinct(
    entries: Seq<AccrualView>,
    key: AccrualKey,
    transaction: TransactionView,
)
    requires
        distinct_keys(entries),
    ensures
        distinct_keys(recorded(entries, key, transaction)),
{
    let after = recorded(entries, key, transaction);
    keys(entries).index_of_first_ensures(key);
    match position(entries, key) {
        Some(i) => {
            assert(keys(entries)[i] == key);
            assert forall|a: int, b: int| 0 <= a < b < after.len() implies (
            #[trigger] after[a]).key != (#[trigger] after[b]).key by {
                assert(after[a].key == entries[a].key);
                assert(after[b].key == entries[b].key);
            }
        },
        None => {
            assert forall|a: int, b: int| 0 <= a < b < after.len() implies (
            #[trigger] after[a]).key != (#[trigger] after[b]).key by {
                if b == entries.len() {
                    assert(keys(entries)[a] == entries[a].key);
                    assert(keys(entries).contains(entries[a].key));
                } else {
                    assert(after[a].key == entries[a].key);
                    assert(after[b].key == entries[b].key);
                }
            }
        },
    }
}

/// A key has a position among the entries where one of them has it.
pub proof fn lemma_position_some(entries: Seq<AccrualView>, key: AccrualKey)
    ensures
        position(entries, key) is Some <==> exists|i: int|
            0 <= i < entries.len() && (#[trigger] entries[i]).key == key,
        position(entries, key) is Some ==> 0 <= position(entries, key)->0 < entries.len()
            && entries[position(entries, key)->0].key == key,
{
    let all = keys(entries);
    all.index_of_first_ensures(key);
    if position(entries, key) is Some {
        let i = position(entries, key)->0;
        assert(all[i] == key);
        assert(entries[i].key == key);
    }
    if exists|i: int| 0 <= i < entries.len() && (#[trigger] entries[i]).key == key {
        let i = choose|i: int| 0 <= i < entries.len() && (#[trigger] entries[i]).key == key;
        assert(all[i] == key);
        assert(all.contains(key));
    }
}

/// Taking the entry of one key out of entries with distinct keys leaves the keys distinct,
/// and leaves every other key with its transactions.
pub proof fn lemma_without(entries: Seq<AccrualView>, removed: AccrualKey, key: AccrualKey)
    requires
        distinct_keys(entries),
    ensures
        distinct_keys(without(entries, removed)),
        position(without(entries, removed), key) is Some <==> key != removed && position(
            entries,
            key,
        ) is Some,
        key != removed ==> transactions_of(without(entries, removed), key) == transactions_of(
            entries,
            key,
        ),
{
    let after = without(entries, removed);
    lemma_position_some(entries, removed);
    lemma_position_some(entries, key);
    lemma_position_some(after, key);
    match position(entries, removed) {
        Some(r) => {
            assert forall|a: int, b: int| 0 <= a < b < after.len() implies (
            #[trigger] after[a]).key != (#[trigger] after[b]).key by {
                let a0 = if a < r { a } else { a + 1 };
                let b0 = if b < r { b } else { b + 1 };
                assert(after[a] == entries[a0]);
                assert(after[b] == entries[b0]);
            }
            if position(after, key) is Some {
                let i = position(after, key)->0;
                let i0 = if i < r { i } else { i + 1 };
                assert(after[i] == entries[i0]);
                assert(entries[i0].key == key);
                if key == removed {
                    assert(entries[r].key == entries[i0].key);
                }
            }
            if key != removed && position(entries, key) is Some {
                let i0 = position(entries, key)->0;
                let i = if i0 < r { i0 } else { i0 - 1 };
                assert(after[i] == entries[i0]);
                assert(after[i].key == key);
                let found = position(after, key)->0;
                if found != i {
                    let f0 = if found < r { found } else { found + 1 };
                    assert(after[found] == entries[f0]);
                    assert(entries[f0].key == entries[i0].key);
                }
            }
        },
        None => {},
    }
}

} // verus!
