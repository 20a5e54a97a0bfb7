use vstd::prelude::*;
use vstd::seq_lib::*;

use crate::currency::{Cash, CashView};
use crate::error::AccrualError;
use crate::time::Date;
use crate::types::views;

verus! {

/// What a [`Transaction`] stands for.
pub struct TransactionView {
    pub date: Date,
    pub cash: CashView,
}

/// One raw line of a payment: the day it was booked and the signed amount.
#[derive(Debug)]
pub struct Transaction {
    pub date: Date,
    pub cash: Cash,
}

impl View for Transaction {
    type V = TransactionView;

    open spec fn view(&self) -> TransactionView {
        TransactionView { date: self.date, cash: self.cash@ }
    }
}

impl Clone for Transaction {
    fn clone(&self) -> (r: Transaction)
        ensures
            r@ == self@,
    {
        Transaction { date: self.date, cash: self.cash.clone() }
    }
}

/// The sum of the signed amounts.
pub open spec fn total(transactions: Seq<TransactionView>) -> int {
    transactions.fold_left(0int, |sum: int, t: TransactionView| sum + t.cash.amount)
}

/// Whether all the transactions are in one currency.
pub open spec fn single_currency(transactions: Seq<TransactionView>) -> bool {
    forall|i: int, j: int|
        0 <= i < transactions.len() && 0 <= j < transactions.len() ==> (
        #[trigger] transactions[i]).cash.currency == (#[trigger] transactions[j]).cash.currency
}

/// The net amount of the transactions of one event: nothing where they cancel out, and an
/// error where they disagree on the currency or their sum is out of range.
pub open spec fn net(transactions: Seq<TransactionView>) -> Result<Option<CashView>, AccrualError> {
    if !single_currency(transactions) {
        Err(AccrualError::CurrencyMismatch)
    } else if !(i64::MIN < total(transactions) <= i64::MAX) {
        Err(AccrualError::Overflow)
    } else if total(transactions) == 0 {
        Ok(None)
    } else {
        Ok(
            Some(
                CashView { currency: transactions[0].cash.currency, amount: total(transactions) },
            ),
        )
    }
}

/// The transactions recorded for one event, in the order in which they were recorded.
#[derive(Debug)]
pub struct Payments {
    transactions: Vec<Transaction>,
}

impl View for Payments {
    type V = Seq<TransactionView>;

    closed spec fn view(&self) -> Seq<TransactionView> {
        views(self.transactions@)
    }
}

impl Payments {
    pub fn new() -> (r: Payments)
        ensures
            r@ == Seq::<TransactionView>::empty(),
    {
        let r = Payments { transactions: Vec::new() };
        assert(r@ =~= Seq::<TransactionView>::empty());
        r
    }

    /// Records a payment of the signed amount.
    pub fn add(&mut self, date: Date, amount: Cash)
        ensures
            final(self)@ == old(self)@.push(TransactionView { date, cash: amount@ }),
    {
        let ghost tx = TransactionView { date, cash: amount@ };
        self.transactions.push(Transaction { date, cash: amount });
        assert(self@ =~= old(self)@.push(tx));
    }

    /// Records the taking back of a payment: the amount with the opposite sign.
    pub fn reverse(&mut self, date: Date, amount: Cash)
        ensures
            final(self)@ == old(self)@.push(
                TransactionView {
                    date,
                    cash: CashView { currency: amount@.currency, amount: -amount@.amount },
                },
            ),
    {
        self.add(date, amount.neg());
    }

    pub fn len(&self) -> (r: usize)
        ensures
            r == self@.len(),
    {
        self.transactions.len()
    }

    /// The net amount of what was recorded so far. It reads only: asked twice, it answers the
    /// same.
    pub fn net_amount(&self) -> (r: Result<Option<Cash>, AccrualError>)
        ensures
            match r {
                Ok(Some(cash)) => net(self@) == Ok::<Option<CashView>, AccrualError>(Some(cash@)),
                Ok(None) => net(self@) == Ok::<Option<CashView>, AccrualError>(None),
                Err(e) => net(self@) == Err::<Option<CashView>, AccrualError>(e),
            },
    {
        let n = self.transactions.len();
        let mut sum: i128 = 0;
        let mut i: usize = 0;
        while i < n
            invariant
                0 <= i <= n,
                n == self.transactions.len(),
                sum == total(self@.take(i as int)),
                -(i as int) * 0x8000_0000_0000_0000 <= sum <= i as int * 0x8000_0000_0000_0000,
                forall|j: int| 0 <= j < i ==> (#[trigger] self@[j]).cash.currency
                    == self@[0].cash.currency,
            decreases n - i,
        {
            if self.transactions[i].cash.currency != self.transactions[0].cash.currency {
                assert(self@[i as int].cash.currency != self@[0].cash.currency);
                return Err(AccrualError::CurrencyMismatch);
            }
            let units = self.transactions[i].cash.amount.units();
            assert(self@.take(i + 1).drop_last() =~= self@.take(i as int));
            assert(self@.take(i + 1).last() == self@[i as int]);
            assert((i + 1) * 0x8000_0000_0000_0000 == i * 0x8000_0000_0000_0000
                + 0x8000_0000_0000_0000) by (nonlinear_arith);
            assert(i * 0x8000_0000_0000_0000 <= 0xffff_ffff_ffff_ffff * 0x8000_0000_0000_0000)
                by (nonlinear_arith)
                requires
                    i <= 0xffff_ffff_ffff_ffff,
            ;
            sum = sum + units as i128;
            i = i + 1;
        }
        assert(self@.take(n as int) =~= self@);
        if sum > i64::MAX as i128 || sum <= i64::MIN as i128 {
            return Err(AccrualError::Overflow);
        }
        if sum == 0 {
            return Ok(None);
        }
        let amount = crate::types::Decimal::from_units(sum as i64);
        match amount {
            Some(amount) => Ok(
                Some(Cash { currency: self.transactions[0].cash.currency.clone(), amount }),
            ),
            None => Err(AccrualError::Overflow),
        }
    }

    /// Closes the entry: the net amount, and the transactions that went into it.
    pub fn get_result(self) -> (r: Result<(Option<Cash>, Vec<Transaction>), AccrualError>)
        ensures
            match r {
                Ok((Some(cash), transactions)) => net(self@) == Ok::<
                    Option<CashView>,
                    AccrualError,
                >(Some(cash@)) && views(transactions@) == self@,
                Ok((None, transactions)) => net(self@) == Ok::<Option<CashView>, AccrualError>(
                    None,
                ) && views(transactions@) == self@,
                Err(e) => net(self@) == Err::<Option<CashView>, AccrualError>(e),
            },
    {
        match self.net_amount() {
            Ok(amount) => Ok((amount, self.transactions)),
            Err(e) => Err(e),
        }
    }
}

/// The net amount does not depend on the order in which the transactions were recorded: two
/// lists that hold the same transactions, each as often as the other, have the same net
/// amount or fail alike.
pub proof fn lemma_net_ignores_order(a: Seq<TransactionView>, b: Seq<TransactionView>)
    requires
        a.to_multiset() == b.to_multiset(),
    ensures
        total(a) == total(b),
        single_currency(a) == single_currency(b),
        net(a) == net(b),
{
    broadcast use group_to_multiset_ensures;

    let f = |sum: int, t: TransactionView| sum + t.cash.amount;
    assert(commutative_foldl(f));
    lemma_fold_left_permutation(a, b, f, 0int);
    lemma_single_currency_of_members(a, b);
    lemma_single_currency_of_members(b, a);
    assert(a.len() == a.to_multiset().len());
    assert(b.len() == b.to_multiset().len());
    if single_currency(a) && a.len() > 0 {
        assert(a.to_multiset().count(b[0]) > 0);
        assert(a.contains(b[0]));
        let j = choose|j: int| 0 <= j < a.len() && a[j] == b[0];
        assert(a[j].cash.currency == a[0].cash.currency);
    }
}

/// Where every transaction of `b` is one of `a`, and those of `a` are in one currency, those
/// of `b` are too.
proof fn lemma_single_currency_of_members(a: Seq<TransactionView>, b: Seq<TransactionView>)
    requires
        a.to_multiset() == b.to_multiset(),
    ensures
        single_currency(a) ==> single_currency(b),
{
    broadcast use group_to_multiset_ensures;

    if single_currency(a) {
        assert forall|i: int, j: int| 0 <= i < b.len() && 0 <= j < b.len() implies (
        #[trigger] b[i]).cash.currency == (#[trigger] b[j]).cash.currency by {
            assert(a.to_multiset().count(b[i]) > 0);
            assert(a.to_multiset().count(b[j]) > 0);
            assert(a.contains(b[i]));
            assert(a.contains(b[j]));
            let x = choose|x: int| 0 <= x < a.len() && a[x] == b[i];
            let y = choose|y: int| 0 <= y < a.len() && a[y] == b[j];
            assert(a[x].cash.currency == a[y].cash.currency);
        }
    }
}

} // verus!
