use vstd::prelude::*;

use crate::time::Date;
use crate::types::{lemma_views_push, views, Decimal};

verus! {

/// What a [`Cash`] stands for: a number of millionths of a currency's unit.
pub struct CashView {
    pub currency: Seq<char>,
    pub amount: int,
}

/// An amount of money in some currency.
#[derive(Debug)]
pub struct Cash {
    pub currency: String,
    pub amount: Decimal,
}

impl View for Cash {
    type V = CashView;

    open spec fn view(&self) -> CashView {
        CashView { currency: self.currency@, amount: self.amount@ }
    }
}

impl Clone for Cash {
    fn clone(&self) -> (r: Cash)
        ensures
            r@ == self@,
    {
        Cash { currency: self.currency.clone(), amount: self.amount }
    }
}

impl Cash {
    pub fn new(currency: &str, amount: Decimal) -> (r: Cash)
        ensures
            r@ == (CashView { currency: currency@, amount: amount@ }),
    {
        Cash { currency: currency.to_owned(), amount }
    }

    /// The same amount with the opposite sign.
    pub fn neg(&self) -> (r: Cash)
        ensures
            r@ == (CashView { currency: self@.currency, amount: -self@.amount }),
    {
        Cash { currency: self.currency.clone(), amount: self.amount.neg() }
    }

    pub fn is_zero(&self) -> (r: bool)
        ensures
            r == (self@.amount == 0),
    {
        self.amount.is_zero()
    }
}

/// What a [`Conversion`] stands for.
pub struct ConversionView {
    pub date: Date,
    pub cash: CashView,
    pub currency: Seq<char>,
}

/// What is asked of the currency converter: the worth of an amount of money in another
/// currency on a given day.
#[derive(Debug)]
pub struct Conversion {
    pub date: Date,
    pub cash: Cash,
    pub currency: String,
}

impl View for Conversion {
    type V = ConversionView;

    open spec fn view(&self) -> ConversionView {
        ConversionView { date: self.date, cash: self.cash@, currency: self.currency@ }
    }
}

/// What a [`CashAssets`] stands for.
pub struct CashAssetsView {
    pub date: Date,
    pub cash: CashView,
}

/// An amount of money that came to the account, or left it, on some day.
#[derive(Debug)]
pub struct CashAssets {
    pub date: Date,
    pub cash: Cash,
}

impl View for CashAssets {
    type V = CashAssetsView;

    open spec fn view(&self) -> CashAssetsView {
        CashAssetsView { date: self.date, cash: self.cash@ }
    }
}

impl CashAssets {
    pub fn new_from_cash(date: Date, cash: Cash) -> (r: CashAssets)
        ensures
            r@ == (CashAssetsView { date, cash: cash@ }),
    {
        CashAssets { date, cash }
    }
}

/// The currencies of the balances, in their order.
pub open spec fn currencies(balances: Seq<CashView>) -> Seq<Seq<char>> {
    Seq::new(balances.len(), |i: int| balances[i].currency)
}

/// The balances after an amount was paid in: added to the balance of its currency where there
/// is one, and else a new balance behind the others; nothing where the sum would leave the
/// range of an amount.
pub open spec fn deposited(balances: Seq<CashView>, cash: CashView) -> Option<Seq<CashView>> {
    match currencies(balances).index_of_first(cash.currency) {
        Some(i) => {
            let sum = balances[i].amount + cash.amount;
            if i64::MIN < sum <= i64::MAX {
                Some(balances.update(i, CashView { currency: cash.currency, amount: sum }))
            } else {
                None
            }
        },
        None => Some(balances.push(cash)),
    }
}

/// The first balance in a currency is the one that a deposit in that currency goes to.
pub proof fn lemma_first_currency(balances: Seq<CashView>, currency: Seq<char>, i: int)
    requires
        0 <= i <= balances.len(),
        forall|j: int| 0 <= j < i ==> (#[trigger] balances[j]).currency != currency,
        i < balances.len() ==> balances[i].currency == currency,
    ensures
        currencies(balances).index_of_first(currency) == if i < balances.len() {
            Some(i)
        } else {
            None
        },
{
    let all = currencies(balances);
    all.index_of_first_ensures(currency);
    if i < balances.len() {
        assert(all[i] == currency);
        assert(all.contains(currency));
        let found = all.index_of_first(currency)->0;
        if found < i {
            assert(balances[found].currency != currency);
        }
        if i < found {
            assert(all[i] != currency);
        }
    } else {
        if all.contains(currency) {
            let j = choose|j: int| 0 <= j < all.len() && all[j] == currency;
            assert(balances[j].currency != currency);
        }
    }
}

/// The cash on an account: one balance for each currency, in the order in which the
/// currencies were first paid in.
#[derive(Debug)]
pub struct MultiCurrencyCashAccount {
    assets: Vec<Cash>,
}

impl View for MultiCurrencyCashAccount {
    type V = Seq<CashView>;

    closed spec fn view(&self) -> Seq<CashView> {
        views(self.assets@)
    }
}

impl MultiCurrencyCashAccount {
    pub fn new() -> (r: MultiCurrencyCashAccount)
        ensures
            r@ == Seq::<CashView>::empty(),
    {
        let r = MultiCurrencyCashAccount { assets: Vec::new() };
        assert(r@ =~= Seq::<CashView>::empty());
        r
    }

    pub fn is_empty(&self) -> (r: bool)
        ensures
            r == (self@.len() == 0),
    {
        self.assets.len() == 0
    }

    pub fn len(&self) -> (r: usize)
        ensures
            r == self@.len(),
    {
        self.assets.len()
    }

    /// The balance in the currency, where there is one.
    pub fn get(&self, currency: &str) -> (r: Option<Decimal>)
        ensures
            match r {
                Some(amount) => currencies(self@).index_of_first(currency@) is Some && amount@
                    == self@[currencies(self@).index_of_first(currency@)->0].amount,
                None => currencies(self@).index_of_first(currency@) is None,
            },
    {
        let wanted = currency.to_owned();
        match self.find(&wanted) {
            Some(i) => Some(self.assets[i].amount),
            None => None,
        }
    }

    fn find(&self, currency: &String) -> (r: Option<usize>)
        ensures
            match r {
                Some(i) => currencies(self@).index_of_first(currency@) == Some(i as int) && i
                    < self@.len() && self@[i as int].currency == currency@,
                None => currencies(self@).index_of_first(currency@) is None,
            },
    {
        let n = self.assets.len();
        let mut i: usize = 0;
        while i < n
            invariant
                0 <= i <= n,
                n == self.assets.len(),
                forall|j: int| 0 <= j < i ==> (#[trigger] self@[j]).currency != currency@,
            decreases n - i,
        {
            if self.assets[i].currency == *currency {
                proof {
                    lemma_first_currency(self@, currency@, i as int);
                }
                return Some(i);
            }
            i = i + 1;
        }
        proof {
            lemma_first_currency(self@, currency@, n as int);
        }
        None
    }

    /// Pays an amount in. Where the balance would leave the range of an amount, nothing
    /// changes and the answer is `false`.
    pub fn deposit(&mut self, cash: Cash) -> (r: bool)
        ensures
            match deposited(old(self)@, cash@) {
                Some(balances) => r && final(self)@ == balances,
                None => !r && final(self)@ == old(self)@,
            },
    {
        let ghost before = self@;
        match self.find(&cash.currency) {
            Some(i) => {
                match self.assets[i].amount.checked_add(&cash.amount) {
                    Some(sum) => {
                        let ghost balance = Cash { currency: cash.currency, amount: sum };
                        self.assets.set(i, Cash { currency: cash.currency, amount: sum });
                        assert(self@ =~= before.update(i as int, balance@));
                        true
                    },
                    None => false,
                }
            },
            None => {
                proof {
                    lemma_views_push(self.assets@, cash);
                }
                self.assets.push(cash);
                true
            },
        }
    }
}

} // verus!
