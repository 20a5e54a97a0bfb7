use vstd::prelude::*;

use crate::types::{in_range, option_view, product_in_cents, rounded_to_cents, Decimal};

verus! {

/// What a [`Country`] stands for.
pub struct CountryView {
    pub currency: Seq<char>,
    pub tax_rate: int,
}

/// The country in which taxes are paid: its currency, and the share of an income that it
/// takes as tax.
#[derive(Debug)]
pub struct Country {
    pub currency: String,
    pub tax_rate: Decimal,
}

impl View for Country {
    type V = CountryView;

    open spec fn view(&self) -> CountryView {
        CountryView { currency: self.currency@, tax_rate: self.tax_rate@ }
    }
}

/// The tax that is still to pay on an income: the income times the rate, rounded to whole
/// hundredths, less the tax that was paid already, rounded alike, and never less than
/// nothing. Nothing where an amount on the way leaves the range of a decimal.
pub open spec fn tax_to_pay_of(tax_rate: int, income: int, paid_tax: Option<int>) -> Option<int> {
    let tax = product_in_cents(income, tax_rate);
    if !in_range(tax) {
        None
    } else {
        match paid_tax {
            None => Some(tax),
            Some(paid) => {
                let paid = rounded_to_cents(paid);
                if !in_range(paid) {
                    None
                } else if paid < tax {
                    if in_range(tax - paid) {
                        Some(tax - paid)
                    } else {
                        None
                    }
                } else {
                    Some(0)
                }
            },
        }
    }
}

impl Country {
    pub fn new(currency: &str, tax_rate: Decimal) -> (r: Country)
        ensures
            r@ == (CountryView { currency: currency@, tax_rate: tax_rate@ }),
    {
        Country { currency: currency.to_owned(), tax_rate }
    }

    /// The tax that is still to pay on an income in the country's currency, of which
    /// `paid_tax` was paid already.
    pub fn tax_to_pay(&self, income: Decimal, paid_tax: Option<Decimal>) -> (r: Option<Decimal>)
        ensures
            match r {
                Some(tax) => tax_to_pay_of(self@.tax_rate, income@, option_view(paid_tax)) == Some(
                    tax@,
                ),
                None => tax_to_pay_of(self@.tax_rate, income@, option_view(paid_tax)) is None,
            },
    {
        let tax = match income.mul_to_cents(&self.tax_rate) {
            Some(tax) => tax,
            None => {
                return None;
            },
        };
        match paid_tax {
            None => Some(tax),
            Some(paid) => {
                let paid = match paid.round_to_cents() {
                    Some(paid) => paid,
                    None => {
                        return None;
                    },
                };
                if paid.less_than(&tax) {
                    tax.checked_sub(&paid)
                } else {
                    Some(Decimal::zero())
                }
            },
        }
    }
}

} // verus!
