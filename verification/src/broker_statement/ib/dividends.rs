use vstd::prelude::*;

use super::common::{date_in, has_prefix, number_of, starts_with, value_of, Record};
use super::{handled_as, StatementParser, StatementParserView};
use crate::broker_statement::dividends::DividendId;
use crate::broker_statement::payments::TransactionView;
use crate::broker_statement::taxes::{recorded, AccrualKey};
use crate::currency::CashView;
use crate::error::{Column, RecordError};
use crate::types::chars_of;

verus! {

/// Whether the character is a capital letter of the Latin alphabet.
pub open spec fn is_capital(c: char) -> bool {
    'A' <= c <= 'Z'
}

/// Whether the text is made of capital letters alone.
pub open spec fn all_capitals(s: Seq<char>) -> bool {
    forall|i: int| 0 <= i < s.len() ==> is_capital(#[trigger] s[i])
}

/// How many capital letters stand at the start of `s`.
pub open spec fn leading_capitals(s: Seq<char>) -> nat
    decreases s.len(),
{
    if s.len() > 0 && is_capital(s[0]) {
        1 + leading_capitals(s.skip(1))
    } else {
        0
    }
}

/// A prefix of capital letters that ends at a character that is none, or at the end, is the
/// whole run of leading capital letters.
pub proof fn lemma_leading_capitals(s: Seq<char>, k: int)
    requires
        0 <= k <= s.len(),
        all_capitals(s.take(k)),
        k < s.len() ==> !is_capital(s[k]),
    ensures
        leading_capitals(s) == k,
    decreases k,
{
    if k > 0 {
        assert(s.take(k)[0] == s[0]);
        let rest = s.skip(1);
        assert forall|i: int| 0 <= i < k - 1 implies is_capital(#[trigger] rest.take(k - 1)[i]) by {
            assert(rest.take(k - 1)[i] == s.take(k)[i + 1]);
        }
        lemma_leading_capitals(rest, k - 1);
    }
}

/// The issuer that the description of a dividend, or of a tax on one, starts with: its ticker
/// in capital letters, which ends at an opening bracket or at one space before the bracket.
pub open spec fn issuer_of(description: Seq<char>) -> Result<Seq<char>, RecordError> {
    let k = leading_capitals(description) as int;
    if k >= 1 && ((k < description.len() && description[k] == '(') || (k + 1 < description.len()
        && description[k] == ' ' && description[k + 1] == '(')) {
        Ok(description.subrange(0, k))
    } else {
        Err(RecordError::InvalidDescription)
    }
}

/// Reads the issuer off the description of a dividend or of a tax on one.
pub fn parse_issuer(description: &str) -> (r: Result<String, RecordError>)
    ensures
        match r {
            Ok(issuer) => issuer_of(description@) == Ok::<Seq<char>, RecordError>(issuer@),
            Err(error) => issuer_of(description@) == Err::<Seq<char>, RecordError>(error),
        },
{
    let chars = chars_of(description);
    let n = chars.len();
    let mut k: usize = 0;
    while k < n && 'A' <= chars[k] && chars[k] <= 'Z'
        invariant
            0 <= k <= n,
            n == chars.len(),
            all_capitals(chars@.take(k as int)),
        decreases n - k,
    {
        let ghost before = chars@.take(k as int);
        let ghost after = chars@.take(k + 1);
        k = k + 1;
        proof {
            assert forall|j: int| 0 <= j < after.len() implies is_capital(#[trigger] after[j]) by {
                if j < before.len() {
                    assert(after[j] == before[j]);
                }
            }
        }
    }
    proof {
        lemma_leading_capitals(chars@, k as int);
    }
    if k >= 1 && k < n && (chars[k] == '(' || (n - k > 1 && chars[k] == ' ' && chars[k + 1]
        == '(')) {
        Ok(description.substring_char(0, k).to_owned())
    } else {
        Err(RecordError::InvalidDescription)
    }
}

/// The key and the transaction that a row of a dividend, or of a tax on one, stands for,
/// the amount as the row gives it. Nothing where the row holds a total.
pub open spec fn accrual_of(header: Seq<Seq<char>>, row: Seq<Seq<char>>) -> Result<
    Option<(AccrualKey, TransactionView)>,
    RecordError,
> {
    match value_of(header, row, Column::Currency) {
        Err(error) => Err(error),
        Ok(currency) => if starts_with(currency, "Total"@) {
            Ok(None)
        } else {
            match date_in(header, row, Column::Date) {
                Err(error) => Err(error),
                Ok(date) => match value_of(header, row, Column::Description) {
                    Err(error) => Err(error),
                    Ok(description) => match issuer_of(description) {
                        Err(error) => Err(error),
                        Ok(issuer) => match number_of(header, row, Column::Amount) {
                            Err(error) => Err(error),
                            Ok(amount) => Ok(
                                Some(
                                    (
                                        AccrualKey { date, issuer },
                                        TransactionView {
                                            date,
                                            cash: CashView { currency, amount },
                                        },
                                    ),
                                ),
                            ),
                        },
                    },
                },
            }
        },
    }
}

/// What a row of a dividend, or of a tax on one, holds.
pub struct AccrualRow {
    pub id: DividendId,
    pub cash: crate::currency::Cash,
}

/// Reads a row of a dividend, or of a tax on one.
pub fn parse_accrual(record: &Record) -> (r: Result<Option<AccrualRow>, RecordError>)
    ensures
        match r {
            Ok(Some(accrual)) => accrual_of(record.header_view(), record.values_view()) == Ok::<
                Option<(AccrualKey, TransactionView)>,
                RecordError,
            >(Some((accrual.id@, TransactionView { date: accrual.id.date, cash: accrual.cash@ }))),
            Ok(None) => accrual_of(record.header_view(), record.values_view()) == Ok::<
                Option<(AccrualKey, TransactionView)>,
                RecordError,
            >(None),
            Err(error) => accrual_of(record.header_view(), record.values_view()) == Err::<
                Option<(AccrualKey, TransactionView)>,
                RecordError,
            >(error),
        },
{
    let currency = match record.get_value(Column::Currency) {
        Ok(currency) => currency,
        Err(error) => {
            return Err(error);
        },
    };
    if has_prefix(currency, "Total") {
        return Ok(None);
    }
    let date = match record.parse_date(Column::Date) {
        Ok(date) => date,
        Err(error) => {
            return Err(error);
        },
    };
    let description = match record.get_value(Column::Description) {
        Ok(description) => description,
        Err(error) => {
            return Err(error);
        },
    };
    let issuer = match parse_issuer(description.as_str()) {
        Ok(issuer) => issuer,
        Err(error) => {
            return Err(error);
        },
    };
    let cash = match record.parse_cash(Column::Amount, currency) {
        Ok(cash) => cash,
        Err(error) => {
            return Err(error);
        },
    };
    Ok(Some(AccrualRow { id: DividendId { date, issuer }, cash }))
}

/// The section on dividends: every row but the totals records its amount under the day and
/// the issuer of the dividend.
pub open spec fn dividends_handled(
    header: Seq<Seq<char>>,
    row: Seq<Seq<char>>,
    state: StatementParserView,
) -> Result<StatementParserView, RecordError> {
    match accrual_of(header, row) {
        Err(error) => Err(error),
        Ok(None) => Ok(state),
        Ok(Some((key, transaction))) => Ok(
            StatementParserView { dividends: recorded(state.dividends, key, transaction), ..state },
        ),
    }
}

/// Takes in a row of the section on dividends.
pub fn parse_dividend(parser: &mut StatementParser, record: &Record) -> (r: Result<
    (),
    RecordError,
>)
    ensures
        handled_as(r, final(parser)@) == dividends_handled(
            record.header_view(),
            record.values_view(),
            old(parser)@,
        ),
        r is Err ==> final(parser)@ == old(parser)@,
{
    match parse_accrual(record) {
        Ok(Some(accrual)) => {
            let date = accrual.id.date;
            parser.dividends.record(accrual.id, date, accrual.cash);
            Ok(())
        },
        Ok(None) => Ok(()),
        Err(error) => Err(error),
    }
}

} // verus!
