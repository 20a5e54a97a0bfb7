use vstd::prelude::*;

use super::common::Record;
use super::dividends::{accrual_of, parse_accrual};
use super::{handled_as, StatementParser, StatementParserView};
use crate::broker_statement::payments::TransactionView;
use crate::broker_statement::taxes::recorded;
use crate::currency::CashView;
use crate::error::RecordError;

verus! {

/// The transaction with the opposite sign.
pub open spec fn negated(transaction: TransactionView) -> TransactionView {
    TransactionView {
        date: transaction.date,
        cash: CashView {
            currency: transaction.cash.currency,
            amount: -transaction.cash.amount,
        },
    }
}

/// The section on withholding tax: the statement writes a tax that was withheld as a negative
/// amount and a tax that was given back as a positive one, so every row but the totals
/// records its amount, with the opposite sign, under the day and the issuer of the dividend.
pub open spec fn withholding_tax_handled(
    header: Seq<Seq<char>>,
    row: Seq<Seq<char>>,
    state: StatementParserView,
) -> Result<StatementParserView, RecordError> {
    match accrual_of(header, row) {
        Err(error) => Err(error),
        Ok(None) => Ok(state),
        Ok(Some((key, transaction))) => Ok(
            StatementParserView { taxes: recorded(state.taxes, key, negated(transaction)), ..state },
        ),
    }
}

/// Takes in a row of the section on withholding tax.
pub fn parse_withholding_tax(parser: &mut StatementParser, record: &Record) -> (r: Result<
    (),
    RecordError,
>)
    ensures
        handled_as(r, final(parser)@) == withholding_tax_handled(
            record.header_view(),
            record.values_view(),
            old(parser)@,
        ),
        r is Err ==> final(parser)@ == old(parser)@,
{
    match parse_accrual(record) {
        Ok(Some(accrual)) => {
            let date = accrual.id.date;
            parser.taxes.record(accrual.id, date, accrual.cash.neg());
            Ok(())
        },
        Ok(None) => Ok(()),
        Err(error) => Err(error),
    }
}

} // verus!
