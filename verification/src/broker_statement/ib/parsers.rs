use vstd::prelude::*;

use super::common::{number_of, date_in, has_prefix, starts_with, text_is, value_of, Record};
use super::{handled_as, StatementParser, StatementParserView};
use crate::broker_statement::{
    set_option, BrokerStatementBuilderView, InstrumentName, InstrumentNameView,
};
use crate::currency::{deposited, Cash, CashAssets, CashAssetsView, CashView};
use crate::error::{Column, Field, RecordError};
use crate::time::parsing::{chrono_date, date_of, parse_date};
use crate::time::Date;
use crate::types::{chars_of, lemma_views_push};

verus! {

/// The format in which the statement writes the two ends of its period.
pub open spec fn period_date_format() -> Seq<char> {
    "%B %d, %Y"@
}

/// The period that a text names: two dates with a dash between them, and a space on either
/// side of the dash.
pub open spec fn period_of(text: Seq<char>) -> Result<(Date, Date), RecordError> {
    match text.index_of_first('-') {
        Some(dash) => if 1 <= dash && dash + 1 < text.len() && text[dash - 1] == ' ' && text[dash
            + 1] == ' ' {
            match (
                date_of(chrono_date(text.subrange(0, dash - 1), period_date_format())),
                date_of(chrono_date(text.subrange(dash + 2, text.len() as int), period_date_format())),
            ) {
                (Ok(start), Ok(end)) => Ok((start, end)),
                _ => Err(RecordError::InvalidPeriod),
            }
        } else {
            Err(RecordError::InvalidPeriod)
        },
        None => Err(RecordError::InvalidPeriod),
    }
}

/// Where the character first stands in the text.
pub fn find_char(text: &Vec<char>, wanted: char) -> (r: Option<usize>)
    ensures
        match r {
            Some(i) => text@.index_of_first(wanted) == Some(i as int) && i < text.len(),
            None => text@.index_of_first(wanted) is None,
        },
{
    let n = text.len();
    let mut i: usize = 0;
    while i < n
        invariant
            0 <= i <= n,
            n == text.len(),
            forall|j: int| 0 <= j < i ==> text[j] != wanted,
        decreases n - i,
    {
        if text[i] == wanted {
            proof {
                text@.index_of_first_ensures(wanted);
                assert(text@.contains(wanted));
                let found = text@.index_of_first(wanted)->0;
                if found < i {
                    assert(text[found] != wanted);
                }
            }
            return Some(i);
        }
        i = i + 1;
    }
    proof {
        text@.index_of_first_ensures(wanted);
        if text@.contains(wanted) {
            let j = choose|j: int| 0 <= j < text@.len() && text@[j] == wanted;
            assert(text[j] != wanted);
        }
    }
    None
}

/// Reads the period of a statement.
pub fn parse_period(text: &str) -> (r: Result<(Date, Date), RecordError>)
    ensures
        r == period_of(text@),
{
    let chars = chars_of(text);
    let dash = match find_char(&chars, '-') {
        Some(dash) => dash,
        None => {
            return Err(RecordError::InvalidPeriod);
        },
    };
    if dash < 1 || dash + 1 >= chars.len() || chars[dash - 1] != ' ' || chars[dash + 1] != ' ' {
        return Err(RecordError::InvalidPeriod);
    }
    let start = parse_date(text.substring_char(0, dash - 1), "%B %d, %Y");
    let end = parse_date(text.substring_char(dash + 2, chars.len()), "%B %d, %Y");
    match (start, end) {
        (Ok(start), Ok(end)) => Ok((start, end)),
        _ => Err(RecordError::InvalidPeriod),
    }
}

/// The section with the statement's own data: the row that names the period sets it, and
/// every other row is passed over.
pub open spec fn statement_info_handled(
    header: Seq<Seq<char>>,
    row: Seq<Seq<char>>,
    state: StatementParserView,
) -> Result<StatementParserView, RecordError> {
    match value_of(header, row, Column::FieldName) {
        Err(error) => Err(error),
        Ok(name) => if name != "Period"@ {
            Ok(state)
        } else {
            match value_of(header, row, Column::FieldValue) {
                Err(error) => Err(error),
                Ok(text) => match period_of(text) {
                    Err(error) => Err(error),
                    Ok(period) => if state.statement.period is Some {
                        Err(RecordError::Duplicate(Field::Period))
                    } else {
                        Ok(
                            StatementParserView {
                                statement: BrokerStatementBuilderView {
                                    period: Some(period),
                                    ..state.statement
                                },
                                ..state
                            },
                        )
                    },
                },
            }
        },
    }
}

/// Takes in a row of the section with the statement's own data.
pub fn parse_statement_info(parser: &mut StatementParser, record: &Record) -> (r: Result<
    (),
    RecordError,
>)
    ensures
        handled_as(r, final(parser)@) == statement_info_handled(
            record.header_view(),
            record.values_view(),
            old(parser)@,
        ),
        r is Err ==> final(parser)@ == old(parser)@,
{
    let name = match record.get_value(Column::FieldName) {
        Ok(name) => name,
        Err(error) => {
            return Err(error);
        },
    };
    if !text_is(name, "Period") {
        return Ok(());
    }
    let text = match record.get_value(Column::FieldValue) {
        Ok(text) => text,
        Err(error) => {
            return Err(error);
        },
    };
    let period = match parse_period(text.as_str()) {
        Ok(period) => period,
        Err(error) => {
            return Err(error);
        },
    };
    parser.statement.set_period(period)
}

/// The section on the account: the row that names the base currency sets it, and every other
/// row is passed over.
pub open spec fn account_information_handled(
    header: Seq<Seq<char>>,
    row: Seq<Seq<char>>,
    state: StatementParserView,
) -> Result<StatementParserView, RecordError> {
    match value_of(header, row, Column::FieldName) {
        Err(error) => Err(error),
        Ok(name) => match value_of(header, row, Column::FieldValue) {
            Err(error) => Err(error),
            Ok(value) => if name != "Base Currency"@ {
                Ok(state)
            } else if state.base_currency is Some {
                Err(RecordError::Duplicate(Field::BaseCurrency))
            } else {
                Ok(StatementParserView { base_currency: Some(value), ..state })
            },
        },
    }
}

/// Takes in a row of the section on the account.
pub fn parse_account_information(parser: &mut StatementParser, record: &Record) -> (r: Result<
    (),
    RecordError,
>)
    ensures
        handled_as(r, final(parser)@) == account_information_handled(
            record.header_view(),
            record.values_view(),
            old(parser)@,
        ),
        r is Err ==> final(parser)@ == old(parser)@,
{
    let name = match record.get_value(Column::FieldName) {
        Ok(name) => name,
        Err(error) => {
            return Err(error);
        },
    };
    let value = match record.get_value(Column::FieldValue) {
        Ok(value) => value,
        Err(error) => {
            return Err(error);
        },
    };
    if !text_is(name, "Base Currency") {
        return Ok(());
    }
    set_option(Field::BaseCurrency, &mut parser.base_currency, value.clone())
}

/// An amount in the base currency, which must be known.
pub open spec fn base_cash(state: StatementParserView, amount: int) -> Result<CashView, RecordError> {
    match state.base_currency {
        Some(currency) => Ok(CashView { currency, amount }),
        None => Err(RecordError::UnknownBaseCurrency),
    }
}

/// The section on the change of the net asset value: the row with the starting value says
/// whether the account held anything when the period began, the row with the ending value
/// sets the total value of the account, in the base currency, and every other row is passed
/// over.
pub open spec fn change_in_nav_handled(
    header: Seq<Seq<char>>,
    row: Seq<Seq<char>>,
    state: StatementParserView,
) -> Result<StatementParserView, RecordError> {
    match value_of(header, row, Column::FieldName) {
        Err(error) => Err(error),
        Ok(name) => if name == "Starting Value"@ {
            match number_of(header, row, Column::FieldValue) {
                Err(error) => Err(error),
                Ok(amount) => Ok(
                    StatementParserView {
                        statement: BrokerStatementBuilderView {
                            starting_assets: amount != 0,
                            ..state.statement
                        },
                        ..state
                    },
                ),
            }
        } else if name != "Ending Value"@ {
            Ok(state)
        } else {
            match number_of(header, row, Column::FieldValue) {
                Err(error) => Err(error),
                Ok(amount) => match base_cash(state, amount) {
                    Err(error) => Err(error),
                    Ok(total_value) => if state.statement.total_value is Some {
                        Err(RecordError::Duplicate(Field::TotalValue))
                    } else {
                        Ok(
                            StatementParserView {
                                statement: BrokerStatementBuilderView {
                                    total_value: Some(total_value),
                                    ..state.statement
                                },
                                ..state
                            },
                        )
                    },
                },
            }
        },
    }
}

/// Takes in a row of the section on the change of the net asset value.
pub fn parse_change_in_nav(parser: &mut StatementParser, record: &Record) -> (r: Result<
    (),
    RecordError,
>)
    ensures
        handled_as(r, final(parser)@) == change_in_nav_handled(
            record.header_view(),
            record.values_view(),
            old(parser)@,
        ),
        r is Err ==> final(parser)@ == old(parser)@,
{
    let name = match record.get_value(Column::FieldName) {
        Ok(name) => name,
        Err(error) => {
            return Err(error);
        },
    };
    if text_is(name, "Starting Value") {
        return match record.parse_number(Column::FieldValue) {
            Ok(amount) => {
                parser.statement.starting_assets = !amount.is_zero();
                Ok(())
            },
            Err(error) => Err(error),
        };
    }
    if !text_is(name, "Ending Value") {
        return Ok(());
    }
    let amount = match record.parse_number(Column::FieldValue) {
        Ok(amount) => amount,
        Err(error) => {
            return Err(error);
        },
    };
    let currency = match &parser.base_currency {
        Some(currency) => currency.clone(),
        None => {
            return Err(RecordError::UnknownBaseCurrency);
        },
    };
    parser.statement.set_total_value(Cash { currency, amount })
}

/// The cash report: a row with the ending cash either sets the summary in the base currency
/// or is paid in to the balance of its currency; every other row is passed over.
pub open spec fn cash_report_handled(
    header: Seq<Seq<char>>,
    row: Seq<Seq<char>>,
    state: StatementParserView,
) -> Result<StatementParserView, RecordError> {
    match value_of(header, row, Column::CurrencySummary) {
        Err(error) => Err(error),
        Ok(kind) => if kind != "Ending Cash"@ {
            Ok(state)
        } else {
            match value_of(header, row, Column::Currency) {
                Err(error) => Err(error),
                Ok(currency) => match number_of(header, row, Column::Total) {
                    Err(error) => Err(error),
                    Ok(amount) => if currency == "Base Currency Summary"@ {
                        match base_cash(state, amount) {
                            Err(error) => Err(error),
                            Ok(summary) => if state.base_currency_summary is Some {
                                Err(RecordError::Duplicate(Field::BaseCurrencySummary))
                            } else {
                                Ok(
                                    StatementParserView {
                                        base_currency_summary: Some(summary),
                                        ..state
                                    },
                                )
                            },
                        }
                    } else {
                        match deposited(state.statement.cash_assets, CashView { currency, amount }) {
                            None => Err(RecordError::Overflow),
                            Some(cash_assets) => Ok(
                                StatementParserView {
                                    statement: BrokerStatementBuilderView {
                                        cash_assets,
                                        ..state.statement
                                    },
                                    ..state
                                },
                            ),
                        }
                    },
                },
            }
        },
    }
}

/// Takes in a row of the cash report.
pub fn parse_cash_report(parser: &mut StatementParser, record: &Record) -> (r: Result<
    (),
    RecordError,
>)
    ensures
        handled_as(r, final(parser)@) == cash_report_handled(
            record.header_view(),
            record.values_view(),
            old(parser)@,
        ),
        r is Err ==> final(parser)@ == old(parser)@,
{
    let kind = match record.get_value(Column::CurrencySummary) {
        Ok(kind) => kind,
        Err(error) => {
            return Err(error);
        },
    };
    if !text_is(kind, "Ending Cash") {
        return Ok(());
    }
    let currency = match record.get_value(Column::Currency) {
        Ok(currency) => currency,
        Err(error) => {
            return Err(error);
        },
    };
    let amount = match record.parse_number(Column::Total) {
        Ok(amount) => amount,
        Err(error) => {
            return Err(error);
        },
    };
    if text_is(currency, "Base Currency Summary") {
        let base = match &parser.base_currency {
            Some(base) => base.clone(),
            None => {
                return Err(RecordError::UnknownBaseCurrency);
            },
        };
        set_option(
            Field::BaseCurrencySummary,
            &mut parser.base_currency_summary,
            Cash { currency: base, amount },
        )
    } else {
        if parser.statement.cash_assets.deposit(Cash { currency: currency.clone(), amount }) {
            Ok(())
        } else {
            Err(RecordError::Overflow)
        }
    }
}

/// The section on deposits and withdrawals: every row is a deposit, or a withdrawal where the
/// amount is negative, but for the rows with the totals, which are passed over.
pub open spec fn deposits_handled(
    header: Seq<Seq<char>>,
    row: Seq<Seq<char>>,
    state: StatementParserView,
) -> Result<StatementParserView, RecordError> {
    match value_of(header, row, Column::Currency) {
        Err(error) => Err(error),
        Ok(currency) => if starts_with(currency, "Total"@) {
            Ok(state)
        } else {
            match date_in(header, row, Column::SettleDate) {
                Err(error) => Err(error),
                Ok(date) => match number_of(header, row, Column::Amount) {
                    Err(error) => Err(error),
                    Ok(amount) => Ok(
                        StatementParserView {
                            statement: BrokerStatementBuilderView {
                                deposits: state.statement.deposits.push(
                                    CashAssetsView { date, cash: CashView { currency, amount } },
                                ),
                                ..state.statement
                            },
                            ..state
                        },
                    ),
                },
            }
        },
    }
}

/// Takes in a row of the section on deposits and withdrawals.
pub fn parse_deposit(parser: &mut StatementParser, record: &Record) -> (r: Result<
    (),
    RecordError,
>)
    ensures
        handled_as(r, final(parser)@) == deposits_handled(
            record.header_view(),
            record.values_view(),
            old(parser)@,
        ),
        r is Err ==> final(parser)@ == old(parser)@,
{
    let currency = match record.get_value(Column::Currency) {
        Ok(currency) => currency,
        Err(error) => {
            return Err(error);
        },
    };
    if has_prefix(currency, "Total") {
        return Ok(());
    }
    let date = match record.parse_date(Column::SettleDate) {
        Ok(date) => date,
        Err(error) => {
            return Err(error);
        },
    };
    let cash = match record.parse_cash(Column::Amount, currency) {
        Ok(cash) => cash,
        Err(error) => {
            return Err(error);
        },
    };
    let deposit = CashAssets::new_from_cash(date, cash);
    proof {
        lemma_views_push(parser.statement.deposits@, deposit);
    }
    parser.statement.deposits.push(deposit);
    Ok(())
}

/// The section on the instruments: every row gives a ticker its name.
pub open spec fn instrument_information_handled(
    header: Seq<Seq<char>>,
    row: Seq<Seq<char>>,
    state: StatementParserView,
) -> Result<StatementParserView, RecordError> {
    match value_of(header, row, Column::Symbol) {
        Err(error) => Err(error),
        Ok(ticker) => match value_of(header, row, Column::Description) {
            Err(error) => Err(error),
            Ok(name) => Ok(
                StatementParserView {
                    statement: BrokerStatementBuilderView {
                        instrument_names: state.statement.instrument_names.push(
                            InstrumentNameView { ticker, name },
                        ),
                        ..state.statement
                    },
                    ..state
                },
            ),
        },
    }
}

/// Takes in a row of the section on the instruments.
pub fn parse_instrument_information(parser: &mut StatementParser, record: &Record) -> (r: Result<
    (),
    RecordError,
>)
    ensures
        handled_as(r, final(parser)@) == instrument_information_handled(
            record.header_view(),
            record.values_view(),
            old(parser)@,
        ),
        r is Err ==> final(parser)@ == old(parser)@,
{
    let ticker = match record.get_value(Column::Symbol) {
        Ok(ticker) => ticker,
        Err(error) => {
            return Err(error);
        },
    };
    let name = match record.get_value(Column::Description) {
        Ok(name) => name,
        Err(error) => {
            return Err(error);
        },
    };
    let entry = InstrumentName { ticker: ticker.clone(), name: name.clone() };
    proof {
        lemma_views_push(parser.statement.instrument_names@, entry);
    }
    parser.statement.instrument_names.push(entry);
    Ok(())
}

} // verus!
