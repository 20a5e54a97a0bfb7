use vstd::prelude::*;

use crate::broker_statement::dividends::DividendId;
use crate::broker_statement::ib::common::{column_name, Record};
use crate::broker_statement::taxes::{AccrualKey, TaxId};
use crate::formatting::{date_text, push_date};
use crate::types::views;

verus! {

/// Why the transactions recorded under one key have no net amount.
#[derive(Clone, Copy, Debug, PartialEq, Eq, Structural)]
pub enum AccrualError {
    /// Two of the transactions are in different currencies.
    CurrencyMismatch,
    /// The sum of the transactions is out of the range of an amount.
    Overflow,
}

/// A value of the statement that is set at most once and must be set in the end.
#[derive(Clone, Copy, Debug, PartialEq, Eq, Structural)]
pub enum Field {
    Period,
    TotalValue,
    BaseCurrency,
    BaseCurrencySummary,
}

/// A column that the handlers of the sections read.
#[derive(Clone, Copy, Debug, PartialEq, Eq, Structural)]
pub enum Column {
    FieldName,
    FieldValue,
    Currency,
    CurrencySummary,
    Total,
    Date,
    SettleDate,
    DateTime,
    Description,
    Amount,
    Symbol,
    Quantity,
    Price,
    Commission,
}

/// Why a handler could not take a data row in.
#[derive(Clone, Copy, Debug, PartialEq, Eq, Structural)]
pub enum RecordError {
    /// The header of the section has no such column, or the row ends before it.
    MissingField(Column),
    /// The value in the column is no decimal number.
    InvalidNumber(Column),
    /// The value in the column is no date, or no date with a time.
    InvalidDate(Column),
    /// The statement's period is not two dates with a dash between them.
    InvalidPeriod,
    /// The description does not start with the issuer's ticker.
    InvalidDescription,
    /// The value was set by an earlier row.
    Duplicate(Field),
    /// An amount in the base currency came before the base currency was known.
    UnknownBaseCurrency,
    /// A balance left the range of an amount.
    Overflow,
}

/// What an [`Error`] stands for.
#[allow(inconsistent_fields)]
pub enum ErrorView {
    Read { message: Seq<char> },
    InvalidRecord { row: Seq<Seq<char>> },
    InvalidDataRecordType { row: Seq<Seq<char>> },
    Record { row: Seq<Seq<char>>, cause: RecordError },
    DividendAccrual { key: AccrualKey, cause: AccrualError },
    TaxAccrual { key: AccrualKey, cause: AccrualError },
    ReversedDividendTax { key: AccrualKey },
    OrphanTaxes { keys: Seq<AccrualKey> },
    MissingBaseCurrencySummary,
    Missing(Field),
    UnknownInstrument { ticker: Seq<char> },
    NoDepositCommission { currency: Seq<char>, broker: Seq<char> },
    BrokerNotConfigured,
}

/// Why a statement could not be read, or why it has no answer to a question. An error in
/// reading ends the reading: no part of a statement is handed out.
#[derive(Debug)]
#[allow(inconsistent_fields)]
pub enum Error {
    /// The source of the rows failed, and said why.
    Read { message: String },
    /// A row that is neither a header nor a blank stands where no section is open, or a row has
    /// fewer than two fields.
    InvalidRecord { row: Vec<String> },
    /// The kind of a data row is not among those that its section takes.
    InvalidDataRecordType { row: Vec<String> },
    /// The handler of the section could not take the row in.
    Record { row: Vec<String>, cause: RecordError },
    /// The lines of a dividend have no net amount.
    DividendAccrual { id: DividendId, cause: AccrualError },
    /// The lines of a withholding tax have no net amount.
    TaxAccrual { id: TaxId, cause: AccrualError },
    /// A dividend that was taken back in full has tax withheld from it.
    ReversedDividendTax { id: DividendId },
    /// Withholding taxes for which the statement has no dividend: all of them.
    OrphanTaxes { ids: Vec<TaxId> },
    /// The statement has no cash balance by currency, and no summary in the base currency.
    MissingBaseCurrencySummary,
    /// A value that every statement must have was never set.
    Missing(Field),
    /// The statement has no name for the ticker.
    UnknownInstrument { ticker: String },
    /// The configuration names no commission for deposits in the currency to the broker.
    NoDepositCommission { currency: String, broker: String },
    /// The configuration has nothing on the broker.
    BrokerNotConfigured,
}

impl View for Error {
    type V = ErrorView;

    open spec fn view(&self) -> ErrorView {
        match self {
            Error::Read { message } => ErrorView::Read { message: message@ },
            Error::InvalidRecord { row } => ErrorView::InvalidRecord { row: views(row@) },
            Error::InvalidDataRecordType { row } => ErrorView::InvalidDataRecordType {
                row: views(row@),
            },
            Error::Record { row, cause } => ErrorView::Record { row: views(row@), cause: *cause },
            Error::DividendAccrual { id, cause } => ErrorView::DividendAccrual {
                key: id@,
                cause: *cause,
            },
            Error::TaxAccrual { id, cause } => ErrorView::TaxAccrual { key: id@, cause: *cause },
            Error::ReversedDividendTax { id } => ErrorView::ReversedDividendTax { key: id@ },
            Error::OrphanTaxes { ids } => ErrorView::OrphanTaxes { keys: views(ids@) },
            Error::MissingBaseCurrencySummary => ErrorView::MissingBaseCurrencySummary,
            Error::Missing(field) => ErrorView::Missing(*field),
            Error::UnknownInstrument { ticker } => ErrorView::UnknownInstrument { ticker: ticker@ },
            Error::NoDepositCommission { currency, broker } => ErrorView::NoDepositCommission {
                currency: currency@,
                broker: broker@,
            },
            Error::BrokerNotConfigured => ErrorView::BrokerNotConfigured,
        }
    }
}

/// What a result stands for, where its value and its error stand for something.
pub open spec fn result_view<T: View, E: View>(result: Result<T, E>) -> Result<T::V, E::V> {
    match result {
        Ok(value) => Ok(value@),
        Err(error) => Err(error@),
    }
}

/// A text between quotation marks.
pub open spec fn quoted(text: Seq<char>) -> Seq<char> {
    seq!['"'] + text + seq!['"']
}

/// A row as it is shown: its fields between quotation marks, with commas between them.
pub open spec fn record_text(row: Seq<Seq<char>>) -> Seq<char>
    decreases row.len(),
{
    if row.len() == 0 {
        Seq::empty()
    } else if row.len() == 1 {
        quoted(row[0])
    } else {
        record_text(row.drop_last()) + ", "@ + quoted(row.last())
    }
}

/// How a value of the statement is called.
pub open spec fn field_text(field: Field) -> Seq<char> {
    match field {
        Field::Period => "statement period"@,
        Field::TotalValue => "total value"@,
        Field::BaseCurrency => "base currency"@,
        Field::BaseCurrencySummary => "base currency summary"@,
    }
}

/// Why transactions have no net amount, in words.
pub open spec fn accrual_error_text(cause: AccrualError) -> Seq<char> {
    match cause {
        AccrualError::CurrencyMismatch => "the payments are in different currencies"@,
        AccrualError::Overflow => "the amount is too big"@,
    }
}

/// Why a handler could not take a row in, in words.
pub open spec fn record_error_text(cause: RecordError) -> Seq<char> {
    match cause {
        RecordError::MissingField(column) => "the record doesn't have "@ + quoted(
            column_name(column),
        ) + " field"@,
        RecordError::InvalidNumber(column) => "invalid number in "@ + quoted(column_name(column))
            + " field"@,
        RecordError::InvalidDate(column) => "invalid date in "@ + quoted(column_name(column))
            + " field"@,
        RecordError::InvalidPeriod => "invalid statement period"@,
        RecordError::InvalidDescription => "unable to find the issuer in the description"@,
        RecordError::Duplicate(field) => "Duplicate "@ + field_text(field),
        RecordError::UnknownBaseCurrency => "the base currency is not known yet"@,
        RecordError::Overflow => "the amount is too big"@,
    }
}

/// One line of the list of taxes that have no dividend.
pub open spec fn tax_line(key: AccrualKey) -> Seq<char> {
    "* "@ + date_text(key.date) + ": "@ + key.issuer
}

/// The list of the taxes that have no dividend: one line for each, in their order.
pub open spec fn tax_lines(keys: Seq<AccrualKey>) -> Seq<char>
    decreases keys.len(),
{
    if keys.len() == 0 {
        Seq::empty()
    } else if keys.len() == 1 {
        tax_line(keys[0])
    } else {
        tax_lines(keys.drop_last()) + "\n"@ + tax_line(keys.last())
    }
}

/// What an error says to the reader: it names what is wrong and the values at fault, and
/// shows the row where the error lies in one.
pub open spec fn message_of(error: ErrorView) -> Seq<char> {
    match error {
        ErrorView::Read { message } => message,
        ErrorView::InvalidRecord { row } => "Invalid record: "@ + record_text(row),
        ErrorView::InvalidDataRecordType { row } => "Invalid data record type: "@ + record_text(
            row,
        ),
        ErrorView::Record { row, cause } => "Failed to parse ("@ + record_text(row)
            + ") record: "@ + record_error_text(cause),
        ErrorView::DividendAccrual { key, cause } => "Failed to process "@ + key.issuer
            + " dividend from "@ + date_text(key.date) + ": "@ + accrual_error_text(cause),
        ErrorView::TaxAccrual { key, cause } => "Failed to process "@ + key.issuer
            + " tax from "@ + date_text(key.date) + ": "@ + accrual_error_text(cause),
        ErrorView::ReversedDividendTax { key } => "Got paid tax for reversed "@ + key.issuer
            + " dividend from "@ + date_text(key.date),
        ErrorView::OrphanTaxes { keys } =>
            "Unable to find origin operations for the following taxes:\n"@ + tax_lines(keys),
        ErrorView::MissingBaseCurrencySummary => "Unable to find base currency summary"@,
        ErrorView::Missing(field) => field_text(field) + " is missing"@,
        ErrorView::UnknownInstrument { ticker } => "Unable to find "@ + quoted(ticker)
            + " instrument name in the broker statement"@,
        ErrorView::NoDepositCommission { currency, broker } =>
            "Unable to calculate commission for "@ + currency + " deposit to "@ + broker
                + ": there is no commission specification in the configuration file"@,
        ErrorView::BrokerNotConfigured => "The broker is not set in the configuration file"@,
    }
}

/// Writes a text between quotation marks behind the text.
fn push_quoted(text: &mut String, quoted_text: &str)
    ensures
        final(text)@ == old(text)@ + quoted(quoted_text@),
{
    proof {
        reveal_strlit("\"");
    }
    text.append("\"");
    text.append(quoted_text);
    text.append("\"");
    assert(text@ =~= old(text)@ + quoted(quoted_text@));
}

/// Writes a row as it is shown behind the text.
fn push_record(text: &mut String, row: &Vec<String>)
    ensures
        final(text)@ == old(text)@ + record_text(views(row@)),
{
    let ghost all = views(row@);
    let n = row.len();
    let mut i: usize = 0;
    assert(text@ =~= old(text)@ + record_text(all.take(0)));
    while i < n
        invariant
            0 <= i <= n,
            n == row.len(),
            all == views(row@),
            text@ == old(text)@ + record_text(all.take(i as int)),
        decreases n - i,
    {
        if i > 0 {
            text.append(", ");
        }
        push_quoted(text, row[i].as_str());
        proof {
            assert(all.take(i + 1).drop_last() =~= all.take(i as int));
            assert(all.take(i + 1).last() == row[i as int]@);
            assert(text@ =~= old(text)@ + record_text(all.take(i + 1)));
        }
        i = i + 1;
    }
    assert(all.take(n as int) =~= all);
}

/// Writes the list of the taxes that have no dividend behind the text.
fn push_tax_lines(text: &mut String, ids: &Vec<TaxId>)
    ensures
        final(text)@ == old(text)@ + tax_lines(views(ids@)),
{
    let ghost all = views(ids@);
    let n = ids.len();
    let mut i: usize = 0;
    assert(text@ =~= old(text)@ + tax_lines(all.take(0)));
    while i < n
        invariant
            0 <= i <= n,
            n == ids.len(),
            all == views(ids@),
            text@ == old(text)@ + tax_lines(all.take(i as int)),
        decreases n - i,
    {
        if i > 0 {
            text.append("\n");
        }
        let ghost start = text@;
        text.append("* ");
        push_date(text, ids[i].date);
        text.append(": ");
        text.append(ids[i].issuer.as_str());
        proof {
            assert(text@ =~= start + tax_line(ids[i as int]@));
            assert(all.take(i + 1).drop_last() =~= all.take(i as int));
            assert(all.take(i + 1).last() == ids[i as int]@);
            assert(text@ =~= old(text)@ + tax_lines(all.take(i + 1)));
        }
        i = i + 1;
    }
    assert(all.take(n as int) =~= all);
}

impl Field {
    /// How the value is called.
    pub fn name(self) -> (r: &'static str)
        ensures
            r@ == field_text(self),
    {
        match self {
            Field::Period => "statement period",
            Field::TotalValue => "total value",
            Field::BaseCurrency => "base currency",
            Field::BaseCurrencySummary => "base currency summary",
        }
    }
}

impl AccrualError {
    /// Why the transactions have no net amount, in words.
    pub fn message(self) -> (r: &'static str)
        ensures
            r@ == accrual_error_text(self),
    {
        match self {
            AccrualError::CurrencyMismatch => "the payments are in different currencies",
            AccrualError::Overflow => "the amount is too big",
        }
    }
}

impl RecordError {
    /// Why the handler could not take the row in, in words.
    pub fn message(self) -> (r: String)
        ensures
            r@ == record_error_text(self),
    {
        let mut text = String::new();
        match self {
            RecordError::MissingField(column) => {
                text.append("the record doesn't have ");
                push_quoted(&mut text, Record::name_of(column));
                text.append(" field");
            },
            RecordError::InvalidNumber(column) => {
                text.append("invalid number in ");
                push_quoted(&mut text, Record::name_of(column));
                text.append(" field");
            },
            RecordError::InvalidDate(column) => {
                text.append("invalid date in ");
                push_quoted(&mut text, Record::name_of(column));
                text.append(" field");
            },
            RecordError::InvalidPeriod => {
                text.append("invalid statement period");
            },
            RecordError::InvalidDescription => {
                text.append("unable to find the issuer in the description");
            },
            RecordError::Duplicate(field) => {
                text.append("Duplicate ");
                text.append(field.name());
            },
            RecordError::UnknownBaseCurrency => {
                text.append("the base currency is not known yet");
            },
            RecordError::Overflow => {
                text.append("the amount is too big");
            },
        }
        assert(text@ =~= record_error_text(self));
        text
    }
}

impl Error {
    /// What the error says to the reader.
    pub fn message(&self) -> (r: String)
        ensures
            r@ == message_of(self@),
    {
        let mut text = String::new();
        match self {
            Error::Read { message } => {
                text.append(message.as_str());
            },
            Error::InvalidRecord { row } => {
                text.append("Invalid record: ");
                push_record(&mut text, row);
            },
            Error::InvalidDataRecordType { row } => {
                text.append("Invalid data record type: ");
                push_record(&mut text, row);
            },
            Error::Record { row, cause } => {
                text.append("Failed to parse (");
                push_record(&mut text, row);
                text.append(") record: ");
                let cause = cause.message();
                text.append(cause.as_str());
            },
            Error::DividendAccrual { id, cause } => {
                text.append("Failed to process ");
                text.append(id.issuer.as_str());
                text.append(" dividend from ");
                push_date(&mut text, id.date);
                text.append(": ");
                text.append(cause.message());
            },
            Error::TaxAccrual { id, cause } => {
                text.append("Failed to process ");
                text.append(id.issuer.as_str());
                text.append(" tax from ");
                push_date(&mut text, id.date);
                text.append(": ");
                text.append(cause.message());
            },
            Error::ReversedDividendTax { id } => {
                text.append("Got paid tax for reversed ");
                text.append(id.issuer.as_str());
                text.append(" dividend from ");
                push_date(&mut text, id.date);
            },
            Error::OrphanTaxes { ids } => {
                text.append("Unable to find origin operations for the following taxes:\n");
                push_tax_lines(&mut text, ids);
            },
            Error::MissingBaseCurrencySummary => {
                text.append("Unable to find base currency summary");
            },
            Error::Missing(field) => {
                text.append(field.name());
                text.append(" is missing");
            },
            Error::UnknownInstrument { ticker } => {
                text.append("Unable to find ");
                push_quoted(&mut text, ticker.as_str());
                text.append(" instrument name in the broker statement");
            },
            Error::NoDepositCommission { currency, broker } => {
                text.append("Unable to calculate commission for ");
                text.append(currency.as_str());
                text.append(" deposit to ");
                text.append(broker.as_str());
                text.append(": there is no commission specification in the configuration file");
            },
            Error::BrokerNotConfigured => {
                text.append("The broker is not set in the configuration file");
            },
        }
        assert(text@ =~= message_of(self@));
        text
    }
}

} // verus!
