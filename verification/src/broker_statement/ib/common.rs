use vstd::prelude::*;

use crate::currency::Cash;
use crate::error::{Column, RecordError};
use crate::time::parsing::{chrono_date, chrono_date_time, date_of, date_time_of, parse_date, parse_date_time};
use crate::time::{Date, DateTime};
use crate::types::{chars_of, decimal_units, views, Decimal};

verus! {

/// The format in which the statement writes a date.
pub open spec fn date_format() -> Seq<char> {
    "%Y-%m-%d"@
}

/// The format in which the statement writes the time of a trade.
pub open spec fn date_time_format() -> Seq<char> {
    "%Y-%m-%d, %H:%M:%S"@
}

/// The name that the header of a section gives to the column.
pub open spec fn column_name(column: Column) -> Seq<char> {
    match column {
        Column::FieldName => "Field Name"@,
        Column::FieldValue => "Field Value"@,
        Column::Currency => "Currency"@,
        Column::CurrencySummary => "Currency Summary"@,
        Column::Total => "Total"@,
        Column::Date => "Date"@,
        Column::SettleDate => "Settle Date"@,
        Column::DateTime => "Date/Time"@,
        Column::Description => "Description"@,
        Column::Amount => "Amount"@,
        Column::Symbol => "Symbol"@,
        Column::Quantity => "Quantity"@,
        Column::Price => "T. Price"@,
        Column::Commission => "Comm/Fee"@,
    }
}

/// The value that a data row has in the column: the header names the columns from its third
/// field on, and the row holds the values at the same places. It fails where the header does
/// not name the column or the row ends before it.
pub open spec fn value_of(header: Seq<Seq<char>>, row: Seq<Seq<char>>, column: Column) -> Result<
    Seq<char>,
    RecordError,
> {
    if header.len() < 2 {
        Err(RecordError::MissingField(column))
    } else {
        match header.skip(2).index_of_first(column_name(column)) {
            Some(i) => if i + 2 < row.len() {
                Ok(row[i + 2])
            } else {
                Err(RecordError::MissingField(column))
            },
            None => Err(RecordError::MissingField(column)),
        }
    }
}

/// The decimal number that a data row has in the column, in millionths.
pub open spec fn number_of(header: Seq<Seq<char>>, row: Seq<Seq<char>>, column: Column) -> Result<
    int,
    RecordError,
> {
    match value_of(header, row, column) {
        Ok(text) => match decimal_units(text) {
            Some(units) => Ok(units),
            None => Err(RecordError::InvalidNumber(column)),
        },
        Err(error) => Err(error),
    }
}

/// The date that a data row has in the column.
pub open spec fn date_in(header: Seq<Seq<char>>, row: Seq<Seq<char>>, column: Column) -> Result<
    Date,
    RecordError,
> {
    match value_of(header, row, column) {
        Ok(text) => match date_of(chrono_date(text, date_format())) {
            Ok(date) => Ok(date),
            Err(_) => Err(RecordError::InvalidDate(column)),
        },
        Err(error) => Err(error),
    }
}

/// The date and time that a data row has in the column.
pub open spec fn date_time_in(header: Seq<Seq<char>>, row: Seq<Seq<char>>, column: Column) -> Result<
    DateTime,
    RecordError,
> {
    match value_of(header, row, column) {
        Ok(text) => match date_time_of(chrono_date_time(text, date_time_format())) {
            Ok(time) => Ok(time),
            Err(_) => Err(RecordError::InvalidDate(column)),
        },
        Err(error) => Err(error),
    }
}

/// Whether the text starts with the prefix.
pub open spec fn starts_with(text: Seq<char>, prefix: Seq<char>) -> bool {
    prefix.len() <= text.len() && text.take(prefix.len() as int) == prefix
}

/// Whether the text is the given one.
pub fn text_is(text: &String, wanted: &str) -> (r: bool)
    ensures
        r == (text@ == wanted@),
{
    *text == wanted.to_owned()
}

/// Whether the text starts with the prefix.
pub fn has_prefix(text: &String, prefix: &str) -> (r: bool)
    ensures
        r == starts_with(text@, prefix@),
{
    let whole = chars_of(text.as_str());
    let start = chars_of(prefix);
    if start.len() > whole.len() {
        return false;
    }
    let n = start.len();
    let mut i: usize = 0;
    while i < n
        invariant
            0 <= i <= n,
            n == start.len(),
            n <= whole.len(),
            whole@ == text@,
            start@ == prefix@,
            forall|j: int| 0 <= j < i ==> whole[j] == start[j],
        decreases n - i,
    {
        if whole[i] != start[i] {
            assert(whole@.take(n as int)[i as int] != start@[i as int]);
            return false;
        }
        i = i + 1;
    }
    assert(whole@.take(n as int) =~= start@);
    true
}

/// One data row, read by the names that the header of its section gives to the columns.
pub struct Record<'a> {
    /// The header row of the section.
    pub header: &'a Vec<String>,
    /// The data row.
    pub values: &'a Vec<String>,
}

impl<'a> Record<'a> {
    /// What the header row stands for.
    pub open spec fn header_view(&self) -> Seq<Seq<char>> {
        views(self.header@)
    }

    /// What the data row stands for.
    pub open spec fn values_view(&self) -> Seq<Seq<char>> {
        views(self.values@)
    }

    /// The name that the header gives to the column.
    pub fn name_of(column: Column) -> (r: &'static str)
        ensures
            r@ == column_name(column),
    {
        match column {
            Column::FieldName => "Field Name",
            Column::FieldValue => "Field Value",
            Column::Currency => "Currency",
            Column::CurrencySummary => "Currency Summary",
            Column::Total => "Total",
            Column::Date => "Date",
            Column::SettleDate => "Settle Date",
            Column::DateTime => "Date/Time",
            Column::Description => "Description",
            Column::Amount => "Amount",
            Column::Symbol => "Symbol",
            Column::Quantity => "Quantity",
            Column::Price => "T. Price",
            Column::Commission => "Comm/Fee",
        }
    }

    /// The value in the column.
    pub fn get_value(&self, column: Column) -> (r: Result<&'a String, RecordError>)
        ensures
            match r {
                Ok(value) => value_of(self.header_view(), self.values_view(), column) == Ok::<
                    Seq<char>,
                    RecordError,
                >(value@),
                Err(error) => value_of(self.header_view(), self.values_view(), column) == Err::<
                    Seq<char>,
                    RecordError,
                >(error),
            },
    {
        let name = Self::name_of(column).to_owned();
        let ghost names = self.header_view().skip(2);
        let n = self.header.len();
        let mut i: usize = 2;
        while i < n
            invariant
                2 <= i,
                n == self.header.len(),
                names == self.header_view().skip(2),
                name@ == column_name(column),
                forall|j: int| 0 <= j < i - 2 && j < names.len() ==> #[trigger] names[j] != name@,
            decreases n - i,
        {
            if self.header[i] == name {
                proof {
                    names.index_of_first_ensures(name@);
                    assert(names[i - 2] == name@);
                    assert(names.contains(name@));
                    let found = names.index_of_first(name@)->0;
                    if found < i - 2 {
                        assert(names[found] != name@);
                    }
                }
                if i < self.values.len() {
                    return Ok(&self.values[i]);
                } else {
                    return Err(RecordError::MissingField(column));
                }
            }
            i = i + 1;
        }
        proof {
            names.index_of_first_ensures(name@);
            if n >= 2 && names.contains(name@) {
                let j = choose|j: int| 0 <= j < names.len() && names[j] == name@;
                assert(names[j] != name@);
            }
        }
        Err(RecordError::MissingField(column))
    }

    /// The decimal number in the column.
    pub fn parse_number(&self, column: Column) -> (r: Result<Decimal, RecordError>)
        ensures
            match r {
                Ok(number) => number_of(self.header_view(), self.values_view(), column) == Ok::<
                    int,
                    RecordError,
                >(number@),
                Err(error) => number_of(self.header_view(), self.values_view(), column) == Err::<
                    int,
                    RecordError,
                >(error),
            },
    {
        let text = match self.get_value(column) {
            Ok(text) => text,
            Err(error) => {
                return Err(error);
            },
        };
        match Decimal::parse(text.as_str()) {
            Some(number) => Ok(number),
            None => Err(RecordError::InvalidNumber(column)),
        }
    }

    /// The amount of money in the column, in the given currency.
    pub fn parse_cash(&self, column: Column, currency: &String) -> (r: Result<Cash, RecordError>)
        ensures
            match r {
                Ok(cash) => number_of(self.header_view(), self.values_view(), column) == Ok::<
                    int,
                    RecordError,
                >(cash@.amount) && cash@.currency == currency@,
                Err(error) => number_of(self.header_view(), self.values_view(), column) == Err::<
                    int,
                    RecordError,
                >(error),
            },
    {
        match self.parse_number(column) {
            Ok(amount) => Ok(Cash { currency: currency.clone(), amount }),
            Err(error) => Err(error),
        }
    }

    /// The date in the column.
    pub fn parse_date(&self, column: Column) -> (r: Result<Date, RecordError>)
        ensures
            r == date_in(self.header_view(), self.values_view(), column),
    {
        let text = match self.get_value(column) {
            Ok(text) => text,
            Err(error) => {
                return Err(error);
            },
        };
        match parse_date(text.as_str(), "%Y-%m-%d") {
            Ok(date) => Ok(date),
            Err(_) => Err(RecordError::InvalidDate(column)),
        }
    }

    /// The date and time in the column.
    pub fn parse_date_time(&self, column: Column) -> (r: Result<DateTime, RecordError>)
        ensures
            r == date_time_in(self.header_view(), self.values_view(), column),
    {
        let text = match self.get_value(column) {
            Ok(text) => text,
            Err(error) => {
                return Err(error);
            },
        };
        match parse_date_time(text.as_str(), "%Y-%m-%d, %H:%M:%S") {
            Ok(time) => Ok(time),
            Err(_) => Err(RecordError::InvalidDate(column)),
        }
    }
}

} // verus!
