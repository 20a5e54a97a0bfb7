use vstd::prelude::*;

use self::common::{text_is, Record};
use crate::broker_statement::dividends::{
    check_pending_taxes, no_settlement, process_dividends, settled,
};
use crate::broker_statement::taxes::{keys, AccrualMap, AccrualView};
use crate::broker_statement::{
    built, empty_statement, BrokerInfo, BrokerInfoView, BrokerStatement, BrokerStatementBuilder,
    BrokerStatementBuilderView, BrokerStatementView,
};
use crate::brokers::{interactive_brokers, interactive_brokers_name};
use crate::config::Config;
use crate::currency::{Cash, CashView};
use crate::error::{Error, ErrorView, RecordError};
use crate::types::{chars_of, copy_texts, option_view, views};

pub mod accruals;
pub mod common;
pub mod dividends;
pub mod parsers;
pub mod taxes;
pub mod trades;

verus! {

/// What a [`StatementParser`] stands for.
pub struct StatementParserView {
    pub statement: BrokerStatementBuilderView,
    pub base_currency: Option<Seq<char>>,
    pub base_currency_summary: Option<CashView>,
    pub taxes: Seq<AccrualView>,
    pub dividends: Seq<AccrualView>,
    pub cash_flow_details: bool,
}

/// What was read of a statement so far.
#[derive(Debug)]
pub struct StatementParser {
    pub statement: BrokerStatementBuilder,
    pub base_currency: Option<String>,
    pub base_currency_summary: Option<Cash>,
    pub taxes: AccrualMap,
    pub dividends: AccrualMap,
    pub cash_flow_details: bool,
}

impl View for StatementParser {
    type V = StatementParserView;

    open spec fn view(&self) -> StatementParserView {
        StatementParserView {
            statement: self.statement@,
            base_currency: option_view(self.base_currency),
            base_currency_summary: option_view(self.base_currency_summary),
            taxes: self.taxes@,
            dividends: self.dividends@,
            cash_flow_details: self.cash_flow_details,
        }
    }
}

/// What a handler came to: the state that it left, or its error.
pub open spec fn handled_as(result: Result<(), RecordError>, after: StatementParserView) -> Result<
    StatementParserView,
    RecordError,
> {
    match result {
        Ok(()) => Ok(after),
        Err(error) => Err(error),
    }
}

/// The kinds of section that a statement is made of.
#[derive(Clone, Copy, Debug, PartialEq, Eq, Structural)]
pub enum SectionKind {
    StatementInfo,
    AccountInformation,
    ChangeInNav,
    CashReport,
    OpenPositions,
    Trades,
    DepositsAndWithdrawals,
    Dividends,
    WithholdingTax,
    FinancialInstrumentInformation,
    /// A section that the reader has no use for: its rows are passed over.
    Unknown,
}

/// The kind of the section with the given name.
pub open spec fn section_kind(name: Seq<char>) -> SectionKind {
    if name == "Statement"@ {
        SectionKind::StatementInfo
    } else if name == "Account Information"@ {
        SectionKind::AccountInformation
    } else if name == "Change in NAV"@ {
        SectionKind::ChangeInNav
    } else if name == "Cash Report"@ {
        SectionKind::CashReport
    } else if name == "Open Positions"@ {
        SectionKind::OpenPositions
    } else if name == "Trades"@ {
        SectionKind::Trades
    } else if name == "Deposits & Withdrawals"@ {
        SectionKind::DepositsAndWithdrawals
    } else if name == "Dividends"@ {
        SectionKind::Dividends
    } else if name == "Withholding Tax"@ {
        SectionKind::WithholdingTax
    } else if name == "Financial Instrument Information"@ {
        SectionKind::FinancialInstrumentInformation
    } else {
        SectionKind::Unknown
    }
}

/// The kinds of data row that a section takes: all where it names none.
pub open spec fn data_types(kind: SectionKind) -> Option<Seq<Seq<char>>> {
    match kind {
        SectionKind::Unknown => None,
        _ => Some(seq!["Data"@]),
    }
}

/// The kinds of data row that a section passes over without a word.
pub open spec fn skip_data_types(kind: SectionKind) -> Option<Seq<Seq<char>>> {
    match kind {
        SectionKind::Trades => Some(seq!["SubTotal"@, "Total"@]),
        SectionKind::OpenPositions => Some(seq!["Total"@]),
        _ => None,
    }
}

/// Whether there is a list and the kind of data row is on it.
pub open spec fn is_listed(list: Option<Seq<Seq<char>>>, data_type: Seq<char>) -> bool {
    match list {
        Some(list) => list.contains(data_type),
        None => false,
    }
}

impl SectionKind {
    /// The kind of the section with the given name.
    pub fn of(name: &String) -> (r: SectionKind)
        ensures
            r == section_kind(name@),
    {
        if text_is(name, "Statement") {
            SectionKind::StatementInfo
        } else if text_is(name, "Account Information") {
            SectionKind::AccountInformation
        } else if text_is(name, "Change in NAV") {
            SectionKind::ChangeInNav
        } else if text_is(name, "Cash Report") {
            SectionKind::CashReport
        } else if text_is(name, "Open Positions") {
            SectionKind::OpenPositions
        } else if text_is(name, "Trades") {
            SectionKind::Trades
        } else if text_is(name, "Deposits & Withdrawals") {
            SectionKind::DepositsAndWithdrawals
        } else if text_is(name, "Dividends") {
            SectionKind::Dividends
        } else if text_is(name, "Withholding Tax") {
            SectionKind::WithholdingTax
        } else if text_is(name, "Financial Instrument Information") {
            SectionKind::FinancialInstrumentInformation
        } else {
            SectionKind::Unknown
        }
    }

    /// Whether the section passes data rows of the kind over.
    pub fn skips(self, data_type: &String) -> (r: bool)
        ensures
            r == is_listed(skip_data_types(self), data_type@),
    {
        proof {
            let total = seq!["Total"@];
            let both = seq!["SubTotal"@, "Total"@];
            assert(total[0] == "Total"@);
            assert(both[0] == "SubTotal"@ && both[1] == "Total"@);
        }
        match self {
            SectionKind::Trades => text_is(data_type, "SubTotal") || text_is(data_type, "Total"),
            SectionKind::OpenPositions => text_is(data_type, "Total"),
            _ => false,
        }
    }

    /// Whether the section takes data rows of the kind.
    pub fn accepts(self, data_type: &String) -> (r: bool)
        ensures
            r == (data_types(self) is None || is_listed(data_types(self), data_type@)),
    {
        proof {
            let data = seq!["Data"@];
            assert(data[0] == "Data"@);
        }
        match self {
            SectionKind::Unknown => true,
            _ => text_is(data_type, "Data"),
        }
    }
}

/// What the reader does with a row.
#[derive(Clone, Copy, Debug, PartialEq, Eq, Structural)]
pub enum Step {
    /// The row is out of place: the reading ends with an error.
    Invalid,
    /// The row has no kind and stands where no section is open: it is passed over, and no
    /// section is open after it.
    Blank,
    /// The row is a header: it opens its section.
    Header,
    /// The row is a data row of the open section, of a kind that the section passes over.
    Skip,
    /// The row is a data row of the open section, of a kind that the section does not take:
    /// the reading ends with an error.
    Reject,
    /// The row is a data row of the open section: it goes to the handler of the section.
    Deliver,
}

/// Whether the row is a data row of the section that the header opened: it has the name of
/// the section in its first field, and is no header itself.
pub open spec fn continues(header: Seq<Seq<char>>, row: Seq<Seq<char>>) -> bool {
    header.len() >= 2 && row.len() >= 2 && row[0] == header[0] && row[1] != "Header"@
}

/// What the reader does with a row, given the header of the section that is open, if one is.
pub open spec fn step_of(section: Option<Seq<Seq<char>>>, row: Seq<Seq<char>>) -> Step {
    if row.len() < 2 {
        Step::Invalid
    } else if section is Some && continues(section->0, row) {
        let kind = section_kind(row[0]);
        if is_listed(skip_data_types(kind), row[1]) {
            Step::Skip
        } else if data_types(kind) is Some && !is_listed(data_types(kind), row[1]) {
            Step::Reject
        } else {
            Step::Deliver
        }
    } else if row[1] == "Header"@ {
        Step::Header
    } else if row[1].len() == 0 {
        Step::Blank
    } else {
        Step::Invalid
    }
}

/// The header of the section that is open after a row: a header opens its own section, a
/// data row of the open section leaves it open, and any other row closes it.
pub open spec fn section_after(section: Option<Seq<Seq<char>>>, row: Seq<Seq<char>>) -> Option<
    Seq<Seq<char>>,
> {
    match step_of(section, row) {
        Step::Header => Some(row),
        Step::Blank | Step::Invalid => None,
        _ => section,
    }
}

/// What the optional header row stands for.
pub open spec fn header_view(section: Option<&Vec<String>>) -> Option<Seq<Seq<char>>> {
    match section {
        Some(header) => Some(views(header@)),
        None => None,
    }
}

/// Decides what to do with a row, given the header of the section that is open, if one is.
pub fn next_step(section: Option<&Vec<String>>, row: &Vec<String>) -> (r: Step)
    ensures
        r == step_of(header_view(section), views(row@)),
{
    if row.len() < 2 {
        return Step::Invalid;
    }
    let is_header = text_is(&row[1], "Header");
    if let Some(header) = section {
        if header.len() >= 2 && row[0] == header[0] && !is_header {
            let kind = SectionKind::of(&row[0]);
            if kind.skips(&row[1]) {
                return Step::Skip;
            }
            if !kind.accepts(&row[1]) {
                return Step::Reject;
            }
            return Step::Deliver;
        }
    }
    if is_header {
        Step::Header
    } else if row[1].as_str().is_empty() {
        Step::Blank
    } else {
        Step::Invalid
    }
}

/// What the handler of a section makes of a data row: the state after it, or its error.
pub open spec fn handled(
    kind: SectionKind,
    header: Seq<Seq<char>>,
    row: Seq<Seq<char>>,
    state: StatementParserView,
) -> Result<StatementParserView, RecordError> {
    match kind {
        SectionKind::StatementInfo => parsers::statement_info_handled(header, row, state),
        SectionKind::AccountInformation => parsers::account_information_handled(
            header,
            row,
            state,
        ),
        SectionKind::ChangeInNav => parsers::change_in_nav_handled(header, row, state),
        SectionKind::CashReport => parsers::cash_report_handled(header, row, state),
        SectionKind::OpenPositions => trades::open_positions_handled(header, row, state),
        SectionKind::Trades => trades::trades_handled(header, row, state),
        SectionKind::DepositsAndWithdrawals => parsers::deposits_handled(header, row, state),
        SectionKind::Dividends => dividends::dividends_handled(header, row, state),
        SectionKind::WithholdingTax => taxes::withholding_tax_handled(header, row, state),
        SectionKind::FinancialInstrumentInformation => parsers::instrument_information_handled(
            header,
            row,
            state,
        ),
        SectionKind::Unknown => Ok(state),
    }
}

/// What a row makes of the state, given the header of the section that is open, if one is.
pub open spec fn row_taken(
    section: Option<Seq<Seq<char>>>,
    row: Seq<Seq<char>>,
    state: StatementParserView,
) -> Result<StatementParserView, ErrorView> {
    match step_of(section, row) {
        Step::Invalid => Err(ErrorView::InvalidRecord { row }),
        Step::Reject => Err(ErrorView::InvalidDataRecordType { row }),
        Step::Deliver => match handled(section_kind(row[0]), section->0, row, state) {
            Ok(after) => Ok(after),
            Err(cause) => Err(ErrorView::Record { row, cause }),
        },
        _ => Ok(state),
    }
}

/// The header of the section that is open after the first `n` rows.
pub open spec fn open_section(rows: Seq<Seq<Seq<char>>>, n: int) -> Option<Seq<Seq<char>>>
    decreases n,
{
    if n <= 0 {
        None
    } else {
        section_after(open_section(rows, n - 1), rows[n - 1])
    }
}

/// What the first `n` rows make of the state: every row is taken once, in its turn, under the
/// header that is open when it comes, and the first error ends the reading.
pub open spec fn consumed(rows: Seq<Seq<Seq<char>>>, n: int, state: StatementParserView) -> Result<
    StatementParserView,
    ErrorView,
>
    decreases n,
{
    if n <= 0 {
        Ok(state)
    } else {
        match consumed(rows, n - 1, state) {
            Ok(before) => row_taken(open_section(rows, n - 1), rows[n - 1], before),
            Err(error) => Err(error),
        }
    }
}

/// The state in which the reading of the first `n` rows leaves the reader: that after the
/// last row that was taken in.
pub open spec fn state_after(rows: Seq<Seq<Seq<char>>>, n: int, state: StatementParserView) -> StatementParserView
    decreases n,
{
    if n <= 0 {
        state
    } else {
        match consumed(rows, n, state) {
            Ok(after) => after,
            Err(_) => state_after(rows, n - 1, state),
        }
    }
}

/// After an error the reader is left as it was before the row that failed.
pub proof fn lemma_state_after_error(
    rows: Seq<Seq<Seq<char>>>,
    taken: int,
    n: int,
    state: StatementParserView,
)
    requires
        0 <= taken < n,
        consumed(rows, taken, state) is Ok,
        consumed(rows, taken + 1, state) is Err,
    ensures
        state_after(rows, n, state) == consumed(rows, taken, state)->Ok_0,
    decreases n - taken,
{
    if n > taken + 1 {
        lemma_error_ends_reading(rows, taken + 1, n, state);
        lemma_state_after_error(rows, taken, n - 1, state);
    } else {
        assert(state_after(rows, n, state) == state_after(rows, taken, state));
        if taken == 0 {
            assert(consumed(rows, 0, state) == Ok::<StatementParserView, ErrorView>(state));
        }
    }
}

/// An error ends the reading: the rows behind it change nothing.
pub proof fn lemma_error_ends_reading(
    rows: Seq<Seq<Seq<char>>>,
    failed: int,
    n: int,
    state: StatementParserView,
)
    requires
        0 <= failed <= n,
        consumed(rows, failed, state) is Err,
    ensures
        consumed(rows, n, state) == consumed(rows, failed, state),
    decreases n - failed,
{
    if failed < n {
        lemma_error_ends_reading(rows, failed, n - 1, state);
    }
}

/// What the rows stand for.
pub open spec fn rows_view(rows: Seq<Vec<String>>) -> Seq<Seq<Seq<char>>> {
    Seq::new(rows.len(), |i: int| views(rows[i]@))
}

/// The statement that the state comes to in the end. First the dividends are settled against
/// the taxes, and no tax may be left over. Then, where no balance by currency was read, the
/// summary in the base currency is the one balance, and must be there. Last the period and
/// the total value must be set.
pub open spec fn finished(state: StatementParserView) -> Result<BrokerStatementView, ErrorView> {
    let (outcome, pending) = settled(
        no_settlement(),
        state.dividends,
        state.taxes,
        state.cash_flow_details,
    );
    match outcome {
        Err(error) => Err(error),
        Ok(settlement) => if pending.len() > 0 {
            Err(ErrorView::OrphanTaxes { keys: keys(pending) })
        } else if state.statement.cash_assets.len() == 0 && state.base_currency_summary is None {
            Err(ErrorView::MissingBaseCurrencySummary)
        } else {
            built(
                BrokerStatementBuilderView {
                    cash_assets: if state.statement.cash_assets.len() == 0 {
                        seq![state.base_currency_summary->0]
                    } else {
                        state.statement.cash_assets
                    },
                    dividends: settlement.dividends,
                    cash_flows: state.statement.cash_flows + settlement.cash_flows,
                    ..state.statement
                },
            )
        },
    }
}

/// The statement that the rows come to, read from the given state on.
pub open spec fn parsed(rows: Seq<Seq<Seq<char>>>, state: StatementParserView) -> Result<
    BrokerStatementView,
    ErrorView,
> {
    match consumed(rows, rows.len() as int, state) {
        Ok(after) => finished(after),
        Err(error) => Err(error),
    }
}

impl StatementParser {
    /// A reader that has read nothing yet.
    pub fn new(statement: BrokerStatementBuilder, cash_flow_details: bool) -> (r: StatementParser)
        ensures
            r@ == (StatementParserView {
                statement: statement@,
                base_currency: None,
                base_currency_summary: None,
                taxes: Seq::empty(),
                dividends: Seq::empty(),
                cash_flow_details,
            }),
    {
        StatementParser {
            statement,
            base_currency: None,
            base_currency_summary: None,
            taxes: AccrualMap::new(),
            dividends: AccrualMap::new(),
            cash_flow_details,
        }
    }

    /// Hands a data row to the handler of its section.
    pub fn handle(&mut self, kind: SectionKind, record: &Record) -> (r: Result<(), RecordError>)
        ensures
            handled_as(r, final(self)@) == handled(
                kind,
                record.header_view(),
                record.values_view(),
                old(self)@,
            ),
            r is Err ==> final(self)@ == old(self)@,
    {
        match kind {
            SectionKind::StatementInfo => parsers::parse_statement_info(self, record),
            SectionKind::AccountInformation => parsers::parse_account_information(self, record),
            SectionKind::ChangeInNav => parsers::parse_change_in_nav(self, record),
            SectionKind::CashReport => parsers::parse_cash_report(self, record),
            SectionKind::OpenPositions => trades::parse_open_position(self, record),
            SectionKind::Trades => trades::parse_trade(self, record),
            SectionKind::DepositsAndWithdrawals => parsers::parse_deposit(self, record),
            SectionKind::Dividends => dividends::parse_dividend(self, record),
            SectionKind::WithholdingTax => taxes::parse_withholding_tax(self, record),
            SectionKind::FinancialInstrumentInformation => parsers::parse_instrument_information(
                self,
                record,
            ),
            SectionKind::Unknown => Ok(()),
        }
    }

    /// Takes the rows in, one after the other: a header opens its section, the data rows
    /// behind it go to the handler of the section, and the first row that is out of place or
    /// that its handler cannot take ends the reading.
    pub fn consume(&mut self, rows: &Vec<Vec<String>>) -> (r: Result<(), Error>)
        ensures
            match r {
                Ok(()) => consumed(rows_view(rows@), rows.len() as int, old(self)@) == Ok::<
                    StatementParserView,
                    ErrorView,
                >(final(self)@),
                Err(error) => consumed(rows_view(rows@), rows.len() as int, old(self)@) == Err::<
                    StatementParserView,
                    ErrorView,
                >(error@),
            },
            final(self)@ == state_after(rows_view(rows@), rows.len() as int, old(self)@),
    {
        let ghost all = rows_view(rows@);
        let ghost start = self@;
        let n = rows.len();
        let mut open: Option<usize> = None;
        let mut i: usize = 0;
        while i < n
            invariant
                0 <= i <= n,
                n == rows.len(),
                all == rows_view(rows@),
                start == old(self)@,
                consumed(all, i as int, start) == Ok::<StatementParserView, ErrorView>(self@),
                match open {
                    Some(h) => h < i && open_section(all, i as int) == Some(all[h as int]),
                    None => open_section(all, i as int) is None,
                },
            decreases n - i,
        {
            let row = &rows[i];
            let section: Option<&Vec<String>> = match open {
                Some(h) => Some(&rows[h]),
                None => None,
            };
            let ghost before = self@;
            assert(views(row@) == all[i as int]);
            assert(header_view(section) == open_section(all, i as int));
            match next_step(section, row) {
                Step::Invalid => {
                    let error = Error::InvalidRecord { row: copy_texts(row) };
                    proof {
                        assert(consumed(all, i + 1, start) == Err::<StatementParserView, ErrorView>(
                            error@,
                        ));
                        lemma_error_ends_reading(all, i + 1, n as int, start);
                        lemma_state_after_error(all, i as int, n as int, start);
                    }
                    return Err(error);
                },
                Step::Reject => {
                    let error = Error::InvalidDataRecordType { row: copy_texts(row) };
                    proof {
                        assert(consumed(all, i + 1, start) == Err::<StatementParserView, ErrorView>(
                            error@,
                        ));
                        lemma_error_ends_reading(all, i + 1, n as int, start);
                        lemma_state_after_error(all, i as int, n as int, start);
                    }
                    return Err(error);
                },
                Step::Blank => {
                    open = None;
                },
                Step::Header => {
                    open = Some(i);
                },
                Step::Skip => {},
                Step::Deliver => {
                    let header = section.unwrap();
                    let kind = SectionKind::of(&row[0]);
                    let record = Record { header, values: row };
                    match self.handle(kind, &record) {
                        Ok(()) => {},
                        Err(cause) => {
                            let error = Error::Record { row: copy_texts(row), cause };
                            proof {
                                assert(consumed(all, i + 1, start) == Err::<
                                    StatementParserView,
                                    ErrorView,
                                >(error@));
                                lemma_error_ends_reading(all, i + 1, n as int, start);
                                lemma_state_after_error(all, i as int, n as int, start);
                            }
                            return Err(error);
                        },
                    }
                },
            }
            i = i + 1;
        }
        Ok(())
    }

    /// Closes the reading and hands the statement out.
    pub fn finish(self) -> (r: Result<BrokerStatement, Error>)
        ensures
            crate::error::result_view(r) == finished(self@),
    {
        let StatementParser {
            mut statement,
            base_currency: _,
            base_currency_summary,
            mut taxes,
            dividends,
            cash_flow_details,
        } = self;
        let (paid, mut cash_flows) = match process_dividends(dividends, &mut taxes, cash_flow_details) {
            Ok(settlement) => settlement,
            Err(error) => {
                return Err(error);
            },
        };
        match check_pending_taxes(&taxes) {
            Ok(()) => {},
            Err(error) => {
                return Err(error);
            },
        }
        // A statement without activity in other currencies holds only the summary in the
        // base currency, which then is all that is known of the cash.
        if statement.cash_assets.is_empty() {
            match base_currency_summary {
                Some(summary) => {
                    proof {
                        crate::currency::lemma_first_currency(
                            statement.cash_assets@,
                            summary@.currency,
                            0,
                        );
                    }
                    let paid_in = statement.cash_assets.deposit(summary);
                    assert(statement.cash_assets@ =~= seq![summary@]);
                },
                None => {
                    return Err(Error::MissingBaseCurrencySummary);
                },
            }
        }
        statement.dividends = paid;
        let ghost before = views(statement.cash_flows@);
        let ghost added = views(cash_flows@);
        statement.cash_flows.append(&mut cash_flows);
        assert(views(statement.cash_flows@) =~= before + added);
        statement.get()
    }

    /// Reads a statement from its rows.
    pub fn parse(self, rows: &Vec<Vec<String>>) -> (r: Result<BrokerStatement, Error>)
        ensures
            crate::error::result_view(r) == parsed(rows_view(rows@), self@),
    {
        self.parse_records(rows, None)
    }

    /// Reads a statement from the rows that its source gave, where the source may have failed
    /// behind the last of them, with the given words: the rows are read first, so that an
    /// error in them comes before the failure of the source.
    pub fn parse_records(self, rows: &Vec<Vec<String>>, failure: Option<String>) -> (r: Result<
        BrokerStatement,
        Error,
    >)
        ensures
            crate::error::result_view(r) == parsed_records(
                rows_view(rows@),
                option_view(failure),
                self@,
            ),
    {
        let mut parser = self;
        match parser.consume(rows) {
            Ok(()) => match failure {
                None => parser.finish(),
                Some(message) => Err(Error::Read { message }),
            },
            Err(error) => Err(error),
        }
    }
}

/// The statement that the rows of a source come to, where the source may have failed behind
/// the last of them.
pub open spec fn parsed_records(
    rows: Seq<Seq<Seq<char>>>,
    failure: Option<Seq<char>>,
    state: StatementParserView,
) -> Result<BrokerStatementView, ErrorView> {
    match consumed(rows, rows.len() as int, state) {
        Ok(after) => match failure {
            None => finished(after),
            Some(message) => Err(ErrorView::Read { message }),
        },
        Err(error) => Err(error),
    }
}

/// The records that a `csv` reader without a header row, and with records of any length,
/// yields from the data before its first error, and the words of that error as
/// `csv::Error` shows it, where there is one.
pub uninterp spec fn csv_records(data: Seq<u8>) -> (Seq<Seq<Seq<char>>>, Option<Seq<char>>);

/// Reads the data with `csv::ReaderBuilder` (`has_headers(false)`, `flexible(true)`,
/// `from_reader`) and walks `Reader::records`, each `StringRecord` copied field by field, up
/// to the first `csv::Error`, whose text is kept. The contract claims only that the outcome
/// is the one that `csv_records` names: the same data always give the same records and the
/// same end.
#[verifier::external_body]
fn read_records(data: &[u8]) -> (r: (Vec<Vec<String>>, Option<String>))
    ensures
        (rows_view(r.0@), option_view(r.1)) == csv_records(data@),
{
    let mut reader = csv::ReaderBuilder::new().has_headers(false).flexible(true).from_reader(data);
    let mut rows: Vec<Vec<String>> = Vec::new();
    for record in reader.records() {
        match record {
            Ok(record) => rows.push(record.iter().map(|field| field.to_owned()).collect()),
            Err(error) => return (rows, Some(error.to_string())),
        }
    }
    (rows, None)
}

/// Whether the text ends with the suffix.
pub open spec fn ends_with(text: Seq<char>, suffix: Seq<char>) -> bool {
    suffix.len() <= text.len() && text.skip(text.len() - suffix.len()) == suffix
}

/// The state of a reader that has read nothing yet.
pub open spec fn initial_state(broker: BrokerInfoView, cash_flow_details: bool) -> StatementParserView {
    StatementParserView {
        statement: empty_statement(broker),
        base_currency: None,
        base_currency_summary: None,
        taxes: Seq::empty(),
        dividends: Seq::empty(),
        cash_flow_details,
    }
}

/// The reader of the statements of Interactive Brokers.
#[derive(Debug)]
pub struct StatementReader {
    broker_info: BrokerInfo,
}

impl StatementReader {
    /// What is known of the broker.
    pub closed spec fn broker(&self) -> BrokerInfoView {
        self.broker_info@
    }

    /// A reader for the broker as the configuration describes it.
    pub fn new(config: &Config) -> (r: Result<StatementReader, Error>)
        ensures
            match r {
                Ok(reader) => config.interactive_brokers is Some && reader.broker() == (
                BrokerInfoView {
                    name: interactive_brokers_name(),
                    deposit_commissions: config.interactive_brokers->0@,
                }),
                Err(error) => config.interactive_brokers is None && error@
                    == ErrorView::BrokerNotConfigured,
            },
    {
        match interactive_brokers(config) {
            Ok(broker_info) => Ok(StatementReader { broker_info }),
            Err(error) => Err(error),
        }
    }

    /// Whether a file of this name may hold a statement: its name ends with `.csv`.
    pub fn is_statement(&self, file_name: &str) -> (r: bool)
        ensures
            r == ends_with(file_name@, ".csv"@),
    {
        let name = chars_of(file_name);
        let suffix = chars_of(".csv");
        if suffix.len() > name.len() {
            return false;
        }
        let n = suffix.len();
        let offset = name.len() - n;
        let mut i: usize = 0;
        while i < n
            invariant
                0 <= i <= n,
                n == suffix.len(),
                offset + n == name.len(),
                name@ == file_name@,
                suffix@ == ".csv"@,
                forall|j: int| 0 <= j < i ==> name[offset + j] == suffix[j],
            decreases n - i,
        {
            if name[offset + i] != suffix[i] {
                assert(name@.skip(offset as int)[i as int] != suffix@[i as int]);
                return false;
            }
            i = i + 1;
        }
        assert(name@.skip(offset as int) =~= suffix@);
        true
    }

    /// Reads the statement that the data of a file hold.
    pub fn read(&self, data: &[u8], cash_flow_details: bool) -> (r: Result<BrokerStatement, Error>)
        ensures
            crate::error::result_view(r) == parsed_records(
                csv_records(data@).0,
                csv_records(data@).1,
                initial_state(self.broker(), cash_flow_details),
            ),
    {
        let parser = StatementParser::new(
            BrokerStatementBuilder::new(self.broker_info.clone()),
            cash_flow_details,
        );
        let (rows, failure) = read_records(data);
        parser.parse_records(&rows, failure)
    }
}

/// A section stays open as long as data rows of its own follow its header: after a header at
/// `h` and nothing but data rows of its section up to `n`, the header at `h` is the open one,
/// whatever stood before it.
pub proof fn lemma_section_stays_open(rows: Seq<Seq<Seq<char>>>, h: int, n: int)
    requires
        0 <= h < n <= rows.len(),
        rows[h].len() >= 2,
        rows[h][1] == "Header"@,
        forall|j: int| h < j < n ==> continues(rows[h], #[trigger] rows[j]),
    ensures
        open_section(rows, n) == Some(rows[h]),
    decreases n,
{
    if n > h + 1 {
        lemma_section_stays_open(rows, h, n - 1);
        assert(continues(rows[h], rows[n - 1]));
    }
}

/// Every data row goes to the handler of its section once, with the names of the columns
/// that the header of the section gives. Where a header stands at `h`, nothing but data rows
/// of its section stand between it and the row at `i`, and the row at `i` is of a kind that
/// the section takes and does not pass over, reading the row at `i` is one call of the
/// handler of that section, on that header and that row: what the handler makes of the state
/// is what the reading makes of it, and an error of the handler ends the reading with the row.
pub proof fn lemma_data_row_goes_to_its_handler(
    rows: Seq<Seq<Seq<char>>>,
    h: int,
    i: int,
    state: StatementParserView,
)
    requires
        0 <= h < i < rows.len(),
        rows[h].len() >= 2,
        rows[h][1] == "Header"@,
        forall|j: int| h < j <= i ==> continues(rows[h], #[trigger] rows[j]),
        !is_listed(skip_data_types(section_kind(rows[h][0])), rows[i][1]),
        data_types(section_kind(rows[h][0])) is None || is_listed(
            data_types(section_kind(rows[h][0])),
            rows[i][1],
        ),
        consumed(rows, i, state) is Ok,
    ensures
        open_section(rows, i) == Some(rows[h]),
        step_of(open_section(rows, i), rows[i]) == Step::Deliver,
        consumed(rows, i + 1, state) == match handled(
            section_kind(rows[h][0]),
            rows[h],
            rows[i],
            consumed(rows, i, state)->Ok_0,
        ) {
            Ok(after) => Ok::<StatementParserView, ErrorView>(after),
            Err(cause) => Err(ErrorView::Record { row: rows[i], cause }),
        },
{
    lemma_section_stays_open(rows, h, i);
    assert(continues(rows[h], rows[i]));
}

/// A data row of a kind that its section neither takes nor passes over ends the reading, with
/// the row in the error, whatever follows it.
pub proof fn lemma_unlisted_data_type_ends_reading(
    rows: Seq<Seq<Seq<char>>>,
    h: int,
    i: int,
    n: int,
    state: StatementParserView,
)
    requires
        0 <= h < i < n <= rows.len(),
        rows[h].len() >= 2,
        rows[h][1] == "Header"@,
        forall|j: int| h < j <= i ==> continues(rows[h], #[trigger] rows[j]),
        !is_listed(skip_data_types(section_kind(rows[h][0])), rows[i][1]),
        data_types(section_kind(rows[h][0])) is Some,
        !is_listed(data_types(section_kind(rows[h][0])), rows[i][1]),
        consumed(rows, i, state) is Ok,
    ensures
        consumed(rows, n, state) == Err::<StatementParserView, ErrorView>(
            ErrorView::InvalidDataRecordType { row: rows[i] },
        ),
{
    lemma_section_stays_open(rows, h, i);
    assert(continues(rows[h], rows[i]));
    lemma_error_ends_reading(rows, i + 1, n, state);
}

/// A data row of a kind that its section passes over changes nothing.
pub proof fn lemma_skipped_data_type_changes_nothing(
    rows: Seq<Seq<Seq<char>>>,
    h: int,
    i: int,
    state: StatementParserView,
)
    requires
        0 <= h < i < rows.len(),
        rows[h].len() >= 2,
        rows[h][1] == "Header"@,
        forall|j: int| h < j <= i ==> continues(rows[h], #[trigger] rows[j]),
        is_listed(skip_data_types(section_kind(rows[h][0])), rows[i][1]),
    ensures
        consumed(rows, i + 1, state) == consumed(rows, i, state),
        open_section(rows, i + 1) == Some(rows[h]),
{
    lemma_section_stays_open(rows, h, i);
    lemma_section_stays_open(rows, h, i + 1);
    assert(continues(rows[h], rows[i]));
}

/// Where no balance by currency was read, the statement has exactly one cash balance: the
/// summary in the base currency.
pub proof fn lemma_summary_is_the_only_balance(state: StatementParserView)
    requires
        state.statement.cash_assets.len() == 0,
        finished(state) is Ok,
    ensures
        state.base_currency_summary is Some,
        finished(state)->Ok_0.cash_assets == seq![state.base_currency_summary->0],
{
}

/// Whether a data row of the cash report pays in to the balance of a currency: it holds the
/// ending cash, and not that of the summary in the base currency.
pub open spec fn pays_in(header: Seq<Seq<char>>, row: Seq<Seq<char>>) -> bool {
    &&& section_kind(row[0]) == SectionKind::CashReport
    &&& common::value_of(header, row, crate::error::Column::CurrencySummary) == Ok::<
        Seq<char>,
        RecordError,
    >("Ending Cash"@)
    &&& common::value_of(header, row, crate::error::Column::Currency) != Ok::<
        Seq<char>,
        RecordError,
    >("Base Currency Summary"@)
}

/// Whether the row at `i` is handed to the cash report and pays in to the balance of a
/// currency.
pub open spec fn is_cash_balance_row(rows: Seq<Seq<Seq<char>>>, i: int) -> bool {
    step_of(open_section(rows, i), rows[i]) == Step::Deliver && pays_in(
        open_section(rows, i)->0,
        rows[i],
    )
}

/// The balances by currency change with the rows of the cash report that pay in, and with no
/// other row.
pub proof fn lemma_balances_come_from_the_cash_report(
    rows: Seq<Seq<Seq<char>>>,
    n: int,
    state: StatementParserView,
)
    requires
        0 <= n <= rows.len(),
        consumed(rows, n, state) is Ok,
        forall|i: int| 0 <= i < n ==> !#[trigger] is_cash_balance_row(rows, i),
    ensures
        consumed(rows, n, state)->Ok_0.statement.cash_assets == state.statement.cash_assets,
    decreases n,
{
    if n > 0 {
        lemma_balances_come_from_the_cash_report(rows, n - 1, state);
        assert(!is_cash_balance_row(rows, n - 1));
    }
}

/// A statement whose only word on cash is the summary in the base currency has exactly that
/// one cash balance: where the reading starts without a balance and no row of the cash
/// report pays in to the balance of a currency, a statement that is read has the summary, as
/// it was read, for its one balance.
pub proof fn lemma_statement_with_summary_alone(
    rows: Seq<Seq<Seq<char>>>,
    state: StatementParserView,
)
    requires
        state.statement.cash_assets.len() == 0,
        forall|i: int| 0 <= i < rows.len() ==> !#[trigger] is_cash_balance_row(rows, i),
        parsed(rows, state) is Ok,
    ensures
        consumed(rows, rows.len() as int, state) is Ok,
        consumed(rows, rows.len() as int, state)->Ok_0.base_currency_summary is Some,
        parsed(rows, state)->Ok_0.cash_assets == seq![
            consumed(rows, rows.len() as int, state)->Ok_0.base_currency_summary->0,
        ],
{
    lemma_balances_come_from_the_cash_report(rows, rows.len() as int, state);
    lemma_summary_is_the_only_balance(consumed(rows, rows.len() as int, state)->Ok_0);
}

} // verus!
