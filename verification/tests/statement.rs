use investments::broker_statement::ib::{StatementParser, StatementReader};
use investments::broker_statement::{
    BrokerConfig, BrokerInfo, BrokerStatement, BrokerStatementBuilder, CommissionSpec,
};
use investments::config::Config;
use investments::error::{Column, Error, Field, RecordError};
use investments::time::Date;
use investments::types::Decimal;

fn config() -> Config {
    Config {
        interactive_brokers: Some(BrokerConfig {
            deposit_commissions: vec![CommissionSpec {
                currency: "USD".to_owned(),
                fixed_amount: Decimal::parse("0").unwrap(),
            }],
        }),
    }
}

fn read(text: &str) -> Result<BrokerStatement, Error> {
    StatementReader::new(&config()).unwrap().read(text.as_bytes(), true)
}

fn rows(lines: &[&[&str]]) -> Vec<Vec<String>> {
    lines.iter().map(|line| line.iter().map(|field| field.to_string()).collect()).collect()
}

fn parser() -> StatementParser {
    let broker = BrokerInfo::new("Interactive Brokers", BrokerConfig { deposit_commissions: vec![] });
    StatementParser::new(BrokerStatementBuilder::new(broker), false)
}

fn date(year: i32, month: u32, day: u32) -> Date {
    Date::new(year, month, day).unwrap()
}

fn units(text: &str) -> i64 {
    Decimal::parse(text).unwrap().units()
}

const PREAMBLE: &str = "\
Statement,Header,Field Name,Field Value
Statement,Data,BrokerName,Interactive Brokers
Statement,Data,Period,\"January 1, 2018 - December 31, 2018\"
Account Information,Header,Field Name,Field Value
Account Information,Data,Name,John Doe
Account Information,Data,Base Currency,USD
Change in NAV,Header,Field Name,Field Value
Change in NAV,Data,Starting Value,0
Change in NAV,Data,Ending Value,10500.25
";

const CURRENT: &str = "\
Cash Report,Header,Currency Summary,Currency,Total,Securities,Futures
Cash Report,Data,Starting Cash,Base Currency Summary,0,0,0
Cash Report,Data,Ending Cash,Base Currency Summary,500.25,500.25,0
Cash Report,Data,Starting Cash,USD,0,0,0
Cash Report,Data,Ending Cash,USD,500.25,500.25,0
Open Positions,Header,DataDiscriminator,Asset Category,Currency,Symbol,Quantity,Mult
Open Positions,Data,Summary,Stocks,USD,AAPL,10,1
Open Positions,Total,,Stocks,USD,,,
Trades,Header,DataDiscriminator,Asset Category,Currency,Symbol,Date/Time,Quantity,T. Price,Comm/Fee
Trades,Data,Order,Stocks,USD,AAPL,\"2018-07-31, 13:09:47\",10,190.5,-1
Trades,SubTotal,,Stocks,USD,AAPL,,10,,-1
Trades,Total,,Stocks,USD,,,,,-1
Deposits & Withdrawals,Header,Currency,Settle Date,Description,Amount
Deposits & Withdrawals,Data,USD,2018-06-22,Electronic Fund Transfer,10000
Deposits & Withdrawals,Data,Total,,,10000
Dividends,Header,Currency,Date,Description,Amount
Dividends,Data,USD,2018-08-16,AAPL(US0378331005) Cash Dividend USD 0.73 per Share (Ordinary Dividend),7.3
Dividends,Data,Total,,,7.3
Withholding Tax,Header,Currency,Date,Description,Amount,Code
Withholding Tax,Data,USD,2018-08-16,AAPL(US0378331005) Cash Dividend USD 0.73 per Share - US Tax,-0.73,
Withholding Tax,Data,Total,,,-0.73,
Financial Instrument Information,Header,Asset Category,Symbol,Description,Conid
Financial Instrument Information,Data,Stocks,AAPL,APPLE INC,265598
Codes,Header,Code,Meaning
Codes,Data,A,Assignment
";

const EMPTY: &str = "\
Cash Report,Header,Currency Summary,Currency,Total,Securities,Futures
Cash Report,Data,Starting Cash,Base Currency Summary,0,0,0
Cash Report,Data,Ending Cash,Base Currency Summary,10500.25,10500.25,0
";

#[test]
fn parse_real_current() {
    let statement = read(&format!("{}{}", PREAMBLE, CURRENT)).unwrap();

    assert!(!statement.starting_assets);
    assert!(!statement.cash_assets.is_empty());

    assert!(!statement.cash_flows.is_empty());
    assert!(!statement.stock_buys.is_empty());
    assert!(statement.stock_sells.is_empty());
    assert!(!statement.dividends.is_empty());

    assert!(!statement.open_positions.is_empty());
    assert!(!statement.instrument_names.is_empty());
}

#[test]
fn parse_real_empty() {
    let statement = read(&format!("{}{}", PREAMBLE, EMPTY)).unwrap();

    assert!(!statement.starting_assets);
    assert!(!statement.cash_assets.is_empty());

    assert!(statement.cash_flows.is_empty());
    assert!(statement.stock_buys.is_empty());
    assert!(statement.stock_sells.is_empty());
    assert!(statement.dividends.is_empty());

    assert!(statement.open_positions.is_empty());
    assert!(statement.instrument_names.is_empty());
}

#[test]
fn current_statement_values() {
    let statement = read(&format!("{}{}", PREAMBLE, CURRENT)).unwrap();

    assert_eq!(statement.broker.name, "Interactive Brokers");
    assert_eq!(statement.period, (date(2018, 1, 1), date(2018, 12, 31)));
    assert_eq!(statement.total_value.currency, "USD");
    assert_eq!(statement.total_value.amount.units(), 10_500_250_000);
    assert_eq!(statement.cash_assets.len(), 1);
    assert_eq!(statement.cash_assets.get("USD").unwrap().units(), 500_250_000);
    assert!(statement.cash_assets.get("EUR").is_none());

    assert_eq!(statement.deposits.len(), 1);
    assert_eq!(statement.deposits[0].date, date(2018, 6, 22));
    assert_eq!(statement.deposits[0].cash.amount.units(), 10_000_000_000);

    assert_eq!(statement.stock_buys.len(), 1);
    let trade = &statement.stock_buys[0];
    assert_eq!(trade.symbol, "AAPL");
    assert_eq!(trade.time.date, date(2018, 7, 31));
    assert_eq!((trade.time.time.hour, trade.time.time.minute, trade.time.time.second), (13, 9, 47));
    assert_eq!(trade.quantity.units(), 10_000_000);
    assert_eq!(trade.price.amount.units(), 190_500_000);
    assert_eq!(trade.commission.amount.units(), -1_000_000);

    assert_eq!(statement.open_positions.len(), 1);
    assert_eq!(statement.open_positions[0].symbol, "AAPL");
    assert_eq!(statement.open_positions[0].quantity.units(), 10_000_000);

    assert_eq!(statement.dividends.len(), 1);
    let dividend = &statement.dividends[0];
    assert_eq!(dividend.issuer, "AAPL");
    assert_eq!(dividend.date, date(2018, 8, 16));
    assert_eq!(dividend.amount.amount.units(), 7_300_000);
    assert_eq!(dividend.paid_tax.amount.units(), 730_000);
    assert!(dividend.skip_from_cash_flow);

    assert_eq!(statement.cash_flows.len(), 2);
    assert_eq!(statement.cash_flows[0].amount.amount.units(), 7_300_000);
    assert_eq!(statement.cash_flows[1].amount.amount.units(), -730_000);

    assert_eq!(statement.get_instrument_name("AAPL").unwrap(), "APPLE INC (AAPL)");
    assert!(matches!(
        statement.get_instrument_name("MSFT"),
        Err(Error::UnknownInstrument { ticker }) if ticker == "MSFT"
    ));
}

#[test]
fn two_dividend_rows_and_one_tax_row_make_one_dividend() {
    let text = format!(
        "{}{}{}",
        PREAMBLE,
        EMPTY,
        "\
Dividends,Header,Currency,Date,Description,Amount
Dividends,Data,USD,2018-08-16,AAPL(US0378331005) Cash Dividend USD 0.73 per Share (Ordinary Dividend),100
Dividends,Data,USD,2018-08-16,AAPL(US0378331005) Cash Dividend USD 0.73 per Share (Ordinary Dividend),50
Withholding Tax,Header,Currency,Date,Description,Amount,Code
Withholding Tax,Data,USD,2018-08-16,AAPL(US0378331005) Cash Dividend USD 0.73 per Share - US Tax,-22.5,
"
    );
    let statement = read(&text).unwrap();

    assert_eq!(statement.dividends.len(), 1);
    let dividend = &statement.dividends[0];
    assert_eq!(dividend.issuer, "AAPL");
    assert_eq!(dividend.date, date(2018, 8, 16));
    assert_eq!(dividend.amount.currency, "USD");
    assert_eq!(dividend.amount.amount.units(), units("150"));
    assert_eq!(dividend.paid_tax.currency, "USD");
    assert_eq!(dividend.paid_tax.amount.units(), units("22.5"));
}

#[test]
fn tax_row_is_written_with_a_minus() {
    let dividends = "\
Dividends,Header,Currency,Date,Description,Amount
Dividends,Data,USD,2018-08-16,AAPL(US0378331005) Cash Dividend,100
";
    let statement = read(&format!("{}{}{}", PREAMBLE, EMPTY, dividends)).unwrap();
    assert_eq!(statement.dividends.len(), 1);
    assert_eq!(statement.dividends[0].amount.amount.units(), units("100"));
    assert_eq!(statement.dividends[0].paid_tax.amount.units(), 0);
    assert_eq!(statement.dividends[0].paid_tax.currency, "USD");

    let more = "\
Dividends,Data,USD,2018-08-16,AAPL(US0378331005) Cash Dividend,50
Withholding Tax,Header,Currency,Date,Description,Amount,Code
Withholding Tax,Data,USD,2018-08-16,AAPL(US0378331005) Cash Dividend - US Tax,-30,
";
    let statement = read(&format!("{}{}{}{}", PREAMBLE, EMPTY, dividends, more)).unwrap();
    assert_eq!(statement.dividends.len(), 1);
    assert_eq!(statement.dividends[0].amount.amount.units(), units("150"));
    assert_eq!(statement.dividends[0].paid_tax.amount.units(), units("30"));
    let flows: Vec<i64> = statement.cash_flows.iter().map(|flow| flow.amount.amount.units()).collect();
    assert_eq!(flows, vec![units("100"), units("50"), units("-30")]);

    let refund = "\
Withholding Tax,Data,USD,2018-08-16,AAPL(US0378331005) Cash Dividend - US Tax,10,
";
    let statement = read(&format!("{}{}{}{}{}", PREAMBLE, EMPTY, dividends, more, refund)).unwrap();
    assert_eq!(statement.dividends[0].paid_tax.amount.units(), units("20"));
}

#[test]
fn base_currency_summary_is_the_only_cash_balance() {
    let statement = read(&format!("{}{}", PREAMBLE, EMPTY)).unwrap();

    assert_eq!(statement.cash_assets.len(), 1);
    assert_eq!(statement.cash_assets.get("USD").unwrap().units(), units("10500.25"));
}

#[test]
fn missing_base_currency_summary() {
    assert!(matches!(read(PREAMBLE), Err(Error::MissingBaseCurrencySummary)));
}

#[test]
fn cash_by_currency_needs_no_summary() {
    let text = format!(
        "{}{}",
        PREAMBLE,
        "\
Cash Report,Header,Currency Summary,Currency,Total
Cash Report,Data,Ending Cash,USD,10
Cash Report,Data,Ending Cash,EUR,20
Cash Report,Data,Ending Cash,USD,5
"
    );
    let statement = read(&text).unwrap();
    assert_eq!(statement.cash_assets.len(), 2);
    assert_eq!(statement.cash_assets.get("USD").unwrap().units(), units("15"));
    assert_eq!(statement.cash_assets.get("EUR").unwrap().units(), units("20"));
}

#[test]
fn missing_period_and_total_value() {
    let no_period = "\
Account Information,Header,Field Name,Field Value
Account Information,Data,Base Currency,USD
Cash Report,Header,Currency Summary,Currency,Total
Cash Report,Data,Ending Cash,USD,10
";
    assert!(matches!(read(no_period), Err(Error::Missing(Field::Period))));

    let no_total = "\
Statement,Header,Field Name,Field Value
Statement,Data,Period,\"January 1, 2018 - December 31, 2018\"
Cash Report,Header,Currency Summary,Currency,Total
Cash Report,Data,Ending Cash,USD,10
";
    assert!(matches!(read(no_total), Err(Error::Missing(Field::TotalValue))));
}

#[test]
fn duplicate_values() {
    let twice = "\
Statement,Header,Field Name,Field Value
Statement,Data,Period,\"January 1, 2018 - December 31, 2018\"
Statement,Data,Period,\"January 1, 2019 - December 31, 2019\"
";
    match read(twice) {
        Err(Error::Record { row, cause }) => {
            assert_eq!(cause, RecordError::Duplicate(Field::Period));
            assert_eq!(row, vec!["Statement", "Data", "Period", "January 1, 2019 - December 31, 2019"]);
        }
        other => panic!("{:?}", other),
    }

    let text = format!("{}{}", PREAMBLE, "Change in NAV,Header,Field Name,Field Value\nChange in NAV,Data,Ending Value,1\n");
    assert!(matches!(
        read(&text),
        Err(Error::Record { cause: RecordError::Duplicate(Field::TotalValue), .. })
    ));

    let text = format!("{}{}", PREAMBLE, "Account Information,Header,Field Name,Field Value\nAccount Information,Data,Base Currency,EUR\n");
    assert!(matches!(
        read(&text),
        Err(Error::Record { cause: RecordError::Duplicate(Field::BaseCurrency), .. })
    ));

    let text = format!("{}{}{}", PREAMBLE, EMPTY, "Cash Report,Data,Ending Cash,Base Currency Summary,1,1,0\n");
    assert!(matches!(
        read(&text),
        Err(Error::Record { cause: RecordError::Duplicate(Field::BaseCurrencySummary), .. })
    ));
}

#[test]
fn data_row_without_header_is_invalid() {
    let result = parser().parse(&rows(&[&["Dividends", "Data", "USD"]]));
    match result {
        Err(Error::InvalidRecord { row }) => assert_eq!(row, vec!["Dividends", "Data", "USD"]),
        other => panic!("{:?}", other),
    }
}

#[test]
fn short_row_is_invalid() {
    assert!(matches!(
        parser().parse(&rows(&[&["Dividends"]])),
        Err(Error::InvalidRecord { .. })
    ));
    assert!(matches!(
        parser().parse(&rows(&[&["Codes", "Header", "Code"], &["Codes"]])),
        Err(Error::InvalidRecord { .. })
    ));
}

#[test]
fn blank_row_closes_the_section() {
    let stream = rows(&[
        &["Codes", "Header", "Code"],
        &["Codes", "Data", "A"],
        &["Notes", ""],
        &["Codes", "Data", "B"],
    ]);
    match parser().parse(&stream) {
        Err(Error::InvalidRecord { row }) => assert_eq!(row, vec!["Codes", "Data", "B"]),
        other => panic!("{:?}", other),
    }
}

#[test]
fn row_of_another_section_closes_the_section() {
    let stream = rows(&[
        &["Codes", "Header", "Code"],
        &["Codes", "Data", "A"],
        &["Notes", "Data", "B"],
    ]);
    match parser().parse(&stream) {
        Err(Error::InvalidRecord { row }) => assert_eq!(row, vec!["Notes", "Data", "B"]),
        other => panic!("{:?}", other),
    }
}

#[test]
fn unlisted_data_type_is_rejected() {
    let stream = rows(&[
        &["Dividends", "Header", "Currency", "Date", "Description", "Amount"],
        &["Dividends", "Notes", "USD", "2018-08-16", "AAPL(US0378331005) Cash Dividend", "1"],
    ]);
    match parser().parse(&stream) {
        Err(Error::InvalidDataRecordType { row }) => assert_eq!(row[1], "Notes"),
        other => panic!("{:?}", other),
    }

    let stream = rows(&[&["Statement", "Header", "Field Name"], &["Statement", "", "x"]]);
    assert!(matches!(parser().parse(&stream), Err(Error::InvalidDataRecordType { .. })));
}

#[test]
fn unknown_section_takes_every_data_type() {
    let stream = rows(&[
        &["Codes", "Header", "Code"],
        &["Codes", "Data", "A"],
        &["Codes", "Whatever", "B"],
        &["Codes", "", "C"],
    ]);
    assert!(matches!(
        parser().parse(&stream),
        Err(Error::MissingBaseCurrencySummary)
    ));
}

#[test]
fn skipped_data_types_are_passed_over() {
    let stream = rows(&[
        &["Open Positions", "Header", "Symbol", "Quantity"],
        &["Open Positions", "Total", "", "oops"],
        &["Open Positions", "Data", "AAPL", "oops"],
    ]);
    match parser().parse(&stream) {
        Err(Error::Record { row, cause }) => {
            assert_eq!(row[1], "Data");
            assert_eq!(cause, RecordError::InvalidNumber(Column::Quantity));
        }
        other => panic!("{:?}", other),
    }
}

#[test]
fn section_may_open_again_with_other_columns() {
    let mut parser = parser();
    let stream = rows(&[
        &["Financial Instrument Information", "Header", "Symbol", "Description"],
        &["Financial Instrument Information", "Data", "AAPL", "APPLE INC"],
        &["Financial Instrument Information", "Header", "Description", "Symbol"],
        &["Financial Instrument Information", "Data", "MICROSOFT CORP", "MSFT"],
        &["Codes", "Header", "Code"],
        &["Financial Instrument Information", "Header", "Conid", "Symbol", "Description"],
        &["Financial Instrument Information", "Data", "1", "AAPL", "APPLE"],
    ]);
    parser.consume(&stream).unwrap();
    let names: Vec<(String, String)> = parser
        .statement
        .instrument_names
        .iter()
        .map(|entry| (entry.ticker.clone(), entry.name.clone()))
        .collect();
    assert_eq!(
        names,
        vec![
            ("AAPL".to_owned(), "APPLE INC".to_owned()),
            ("MSFT".to_owned(), "MICROSOFT CORP".to_owned()),
            ("AAPL".to_owned(), "APPLE".to_owned()),
        ]
    );
}

#[test]
fn missing_column_and_short_row() {
    let stream = rows(&[
        &["Financial Instrument Information", "Header", "Symbol"],
        &["Financial Instrument Information", "Data", "AAPL"],
    ]);
    assert!(matches!(
        parser().parse(&stream),
        Err(Error::Record { cause: RecordError::MissingField(Column::Description), .. })
    ));

    let stream = rows(&[
        &["Financial Instrument Information", "Header", "Symbol", "Description"],
        &["Financial Instrument Information", "Data", "AAPL"],
    ]);
    assert!(matches!(
        parser().parse(&stream),
        Err(Error::Record { cause: RecordError::MissingField(Column::Description), .. })
    ));
}

#[test]
fn value_errors_of_the_handlers() {
    let head = "Dividends,Header,Currency,Date,Description,Amount\n";
    let cases = [
        ("Dividends,Data,USD,16.08.2018,AAPL(US) Cash Dividend,1\n", RecordError::InvalidDate(Column::Date)),
        ("Dividends,Data,USD,2018-02-30,AAPL(US) Cash Dividend,1\n", RecordError::InvalidDate(Column::Date)),
        ("Dividends,Data,USD,2018-08-16,aapl(US) Cash Dividend,1\n", RecordError::InvalidDescription),
        ("Dividends,Data,USD,2018-08-16,AAPL Cash Dividend,1\n", RecordError::InvalidDescription),
        ("Dividends,Data,USD,2018-08-16,AAPL(US) Cash Dividend,1.0000001\n", RecordError::InvalidNumber(Column::Amount)),
        ("Dividends,Data,USD,2018-08-16,AAPL(US) Cash Dividend,\n", RecordError::InvalidNumber(Column::Amount)),
    ];
    for (line, expected) in cases {
        match read(&format!("{}{}", head, line)) {
            Err(Error::Record { cause, .. }) => assert_eq!(cause, expected),
            other => panic!("{:?}", other),
        }
    }

    let text = "Statement,Header,Field Name,Field Value\nStatement,Data,Period,January 1 2018\n";
    assert!(matches!(read(text), Err(Error::Record { cause: RecordError::InvalidPeriod, .. })));
    let text = "Statement,Header,Field Name,Field Value\nStatement,Data,Period,\"January 1, 2018-December 31, 2018\"\n";
    assert!(matches!(read(text), Err(Error::Record { cause: RecordError::InvalidPeriod, .. })));

    let text = "Change in NAV,Header,Field Name,Field Value\nChange in NAV,Data,Ending Value,1\n";
    assert!(matches!(read(text), Err(Error::Record { cause: RecordError::UnknownBaseCurrency, .. })));

    let text = format!(
        "{}{}",
        PREAMBLE,
        "Trades,Header,Currency,Symbol,Date/Time,Quantity,T. Price,Comm/Fee\nTrades,Data,USD,AAPL,\"2018-07-31, 13:09:47\",0,190.5,-1\n"
    );
    assert!(matches!(
        read(&text),
        Err(Error::Record { cause: RecordError::InvalidNumber(Column::Quantity), .. })
    ));

    let text = "\
Cash Report,Header,Currency Summary,Currency,Total
Cash Report,Data,Ending Cash,USD,999999999999
Cash Report,Data,Ending Cash,USD,999999999999
Cash Report,Data,Ending Cash,USD,999999999999
Cash Report,Data,Ending Cash,USD,999999999999
Cash Report,Data,Ending Cash,USD,999999999999
Cash Report,Data,Ending Cash,USD,999999999999
Cash Report,Data,Ending Cash,USD,999999999999
Cash Report,Data,Ending Cash,USD,999999999999
Cash Report,Data,Ending Cash,USD,999999999999
Cash Report,Data,Ending Cash,USD,999999999999
";
    assert!(matches!(read(text), Err(Error::Record { cause: RecordError::Overflow, .. })));
}

#[test]
fn sells_are_kept_apart_from_buys() {
    let text = format!(
        "{}{}{}",
        PREAMBLE,
        EMPTY,
        "Trades,Header,Currency,Symbol,Date/Time,Quantity,T. Price,Comm/Fee\nTrades,Data,USD,AAPL,\"2018-07-31, 13:09:47\",-3,190.5,-1\n"
    );
    let statement = read(&text).unwrap();
    assert!(statement.stock_buys.is_empty());
    assert_eq!(statement.stock_sells.len(), 1);
    assert_eq!(statement.stock_sells[0].quantity.units(), units("-3"));
}

#[test]
fn starting_assets_are_noticed() {
    let text = format!(
        "{}{}{}",
        PREAMBLE,
        EMPTY,
        "Change in NAV,Header,Field Name,Field Value\nChange in NAV,Data,Starting Value,12.5\n"
    );
    assert!(read(&text).unwrap().starting_assets);
}

#[test]
fn orphan_taxes_are_all_named() {
    let text = format!(
        "{}{}{}",
        PREAMBLE,
        EMPTY,
        "\
Dividends,Header,Currency,Date,Description,Amount
Dividends,Data,USD,2018-08-16,AAPL(US0378331005) Cash Dividend,10
Withholding Tax,Header,Currency,Date,Description,Amount,Code
Withholding Tax,Data,USD,2018-08-17,AAPL(US0378331005) Cash Dividend - US Tax,-1,
Withholding Tax,Data,USD,2018-08-16,AAPL(US0378331005) Cash Dividend - US Tax,-1,
Withholding Tax,Data,USD,2018-08-16,MSFT (US5949181045) Cash Dividend - US Tax,-2,
"
    );
    match read(&text) {
        Err(Error::OrphanTaxes { ids }) => {
            let found: Vec<(Date, String)> = ids.iter().map(|id| (id.date, id.issuer.clone())).collect();
            assert_eq!(
                found,
                vec![(date(2018, 8, 17), "AAPL".to_owned()), (date(2018, 8, 16), "MSFT".to_owned())]
            );
        }
        other => panic!("{:?}", other),
    }
}

#[test]
fn reversed_dividend_with_tax_is_an_error() {
    let dividends = "\
Dividends,Header,Currency,Date,Description,Amount
Dividends,Data,USD,2018-08-16,AAPL(US0378331005) Cash Dividend,100
Dividends,Data,USD,2018-08-16,AAPL(US0378331005) Cash Dividend,-100
";
    let statement = read(&format!("{}{}{}", PREAMBLE, EMPTY, dividends)).unwrap();
    assert!(statement.dividends.is_empty());
    assert!(statement.cash_flows.is_empty());

    let taxes = "\
Withholding Tax,Header,Currency,Date,Description,Amount,Code
Withholding Tax,Data,USD,2018-08-16,AAPL(US0378331005) Cash Dividend - US Tax,-10,
";
    match read(&format!("{}{}{}{}", PREAMBLE, EMPTY, dividends, taxes)) {
        Err(Error::ReversedDividendTax { id }) => {
            assert_eq!(id.issuer, "AAPL");
            assert_eq!(id.date, date(2018, 8, 16));
        }
        other => panic!("{:?}", other),
    }
}

#[test]
fn orphan_taxes_come_before_the_missing_summary() {
    let taxes = "\
Withholding Tax,Header,Currency,Date,Description,Amount,Code
Withholding Tax,Data,USD,2018-08-16,AAPL(US0378331005) Cash Dividend - US Tax,-1,
";
    match read(taxes) {
        Err(Error::OrphanTaxes { ids }) => {
            assert_eq!(ids.len(), 1);
            assert_eq!(ids[0].issuer, "AAPL");
        }
        other => panic!("{:?}", other),
    }

    let reversed = "\
Dividends,Header,Currency,Date,Description,Amount
Dividends,Data,USD,2018-08-16,AAPL(US0378331005) Cash Dividend,100
Dividends,Data,USD,2018-08-16,AAPL(US0378331005) Cash Dividend,-100
";
    assert!(matches!(
        read(&format!("{}{}", reversed, taxes)),
        Err(Error::ReversedDividendTax { .. })
    ));
    assert!(matches!(read(reversed), Err(Error::MissingBaseCurrencySummary)));
}

#[test]
fn errors_say_what_is_wrong() {
    let message = |text: &str| read(text).unwrap_err().message();

    assert_eq!(message("Dividends,Data,USD\n"), "Invalid record: \"Dividends\", \"Data\", \"USD\"");
    assert_eq!(message("Dividends\n"), "Invalid record: \"Dividends\"");
    assert_eq!(
        message("Statement,Header,Field Name\nStatement,Total,x\n"),
        "Invalid data record type: \"Statement\", \"Total\", \"x\""
    );
    assert_eq!(
        message("Statement,Header,Field Name\nStatement,Data,x\nStatement,Data,Period\n"),
        "Failed to parse (\"Statement\", \"Data\", \"Period\") record: \
         the record doesn't have \"Field Value\" field"
    );
    assert_eq!(
        message("Open Positions,Header,Symbol,Quantity\nOpen Positions,Data,AAPL,x\n"),
        "Failed to parse (\"Open Positions\", \"Data\", \"AAPL\", \"x\") record: \
         invalid number in \"Quantity\" field"
    );
    assert_eq!(
        message("Dividends,Header,Currency,Date\nDividends,Data,USD,2018\n"),
        "Failed to parse (\"Dividends\", \"Data\", \"USD\", \"2018\") record: \
         invalid date in \"Date\" field"
    );
    assert_eq!(
        message("Statement,Header,Field Name,Field Value\nStatement,Data,Period,x\n"),
        "Failed to parse (\"Statement\", \"Data\", \"Period\", \"x\") record: \
         invalid statement period"
    );
    assert_eq!(
        message(&format!("{}Account Information,Header,Field Name,Field Value\nAccount Information,Data,Base Currency,EUR\n", PREAMBLE)),
        "Failed to parse (\"Account Information\", \"Data\", \"Base Currency\", \"EUR\") record: \
         Duplicate base currency"
    );
    assert_eq!(message(PREAMBLE), "Unable to find base currency summary");
    assert_eq!(message(EMPTY), "Failed to parse (\"Cash Report\", \"Data\", \"Ending Cash\", \
         \"Base Currency Summary\", \"10500.25\", \"10500.25\", \"0\") record: \
         the base currency is not known yet");
    assert_eq!(
        message("Cash Report,Header,Currency Summary,Currency,Total\nCash Report,Data,Ending Cash,USD,1\n"),
        "statement period is missing"
    );
    assert_eq!(
        message("Statement,Header,Field Name,Field Value\nStatement,Data,Period,\"January 1, 2018 - December 31, 2018\"\nCash Report,Header,Currency Summary,Currency,Total\nCash Report,Data,Ending Cash,USD,1\n"),
        "total value is missing"
    );

    let dividends = "\
Dividends,Header,Currency,Date,Description,Amount
Dividends,Data,USD,2018-08-16,AAPL(US0378331005) Cash Dividend,100
Dividends,Data,USD,2018-08-16,AAPL(US0378331005) Cash Dividend,-100
";
    let taxes = "\
Withholding Tax,Header,Currency,Date,Description,Amount,Code
Withholding Tax,Data,USD,2018-08-16,AAPL(US0378331005) Cash Dividend - US Tax,-10,
Withholding Tax,Data,USD,2018-09-01,MSFT(US5949181045) Cash Dividend - US Tax,-10,
Withholding Tax,Data,USD,2018-09-02,IBM(US4592001014) Cash Dividend - US Tax,-10,
";
    assert_eq!(
        message(&format!("{}{}", dividends, taxes)),
        "Got paid tax for reversed AAPL dividend from 16.08.2018"
    );
    assert_eq!(
        message(taxes),
        "Unable to find origin operations for the following taxes:\n\
         * 16.08.2018: AAPL\n* 01.09.2018: MSFT\n* 02.09.2018: IBM"
    );
    assert_eq!(
        message("Dividends,Header,Currency,Date,Description,Amount\n\
Dividends,Data,USD,2018-08-16,AAPL(US0378331005) Cash Dividend,100\n\
Dividends,Data,EUR,2018-08-16,AAPL(US0378331005) Cash Dividend,100\n"),
        "Failed to process AAPL dividend from 16.08.2018: the payments are in different currencies"
    );
    assert_eq!(
        message("Dividends,Header,Currency,Date,Description,Amount\n\
Dividends,Data,USD,2018-08-16,AAPL(US0378331005) Cash Dividend,100\n\
Withholding Tax,Header,Currency,Date,Description,Amount\n\
Withholding Tax,Data,USD,2018-08-16,AAPL(US0378331005) Cash Dividend - US Tax,-999999999999\n\
Withholding Tax,Data,USD,2018-08-16,AAPL(US0378331005) Cash Dividend - US Tax,-999999999999\n\
Withholding Tax,Data,USD,2018-08-16,AAPL(US0378331005) Cash Dividend - US Tax,-999999999999\n\
Withholding Tax,Data,USD,2018-08-16,AAPL(US0378331005) Cash Dividend - US Tax,-999999999999\n\
Withholding Tax,Data,USD,2018-08-16,AAPL(US0378331005) Cash Dividend - US Tax,-999999999999\n\
Withholding Tax,Data,USD,2018-08-16,AAPL(US0378331005) Cash Dividend - US Tax,-999999999999\n\
Withholding Tax,Data,USD,2018-08-16,AAPL(US0378331005) Cash Dividend - US Tax,-999999999999\n\
Withholding Tax,Data,USD,2018-08-16,AAPL(US0378331005) Cash Dividend - US Tax,-999999999999\n\
Withholding Tax,Data,USD,2018-08-16,AAPL(US0378331005) Cash Dividend - US Tax,-999999999999\n\
Withholding Tax,Data,USD,2018-08-16,AAPL(US0378331005) Cash Dividend - US Tax,-999999999999\n"),
        "Failed to process AAPL tax from 16.08.2018: the amount is too big"
    );

    let statement = read(&format!("{}{}", PREAMBLE, EMPTY)).unwrap();
    assert_eq!(
        statement.get_instrument_name("MSFT").unwrap_err().message(),
        "Unable to find \"MSFT\" instrument name in the broker statement"
    );
    assert_eq!(
        Error::NoDepositCommission { currency: "EUR".to_owned(), broker: "Interactive Brokers".to_owned() }
            .message(),
        "Unable to calculate commission for EUR deposit to Interactive Brokers: \
         there is no commission specification in the configuration file"
    );
    assert_eq!(Error::BrokerNotConfigured.message(), "The broker is not set in the configuration file");
    assert_eq!(Error::Read { message: "no more".to_owned() }.message(), "no more");
    assert_eq!(Error::InvalidRecord { row: vec![] }.message(), "Invalid record: ");
    assert_eq!(
        RecordError::InvalidDescription.message(),
        "unable to find the issuer in the description"
    );
    assert_eq!(RecordError::Overflow.message(), "the amount is too big");
    assert_eq!(RecordError::Duplicate(Field::TotalValue).message(), "Duplicate total value");
    assert_eq!(Field::BaseCurrencySummary.name(), "base currency summary");
}

#[test]
fn broken_source_fails_after_its_rows() {
    let mut data = PREAMBLE.as_bytes().to_vec();
    data.extend_from_slice(b"Codes,Header,\xff\xfe\n");
    let reader = StatementReader::new(&config()).unwrap();
    match reader.read(&data, false) {
        Err(Error::Read { message }) => assert!(message.contains("invalid utf-8"), "{}", message),
        other => panic!("{:?}", other),
    }
    let rows = rows(&[&["Codes", "Header", "Code"]]);
    assert!(matches!(
        parser().parse_records(&rows, Some("no more".to_owned())),
        Err(Error::Read { message }) if message == "no more"
    ));
    assert!(matches!(
        parser().parse_records(&rows, None),
        Err(Error::MissingBaseCurrencySummary)
    ));

    let mut data = b"Dividends,Data,USD\n".to_vec();
    data.extend_from_slice(b"Codes,Header,\xff\xfe\n");
    assert!(matches!(reader.read(&data, false), Err(Error::InvalidRecord { .. })));
}

#[test]
fn quoted_fields_are_read_by_the_row_source() {
    let text = format!(
        "{}{}{}",
        PREAMBLE,
        EMPTY,
        "Financial Instrument Information,Header,Symbol,Description\nFinancial Instrument Information,Data,BRK B,\"BERKSHIRE, \"\"B\"\"\"\n"
    );
    let statement = read(&text).unwrap();
    assert_eq!(statement.get_instrument_name("BRK B").unwrap(), "BERKSHIRE, \"B\" (BRK B)");
}

#[test]
fn reader_knows_statement_files() {
    let reader = StatementReader::new(&config()).unwrap();
    assert!(reader.is_statement("U1234567_2018.csv"));
    assert!(reader.is_statement(".csv"));
    assert!(!reader.is_statement("statement.cs"));
    assert!(!reader.is_statement("statement.csv.bak"));
    assert!(!reader.is_statement("csv"));
    assert!(!reader.is_statement(""));

    assert!(matches!(
        StatementReader::new(&Config { interactive_brokers: None }),
        Err(Error::BrokerNotConfigured)
    ));
}
