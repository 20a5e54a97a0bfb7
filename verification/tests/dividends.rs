use investments::broker_statement::cash_flows::{CashFlow, CashFlowType};
use investments::broker_statement::dividends::{
    check_pending_taxes, process_dividend_accruals, process_dividends, Dividend, DividendId,
};
use investments::broker_statement::payments::Payments;
use investments::broker_statement::taxes::{AccrualMap, TaxId};
use investments::currency::Cash;
use investments::error::{AccrualError, Error};
use investments::localities::Country;
use investments::time::Date;
use investments::types::Decimal;

fn dec(text: &str) -> Decimal {
    Decimal::parse(text).unwrap()
}

fn usd(text: &str) -> Cash {
    Cash::new("USD", dec(text))
}

fn day(day: u32) -> Date {
    Date::new(2018, 8, day).unwrap()
}

fn payments(amounts: &[&str]) -> Payments {
    let mut payments = Payments::new();
    for (i, amount) in amounts.iter().enumerate() {
        payments.add(day(i as u32 + 1), usd(amount));
    }
    payments
}

fn taxes(entries: &[(&str, u32, &str)]) -> AccrualMap {
    let mut map = AccrualMap::new();
    for (issuer, on, amount) in entries {
        map.record(TaxId::new(day(*on), issuer), day(*on), usd(amount));
    }
    map
}

fn flow(cash_flow: &CashFlow) -> (Date, i64, String) {
    let kind = match &cash_flow.type_ {
        CashFlowType::Dividend { issuer } => format!("dividend {}", issuer),
        CashFlowType::Tax { issuer } => format!("tax {}", issuer),
    };
    (cash_flow.date, cash_flow.amount.amount.units(), kind)
}

#[test]
fn net_amount_sums_the_transactions() {
    assert_eq!(payments(&["100", "50"]).net_amount().unwrap().unwrap().amount.units(), dec("150").units());
    assert_eq!(payments(&["100", "-30.5"]).net_amount().unwrap().unwrap().amount.units(), dec("69.5").units());
    assert_eq!(payments(&["-1"]).net_amount().unwrap().unwrap().amount.units(), dec("-1").units());
    assert_eq!(payments(&["100"]).net_amount().unwrap().unwrap().currency, "USD");
    assert!(payments(&["100", "-100"]).net_amount().unwrap().is_none());
    assert!(payments(&[]).net_amount().unwrap().is_none());
    assert!(payments(&["0"]).net_amount().unwrap().is_none());
}

#[test]
fn net_amount_does_not_depend_on_the_order() {
    let orders: [&[&str]; 6] = [
        &["100", "-30", "7.25"],
        &["100", "7.25", "-30"],
        &["-30", "100", "7.25"],
        &["-30", "7.25", "100"],
        &["7.25", "100", "-30"],
        &["7.25", "-30", "100"],
    ];
    for order in orders {
        assert_eq!(payments(order).net_amount().unwrap().unwrap().amount.units(), dec("77.25").units());
    }

    let max = Cash::new("USD", Decimal::from_units(i64::MAX).unwrap());
    let mut first = Payments::new();
    first.add(day(1), max.clone());
    first.add(day(1), usd("1"));
    first.add(day(1), usd("-5"));
    let mut second = Payments::new();
    second.add(day(1), usd("-5"));
    second.add(day(1), max.clone());
    second.add(day(1), usd("1"));
    assert_eq!(first.net_amount().unwrap().unwrap().amount.units(), i64::MAX - 4_000_000);
    assert_eq!(second.net_amount().unwrap().unwrap().amount.units(), i64::MAX - 4_000_000);
}

#[test]
fn net_amount_read_twice_is_the_same() {
    let payments = payments(&["100", "50"]);
    let first = payments.net_amount().unwrap().unwrap();
    let second = payments.net_amount().unwrap().unwrap();
    assert_eq!(first.amount.units(), second.amount.units());
    assert_eq!(first.currency, second.currency);
    assert_eq!(payments.len(), 2);
}

#[test]
fn net_amount_errors() {
    let mut mixed = payments(&["100"]);
    mixed.add(day(2), Cash::new("EUR", dec("1")));
    assert_eq!(mixed.net_amount().unwrap_err(), AccrualError::CurrencyMismatch);
    assert_eq!(mixed.get_result().unwrap_err(), AccrualError::CurrencyMismatch);

    let max = Cash::new("USD", Decimal::from_units(i64::MAX).unwrap());
    let mut large = Payments::new();
    large.add(day(1), max.clone());
    large.add(day(1), usd("0.000001"));
    assert_eq!(large.net_amount().unwrap_err(), AccrualError::Overflow);

    let mut small = Payments::new();
    small.reverse(day(1), max.clone());
    small.reverse(day(1), usd("0.000001"));
    assert_eq!(small.net_amount().unwrap_err(), AccrualError::Overflow);

    let mut both = Payments::new();
    both.add(day(1), max);
    both.add(day(1), usd("0.000001"));
    both.add(day(1), Cash::new("EUR", dec("1")));
    assert_eq!(both.net_amount().unwrap_err(), AccrualError::CurrencyMismatch);
}

#[test]
fn reverse_records_the_opposite() {
    let mut payments = Payments::new();
    payments.add(day(1), usd("100"));
    payments.reverse(day(2), usd("40"));
    let (amount, transactions) = payments.get_result().unwrap();
    assert_eq!(amount.unwrap().amount.units(), dec("60").units());
    assert_eq!(transactions.len(), 2);
    assert_eq!(transactions[0].date, day(1));
    assert_eq!(transactions[0].cash.amount.units(), dec("100").units());
    assert_eq!(transactions[1].date, day(2));
    assert_eq!(transactions[1].cash.amount.units(), dec("-40").units());
}

#[test]
fn dividend_without_tax_has_no_paid_tax() {
    let mut taxes = AccrualMap::new();
    let (dividend, cash_flows) =
        process_dividend_accruals(DividendId::new(day(1), "AAPL"), payments(&["100"]), &mut taxes, false)
            .unwrap();
    let dividend = dividend.unwrap();
    assert_eq!(dividend.date, day(1));
    assert_eq!(dividend.issuer, "AAPL");
    assert_eq!(dividend.amount.amount.units(), dec("100").units());
    assert_eq!(dividend.amount.currency, "USD");
    assert_eq!(dividend.paid_tax.amount.units(), 0);
    assert_eq!(dividend.paid_tax.currency, "USD");
    assert!(!dividend.skip_from_cash_flow);
    assert!(cash_flows.is_empty());
    assert!(taxes.is_empty());
}

#[test]
fn dividend_with_tax() {
    let mut taxes = taxes(&[("MSFT", 1, "1"), ("AAPL", 1, "30"), ("AAPL", 2, "2")]);
    let (dividend, cash_flows) = process_dividend_accruals(
        DividendId::new(day(1), "AAPL"),
        payments(&["100", "50"]),
        &mut taxes,
        true,
    )
    .unwrap();
    let dividend = dividend.unwrap();
    assert_eq!(dividend.amount.amount.units(), dec("150").units());
    assert_eq!(dividend.paid_tax.amount.units(), dec("30").units());
    assert!(dividend.skip_from_cash_flow);
    assert_eq!(
        cash_flows.iter().map(flow).collect::<Vec<_>>(),
        vec![
            (day(1), dec("100").units(), "dividend AAPL".to_owned()),
            (day(2), dec("50").units(), "dividend AAPL".to_owned()),
            (day(1), dec("-30").units(), "tax AAPL".to_owned()),
        ]
    );
    let left: Vec<(Date, String)> = taxes.ids().iter().map(|id| (id.date, id.issuer.clone())).collect();
    assert_eq!(left, vec![(day(1), "MSFT".to_owned()), (day(2), "AAPL".to_owned())]);
}

#[test]
fn reversed_dividend() {
    let mut none = AccrualMap::new();
    let (dividend, cash_flows) = process_dividend_accruals(
        DividendId::new(day(1), "AAPL"),
        payments(&["100", "-100"]),
        &mut none,
        true,
    )
    .unwrap();
    assert!(dividend.is_none());
    assert!(cash_flows.is_empty());

    let mut taxes = taxes(&[("AAPL", 1, "10")]);
    let result = process_dividend_accruals(
        DividendId::new(day(1), "AAPL"),
        payments(&["100", "-100"]),
        &mut taxes,
        false,
    );
    match result {
        Err(Error::ReversedDividendTax { id }) => assert_eq!(id, DividendId::new(day(1), "AAPL")),
        other => panic!("{:?}", other),
    }
    assert!(taxes.is_empty());

    let mut reversed_tax = AccrualMap::new();
    reversed_tax.record(TaxId::new(day(1), "AAPL"), day(1), usd("10"));
    reversed_tax.record(TaxId::new(day(1), "AAPL"), day(2), usd("-10"));
    let (dividend, cash_flows) = process_dividend_accruals(
        DividendId::new(day(1), "AAPL"),
        payments(&["100", "-100"]),
        &mut reversed_tax,
        true,
    )
    .unwrap();
    assert!(dividend.is_none());
    assert!(cash_flows.is_empty());
    assert!(reversed_tax.is_empty());
}

#[test]
fn accruals_without_net_amount() {
    let mut mixed = payments(&["100"]);
    mixed.add(day(2), Cash::new("EUR", dec("1")));
    let mut pending = taxes(&[("AAPL", 1, "10")]);
    match process_dividend_accruals(DividendId::new(day(1), "AAPL"), mixed, &mut pending, false) {
        Err(Error::DividendAccrual { id, cause }) => {
            assert_eq!(id.issuer, "AAPL");
            assert_eq!(cause, AccrualError::CurrencyMismatch);
        }
        other => panic!("{:?}", other),
    }
    assert_eq!(pending.len(), 1);

    let mut pending = AccrualMap::new();
    pending.record(TaxId::new(day(1), "AAPL"), day(1), usd("10"));
    pending.record(TaxId::new(day(1), "AAPL"), day(1), Cash::new("EUR", dec("1")));
    match process_dividend_accruals(DividendId::new(day(1), "AAPL"), payments(&["100"]), &mut pending, false) {
        Err(Error::TaxAccrual { id, cause }) => {
            assert_eq!(id.date, day(1));
            assert_eq!(cause, AccrualError::CurrencyMismatch);
        }
        other => panic!("{:?}", other),
    }
    assert!(pending.is_empty());
}

#[test]
fn dividends_are_settled_in_their_order() {
    let mut dividends = AccrualMap::new();
    dividends.record(DividendId::new(day(2), "MSFT"), day(2), usd("10"));
    dividends.record(DividendId::new(day(1), "AAPL"), day(1), usd("100"));
    dividends.record(DividendId::new(day(2), "MSFT"), day(3), usd("5"));
    dividends.record(DividendId::new(day(3), "IBM"), day(3), usd("7"));
    dividends.record(DividendId::new(day(3), "IBM"), day(4), usd("-7"));
    assert_eq!(dividends.len(), 3);
    assert!(dividends.contains(&DividendId::new(day(3), "IBM")));
    assert!(!dividends.contains(&DividendId::new(day(4), "IBM")));

    let mut pending = taxes(&[("AAPL", 1, "13"), ("MSFT", 2, "1.5")]);
    let (paid, cash_flows) = process_dividends(dividends, &mut pending, true).unwrap();
    let found: Vec<(String, i64, i64)> = paid
        .iter()
        .map(|dividend: &Dividend| {
            (dividend.issuer.clone(), dividend.amount.amount.units(), dividend.paid_tax.amount.units())
        })
        .collect();
    assert_eq!(
        found,
        vec![
            ("MSFT".to_owned(), dec("15").units(), dec("1.5").units()),
            ("AAPL".to_owned(), dec("100").units(), dec("13").units()),
        ]
    );
    assert_eq!(
        cash_flows.iter().map(flow).collect::<Vec<_>>(),
        vec![
            (day(2), dec("10").units(), "dividend MSFT".to_owned()),
            (day(3), dec("5").units(), "dividend MSFT".to_owned()),
            (day(2), dec("-1.5").units(), "tax MSFT".to_owned()),
            (day(1), dec("100").units(), "dividend AAPL".to_owned()),
            (day(1), dec("-13").units(), "tax AAPL".to_owned()),
        ]
    );
    assert!(pending.is_empty());
    assert!(check_pending_taxes(&pending).is_ok());
}

#[test]
fn taxes_without_dividend_stay_pending() {
    let mut dividends = AccrualMap::new();
    dividends.record(DividendId::new(day(1), "AAPL"), day(1), usd("100"));
    let mut pending = taxes(&[("IBM", 5, "1"), ("AAPL", 1, "13"), ("MSFT", 2, "1.5"), ("AAPL", 2, "1")]);
    process_dividends(dividends, &mut pending, false).unwrap();
    match check_pending_taxes(&pending) {
        Err(Error::OrphanTaxes { ids }) => {
            let found: Vec<(Date, String)> = ids.iter().map(|id| (id.date, id.issuer.clone())).collect();
            assert_eq!(
                found,
                vec![(day(5), "IBM".to_owned()), (day(2), "MSFT".to_owned()), (day(2), "AAPL".to_owned())]
            );
        }
        other => panic!("{:?}", other),
    }
}

#[test]
fn settling_stops_at_the_first_error() {
    let mut dividends = AccrualMap::new();
    dividends.record(DividendId::new(day(1), "AAPL"), day(1), usd("100"));
    dividends.record(DividendId::new(day(1), "AAPL"), day(1), usd("-100"));
    dividends.record(DividendId::new(day(2), "MSFT"), day(2), usd("10"));
    let mut pending = taxes(&[("MSFT", 2, "1"), ("AAPL", 1, "13")]);
    assert!(matches!(
        process_dividends(dividends, &mut pending, false),
        Err(Error::ReversedDividendTax { .. })
    ));
    assert_eq!(pending.len(), 1);
    assert!(pending.contains(&TaxId::new(day(2), "MSFT")));
}

#[test]
fn accrual_map_removes_by_key() {
    let mut map = taxes(&[("AAPL", 1, "1"), ("MSFT", 1, "2"), ("AAPL", 1, "3")]);
    assert_eq!(map.len(), 2);
    assert!(map.remove(&TaxId::new(day(2), "AAPL")).is_none());
    let removed = map.remove(&TaxId::new(day(1), "AAPL")).unwrap();
    assert_eq!(removed.net_amount().unwrap().unwrap().amount.units(), dec("4").units());
    assert_eq!(map.len(), 1);
    assert!(map.remove(&TaxId::new(day(1), "AAPL")).is_none());
    let entries = map.into_entries();
    assert_eq!(entries.len(), 1);
    assert_eq!(entries[0].id, TaxId::new(day(1), "MSFT"));
    assert_eq!(entries[0].payments.len(), 1);
}

#[test]
fn dividend_id_keeps_its_parts() {
    let id = DividendId::new(day(1), "AAPL");
    assert_eq!(id.date, day(1));
    assert_eq!(id.issuer, "AAPL");
    assert!(id.same(&id.clone()));
    assert!(!id.same(&DividendId::new(day(2), "AAPL")));
    assert!(!id.same(&DividendId::new(day(1), "AAP")));
}

#[test]
fn dividend_description_and_tax() {
    let dividend = Dividend {
        date: Date::new(2018, 8, 16).unwrap(),
        issuer: "AAPL".to_owned(),
        amount: usd("100"),
        paid_tax: usd("10"),
        skip_from_cash_flow: false,
    };
    assert_eq!(dividend.description(), "AAPL dividend from 16.08.2018");

    let country = Country::new("RUB", dec("0.13"));
    let asked = dividend.amount_to_convert(&country);
    assert_eq!(asked.date, dividend.date);
    assert_eq!((asked.cash.currency.as_str(), asked.cash.amount.units()), ("USD", dec("100").units()));
    assert_eq!(asked.currency, "RUB");
    let asked = dividend.paid_tax_to_convert(&country);
    assert_eq!(asked.date, dividend.date);
    assert_eq!((asked.cash.currency.as_str(), asked.cash.amount.units()), ("USD", dec("10").units()));
    assert_eq!(asked.currency, "RUB");
    assert_eq!(dividend.tax(&country, dec("6500")).unwrap().units(), dec("845").units());
    assert_eq!(
        dividend.tax_to_pay(&country, dec("6500"), dec("650")).unwrap().units(),
        dec("195").units()
    );
    assert_eq!(dividend.tax_to_pay(&country, dec("6500"), dec("900")).unwrap().units(), 0);
}

#[test]
fn cash_keeps_its_parts() {
    let cash = usd("1.5");
    assert_eq!(cash.currency, "USD");
    assert_eq!(cash.neg().amount.units(), dec("-1.5").units());
    assert_eq!(cash.neg().currency, "USD");
    assert!(!cash.is_zero());
    assert!(usd("0").is_zero());
    assert_eq!(cash.clone().amount.units(), cash.amount.units());
}
