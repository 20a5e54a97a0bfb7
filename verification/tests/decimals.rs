use investments::localities::Country;
use investments::types::Decimal;

fn dec(text: &str) -> Decimal {
    Decimal::parse(text).unwrap()
}

#[test]
fn decimal_parse_values() {
    assert_eq!(dec("0").units(), 0);
    assert_eq!(dec("22.5").units(), 22_500_000);
    assert_eq!(dec("-22.5").units(), -22_500_000);
    assert_eq!(dec("150").units(), 150_000_000);
    assert_eq!(dec("0.000001").units(), 1);
    assert_eq!(dec("-0.000001").units(), -1);
    assert_eq!(dec("007.10").units(), 7_100_000);
    assert_eq!(dec("999999999999.999999").units(), 999_999_999_999_999_999);
    assert_eq!(dec("-999999999999.999999").units(), -999_999_999_999_999_999);
    assert_eq!(dec("-0").units(), 0);
}

#[test]
fn decimal_parse_refuses() {
    for text in [
        "", "-", ".", ".5", "5.", "1.2.3", "+1", "1,000", " 1", "1 ", "1e3", "--1", "1.0000001",
        "1000000000000", "12a", "a", "1.-2", "１",
    ] {
        assert!(Decimal::parse(text).is_none(), "{:?}", text);
    }
}

#[test]
fn decimal_arithmetic() {
    let a = dec("1.5");
    let b = dec("-2.25");
    assert_eq!(a.checked_add(&b).unwrap().units(), -750_000);
    assert_eq!(a.checked_sub(&b).unwrap().units(), 3_750_000);
    assert_eq!(b.neg().units(), 2_250_000);
    assert!(Decimal::zero().is_zero());
    assert!(!a.is_zero());
    assert!(b.is_negative());
    assert!(!a.is_negative());
    assert!(b.less_than(&a));
    assert!(!a.less_than(&a));
    assert_eq!(a, dec("1.50"));

    let max = Decimal::from_units(i64::MAX).unwrap();
    assert!(max.checked_add(&dec("0.000001")).is_none());
    assert!(max.neg().checked_sub(&dec("0.000001")).is_none());
    assert_eq!(max.neg().units(), -i64::MAX);
    assert!(Decimal::from_units(i64::MIN).is_none());
    assert_eq!(max.checked_add(&max.neg()).unwrap().units(), 0);
}

#[test]
fn decimal_rounding() {
    assert_eq!(dec("1.005").round_to_cents().unwrap().units(), dec("1.01").units());
    assert_eq!(dec("1.004999").round_to_cents().unwrap().units(), dec("1").units());
    assert_eq!(dec("-1.005").round_to_cents().unwrap().units(), dec("-1.01").units());
    assert_eq!(dec("-1.004999").round_to_cents().unwrap().units(), dec("-1").units());
    assert_eq!(dec("2.5").round_to_cents().unwrap().units(), dec("2.5").units());
    assert!(Decimal::from_units(i64::MAX).unwrap().round_to_cents().is_none());

    assert_eq!(dec("100").mul_to_cents(&dec("0.13")).unwrap().units(), dec("13").units());
    assert_eq!(dec("7.3").mul_to_cents(&dec("0.13")).unwrap().units(), dec("0.95").units());
    assert_eq!(dec("0.5").mul_to_cents(&dec("0.01")).unwrap().units(), dec("0.01").units());
    assert_eq!(dec("-0.5").mul_to_cents(&dec("0.01")).unwrap().units(), dec("-0.01").units());
    assert_eq!(dec("0.49").mul_to_cents(&dec("0.01")).unwrap().units(), 0);
    let big = Decimal::from_units(i64::MAX).unwrap();
    assert!(big.mul_to_cents(&big).is_none());
}

#[test]
fn country_tax_to_pay() {
    let country = Country::new("RUB", dec("0.13"));
    assert_eq!(country.currency, "RUB");
    assert_eq!(country.tax_to_pay(dec("1000"), None).unwrap().units(), dec("130").units());
    assert_eq!(
        country.tax_to_pay(dec("1000"), Some(dec("100"))).unwrap().units(),
        dec("30").units()
    );
    assert_eq!(country.tax_to_pay(dec("1000"), Some(dec("130"))).unwrap().units(), 0);
    assert_eq!(country.tax_to_pay(dec("1000"), Some(dec("150"))).unwrap().units(), 0);
    assert_eq!(
        country.tax_to_pay(dec("100.04"), Some(dec("10.004"))).unwrap().units(),
        dec("3.01").units()
    );
    let big = Decimal::from_units(i64::MAX).unwrap();
    assert!(Country::new("RUB", big).tax_to_pay(big, None).is_none());
    assert!(country.tax_to_pay(dec("1000"), Some(big)).is_none());
}
