use vstd::prelude::*;

verus! {

/// What the items of a list stand for, one by one.
pub open spec fn views<T: View>(items: Seq<T>) -> Seq<T::V> {
    Seq::new(items.len(), |i: int| items[i]@)
}

/// What an optional value stands for.
pub open spec fn option_view<T: View>(option: Option<T>) -> Option<T::V> {
    match option {
        Some(value) => Some(value@),
        None => None,
    }
}

/// The views of a list with one more item are the views of the list with one more view.
pub proof fn lemma_views_push<T: View>(items: Seq<T>, item: T)
    ensures
        views(items.push(item)) == views(items).push(item@),
{
    assert(views(items.push(item)) =~= views(items).push(item@));
}

/// Ten to the power `n`.
pub open spec fn pow10(n: nat) -> int
    decreases n,
{
    if n == 0 {
        1
    } else {
        10 * pow10((n - 1) as nat)
    }
}

/// The positive powers of ten up to the eighteenth.
pub proof fn lemma_pow10_values()
    ensures
        pow10(0) == 1,
        pow10(1) == 10,
        pow10(2) == 100,
        pow10(3) == 1_000,
        pow10(4) == 10_000,
        pow10(5) == 100_000,
        pow10(6) == 1_000_000,
        pow10(12) == 1_000_000_000_000,
        pow10(18) == 1_000_000_000_000_000_000,
{
    reveal_with_fuel(pow10, 20);
}

/// Whether the character is a decimal digit.
pub open spec fn is_digit(c: char) -> bool {
    '0' <= c <= '9'
}

/// The number that a decimal digit stands for.
pub open spec fn digit_value(c: char) -> int {
    c as int - '0' as int
}

/// Whether the text is made of decimal digits alone.
pub open spec fn all_digits(s: Seq<char>) -> bool {
    forall|i: int| 0 <= i < s.len() ==> is_digit(#[trigger] s[i])
}

/// The number that a sequence of decimal digits writes.
pub open spec fn digits_value(s: Seq<char>) -> int
    decreases s.len(),
{
    if s.len() == 0 {
        0
    } else {
        digits_value(s.drop_last()) * 10 + digit_value(s.last())
    }
}

/// How many digits stand at the start of `s`.
pub open spec fn leading_digits(s: Seq<char>) -> nat
    decreases s.len(),
{
    if s.len() > 0 && is_digit(s[0]) {
        1 + leading_digits(s.skip(1))
    } else {
        0
    }
}

/// The units of an unsigned decimal number: one to twelve integer digits, then optionally a
/// point and one to six fractional digits.
pub open spec fn unsigned_units(s: Seq<char>) -> Option<int> {
    let k = leading_digits(s) as int;
    let whole = digits_value(s.take(k)) * 1_000_000;
    let fraction = s.skip(k + 1);
    if k < 1 || k > 12 {
        None
    } else if k == s.len() {
        Some(whole)
    } else if s[k] == '.' && 1 <= fraction.len() <= 6 && all_digits(fraction) {
        Some(whole + digits_value(fraction) * pow10((6 - fraction.len()) as nat))
    } else {
        None
    }
}

/// The units of a decimal number with an optional leading minus sign.
pub open spec fn decimal_units(s: Seq<char>) -> Option<int> {
    if s.len() > 0 && s[0] == '-' {
        match unsigned_units(s.skip(1)) {
            Some(units) => Some(-units),
            None => None,
        }
    } else {
        unsigned_units(s)
    }
}

/// A prefix of digits that ends at a character that is no digit, or at the end, is the whole
/// run of leading digits.
pub proof fn lemma_leading_digits(s: Seq<char>, k: int)
    requires
        0 <= k <= s.len(),
        all_digits(s.take(k)),
        k < s.len() ==> !is_digit(s[k]),
    ensures
        leading_digits(s) == k,
    decreases k,
{
    if k == 0 {
    } else {
        assert(s.take(k)[0] == s[0]);
        let rest = s.skip(1);
        assert forall|i: int| 0 <= i < k - 1 implies is_digit(#[trigger] rest.take(k - 1)[i]) by {
            assert(rest.take(k - 1)[i] == s.take(k)[i + 1]);
        }
        lemma_leading_digits(rest, k - 1);
    }
}

/// A prefix of digits is no longer than the run of leading digits.
pub proof fn lemma_leading_digits_at_least(s: Seq<char>, k: int)
    requires
        0 <= k <= s.len(),
        all_digits(s.take(k)),
    ensures
        leading_digits(s) >= k,
    decreases k,
{
    if k > 0 {
        assert(s.take(k)[0] == s[0]);
        let rest = s.skip(1);
        assert forall|i: int| 0 <= i < k - 1 implies is_digit(#[trigger] rest.take(k - 1)[i]) by {
            assert(rest.take(k - 1)[i] == s.take(k)[i + 1]);
        }
        lemma_leading_digits_at_least(rest, k - 1);
    }
}

/// The powers of ten grow with the exponent, and are positive.
pub proof fn lemma_pow10_monotonic(a: nat, b: nat)
    requires
        a <= b,
    ensures
        0 < pow10(a) <= pow10(b),
    decreases b,
{
    if b == 0 {
    } else if a < b {
        lemma_pow10_monotonic(a, (b - 1) as nat);
    } else {
        lemma_pow10_monotonic((a - 1) as nat, (b - 1) as nat);
    }
}

/// The characters of a string, one by one.
pub fn chars_of(s: &str) -> (v: Vec<char>)
    ensures
        v@ == s@,
{
    let mut v: Vec<char> = Vec::new();
    for c in it: s.chars()
        invariant
            it.seq() == s@,
            v@ == s@.take(it.index() as int),
    {
        v.push(c);
        assert(s@.take(it.index() + 1) =~= s@.take(it.index() as int).push(c));
    }
    assert(s@.take(s@.len() as int) =~= s@);
    v
}

/// A copy of the texts.
pub fn copy_texts(texts: &Vec<String>) -> (r: Vec<String>)
    ensures
        views(r@) == views(texts@),
{
    let n = texts.len();
    let mut copy: Vec<String> = Vec::new();
    let mut i: usize = 0;
    while i < n
        invariant
            0 <= i <= n,
            n == texts.len(),
            views(copy@) == views(texts@).take(i as int),
        decreases n - i,
    {
        let field = texts[i].clone();
        proof {
            lemma_views_push(copy@, field);
            assert(views(texts@).take(i + 1) =~= views(texts@).take(i as int).push(field@));
        }
        copy.push(field);
        i = i + 1;
    }
    assert(views(texts@).take(n as int) =~= views(texts@));
    copy
}

/// Whether the character is a decimal digit.
pub fn is_decimal_digit(c: char) -> (r: bool)
    ensures
        r == is_digit(c),
{
    '0' <= c && c <= '9'
}

/// The number that a decimal digit stands for.
pub fn decimal_digit(c: char) -> (r: i64)
    requires
        is_digit(c),
    ensures
        r == digit_value(c),
        0 <= r <= 9,
{
    (c as u32 - '0' as u32) as i64
}

/// Whether a number of millionths is in the range of a [`Decimal`].
pub open spec fn in_range(units: int) -> bool {
    i64::MIN < units <= i64::MAX
}

/// How many times `unit` goes into `value`, rounded to the nearest whole number, a half away
/// from zero.
pub open spec fn half_up(value: int, unit: int) -> int {
    if value >= 0 {
        (value + unit / 2) / unit
    } else {
        -((-value + unit / 2) / unit)
    }
}

/// A number of millionths rounded to whole hundredths.
pub open spec fn rounded_to_cents(units: int) -> int {
    half_up(units, 10_000) * 10_000
}

/// The product of two numbers of millionths, rounded to whole hundredths, in millionths.
pub open spec fn product_in_cents(a: int, b: int) -> int {
    half_up(a * b, 10_000_000_000) * 10_000
}

/// Rounds to the nearest multiple of the unit and counts in units.
fn count_half_up(value: i128, unit: i128) -> (r: i128)
    requires
        0 < unit <= 10_000_000_000,
        -0x4000_0000_0000_0000_0000_0000_0000_0000 <= value
            <= 0x4000_0000_0000_0000_0000_0000_0000_0000,
    ensures
        r == half_up(value as int, unit as int),
        -0x4000_0000_0000_0000_0000_0000_0000_0000 - 10_000_000_000 <= r
            <= 0x4000_0000_0000_0000_0000_0000_0000_0000 + 10_000_000_000,
{
    let half = unit / 2;
    if value >= 0 {
        let sum = value + half;
        let count = sum / unit;
        assert(0 <= count <= sum) by (nonlinear_arith)
            requires
                count == sum / unit,
                sum >= 0,
                unit > 0,
        ;
        count
    } else {
        let sum = -value + half;
        let count = sum / unit;
        assert(0 <= count <= sum) by (nonlinear_arith)
            requires
                count == sum / unit,
                sum >= 0,
                unit > 0,
        ;
        -count
    }
}

/// A fixed-point decimal number with six fractional digits.
#[derive(Clone, Copy, Debug, PartialEq, Eq, Hash)]
pub struct Decimal {
    units: i64,
}

impl View for Decimal {
    type V = int;

    /// The number of millionths.
    closed spec fn view(&self) -> int {
        self.units as int
    }
}

impl Decimal {
    #[verifier::type_invariant]
    spec fn negatable(self) -> bool {
        self.units > i64::MIN
    }

    /// Nothing.
    pub fn zero() -> (r: Decimal)
        ensures
            r@ == 0,
    {
        Decimal { units: 0 }
    }

    /// The decimal of the given number of millionths, where its negation is representable too.
    pub fn from_units(units: i64) -> (r: Option<Decimal>)
        ensures
            match r {
                Some(d) => d@ == units && units > i64::MIN,
                None => units == i64::MIN,
            },
    {
        if units == i64::MIN {
            None
        } else {
            Some(Decimal { units })
        }
    }

    /// The number of millionths.
    pub fn units(&self) -> (r: i64)
        ensures
            r == self@,
            r > i64::MIN,
    {
        proof {
            use_type_invariant(self);
        }
        self.units
    }

    /// Whether the number is nothing.
    pub fn is_zero(&self) -> (r: bool)
        ensures
            r == (self@ == 0),
    {
        self.units == 0
    }

    /// Whether the number is below nothing.
    pub fn is_negative(&self) -> (r: bool)
        ensures
            r == (self@ < 0),
    {
        self.units < 0
    }

    /// The number with the opposite sign.
    pub fn neg(&self) -> (r: Decimal)
        ensures
            r@ == -self@,
    {
        proof {
            use_type_invariant(self);
        }
        Decimal { units: -self.units }
    }

    /// Reads a decimal number: an optional minus sign, one to twelve integer digits, and
    /// optionally a point with one to six fractional digits.
    pub fn parse(text: &str) -> (r: Option<Decimal>)
        ensures
            match r {
                Some(d) => decimal_units(text@) == Some(d@),
                None => decimal_units(text@) is None,
            },
    {
        let chars = chars_of(text);
        let n = chars.len();
        let negative = n > 0 && chars[0] == '-';
        let start: usize = if negative { 1 } else { 0 };
        let ghost body = chars@.skip(start as int);
        proof {
            if !negative {
                assert(body =~= text@);
            }
        }
        let mut i: usize = start;
        let mut whole: i64 = 0;
        proof {
            lemma_pow10_values();
        }
        while i < n && i - start < 12 && is_decimal_digit(chars[i])
            invariant
                start <= i <= n,
                n == chars.len(),
                i - start <= 12,
                body == chars@.skip(start as int),
                all_digits(body.take(i - start)),
                whole == digits_value(body.take(i - start)),
                0 <= whole < pow10((i - start) as nat),
                pow10(12) == 1_000_000_000_000,
            decreases n - i,
        {
            let ghost before = body.take(i - start);
            let ghost after = body.take(i - start + 1);
            proof {
                assert(after.drop_last() =~= before);
                assert(after.last() == chars[i as int]);
                lemma_pow10_monotonic((i - start) as nat, 12);
            }
            whole = whole * 10 + decimal_digit(chars[i]);
            i = i + 1;
            proof {
                assert forall|j: int| 0 <= j < after.len() implies is_digit(#[trigger] after[j]) by {
                    if j < before.len() {
                        assert(after[j] == before[j]);
                    }
                }
            }
        }
        let digits = i - start;
        if digits == 0 {
            proof {
                lemma_leading_digits(body, 0);
            }
            return None;
        }
        if i < n && is_decimal_digit(chars[i]) {
            proof {
                let longer = body.take(13);
                assert forall|j: int| 0 <= j < longer.len() implies is_digit(#[trigger] longer[j]) by {
                    if j < 12 {
                        assert(longer[j] == body.take(12)[j]);
                    }
                }
                lemma_leading_digits_at_least(body, 13);
            }
            return None;
        }
        proof {
            lemma_leading_digits(body, digits as int);
            lemma_pow10_monotonic(digits as nat, 12);
        }
        let mut units: i64 = whole * 1_000_000;
        if i < n {
            if chars[i] != '.' {
                return None;
            }
            let fraction_len = n - i - 1;
            if fraction_len < 1 || fraction_len > 6 {
                return None;
            }
            let ghost fraction = body.skip(digits + 1);
            let mut j: usize = i + 1;
            let mut part: i64 = 0;
            proof {
                assert(fraction =~= chars@.skip(i + 1));
            }
            while j < n
                invariant
                    i + 1 <= j <= n,
                    !all_digits(fraction) ==> decimal_units(text@) is None,
                    n == chars.len(),
                    n - i - 1 <= 6,
                    digits == i - start,
                    fraction == chars@.skip(i + 1),
                    all_digits(fraction.take(j - i - 1)),
                    part == digits_value(fraction.take(j - i - 1)),
                    0 <= part < pow10((j - i - 1) as nat),
                    pow10(6) == 1_000_000,
                decreases n - j,
            {
                if !is_decimal_digit(chars[j]) {
                    proof {
                        assert(fraction[j - i - 1] == chars[j as int]);
                        assert(!all_digits(fraction));
                    }
                    return None;
                }
                let ghost before = fraction.take(j - i - 1);
                let ghost after = fraction.take(j - i);
                proof {
                    assert(after.drop_last() =~= before);
                    assert(after.last() == chars[j as int]);
                    lemma_pow10_monotonic((j - i - 1) as nat, 6);
                }
                part = part * 10 + decimal_digit(chars[j]);
                j = j + 1;
                proof {
                    assert forall|k: int| 0 <= k < after.len() implies is_digit(
                        #[trigger] after[k],
                    ) by {
                        if k < before.len() {
                            assert(after[k] == before[k]);
                        }
                    }
                }
            }
            proof {
                assert(fraction.take(fraction.len() as int) =~= fraction);
            }
            let mut shown: usize = fraction_len;
            while shown < 6
                invariant
                    fraction_len <= shown <= 6,
                    part == digits_value(fraction) * pow10((shown - fraction_len) as nat),
                    0 <= part < pow10(shown as nat),
                    pow10(6) == 1_000_000,
                decreases 6 - shown,
            {
                proof {
                    lemma_pow10_monotonic(shown as nat, 5);
                    lemma_pow10_values();
                    let value = digits_value(fraction);
                    let scale = pow10((shown - fraction_len) as nat);
                    assert(value * scale * 10 == value * (10 * scale)) by (nonlinear_arith);
                }
                part = part * 10;
                shown = shown + 1;
            }
            units = units + part;
        }
        let value = if negative { -units } else { units };
        Decimal::from_units(value)
    }

    /// Whether the number is below the other.
    pub fn less_than(&self, other: &Decimal) -> (r: bool)
        ensures
            r == (self@ < other@),
    {
        self.units < other.units
    }

    /// The sum, unless it leaves the range of the type.
    pub fn checked_add(&self, other: &Decimal) -> (r: Option<Decimal>)
        ensures
            match r {
                Some(d) => d@ == self@ + other@ && i64::MIN < d@ <= i64::MAX,
                None => !(i64::MIN < self@ + other@ <= i64::MAX),
            },
    {
        match self.units.checked_add(other.units) {
            Some(units) => Decimal::from_units(units),
            None => None,
        }
    }

    /// The number rounded to whole hundredths, a half away from zero, unless that leaves the
    /// range of the type.
    pub fn round_to_cents(&self) -> (r: Option<Decimal>)
        ensures
            match r {
                Some(d) => d@ == rounded_to_cents(self@) && in_range(d@),
                None => !in_range(rounded_to_cents(self@)),
            },
    {
        let cents = count_half_up(self.units as i128, 10_000);
        let units = cents * 10_000;
        if units > i64::MAX as i128 || units <= i64::MIN as i128 {
            None
        } else {
            Decimal::from_units(units as i64)
        }
    }

    /// The product with the factor, rounded to whole hundredths, a half away from zero,
    /// unless that leaves the range of the type.
    pub fn mul_to_cents(&self, factor: &Decimal) -> (r: Option<Decimal>)
        ensures
            match r {
                Some(d) => d@ == product_in_cents(self@, factor@) && in_range(d@),
                None => !in_range(product_in_cents(self@, factor@)),
            },
    {
        let a = self.units as i128;
        let b = factor.units as i128;
        assert(-0x4000_0000_0000_0000_0000_0000_0000_0000 <= a * b
            <= 0x4000_0000_0000_0000_0000_0000_0000_0000) by (nonlinear_arith)
            requires
                -0x8000_0000_0000_0000 <= a <= 0x8000_0000_0000_0000,
                -0x8000_0000_0000_0000 <= b <= 0x8000_0000_0000_0000,
        ;
        let cents = count_half_up(a * b, 10_000_000_000);
        let units = cents * 10_000;
        if units > i64::MAX as i128 || units <= i64::MIN as i128 {
            None
        } else {
            Decimal::from_units(units as i64)
        }
    }

    /// The difference, unless it leaves the range of the type.
    pub fn checked_sub(&self, other: &Decimal) -> (r: Option<Decimal>)
        ensures
            match r {
                Some(d) => d@ == self@ - other@ && i64::MIN < d@ <= i64::MAX,
                None => !(i64::MIN < self@ - other@ <= i64::MAX),
            },
    {
        match self.units.checked_sub(other.units) {
            Some(units) => Decimal::from_units(units),
            None => None,
        }
    }
}

} // verus!
