use vstd::prelude::*;

use super::dividends::accrual_of;
use super::taxes::negated;
use super::{
    consumed, open_section, parsed, section_kind, step_of, SectionKind, StatementParserView, Step,
};
use crate::broker_statement::dividends::{no_settlement, reconciled, settled, DividendView};
use crate::broker_statement::payments::{single_currency, total, TransactionView};
use crate::broker_statement::taxes::{
    lemma_position, recorded, without, AccrualKey, AccrualView,
};
use crate::currency::CashView;
use crate::types::in_range;

verus! {

/// What the row at `i` records, where it is handed to the handler of the given kind of
/// section and holds no total: the key and the transaction as the row gives it.
pub open spec fn accrual_row(rows: Seq<Seq<Seq<char>>>, i: int, kind: SectionKind) -> Option<
    (AccrualKey, TransactionView),
> {
    if step_of(open_section(rows, i), rows[i]) == Step::Deliver && section_kind(rows[i][0])
        == kind {
        match accrual_of(open_section(rows, i)->0, rows[i]) {
            Ok(Some(accrual)) => Some(accrual),
            _ => None,
        }
    } else {
        None
    }
}

/// The pending dividends after the first `n` rows: what the rows of the sections on dividends
/// recorded, one after the other.
pub open spec fn dividends_read(rows: Seq<Seq<Seq<char>>>, n: int, start: Seq<AccrualView>) -> Seq<
    AccrualView,
>
    decreases n,
{
    if n <= 0 {
        start
    } else {
        let before = dividends_read(rows, n - 1, start);
        match accrual_row(rows, n - 1, SectionKind::Dividends) {
            Some((key, transaction)) => recorded(before, key, transaction),
            None => before,
        }
    }
}

/// The pending taxes after the first `n` rows: what the rows of the sections on withholding
/// tax recorded, one after the other, each amount with the opposite sign.
pub open spec fn taxes_read(rows: Seq<Seq<Seq<char>>>, n: int, start: Seq<AccrualView>) -> Seq<
    AccrualView,
>
    decreases n,
{
    if n <= 0 {
        start
    } else {
        let before = taxes_read(rows, n - 1, start);
        match accrual_row(rows, n - 1, SectionKind::WithholdingTax) {
            Some((key, transaction)) => recorded(before, key, negated(transaction)),
            None => before,
        }
    }
}

/// The pending dividends and taxes change with the rows of their own sections, and with no
/// other row.
pub proof fn lemma_accruals_come_from_their_rows(
    rows: Seq<Seq<Seq<char>>>,
    n: int,
    state: StatementParserView,
)
    requires
        0 <= n <= rows.len(),
        consumed(rows, n, state) is Ok,
    ensures
        consumed(rows, n, state)->Ok_0.dividends == dividends_read(rows, n, state.dividends),
        consumed(rows, n, state)->Ok_0.taxes == taxes_read(rows, n, state.taxes),
        consumed(rows, n, state)->Ok_0.cash_flow_details == state.cash_flow_details,
    decreases n,
{
    if n > 0 {
        lemma_accruals_come_from_their_rows(rows, n - 1, state);
    }
}

/// The entry of one key with the given transactions.
pub open spec fn entry_of(key: AccrualKey, transactions: Seq<TransactionView>) -> AccrualView {
    AccrualView { key, transactions }
}

/// Where two rows are all that the sections on dividends hold, and both are of one dividend,
/// the pending dividends are one entry with the two transactions, in the order of the rows.
pub proof fn lemma_two_rows_of_one_dividend(
    rows: Seq<Seq<Seq<char>>>,
    n: int,
    start: Seq<AccrualView>,
    first: int,
    second: int,
    key: AccrualKey,
    one: TransactionView,
    two: TransactionView,
)
    requires
        start.len() == 0,
        0 <= first < second < rows.len(),
        0 <= n <= rows.len(),
        accrual_row(rows, first, SectionKind::Dividends) == Some((key, one)),
        accrual_row(rows, second, SectionKind::Dividends) == Some((key, two)),
        forall|i: int|
            0 <= i < rows.len() && i != first && i != second ==> #[trigger] accrual_row(
                rows,
                i,
                SectionKind::Dividends,
            ) is None,
    ensures
        dividends_read(rows, n, start) == if n <= first {
            Seq::<AccrualView>::empty()
        } else if n <= second {
            seq![entry_of(key, seq![one])]
        } else {
            seq![entry_of(key, seq![one, two])]
        },
    decreases n,
{
    if n <= 0 {
        assert(start =~= Seq::<AccrualView>::empty());
    } else {
        lemma_two_rows_of_one_dividend(rows, n - 1, start, first, second, key, one, two);
        let before = dividends_read(rows, n - 1, start);
        if n - 1 == first {
            lemma_position(before, key, 0);
            assert(recorded(before, key, one) =~= seq![entry_of(key, seq![one])]);
        } else if n - 1 == second {
            lemma_position(before, key, 0);
            assert(seq![one].push(two) =~= seq![one, two]);
            assert(recorded(before, key, two) =~= seq![entry_of(key, seq![one, two])]);
        } else {
            assert(accrual_row(rows, n - 1, SectionKind::Dividends) is None);
        }
    }
}

/// Where one row is all that the sections on withholding tax hold, the pending taxes are one
/// entry with the one transaction, its amount with the opposite sign.
pub proof fn lemma_one_row_of_tax(
    rows: Seq<Seq<Seq<char>>>,
    n: int,
    start: Seq<AccrualView>,
    row: int,
    key: AccrualKey,
    tax: TransactionView,
)
    requires
        start.len() == 0,
        0 <= row < rows.len(),
        0 <= n <= rows.len(),
        accrual_row(rows, row, SectionKind::WithholdingTax) == Some((key, tax)),
        forall|i: int|
            0 <= i < rows.len() && i != row ==> #[trigger] accrual_row(
                rows,
                i,
                SectionKind::WithholdingTax,
            ) is None,
    ensures
        taxes_read(rows, n, start) == if n <= row {
            Seq::<AccrualView>::empty()
        } else {
            seq![entry_of(key, seq![negated(tax)])]
        },
    decreases n,
{
    if n <= 0 {
        assert(start =~= Seq::<AccrualView>::empty());
    } else {
        lemma_one_row_of_tax(rows, n - 1, start, row, key, tax);
        let before = taxes_read(rows, n - 1, start);
        if n - 1 == row {
            lemma_position(before, key, 0);
            assert(recorded(before, key, negated(tax)) =~= seq![
                entry_of(key, seq![negated(tax)]),
            ]);
        } else {
            assert(accrual_row(rows, n - 1, SectionKind::WithholdingTax) is None);
        }
    }
}

/// The dividend that two lines in one currency and one line of tax come to: the sum of the
/// two lines, with the tax as the tax paid.
pub open spec fn dividend_of(
    key: AccrualKey,
    one: TransactionView,
    two: TransactionView,
    paid_tax: TransactionView,
    cash_flow_details: bool,
) -> DividendView {
    DividendView {
        date: key.date,
        issuer: key.issuer,
        amount: CashView {
            currency: one.cash.currency,
            amount: one.cash.amount + two.cash.amount,
        },
        paid_tax: paid_tax.cash,
        skip_from_cash_flow: cash_flow_details,
    }
}

/// Two lines of one dividend in one currency and one line of tax under the same key settle
/// to exactly one dividend, and no tax is left over.
pub proof fn lemma_one_dividend_is_settled(
    key: AccrualKey,
    one: TransactionView,
    two: TransactionView,
    paid_tax: TransactionView,
    cash_flow_details: bool,
)
    requires
        one.cash.currency == two.cash.currency,
        one.cash.amount + two.cash.amount != 0,
        in_range(one.cash.amount + two.cash.amount),
        paid_tax.cash.amount != 0,
        in_range(paid_tax.cash.amount),
    ensures
        ({
            let (outcome, pending) = settled(
                no_settlement(),
                seq![entry_of(key, seq![one, two])],
                seq![entry_of(key, seq![paid_tax])],
                cash_flow_details,
            );
            &&& outcome is Ok
            &&& outcome->Ok_0.dividends == seq![
                dividend_of(key, one, two, paid_tax, cash_flow_details),
            ]
            &&& pending.len() == 0
        }),
{
    let lines = seq![one, two];
    let dividends = seq![entry_of(key, lines)];
    let taxes = seq![entry_of(key, seq![paid_tax])];
    reveal_with_fuel(Seq::fold_left, 3);
    reveal_with_fuel(settled, 3);
    assert(lines.drop_last() =~= seq![one]);
    assert(seq![one].drop_last() =~= Seq::<TransactionView>::empty());
    assert(total(lines) == one.cash.amount + two.cash.amount);
    assert(single_currency(lines));
    assert(seq![paid_tax].drop_last() =~= Seq::<TransactionView>::empty());
    assert(total(seq![paid_tax]) == paid_tax.cash.amount);
    assert(single_currency(seq![paid_tax]));
    lemma_position(taxes, key, 0);
    assert(without(taxes, key) =~= Seq::<AccrualView>::empty());
    let outcome = reconciled(key, lines, taxes, cash_flow_details);
    assert(outcome is Ok);
    assert(outcome->Ok_0.0 == Some(dividend_of(key, one, two, paid_tax, cash_flow_details)));
    assert(dividends.skip(1) =~= Seq::<AccrualView>::empty());
    assert(Seq::<DividendView>::empty().push(
        dividend_of(key, one, two, paid_tax, cash_flow_details),
    ) =~= seq![dividend_of(key, one, two, paid_tax, cash_flow_details)]);
}

/// A statement whose sections on dividends hold two rows of one dividend, in one currency,
/// and whose sections on withholding tax hold one row for the same day and issuer, has
/// exactly one dividend: its amount is the sum of the two rows, and its paid tax is the
/// amount of the tax row with the opposite sign, since the statement writes a tax that was
/// withheld as a negative amount.
pub proof fn lemma_two_dividend_rows_and_one_tax_row(
    rows: Seq<Seq<Seq<char>>>,
    state: StatementParserView,
    first: int,
    second: int,
    third: int,
    key: AccrualKey,
    one: TransactionView,
    two: TransactionView,
    tax: TransactionView,
)
    requires
        state.dividends.len() == 0,
        state.taxes.len() == 0,
        0 <= first < second < rows.len(),
        0 <= third < rows.len(),
        accrual_row(rows, first, SectionKind::Dividends) == Some((key, one)),
        accrual_row(rows, second, SectionKind::Dividends) == Some((key, two)),
        forall|i: int|
            0 <= i < rows.len() && i != first && i != second ==> #[trigger] accrual_row(
                rows,
                i,
                SectionKind::Dividends,
            ) is None,
        accrual_row(rows, third, SectionKind::WithholdingTax) == Some((key, tax)),
        forall|i: int|
            0 <= i < rows.len() && i != third ==> #[trigger] accrual_row(
                rows,
                i,
                SectionKind::WithholdingTax,
            ) is None,
        one.cash.currency == two.cash.currency,
        one.cash.amount + two.cash.amount != 0,
        in_range(one.cash.amount + two.cash.amount),
        tax.cash.amount != 0,
        in_range(-tax.cash.amount),
        parsed(rows, state) is Ok,
    ensures
        parsed(rows, state)->Ok_0.dividends == seq![
            dividend_of(key, one, two, negated(tax), state.cash_flow_details),
        ],
{
    let n = rows.len() as int;
    lemma_accruals_come_from_their_rows(rows, n, state);
    lemma_two_rows_of_one_dividend(rows, n, state.dividends, first, second, key, one, two);
    lemma_one_row_of_tax(rows, n, state.taxes, third, key, tax);
    lemma_one_dividend_is_settled(key, one, two, negated(tax), state.cash_flow_details);
}

} // verus!
