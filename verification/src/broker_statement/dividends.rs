use vstd::prelude::*;

use super::cash_flows::{CashFlow, CashFlowType, CashFlowTypeView, CashFlowView};
use super::payments::{net, Payments, Transaction, TransactionView};
use super::taxes::{
    distinct_keys, keys, lemma_without, position, transactions_of, without, Accrual, AccrualKey,
    AccrualMap, AccrualView,
};
use crate::currency::{Cash, CashView, Conversion, ConversionView};
use crate::error::{AccrualError, Error, ErrorView};
use crate::formatting::{date_text, push_date};
use crate::localities::{tax_to_pay_of, Country};
use crate::time::Date;
use crate::types::{lemma_views_push, views, Decimal};

verus! {

/// What a [`Dividend`] stands for.
pub struct DividendView {
    pub date: Date,
    pub issuer: Seq<char>,
    pub amount: CashView,
    pub paid_tax: CashView,
    pub skip_from_cash_flow: bool,
}

/// A dividend as it was paid: the net of all lines booked for one issuer on one day, and the
/// tax that was withheld from it at the source.
#[derive(Debug)]
pub struct Dividend {
    pub date: Date,
    pub issuer: String,
    pub amount: Cash,
    pub paid_tax: Cash,
    pub skip_from_cash_flow: bool,
}

impl View for Dividend {
    type V = DividendView;

    open spec fn view(&self) -> DividendView {
        DividendView {
            date: self.date,
            issuer: self.issuer@,
            amount: self.amount@,
            paid_tax: self.paid_tax@,
            skip_from_cash_flow: self.skip_from_cash_flow,
        }
    }
}

/// How a dividend is called: its issuer and the day on which it was paid.
pub open spec fn description_of(dividend: DividendView) -> Seq<char> {
    dividend.issuer + " dividend from "@ + date_text(dividend.date)
}

impl Dividend {
    /// What the currency converter is asked before the tax on the dividend is calculated: the
    /// worth of the dividend in the country's currency on the day of the dividend.
    pub fn amount_to_convert(&self, country: &Country) -> (r: Conversion)
        ensures
            r@ == (ConversionView {
                date: self@.date,
                cash: self@.amount,
                currency: country@.currency,
            }),
    {
        Conversion {
            date: self.date,
            cash: self.amount.clone(),
            currency: country.currency.clone(),
        }
    }

    /// What the currency converter is asked before the tax that is still to pay is
    /// calculated, once it has answered for the dividend itself: the worth of the tax
    /// withheld at the source in the country's currency on the day of the dividend.
    pub fn paid_tax_to_convert(&self, country: &Country) -> (r: Conversion)
        ensures
            r@ == (ConversionView {
                date: self@.date,
                cash: self@.paid_tax,
                currency: country@.currency,
            }),
    {
        Conversion {
            date: self.date,
            cash: self.paid_tax.clone(),
            currency: country.currency.clone(),
        }
    }

    /// The tax on the dividend in the country, before what was withheld at the source.
    /// `amount` is the answer of the currency converter to [`Dividend::amount_to_convert`].
    pub fn tax(&self, country: &Country, amount: Decimal) -> (r: Option<Decimal>)
        ensures
            match r {
                Some(tax) => tax_to_pay_of(country@.tax_rate, amount@, None) == Some(tax@),
                None => tax_to_pay_of(country@.tax_rate, amount@, None) is None,
            },
    {
        country.tax_to_pay(amount, None)
    }

    /// The tax on the dividend that is still to pay in the country. `amount` and `paid_tax`
    /// are the answers of the currency converter to [`Dividend::amount_to_convert`] and to
    /// [`Dividend::paid_tax_to_convert`].
    pub fn tax_to_pay(&self, country: &Country, amount: Decimal, paid_tax: Decimal) -> (r: Option<
        Decimal,
    >)
        ensures
            match r {
                Some(tax) => tax_to_pay_of(country@.tax_rate, amount@, Some(paid_tax@)) == Some(
                    tax@,
                ),
                None => tax_to_pay_of(country@.tax_rate, amount@, Some(paid_tax@)) is None,
            },
    {
        country.tax_to_pay(amount, Some(paid_tax))
    }

    /// How the dividend is called in reports.
    pub fn description(&self) -> (r: String)
        ensures
            r@ == description_of(self@),
    {
        let mut text = self.issuer.clone();
        text.append(" dividend from ");
        push_date(&mut text, self.date);
        text
    }
}

/// The day and the issuer of one dividend.
#[derive(Debug, PartialEq, Eq, Hash)]
pub struct DividendId {
    pub date: Date,
    pub issuer: String,
}

impl View for DividendId {
    type V = AccrualKey;

    open spec fn view(&self) -> AccrualKey {
        AccrualKey { date: self.date, issuer: self.issuer@ }
    }
}

impl Clone for DividendId {
    fn clone(&self) -> (r: DividendId)
        ensures
            r@ == self@,
    {
        DividendId { date: self.date, issuer: self.issuer.clone() }
    }
}

impl DividendId {
    pub fn new(date: Date, issuer: &str) -> (r: DividendId)
        ensures
            r@ == (AccrualKey { date, issuer: issuer@ }),
    {
        DividendId { date, issuer: issuer.to_owned() }
    }

    /// Whether both name the same day and issuer.
    pub fn same(&self, other: &DividendId) -> (r: bool)
        ensures
            r == (self@ == other@),
    {
        self.date == other.date && self.issuer == other.issuer
    }
}

pub type DividendAccruals = Payments;

/// The cash flow of one transaction of a dividend, or of the tax withheld from it: the tax
/// with the opposite sign.
pub open spec fn cash_flow_of(transaction: TransactionView, issuer: Seq<char>, tax: bool) -> CashFlowView {
    if tax {
        CashFlowView {
            date: transaction.date,
            amount: CashView {
                currency: transaction.cash.currency,
                amount: -transaction.cash.amount,
            },
            type_: CashFlowTypeView::Tax { issuer },
        }
    } else {
        CashFlowView {
            date: transaction.date,
            amount: transaction.cash,
            type_: CashFlowTypeView::Dividend { issuer },
        }
    }
}

/// The cash flows of the transactions, one for each and in their order.
pub open spec fn cash_flows_of(transactions: Seq<TransactionView>, issuer: Seq<char>, tax: bool) -> Seq<
    CashFlowView,
> {
    Seq::new(transactions.len(), |i: int| cash_flow_of(transactions[i], issuer, tax))
}

/// The net amount of the tax recorded under the key: nothing where no tax was recorded.
pub open spec fn paid_tax_of(taxes: Seq<AccrualView>, key: AccrualKey) -> Result<
    Option<CashView>,
    AccrualError,
> {
    match position(taxes, key) {
        Some(i) => net(taxes[i].transactions),
        None => Ok(None),
    }
}

/// The cash flows that a dividend that was paid and its tax leave behind, where they are
/// asked for: one for each line of the dividend, then one for each line of the tax.
pub open spec fn detailed_cash_flows(
    key: AccrualKey,
    accruals: Seq<TransactionView>,
    taxes: Seq<AccrualView>,
    cash_flow_details: bool,
) -> Seq<CashFlowView> {
    if cash_flow_details {
        cash_flows_of(accruals, key.issuer, false) + cash_flows_of(
            transactions_of(taxes, key),
            key.issuer,
            true,
        )
    } else {
        Seq::empty()
    }
}

/// What the lines of one dividend and the pending taxes come to: an error where either has no
/// net amount or a dividend taken back in full has tax withheld; else the dividend with its
/// cash flows, or nothing at all where the dividend was taken back in full.
pub open spec fn reconciled(
    key: AccrualKey,
    accruals: Seq<TransactionView>,
    taxes: Seq<AccrualView>,
    cash_flow_details: bool,
) -> Result<(Option<DividendView>, Seq<CashFlowView>), ErrorView> {
    let cash_flows = detailed_cash_flows(key, accruals, taxes, cash_flow_details);
    match net(accruals) {
        Err(cause) => Err(ErrorView::DividendAccrual { key, cause }),
        Ok(gross) => match paid_tax_of(taxes, key) {
            Err(cause) => Err(ErrorView::TaxAccrual { key, cause }),
            Ok(paid_tax) => match gross {
                Some(amount) => Ok(
                    (
                        Some(
                            DividendView {
                                date: key.date,
                                issuer: key.issuer,
                                amount,
                                paid_tax: match paid_tax {
                                    Some(tax) => tax,
                                    None => CashView { currency: amount.currency, amount: 0 },
                                },
                                skip_from_cash_flow: cash_flow_details,
                            },
                        ),
                        cash_flows,
                    ),
                ),
                None => if paid_tax is Some {
                    Err(ErrorView::ReversedDividendTax { key })
                } else {
                    Ok((None, Seq::empty()))
                },
            },
        },
    }
}

/// The pending taxes after the lines of one dividend were settled: without the tax of that
/// dividend, unless the dividend itself had no net amount.
pub open spec fn taxes_after(
    key: AccrualKey,
    accruals: Seq<TransactionView>,
    taxes: Seq<AccrualView>,
) -> Seq<AccrualView> {
    if net(accruals) is Err {
        taxes
    } else {
        without(taxes, key)
    }
}

/// What the outcome of settling one dividend stands for.
pub open spec fn outcome_view(outcome: Result<(Option<Dividend>, Vec<CashFlow>), Error>) -> Result<
    (Option<DividendView>, Seq<CashFlowView>),
    ErrorView,
> {
    match outcome {
        Ok((Some(dividend), cash_flows)) => Ok((Some(dividend@), views(cash_flows@))),
        Ok((None, cash_flows)) => Ok((None, views(cash_flows@))),
        Err(error) => Err(error@),
    }
}

/// Appends the cash flow of each transaction.
fn push_cash_flows(
    cash_flows: &mut Vec<CashFlow>,
    transactions: &Vec<Transaction>,
    issuer: &String,
    tax: bool,
)
    ensures
        views(final(cash_flows)@) == views(old(cash_flows)@) + cash_flows_of(
            views(transactions@),
            issuer@,
            tax,
        ),
{
    let n = transactions.len();
    let ghost added = cash_flows_of(views(transactions@), issuer@, tax);
    let mut i: usize = 0;
    assert(views(cash_flows@) =~= views(old(cash_flows)@) + added.take(0));
    while i < n
        invariant
            0 <= i <= n,
            n == transactions.len(),
            added == cash_flows_of(views(transactions@), issuer@, tax),
            views(cash_flows@) == views(old(cash_flows)@) + added.take(i as int),
        decreases n - i,
    {
        let transaction = &transactions[i];
        let cash_flow = if tax {
            CashFlow {
                date: transaction.date,
                amount: transaction.cash.neg(),
                type_: CashFlowType::Tax { issuer: issuer.clone() },
            }
        } else {
            CashFlow {
                date: transaction.date,
                amount: transaction.cash.clone(),
                type_: CashFlowType::Dividend { issuer: issuer.clone() },
            }
        };
        proof {
            lemma_views_push(cash_flows@, cash_flow);
            assert(cash_flow@ == added[i as int]);
            assert(added.take(i + 1) =~= added.take(i as int).push(added[i as int]));
            assert((views(old(cash_flows)@) + added.take(i as int)).push(added[i as int]) =~= views(
                old(cash_flows)@,
            ) + added.take(i + 1));
        }
        cash_flows.push(cash_flow);
        i = i + 1;
    }
    assert(added.take(n as int) =~= added);
}

/// Settles the lines of one dividend against the pending taxes: nets the lines, takes the tax
/// of the same day and issuer out of the pending taxes and nets it, and makes the dividend of
/// both. A dividend that was taken back in full gives no dividend and no cash flow, and must
/// have no tax withheld.
pub fn process_dividend_accruals(
    dividend: DividendId,
    accruals: DividendAccruals,
    taxes: &mut AccrualMap,
    cash_flow_details: bool,
) -> (r: Result<(Option<Dividend>, Vec<CashFlow>), Error>)
    ensures
        outcome_view(r) == reconciled(dividend@, accruals@, old(taxes)@, cash_flow_details),
        final(taxes)@ == taxes_after(dividend@, accruals@, old(taxes)@),
{
    let mut cash_flows: Vec<CashFlow> = Vec::new();
    let (amount, dividend_transactions) = match accruals.get_result() {
        Ok(result) => result,
        Err(cause) => {
            return Err(Error::DividendAccrual { id: dividend, cause });
        },
    };
    let (paid_tax, tax_transactions) = match taxes.remove(&dividend) {
        Some(tax_accruals) => match tax_accruals.get_result() {
            Ok(result) => result,
            Err(cause) => {
                return Err(Error::TaxAccrual { id: dividend, cause });
            },
        },
        None => (None, Vec::new()),
    };
    assert(views(tax_transactions@) =~= transactions_of(old(taxes)@, dividend@));
    assert(views(cash_flows@) =~= Seq::<CashFlowView>::empty());
    match amount {
        Some(amount) => {
            if cash_flow_details {
                push_cash_flows(&mut cash_flows, &dividend_transactions, &dividend.issuer, false);
                push_cash_flows(&mut cash_flows, &tax_transactions, &dividend.issuer, true);
            }
            assert(views(cash_flows@) =~= detailed_cash_flows(
                dividend@,
                accruals@,
                old(taxes)@,
                cash_flow_details,
            ));
            let paid_tax = match paid_tax {
                Some(tax) => tax,
                None => Cash { currency: amount.currency.clone(), amount: Decimal::zero() },
            };
            Ok(
                (
                    Some(
                        Dividend {
                            date: dividend.date,
                            issuer: dividend.issuer,
                            amount,
                            paid_tax,
                            skip_from_cash_flow: cash_flow_details,
                        },
                    ),
                    cash_flows,
                ),
            )
        },
        None => {
            if paid_tax.is_some() {
                return Err(Error::ReversedDividendTax { id: dividend });
            }
            Ok((None, cash_flows))
        },
    }
}

/// The dividends and cash flows that settling has come to.
pub struct Settlement {
    pub dividends: Seq<DividendView>,
    pub cash_flows: Seq<CashFlowView>,
}

/// Settling nothing.
pub open spec fn no_settlement() -> Settlement {
    Settlement { dividends: Seq::empty(), cash_flows: Seq::empty() }
}

/// The settlement with the outcome of one more dividend behind it.
pub open spec fn settlement_with(
    settlement: Settlement,
    dividend: Option<DividendView>,
    cash_flows: Seq<CashFlowView>,
) -> Settlement {
    Settlement {
        dividends: match dividend {
            Some(dividend) => settlement.dividends.push(dividend),
            None => settlement.dividends,
        },
        cash_flows: settlement.cash_flows + cash_flows,
    }
}

/// What settling the pending dividends, one after the other in their order, adds to a
/// settlement, and the taxes that are still pending after it. It stops at the first dividend
/// that cannot be settled.
pub open spec fn settled(
    so_far: Settlement,
    dividends: Seq<AccrualView>,
    taxes: Seq<AccrualView>,
    cash_flow_details: bool,
) -> (Result<Settlement, ErrorView>, Seq<AccrualView>)
    decreases dividends.len(),
{
    if dividends.len() == 0 {
        (Ok(so_far), taxes)
    } else {
        let first = dividends[0];
        let pending = taxes_after(first.key, first.transactions, taxes);
        match reconciled(first.key, first.transactions, taxes, cash_flow_details) {
            Err(error) => (Err(error), pending),
            Ok((dividend, cash_flows)) => settled(
                settlement_with(so_far, dividend, cash_flows),
                dividends.skip(1),
                pending,
                cash_flow_details,
            ),
        }
    }
}

/// What the outcome of settling all dividends stands for.
pub open spec fn settlement_view(outcome: Result<(Vec<Dividend>, Vec<CashFlow>), Error>) -> Result<
    Settlement,
    ErrorView,
> {
    match outcome {
        Ok((dividends, cash_flows)) => Ok(
            Settlement { dividends: views(dividends@), cash_flows: views(cash_flows@) },
        ),
        Err(error) => Err(error@),
    }
}

/// Settles every pending dividend against the pending taxes, in the order in which the
/// dividends were first seen, and stops at the first that cannot be settled. The taxes that
/// no dividend took stay pending.
pub fn process_dividends(dividends: AccrualMap, taxes: &mut AccrualMap, cash_flow_details: bool) -> (r:
    Result<(Vec<Dividend>, Vec<CashFlow>), Error>)
    ensures
        settlement_view(r) == settled(
            no_settlement(),
            dividends@,
            old(taxes)@,
            cash_flow_details,
        ).0,
        final(taxes)@ == settled(no_settlement(), dividends@, old(taxes)@, cash_flow_details).1,
{
    let ghost all = dividends@;
    let ghost goal = settled(no_settlement(), all, taxes@, cash_flow_details);
    let entries = dividends.into_entries();
    let mut done: Vec<Dividend> = Vec::new();
    let mut cash_flows: Vec<CashFlow> = Vec::new();
    assert(views(done@) =~= Seq::<DividendView>::empty());
    assert(views(cash_flows@) =~= Seq::<CashFlowView>::empty());
    assert(all.skip(0) =~= all);
    for entry in it: entries
        invariant
            it.seq() == entries@,
            views(entries@) == all,
            all == dividends@,
            goal == settled(no_settlement(), all, old(taxes)@, cash_flow_details),
            goal == settled(
                Settlement { dividends: views(done@), cash_flows: views(cash_flows@) },
                all.skip(it.index() as int),
                taxes@,
                cash_flow_details,
            ),
    {
        let ghost rest = all.skip(it.index() as int);
        let ghost so_far = Settlement { dividends: views(done@), cash_flows: views(cash_flows@) };
        let ghost pending = taxes@;
        assert(rest[0] == entry@);
        assert(rest.skip(1) =~= all.skip(it.index() + 1));
        let Accrual { id, payments } = entry;
        match process_dividend_accruals(id, payments, taxes, cash_flow_details) {
            Ok((dividend, mut flows)) => {
                let ghost added = views(flows@);
                if let Some(dividend) = dividend {
                    proof {
                        lemma_views_push(done@, dividend);
                    }
                    done.push(dividend);
                }
                append_cash_flows(&mut cash_flows, &mut flows);
            },
            Err(error) => {
                return Err(error);
            },
        }
    }
    assert(all.skip(all.len() as int) =~= Seq::<AccrualView>::empty());
    Ok((done, cash_flows))
}

/// Moves the cash flows of `more` behind those of `cash_flows`.
fn append_cash_flows(cash_flows: &mut Vec<CashFlow>, more: &mut Vec<CashFlow>)
    ensures
        views(final(cash_flows)@) == views(old(cash_flows)@) + views(old(more)@),
{
    cash_flows.append(more);
    assert(views(cash_flows@) =~= views(old(cash_flows)@) + views(old(more)@));
}

/// Fails where a tax is still pending, and then names every pending tax.
pub fn check_pending_taxes(taxes: &AccrualMap) -> (r: Result<(), Error>)
    ensures
        match r {
            Ok(()) => taxes@.len() == 0,
            Err(error) => taxes@.len() > 0 && error@ == (ErrorView::OrphanTaxes {
                keys: keys(taxes@),
            }),
        },
{
    if taxes.is_empty() {
        Ok(())
    } else {
        Err(Error::OrphanTaxes { ids: taxes.ids() })
    }
}

/// After all dividends were settled, the taxes still pending are those recorded under a key
/// under which no dividend was recorded, each with its transactions: a tax is left over if
/// and only if it has no dividend.
pub proof fn lemma_pending_taxes_have_no_dividend(
    so_far: Settlement,
    dividends: Seq<AccrualView>,
    taxes: Seq<AccrualView>,
    cash_flow_details: bool,
    key: AccrualKey,
)
    requires
        distinct_keys(taxes),
        settled(so_far, dividends, taxes, cash_flow_details).0 is Ok,
    ensures
        ({
            let pending = settled(so_far, dividends, taxes, cash_flow_details).1;
            &&& distinct_keys(pending)
            &&& position(pending, key) is Some <==> position(taxes, key) is Some && position(
                dividends,
                key,
            ) is None
            &&& position(pending, key) is Some ==> transactions_of(pending, key)
                == transactions_of(taxes, key)
        }),
    decreases dividends.len(),
{
    crate::broker_statement::taxes::lemma_position_some(dividends, key);
    if dividends.len() > 0 {
        let first = dividends[0];
        let rest = dividends.skip(1);
        let pending = taxes_after(first.key, first.transactions, taxes);
        let outcome = reconciled(first.key, first.transactions, taxes, cash_flow_details);
        assert(outcome is Ok);
        assert(pending == without(taxes, first.key));
        lemma_without(taxes, first.key, key);
        lemma_pending_taxes_have_no_dividend(
            settlement_with(so_far, outcome->Ok_0.0, outcome->Ok_0.1),
            rest,
            pending,
            cash_flow_details,
            key,
        );
        crate::broker_statement::taxes::lemma_position_some(rest, key);
        if position(rest, key) is Some {
            let i = choose|i: int| 0 <= i < rest.len() && (#[trigger] rest[i]).key == key;
            assert(dividends[i + 1].key == key);
        }
        if position(dividends, key) is Some && key != first.key {
            let i = choose|i: int| 0 <= i < dividends.len() && (#[trigger] dividends[i]).key == key;
            assert(rest[i - 1].key == key);
        }
        if key == first.key {
            assert(dividends[0].key == key);
        }
    }
}

/// A dividend for which no tax is pending has no tax paid: its paid tax is nothing, in the
/// currency of the dividend.
pub proof fn lemma_dividend_without_tax(
    key: AccrualKey,
    accruals: Seq<TransactionView>,
    taxes: Seq<AccrualView>,
    cash_flow_details: bool,
)
    requires
        position(taxes, key) is None,
        net(accruals) is Ok,
        net(accruals)->Ok_0 is Some,
    ensures
        reconciled(key, accruals, taxes, cash_flow_details) is Ok,
        reconciled(key, accruals, taxes, cash_flow_details)->Ok_0.0 == Some(
            DividendView {
                date: key.date,
                issuer: key.issuer,
                amount: net(accruals)->Ok_0->0,
                paid_tax: CashView { currency: net(accruals)->Ok_0->0.currency, amount: 0 },
                skip_from_cash_flow: cash_flow_details,
            },
        ),
{
}

/// A dividend that was taken back in full gives no dividend and no cash flow, and is an error
/// where tax was withheld from it: where the lines of the dividend cancel out, settling fails
/// if the tax of the same day and issuer has a net amount, and gives nothing if no tax is
/// pending or the pending tax cancels out too.
pub proof fn lemma_reversed_dividend(
    key: AccrualKey,
    accruals: Seq<TransactionView>,
    taxes: Seq<AccrualView>,
    cash_flow_details: bool,
)
    requires
        net(accruals) == Ok::<Option<CashView>, AccrualError>(None),
        paid_tax_of(taxes, key) is Ok,
    ensures
        paid_tax_of(taxes, key)->Ok_0 is Some ==> reconciled(
            key,
            accruals,
            taxes,
            cash_flow_details,
        ) == Err::<(Option<DividendView>, Seq<CashFlowView>), ErrorView>(
            ErrorView::ReversedDividendTax { key },
        ),
        paid_tax_of(taxes, key)->Ok_0 is None ==> reconciled(
            key,
            accruals,
            taxes,
            cash_flow_details,
        ) == Ok::<(Option<DividendView>, Seq<CashFlowView>), ErrorView>((None, Seq::empty())),
        position(taxes, key) is None ==> paid_tax_of(taxes, key)->Ok_0 is None,
{
}

} // verus!
