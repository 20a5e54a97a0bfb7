use vstd::prelude::*;

use crate::currency::{
    Cash, CashAssets, CashAssetsView, CashView, MultiCurrencyCashAccount,
};
use crate::error::{Error, ErrorView, Field, RecordError};
use crate::time::{Date, DateTime};
use crate::types::{option_view, views, Decimal};

use self::cash_flows::{CashFlow, CashFlowView};
use self::dividends::{Dividend, DividendView};

pub mod cash_flows;
pub mod dividends;
pub mod ib;
pub mod payments;
pub mod taxes;

verus! {

/// What a [`CommissionSpec`] stands for.
pub struct CommissionSpecView {
    pub currency: Seq<char>,
    pub fixed_amount: int,
}

/// What the broker takes for a deposit in one currency.
#[derive(Debug)]
pub struct CommissionSpec {
    pub currency: String,
    pub fixed_amount: Decimal,
}

impl View for CommissionSpec {
    type V = CommissionSpecView;

    open spec fn view(&self) -> CommissionSpecView {
        CommissionSpecView { currency: self.currency@, fixed_amount: self.fixed_amount@ }
    }
}

impl Clone for CommissionSpec {
    fn clone(&self) -> (r: CommissionSpec)
        ensures
            r@ == self@,
    {
        CommissionSpec { currency: self.currency.clone(), fixed_amount: self.fixed_amount }
    }
}

/// What the configuration says of one broker.
#[derive(Debug)]
pub struct BrokerConfig {
    pub deposit_commissions: Vec<CommissionSpec>,
}

impl View for BrokerConfig {
    type V = Seq<CommissionSpecView>;

    open spec fn view(&self) -> Seq<CommissionSpecView> {
        views(self.deposit_commissions@)
    }
}

impl Clone for BrokerConfig {
    fn clone(&self) -> (r: BrokerConfig)
        ensures
            r@ == self@,
    {
        let n = self.deposit_commissions.len();
        let mut commissions: Vec<CommissionSpec> = Vec::new();
        let mut i: usize = 0;
        while i < n
            invariant
                0 <= i <= n,
                n == self.deposit_commissions.len(),
                views(commissions@) == self@.take(i as int),
            decreases n - i,
        {
            let spec = self.deposit_commissions[i].clone();
            proof {
                crate::types::lemma_views_push(commissions@, spec);
                assert(self@.take(i + 1) =~= self@.take(i as int).push(spec@));
            }
            commissions.push(spec);
            i = i + 1;
        }
        assert(self@.take(n as int) =~= self@);
        BrokerConfig { deposit_commissions: commissions }
    }
}

/// What a [`BrokerInfo`] stands for.
pub struct BrokerInfoView {
    pub name: Seq<char>,
    pub deposit_commissions: Seq<CommissionSpecView>,
}

/// The broker that a statement comes from.
#[derive(Debug)]
pub struct BrokerInfo {
    pub name: String,
    config: BrokerConfig,
}

impl View for BrokerInfo {
    type V = BrokerInfoView;

    closed spec fn view(&self) -> BrokerInfoView {
        BrokerInfoView { name: self.name@, deposit_commissions: self.config@ }
    }
}

impl Clone for BrokerInfo {
    fn clone(&self) -> (r: BrokerInfo)
        ensures
            r@ == self@,
    {
        BrokerInfo { name: self.name.clone(), config: self.config.clone() }
    }
}

/// The currencies for which a commission is named, in their order.
pub open spec fn commission_currencies(commissions: Seq<CommissionSpecView>) -> Seq<Seq<char>> {
    Seq::new(commissions.len(), |i: int| commissions[i].currency)
}

/// The commission for a deposit in the currency: that of the first entry for the currency.
pub open spec fn deposit_commission(broker: BrokerInfoView, currency: Seq<char>) -> Result<
    int,
    ErrorView,
> {
    match commission_currencies(broker.deposit_commissions).index_of_first(currency) {
        Some(i) => Ok(broker.deposit_commissions[i].fixed_amount),
        None => Err(ErrorView::NoDepositCommission { currency, broker: broker.name }),
    }
}

impl BrokerInfo {
    pub fn new(name: &str, config: BrokerConfig) -> (r: BrokerInfo)
        ensures
            r@ == (BrokerInfoView { name: name@, deposit_commissions: config@ }),
    {
        BrokerInfo { name: name.to_owned(), config }
    }

    /// What the broker takes for the deposit of the assets: the fixed amount that the
    /// configuration names for their currency.
    pub fn get_deposit_commission(&self, assets: CashAssets) -> (r: Result<Decimal, Error>)
        ensures
            match r {
                Ok(commission) => deposit_commission(self@, assets@.cash.currency) == Ok::<
                    int,
                    ErrorView,
                >(commission@),
                Err(error) => deposit_commission(self@, assets@.cash.currency) == Err::<
                    int,
                    ErrorView,
                >(error@),
            },
    {
        let currency = assets.cash.currency;
        let ghost all = commission_currencies(self@.deposit_commissions);
        proof {
            all.index_of_first_ensures(currency@);
        }
        let n = self.config.deposit_commissions.len();
        let mut i: usize = 0;
        while i < n
            invariant
                0 <= i <= n,
                n == self.config.deposit_commissions.len(),
                all == commission_currencies(self@.deposit_commissions),
                currency@ == assets@.cash.currency,
                forall|j: int| 0 <= j < i ==> #[trigger] all[j] != currency@,
            decreases n - i,
        {
            if self.config.deposit_commissions[i].currency == currency {
                proof {
                    all.index_of_first_ensures(currency@);
                    assert(all[i as int] == currency@);
                }
                return Ok(self.config.deposit_commissions[i].fixed_amount);
            }
            i = i + 1;
        }
        proof {
            all.index_of_first_ensures(currency@);
        }
        Err(Error::NoDepositCommission { currency, broker: self.name.clone() })
    }
}

/// What an [`OpenPosition`] stands for.
pub struct OpenPositionView {
    pub symbol: Seq<char>,
    pub quantity: int,
}

/// The shares of one instrument held at the end of the period.
#[derive(Debug)]
pub struct OpenPosition {
    pub symbol: String,
    pub quantity: Decimal,
}

impl View for OpenPosition {
    type V = OpenPositionView;

    open spec fn view(&self) -> OpenPositionView {
        OpenPositionView { symbol: self.symbol@, quantity: self.quantity@ }
    }
}

/// What a [`Trade`] stands for.
pub struct TradeView {
    pub symbol: Seq<char>,
    pub time: DateTime,
    pub quantity: int,
    pub price: CashView,
    pub commission: CashView,
}

/// One executed order: the shares bought, or sold where the quantity is negative.
#[derive(Debug)]
pub struct Trade {
    pub symbol: String,
    pub time: DateTime,
    pub quantity: Decimal,
    pub price: Cash,
    pub commission: Cash,
}

impl View for Trade {
    type V = TradeView;

    open spec fn view(&self) -> TradeView {
        TradeView {
            symbol: self.symbol@,
            time: self.time,
            quantity: self.quantity@,
            price: self.price@,
            commission: self.commission@,
        }
    }
}

/// What an [`InstrumentName`] stands for.
pub struct InstrumentNameView {
    pub ticker: Seq<char>,
    pub name: Seq<char>,
}

/// The name under which a ticker is shown.
#[derive(Debug)]
pub struct InstrumentName {
    pub ticker: String,
    pub name: String,
}

impl View for InstrumentName {
    type V = InstrumentNameView;

    open spec fn view(&self) -> InstrumentNameView {
        InstrumentNameView { ticker: self.ticker@, name: self.name@ }
    }
}

/// The tickers of the names, in their order.
pub open spec fn tickers(names: Seq<InstrumentNameView>) -> Seq<Seq<char>> {
    Seq::new(names.len(), |i: int| names[i].ticker)
}

/// The name that was given to the ticker last, written with the ticker in brackets behind it.
pub open spec fn instrument_name(names: Seq<InstrumentNameView>, ticker: Seq<char>) -> Result<
    Seq<char>,
    ErrorView,
> {
    match tickers(names).index_of_last(ticker) {
        Some(i) => Ok(names[i].name + " ("@ + ticker + ")"@),
        None => Err(ErrorView::UnknownInstrument { ticker }),
    }
}

/// What a [`BrokerStatement`] stands for.
pub struct BrokerStatementView {
    pub broker: BrokerInfoView,
    pub period: (Date, Date),
    pub starting_assets: bool,
    pub cash_assets: Seq<CashView>,
    pub deposits: Seq<CashAssetsView>,
    pub cash_flows: Seq<CashFlowView>,
    pub dividends: Seq<DividendView>,
    pub open_positions: Seq<OpenPositionView>,
    pub stock_buys: Seq<TradeView>,
    pub stock_sells: Seq<TradeView>,
    pub instrument_names: Seq<InstrumentNameView>,
    pub total_value: CashView,
}

/// The statement of one account for one period, as it is handed to what calculates on it.
#[derive(Debug)]
pub struct BrokerStatement {
    pub broker: BrokerInfo,
    pub period: (Date, Date),
    /// Whether the account held anything when the period began.
    pub starting_assets: bool,
    pub cash_assets: MultiCurrencyCashAccount,
    pub deposits: Vec<CashAssets>,
    pub cash_flows: Vec<CashFlow>,
    pub dividends: Vec<Dividend>,
    pub open_positions: Vec<OpenPosition>,
    pub stock_buys: Vec<Trade>,
    pub stock_sells: Vec<Trade>,
    pub instrument_names: Vec<InstrumentName>,
    pub total_value: Cash,
}

impl View for BrokerStatement {
    type V = BrokerStatementView;

    open spec fn view(&self) -> BrokerStatementView {
        BrokerStatementView {
            broker: self.broker@,
            period: self.period,
            starting_assets: self.starting_assets,
            cash_assets: self.cash_assets@,
            deposits: views(self.deposits@),
            cash_flows: views(self.cash_flows@),
            dividends: views(self.dividends@),
            open_positions: views(self.open_positions@),
            stock_buys: views(self.stock_buys@),
            stock_sells: views(self.stock_sells@),
            instrument_names: views(self.instrument_names@),
            total_value: self.total_value@,
        }
    }
}

impl BrokerStatement {
    /// The name of the instrument with the ticker, as it is shown.
    pub fn get_instrument_name(&self, ticker: &str) -> (r: Result<String, Error>)
        ensures
            match r {
                Ok(name) => instrument_name(self@.instrument_names, ticker@) == Ok::<
                    Seq<char>,
                    ErrorView,
                >(name@),
                Err(error) => instrument_name(self@.instrument_names, ticker@) == Err::<
                    Seq<char>,
                    ErrorView,
                >(error@),
            },
    {
        let wanted = ticker.to_owned();
        let ghost all = tickers(self@.instrument_names);
        let mut i: usize = self.instrument_names.len();
        while i > 0
            invariant
                0 <= i <= self.instrument_names.len(),
                all == tickers(self@.instrument_names),
                wanted@ == ticker@,
                forall|j: int| i <= j < all.len() ==> #[trigger] all[j] != ticker@,
            decreases i,
        {
            i = i - 1;
            if self.instrument_names[i].ticker == wanted {
                proof {
                    all.index_of_last_ensures(ticker@);
                    assert(all[i as int] == ticker@);
                }
                let mut shown = self.instrument_names[i].name.clone();
                shown.append(" (");
                shown.append(ticker);
                shown.append(")");
                return Ok(shown);
            }
        }
        proof {
            all.index_of_last_ensures(ticker@);
        }
        Err(Error::UnknownInstrument { ticker: wanted })
    }
}

/// What a [`BrokerStatementBuilder`] stands for.
pub struct BrokerStatementBuilderView {
    pub broker: BrokerInfoView,
    pub period: Option<(Date, Date)>,
    pub starting_assets: bool,
    pub cash_assets: Seq<CashView>,
    pub deposits: Seq<CashAssetsView>,
    pub cash_flows: Seq<CashFlowView>,
    pub dividends: Seq<DividendView>,
    pub open_positions: Seq<OpenPositionView>,
    pub stock_buys: Seq<TradeView>,
    pub stock_sells: Seq<TradeView>,
    pub instrument_names: Seq<InstrumentNameView>,
    pub total_value: Option<CashView>,
}

/// The statement while it is read: what was set and gathered so far.
#[derive(Debug)]
pub struct BrokerStatementBuilder {
    pub broker: BrokerInfo,
    pub period: Option<(Date, Date)>,
    pub starting_assets: bool,
    pub cash_assets: MultiCurrencyCashAccount,
    pub deposits: Vec<CashAssets>,
    pub cash_flows: Vec<CashFlow>,
    pub dividends: Vec<Dividend>,
    pub open_positions: Vec<OpenPosition>,
    pub stock_buys: Vec<Trade>,
    pub stock_sells: Vec<Trade>,
    pub instrument_names: Vec<InstrumentName>,
    pub total_value: Option<Cash>,
}

impl View for BrokerStatementBuilder {
    type V = BrokerStatementBuilderView;

    open spec fn view(&self) -> BrokerStatementBuilderView {
        BrokerStatementBuilderView {
            broker: self.broker@,
            period: self.period,
            starting_assets: self.starting_assets,
            cash_assets: self.cash_assets@,
            deposits: views(self.deposits@),
            cash_flows: views(self.cash_flows@),
            dividends: views(self.dividends@),
            open_positions: views(self.open_positions@),
            stock_buys: views(self.stock_buys@),
            stock_sells: views(self.stock_sells@),
            instrument_names: views(self.instrument_names@),
            total_value: option_view(self.total_value),
        }
    }
}

/// The statement with nothing set and nothing gathered.
pub open spec fn empty_statement(broker: BrokerInfoView) -> BrokerStatementBuilderView {
    BrokerStatementBuilderView {
        broker,
        period: None,
        starting_assets: false,
        cash_assets: Seq::empty(),
        deposits: Seq::empty(),
        cash_flows: Seq::empty(),
        dividends: Seq::empty(),
        open_positions: Seq::empty(),
        stock_buys: Seq::empty(),
        stock_sells: Seq::empty(),
        instrument_names: Seq::empty(),
        total_value: None,
    }
}

/// The finished statement: it needs the period and the total value, and misses the period
/// first.
pub open spec fn built(builder: BrokerStatementBuilderView) -> Result<
    BrokerStatementView,
    ErrorView,
> {
    match (builder.period, builder.total_value) {
        (None, _) => Err(ErrorView::Missing(Field::Period)),
        (Some(_), None) => Err(ErrorView::Missing(Field::TotalValue)),
        (Some(period), Some(total_value)) => Ok(
            BrokerStatementView {
                broker: builder.broker,
                period,
                starting_assets: builder.starting_assets,
                cash_assets: builder.cash_assets,
                deposits: builder.deposits,
                cash_flows: builder.cash_flows,
                dividends: builder.dividends,
                open_positions: builder.open_positions,
                stock_buys: builder.stock_buys,
                stock_sells: builder.stock_sells,
                instrument_names: builder.instrument_names,
                total_value,
            },
        ),
    }
}

impl BrokerStatementBuilder {
    pub fn new(broker: BrokerInfo) -> (r: BrokerStatementBuilder)
        ensures
            r@ == empty_statement(broker@),
    {
        let r = BrokerStatementBuilder {
            broker,
            period: None,
            starting_assets: false,
            cash_assets: MultiCurrencyCashAccount::new(),
            deposits: Vec::new(),
            cash_flows: Vec::new(),
            dividends: Vec::new(),
            open_positions: Vec::new(),
            stock_buys: Vec::new(),
            stock_sells: Vec::new(),
            instrument_names: Vec::new(),
            total_value: None,
        };
        proof {
            assert(views(r.deposits@) =~= Seq::empty());
            assert(views(r.cash_flows@) =~= Seq::empty());
            assert(views(r.dividends@) =~= Seq::empty());
            assert(views(r.open_positions@) =~= Seq::empty());
            assert(views(r.stock_buys@) =~= Seq::empty());
            assert(views(r.stock_sells@) =~= Seq::empty());
            assert(views(r.instrument_names@) =~= Seq::empty());
        }
        r
    }

    /// Sets the period of the statement, which must not have been set before.
    pub fn set_period(&mut self, period: (Date, Date)) -> (r: Result<(), RecordError>)
        ensures
            match r {
                Ok(()) => old(self).period is None && *final(self) == (BrokerStatementBuilder {
                    period: Some(period),
                    ..*old(self)
                }),
                Err(error) => old(self).period is Some && error == RecordError::Duplicate(
                    Field::Period,
                ) && *final(self) == *old(self),
            },
    {
        set_option(Field::Period, &mut self.period, period)
    }

    /// Sets the total value of the account, which must not have been set before.
    pub fn set_total_value(&mut self, total_value: Cash) -> (r: Result<(), RecordError>)
        ensures
            match r {
                Ok(()) => old(self).total_value is None && *final(self) == (BrokerStatementBuilder {
                    total_value: Some(total_value),
                    ..*old(self)
                }),
                Err(error) => old(self).total_value is Some && error == RecordError::Duplicate(
                    Field::TotalValue,
                ) && *final(self) == *old(self),
            },
    {
        set_option(Field::TotalValue, &mut self.total_value, total_value)
    }

    /// Hands the finished statement out, where the period and the total value were set.
    pub fn get(self) -> (r: Result<BrokerStatement, Error>)
        ensures
            crate::error::result_view(r) == built(self@),
    {
        let period = match get_option(Field::Period, self.period) {
            Ok(period) => period,
            Err(error) => {
                return Err(error);
            },
        };
        let total_value = match get_option(Field::TotalValue, self.total_value) {
            Ok(total_value) => total_value,
            Err(error) => {
                return Err(error);
            },
        };
        Ok(
            BrokerStatement {
                broker: self.broker,
                period,
                starting_assets: self.starting_assets,
                cash_assets: self.cash_assets,
                deposits: self.deposits,
                cash_flows: self.cash_flows,
                dividends: self.dividends,
                open_positions: self.open_positions,
                stock_buys: self.stock_buys,
                stock_sells: self.stock_sells,
                instrument_names: self.instrument_names,
                total_value,
            },
        )
    }
}

/// The value of the option, which must be set.
pub fn get_option<T>(field: Field, option: Option<T>) -> (r: Result<T, Error>)
    ensures
        match r {
            Ok(value) => option == Some(value),
            Err(error) => option is None && error == Error::Missing(field),
        },
{
    match option {
        Some(value) => Ok(value),
        None => Err(Error::Missing(field)),
    }
}

/// Sets the option, which must not be set yet; where it is, it keeps its value.
pub fn set_option<T>(field: Field, option: &mut Option<T>, value: T) -> (r: Result<
    (),
    RecordError,
>)
    ensures
        match r {
            Ok(()) => *old(option) is None && *final(option) == Some(value),
            Err(error) => *old(option) is Some && error == RecordError::Duplicate(field)
                && *final(option) == *old(option),
        },
{
    if option.is_some() {
        return Err(RecordError::Duplicate(field));
    }
    *option = Some(value);
    Ok(())
}

} // verus!
