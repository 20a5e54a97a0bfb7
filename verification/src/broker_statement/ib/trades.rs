use vstd::prelude::*;

use super::common::{date_time_in, number_of, value_of, Record};
use super::{handled_as, StatementParser, StatementParserView};
use crate::broker_statement::{
    BrokerStatementBuilderView, OpenPosition, OpenPositionView, Trade, TradeView,
};
use crate::currency::CashView;
use crate::error::{Column, RecordError};
use crate::types::lemma_views_push;

verus! {

/// The section on open positions: every row is one position.
pub open spec fn open_positions_handled(
    header: Seq<Seq<char>>,
    row: Seq<Seq<char>>,
    state: StatementParserView,
) -> Result<StatementParserView, RecordError> {
    match value_of(header, row, Column::Symbol) {
        Err(error) => Err(error),
        Ok(symbol) => match number_of(header, row, Column::Quantity) {
            Err(error) => Err(error),
            Ok(quantity) => Ok(
                StatementParserView {
                    statement: BrokerStatementBuilderView {
                        open_positions: state.statement.open_positions.push(
                            OpenPositionView { symbol, quantity },
                        ),
                        ..state.statement
                    },
                    ..state
                },
            ),
        },
    }
}

/// Takes in a row of the section on open positions.
pub fn parse_open_position(parser: &mut StatementParser, record: &Record) -> (r: Result<
    (),
    RecordError,
>)
    ensures
        handled_as(r, final(parser)@) == open_positions_handled(
            record.header_view(),
            record.values_view(),
            old(parser)@,
        ),
        r is Err ==> final(parser)@ == old(parser)@,
{
    let symbol = match record.get_value(Column::Symbol) {
        Ok(symbol) => symbol,
        Err(error) => {
            return Err(error);
        },
    };
    let quantity = match record.parse_number(Column::Quantity) {
        Ok(quantity) => quantity,
        Err(error) => {
            return Err(error);
        },
    };
    let position = OpenPosition { symbol: symbol.clone(), quantity };
    proof {
        lemma_views_push(parser.statement.open_positions@, position);
    }
    parser.statement.open_positions.push(position);
    Ok(())
}

/// The section on trades: every row is one executed order, its price and commission in the
/// currency of the row. An order for a positive number of shares is a buy, one for a negative
/// number a sell, and one for none is no order.
pub open spec fn trades_handled(
    header: Seq<Seq<char>>,
    row: Seq<Seq<char>>,
    state: StatementParserView,
) -> Result<StatementParserView, RecordError> {
    match value_of(header, row, Column::Currency) {
        Err(error) => Err(error),
        Ok(currency) => match value_of(header, row, Column::Symbol) {
            Err(error) => Err(error),
            Ok(symbol) => match date_time_in(header, row, Column::DateTime) {
                Err(error) => Err(error),
                Ok(time) => match number_of(header, row, Column::Quantity) {
                    Err(error) => Err(error),
                    Ok(quantity) => match number_of(header, row, Column::Price) {
                        Err(error) => Err(error),
                        Ok(price) => match number_of(header, row, Column::Commission) {
                            Err(error) => Err(error),
                            Ok(commission) => {
                                let trade = TradeView {
                                    symbol,
                                    time,
                                    quantity,
                                    price: CashView { currency, amount: price },
                                    commission: CashView { currency, amount: commission },
                                };
                                if quantity == 0 {
                                    Err(RecordError::InvalidNumber(Column::Quantity))
                                } else if quantity > 0 {
                                    Ok(
                                        StatementParserView {
                                            statement: BrokerStatementBuilderView {
                                                stock_buys: state.statement.stock_buys.push(trade),
                                                ..state.statement
                                            },
                                            ..state
                                        },
                                    )
                                } else {
                                    Ok(
                                        StatementParserView {
                                            statement: BrokerStatementBuilderView {
                                                stock_sells: state.statement.stock_sells.push(
                                                    trade,
                                                ),
                                                ..state.statement
                                            },
                                            ..state
                                        },
                                    )
                                }
                            },
                        },
                    },
                },
            },
        },
    }
}

/// Takes in a row of the section on trades.
pub fn parse_trade(parser: &mut StatementParser, record: &Record) -> (r: Result<(), RecordError>)
    ensures
        handled_as(r, final(parser)@) == trades_handled(
            record.header_view(),
            record.values_view(),
            old(parser)@,
        ),
        r is Err ==> final(parser)@ == old(parser)@,
{
    let currency = match record.get_value(Column::Currency) {
        Ok(currency) => currency,
        Err(error) => {
            return Err(error);
        },
    };
    let symbol = match record.get_value(Column::Symbol) {
        Ok(symbol) => symbol,
        Err(error) => {
            return Err(error);
        },
    };
    let time = match record.parse_date_time(Column::DateTime) {
        Ok(time) => time,
        Err(error) => {
            return Err(error);
        },
    };
    let quantity = match record.parse_number(Column::Quantity) {
        Ok(quantity) => quantity,
        Err(error) => {
            return Err(error);
        },
    };
    let price = match record.parse_cash(Column::Price, currency) {
        Ok(price) => price,
        Err(error) => {
            return Err(error);
        },
    };
    let commission = match record.parse_cash(Column::Commission, currency) {
        Ok(commission) => commission,
        Err(error) => {
            return Err(error);
        },
    };
    if quantity.is_zero() {
        return Err(RecordError::InvalidNumber(Column::Quantity));
    }
    let trade = Trade { symbol: symbol.clone(), time, quantity, price, commission };
    if quantity.is_negative() {
        proof {
            lemma_views_push(parser.statement.stock_sells@, trade);
        }
        parser.statement.stock_sells.push(trade);
    } else {
        proof {
            lemma_views_push(parser.statement.stock_buys@, trade);
        }
        parser.statement.stock_buys.push(trade);
    }
    Ok(())
}

} // verus!
