use vstd::prelude::*;

use crate::broker_statement::{BrokerInfo, BrokerInfoView};
use crate::config::Config;
use crate::error::Error;

verus! {

/// The brokers whose statements the program knows.
#[derive(Clone, Copy, Debug, PartialEq, Eq, Hash, Structural)]
pub enum Broker {
    Bcs,
    Firstrade,
    InteractiveBrokers,
    Open,
    Tinkoff,
}

/// The name by which a broker is told apart.
pub open spec fn broker_id(broker: Broker) -> Seq<char> {
    match broker {
        Broker::Bcs => "bcs"@,
        Broker::Firstrade => "firstrade"@,
        Broker::InteractiveBrokers => "interactive-brokers"@,
        Broker::Open => "open-broker"@,
        Broker::Tinkoff => "tinkoff"@,
    }
}

impl Broker {
    /// The name by which the broker is told apart.
    pub fn id(self) -> (r: &'static str)
        ensures
            r@ == broker_id(self),
    {
        match self {
            Broker::Bcs => "bcs",
            Broker::Firstrade => "firstrade",
            Broker::InteractiveBrokers => "interactive-brokers",
            Broker::Open => "open-broker",
            Broker::Tinkoff => "tinkoff",
        }
    }
}

/// The name under which Interactive Brokers is shown.
pub open spec fn interactive_brokers_name() -> Seq<char> {
    "Interactive Brokers"@
}

/// Interactive Brokers, as the configuration describes it.
pub fn interactive_brokers(config: &Config) -> (r: Result<BrokerInfo, Error>)
    ensures
        match r {
            Ok(broker) => config.interactive_brokers is Some && broker@ == (BrokerInfoView {
                name: interactive_brokers_name(),
                deposit_commissions: config.interactive_brokers->0@,
            }),
            Err(error) => config.interactive_brokers is None && error@
                == crate::error::ErrorView::BrokerNotConfigured,
        },
{
    match &config.interactive_brokers {
        Some(broker) => Ok(BrokerInfo::new("Interactive Brokers", broker.clone())),
        None => Err(Error::BrokerNotConfigured),
    }
}

} // verus!
