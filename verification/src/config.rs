use vstd::prelude::*;

use crate::broker_statement::BrokerConfig;

verus! {

/// What the configuration says of the brokers.
#[derive(Debug)]
pub struct Config {
    pub interactive_brokers: Option<BrokerConfig>,
}

} // verus!
