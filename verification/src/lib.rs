pub mod broker_statement;
pub mod brokers;
pub mod config;
pub mod currency;
pub mod error;
pub mod formatting;
pub mod localities;
pub mod options;
pub mod telemetry;
pub mod time;
pub mod types;
