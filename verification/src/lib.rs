//! A verified trading execution engine core.

pub mod agent_risk;
pub mod breaker_laws;
pub mod bus;
pub mod bybit;
pub mod bybit_laws;
pub mod circuit_breaker;
pub mod cli;
pub mod clock;
pub mod decimal;
pub mod engine;
pub mod event;
pub mod fees;
pub mod gateway;
pub mod health;
pub mod hexadecimal;
pub mod ids;
pub mod journal;
pub mod limits;
pub mod log_laws;
pub mod market_data;
pub mod market_laws;
pub mod observability;
pub mod order_laws;
pub mod pipeline;
pub mod pnl;
pub mod portfolio;
pub mod reconciliation;
pub mod risk;
pub mod risk_laws;
mod sealed;
pub mod sequencer;
pub mod sequencer_laws;
pub mod settings;
pub mod signal;
pub mod signal_laws;
pub mod signing;
pub mod smoke;
pub mod system_laws;
pub mod table;
pub mod text;
pub mod text_laws;
pub mod time;
pub mod venue;
