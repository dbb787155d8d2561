//! A power-price-aware job scheduler: the deterministic decision logic behind
//! deferring deferrable work to the cheapest hours of the day.
//!
//! Every quantity is a plain integer: instants are Unix seconds (UTC), prices
//! are micro-kroner per kWh (µNOK/kWh), fractions such as VAT are parts per
//! million, power is watts and energy costs are micro-kroner.

pub mod units;
pub mod job;
pub mod time;
pub mod tariff;
pub mod price;
pub mod window;
pub mod cost;
pub mod schedule;
pub mod select;
pub mod text;
pub mod learn;
pub mod model;
pub mod scheduler;
pub mod executor;
pub mod form;
pub mod display;
pub mod config;
pub mod cli;
pub mod backtest;
