//! Event-driven backtesting core: market-data parsing rules, fill rules, session calendars
//! and binary bar caches, each stated as a contract over a mathematical model.

pub mod decimal;
pub mod text;
pub mod config;
pub mod intervals;
pub mod alpha_vantage;
pub mod error;
pub mod databento;
pub mod calendar;
pub mod bar;
pub mod pbar;
pub mod orders;
pub mod events;
pub mod state;
pub mod execution;
pub mod audit;
pub mod engine;
pub mod report;
pub mod lifecycle;
pub mod control;
pub mod strategy;
pub mod cli;
pub mod runner;
pub mod settings;
pub mod merge;
pub mod export;
pub mod binance;
pub mod yahoo;
pub mod registry;
pub mod dotenv;
pub mod sources;
pub mod instrument;
