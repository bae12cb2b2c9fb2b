//! Kraken WebSocket SDK: the verified core of connection management,
//! message sequencing, rate limiting, order construction and metrics.

pub mod clock;
pub mod state;
pub mod sequencing;
pub mod retry;
pub mod rate_limit;
pub mod text;
pub mod exchange;
pub mod telemetry;
pub mod error;
pub mod sorting;
pub mod middleware;
pub mod backpressure;
pub mod decimal;
pub mod data;
pub mod orderbook;
pub mod orderflow;
pub mod parser;
pub mod trading;
pub mod auth;
pub mod batch_orders;
pub mod json_text;
pub mod subscription;
pub mod performance;
pub mod latency;
pub mod sdk;
pub mod private_ws;
pub mod alerts;
pub mod rest;
pub mod events;
pub mod connection;
