//! Payment-gated routing of chat requests to inference backends.

pub mod clock;
pub mod config;
pub mod crypto;
pub mod encoding;
pub mod endpoints;
pub mod erc8128;
pub mod error;
pub mod handler;
pub mod http;
pub mod json;
pub mod middleware;
pub mod models;
pub mod order;
pub mod payment;
pub mod routes;
pub mod services;
pub mod text;
