pub mod adapter;
pub mod bench;
pub mod config;
pub mod duplicate;
pub mod guardrails;
pub mod ident;
pub mod json;
pub mod keyed;
pub mod models;
pub mod router;
pub mod store;
pub mod text;
pub mod tools;
pub mod server;
pub mod tree;
