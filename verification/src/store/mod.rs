pub mod error;
pub mod http;
pub mod memory;
pub mod redis;
pub mod state;
