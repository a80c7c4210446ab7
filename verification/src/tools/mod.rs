pub mod builtin;
pub mod policy;
pub mod registry;
