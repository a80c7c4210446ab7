pub mod approval;
pub mod compat;
pub mod requests;
pub mod turn;
