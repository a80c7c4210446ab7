pub mod health;
pub mod ring;
