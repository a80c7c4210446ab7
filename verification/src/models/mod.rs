pub mod episode;
pub mod events;
pub mod message;
pub mod tool;
