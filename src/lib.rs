pub mod registry;
pub mod time;
