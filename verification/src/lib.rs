pub mod text;
pub mod colorize;
pub mod common_structs;
pub mod store;
pub mod clock;
pub mod logs;
pub mod inspector;
pub mod cli;
pub mod conversions;
pub mod middleman;
