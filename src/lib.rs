pub mod config;
pub mod errors;
pub mod grub2;
pub mod menu;
pub mod snapshot;
pub mod store;
pub mod text;
pub mod watch;
