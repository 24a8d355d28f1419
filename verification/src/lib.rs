pub mod codec;
pub mod display;
pub mod store;
pub mod totp;
pub mod watch;
