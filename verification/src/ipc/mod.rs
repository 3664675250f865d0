pub mod client;
pub mod protocol;
pub mod server;
