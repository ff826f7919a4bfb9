pub mod protocol;
pub mod endpoint;
pub mod ledger;
pub mod controller;
pub mod process;
pub mod client;
pub mod server;
