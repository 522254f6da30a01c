pub mod balance;
pub mod client;
pub mod payment_engine;
