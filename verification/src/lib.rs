//! A fault-injecting proxy for the Redis wire protocol: the rules by which a
//! session is delayed, answered with an error, dropped or passed through, and
//! the store of faults those rules consult.

pub mod config;
pub mod fault_config_server;
pub mod proxy;
pub mod store;
pub mod text;
