//! The data plane: reading a request's command, choosing a fault for it, and
//! the course of one client session.

pub mod connection;
pub mod faulter;
pub mod resp_util;
