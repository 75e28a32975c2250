//! The fault plan: the records, the interface of a store of them, and the
//! in-memory store.

pub mod fault_store;
pub mod mem_store;
