//! The control plane: what each request to it does to the fault store.

pub mod handler;
