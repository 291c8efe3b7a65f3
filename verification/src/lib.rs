//! Client-side explorer engine for a remote hierarchical address space.
//!
//! The library holds the state-management core of the explorer: a lazy tree
//! cache that materializes the remote space one browse at a time, an ordered
//! event bridge that carries results from the network context to the render
//! context, and the connection-service state machine that turns network
//! outcomes into events. All I/O (the protocol session, the widget toolkit)
//! lives outside the library; the functions here are total over plain values.

pub mod address_space_tree_view;
pub mod app;
pub mod bridge;
pub mod model;
pub mod new_connection_dlg;
pub mod types;
