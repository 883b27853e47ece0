//! Control logic of a small menu-bar daemon: the line protocol of its control
//! socket, the state machine that drives the divider, the snapshot of the
//! menu bar's items, the resolver that moves the divider next to chosen items,
//! and the client's side of the exchange.

pub mod protocol;
pub mod daemon;
pub mod menubar;
pub mod text;
pub mod error;
pub mod resolver;
pub mod client;
pub mod session;
