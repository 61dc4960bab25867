//! Decision core of a terminal user interface runtime.
//!
//! The loop that drives such an interface waits on two channels (batches of
//! input and timer events, and refresh signals from background work), hands
//! every event of one delivery to the application in order, renders once, and
//! stops when the application asks to quit. This crate holds the decisions of
//! that loop and of the terminal session's lifecycle as verified state
//! machines; the caller performs the calls they ask for.

pub mod event;
pub mod event_loop;
pub mod session;
pub mod source;
pub mod exit;
