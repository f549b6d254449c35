//! A browser runtime whose scheduling decisions are verified.
//!
//! The modules hold the state and the decisions of the runtime: which task is
//! polled next, how long a worker may sleep, when a sleep is over, what a
//! socket owner does next. Polling a future, waiting on a condition variable
//! and calling the browser are left to the caller, which performs the action
//! that a decision names and hands back what happened.

pub mod cancel;
pub mod channel;
pub mod compat;
pub mod executor;
pub mod join;
pub mod receipt;
pub mod refill;
pub mod runtime;
pub mod task;
pub mod text;
pub mod time;
pub mod timer;
pub mod turn;
pub mod wake;
pub mod wasm_yield;
pub mod ws_link;
pub mod ws_socket;
