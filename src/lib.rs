//! A reactive event-stream engine for home-automation rules: buses, stream
//! operators, timers, join combinators, and the decisions of the transport
//! that feeds them.

use vstd::prelude::*;

pub mod bus;
pub mod join;
pub mod messages;
pub mod payload;
pub mod registry;
pub mod stream;
pub mod timers;
pub mod transport;

pub use join::{is_insecure, requires_plugin};
pub use stream::{RxPipe, Timed, TxPipe};

verus! {

} // verus!
