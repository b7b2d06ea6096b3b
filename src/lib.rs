use vstd::prelude::*;

pub mod calendar;
pub mod dispatch;
pub mod reader;
pub mod session;
pub mod store;

verus! {

/// Capacity of every input buffer.
pub const MAX_BUFF: usize = 4096;

/// Capacity of the callsign, recipient and home-mailbox fields.
pub const MAX_CALL: usize = 10;

} // verus!
