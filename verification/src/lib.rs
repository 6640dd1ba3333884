//! Channel lifecycle and packet handling for a counter application that talks
//! to exactly one counterparty over an IBC channel.

pub mod channel;
pub mod decimal;
pub mod encoding;
pub mod error;
pub mod ibc;
pub mod ibc_helpers;
pub mod msg;
pub mod response;
pub mod state;
pub mod wire;
