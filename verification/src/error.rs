//! The reasons for which a lifecycle step or a packet is refused.

use vstd::prelude::*;

verus! {

/// Why a handler refused its input.
#[derive(Clone, Copy, Debug, PartialEq, Eq, Structural)]
pub enum ContractError {
    /// The channel does not deliver unordered.
    UnsupportedOrder,
    /// The counterparty speaks another version than this application.
    UnsupportedVersion,
    /// A channel is bound already; there is never a second one.
    AlreadyConnected,
    /// This side never closes its channel.
    CantCloseChannel,
    /// The packet payload is no encoded packet message.
    InvalidPacket,
    /// The counter stands at the largest value it can hold.
    CounterOverflow,
}

impl ContractError {
    /// The text that stands for this error in an acknowledgement or a log.
    pub open spec fn spec_message(self) -> Seq<char> {
        match self {
            ContractError::UnsupportedOrder => "only unordered channels are supported"@,
            ContractError::UnsupportedVersion => "unsupported channel version"@,
            ContractError::AlreadyConnected => "contract is already connected"@,
            ContractError::CantCloseChannel => "the channel can not be closed"@,
            ContractError::InvalidPacket => "packet payload is not a known message"@,
            ContractError::CounterOverflow => "counter overflow"@,
        }
    }

    /// Renders the error as text.
    pub fn message(&self) -> (text: String)
        ensures
            text@ == self.spec_message(),
    {
        match self {
            ContractError::UnsupportedOrder => "only unordered channels are supported".to_string(),
            ContractError::UnsupportedVersion => "unsupported channel version".to_string(),
            ContractError::AlreadyConnected => "contract is already connected".to_string(),
            ContractError::CantCloseChannel => "the channel can not be closed".to_string(),
            ContractError::InvalidPacket => "packet payload is not a known message".to_string(),
            ContractError::CounterOverflow => "counter overflow".to_string(),
        }
    }
}

} // verus!
