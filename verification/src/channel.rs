//! What the host tells the application about a channel.

use vstd::prelude::*;

use crate::state::{ChannelEndpoint, EndpointView};

verus! {

/// How a channel delivers its packets.
#[derive(Clone, Copy, Debug, PartialEq, Eq, Structural)]
pub enum ChannelOrder {
    /// Packets may arrive in any order.
    Unordered,
    /// Packets arrive in the order in which they were sent.
    Ordered,
}

/// A channel as the host proposes or commits it.
#[derive(Clone, Debug, PartialEq, Eq)]
pub struct Channel {
    /// This application's end.
    pub endpoint: ChannelEndpoint,
    /// The delivery mode.
    pub order: ChannelOrder,
}

/// What a `Channel` is.
pub struct ChannelView {
    pub endpoint: EndpointView,
    pub order: ChannelOrder,
}

impl View for Channel {
    type V = ChannelView;

    open spec fn view(&self) -> ChannelView {
        ChannelView { endpoint: self.endpoint@, order: self.order }
    }
}

/// The two ways in which the host reports that a channel closes.
#[derive(Clone, Debug, PartialEq, Eq)]
pub enum ChannelCloseMsg {
    /// This side asked for the channel to close.
    CloseInit { channel: Channel },
    /// The counterparty has closed its end already.
    CloseConfirm { channel: Channel },
}

} // verus!
