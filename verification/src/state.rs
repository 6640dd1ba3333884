//! The durable record of the application: its counter, its owner and the one
//! channel end it is bound to.

use vstd::prelude::*;

verus! {

/// One end of a channel: the port it lives on and the channel's identifier.
#[derive(Clone, Debug, PartialEq, Eq)]
pub struct ChannelEndpoint {
    pub port_id: String,
    pub channel_id: String,
}

/// What a `ChannelEndpoint` is, as text.
pub struct EndpointView {
    pub port_id: Seq<char>,
    pub channel_id: Seq<char>,
}

impl View for ChannelEndpoint {
    type V = EndpointView;

    open spec fn view(&self) -> EndpointView {
        EndpointView { port_id: self.port_id@, channel_id: self.channel_id@ }
    }
}

impl ChannelEndpoint {
    /// A copy that reads the same.
    pub fn duplicate(&self) -> (copy: ChannelEndpoint)
        ensures
            copy@ == self@,
    {
        ChannelEndpoint { port_id: self.port_id.clone(), channel_id: self.channel_id.clone() }
    }
}

/// The application's single stored record.
#[derive(Clone, Debug, PartialEq, Eq)]
pub struct State {
    pub count: i32,
    pub owner: String,
    pub endpoint: Option<ChannelEndpoint>,
}

/// What a `State` is: the counter, the owner's address as text, and the bound
/// channel end, if any.
pub struct StateView {
    pub count: int,
    pub owner: Seq<char>,
    pub endpoint: Option<EndpointView>,
}

impl View for State {
    type V = StateView;

    open spec fn view(&self) -> StateView {
        StateView {
            count: self.count as int,
            owner: self.owner@,
            endpoint: match self.endpoint {
                Some(e) => Some(e@),
                None => None,
            },
        }
    }
}

impl State {
    /// A record that has not been bound to a channel yet.
    pub fn new(count: i32, owner: String) -> (state: State)
        ensures
            state@ == (StateView { count: count as int, owner: owner@, endpoint: None }),
            state.count == count,
            state.owner == owner,
            state.endpoint is None,
    {
        State { count, owner, endpoint: None }
    }

    /// Whether a channel has been bound.
    pub open spec fn spec_is_bound(&self) -> bool {
        self.endpoint is Some
    }

    /// Whether a channel has been bound.
    #[verifier::when_used_as_spec(spec_is_bound)]
    pub fn is_bound(&self) -> (bound: bool)
        ensures
            bound == self.spec_is_bound(),
    {
        self.endpoint.is_some()
    }
}

} // verus!
