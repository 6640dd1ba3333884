//! What the handlers hand back to the host.

use vstd::prelude::*;

verus! {

/// A key and a value that the host records as part of an event.
#[derive(Clone, Debug, PartialEq, Eq)]
pub struct Attribute {
    pub key: String,
    pub value: String,
}

impl View for Attribute {
    type V = (Seq<char>, Seq<char>);

    open spec fn view(&self) -> (Seq<char>, Seq<char>) {
        (self.key@, self.value@)
    }
}

impl Attribute {
    /// An attribute from two pieces of text.
    pub fn new(key: &str, value: &str) -> (attribute: Attribute)
        ensures
            attribute@ == (key@, value@),
    {
        Attribute { key: key.to_owned(), value: value.to_owned() }
    }
}

/// The attributes of a list, in order, as text.
pub open spec fn attributes_view(attributes: Seq<Attribute>) -> Seq<(Seq<char>, Seq<char>)> {
    Seq::new(attributes.len(), |i: int| attributes[i]@)
}

/// The answer to a lifecycle step or to the report of an acknowledgement or a
/// timeout: attributes only.
#[derive(Clone, Debug, PartialEq, Eq)]
pub struct BasicResponse {
    pub attributes: Vec<Attribute>,
}

impl View for BasicResponse {
    type V = Seq<(Seq<char>, Seq<char>)>;

    open spec fn view(&self) -> Seq<(Seq<char>, Seq<char>)> {
        attributes_view(self.attributes@)
    }
}

impl BasicResponse {
    /// A response without attributes.
    pub fn new() -> (response: BasicResponse)
        ensures
            response@ == Seq::<(Seq<char>, Seq<char>)>::empty(),
    {
        BasicResponse { attributes: Vec::new() }
    }

    /// The same response with one more attribute at its end.
    pub fn add_attribute(self, key: &str, value: &str) -> (response: BasicResponse)
        ensures
            response@ == self@.push((key@, value@)),
    {
        let mut attributes = self.attributes;
        attributes.push(Attribute::new(key, value));
        BasicResponse { attributes }
    }
}

/// The answer to a received packet: the acknowledgement that goes back to the
/// sender, as it travels, and attributes.
#[derive(Clone, Debug, PartialEq, Eq)]
pub struct ReceiveResponse {
    pub acknowledgement: Vec<u8>,
    pub attributes: Vec<Attribute>,
}

/// What a `ReceiveResponse` is.
pub struct ReceiveResponseView {
    pub acknowledgement: Seq<u8>,
    pub attributes: Seq<(Seq<char>, Seq<char>)>,
}

impl View for ReceiveResponse {
    type V = ReceiveResponseView;

    open spec fn view(&self) -> ReceiveResponseView {
        ReceiveResponseView {
            acknowledgement: self.acknowledgement@,
            attributes: attributes_view(self.attributes@),
        }
    }
}

impl ReceiveResponse {
    /// A response with an empty acknowledgement and no attributes.
    pub fn new() -> (response: ReceiveResponse)
        ensures
            response@.acknowledgement == Seq::<u8>::empty(),
            response@.attributes == Seq::<(Seq<char>, Seq<char>)>::empty(),
    {
        ReceiveResponse { acknowledgement: Vec::new(), attributes: Vec::new() }
    }

    /// The same response with one more attribute at its end.
    pub fn add_attribute(self, key: &str, value: &str) -> (response: ReceiveResponse)
        ensures
            response@.acknowledgement == self@.acknowledgement,
            response@.attributes == self@.attributes.push((key@, value@)),
    {
        let mut attributes = self.attributes;
        attributes.push(Attribute::new(key, value));
        ReceiveResponse { acknowledgement: self.acknowledgement, attributes }
    }

    /// The same response with `ack` as its acknowledgement.
    pub fn set_ack(self, ack: Vec<u8>) -> (response: ReceiveResponse)
        ensures
            response@.acknowledgement == ack@,
            response@.attributes == self@.attributes,
    {
        ReceiveResponse { acknowledgement: ack, attributes: self.attributes }
    }
}

/// The version that this side settles on when it opens a channel.
#[derive(Clone, Debug, PartialEq, Eq)]
pub struct ChannelOpenAck {
    pub version: String,
}

impl View for ChannelOpenAck {
    type V = Seq<char>;

    open spec fn view(&self) -> Seq<char> {
        self.version@
    }
}

} // verus!
