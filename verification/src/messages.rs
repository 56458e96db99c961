use crate::sources::{SourceError, StringData};
use crate::timeseries::MetaView;
use vstd::prelude::*;
use vstd::std_specs::convert::FromSpecImpl;

verus! {

/// What a loader puts on the channel: the text it loaded, or its failure.
/// The only thing to do with a message is to take its payload out, once.
pub struct Message(InnerMessage);

/// The payload of a `Message`.
pub enum InnerMessage {
    /// The texts of the runs of one site and model, each under the start time
    /// of its run.
    StringData(StringData),
    /// The failure of a loader.
    BufkitDataError(SourceError),
}

/// What a message says, with the meta data as its view and the runs as a
/// sequence.
pub enum Payload {
    Data { meta: MetaView, runs: Seq<(i64, String)> },
    Failure(SourceError),
}

impl View for InnerMessage {
    type V = Payload;

    open spec fn view(&self) -> Payload {
        match *self {
            InnerMessage::StringData(list) => Payload::Data { meta: list.meta@, runs: list.data@ },
            InnerMessage::BufkitDataError(err) => Payload::Failure(err),
        }
    }
}

impl Message {
    /// The payload, in contracts.
    pub closed spec fn inner(self) -> InnerMessage {
        self.0
    }

    /// Take the payload out.
    pub fn payload(self) -> (inner: InnerMessage)
        ensures
            inner == self.inner(),
    {
        self.0
    }
}

impl View for Message {
    type V = Payload;

    open spec fn view(&self) -> Payload {
        self.inner()@
    }
}

impl From<InnerMessage> for Message {
    fn from(inner_message: InnerMessage) -> (message: Self)
        ensures
            message.inner() == inner_message,
    {
        Message(inner_message)
    }
}

impl FromSpecImpl<InnerMessage> for Message {
    open spec fn obeys_from_spec() -> bool {
        true
    }

    closed spec fn from_spec(inner_message: InnerMessage) -> Self {
        Message(inner_message)
    }
}

} // verus!
