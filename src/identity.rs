use vstd::prelude::*;

verus! {

/// The identity of one message on the chat platform: the channel it was
/// posted in and its own id. Ordered by channel first, then message.
#[derive(Clone, Copy, Debug, PartialEq, Eq, Structural, Hash, PartialOrd, Ord)]
pub struct MessageHandle {
    pub channel_id: u64,
    pub message_id: u64,
}

impl MessageHandle {
    /// Creates a new message handle from the channel's and the message's ids.
    pub fn new(channel_id: u64, message_id: u64) -> (r: MessageHandle)
        ensures
            r.channel_id == channel_id,
            r.message_id == message_id,
    {
        MessageHandle { channel_id, message_id }
    }

    /// Creates a new message handle from raw ids.
    pub fn from_raw_ids(channel_id: u64, message_id: u64) -> (r: MessageHandle)
        ensures
            r.channel_id == channel_id,
            r.message_id == message_id,
    {
        MessageHandle { channel_id, message_id }
    }
}

} // verus!
