//! Delivery of parts from the network to a stream consumer.
//!
//! The frame engine pushes each stream's inbound parts onto a channel;
//! the consumer polls them off. The channels live outside this crate;
//! what is decided here is how each receive outcome is surfaced to the
//! consumer — in particular that a disconnected channel means the
//! connection likely died and is an error, never a silent end.

use vstd::prelude::*;
use crate::error::HttpError;
use crate::error::HttpErrorView;
use crate::parts::DataOrHeadersWithFlag;

verus! {

/// What one receive on the network channel yielded.
pub enum ChannelRecv {
    /// The next part arrived.
    Item(DataOrHeadersWithFlag),
    /// The sender forwarded the error that ended the stream.
    Failed(HttpError),
    /// The sender signalled a clean end of the stream.
    Eof,
    /// Nothing is queued; the consumer must be woken later.
    Empty,
    /// The sending side is gone without an end-of-stream signal.
    Disconnected,
}

/// What the consumer's poll yields.
pub enum PollOutcome {
    /// The next part of the stream.
    Ready(DataOrHeadersWithFlag),
    /// Suspend until the channel signals again.
    NotReady,
    /// The stream ended cleanly.
    End,
    /// The stream failed with this error.
    Failed(HttpError),
}

/// Adapter turning the per-stream network channel into the consumer's
/// stream of parts. The channel endpoints live with the event loop; the
/// adapter's decision on each receive outcome stands here.
pub struct StreamFromNetwork {}

impl StreamFromNetwork {
    /// How one receive outcome reaches the consumer: a part is handed
    /// through, an error or a clean end is final, an empty channel
    /// suspends, and a disconnected channel is surfaced as an error
    /// naming the likely cause — the connection died.
    pub fn poll_step(recv: ChannelRecv) -> (r: PollOutcome)
        ensures
            match recv {
                ChannelRecv::Item(p) => r == PollOutcome::Ready(p),
                ChannelRecv::Failed(e) => r == PollOutcome::Failed(e),
                ChannelRecv::Eof => r == PollOutcome::End,
                ChannelRecv::Empty => r == PollOutcome::NotReady,
                ChannelRecv::Disconnected => r matches PollOutcome::Failed(e) && e@
                    == HttpErrorView::Other("channel disconnected, likely conn died"@),
            },
    {
        match recv {
            ChannelRecv::Item(p) => PollOutcome::Ready(p),
            ChannelRecv::Failed(e) => PollOutcome::Failed(e),
            ChannelRecv::Eof => PollOutcome::End,
            ChannelRecv::Empty => PollOutcome::NotReady,
            ChannelRecv::Disconnected => PollOutcome::Failed(
                HttpError::Other("channel disconnected, likely conn died"),
            ),
        }
    }
}

} // verus!
