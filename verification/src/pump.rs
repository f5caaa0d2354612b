//! The response pump: feeds a stream's framed parts into the single
//! writer queue, gated by the stream's outbound flow-control credit.
//!
//! One pump runs per in-flight request, on that request's own task. The
//! task polls the flattened response stream and asks the pump what to do
//! with each poll result; waiting for credit suspends only that task,
//! never the shared writer or other streams. The pump stops after the
//! first part flagged last or the first error; an error is surfaced to
//! the writer as a stream reset rather than left to time out.

use vstd::prelude::*;
use crate::conn::CommonToWriteMessage;
use crate::conn::ServerToWriteMessage;
use crate::error::HttpError;
use crate::parts::DataOrHeadersWithFlag;
use crate::parts::PartContent;
use crate::parts::PartView;
use crate::parts::wf_part_stream;

verus! {

/// The flow-control cost of one part: data spends credit byte for byte,
/// header metadata spends none.
pub open spec fn part_cost(p: PartView) -> int {
    match p.content {
        PartContent::Data(d) => d.len() as int,
        PartContent::Headers(_) => 0,
    }
}

/// What one poll of the flattened response stream yielded.
pub enum PumpInput {
    /// The next part is available.
    Part(DataOrHeadersWithFlag),
    /// The stream failed with this error.
    Failed(HttpError),
    /// The stream ended without a part flagged last.
    Eof,
}

/// What the pump's task must do after one poll.
pub enum PumpAction {
    /// Not enough flow-control credit for the part: hold it and wait for
    /// a window update before offering it again.
    Wait(DataOrHeadersWithFlag),
    /// Enqueue this message on the writer queue.
    Enqueue(ServerToWriteMessage),
    /// The stream ended; nothing more to send.
    Finished,
}

/// The pump for one stream: the id its frames carry and the remaining
/// outbound flow-control credit.
pub struct PumpToWrite {
    pub stream_id: u32,
    pub out_window: u64,
    /// Set once the final part or an error went to the queue.
    pub done: bool,
}

impl PumpToWrite {
    pub fn new(stream_id: u32, out_window: u64) -> (r: PumpToWrite)
        ensures
            r.stream_id == stream_id,
            r.out_window == out_window,
            !r.done,
    {
        PumpToWrite { stream_id, out_window, done: false }
    }

    /// Credit granted by a peer window update, saturating at the credit
    /// type's bound.
    pub fn add_window(&mut self, delta: u64)
        ensures
            final(self).stream_id == old(self).stream_id,
            final(self).done == old(self).done,
            final(self).out_window == if old(self).out_window + delta <= u64::MAX {
                (old(self).out_window + delta) as u64
            } else {
                u64::MAX
            },
    {
        self.out_window = match self.out_window.checked_add(delta) {
            Some(w) => w,
            None => u64::MAX,
        };
    }

    /// One step of the pump. A part that fits the remaining credit is
    /// posted to the writer queue tagged with the stream id, spending its
    /// cost; a part that does not fit is handed back to wait for credit;
    /// an error becomes a reset of this stream; the end of the stream
    /// finishes the pump. After the first part flagged last, and after an
    /// error, the pump is done.
    pub fn step(&mut self, input: PumpInput) -> (r: PumpAction)
        requires
            !old(self).done,
        ensures
            final(self).stream_id == old(self).stream_id,
            match input {
                PumpInput::Part(p) => if part_cost(p@) > old(self).out_window {
                    &&& r == PumpAction::Wait(p)
                    &&& *final(self) == *old(self)
                } else {
                    &&& r == PumpAction::Enqueue(
                        ServerToWriteMessage::Common(
                            CommonToWriteMessage::StreamPart(old(self).stream_id, p),
                        ),
                    )
                    &&& final(self).out_window == old(self).out_window - part_cost(p@)
                    &&& final(self).done == p@.last
                },
                PumpInput::Failed(_) => {
                    &&& r == PumpAction::Enqueue(
                        ServerToWriteMessage::Common(
                            CommonToWriteMessage::ResetStream(old(self).stream_id),
                        ),
                    )
                    &&& final(self).done
                    &&& final(self).out_window == old(self).out_window
                },
                PumpInput::Eof => {
                    &&& r == PumpAction::Finished
                    &&& final(self).done
                    &&& final(self).out_window == old(self).out_window
                },
            },
    {
        match input {
            PumpInput::Part(p) => {
                let cost: u64 = match &p.content {
                    crate::parts::DataOrHeaders::Data(d) => d.len() as u64,
                    crate::parts::DataOrHeaders::Headers(_) => 0,
                };
                if cost > self.out_window {
                    return PumpAction::Wait(p);
                }
                self.out_window = self.out_window - cost;
                if p.last {
                    self.done = true;
                }
                PumpAction::Enqueue(
                    ServerToWriteMessage::Common(
                        CommonToWriteMessage::StreamPart(self.stream_id, p),
                    ),
                )
            },
            PumpInput::Failed(_) => {
                self.done = true;
                PumpAction::Enqueue(
                    ServerToWriteMessage::Common(
                        CommonToWriteMessage::ResetStream(self.stream_id),
                    ),
                )
            },
            PumpInput::Eof => {
                self.done = true;
                PumpAction::Finished
            },
        }
    }

    /// Drives the pump over the parts of a flattened response when the
    /// credit covers them. The queue receives exactly the stream's parts
    /// up to and including the first one flagged last, in generation
    /// order, each tagged with this stream's id; the pump is done
    /// afterwards exactly when a last-flagged part went out.
    pub fn pump_parts(&mut self, parts: Vec<DataOrHeadersWithFlag>) -> (queue: Vec<
        ServerToWriteMessage,
    >)
        requires
            !old(self).done,
            total_cost(parts@.map_values(|p: DataOrHeadersWithFlag| p@)) <= old(self).out_window,
        ensures
            final(self).stream_id == old(self).stream_id,
            ({
                let posted = pump_posted(parts@.map_values(|p: DataOrHeadersWithFlag| p@));
                &&& queue@.len() == posted.len()
                &&& forall|k: int|
                    0 <= k < queue@.len() ==> ((#[trigger] queue@[k]) matches
                        ServerToWriteMessage::Common(CommonToWriteMessage::StreamPart(id, p))
                        && id == old(self).stream_id && p@ == posted[k])
            }),
    {
        let ghost pv = parts@.map_values(|p: DataOrHeadersWithFlag| p@);
        let mut parts = parts;
        let mut queue: Vec<ServerToWriteMessage> = Vec::new();
        let n: usize = parts.len();
        let mut i: usize = 0;
        proof {
            assert(parts@.map_values(|p: DataOrHeadersWithFlag| p@) =~= pv.subrange(
                0,
                pv.len() as int,
            ));
        }
        while i < n && !self.done
            invariant
                0 <= i <= n,
                n == pv.len(),
                parts@.len() == n - i,
                queue@.len() == i,
                self.stream_id == old(self).stream_id,
                parts@.map_values(|p: DataOrHeadersWithFlag| p@) == pv.subrange(
                    i as int,
                    pv.len() as int,
                ),
                forall|k: int|
                    0 <= k < i ==> ((#[trigger] queue@[k]) matches ServerToWriteMessage::Common(
                        CommonToWriteMessage::StreamPart(id, p),
                    ) && id == old(self).stream_id && p@ == pv[k]),
                !self.done ==> forall|k: int| 0 <= k < i ==> !(#[trigger] pv[k]).last,
                !self.done ==> self.out_window >= total_cost(
                    pv.subrange(i as int, pv.len() as int),
                ),
                self.done ==> i >= 1 && pv[i - 1].last && (forall|k: int|
                    0 <= k < i - 1 ==> !(#[trigger] pv[k]).last),
            decreases n - i,
        {
            let ghost prev = parts@;
            let p = parts.remove(0);
            proof {
                assert(prev.map_values(|q: DataOrHeadersWithFlag| q@)[0] == p@);
                assert(p@ == pv[i as int]);
                assert(parts@ =~= prev.drop_first());
                assert forall|k: int| 0 <= k < parts@.len() implies parts@.map_values(
                    |q: DataOrHeadersWithFlag| q@,
                )[k] == #[trigger] pv.subrange(i + 1, pv.len() as int)[k] by {
                    assert(parts@[k] == prev[k + 1]);
                    assert(prev.map_values(|q: DataOrHeadersWithFlag| q@)[k + 1] == prev[k + 1]@);
                    assert(prev.map_values(|q: DataOrHeadersWithFlag| q@)[k + 1] == pv.subrange(
                        i as int,
                        pv.len() as int,
                    )[k + 1]);
                }
                assert(parts@.map_values(|q: DataOrHeadersWithFlag| q@) =~= pv.subrange(
                    i + 1,
                    pv.len() as int,
                ));
                assert(pv.subrange(i as int, pv.len() as int).drop_first() =~= pv.subrange(
                    i + 1,
                    pv.len() as int,
                ));
                assert(total_cost(pv.subrange(i as int, pv.len() as int)) == part_cost(
                    pv[i as int],
                ) + total_cost(pv.subrange(i + 1, pv.len() as int)));
                lemma_total_cost_nonneg(pv.subrange(i + 1, pv.len() as int));
            }
            let action = self.step(PumpInput::Part(p));
            match action {
                PumpAction::Enqueue(message) => {
                    queue.push(message);
                },
                _ => {
                    proof {
                        assert(false);
                    }
                },
            }
            i = i + 1;
        }
        proof {
            if self.done {
                lemma_pump_posted_cut(pv, i - 1);
                assert(pump_posted(pv) =~= pv.subrange(0, i as int));
            } else {
                lemma_pump_posted_cut(pv, i as int);
                assert(pv.subrange(0, i as int) =~= pv);
            }
        }
        queue
    }
}

/// The flow-control cost of a whole sequence of parts.
pub open spec fn total_cost(parts: Seq<PartView>) -> int
    decreases parts.len(),
{
    if parts.len() == 0 {
        0
    } else {
        part_cost(parts[0]) + total_cost(parts.drop_first())
    }
}

proof fn lemma_total_cost_nonneg(parts: Seq<PartView>)
    ensures
        total_cost(parts) >= 0,
    decreases parts.len(),
{
    if parts.len() > 0 {
        lemma_total_cost_nonneg(parts.drop_first());
    }
}

/// What the pump posts of a part sequence: everything up to and
/// including the first part flagged last, or all of it when none is.
pub open spec fn pump_posted(parts: Seq<PartView>) -> Seq<PartView>
    decreases parts.len(),
{
    if parts.len() == 0 {
        Seq::empty()
    } else if parts[0].last {
        seq![parts[0]]
    } else {
        seq![parts[0]] + pump_posted(parts.drop_first())
    }
}

/// Where the first last-flagged part stands decides what is posted: with
/// no flag among the first `i` parts, the posted sequence is the whole
/// sequence when `i` reaches the end, and the prefix through `i` when the
/// part at `i` carries the flag.
proof fn lemma_pump_posted_cut(parts: Seq<PartView>, i: int)
    requires
        0 <= i <= parts.len(),
        forall|k: int| 0 <= k < i ==> !(#[trigger] parts[k]).last,
    ensures
        i == parts.len() ==> pump_posted(parts) == parts,
        i < parts.len() && parts[i].last ==> pump_posted(parts) =~= parts.subrange(0, i + 1),
    decreases parts.len(),
{
    if parts.len() > 0 {
        if parts[0].last {
            if i > 0 {
                assert(!parts[0].last);
            }
        } else {
            if i == 0 {
            } else {
                lemma_pump_posted_cut(parts.drop_first(), i - 1);
                if i == parts.len() {
                    assert(pump_posted(parts.drop_first()) == parts.drop_first());
                    assert(pump_posted(parts) =~= parts);
                } else if parts[i].last {
                    assert(parts.drop_first()[i - 1].last);
                    assert(pump_posted(parts.drop_first()) =~= parts.drop_first().subrange(0, i));
                    assert(pump_posted(parts) =~= parts.subrange(0, i + 1));
                }
            }
        }
    }
}

/// Of a well-formed stream — only its final part may carry the
/// end-of-stream flag — the pump posts every part: nothing is cut off.
pub proof fn lemma_pump_posts_all_of_wf(parts: Seq<PartView>)
    requires
        wf_part_stream(parts),
    ensures
        pump_posted(parts) == parts,
{
    if parts.len() == 0 {
        assert(pump_posted(parts) =~= parts);
    } else if parts.last().last {
        lemma_pump_posted_cut(parts, parts.len() - 1);
        assert(pump_posted(parts) =~= parts.subrange(0, parts.len() as int));
        assert(parts.subrange(0, parts.len() as int) =~= parts);
    } else {
        lemma_pump_posted_cut(parts, parts.len() as int);
    }
}

} // verus!
