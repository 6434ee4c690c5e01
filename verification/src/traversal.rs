//! The state of one message's way through the pipeline: the deliveries that
//! are still to be made, and what has reached a sink so far.

use vstd::prelude::*;
use crate::block::Connection;
use crate::message::{InternalMessage, MessageModel};

verus! {

/// A message that is being handed to a list of edges, one edge after the
/// other.
#[derive(Debug)]
pub struct Frame {
    /// The edges that receive the message.
    pub edges: Vec<Connection>,
    /// How many of the edges have received it.
    pub next: usize,
    /// The message.
    pub message: InternalMessage,
}

/// What a [`Frame`] stands for.
pub struct FrameModel {
    pub edges: Seq<Connection>,
    pub next: usize,
    pub message: MessageModel,
}

impl View for Frame {
    type V = FrameModel;

    open spec fn view(&self) -> FrameModel {
        FrameModel { edges: self.edges@, next: self.next, message: self.message@ }
    }
}

/// One message's way through the pipeline. The frames form a stack: the last
/// one is served first, so that the blocks behind an edge are done with before
/// the next edge gets the message.
#[derive(Debug)]
pub struct Traversal {
    /// The deliveries that are still to be made.
    pub frames: Vec<Frame>,
    /// The messages that have reached a sink, each with the sink's index, in
    /// the order in which they reached it.
    pub collector: Vec<(usize, InternalMessage)>,
}

/// What a [`Traversal`] stands for.
pub struct TraversalModel {
    pub frames: Seq<FrameModel>,
    pub collector: Seq<(usize, MessageModel)>,
}

/// The models of a stack of frames.
pub open spec fn frame_views(frames: Seq<Frame>) -> Seq<FrameModel> {
    Seq::new(frames.len(), |i: int| frames[i]@)
}

/// The models of what a collector holds.
pub open spec fn collected_views(collector: Seq<(usize, InternalMessage)>) -> Seq<(usize, MessageModel)> {
    Seq::new(collector.len(), |i: int| (collector[i].0, collector[i].1@))
}

impl View for Traversal {
    type V = TraversalModel;

    open spec fn view(&self) -> TraversalModel {
        TraversalModel {
            frames: frame_views(self.frames@),
            collector: collected_views(self.collector@),
        }
    }
}

impl TraversalModel {
    /// A traversal with nothing to do and nothing collected.
    pub open spec fn empty() -> TraversalModel {
        TraversalModel { frames: Seq::empty(), collector: Seq::empty() }
    }

    /// Whether nothing is left to do.
    pub open spec fn finished(self) -> bool {
        self.frames.len() == 0
    }

    /// With `message` to be handed to `edges` before anything else.
    pub open spec fn with_frame(self, edges: Seq<Connection>, message: MessageModel) -> TraversalModel {
        TraversalModel { frames: self.frames.push(FrameModel { edges, next: 0, message }), ..self }
    }

    /// Without the frame that is served first.
    pub open spec fn popped(self) -> TraversalModel {
        TraversalModel { frames: self.frames.drop_last(), ..self }
    }

    /// With one more edge of the first-served frame counted as done.
    pub open spec fn advanced(self) -> TraversalModel {
        let top = self.frames.last();
        TraversalModel {
            frames: self.frames.drop_last().push(
                FrameModel { next: (top.next + 1) as usize, ..top },
            ),
            ..self
        }
    }

    /// With `message` collected for the sink `sink`.
    pub open spec fn collected(self, sink: usize, message: MessageModel) -> TraversalModel {
        TraversalModel { collector: self.collector.push((sink, message)), ..self }
    }

    /// With each of `outputs` to be handed to `edges`, the first of them
    /// first, before anything else.
    pub open spec fn scheduled(self, edges: Seq<Connection>, outputs: Seq<MessageModel>) -> TraversalModel {
        TraversalModel {
            frames: self.frames + Seq::new(
                outputs.len(),
                |k: int| FrameModel { edges, next: 0, message: outputs[outputs.len() - 1 - k] },
            ),
            ..self
        }
    }
}

/// A copy of a list of edges.
pub fn copy_edges(edges: &Vec<Connection>) -> (copy: Vec<Connection>)
    ensures
        copy@ == edges@,
{
    let mut copy: Vec<Connection> = Vec::new();
    let mut i: usize = 0;
    while i < edges.len()
        invariant
            i <= edges.len(),
            copy@ == edges@.subrange(0, i as int),
        decreases edges.len() - i,
    {
        copy.push(edges[i]);
        assert(edges@.subrange(0, i as int).push(edges@[i as int]) =~= edges@.subrange(0, i + 1));
        i += 1;
    }
    assert(edges@.subrange(0, edges@.len() as int) =~= edges@);
    copy
}

impl Traversal {
    /// A traversal with nothing to do and nothing collected.
    pub fn new() -> (out: Traversal)
        ensures
            out@ == TraversalModel::empty(),
    {
        let out = Traversal { frames: Vec::new(), collector: Vec::new() };
        assert(out@.frames =~= Seq::<FrameModel>::empty());
        assert(out@.collector =~= Seq::<(usize, MessageModel)>::empty());
        out
    }

    /// Whether nothing is left to do.
    pub fn is_finished(&self) -> (out: bool)
        ensures
            out == self@.finished(),
    {
        self.frames.len() == 0
    }

    /// Puts `message` on top of the stack, to be handed to `edges`.
    pub fn push_frame(&mut self, edges: Vec<Connection>, message: InternalMessage)
        ensures
            final(self)@ == old(self)@.with_frame(edges@, message@),
    {
        self.frames.push(Frame { edges, next: 0, message });
        assert(final(self)@.frames =~= old(self)@.with_frame(edges@, message@).frames);
    }

    /// Collects `message` for the sink `sink`.
    pub fn collect(&mut self, sink: usize, message: InternalMessage)
        ensures
            final(self)@ == old(self)@.collected(sink, message@),
    {
        self.collector.push((sink, message));
        assert(final(self)@.collector =~= old(self)@.collected(sink, message@).collector);
    }
}

} // verus!
