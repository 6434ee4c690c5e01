//! The pipeline: the blocks with their edges, checked for cycles when it is
//! built, and the steps that carry a message through it.

use vstd::prelude::*;
use crate::block::{
    make_block, make_block_spec, AnyBlock, Block, BlockConfig, BlockError, BlockHandle,
    Connection, Outcome,
};
use crate::graph::{
    closed_graph, cycle_from, cycles, cycles_of_first, first_missing_block, first_open_edge, has_cycle,
    lemma_rank_falls,
    rank, search, search_edges, Graph,
};
use crate::message::{message_views, InternalMessage, MessageModel};
use crate::text::{decimal, joined, texts};
use crate::traversal::{copy_edges, Frame, FrameModel, Traversal, TraversalModel};

verus! {

/// Why a pipeline could not be built, or why a message could not go on.
#[derive(Debug, PartialEq)]
pub enum PipelineError {
    /// A block could not be built, or could not answer the message.
    Block(BlockError),
    /// An edge names a block that the pipeline does not have.
    MissingBlock(usize),
    /// The graph of the blocks holds cycles: the cyclic paths that were found,
    /// and the same as a report of one line for each.
    Cycles { paths: Vec<Vec<usize>>, report: String },
}

/// What the pipeline asks of its driver after a step.
#[derive(Clone, Copy, Debug, PartialEq, Eq, Structural)]
pub enum Step {
    /// Nothing is left to do.
    Finished,
    /// Take the next step.
    Continue,
    /// Rest for so many milliseconds, then take the next step.
    Wait(u64),
}

/// The step that follows a block which asks for a rest of `delay`
/// milliseconds.
pub open spec fn after_delay(delay: u64) -> Step {
    if delay > 0 {
        Step::Wait(delay)
    } else {
        Step::Continue
    }
}

/// The graph that a list of configurations describes.
pub open spec fn config_graph(configs: Seq<BlockConfig>) -> Graph {
    Seq::new(configs.len(), |i: int| configs[i].edges())
}

/// The paths that a list of vectors holds.
pub open spec fn path_views(paths: Seq<Vec<usize>>) -> Seq<Seq<usize>> {
    Seq::new(paths.len(), |i: int| paths[i]@)
}

/// How a block is called in a report.
pub open spec fn block_label(index: usize) -> Seq<char> {
    "Block "@ + decimal(index as nat)
}

/// The line of a report for one cyclic path: its blocks, joined by arrows.
pub open spec fn path_line(path: Seq<usize>) -> Seq<char> {
    joined(Seq::new(path.len(), |i: int| block_label(path[i])), " -> "@)
}

/// The report on a list of cyclic paths: one line for each.
pub open spec fn cycle_report(paths: Seq<Seq<usize>>) -> Seq<char> {
    joined(Seq::new(paths.len(), |i: int| path_line(paths[i])), "\n"@)
}

/// Whether `path` holds `index`.
fn path_contains(path: &Vec<usize>, index: usize) -> (out: bool)
    ensures
        out == path@.contains(index),
{
    let mut i: usize = 0;
    while i < path.len()
        invariant
            i <= path.len(),
            forall|k: int| 0 <= k < i ==> path@[k] != index,
        decreases path.len() - i,
    {
        if path[i] == index {
            return true;
        }
        i += 1;
    }
    false
}

/// The first of `edges` that names a block beyond `blocks` blocks, with its
/// place among the edges.
fn open_edge_in(edges: &Vec<Connection>, blocks: usize) -> (out: Option<(usize, usize)>)
    ensures
        match out {
            Some((k, target)) => {
                &&& k < edges@.len()
                &&& edges@[k as int] == Connection::Block(target)
                &&& target >= blocks
                &&& forall|b: int|
                    0 <= b < k ==> (#[trigger] edges@[b] matches Connection::Block(j) ==> j < blocks)
            },
            None => forall|b: int|
                0 <= b < edges@.len() ==> (#[trigger] edges@[b] matches Connection::Block(j) ==> j
                    < blocks),
        },
{
    let mut k: usize = 0;
    while k < edges.len()
        invariant
            k <= edges.len(),
            forall|b: int|
                0 <= b < k ==> (#[trigger] edges@[b] matches Connection::Block(j) ==> j < blocks),
        decreases edges.len() - k,
    {
        if let Connection::Block(target) = edges[k] {
            if target >= blocks {
                return Some((k, target));
            }
        }
        k += 1;
    }
    None
}

/// Writes the line of a report for one cyclic path.
pub fn describe_path(path: &Vec<usize>) -> (out: String)
    ensures
        out@ == path_line(path@),
{
    let mut labels: Vec<String> = Vec::new();
    let mut i: usize = 0;
    while i < path.len()
        invariant
            i <= path.len(),
            labels@.len() == i,
            forall|k: int| 0 <= k < i ==> labels@[k]@ == block_label(path@[k]),
        decreases path.len() - i,
    {
        let number = crate::text::format_decimal(path[i] as u64);
        labels.push(crate::text::concat("Block ", number.as_str()));
        i += 1;
    }
    assert(texts(labels@) =~= Seq::new(path@.len(), |i: int| block_label(path@[i])));
    crate::text::join(&labels, " -> ")
}

/// Writes the report on a list of cyclic paths.
pub fn describe_cycles(paths: &Vec<Vec<usize>>) -> (out: String)
    ensures
        out@ == cycle_report(path_views(paths@)),
{
    let mut lines: Vec<String> = Vec::new();
    let mut i: usize = 0;
    while i < paths.len()
        invariant
            i <= paths.len(),
            lines@.len() == i,
            forall|k: int| 0 <= k < i ==> lines@[k]@ == path_line(paths@[k]@),
        decreases paths.len() - i,
    {
        lines.push(describe_path(&paths[i]));
        i += 1;
    }
    assert(texts(lines@) =~= Seq::new(
        path_views(paths@).len(),
        |i: int| path_line(path_views(paths@)[i]),
    ));
    crate::text::join(&lines, "\n")
}

/// The blocks that the first `n` configurations describe, or the error of the
/// first among them that describes none.
pub open spec fn blocks_of_first(configs: Seq<BlockConfig>, n: nat) -> Result<Seq<AnyBlock>, BlockError>
    decreases n,
{
    if n == 0 || n > configs.len() {
        Ok(Seq::empty())
    } else {
        match blocks_of_first(configs, (n - 1) as nat) {
            Err(e) => Err(e),
            Ok(blocks) => match make_block_spec(configs[n - 1]) {
                Err(e) => Err(e),
                Ok(block) => Ok(blocks.push(block)),
            },
        }
    }
}

/// Once the first `n` configurations run into an error, so do more of them.
proof fn lemma_blocks_error(configs: Seq<BlockConfig>, n: nat, m: nat)
    requires
        n <= m <= configs.len(),
        blocks_of_first(configs, n) is Err,
    ensures
        blocks_of_first(configs, m) == blocks_of_first(configs, n),
    decreases m,
{
    if n < m {
        lemma_blocks_error(configs, n, (m - 1) as nat);
    }
}

/// The blocks of a pipeline, with the edges that lead from each.
#[derive(Debug)]
pub struct Pipeline {
    blocks: Vec<BlockHandle>,
}

impl Pipeline {
    /// How many blocks the pipeline has.
    pub closed spec fn size(&self) -> nat {
        self.blocks@.len()
    }

    /// The block with the index `i`.
    pub closed spec fn block_at(&self, i: int) -> AnyBlock {
        self.blocks@[i].block
    }

    /// The blocks, by index.
    pub open spec fn all_blocks(&self) -> Seq<AnyBlock> {
        Seq::new(self.size(), |i: int| self.block_at(i))
    }

    /// The outbound edges of every block.
    pub closed spec fn graph(&self) -> Graph {
        Seq::new(self.blocks@.len(), |i: int| self.blocks@[i].to@)
    }

    /// What building a pipeline leads to: the blocks are built in order, and
    /// the first that cannot be built is the error; then an edge to a block
    /// that is not there is the error; then cycles are the error unless they
    /// are to be ignored.
    pub open spec fn built(
        configs: Seq<BlockConfig>,
        ignore_cycles: bool,
        out: Result<Pipeline, PipelineError>,
    ) -> bool {
        let graph = config_graph(configs);
        match blocks_of_first(configs, configs.len()) {
            Err(e) => out == Err::<Pipeline, PipelineError>(PipelineError::Block(e)),
            Ok(blocks) => if !closed_graph(graph) {
                out matches Err(PipelineError::MissingBlock(target)) && first_missing_block(graph, target)
            } else if cycles(graph).len() > 0 && !ignore_cycles {
                out matches Err(PipelineError::Cycles { paths, report }) && path_views(paths@) == cycles(
                    graph,
                ) && report@ == cycle_report(cycles(graph))
            } else {
                out matches Ok(pipeline) && pipeline.all_blocks() == blocks && pipeline.graph() == graph
            },
        }
    }

    /// The block that is named by the first edge, in the order of the blocks
    /// and of their edges, to a block which is not there.
    fn find_open_edge(&self) -> (out: Option<usize>)
        ensures
            match out {
                Some(target) => first_missing_block(self.graph(), target),
                None => closed_graph(self.graph()),
            },
    {
        let mut i: usize = 0;
        while i < self.blocks.len()
            invariant
                i <= self.blocks.len(),
                forall|a: int, k: int|
                    0 <= a < i && 0 <= k < self.graph()[a].len() ==> (
                    #[trigger] self.graph()[a][k] matches Connection::Block(j) ==> j
                        < self.graph().len()),
            decreases self.blocks.len() - i,
        {
            match open_edge_in(&self.blocks[i].to, self.blocks.len()) {
                Some((k, target)) => {
                    assert(first_open_edge(self.graph(), i as int, k as int, target));
                    return Some(target);
                },
                None => {},
            }
            i += 1;
        }
        None
    }

    /// Builds the blocks and checks the graph that they form.
    pub fn new(block_config: Vec<BlockConfig>, ignore_cycles: bool) -> (out: Result<
        Pipeline,
        PipelineError,
    >)
        ensures
            Self::built(block_config@, ignore_cycles, out),
    {
        let ghost configs = block_config@;
        let mut blocks: Vec<BlockHandle> = Vec::new();
        assert(Seq::new(blocks@.len(), |i: int| blocks@[i].block) =~= Seq::<AnyBlock>::empty());
        for config in it: block_config
            invariant
                it.seq() == configs,
                blocks@.len() == it.index(),
                blocks_of_first(configs, it.index() as nat) == Ok::<Seq<AnyBlock>, BlockError>(
                    Seq::new(blocks@.len(), |i: int| blocks@[i].block),
                ),
                forall|i: int| 0 <= i < blocks@.len() ==> blocks@[i].to@ == configs[i].edges(),
        {
            let ghost before = Seq::new(blocks@.len(), |i: int| blocks@[i].block);
            match make_block(config) {
                Ok(handle) => {
                    blocks.push(handle);
                    assert(Seq::new(blocks@.len(), |i: int| blocks@[i].block) =~= before.push(
                        handle.block,
                    ));
                },
                Err(e) => {
                    proof {
                        lemma_blocks_error(configs, (it.index() + 1) as nat, configs.len());
                    }
                    return Err(PipelineError::Block(e));
                },
            }
        }
        let pipeline = Pipeline { blocks };
        assert(pipeline.graph() =~= config_graph(configs));
        assert(pipeline.all_blocks() =~= Seq::new(blocks@.len(), |i: int| blocks@[i].block));
        if let Some(target) = pipeline.find_open_edge() {
            proof {
                let (i, k) = choose|i: int, k: int| #[trigger] first_open_edge(pipeline.graph(), i, k, target);
                assert(pipeline.graph()[i][k] == Connection::Block(target));
            }
            return Err(PipelineError::MissingBlock(target));
        }
        let paths = pipeline.get_cycles();
        if paths.len() > 0 && !ignore_cycles {
            let report = describe_cycles(&paths);
            return Err(PipelineError::Cycles { paths, report });
        }
        Ok(pipeline)
    }

    /// How many blocks the pipeline has.
    pub fn len(&self) -> (out: usize)
        ensures
            out == self.size(),
    {
        self.blocks.len()
    }

    /// The cyclic paths that the searches from all blocks report.
    pub fn get_cycles(&self) -> (out: Vec<Vec<usize>>)
        ensures
            path_views(out@) == cycles(self.graph()),
    {
        let mut found: Vec<Vec<usize>> = Vec::new();
        let mut i: usize = 0;
        assert(path_views(found@) =~= cycles_of_first(self.graph(), 0));
        while i < self.blocks.len()
            invariant
                i <= self.blocks.len(),
                path_views(found@) == cycles_of_first(self.graph(), i as nat),
            decreases self.blocks.len() - i,
        {
            let ghost before = path_views(found@);
            match self.get_cycles_from_block(i) {
                Some(path) => {
                    found.push(path);
                    assert(path_views(found@) =~= before.push(path@));
                },
                None => {},
            }
            i += 1;
        }
        found
    }

    /// The cyclic path that the search from the block `block_idx` reports, if
    /// it reports one.
    pub fn get_cycles_from_block(&self, block_idx: usize) -> (out: Option<Vec<usize>>)
        ensures
            match out {
                Some(path) => cycle_from(self.graph(), block_idx) == Some(path@),
                None => cycle_from(self.graph(), block_idx) is None,
            },
    {
        if block_idx >= self.blocks.len() {
            return None;
        }
        let mut path: Vec<usize> = Vec::new();
        path.push(block_idx);
        assert(path@ =~= seq![block_idx]);
        if self.search_from(&mut path, block_idx) {
            Some(path)
        } else {
            None
        }
    }

    /// Searches through the edges of the block `block_idx`, which is the last
    /// of `path`.
    fn search_from(&self, path: &mut Vec<usize>, block_idx: usize) -> (found: bool)
        requires
            block_idx < self.size(),
            old(path)@.len() <= self.size(),
        ensures
            match search_edges(self.graph(), old(path)@, self.graph()[block_idx as int], 0) {
                Some(stack) => found && final(path)@ == stack,
                None => !found && final(path)@ == old(path)@,
            },
        decreases self.size() - old(path)@.len(), 1nat,
    {
        let edges = &self.blocks[block_idx].to;
        let ghost start = path@;
        let mut k: usize = 0;
        while k < edges.len()
            invariant
                k <= edges.len(),
                block_idx < self.size(),
                edges@ == self.graph()[block_idx as int],
                path@ == start,
                start == old(path)@,
                start.len() <= self.size(),
                search_edges(self.graph(), start, edges@, k as nat) == search_edges(
                    self.graph(),
                    start,
                    edges@,
                    0,
                ),
            decreases edges.len() - k,
        {
            match edges[k] {
                Connection::Block(next) => {
                    assert(edges@[k as int] == Connection::Block(next));
                    if self.traverse_to_check_cycles(path, next) {
                        return true;
                    }
                },
                Connection::Sink(_) => {},
            }
            k += 1;
        }
        false
    }

    /// The search that is about to enter the block `block_idx`, with `path`
    /// as the blocks it came through. It answers whether it met a cycle, and
    /// then leaves the cyclic path in `path`.
    pub fn traverse_to_check_cycles(&self, path: &mut Vec<usize>, block_idx: usize) -> (found: bool)
        ensures
            match search(self.graph(), old(path)@, block_idx) {
                Some(stack) => found && final(path)@ == stack,
                None => !found && final(path)@ == old(path)@,
            },
        decreases self.size() - old(path)@.len(), 0nat,
    {
        if path_contains(path, block_idx) {
            return true;
        }
        if block_idx >= self.blocks.len() || path.len() >= self.blocks.len() {
            return false;
        }
        let ghost start = path@;
        path.push(block_idx);
        if self.search_from(path, block_idx) {
            return true;
        }
        path.pop();
        assert(path@ =~= start);
        false
    }

    /// Whether handing `message` to the block `block_idx` may lead from
    /// `before` to `after` with the report `out`: a block that is not there is
    /// an error; else the block answers as it is allowed to, its error is the
    /// error, and each message of its answer is scheduled for the edges of the
    /// block.
    pub open spec fn enters(
        &self,
        before: TraversalModel,
        block_idx: usize,
        message: MessageModel,
        after: TraversalModel,
        out: Result<Step, PipelineError>,
    ) -> bool {
        if block_idx >= self.size() {
            after == before && out == Err::<Step, PipelineError>(PipelineError::MissingBlock(block_idx))
        } else {
            exists|outcome: Outcome| #[trigger]
                self.block_at(block_idx as int).allows(message, outcome) && self.follows(
                    before,
                    block_idx,
                    outcome,
                    after,
                    out,
                )
        }
    }

    /// What follows the answer `outcome` of the block `block_idx`.
    pub open spec fn follows(
        &self,
        before: TraversalModel,
        block_idx: usize,
        outcome: Outcome,
        after: TraversalModel,
        out: Result<Step, PipelineError>,
    ) -> bool {
        match outcome {
            Ok(outputs) => after == before.scheduled(self.graph()[block_idx as int], outputs) && out
                == Ok::<Step, PipelineError>(
                after_delay(self.block_at(block_idx as int).spec_delay_ms()),
            ),
            Err(e) => after == before && out == Err::<Step, PipelineError>(PipelineError::Block(e)),
        }
    }

    /// Whether one step may lead from `before` to `after` with the report
    /// `out`. With nothing to do the traversal is finished. A frame whose
    /// edges are all served is dropped. Else the next edge of the first-served
    /// frame gets the frame's message: a sink collects it, a block is entered.
    pub open spec fn steps(
        &self,
        before: TraversalModel,
        after: TraversalModel,
        out: Result<Step, PipelineError>,
    ) -> bool {
        if before.finished() {
            after == before && out == Ok::<Step, PipelineError>(Step::Finished)
        } else {
            let top = before.frames.last();
            if top.next >= top.edges.len() {
                after == before.popped() && out == Ok::<Step, PipelineError>(Step::Continue)
            } else {
                match top.edges[top.next as int] {
                    Connection::Sink(sink) => after == before.advanced().collected(sink, top.message)
                        && out == Ok::<Step, PipelineError>(Step::Continue),
                    Connection::Block(block_idx) => self.enters(
                        before.advanced(),
                        block_idx,
                        top.message,
                        after,
                        out,
                    ),
                }
            }
        }
    }

    /// Schedules `message` for the edges `to`: they get it before anything
    /// else that the traversal has to do.
    pub fn handle_message_with_connections(
        &self,
        to: &Vec<Connection>,
        message: InternalMessage,
        run: &mut Traversal,
    )
        ensures
            final(run)@ == old(run)@.with_frame(to@, message@),
    {
        run.push_frame(copy_edges(to), message);
    }

    /// Hands `message` to the block `block_idx` and schedules what the block
    /// answers for the edges of the block.
    pub fn handle_message(&self, block_idx: usize, message: InternalMessage, run: &mut Traversal) -> (out:
        Result<Step, PipelineError>)
        ensures
            self.enters(old(run)@, block_idx, message@, final(run)@, out),
    {
        if block_idx >= self.blocks.len() {
            return Err(PipelineError::MissingBlock(block_idx));
        }
        let handle = &self.blocks[block_idx];
        let ghost input = message@;
        match handle.block.exec(message) {
            Err(e) => {
                assert(self.follows(old(run)@, block_idx, Err(e), run@, Err(PipelineError::Block(e))));
                Err(PipelineError::Block(e))
            },
            Ok(outputs) => {
                let ghost answer = message_views(outputs@);
                let mut outputs = outputs;
                let ghost base = run@.frames;
                let ghost total = outputs@.len();
                while outputs.len() > 0
                    invariant
                        outputs@.len() <= total,
                        total == answer.len(),
                        block_idx < self.size(),
                        handle.to@ == self.graph()[block_idx as int],
                        message_views(outputs@) == answer.subrange(0, outputs@.len() as int),
                        run@.collector == old(run)@.collector,
                        run@.frames == base + Seq::new(
                            (total - outputs@.len()) as nat,
                            |k: int|
                                FrameModel {
                                    edges: handle.to@,
                                    next: 0,
                                    message: answer[total - 1 - k],
                                },
                        ),
                    decreases outputs@.len(),
                {
                    let ghost frames = run@.frames;
                    let ghost left = outputs@.len();
                    let ghost given = outputs@;
                    let last = outputs.pop().unwrap();
                    assert(last@ == answer[left - 1]) by {
                        assert(message_views(given)[left - 1] == given[left - 1]@);
                    }
                    run.push_frame(copy_edges(&handle.to), last);
                    assert(message_views(outputs@) =~= answer.subrange(0, outputs@.len() as int));
                    assert(run@.frames =~= base + Seq::new(
                        (total - outputs@.len()) as nat,
                        |k: int|
                            FrameModel { edges: handle.to@, next: 0, message: answer[total - 1 - k] },
                    ));
                }
                let step = if handle.block.delay_ms() > 0 {
                    Step::Wait(handle.block.delay_ms())
                } else {
                    Step::Continue
                };
                assert(run@.frames =~= old(run)@.scheduled(self.graph()[block_idx as int], answer).frames);
                assert(self.follows(old(run)@, block_idx, Ok(answer), run@, Ok(step)));
                Ok(step)
            },
        }
    }

    /// Takes one step of the traversal `run`.
    pub fn step(&self, run: &mut Traversal) -> (out: Result<Step, PipelineError>)
        ensures
            self.steps(old(run)@, final(run)@, out),
    {
        let top = match run.frames.pop() {
            None => {
                assert(run@.frames =~= old(run)@.frames);
                return Ok(Step::Finished);
            },
            Some(top) => top,
        };
        assert(top@ == old(run)@.frames.last());
        assert(run@.frames =~= old(run)@.popped().frames);
        if top.next >= top.edges.len() {
            return Ok(Step::Continue);
        }
        let edge = top.edges[top.next];
        let message = top.message.clone();
        let Frame { edges, next, message: kept } = top;
        run.frames.push(Frame { edges, next: next + 1, message: kept });
        assert(run@.frames =~= old(run)@.advanced().frames);
        match edge {
            Connection::Sink(sink) => {
                run.collect(sink, message);
                Ok(Step::Continue)
            },
            Connection::Block(block_idx) => self.handle_message(block_idx, message, run),
        }
    }
}

impl Pipeline {
    /// Fan-out: a step hands the message of the first-served frame to one
    /// more of the frame's edges and changes nothing else that was scheduled.
    /// Every frame below stays as it was, the first-served frame keeps its
    /// edges and its message, what was collected stays collected, and what a
    /// block answers is scheduled on top. So each edge of a frame gets the
    /// same message, whatever the blocks behind the edges before it did.
    pub proof fn law_fan_out(
        &self,
        before: TraversalModel,
        after: TraversalModel,
        out: Result<Step, PipelineError>,
    )
        requires
            self.steps(before, after, out),
            !before.finished(),
        ensures
            before.collector.is_prefix_of(after.collector),
            after.frames.len() >= before.frames.len() - 1,
            forall|i: int| 0 <= i < before.frames.len() - 1 ==> after.frames[i] == before.frames[i],
            before.frames.last().next < before.frames.last().edges.len() ==> {
                let top = before.frames.last();
                &&& after.frames.len() >= before.frames.len()
                &&& after.frames[before.frames.len() - 1] == (FrameModel {
                    next: (top.next + 1) as usize,
                    ..top
                })
            },
    {
        let top = before.frames.last();
        assert(before.collector.is_prefix_of(before.collector)) by {
            assert(before.collector.subrange(0, before.collector.len() as int) =~= before.collector);
        }
        if top.next < top.edges.len() {
            match top.edges[top.next as int] {
                Connection::Sink(sink) => {
                    assert(after.collector.subrange(0, before.collector.len() as int)
                        =~= before.collector);
                },
                Connection::Block(block_idx) => {
                    if block_idx < self.size() {
                        let outcome = choose|outcome: Outcome| #[trigger]
                            self.block_at(block_idx as int).allows(top.message, outcome)
                                && self.follows(before.advanced(), block_idx, outcome, after, out);
                    }
                },
            }
        }
    }

    /// A frame whose edges all lead to sinks hands its message to each of
    /// them: once all of its remaining edges are served, the collector holds
    /// one more copy of the message for each, in the order of the edges.
    pub proof fn law_sinks_get_copies(&self, before: TraversalModel, after: TraversalModel)
        requires
            !before.finished(),
            before.frames.last().edges.len() <= usize::MAX,
            before.frames.last().next < before.frames.last().edges.len(),
            before.frames.last().edges[before.frames.last().next as int] is Sink,
            self.steps(before, after, Ok(Step::Continue)),
        ensures
            after.collector == before.collector.push(
                (
                    before.frames.last().edges[before.frames.last().next as int]->Sink_0,
                    before.frames.last().message,
                ),
            ),
            after.frames.len() == before.frames.len(),
            after.frames.last().message == before.frames.last().message,
            after.frames.last().next == before.frames.last().next + 1,
    {
    }
}

/// The steps that a message costs once it has reached the block `block`: one
/// to drop the frame of the block's edges, and for each of the edges what
/// `edge_cost` says.
pub open spec fn block_cost(graph: Graph, block: usize) -> nat
    decreases rank(graph, block), 2nat, 0nat,
{
    1 + inner_cost(graph, graph[block as int], 0, rank(graph, block))
}

/// The steps that the edges from the `k`-th on cost, where only blocks of a
/// rank below `bound` are entered.
pub open spec fn inner_cost(graph: Graph, edges: Seq<Connection>, k: nat, bound: nat) -> nat
    decreases bound, 1nat, edges.len() - k,
{
    if k >= edges.len() {
        0
    } else {
        let first: nat = match edges[k as int] {
            Connection::Sink(_) => 1,
            Connection::Block(next) => if next < graph.len() && rank(graph, next) < bound {
                1 + block_cost(graph, next)
            } else {
                1
            },
        };
        first + inner_cost(graph, edges, k + 1, bound)
    }
}

/// The steps that handing a message to one edge costs: one step for the edge
/// itself, and for an edge to a block of the graph the steps that the message
/// costs from there on.
pub open spec fn edge_cost(graph: Graph, edge: Connection) -> nat {
    match edge {
        Connection::Sink(_) => 1,
        Connection::Block(next) => if next < graph.len() {
            1 + block_cost(graph, next)
        } else {
            1
        },
    }
}

/// The steps that the edges from the `k`-th on cost.
pub open spec fn edges_cost(graph: Graph, edges: Seq<Connection>, k: nat) -> nat
    decreases edges.len() - k,
{
    if k >= edges.len() {
        0
    } else {
        edge_cost(graph, edges[k as int]) + edges_cost(graph, edges, k + 1)
    }
}

/// The steps that a frame costs: one to drop it, and the cost of the edges
/// that are not served yet.
pub open spec fn frame_cost(graph: Graph, frame: FrameModel) -> nat {
    1 + edges_cost(graph, frame.edges, frame.next as nat)
}

/// The steps that a stack of frames costs.
pub open spec fn frames_cost(graph: Graph, frames: Seq<FrameModel>) -> nat
    decreases frames.len(),
{
    if frames.len() == 0 {
        0
    } else {
        frames_cost(graph, frames.drop_last()) + frame_cost(graph, frames.last())
    }
}

/// In a graph without cycles, the edges of a block lead to blocks of lower
/// rank, so that all of them are entered.
proof fn lemma_inner_cost(graph: Graph, block: usize, k: nat)
    requires
        !has_cycle(graph),
        block < graph.len(),
    ensures
        inner_cost(graph, graph[block as int], k, rank(graph, block)) == edges_cost(
            graph,
            graph[block as int],
            k,
        ),
    decreases graph[block as int].len() - k,
{
    let edges = graph[block as int];
    if k < edges.len() {
        match edges[k as int] {
            Connection::Block(next) => {
                if next < graph.len() {
                    assert(edges.contains(Connection::Block(next)));
                    lemma_rank_falls(graph, block, next);
                }
            },
            Connection::Sink(_) => {},
        }
        lemma_inner_cost(graph, block, k + 1);
    }
}

impl Pipeline {
    /// A pipeline that was built without leave to ignore cycles holds none,
    /// and all its edges to blocks lead to blocks that it has.
    pub proof fn law_built_pipeline_has_no_cycle(configs: Seq<BlockConfig>, out: Result<Pipeline, PipelineError>)
        requires
            configs.len() <= usize::MAX,
            Self::built(configs, false, out),
            out is Ok,
        ensures
            !has_cycle(out->Ok_0.graph()),
            closed_graph(out->Ok_0.graph()),
    {
        crate::graph::law_cycles_reported_iff_cyclic(config_graph(configs));
    }

    /// The steps that are left of a traversal, at most, where the graph of
    /// the blocks holds no cycle.
    pub open spec fn cost(&self, state: TraversalModel) -> nat {
        frames_cost(self.graph(), state.frames)
    }

    /// In a pipeline whose graph holds no cycle, every step but the one that
    /// finds the traversal finished lowers the cost of the traversal. The
    /// cost is a natural number, so a traversal is finished after at most as
    /// many steps as it costs at its start.
    pub proof fn law_steps_lower_the_cost(
        &self,
        before: TraversalModel,
        after: TraversalModel,
        out: Result<Step, PipelineError>,
    )
        requires
            !has_cycle(self.graph()),
            self.steps(before, after, out),
            !before.finished(),
            before.frames.last().edges.len() <= usize::MAX,
        ensures
            self.cost(after) < self.cost(before),
    {
        let graph = self.graph();
        let top = before.frames.last();
        let below = before.frames.drop_last();
        if top.next < top.edges.len() {
            let served = FrameModel { next: (top.next + 1) as usize, ..top };
            let advanced = before.advanced();
            assert(advanced.frames.drop_last() =~= below);
            assert(advanced.frames.last() == served);
            assert(frames_cost(graph, advanced.frames) + edge_cost(graph, top.edges[top.next as int])
                == frames_cost(graph, before.frames));
            match top.edges[top.next as int] {
                Connection::Sink(sink) => {},
                Connection::Block(block_idx) => {
                    if block_idx < self.size() {
                        let outcome = choose|outcome: Outcome| #[trigger]
                            self.block_at(block_idx as int).allows(top.message, outcome)
                                && self.follows(advanced, block_idx, outcome, after, out);
                        crate::block::lemma_at_most_one_answer(
                            self.block_at(block_idx as int),
                            top.message,
                            outcome,
                        );
                        match outcome {
                            Ok(outputs) => {
                                lemma_inner_cost(graph, block_idx, 0);
                                if outputs.len() == 1 {
                                    let added = FrameModel {
                                        edges: graph[block_idx as int],
                                        next: 0,
                                        message: outputs[0],
                                    };
                                    assert(after.frames =~= advanced.frames.push(added));
                                    assert(after.frames.drop_last() =~= advanced.frames);
                                    assert(frame_cost(graph, added) == block_cost(graph, block_idx));
                                } else {
                                    assert(after.frames =~= advanced.frames);
                                }
                            },
                            Err(e) => {},
                        }
                    }
                },
            }
        }
    }
}

} // verus!
