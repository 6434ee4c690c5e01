//! The processing blocks: stateless operators that answer one message with
//! zero or more messages.

pub mod add_leading_slash;
pub mod convert_body;
pub mod lua_filter;
pub mod match_topic;
pub mod remove_body;
pub mod remove_leading_slash;
pub mod replace_body;
pub mod replace_topic;
pub mod wait;

use vstd::prelude::*;
use crate::error::ConversionError;
use crate::json::JsonValue;
use crate::message::{message_views, InternalMessage, MessageModel};
use add_leading_slash::AddLeadingSlashBlock;
use convert_body::{ConvertBodyBlock, ConvertBodyConfig};
use lua_filter::{LuaFilterBlock, LuaFilterConfig};
use match_topic::{MatchTopicBlock, MatchTopicConfig};
use remove_body::RemoveBodyBlock;
use remove_leading_slash::RemoveLeadingSlashBlock;
use replace_body::ReplaceBodyBlock;
use replace_topic::ReplaceTopicBlock;
use wait::WaitBlock;

verus! {

/// An edge of the routing graph: to a block, or out to a sink connector.
#[derive(Clone, Copy, Debug, PartialEq, Eq, Structural)]
pub enum Connection {
    Block(usize),
    Sink(usize),
}

/// Why a block could not be built or could not answer a message.
#[derive(Debug, PartialEq)]
pub enum BlockError {
    /// The payload could not be converted.
    Conversion(ConversionError),
    /// The pattern of a topic filter is no regular expression.
    InvalidPattern,
    /// A topic filter by regular expression that holds no compiled expression.
    MissingPattern,
    /// The script of a filter is still in a file.
    UnresolvedScript,
    /// The script interpreter reported an error, with its words.
    Script(String),
}

/// What a block answered, as models.
pub type Outcome = Result<Seq<MessageModel>, BlockError>;

/// The model of what a block answered.
pub open spec fn outcome_view(out: Result<Vec<InternalMessage>, BlockError>) -> Outcome {
    match out {
        Ok(messages) => Ok(message_views(messages@)),
        Err(e) => Err(e),
    }
}

/// The answer that hands one message on.
pub open spec fn pass(message: MessageModel) -> Outcome {
    Ok(seq![message])
}

/// The answer that drops the message.
pub open spec fn dropped() -> Outcome {
    Ok(Seq::empty())
}

/// Hands `message` on if `keep` holds, and drops it otherwise.
pub open spec fn pass_if(keep: bool, message: MessageModel) -> Outcome {
    if keep {
        pass(message)
    } else {
        dropped()
    }
}

/// A list that holds `message` alone.
pub fn single(message: InternalMessage) -> (out: Vec<InternalMessage>)
    ensures
        message_views(out@) == seq![message@],
{
    let mut out: Vec<InternalMessage> = Vec::new();
    out.push(message);
    assert(message_views(out@) =~= seq![message@]);
    out
}

/// A list that holds no message.
pub fn none() -> (out: Vec<InternalMessage>)
    ensures
        message_views(out@) == Seq::<MessageModel>::empty(),
{
    let out: Vec<InternalMessage> = Vec::new();
    assert(message_views(out@) =~= Seq::<MessageModel>::empty());
    out
}

/// What a filter answers once its verdict on `message` is known.
pub fn filtered(message: InternalMessage, keep: bool) -> (out: Vec<InternalMessage>)
    ensures
        Ok::<Seq<MessageModel>, BlockError>(message_views(out@)) == pass_if(keep, message@),
{
    if keep {
        single(message)
    } else {
        none()
    }
}

/// A stateless operator on messages.
pub trait Block {
    /// Whether the block may answer `input` with `output`.
    spec fn allows(&self, input: MessageModel, output: Outcome) -> bool;

    /// Answers `message` with zero or more messages.
    fn exec(&self, message: InternalMessage) -> (out: Result<Vec<InternalMessage>, BlockError>)
        ensures
            self.allows(message@, outcome_view(out)),
    ;
}

/// The configuration of one block, with its outbound edges.
#[derive(Debug)]
#[allow(inconsistent_fields)]
pub enum BlockConfig {
    AddLeadingSlash { to: Vec<Connection> },
    RemoveLeadingSlash { to: Vec<Connection> },
    RemoveBody { to: Vec<Connection> },
    ReplaceBody { to: Vec<Connection>, config: JsonValue },
    MatchTopic { to: Vec<Connection>, config: MatchTopicConfig },
    ReplaceTopic { to: Vec<Connection>, config: String },
    LuaFilter { to: Vec<Connection>, config: LuaFilterConfig },
    ConvertBody { to: Vec<Connection>, config: ConvertBodyConfig },
    Wait { to: Vec<Connection>, config: u64 },
}

impl BlockConfig {
    /// The outbound edges that the configuration names.
    pub open spec fn edges(self) -> Seq<Connection> {
        match self {
            BlockConfig::AddLeadingSlash { to } => to@,
            BlockConfig::RemoveLeadingSlash { to } => to@,
            BlockConfig::RemoveBody { to } => to@,
            BlockConfig::ReplaceBody { to, .. } => to@,
            BlockConfig::MatchTopic { to, .. } => to@,
            BlockConfig::ReplaceTopic { to, .. } => to@,
            BlockConfig::LuaFilter { to, .. } => to@,
            BlockConfig::ConvertBody { to, .. } => to@,
            BlockConfig::Wait { to, .. } => to@,
        }
    }
}

impl BlockConfig {
    /// The outbound edges that the configuration names.
    pub fn to(&self) -> (out: &Vec<Connection>)
        ensures
            out@ == self.edges(),
    {
        match self {
            BlockConfig::AddLeadingSlash { to } => to,
            BlockConfig::RemoveLeadingSlash { to } => to,
            BlockConfig::RemoveBody { to } => to,
            BlockConfig::ReplaceBody { to, .. } => to,
            BlockConfig::MatchTopic { to, .. } => to,
            BlockConfig::ReplaceTopic { to, .. } => to,
            BlockConfig::LuaFilter { to, .. } => to,
            BlockConfig::ConvertBody { to, .. } => to,
            BlockConfig::Wait { to, .. } => to,
        }
    }
}

/// Any block of the catalogue.
#[derive(Debug)]
pub enum AnyBlock {
    AddLeadingSlash(AddLeadingSlashBlock),
    RemoveLeadingSlash(RemoveLeadingSlashBlock),
    RemoveBody(RemoveBodyBlock),
    ReplaceBody(ReplaceBodyBlock),
    MatchTopic(MatchTopicBlock),
    ReplaceTopic(ReplaceTopicBlock),
    LuaFilter(LuaFilterBlock),
    ConvertBody(ConvertBodyBlock),
    Wait(WaitBlock),
}

impl AnyBlock {
    /// For how many milliseconds the pipeline rests after this block has
    /// answered.
    pub open spec fn spec_delay_ms(self) -> u64 {
        match self {
            AnyBlock::Wait(block) => block.config,
            _ => 0,
        }
    }

    /// For how many milliseconds the pipeline rests after this block has
    /// answered.
    pub fn delay_ms(&self) -> (out: u64)
        ensures
            out == self.spec_delay_ms(),
    {
        match self {
            AnyBlock::Wait(block) => block.config,
            _ => 0,
        }
    }
}

impl Block for AnyBlock {
    open spec fn allows(&self, input: MessageModel, output: Outcome) -> bool {
        match self {
            AnyBlock::AddLeadingSlash(block) => block.allows(input, output),
            AnyBlock::RemoveLeadingSlash(block) => block.allows(input, output),
            AnyBlock::RemoveBody(block) => block.allows(input, output),
            AnyBlock::ReplaceBody(block) => block.allows(input, output),
            AnyBlock::MatchTopic(block) => block.allows(input, output),
            AnyBlock::ReplaceTopic(block) => block.allows(input, output),
            AnyBlock::LuaFilter(block) => block.allows(input, output),
            AnyBlock::ConvertBody(block) => block.allows(input, output),
            AnyBlock::Wait(block) => block.allows(input, output),
        }
    }

    fn exec(&self, message: InternalMessage) -> (out: Result<Vec<InternalMessage>, BlockError>) {
        match self {
            AnyBlock::AddLeadingSlash(block) => block.exec(message),
            AnyBlock::RemoveLeadingSlash(block) => block.exec(message),
            AnyBlock::RemoveBody(block) => block.exec(message),
            AnyBlock::ReplaceBody(block) => block.exec(message),
            AnyBlock::MatchTopic(block) => block.exec(message),
            AnyBlock::ReplaceTopic(block) => block.exec(message),
            AnyBlock::LuaFilter(block) => block.exec(message),
            AnyBlock::ConvertBody(block) => block.exec(message),
            AnyBlock::Wait(block) => block.exec(message),
        }
    }
}

/// A block together with its outbound edges.
#[derive(Debug)]
pub struct BlockHandle {
    pub block: AnyBlock,
    pub to: Vec<Connection>,
}

/// What `make_block` builds from a configuration, or why it builds nothing.
pub open spec fn make_block_spec(config: BlockConfig) -> Result<AnyBlock, BlockError> {
    match config {
        BlockConfig::AddLeadingSlash { .. } => Ok(AnyBlock::AddLeadingSlash(AddLeadingSlashBlock {  })),
        BlockConfig::RemoveLeadingSlash { .. } => Ok(
            AnyBlock::RemoveLeadingSlash(RemoveLeadingSlashBlock {  }),
        ),
        BlockConfig::RemoveBody { .. } => Ok(AnyBlock::RemoveBody(RemoveBodyBlock {  })),
        BlockConfig::ReplaceBody { config, .. } => Ok(AnyBlock::ReplaceBody(ReplaceBodyBlock { config })),
        BlockConfig::MatchTopic { config, .. } => match MatchTopicBlock::spec_new(config) {
            Ok(block) => Ok(AnyBlock::MatchTopic(block)),
            Err(e) => Err(e),
        },
        BlockConfig::ReplaceTopic { config, .. } => Ok(
            AnyBlock::ReplaceTopic(ReplaceTopicBlock { config }),
        ),
        BlockConfig::LuaFilter { config, .. } => match LuaFilterBlock::spec_new(config) {
            Ok(block) => Ok(AnyBlock::LuaFilter(block)),
            Err(e) => Err(e),
        },
        BlockConfig::ConvertBody { config, .. } => Ok(AnyBlock::ConvertBody(ConvertBodyBlock { config })),
        BlockConfig::Wait { config, .. } => Ok(AnyBlock::Wait(WaitBlock { config })),
    }
}

/// Builds the block that a configuration describes.
pub fn make_block(config: BlockConfig) -> (out: Result<BlockHandle, BlockError>)
    ensures
        match out {
            Ok(handle) => make_block_spec(config) == Ok::<AnyBlock, BlockError>(handle.block)
                && handle.to@ == config.edges(),
            Err(e) => make_block_spec(config) == Err::<AnyBlock, BlockError>(e),
        },
{
    match config {
        BlockConfig::AddLeadingSlash { to } => Ok(
            BlockHandle { block: AnyBlock::AddLeadingSlash(AddLeadingSlashBlock {  }), to },
        ),
        BlockConfig::RemoveLeadingSlash { to } => Ok(
            BlockHandle { block: AnyBlock::RemoveLeadingSlash(RemoveLeadingSlashBlock {  }), to },
        ),
        BlockConfig::RemoveBody { to } => Ok(
            BlockHandle { block: AnyBlock::RemoveBody(RemoveBodyBlock {  }), to },
        ),
        BlockConfig::ReplaceBody { to, config } => Ok(
            BlockHandle { block: AnyBlock::ReplaceBody(ReplaceBodyBlock { config }), to },
        ),
        BlockConfig::MatchTopic { to, config } => match MatchTopicBlock::new(config) {
            Ok(block) => Ok(BlockHandle { block: AnyBlock::MatchTopic(block), to }),
            Err(e) => Err(e),
        },
        BlockConfig::ReplaceTopic { to, config } => Ok(
            BlockHandle { block: AnyBlock::ReplaceTopic(ReplaceTopicBlock { config }), to },
        ),
        BlockConfig::LuaFilter { to, config } => match LuaFilterBlock::new(config) {
            Ok(block) => Ok(BlockHandle { block: AnyBlock::LuaFilter(block), to }),
            Err(e) => Err(e),
        },
        BlockConfig::ConvertBody { to, config } => Ok(
            BlockHandle { block: AnyBlock::ConvertBody(ConvertBodyBlock { config }), to },
        ),
        BlockConfig::Wait { to, config } => Ok(
            BlockHandle { block: AnyBlock::Wait(WaitBlock { config }), to },
        ),
    }
}

/// No block of the catalogue answers a message with more than one message.
pub proof fn lemma_at_most_one_answer(block: AnyBlock, input: MessageModel, output: Outcome)
    requires
        block.allows(input, output),
    ensures
        output matches Ok(messages) ==> messages.len() <= 1,
{
    assert(pass(input)->Ok_0.len() == 1);
    assert(dropped()->Ok_0.len() == 0);
    match block {
        AnyBlock::AddLeadingSlash(b) => {
            assert(output == AddLeadingSlashBlock::outcome(input));
        },
        AnyBlock::RemoveLeadingSlash(b) => {
            assert(output == RemoveLeadingSlashBlock::outcome(input));
        },
        AnyBlock::RemoveBody(b) => {
            assert(output == RemoveBodyBlock::outcome(input));
        },
        AnyBlock::ReplaceBody(b) => {
            assert(output == b.outcome(input));
        },
        AnyBlock::MatchTopic(b) => {
            assert(output == b.outcome(input));
        },
        AnyBlock::ReplaceTopic(b) => {
            assert(output == b.outcome(input));
        },
        AnyBlock::LuaFilter(b) => {},
        AnyBlock::ConvertBody(b) => {
            assert(output == b.outcome(input));
        },
        AnyBlock::Wait(b) => {
            assert(output == WaitBlock::outcome(input));
        },
    }
}

} // verus!
