use vstd::prelude::*;
use crate::block::{filtered, pass_if, Block, BlockError, Outcome};
use crate::message::{InternalMessage, MessageModel};

verus! {

#[verifier::external_type_specification]
#[verifier::external_body]
pub struct ExRegex(regex::Regex);

#[verifier::external_type_specification]
#[verifier::external_body]
pub struct ExRegexError(regex::Error);

/// The expression that `regex::Regex::new` compiles from a pattern, where the
/// pattern is one.
pub uninterp spec fn regex_compiled(pattern: Seq<char>) -> Option<regex::Regex>;

/// Whether `regex::Regex::is_match` finds a match of the expression anywhere
/// in the text.
pub uninterp spec fn regex_is_match(expression: regex::Regex, text: Seq<char>) -> bool;

/// Calls `regex::Regex::new`. What it compiles depends on the pattern alone.
#[verifier::external_body]
fn regex_new(pattern: &str) -> (out: Result<regex::Regex, regex::Error>)
    ensures
        match out {
            Ok(expression) => regex_compiled(pattern@) == Some(expression),
            Err(_) => regex_compiled(pattern@) is None,
        },
{
    regex::Regex::new(pattern)
}

/// Calls `regex::Regex::is_match`. Its answer depends on the expression and
/// the text alone.
#[verifier::external_body]
fn regex_match(expression: &regex::Regex, text: &str) -> (out: bool)
    ensures
        out == regex_is_match(*expression, text@),
{
    expression.is_match(text)
}

/// How a topic is tested.
#[derive(Debug)]
pub enum MatchTopicConfig {
    /// The topic is the pattern.
    Exact(String),
    /// The topic begins with the pattern.
    StartsWith(String),
    /// The topic ends with the pattern.
    EndsWith(String),
    /// The regular expression finds a match in the topic.
    Regex(String),
}

/// Hands on the messages whose topic passes the test, and drops the others.
#[derive(Debug)]
pub struct MatchTopicBlock {
    pub config: MatchTopicConfig,
    pub regex: Option<regex::Regex>,
}

impl MatchTopicBlock {
    /// The block for a configuration: a pattern that is no regular expression
    /// is refused, and only a test by regular expression holds one.
    pub open spec fn spec_new(config: MatchTopicConfig) -> Result<MatchTopicBlock, BlockError> {
        match config {
            MatchTopicConfig::Regex(pattern) => match regex_compiled(pattern@) {
                Some(expression) => Ok(MatchTopicBlock { config, regex: Some(expression) }),
                None => Err(BlockError::InvalidPattern),
            },
            _ => Ok(MatchTopicBlock { config, regex: None }),
        }
    }

    /// Whether `topic` passes the test, where the block can tell.
    pub open spec fn verdict(self, topic: Seq<char>) -> Result<bool, BlockError> {
        match self.config {
            MatchTopicConfig::Exact(pattern) => Ok(pattern@ == topic),
            MatchTopicConfig::StartsWith(pattern) => Ok(pattern@.is_prefix_of(topic)),
            MatchTopicConfig::EndsWith(pattern) => Ok(pattern@.is_suffix_of(topic)),
            MatchTopicConfig::Regex(_) => match self.regex {
                Some(expression) => Ok(regex_is_match(expression, topic)),
                None => Err(BlockError::MissingPattern),
            },
        }
    }

    /// The answer to `input`.
    pub open spec fn outcome(self, input: MessageModel) -> Outcome {
        match self.verdict(input.topic) {
            Ok(keep) => pass_if(keep, input),
            Err(e) => Err(e),
        }
    }

    /// Builds the block, compiling the pattern of a test by regular
    /// expression.
    pub fn new(config: MatchTopicConfig) -> (out: Result<MatchTopicBlock, BlockError>)
        ensures
            out == Self::spec_new(config),
    {
        let regex = match &config {
            MatchTopicConfig::Regex(pattern) => match regex_new(pattern.as_str()) {
                Ok(expression) => Some(expression),
                Err(_) => {
                    return Err(BlockError::InvalidPattern);
                },
            },
            _ => None,
        };
        Ok(MatchTopicBlock { config, regex })
    }

    /// Tests a topic.
    pub fn is_match(&self, topic: &str) -> (out: Result<bool, BlockError>)
        ensures
            out == self.verdict(topic@),
    {
        match &self.config {
            MatchTopicConfig::Exact(pattern) => Ok(crate::text::same_text(pattern.as_str(), topic)),
            MatchTopicConfig::StartsWith(pattern) => Ok(
                crate::text::starts_with(topic, pattern.as_str()),
            ),
            MatchTopicConfig::EndsWith(pattern) => Ok(crate::text::ends_with(topic, pattern.as_str())),
            MatchTopicConfig::Regex(_) => match &self.regex {
                Some(expression) => Ok(regex_match(expression, topic)),
                None => Err(BlockError::MissingPattern),
            },
        }
    }
}

impl Block for MatchTopicBlock {
    open spec fn allows(&self, input: MessageModel, output: Outcome) -> bool {
        output == self.outcome(input)
    }

    fn exec(&self, message: InternalMessage) -> (out: Result<Vec<InternalMessage>, BlockError>) {
        match self.is_match(message.topic.as_str()) {
            Ok(keep) => Ok(filtered(message, keep)),
            Err(e) => Err(e),
        }
    }
}

/// A test for the exact topic hands a message on if and only if its topic is
/// the pattern; a test for the start or the end of the topic does so if and
/// only if the topic begins or ends with the pattern. None of them fails, and
/// a message that is handed on is handed on as it came.
pub proof fn law_topic_tests(block: MatchTopicBlock, input: MessageModel)
    ensures
        block.config matches MatchTopicConfig::Exact(pattern) ==> block.outcome(input) == pass_if(
            pattern@ == input.topic,
            input,
        ),
        block.config matches MatchTopicConfig::StartsWith(pattern) ==> block.outcome(input) == pass_if(
            input.topic.len() >= pattern@.len() && input.topic.subrange(0, pattern@.len() as int)
                == pattern@,
            input,
        ),
        block.config matches MatchTopicConfig::EndsWith(pattern) ==> block.outcome(input) == pass_if(
            input.topic.len() >= pattern@.len() && input.topic.subrange(
                input.topic.len() - pattern@.len(),
                input.topic.len() as int,
            ) == pattern@,
            input,
        ),
        crate::block::pass(input) != crate::block::dropped(),
{
    assert(crate::block::pass(input)->Ok_0.len() == 1);
}

} // verus!
