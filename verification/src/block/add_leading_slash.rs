use vstd::prelude::*;
use crate::block::{pass, single, Block, BlockError, Outcome};
use crate::message::{InternalMessage, MessageModel};

verus! {

/// Puts a `/` in front of a topic that does not begin with one.
#[derive(Debug)]
pub struct AddLeadingSlashBlock {}

/// `topic`, with a `/` put in front where it does not begin with one.
pub open spec fn with_leading_slash(topic: Seq<char>) -> Seq<char> {
    if topic.len() > 0 && topic[0] == '/' {
        topic
    } else {
        seq!['/'] + topic
    }
}

impl AddLeadingSlashBlock {
    /// The answer to `input`.
    pub open spec fn outcome(input: MessageModel) -> Outcome {
        pass(MessageModel { topic: with_leading_slash(input.topic), ..input })
    }
}

impl Block for AddLeadingSlashBlock {
    open spec fn allows(&self, input: MessageModel, output: Outcome) -> bool {
        output == Self::outcome(input)
    }

    fn exec(&self, message: InternalMessage) -> (out: Result<Vec<InternalMessage>, BlockError>) {
        let mut message = message;
        proof {
            reveal_strlit("/");
        }
        if !crate::text::starts_with(message.topic.as_str(), "/") {
            assert(!(message.topic@.len() > 0 && message.topic@[0] == '/')) by {
                if message.topic@.len() > 0 && message.topic@[0] == '/' {
                    assert(message.topic@.subrange(0, 1) =~= "/"@);
                }
            }
            assert("/"@ =~= seq!['/']);
            message.topic = crate::text::concat("/", message.topic.as_str());
        } else {
            assert(message.topic@.subrange(0, 1)[0] == '/');
        }
        Ok(single(message))
    }
}

} // verus!
