use vstd::prelude::*;
use crate::block::{pass, single, Block, BlockError, Outcome};
use crate::message::{InternalMessage, MessageModel};

verus! {

/// Gives every message the same topic.
#[derive(Debug)]
pub struct ReplaceTopicBlock {
    pub config: String,
}

impl ReplaceTopicBlock {
    /// The answer to `input`.
    pub open spec fn outcome(self, input: MessageModel) -> Outcome {
        pass(MessageModel { topic: self.config@, ..input })
    }
}

impl Block for ReplaceTopicBlock {
    open spec fn allows(&self, input: MessageModel, output: Outcome) -> bool {
        output == self.outcome(input)
    }

    fn exec(&self, message: InternalMessage) -> (out: Result<Vec<InternalMessage>, BlockError>) {
        let mut message = message;
        message.topic = self.config.clone();
        Ok(single(message))
    }
}

} // verus!
