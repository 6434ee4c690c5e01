use vstd::prelude::*;
use crate::block::{pass, single, Block, BlockError, Outcome};
use crate::message::{InternalMessage, MessageModel};
use crate::text::without_leading;

verus! {

/// Strips every `/` that stands at the start of a topic.
#[derive(Debug)]
pub struct RemoveLeadingSlashBlock {}

impl RemoveLeadingSlashBlock {
    /// The answer to `input`.
    pub open spec fn outcome(input: MessageModel) -> Outcome {
        pass(MessageModel { topic: without_leading(input.topic, '/'), ..input })
    }
}

impl Block for RemoveLeadingSlashBlock {
    open spec fn allows(&self, input: MessageModel, output: Outcome) -> bool {
        output == Self::outcome(input)
    }

    fn exec(&self, message: InternalMessage) -> (out: Result<Vec<InternalMessage>, BlockError>) {
        let mut message = message;
        message.topic = crate::text::strip_leading(message.topic.as_str(), '/');
        Ok(single(message))
    }
}

} // verus!
