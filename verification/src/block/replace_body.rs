use vstd::prelude::*;
use crate::block::{pass, single, Block, BlockError, Outcome};
use crate::json::JsonValue;
use crate::message::{DataModel, InternalMessage, InternalMessageData, MessageModel};

verus! {

/// Gives every message the same JSON payload.
#[derive(Debug)]
pub struct ReplaceBodyBlock {
    pub config: JsonValue,
}

impl ReplaceBodyBlock {
    /// The answer to `input`.
    pub open spec fn outcome(self, input: MessageModel) -> Outcome {
        pass(MessageModel { data: DataModel::Json(self.config@), ..input })
    }
}

impl Block for ReplaceBodyBlock {
    open spec fn allows(&self, input: MessageModel, output: Outcome) -> bool {
        output == self.outcome(input)
    }

    fn exec(&self, message: InternalMessage) -> (out: Result<Vec<InternalMessage>, BlockError>) {
        let mut message = message;
        message.data = InternalMessageData::Json(self.config.clone());
        Ok(single(message))
    }
}

} // verus!
