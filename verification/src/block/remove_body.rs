use vstd::prelude::*;
use crate::block::{pass, single, Block, BlockError, Outcome};
use crate::message::{DataModel, InternalMessage, InternalMessageData, MessageModel};

verus! {

/// Takes the payload away.
#[derive(Debug)]
pub struct RemoveBodyBlock {}

impl RemoveBodyBlock {
    /// The answer to `input`.
    pub open spec fn outcome(input: MessageModel) -> Outcome {
        pass(MessageModel { data: DataModel::Empty, ..input })
    }
}

impl Block for RemoveBodyBlock {
    open spec fn allows(&self, input: MessageModel, output: Outcome) -> bool {
        output == Self::outcome(input)
    }

    fn exec(&self, message: InternalMessage) -> (out: Result<Vec<InternalMessage>, BlockError>) {
        let mut message = message;
        message.data = InternalMessageData::Empty;
        Ok(single(message))
    }
}

} // verus!
