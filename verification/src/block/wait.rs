use vstd::prelude::*;
use crate::block::{pass, single, Block, BlockError, Outcome};
use crate::message::{InternalMessage, MessageModel};

verus! {

/// Hands every message on after a rest of `config` milliseconds. The block
/// itself only hands the message on; the rest is taken by whoever drives the
/// pipeline.
#[derive(Debug)]
pub struct WaitBlock {
    pub config: u64,
}

impl WaitBlock {
    /// The answer to `input`.
    pub open spec fn outcome(input: MessageModel) -> Outcome {
        pass(input)
    }
}

impl Block for WaitBlock {
    open spec fn allows(&self, input: MessageModel, output: Outcome) -> bool {
        output == Self::outcome(input)
    }

    fn exec(&self, message: InternalMessage) -> (out: Result<Vec<InternalMessage>, BlockError>) {
        Ok(single(message))
    }
}

} // verus!
