use vstd::prelude::*;
use crate::block::{pass, single, Block, BlockError, Outcome};
use crate::error::ConversionError;
use crate::message::{DataModel, InternalMessage, InternalMessageData, MessageModel};

verus! {

/// The format that a payload is converted to.
#[derive(Clone, Copy, Debug, PartialEq, Eq, Structural)]
pub enum ConvertBodyConfig {
    Empty,
    JSON,
    OSC,
    Binary,
    String,
}

/// Converts the payload to one format.
#[derive(Debug)]
pub struct ConvertBodyBlock {
    pub config: ConvertBodyConfig,
}

impl ConvertBodyBlock {
    /// The payload in the target format, or why it cannot be had.
    pub open spec fn converted(self, data: DataModel) -> Result<DataModel, ConversionError> {
        match self.config {
            ConvertBodyConfig::Empty => data.to_empty(),
            ConvertBodyConfig::JSON => data.to_json(),
            ConvertBodyConfig::OSC => data.to_osc(),
            ConvertBodyConfig::Binary => data.to_binary(),
            ConvertBodyConfig::String => data.to_string(),
        }
    }

    /// The answer to `input`.
    pub open spec fn outcome(self, input: MessageModel) -> Outcome {
        match self.converted(input.data) {
            Ok(data) => pass(MessageModel { data, ..input }),
            Err(e) => Err(BlockError::Conversion(e)),
        }
    }
}

impl Block for ConvertBodyBlock {
    open spec fn allows(&self, input: MessageModel, output: Outcome) -> bool {
        output == self.outcome(input)
    }

    fn exec(&self, message: InternalMessage) -> (out: Result<Vec<InternalMessage>, BlockError>) {
        let InternalMessage { source_connector_idx, topic, data } = message;
        let converted = match self.config {
            ConvertBodyConfig::Empty => data.to_empty(),
            ConvertBodyConfig::JSON => data.to_json(),
            ConvertBodyConfig::OSC => data.to_osc(),
            ConvertBodyConfig::Binary => data.to_binary(),
            ConvertBodyConfig::String => data.to_string(),
        };
        match converted {
            Ok(data) => Ok(single(InternalMessage { source_connector_idx, topic, data })),
            Err(e) => Err(BlockError::Conversion(e)),
        }
    }
}

} // verus!
