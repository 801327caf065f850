use vstd::prelude::*;

use crate::error::{ErrorV, LibError};
use crate::model::{CowStr, Data, DataV};
use crate::pipeline_builder::Processor;

verus! {

/// The entry stage: turns the raw input text into a text value, unchanged.
#[derive(Debug, Clone, Copy)]
pub struct PreProcessor;

impl PreProcessor {
    pub fn new() -> (r: PreProcessor) {
        PreProcessor
    }
}

impl Processor for PreProcessor {
    open spec fn spec_process(&self, input: DataV) -> Result<DataV, ErrorV> {
        match input {
            DataV::OwnedStr(s) => Ok(DataV::CowStr(s)),
            _ => Err(ErrorV::InvalidInput("PreProcessor"@, "Data::OwnedStr"@)),
        }
    }

    open spec fn spec_name(&self) -> Seq<char> {
        "PreProcessor"@
    }

    fn process<'a>(&self, input: Data<'a>) -> (r: Result<Data<'a>, LibError>) {
        match input {
            Data::OwnedStr(s) => Ok(Data::CowStr(CowStr::Owned(s))),
            _ => Err(LibError::invalid_input("PreProcessor", "Data::OwnedStr")),
        }
    }

    fn name(&self) -> (r: String) {
        String::from_str("PreProcessor")
    }
}

} // verus!
