use vstd::prelude::*;

use crate::error::{ErrorV, LibError};
use crate::model::{json_strings, texts, tokens_view, words_to_json, words_view, Data, DataV, Json, JsonV};
use crate::pipeline_builder::Processor;

verus! {

/// The terminal stage: turns a token sequence into an array of strings, and a
/// text value into a string.
#[derive(Debug, Clone, Copy)]
pub struct PostProcessor;

impl PostProcessor {
    pub fn new() -> (r: PostProcessor) {
        PostProcessor
    }
}

impl Processor for PostProcessor {
    open spec fn spec_process(&self, input: DataV) -> Result<DataV, ErrorV> {
        match input {
            DataV::VecCowStr(v) => Ok(DataV::Json(json_strings(texts(v)))),
            DataV::CowStr(s) => Ok(DataV::Json(JsonV::String(s))),
            _ => Err(ErrorV::InvalidInput("PostProcessor"@, "Data::CowStr or Data::VecCowStr"@)),
        }
    }

    open spec fn spec_name(&self) -> Seq<char> {
        "PostProcessor"@
    }

    fn process<'a>(&self, input: Data<'a>) -> (r: Result<Data<'a>, LibError>) {
        match input {
            Data::VecCowStr(v) => {
                assert(texts(tokens_view(v@)) =~= words_view(v@));
                Ok(Data::Json(words_to_json(&v)))
            },
            Data::CowStr(s) => Ok(Data::Json(Json::String(s.to_owned_string()))),
            _ => Err(LibError::invalid_input("PostProcessor", "Data::CowStr or Data::VecCowStr")),
        }
    }

    fn name(&self) -> (r: String) {
        String::from_str("PostProcessor")
    }
}

} // verus!
