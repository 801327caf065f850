use vstd::prelude::*;

use crate::error::{ErrorV, LibError};
use crate::model::{data_json, Data, DataV, Json, JsonV, ProcessingRequest, ProcessingResult};
use crate::pipeline_builder::{Pipeline, Processor};

verus! {

/// The content delivered for a pipeline outcome: the structured form of the
/// final value, or the error.
pub open spec fn delivered(r: Result<DataV, ErrorV>) -> Result<JsonV, ErrorV> {
    match r {
        Ok(d) => Ok(data_json(d)),
        Err(e) => Err(e),
    }
}

/// A result's content seen through the views of its value or error.
pub open spec fn content_view(c: Result<Json, LibError>) -> Result<JsonV, ErrorV> {
    match c {
        Ok(j) => Ok(j@),
        Err(e) => Err(e@),
    }
}

/// What the pipeline delivers for one request: the request's raw text folded
/// through the stages.
pub open spec fn request_outcome<P: Processor>(pipeline: Pipeline<P>, input: Seq<char>) -> Result<
    JsonV,
    ErrorV,
> {
    delivered(pipeline.spec_process(DataV::OwnedStr(input)))
}

/// Runs one request through the pipeline. A failing stage becomes this
/// request's own error result; the identifier is echoed unchanged.
pub fn process_request<P: Processor>(pipeline: &Pipeline<P>, request: ProcessingRequest) -> (r:
    ProcessingResult)
    ensures
        r.id@ == request.id@,
        content_view(r.content) == request_outcome(*pipeline, request.input@),
{
    let ProcessingRequest { id, input } = request;
    let content = match pipeline.process(Data::OwnedStr(input)) {
        Ok(data) => Ok(data.into_json()),
        Err(e) => Err(e),
    };
    ProcessingResult { id, content }
}

/// Runs every request through the pipeline, one after the other: one result
/// for each request, at its position and with its identifier.
pub fn process_requests<P: Processor>(pipeline: &Pipeline<P>, requests: Vec<ProcessingRequest>) -> (r:
    Vec<ProcessingResult>)
    ensures
        r@.len() == requests@.len(),
        forall|i: int|
            0 <= i < r@.len() ==> (#[trigger] r@[i]).id@ == requests@[i].id@ && content_view(
                r@[i].content,
            ) == request_outcome(*pipeline, requests@[i].input@),
{
    let ghost all = requests@;
    let mut r: Vec<ProcessingResult> = Vec::new();
    for request in it: requests.into_iter()
        invariant
            it.seq() == all,
            r@.len() == it.index(),
            forall|k: int|
                0 <= k < r@.len() ==> (#[trigger] r@[k]).id@ == all[k].id@ && content_view(
                    r@[k].content,
                ) == request_outcome(*pipeline, all[k].input@),
    {
        r.push(process_request(pipeline, request));
    }
    r
}

} // verus!
