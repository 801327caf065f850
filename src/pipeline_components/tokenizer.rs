use vstd::prelude::*;

use crate::error::{ErrorV, LibError};
use crate::model::{owned_tokens, strings_view, tokens_view, CowStr, Data, DataV};
use crate::pipeline_builder::Processor;
use crate::text::{tokenize, tokens_of};

verus! {

/// Splits a text on white space into tokens, trims trailing punctuation from
/// each token and leaves out the empty ones.
#[derive(Debug, Clone, Copy)]
pub struct Tokenizer;

/// The given strings as owned token values, in order.
pub fn owned_words<'a>(v: Vec<String>) -> (r: Vec<CowStr<'a>>)
    ensures
        tokens_view(r@) == owned_tokens(strings_view(v@)),
{
    let mut r: Vec<CowStr<'a>> = Vec::new();
    for i in 0..v.len()
        invariant
            r@.len() == i,
            forall|k: int| 0 <= k < i ==> #[trigger] r@[k] is Owned && r@[k]@ == v@[k]@,
    {
        r.push(CowStr::Owned(v[i].clone()));
    }
    assert(tokens_view(r@) =~= owned_tokens(strings_view(v@)));
    r
}

impl Tokenizer {
    pub fn new() -> (r: Tokenizer) {
        Tokenizer
    }
}

impl Processor for Tokenizer {
    open spec fn spec_process(&self, input: DataV) -> Result<DataV, ErrorV> {
        match input {
            DataV::OwnedStr(s) => Ok(DataV::VecCowStr(owned_tokens(tokens_of(s)))),
            DataV::CowStr(s) => Ok(DataV::VecCowStr(owned_tokens(tokens_of(s)))),
            _ => Err(ErrorV::InvalidInput("Tokenizer"@, "Data::OwnedStr or Data::CowStr"@)),
        }
    }

    open spec fn spec_name(&self) -> Seq<char> {
        "Tokenizer"@
    }

    fn process<'a>(&self, input: Data<'a>) -> (r: Result<Data<'a>, LibError>) {
        match input {
            Data::OwnedStr(s) => Ok(Data::VecCowStr(owned_words(tokenize(s.as_str())))),
            Data::CowStr(s) => Ok(Data::VecCowStr(owned_words(tokenize(s.as_str())))),
            _ => Err(LibError::invalid_input("Tokenizer", "Data::OwnedStr or Data::CowStr")),
        }
    }

    fn name(&self) -> (r: String) {
        String::from_str("Tokenizer")
    }
}

} // verus!
