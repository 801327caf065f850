use vstd::prelude::*;

use crate::error::{ErrorV, LibError};
use crate::model::{owned_tokens, texts, tokens_view, words_view, CowStr, Data, DataV};
use crate::pipeline_builder::Processor;

verus! {

/// The lower-case form of a text, as `str::to_lowercase` gives it.
pub uninterp spec fn lower_of(s: Seq<char>) -> Seq<char>;

/// Relies on `str::to_lowercase`: its result depends on the characters alone.
#[verifier::external_body]
fn lowercase(s: &str) -> (r: String)
    ensures
        r@ == lower_of(s@),
{
    s.to_lowercase()
}

/// The lower-case form of each token.
pub open spec fn lower_all(v: Seq<Seq<char>>) -> Seq<Seq<char>> {
    Seq::new(v.len(), |i: int| lower_of(v[i]))
}

/// Lower-cases every token of a sequence, or a single text value.
#[derive(Debug, Clone, Copy)]
pub struct ToLowerCase;

impl ToLowerCase {
    pub fn new() -> (r: ToLowerCase) {
        ToLowerCase
    }

    /// The lower-case form of each token, each a new owned value.
    pub fn lower_words<'a>(&self, v: &Vec<CowStr<'a>>) -> (r: Vec<CowStr<'a>>)
        ensures
            tokens_view(r@) == owned_tokens(lower_all(words_view(v@))),
    {
        let mut r: Vec<CowStr<'a>> = Vec::new();
        for i in 0..v.len()
            invariant
                r@.len() == i,
                forall|k: int| 0 <= k < i ==> #[trigger] r@[k] is Owned && r@[k]@ == lower_of(v@[k]@),
        {
            r.push(CowStr::Owned(lowercase(v[i].as_str())));
        }
        assert(tokens_view(r@) =~= owned_tokens(lower_all(words_view(v@))));
        r
    }
}

impl Processor for ToLowerCase {
    open spec fn spec_process(&self, input: DataV) -> Result<DataV, ErrorV> {
        match input {
            DataV::VecCowStr(v) => Ok(DataV::VecCowStr(owned_tokens(lower_all(texts(v))))),
            DataV::CowStr(s) => Ok(DataV::CowStr(lower_of(s))),
            DataV::OwnedStr(s) => Ok(DataV::CowStr(lower_of(s))),
            DataV::Json(_) => Err(
                ErrorV::InvalidInput(
                    "ToLowerCase"@,
                    "Data::OwnedStr, Data::CowStr or Data::VecCowStr"@,
                ),
            ),
        }
    }

    open spec fn spec_name(&self) -> Seq<char> {
        "ToLowerCase"@
    }

    fn process<'a>(&self, input: Data<'a>) -> (r: Result<Data<'a>, LibError>) {
        match input {
            Data::VecCowStr(v) => {
                assert(texts(tokens_view(v@)) =~= words_view(v@));
                Ok(Data::VecCowStr(self.lower_words(&v)))
            },
            Data::CowStr(s) => Ok(Data::CowStr(CowStr::Owned(lowercase(s.as_str())))),
            Data::OwnedStr(s) => Ok(Data::CowStr(CowStr::Owned(lowercase(s.as_str())))),
            Data::Json(_) => Err(
                LibError::invalid_input(
                    "ToLowerCase",
                    "Data::OwnedStr, Data::CowStr or Data::VecCowStr",
                ),
            ),
        }
    }

    fn name(&self) -> (r: String) {
        String::from_str("ToLowerCase")
    }
}

} // verus!
