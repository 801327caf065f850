use vstd::prelude::*;

use crate::error::{ErrorV, LibError};
use crate::model::{owned_tokens, texts, tokens_view, words_view, CowStr, Data, DataV};
use crate::pipeline_builder::Processor;

verus! {

/// The stem of a word under Porter's suffix-stripping algorithm.
pub uninterp spec fn stem_of(word: Seq<char>) -> Seq<char>;

/// Relies on `porter_stemmer::stem`: the stem depends on the word alone.
#[verifier::external_body]
fn stem(word: &str) -> (r: String)
    ensures
        r@ == stem_of(word@),
{
    porter_stemmer::stem(word)
}

/// The stem of each token.
pub open spec fn stem_all(v: Seq<Seq<char>>) -> Seq<Seq<char>> {
    Seq::new(v.len(), |i: int| stem_of(v[i]))
}

/// Reduces every token of a sequence to its stem.
#[derive(Debug, Clone, Copy)]
pub struct PorterStemmer;

impl PorterStemmer {
    pub fn new() -> (r: PorterStemmer) {
        PorterStemmer
    }

    /// The stem of each token, each a new owned value.
    pub fn stem_words<'a>(&self, v: &Vec<CowStr<'a>>) -> (r: Vec<CowStr<'a>>)
        ensures
            tokens_view(r@) == owned_tokens(stem_all(words_view(v@))),
    {
        let mut r: Vec<CowStr<'a>> = Vec::new();
        for i in 0..v.len()
            invariant
                r@.len() == i,
                forall|k: int| 0 <= k < i ==> #[trigger] r@[k] is Owned && r@[k]@ == stem_of(v@[k]@),
        {
            r.push(CowStr::Owned(stem(v[i].as_str())));
        }
        assert(tokens_view(r@) =~= owned_tokens(stem_all(words_view(v@))));
        r
    }
}

impl Processor for PorterStemmer {
    open spec fn spec_process(&self, input: DataV) -> Result<DataV, ErrorV> {
        match input {
            DataV::VecCowStr(v) => Ok(DataV::VecCowStr(owned_tokens(stem_all(texts(v))))),
            _ => Err(ErrorV::InvalidInput("PorterStemmer"@, "Data::VecCowStr"@)),
        }
    }

    open spec fn spec_name(&self) -> Seq<char> {
        "PorterStemmer"@
    }

    fn process<'a>(&self, input: Data<'a>) -> (r: Result<Data<'a>, LibError>) {
        match input {
            Data::VecCowStr(v) => {
                assert(texts(tokens_view(v@)) =~= words_view(v@));
                Ok(Data::VecCowStr(self.stem_words(&v)))
            },
            _ => Err(LibError::invalid_input("PorterStemmer", "Data::VecCowStr")),
        }
    }

    fn name(&self) -> (r: String) {
        String::from_str("PorterStemmer")
    }
}

} // verus!
