use std::sync::Arc;

use vstd::prelude::*;

use crate::error::{ErrorV, LibError};
use crate::model::{outcome, Data, DataV};
use crate::pipeline_builder::{fold_stages, Processor};
use crate::pipeline_components::{
    Lemmatizer, PorterStemmer, PostProcessor, PreProcessor, SpellingMapper, ToLowerCase, Tokenizer,
};

verus! {

/// The built-in stage kinds, and the chain of two stages, as one type that a
/// pipeline assembled at run time can hold. The table-backed stages are held
/// behind `Arc`, so that one loaded table can serve several pipelines.
pub enum Stage {
    PreProcessor(PreProcessor),
    PostProcessor(PostProcessor),
    ToLowerCase(ToLowerCase),
    Tokenizer(Tokenizer),
    SpellingMapper(Arc<SpellingMapper>),
    Lemmatizer(Arc<Lemmatizer>),
    PorterStemmer(PorterStemmer),
    Chained(Box<Stage>, Box<Stage>),
}

impl Stage {
    /// What the stage computes: the kind's own function, or for a chain the
    /// second stage run on what the first gave.
    pub open spec fn semantics(&self, input: DataV) -> Result<DataV, ErrorV>
        decreases self,
    {
        match self {
            Stage::PreProcessor(p) => p.spec_process(input),
            Stage::PostProcessor(p) => p.spec_process(input),
            Stage::ToLowerCase(p) => p.spec_process(input),
            Stage::Tokenizer(p) => p.spec_process(input),
            Stage::SpellingMapper(p) => p.spec_process(input),
            Stage::Lemmatizer(p) => p.spec_process(input),
            Stage::PorterStemmer(p) => p.spec_process(input),
            Stage::Chained(first, second) => match first.semantics(input) {
                Ok(mid) => second.semantics(mid),
                Err(e) => Err(e),
            },
        }
    }

    pub open spec fn kind_name(&self) -> Seq<char> {
        match self {
            Stage::PreProcessor(p) => p.spec_name(),
            Stage::PostProcessor(p) => p.spec_name(),
            Stage::ToLowerCase(p) => p.spec_name(),
            Stage::Tokenizer(p) => p.spec_name(),
            Stage::SpellingMapper(p) => p.spec_name(),
            Stage::Lemmatizer(p) => p.spec_name(),
            Stage::PorterStemmer(p) => p.spec_name(),
            Stage::Chained(_, _) => "ChainedProcessor"@,
        }
    }

    /// The stage that runs `first` and then `second`.
    pub fn chained(first: Stage, second: Stage) -> (r: Stage)
        ensures
            r == Stage::Chained(Box::new(first), Box::new(second)),
    {
        Stage::Chained(Box::new(first), Box::new(second))
    }

    pub fn run<'a>(&self, input: Data<'a>) -> (r: Result<Data<'a>, LibError>)
        ensures
            outcome(r) == self.semantics(input@),
        decreases self,
    {
        match self {
            Stage::PreProcessor(p) => p.process(input),
            Stage::PostProcessor(p) => p.process(input),
            Stage::ToLowerCase(p) => p.process(input),
            Stage::Tokenizer(p) => p.process(input),
            Stage::SpellingMapper(p) => p.process(input),
            Stage::Lemmatizer(p) => p.process(input),
            Stage::PorterStemmer(p) => p.process(input),
            Stage::Chained(first, second) => match first.run(input) {
                Ok(mid) => second.run(mid),
                Err(e) => Err(e),
            },
        }
    }
}

/// The single stage that chains `stages` from the left:
/// `(..((s1 then s2) then s3) .. then sn)`.
pub open spec fn left_chain(stages: Seq<Stage>) -> Stage
    decreases stages.len(),
{
    if stages.len() <= 1 {
        stages[0]
    } else {
        Stage::Chained(Box::new(left_chain(stages.drop_last())), Box::new(stages.last()))
    }
}

/// Folding a value through a non-empty list of stages gives what the single
/// stage chaining them from the left gives.
pub proof fn lemma_fold_is_left_chain(stages: Seq<Stage>, input: DataV)
    requires
        stages.len() >= 1,
    ensures
        fold_stages(stages, input) == left_chain(stages).semantics(input),
    decreases stages.len(),
{
    if stages.len() == 1 {
        assert(stages.drop_last() =~= Seq::<Stage>::empty());
    } else {
        lemma_fold_is_left_chain(stages.drop_last(), input);
    }
}

/// Chaining stages is associative: `(a then b) then c` and `a then (b then c)`
/// give the same outcome on every input.
pub proof fn lemma_stage_chain_associative(a: Stage, b: Stage, c: Stage, input: DataV)
    ensures
        Stage::Chained(
            Box::new(Stage::Chained(Box::new(a), Box::new(b))),
            Box::new(c),
        ).semantics(input) == Stage::Chained(
            Box::new(a),
            Box::new(Stage::Chained(Box::new(b), Box::new(c))),
        ).semantics(input),
{
    reveal_with_fuel(Stage::semantics, 3);
}

impl Processor for Stage {
    open spec fn spec_process(&self, input: DataV) -> Result<DataV, ErrorV> {
        self.semantics(input)
    }

    open spec fn spec_name(&self) -> Seq<char> {
        self.kind_name()
    }

    fn process<'a>(&self, input: Data<'a>) -> (r: Result<Data<'a>, LibError>) {
        self.run(input)
    }

    fn name(&self) -> (r: String) {
        match self {
            Stage::PreProcessor(p) => p.name(),
            Stage::PostProcessor(p) => p.name(),
            Stage::ToLowerCase(p) => p.name(),
            Stage::Tokenizer(p) => p.name(),
            Stage::SpellingMapper(p) => p.name(),
            Stage::Lemmatizer(p) => p.name(),
            Stage::PorterStemmer(p) => p.name(),
            Stage::Chained(_, _) => String::from_str("ChainedProcessor"),
        }
    }
}

} // verus!
