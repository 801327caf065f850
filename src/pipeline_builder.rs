use vstd::prelude::*;

use crate::error::{ErrorV, LibError};
use crate::model::{outcome, Data, DataV};

verus! {

/// A processing stage: takes a value, hands back a value or an error, and has
/// a name for diagnostics.
///
/// `spec_process` is what the stage computes; `process` is bound to it, so a
/// stage is a function of its own immutable state and its input.
pub trait Processor: Sized {
    spec fn spec_process(&self, input: DataV) -> Result<DataV, ErrorV>;

    spec fn spec_name(&self) -> Seq<char>;

    fn process<'a>(&self, input: Data<'a>) -> (r: Result<Data<'a>, LibError>)
        ensures
            outcome(r) == self.spec_process(input@),
    ;

    fn name(&self) -> (r: String)
        ensures
            r@ == self.spec_name(),
    ;
}

/// Runs `second` on what `first` gave, or passes on the error of `first`.
pub open spec fn then_run<P: Processor>(first: Result<DataV, ErrorV>, second: P) -> Result<
    DataV,
    ErrorV,
> {
    match first {
        Ok(mid) => second.spec_process(mid),
        Err(e) => Err(e),
    }
}

/// Two stages run one after the other as one stage.
pub struct ChainedProcessor<P1, P2> {
    pub first: P1,
    pub second: P2,
}

impl<P1: Processor, P2: Processor> Processor for ChainedProcessor<P1, P2> {
    open spec fn spec_process(&self, input: DataV) -> Result<DataV, ErrorV> {
        then_run(self.first.spec_process(input), self.second)
    }

    open spec fn spec_name(&self) -> Seq<char> {
        "ChainedProcessor"@
    }

    fn process<'a>(&self, input: Data<'a>) -> (r: Result<Data<'a>, LibError>) {
        match self.first.process(input) {
            Ok(intermediate) => self.second.process(intermediate),
            Err(e) => Err(e),
        }
    }

    fn name(&self) -> (r: String) {
        String::from_str("ChainedProcessor")
    }
}

/// Composition of a stage with the stage that follows it.
pub trait Chainable<NextProcessor>: Sized {
    fn and_then(self, next: NextProcessor) -> (r: ChainedProcessor<Self, NextProcessor>)
        ensures
            r.first == self,
            r.second == next,
    ;
}

impl<P1: Processor, P2: Processor> Chainable<P2> for P1 {
    fn and_then(self, next: P2) -> (r: ChainedProcessor<P1, P2>) {
        ChainedProcessor { first: self, second: next }
    }
}

/// Chaining is associative: `(a, b)` then `c` gives what `a` then `(b, c)`
/// gives, on every input.
pub proof fn lemma_chain_associative<A: Processor, B: Processor, C: Processor>(
    a: A,
    b: B,
    c: C,
    input: DataV,
)
    ensures
        (ChainedProcessor {
            first: ChainedProcessor { first: a, second: b },
            second: c,
        }).spec_process(input) == (ChainedProcessor {
            first: a,
            second: ChainedProcessor { first: b, second: c },
        }).spec_process(input),
{
}

/// The left fold of `input` through `stages`: each stage runs on what the one
/// before it gave, and the first error ends the run.
pub open spec fn fold_stages<P: Processor>(stages: Seq<P>, input: DataV) -> Result<DataV, ErrorV>
    decreases stages.len(),
{
    if stages.len() == 0 {
        Ok(input)
    } else {
        then_run(fold_stages(stages.drop_last(), input), stages.last())
    }
}

/// The error of a pipeline that has no stage.
pub open spec fn empty_pipeline_error() -> ErrorV {
    ErrorV::InvalidInput("Pipeline"@, "No processors in pipeline"@)
}

/// Once a prefix of the stages has failed, the whole fold ends with that error.
pub proof fn lemma_fold_error_stays<P: Processor>(stages: Seq<P>, i: int, input: DataV)
    requires
        0 <= i <= stages.len(),
        fold_stages(stages.take(i), input) is Err,
    ensures
        fold_stages(stages, input) == fold_stages(stages.take(i), input),
    decreases stages.len() - i,
{
    if i < stages.len() {
        assert(stages.take(i + 1).drop_last() =~= stages.take(i));
        lemma_fold_error_stays(stages, i + 1, input);
    } else {
        assert(stages.take(i) =~= stages);
    }
}

/// The fold read from its first stage: a pipeline `[s1, s2, .., sn]` gives
/// on `input` what `[s2, .., sn]` gives on the output of `s1`, and the error
/// of `s1` if it fails; so the whole is `sn(..(s2(s1(input))))`.
pub proof fn lemma_fold_first_stage<P: Processor>(first: P, rest: Seq<P>, input: DataV)
    ensures
        fold_stages(seq![first] + rest, input) == match first.spec_process(input) {
            Ok(mid) => fold_stages(rest, mid),
            Err(e) => Err(e),
        },
    decreases rest.len(),
{
    if rest.len() == 0 {
        assert((seq![first] + rest).drop_last() =~= Seq::<P>::empty());
        assert((seq![first] + rest).last() == first);
        assert(fold_stages(Seq::<P>::empty(), input) == Ok::<DataV, ErrorV>(input));
    } else {
        lemma_fold_first_stage(first, rest.drop_last(), input);
        assert((seq![first] + rest).drop_last() =~= seq![first] + rest.drop_last());
        assert((seq![first] + rest).last() == rest.last());
    }
}

/// An ordered list of stages that a value is folded through.
pub struct Pipeline<P> {
    processors: Vec<P>,
}

impl<P: Processor> Pipeline<P> {
    /// The stages, in the order in which they run.
    pub closed spec fn stages(&self) -> Seq<P> {
        self.processors@
    }

    /// What `process` gives on `input`.
    pub open spec fn spec_process(&self, input: DataV) -> Result<DataV, ErrorV> {
        if self.stages().len() == 0 {
            Err(empty_pipeline_error())
        } else {
            fold_stages(self.stages(), input)
        }
    }

    pub fn new() -> (r: Pipeline<P>)
        ensures
            r.stages() == Seq::<P>::empty(),
    {
        Pipeline { processors: Vec::new() }
    }

    /// Appends a stage; it runs after those added before it.
    pub fn add_processor(&mut self, processor: P)
        ensures
            final(self).stages() == old(self).stages().push(processor),
    {
        self.processors.push(processor);
    }

    /// Folds `input` through the stages in order and returns the last value,
    /// or the first error. A pipeline with no stage refuses every input.
    pub fn process<'a>(&self, input: Data<'a>) -> (r: Result<Data<'a>, LibError>)
        ensures
            outcome(r) == self.spec_process(input@),
    {
        let n = self.processors.len();
        if n == 0 {
            return Err(LibError::invalid_input("Pipeline", "No processors in pipeline"));
        }
        let ghost start = input@;
        let mut data = input;
        let mut i: usize = 0;
        while i < n
            invariant
                n == self.stages().len(),
                i <= n,
                start == input@,
                fold_stages(self.stages().take(i as int), start) == Ok::<DataV, ErrorV>(data@),
            decreases n - i,
        {
            assert(self.stages().take(i + 1).drop_last() =~= self.stages().take(i as int));
            assert(self.stages().take(i + 1).last() == self.processors@[i as int]);
            match self.processors[i].process(data) {
                Ok(next) => {
                    data = next;
                },
                Err(e) => {
                    proof {
                        lemma_fold_error_stays(self.stages(), i + 1, start);
                    }
                    return Err(e);
                },
            }
            i = i + 1;
        }
        assert(self.stages().take(n as int) =~= self.stages());
        Ok(data)
    }

    /// The names of the stages, in order.
    pub fn stage_names(&self) -> (r: Vec<String>)
        ensures
            r@.len() == self.stages().len(),
            forall|i: int| 0 <= i < r@.len() ==> #[trigger] r@[i]@ == self.stages()[i].spec_name(),
    {
        let mut r: Vec<String> = Vec::new();
        for i in 0..self.processors.len()
            invariant
                r@.len() == i,
                self.processors@.len() == self.stages().len(),
                forall|k: int| 0 <= k < i ==> #[trigger] r@[k]@ == self.stages()[k].spec_name(),
        {
            r.push(self.processors[i].name());
        }
        r
    }
}

} // verus!
