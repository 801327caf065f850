//! Text-processing pipelines whose stages change the shape of the data they
//! carry, with contracts on every stage, on chaining and on the pipeline fold.

pub mod batch;
pub mod error;
pub mod model;
pub mod pipeline_builder;
pub mod pipeline_components;
pub mod stage;
pub mod text;

pub use batch::{process_request, process_requests};
pub use error::{ErrorV, LibError};
pub use pipeline_components::{
    Lemmatizer, PorterStemmer, PostProcessor, PreProcessor, SpellingMapper, ToLowerCase, Tokenizer,
};
pub use stage::Stage;
pub use pipeline_builder::{Chainable, ChainedProcessor, Pipeline, Processor};
pub use model::{CowStr, Data, DataV, Json, JsonV, ProcessingRequest, ProcessingResult, TokenV};
