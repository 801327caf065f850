pub mod lemmatizer;
pub mod lowercase;
pub mod porter_stemmer;
pub mod post_processor;
pub mod spelling_mapper;
pub mod table;
pub mod pre_processor;
pub mod tokenizer;

pub use lemmatizer::Lemmatizer;
pub use lowercase::ToLowerCase;
pub use porter_stemmer::PorterStemmer;
pub use post_processor::PostProcessor;
pub use pre_processor::PreProcessor;
pub use spelling_mapper::SpellingMapper;
pub use tokenizer::Tokenizer;
