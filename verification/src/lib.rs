//! Rule-based extraction of a small fact sheet from a free-text prompt: which
//! semantic categories it mentions, which time period and which amount.
//!
//! `ContextParser::parse` looks, for each key, for the words of the key's
//! category in the prompt, with leftmost-first multi-pattern search, and
//! gathers what it finds in a `PromptContext`. The module `outcome` states what
//! a parse gives, `laws` what follows from that for every text.
//!
//! Beside the parser stand what an agent around it needs and this crate can
//! decide: the localised messages (`lang`), the tools that a model may call
//! (`tools`) and the models that may be asked for (`models`).

pub mod context;
pub mod dictionary;
pub mod error;
pub mod keys;
pub mod lang;
pub mod laws;
pub mod matcher;
pub mod models;
pub mod number;
pub mod outcome;
pub mod parser;
pub mod text;
pub mod tools;
pub mod words;

pub use context::{Facts, PromptContext};
pub use dictionary::{get_dictionary, LanguageDictionary};
pub use error::{Failure, ParserError};
pub use keys::{Period, PromptKey};
pub use parser::ContextParser;
pub use matcher::{aho_parse, PatternMatch};
