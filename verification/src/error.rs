//! The ways in which extracting a context can fail.

use std::num::ParseIntError;
use vstd::prelude::*;
use vstd::string::*;

verus! {

/// Why a prompt could not be parsed.
#[derive(Debug)]
pub enum ParserError {
    /// The matching automaton could not be built from a pattern list; holds the
    /// builder's own words.
    AhoCorasickBuild(String),
    /// A numeric pattern of the dictionary is no integer.
    AmountParsing(ParseIntError),
    /// No dictionary exists for the language tag held.
    UnsupportedLanguage(String),
    /// The dictionary lacks the required category held.
    InvalidPattern(String),
}

/// The kind of a failure, with the text that identifies it.
pub enum Failure {
    Build,
    AmountParsing,
    UnsupportedLanguage(Seq<char>),
    InvalidPattern(Seq<char>),
}

impl View for ParserError {
    type V = Failure;

    open spec fn view(&self) -> Failure {
        match self {
            ParserError::AhoCorasickBuild(_) => Failure::Build,
            ParserError::AmountParsing(_) => Failure::AmountParsing,
            ParserError::UnsupportedLanguage(tag) => Failure::UnsupportedLanguage(tag@),
            ParserError::InvalidPattern(category) => Failure::InvalidPattern(category@),
        }
    }
}

impl ParserError {
    /// The sentence that describes this error: a fixed opening, then the detail
    /// that the error holds.
    pub fn message(&self) -> (r: String)
        ensures
            match self {
                ParserError::AhoCorasickBuild(detail) => r@
                    == "Failed to build Aho-Corasick automaton: "@ + detail@,
                ParserError::AmountParsing(cause) => exists|detail: String|
                    to_string_from_display_ensures::<ParseIntError>(cause, detail) && r@
                        == "Failed to parse amount number: "@ + detail@,
                ParserError::UnsupportedLanguage(tag) => r@ == "Unsupported language: "@ + tag@,
                ParserError::InvalidPattern(category) => r@
                    == "Invalid pattern configuration for key: "@ + category@,
            },
    {
        match self {
            ParserError::AhoCorasickBuild(detail) => {
                String::from_str("Failed to build Aho-Corasick automaton: ").concat(detail.as_str())
            },
            ParserError::AmountParsing(cause) => {
                let opening = String::from_str("Failed to parse amount number: ");
                let detail = cause.to_string();
                opening.concat(detail.as_str())
            },
            ParserError::UnsupportedLanguage(tag) => {
                String::from_str("Unsupported language: ").concat(tag.as_str())
            },
            ParserError::InvalidPattern(category) => {
                String::from_str("Invalid pattern configuration for key: ").concat(
                    category.as_str(),
                )
            },
        }
    }
}

} // verus!
