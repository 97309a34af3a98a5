//! What a parse gives, stated over what the text mentions.

use crate::context::{Facts, PromptContext};
use crate::dictionary::{lexicon_of, lookup, Lexicon};
use crate::error::{Failure, ParserError};
use crate::keys::{Period, PromptKey};
use crate::lang::{served_lexicon, LocaleText};
use crate::matcher::{automaton_builds, encoded, leftmost_first, occurs_anywhere, Occurrence};
use crate::number::usize_value;
use vstd::prelude::*;
use vstd::utf8::encode_utf8;

verus! {

/// Whether `text` holds a pattern of category `name` of the lexicon.
pub open spec fn mentions(lexicon: Lexicon, name: Seq<char>, text: Seq<char>) -> bool {
    lexicon.contains_key(name) && occurs_anywhere(encoded(lexicon[name]), encode_utf8(text))
}

/// The leftmost-first match of the patterns of category `name` in `text`.
pub open spec fn first_hit(lexicon: Lexicon, name: Seq<char>, text: Seq<char>) -> Option<
    Occurrence,
> {
    match lookup(lexicon, name) {
        Some(patterns) => leftmost_first(encoded(patterns), encode_utf8(text)),
        None => None,
    }
}

/// Whether the search for category `name` can be made: the category is
/// missing or empty, or an automaton can be built for its patterns.
pub open spec fn searchable(lexicon: Lexicon, name: Seq<char>) -> bool {
    match lookup(lexicon, name) {
        Some(patterns) => patterns.len() == 0 || automaton_builds(encoded(patterns)),
        None => true,
    }
}

/// The period that a match in the period patterns stands for: the one at the
/// ordinal position of the pattern, if there is one.
pub open spec fn period_of(found: Option<Occurrence>) -> Option<Period> {
    match found {
        Some(m) => Period::nth(m.pattern),
        None => None,
    }
}

/// The numbers that a list of numeric patterns denotes, if each of them is a
/// numeral that fits a machine integer.
pub open spec fn numbers(patterns: Seq<Seq<char>>) -> Option<Seq<usize>> {
    if forall|i: int| 0 <= i < patterns.len() ==> usize_value(#[trigger] patterns[i]) is Some {
        Some(Seq::new(patterns.len(), |i: int| usize_value(patterns[i])->Some_0))
    } else {
        None
    }
}

/// The amount that a spelled-out pattern stands for: the number at the same
/// position of the numeric list, or, past the end of that list, the position
/// counted from one.
pub open spec fn spelled_value(nums: Seq<usize>, m: Occurrence) -> usize {
    if 0 <= m.pattern < nums.len() {
        nums[m.pattern]
    } else {
        (m.pattern + 1) as usize
    }
}

/// Whether a key is found in `text`: it is a generic key and the text mentions
/// its category.
pub open spec fn is_found(lexicon: Lexicon, text: Seq<char>) -> spec_fn(PromptKey) -> bool {
    |key: PromptKey| key.is_generic() && mentions(lexicon, key.category_text(), text)
}

/// The keys of `text`: of the keys in enumeration order, those that are found.
pub open spec fn found_keys(lexicon: Lexicon, text: Seq<char>) -> Seq<PromptKey> {
    PromptKey::ordered().filter(is_found(lexicon, text))
}

/// The period of `text`: the one at the ordinal position of the period pattern
/// that matches leftmost-first.
pub open spec fn found_period(lexicon: Lexicon, text: Seq<char>) -> Option<Period> {
    period_of(first_hit(lexicon, "period"@, text))
}

/// The amount of `text`: the number of the numeric pattern that matches
/// leftmost-first; where no numeric pattern occurs, the value of the
/// spelled-out pattern that matches leftmost-first; else none.
pub open spec fn found_amount(lexicon: Lexicon, text: Seq<char>) -> Option<usize> {
    let nums = numbers(lexicon["amount_num"@])->Some_0;
    match first_hit(lexicon, "amount_num"@, text) {
        Some(m) => Some(nums[m.pattern]),
        None => match first_hit(lexicon, "amount_text"@, text) {
            Some(m) => Some(spelled_value(nums, m)),
            None => None,
        },
    }
}

/// Why looking for an amount fails, if it does: the numeric patterns are
/// missing, or one of them is no numeral, or a search cannot be made. The
/// spelled-out patterns are searched only where no numeric pattern occurs.
pub open spec fn amount_failure(lexicon: Lexicon, text: Seq<char>) -> Option<Failure> {
    if !lexicon.contains_key("amount_num"@) {
        Some(Failure::InvalidPattern("amount_num"@))
    } else if numbers(lexicon["amount_num"@]) is None {
        Some(Failure::AmountParsing)
    } else if !searchable(lexicon, "amount_num"@) {
        Some(Failure::Build)
    } else if !mentions(lexicon, "amount_num"@, text) && !searchable(lexicon, "amount_text"@) {
        Some(Failure::Build)
    } else {
        None
    }
}

/// Why a parse fails, if it does. The generic keys and the period come before
/// the amount: a search of theirs that cannot be made hides a fault of the
/// numeric patterns.
pub open spec fn failure(lexicon: Lexicon, text: Seq<char>) -> Option<Failure> {
    if exists|key: PromptKey| key.is_generic() && !searchable(lexicon, #[trigger] key.category_text()) {
        Some(Failure::Build)
    } else if !searchable(lexicon, "period"@) {
        Some(Failure::Build)
    } else {
        amount_failure(lexicon, text)
    }
}

/// What parsing `text` with a lexicon gives: the keys, the period and the
/// amount found, or the reason of the failure.
pub open spec fn parse_outcome(lexicon: Lexicon, text: Seq<char>) -> Result<Facts, Failure> {
    match failure(lexicon, text) {
        Some(reason) => Err(reason),
        None => Ok(
            Facts {
                keys: found_keys(lexicon, text),
                period: found_period(lexicon, text),
                amount: found_amount(lexicon, text),
            },
        ),
    }
}

/// What parsing `text` in language `lang` gives.
pub open spec fn parse_result(lang: Seq<char>, text: Seq<char>) -> Result<Facts, Failure> {
    match lexicon_of(lang) {
        None => Err(Failure::UnsupportedLanguage(lang)),
        Some(lexicon) => parse_outcome(lexicon, text),
    }
}

/// What parsing `text` in language `lang` gives where the dictionary is held
/// by the messages of `locales`.
pub open spec fn localized_result(locales: Seq<LocaleText>, lang: Seq<char>, text: Seq<char>)
    -> Result<Facts, Failure> {
    match served_lexicon(locales, lang) {
        None => Err(Failure::UnsupportedLanguage(lang)),
        Some(lexicon) => parse_outcome(lexicon, text),
    }
}

/// Whether an executable result is the outcome `expected`.
pub open spec fn yields(r: Result<PromptContext, ParserError>, expected: Result<Facts, Failure>)
    -> bool {
    match r {
        Ok(context) => expected == Ok::<Facts, Failure>(context@),
        Err(e) => expected == Err::<Facts, Failure>(e@),
    }
}

} // verus!
