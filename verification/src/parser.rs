//! The context parser: for each key, look up its patterns, search the prompt
//! for them, and record what the match stands for.

use crate::context::{Facts, PromptContext};
use crate::dictionary::{get_dictionary, LanguageDictionary, Lexicon};
use crate::error::{Failure, ParserError};
use crate::keys::{Period, PromptKey};
use crate::lang::TextManager;
use crate::matcher::{
    aho_parse, encoded, found_view, occurs_anywhere, search, Occurrence, PatternMatch,
};
use crate::number::{parse_usize, usize_value};
use crate::text::texts;
use crate::outcome::{
    amount_failure, first_hit, found_amount, found_period, is_found, localized_result, mentions,
    numbers, parse_outcome, parse_result, period_of, searchable, spelled_value, yields,
};
use vstd::prelude::*;
use vstd::string::*;
use vstd::utf8::encode_utf8;

verus! {

/// What looking for a generic key does to the facts: the key is added where
/// the text mentions its category. Fails where the search cannot be made.
pub open spec fn generic_step(
    lexicon: Lexicon,
    key: PromptKey,
    text: Seq<char>,
    facts: Facts,
) -> Result<Facts, Failure> {
    if !searchable(lexicon, key.category_text()) {
        Err(Failure::Build)
    } else if mentions(lexicon, key.category_text(), text) {
        Ok(facts.with_key(key))
    } else {
        Ok(facts)
    }
}

/// What looking for a period does to the facts: the period is set to the one
/// found, if one is found. Fails where the search cannot be made.
pub open spec fn period_step(lexicon: Lexicon, text: Seq<char>, facts: Facts) -> Result<
    Facts,
    Failure,
> {
    if !searchable(lexicon, "period"@) {
        Err(Failure::Build)
    } else {
        match found_period(lexicon, text) {
            Some(period) => Ok(facts.with_period(period)),
            None => Ok(facts),
        }
    }
}

/// What looking for an amount does to the facts: the amount is set to the one
/// found, if one is found. Fails where the numeric patterns are missing or no
/// numerals, or a search cannot be made.
pub open spec fn amount_step(lexicon: Lexicon, text: Seq<char>, facts: Facts) -> Result<
    Facts,
    Failure,
> {
    match amount_failure(lexicon, text) {
        Some(reason) => Err(reason),
        None => match found_amount(lexicon, text) {
            Some(amount) => Ok(facts.with_amount(amount)),
            None => Ok(facts),
        },
    }
}

/// What handling one key does to the facts.
spec fn key_step(lexicon: Lexicon, key: PromptKey, text: Seq<char>, facts: Facts) -> Result<
    Facts,
    Failure,
> {
    match key {
        PromptKey::Amount => amount_step(lexicon, text, facts),
        PromptKey::Period => period_step(lexicon, text, facts),
        _ => generic_step(lexicon, key, text, facts),
    }
}

/// The facts after the first `count` keys of the enumeration were handled,
/// or the first failure met on the way.
spec fn after_keys(lexicon: Lexicon, text: Seq<char>, count: nat) -> Result<
    Facts,
    Failure,
>
    decreases count,
{
    if count == 0 || count > PromptKey::ordered().len() {
        Ok(Facts::empty())
    } else {
        match after_keys(lexicon, text, (count - 1) as nat) {
            Err(failure) => Err(failure),
            Ok(facts) => key_step(lexicon, PromptKey::ordered()[count - 1], text, facts),
        }
    }
}

/// Whether a step that found the facts `before` and left the facts `after`
/// behind, or failed, is the outcome `expected`. A step that fails leaves the
/// facts as they were.
pub open spec fn step_yields(
    r: Result<(), ParserError>,
    before: Facts,
    after: Facts,
    expected: Result<Facts, Failure>,
) -> bool {
    match r {
        Ok(_) => expected == Ok::<Facts, Failure>(after),
        Err(e) => expected == Err::<Facts, Failure>(e@) && after == before,
    }
}

/// The period that a match in the period patterns stands for.
pub fn period_of_match(found: Option<PatternMatch>) -> (r: Option<Period>)
    ensures
        r == period_of(found_view(found)),
{
    match found {
        Some(m) => Period::from_index(m.pattern),
        None => None,
    }
}

/// The amount that a match in the numeric patterns stands for: the number that
/// the matched pattern denotes.
pub fn numeric_amount(nums: &[usize], found: PatternMatch) -> (r: usize)
    requires
        found.pattern < nums@.len(),
    ensures
        r == nums@[found.pattern as int],
{
    nums[found.pattern]
}

/// The amount that a match in the spelled-out patterns stands for: the number
/// at the same position of the numeric list, or, past the end of that list, the
/// position counted from one.
pub fn spelled_amount(nums: &[usize], found: PatternMatch) -> (r: usize)
    requires
        found.pattern < usize::MAX,
    ensures
        r == spelled_value(nums@, found@),
{
    if found.pattern < nums.len() {
        nums[found.pattern]
    } else {
        found.pattern + 1
    }
}

/// The numbers that the numeric patterns denote. Fails where one of them is no
/// numeral or does not fit a machine integer.
pub fn parse_numbers(patterns: &[String]) -> (r: Result<Vec<usize>, ParserError>)
    ensures
        match r {
            Ok(nums) => numbers(texts(patterns@)) == Some(nums@),
            Err(e) => numbers(texts(patterns@)) is None && e@ == Failure::AmountParsing,
        },
{
    let mut nums: Vec<usize> = Vec::new();
    let mut i: usize = 0;
    while i < patterns.len()
        invariant
            i <= patterns.len(),
            nums@.len() == i,
            forall|j: int|
                0 <= j < i ==> usize_value(#[trigger] texts(patterns@)[j]) == Some(nums@[j]),
        decreases patterns.len() - i,
    {
        match parse_usize(patterns[i].as_str()) {
            Ok(n) => {
                assert(texts(patterns@)[i as int] == patterns@[i as int]@);
                nums.push(n);
            },
            Err(cause) => {
                assert(texts(patterns@)[i as int] == patterns@[i as int]@);
                return Err(ParserError::AmountParsing(cause));
            },
        }
        i += 1;
    }
    assert(numbers(texts(patterns@))->Some_0 =~= nums@);
    Ok(nums)
}

/// Extracts the context of a prompt.
pub struct ContextParser {}

impl ContextParser {
    /// A parser. It holds no state: every call of `parse` starts afresh.
    pub fn new() -> (r: Self) {
        ContextParser {  }
    }

    /// Extracts the context of `prompt` in language `lang`.
    ///
    /// Fails for a language without dictionary, and where the dictionary or the
    /// automaton fails; no partial context is returned.
    pub fn parse(&mut self, lang: &str, prompt: &str) -> (r: Result<PromptContext, ParserError>)
        ensures
            *final(self) == *old(self),
            yields(r, parse_result(lang@, prompt@)),
    {
        match get_dictionary(lang) {
            Ok(dictionary) => Self::parse_with(&dictionary, prompt),
            Err(e) => Err(e),
        }
    }

    /// Extracts the context of `prompt` in language `lang` with the dictionary
    /// that the messages hold: that of the language, or of English where the
    /// language has no locale.
    ///
    /// Fails where no locale serves the language, and where the dictionary or
    /// the automaton fails.
    pub fn parse_localized(manager: &TextManager, lang: &str, prompt: &str) -> (r: Result<
        PromptContext,
        ParserError,
    >)
        ensures
            yields(r, localized_result(manager@, lang@, prompt@)),
    {
        match manager.dictionary(lang) {
            Ok(dictionary) => Self::parse_with(&dictionary, prompt),
            Err(e) => Err(e),
        }
    }

    /// Extracts the context of `prompt` with the given dictionary: handles every
    /// key in enumeration order and stops at the first failure.
    pub fn parse_with(dictionary: &LanguageDictionary, prompt: &str) -> (r: Result<
        PromptContext,
        ParserError,
    >)
        ensures
            yields(r, parse_outcome(dictionary@, prompt@)),
    {
        let mut context = PromptContext::new();
        let keys = PromptKey::all();
        let mut i: usize = 0;
        while i < keys.len()
            invariant
                i <= keys.len(),
                keys@ == PromptKey::ordered(),
                after_keys(dictionary@, prompt@, i as nat) == Ok::<Facts, Failure>(context@),
            decreases keys.len() - i,
        {
            let key = keys[i];
            let step = match key {
                PromptKey::Amount => Self::parse_amount(prompt, &mut context, dictionary),
                PromptKey::Period => Self::parse_period(prompt, &mut context, dictionary),
                _ => Self::parse_generic_key(key, prompt, &mut context, dictionary),
            };
            match step {
                Ok(_) => {},
                Err(e) => {
                    proof {
                        lemma_failure_stays(dictionary@, prompt@, (i + 1) as nat);
                        lemma_after_keys(dictionary@, prompt@, PromptKey::ordered().len());
                    }
                    return Err(e);
                },
            }
            i += 1;
        }
        proof {
            lemma_after_keys(dictionary@, prompt@, PromptKey::ordered().len());
        }
        Ok(context)
    }

    /// Looks for an amount in `prompt` and records it in `context`.
    pub fn parse_amount(
        prompt: &str,
        context: &mut PromptContext,
        dictionary: &LanguageDictionary,
    ) -> (r: Result<(), ParserError>)
        ensures
            step_yields(
                r,
                old(context)@,
                final(context)@,
                amount_step(dictionary@, prompt@, old(context)@),
            ),
    {
        let num_patterns = match dictionary.get("amount_num") {
            Some(patterns) => patterns,
            None => {
                return Err(ParserError::InvalidPattern(String::from_str("amount_num")));
            },
        };
        proof {
            lemma_search(dictionary@, "amount_num"@, prompt@);
        }
        let nums = match parse_numbers(num_patterns.as_slice()) {
            Ok(nums) => nums,
            Err(e) => {
                return Err(e);
            },
        };
        match aho_parse(num_patterns.as_slice(), prompt) {
            Err(e) => {
                return Err(e);
            },
            Ok(Some(found)) => {
                let num = numeric_amount(nums.as_slice(), found);
                context.set_amount(num);
                return Ok(());
            },
            Ok(None) => {},
        }
        if let Some(text_patterns) = dictionary.get("amount_text") {
            proof {
                lemma_search(dictionary@, "amount_text"@, prompt@);
            }
            match aho_parse(text_patterns.as_slice(), prompt) {
                Err(e) => {
                    return Err(e);
                },
                Ok(Some(found)) => {
                    assert(found.pattern < text_patterns.len());
                    let num = spelled_amount(nums.as_slice(), found);
                    context.set_amount(num);
                },
                Ok(None) => {},
            }
        }
        Ok(())
    }

    /// Looks for a period in `prompt` and records it in `context`.
    pub fn parse_period(
        prompt: &str,
        context: &mut PromptContext,
        dictionary: &LanguageDictionary,
    ) -> (r: Result<(), ParserError>)
        ensures
            step_yields(
                r,
                old(context)@,
                final(context)@,
                period_step(dictionary@, prompt@, old(context)@),
            ),
    {
        if let Some(patterns) = dictionary.get("period") {
            proof {
                lemma_search(dictionary@, "period"@, prompt@);
            }
            match aho_parse(patterns.as_slice(), prompt) {
                Err(e) => {
                    return Err(e);
                },
                Ok(found) => {
                    if let Some(period) = period_of_match(found) {
                        context.set_period(period);
                    }
                },
            }
        }
        Ok(())
    }

    /// Looks for the words of a generic key in `prompt` and records the key in
    /// `context` where one of them occurs.
    pub fn parse_generic_key(
        key: PromptKey,
        prompt: &str,
        context: &mut PromptContext,
        dictionary: &LanguageDictionary,
    ) -> (r: Result<(), ParserError>)
        ensures
            step_yields(
                r,
                old(context)@,
                final(context)@,
                generic_step(dictionary@, key, prompt@, old(context)@),
            ),
    {
        if let Some(patterns) = dictionary.get(key.category()) {
            proof {
                lemma_search(dictionary@, key.category_text(), prompt@);
            }
            match aho_parse(patterns.as_slice(), prompt) {
                Err(e) => {
                    return Err(e);
                },
                Ok(Some(_)) => {
                    context.add_key(key);
                },
                Ok(None) => {},
            }
        }
        Ok(())
    }
}

impl Default for ContextParser {
    fn default() -> (r: Self) {
        ContextParser::new()
    }
}

/// A failure met after some keys is the outcome of the whole run.
proof fn lemma_failure_stays(lexicon: Lexicon, text: Seq<char>, count: nat)
    requires
        count <= PromptKey::ordered().len(),
        after_keys(lexicon, text, count) is Err,
    ensures
        after_keys(lexicon, text, PromptKey::ordered().len()) == after_keys(lexicon, text, count),
    decreases PromptKey::ordered().len() - count,
{
    if count < PromptKey::ordered().len() {
        lemma_failure_stays(lexicon, text, count + 1);
    }
}

/// A search that can be made gives the leftmost-first match; one that cannot
/// fails.
proof fn lemma_search(lexicon: Lexicon, name: Seq<char>, text: Seq<char>)
    requires
        lexicon.contains_key(name),
    ensures
        searchable(lexicon, name) ==> search(lexicon[name], text) == Ok::<
            Option<Occurrence>,
            Failure,
        >(first_hit(lexicon, name, text)),
        !searchable(lexicon, name) ==> search(lexicon[name], text) == Err::<
            Option<Occurrence>,
            Failure,
        >(Failure::Build),
        first_hit(lexicon, name, text) is Some <==> mentions(lexicon, name, text),
{
    let patterns = lexicon[name];
    if patterns.len() == 0 {
        assert(!occurs_anywhere(encoded(patterns), encode_utf8(text)));
    }
}

/// Why handling the first `count` keys fails, if it does.
spec fn failure_until(lexicon: Lexicon, text: Seq<char>, count: nat) -> Option<Failure> {
    if exists|key: PromptKey|
        key.is_generic() && key.ordinal() < count && !searchable(
            lexicon,
            #[trigger] key.category_text(),
        ) {
        Some(Failure::Build)
    } else if count > PromptKey::Period.ordinal() && !searchable(lexicon, "period"@) {
        Some(Failure::Build)
    } else if count > PromptKey::Amount.ordinal() {
        amount_failure(lexicon, text)
    } else {
        None
    }
}

/// The facts after the first `count` keys, where handling them does not fail.
spec fn facts_until(lexicon: Lexicon, text: Seq<char>, count: nat) -> Facts {
    Facts {
        keys: PromptKey::ordered().take(count as int).filter(is_found(lexicon, text)),
        period: if count > PromptKey::Period.ordinal() {
            found_period(lexicon, text)
        } else {
            None
        },
        amount: if count > PromptKey::Amount.ordinal() {
            found_amount(lexicon, text)
        } else {
            None
        },
    }
}

/// The keys found among the first `count` keys are among those keys.
proof fn lemma_keys_until(lexicon: Lexicon, text: Seq<char>, count: nat, key: PromptKey)
    requires
        count <= PromptKey::ordered().len(),
        facts_until(lexicon, text, count).keys.contains(key),
    ensures
        key.ordinal() < count,
{
    let firsts = PromptKey::ordered().take(count as int);
    firsts.lemma_filter_contains_rev(is_found(lexicon, text), key);
    let i = choose|i: int| 0 <= i < firsts.len() && firsts[i] == key;
    assert(PromptKey::ordered()[i].ordinal() == i);
}

/// Handling the keys one after the other gives what the text mentions.
proof fn lemma_after_keys(lexicon: Lexicon, text: Seq<char>, count: nat)
    requires
        count <= PromptKey::ordered().len(),
    ensures
        after_keys(lexicon, text, count) == match failure_until(lexicon, text, count) {
            Some(reason) => Err::<Facts, Failure>(reason),
            None => Ok::<Facts, Failure>(facts_until(lexicon, text, count)),
        },
        count == PromptKey::ordered().len() ==> after_keys(lexicon, text, count) == parse_outcome(
            lexicon,
            text,
        ),
    decreases count,
{
    reveal(Seq::filter);
    let found = is_found(lexicon, text);
    if count == 0 {
        assert(PromptKey::ordered().take(0).filter(found) =~= Seq::<PromptKey>::empty());
    } else {
        let before = (count - 1) as nat;
        lemma_after_keys(lexicon, text, before);
        let key = PromptKey::ordered()[count - 1];
        let firsts = PromptKey::ordered().take(count as int);
        assert(key.ordinal() == count - 1);
        assert(firsts.drop_last() =~= PromptKey::ordered().take(before as int));
        assert(firsts.last() == key);
        assert forall|other: PromptKey| other.ordinal() < count implies other.ordinal() < before
            || other == key by {}
        if let Ok(facts) = after_keys(lexicon, text, before) {
            if key.is_generic() && facts.keys.contains(key) {
                lemma_keys_until(lexicon, text, before, key);
            }
        }
    }
    if count == PromptKey::ordered().len() {
        assert(PromptKey::ordered().take(count as int) =~= PromptKey::ordered());
        assert forall|key: PromptKey| key.ordinal() < count by {}
    }
}

} // verus!
