//! What holds of every parse: the laws that relate the outcome of a parse to
//! what the text mentions.

use crate::context::{Facts, PromptContext};
use crate::dictionary::{english, lemma_english_categories, lexicon_of, supported, Lexicon};
use crate::error::{Failure, ParserError};
use crate::keys::{Period, PromptKey};
use crate::lang::{
    last_locale, message_text, messages_lexicon, served_lexicon, words_message, LocaleText,
};
use crate::matcher::{
    encoded, is_leftmost_first, lemma_leftmost_first_exists, lemma_leftmost_first_is, none_empty,
    occurs_at, stands_at, Occurrence,
};
use crate::number::{lemma_one_digit, lemma_two_digits};
use crate::outcome::{
    failure, first_hit, found_keys, is_found, localized_result, mentions, numbers, parse_outcome,
    parse_result, searchable, spelled_value, yields,
};
use crate::words::{is_word, lemma_words};
use vstd::prelude::*;
use vstd::utf8::{encode_utf8, is_ascii_chars, is_ascii_chars_encode_utf8};

verus! {

/// Whether the keys stand in enumeration order, none of them twice.
pub open spec fn in_enumeration_order(keys: Seq<PromptKey>) -> bool {
    forall|i: int, j: int| 0 <= i < j < keys.len() ==> keys[i].ordinal() < keys[j].ordinal()
}

/// The category of a lexicon has a match in the text exactly where the text
/// mentions it, and the match is then the leftmost-first one.
pub proof fn lemma_first_hit(lexicon: Lexicon, name: Seq<char>, text: Seq<char>)
    ensures
        first_hit(lexicon, name, text) is Some <==> mentions(lexicon, name, text),
        first_hit(lexicon, name, text) matches Some(m) ==> is_leftmost_first(
            encoded(lexicon[name]),
            encode_utf8(text),
            m,
        ),
{
    if mentions(lexicon, name, text) {
        lemma_leftmost_first_exists(encoded(lexicon[name]), encode_utf8(text));
    }
}

/// Of the first `count` keys, those that are found: they stand in enumeration
/// order, and a key is among them exactly where it is one of the first `count`
/// and is found.
proof fn lemma_found_among(lexicon: Lexicon, text: Seq<char>, count: nat)
    requires
        count <= PromptKey::ordered().len(),
    ensures
        ({
            let keys = PromptKey::ordered().take(count as int).filter(is_found(lexicon, text));
            &&& in_enumeration_order(keys)
            &&& forall|key: PromptKey| #[trigger]
                keys.contains(key) <==> key.ordinal() < count && is_found(lexicon, text)(key)
        }),
    decreases count,
{
    reveal(Seq::filter);
    let found = is_found(lexicon, text);
    let firsts = PromptKey::ordered().take(count as int);
    let keys = firsts.filter(found);
    if count == 0 {
        assert forall|key: PromptKey| !keys.contains(key) by {}
    } else {
        let before = (count - 1) as nat;
        lemma_found_among(lexicon, text, before);
        let last = PromptKey::ordered()[count - 1];
        let earlier = PromptKey::ordered().take(before as int).filter(found);
        assert(last.ordinal() == count - 1);
        assert(firsts.drop_last() =~= PromptKey::ordered().take(before as int));
        assert(firsts.last() == last);
        assert forall|other: PromptKey| other.ordinal() < count implies other.ordinal() < before
            || other == last by {}
        if found(last) {
            assert(keys == earlier.push(last));
            assert forall|i: int, j: int| 0 <= i < j < keys.len() implies keys[i].ordinal()
                < keys[j].ordinal() by {
                if j == earlier.len() {
                    assert(earlier.contains(earlier[i]));
                }
            }
            assert forall|key: PromptKey| #[trigger]
                keys.contains(key) <==> key.ordinal() < count && found(key) by {
                if keys.contains(key) {
                    let i = choose|i: int| 0 <= i < keys.len() && keys[i] == key;
                    if i < earlier.len() {
                        assert(earlier[i] == key);
                        assert(earlier.contains(key));
                    }
                }
                if key.ordinal() < count && found(key) {
                    if key == last {
                        assert(keys[earlier.len() as int] == key);
                    } else {
                        assert(earlier.contains(key));
                        let i = choose|i: int| 0 <= i < earlier.len() && earlier[i] == key;
                        assert(keys[i] == key);
                    }
                }
            }
        } else {
            assert(keys == earlier);
        }
    }
}

/// A text that mentions no pattern of the dictionary parses to the empty fact
/// sheet: no key, no period, no amount.
pub proof fn law_nothing_mentioned(lexicon: Lexicon, text: Seq<char>)
    requires
        forall|name: Seq<char>| !mentions(lexicon, name, text),
    ensures
        parse_outcome(lexicon, text) matches Ok(facts) ==> facts == Facts::empty(),
        failure(lexicon, text) is None ==> parse_outcome(lexicon, text) == Ok::<Facts, Failure>(
            Facts::empty(),
        ),
{
    lemma_found_among(lexicon, text, PromptKey::ordered().len());
    assert(PromptKey::ordered().take(PromptKey::ordered().len() as int) =~= PromptKey::ordered());
    let keys = found_keys(lexicon, text);
    if keys.len() > 0 {
        assert(keys.contains(keys[0]));
        assert(mentions(lexicon, keys[0].category_text(), text));
    }
    assert(keys =~= Seq::<PromptKey>::empty());
    assert(!mentions(lexicon, "period"@, text));
    assert(!mentions(lexicon, "amount_num"@, text));
    assert(!mentions(lexicon, "amount_text"@, text));
    lemma_first_hit(lexicon, "period"@, text);
    lemma_first_hit(lexicon, "amount_num"@, text);
    lemma_first_hit(lexicon, "amount_text"@, text);
}

/// The same for a language: in a supported language, a text that mentions no
/// pattern of its dictionary parses to the empty fact sheet, where the parse
/// does not fail.
pub proof fn law_nothing_mentioned_in(lang: Seq<char>, text: Seq<char>)
    requires
        supported(lang),
        forall|name: Seq<char>| !mentions(lexicon_of(lang)->Some_0, name, text),
    ensures
        parse_result(lang, text) matches Ok(facts) ==> facts == Facts::empty(),
{
    law_nothing_mentioned(lexicon_of(lang)->Some_0, text);
}

/// Two parses of the same inputs give the same outcome: the same facts, or the
/// same kind of failure.
pub proof fn law_same_inputs_same_outcome(
    first: Result<PromptContext, ParserError>,
    second: Result<PromptContext, ParserError>,
    lang: Seq<char>,
    text: Seq<char>,
)
    requires
        yields(first, parse_result(lang, text)),
        yields(second, parse_result(lang, text)),
    ensures
        match (first, second) {
            (Ok(a), Ok(b)) => a@ == b@,
            (Err(a), Err(b)) => a@ == b@,
            _ => false,
        },
{
}

/// The keys of a parse are the generic keys whose category the text mentions,
/// each once and in enumeration order, however often the text mentions them.
pub proof fn law_keys(lexicon: Lexicon, text: Seq<char>)
    ensures
        parse_outcome(lexicon, text) matches Ok(facts) ==> {
            &&& facts.keys.no_duplicates()
            &&& in_enumeration_order(facts.keys)
            &&& forall|key: PromptKey| #[trigger]
                facts.keys.contains(key) <==> key.is_generic() && mentions(
                    lexicon,
                    key.category_text(),
                    text,
                )
        },
{
    lemma_found_among(lexicon, text, PromptKey::ordered().len());
    assert(PromptKey::ordered().take(PromptKey::ordered().len() as int) =~= PromptKey::ordered());
    assert forall|key: PromptKey| key.ordinal() < PromptKey::ordered().len() by {}
}

/// Numeric mentions take precedence: where a numeric pattern occurs, the amount
/// is the number of the leftmost-first numeric match, whatever spelled-out
/// number the text holds; a spelled-out number counts only where no numeric
/// pattern occurs; where neither occurs there is no amount.
pub proof fn law_numeric_precedence(lexicon: Lexicon, text: Seq<char>)
    ensures
        parse_outcome(lexicon, text) matches Ok(facts) ==> {
            let nums = numbers(lexicon["amount_num"@])->Some_0;
            &&& lexicon.contains_key("amount_num"@)
            &&& numbers(lexicon["amount_num"@]) is Some
            &&& mentions(lexicon, "amount_num"@, text) ==> facts.amount == Some(
                nums[first_hit(lexicon, "amount_num"@, text)->Some_0.pattern],
            )
            &&& !mentions(lexicon, "amount_num"@, text) && mentions(lexicon, "amount_text"@, text)
                ==> facts.amount == Some(
                spelled_value(nums, first_hit(lexicon, "amount_text"@, text)->Some_0),
            )
            &&& !mentions(lexicon, "amount_num"@, text) && !mentions(
                lexicon,
                "amount_text"@,
                text,
            ) ==> facts.amount is None
        },
{
    lemma_first_hit(lexicon, "amount_num"@, text);
    lemma_first_hit(lexicon, "amount_text"@, text);
}

/// The amount of a numeric match is the number that the matched pattern
/// denotes: where `m` is the leftmost-first match of the numeric patterns, the
/// amount is the value of the pattern at `m.pattern`.
pub proof fn law_amount_by_position(lexicon: Lexicon, text: Seq<char>, m: Occurrence)
    requires
        lexicon.contains_key("amount_num"@),
        is_leftmost_first(encoded(lexicon["amount_num"@]), encode_utf8(text), m),
    ensures
        parse_outcome(lexicon, text) matches Ok(facts) ==> facts.amount == Some(
            numbers(lexicon["amount_num"@])->Some_0[m.pattern],
        ),
{
    lemma_leftmost_first_is(encoded(lexicon["amount_num"@]), encode_utf8(text), m);
}

/// The period is the one at the ordinal position of the period pattern that
/// matches: where `m` is the leftmost-first match of the period patterns, the
/// period is `Period::nth(m.pattern)`, which is none for a position past the
/// last period.
pub proof fn law_period_by_position(lexicon: Lexicon, text: Seq<char>, m: Occurrence)
    requires
        lexicon.contains_key("period"@),
        is_leftmost_first(encoded(lexicon["period"@]), encode_utf8(text), m),
    ensures
        parse_outcome(lexicon, text) matches Ok(facts) ==> facts.period == Period::nth(m.pattern),
        m.pattern >= Period::ordered().len() ==> Period::nth(m.pattern) is None,
        m.pattern < Period::ordered().len() ==> Period::nth(m.pattern) == Some(
            Period::ordered()[m.pattern],
        ),
{
    lemma_leftmost_first_is(encoded(lexicon["period"@]), encode_utf8(text), m);
}

/// Without a period pattern in the text there is no period.
pub proof fn law_no_period(lexicon: Lexicon, text: Seq<char>)
    requires
        !mentions(lexicon, "period"@, text),
    ensures
        parse_outcome(lexicon, text) matches Ok(facts) ==> facts.period is None,
{
    lemma_first_hit(lexicon, "period"@, text);
}

/// A language without dictionary fails with the tag that was asked for,
/// whatever the text; no context comes back.
pub proof fn law_unsupported_language(lang: Seq<char>, text: Seq<char>)
    requires
        !supported(lang),
    ensures
        parse_result(lang, text) == Err::<Facts, Failure>(Failure::UnsupportedLanguage(lang)),
{
}

/// In ASCII text bytes are characters: a pattern stands in the bytes of the
/// haystack exactly where its characters stand in the characters of the
/// haystack, at the same offset and letter for letter, so that upper and lower
/// case differ.
pub proof fn law_ascii_letter_for_letter(pattern: Seq<char>, text: Seq<char>, start: int)
    requires
        is_ascii_chars(pattern),
        is_ascii_chars(text),
    ensures
        occurs_at(encode_utf8(pattern), encode_utf8(text), start) <==> stands_at(
            pattern,
            text,
            start,
        ),
{
    is_ascii_chars_encode_utf8(pattern);
    is_ascii_chars_encode_utf8(text);
    let p = encode_utf8(pattern);
    let t = encode_utf8(text);
    if 0 <= start && start + pattern.len() <= text.len() {
        if occurs_at(p, t, start) {
            assert forall|i: int| 0 <= i < pattern.len() implies text.subrange(
                start,
                start + pattern.len(),
            )[i] == pattern[i] by {
                assert(t.subrange(start, start + p.len())[i] == p[i]);
                assert(t[start + i] == text[start + i] as u8);
                assert(p[i] == pattern[i] as u8);
                lemma_ascii_char(text[start + i], pattern[i]);
            }
            assert(text.subrange(start, start + pattern.len()) =~= pattern);
        }
        if stands_at(pattern, text, start) {
            assert forall|i: int| 0 <= i < p.len() implies t.subrange(start, start + p.len())[i]
                == p[i] by {
                assert(text.subrange(start, start + pattern.len())[i] == pattern[i]);
                assert(t[start + i] == text[start + i] as u8);
                assert(p[i] == pattern[i] as u8);
            }
            assert(t.subrange(start, start + p.len()) =~= p);
        }
    }
}

/// Two ASCII characters with the same byte are the same character.
proof fn lemma_ascii_char(a: char, b: char)
    requires
        a <= '\u{7f}',
        b <= '\u{7f}',
        a as u8 == b as u8,
    ensures
        a == b,
{
    assert(a as u32 == b as u32);
}

/// The patterns that messages hold are words: none is empty, none holds white
/// space.
pub proof fn law_message_patterns_are_words(
    locales: Seq<LocaleText>,
    lang: Seq<char>,
    name: Seq<char>,
)
    requires
        messages_lexicon(locales, lang).contains_key(name),
    ensures
        forall|i: int|
            0 <= i < messages_lexicon(locales, lang)[name].len() ==> is_word(
                #[trigger] messages_lexicon(locales, lang)[name][i],
            ),
        none_empty(messages_lexicon(locales, lang)[name]),
{
    let line = message_text(locales, lang, words_message(name), Seq::empty())->Some_0;
    lemma_words(line, 0);
}

/// A language without a locale of its own is served by the English one: its
/// messages, its dictionary and its parses are those of English.
pub proof fn law_fallback_to_english(locales: Seq<LocaleText>, lang: Seq<char>, text: Seq<char>)
    requires
        last_locale(locales, lang) is None,
    ensures
        forall|id: Seq<char>, args: Seq<(Seq<char>, Seq<char>)>|
            #[trigger] message_text(locales, lang, id, args) == message_text(
                locales,
                "en"@,
                id,
                args,
            ),
        served_lexicon(locales, lang) == served_lexicon(locales, "en"@),
        localized_result(locales, lang, text) is Ok ==> localized_result(locales, lang, text)
            == localized_result(locales, "en"@, text),
{
    assert(messages_lexicon(locales, lang) =~= messages_lexicon(locales, "en"@));
}

/// Without a locale for the language and without an English one, a parse fails
/// with the tag that was asked for.
pub proof fn law_unserved_language(locales: Seq<LocaleText>, lang: Seq<char>, text: Seq<char>)
    requires
        last_locale(locales, lang) is None,
        last_locale(locales, "en"@) is None,
    ensures
        localized_result(locales, lang, text) == Err::<Facts, Failure>(
            Failure::UnsupportedLanguage(lang),
        ),
{
}

/// The numbers of the English numeric patterns are one to ten.
pub proof fn lemma_english_numbers()
    ensures
        numbers(seq!["1"@, "2"@, "3"@, "4"@, "5"@, "6"@, "7"@, "8"@, "9"@, "10"@]) == Some(
            seq![1usize, 2usize, 3usize, 4usize, 5usize, 6usize, 7usize, 8usize, 9usize, 10usize],
        ),
{
    reveal_strlit("1");
    reveal_strlit("2");
    reveal_strlit("3");
    reveal_strlit("4");
    reveal_strlit("5");
    reveal_strlit("6");
    reveal_strlit("7");
    reveal_strlit("8");
    reveal_strlit("9");
    reveal_strlit("10");
    lemma_one_digit('1');
    lemma_one_digit('2');
    lemma_one_digit('3');
    lemma_one_digit('4');
    lemma_one_digit('5');
    lemma_one_digit('6');
    lemma_one_digit('7');
    lemma_one_digit('8');
    lemma_one_digit('9');
    lemma_two_digits('1', '0');
    assert("1"@ =~= seq!['1']);
    assert("2"@ =~= seq!['2']);
    assert("3"@ =~= seq!['3']);
    assert("4"@ =~= seq!['4']);
    assert("5"@ =~= seq!['5']);
    assert("6"@ =~= seq!['6']);
    assert("7"@ =~= seq!['7']);
    assert("8"@ =~= seq!['8']);
    assert("9"@ =~= seq!['9']);
    assert("10"@ =~= seq!['1', '0']);
    let patterns = seq!["1"@, "2"@, "3"@, "4"@, "5"@, "6"@, "7"@, "8"@, "9"@, "10"@];
    assert(numbers(patterns)->Some_0 =~= seq![
        1usize,
        2usize,
        3usize,
        4usize,
        5usize,
        6usize,
        7usize,
        8usize,
        9usize,
        10usize,
    ]);
}

/// English is configured soundly: a parse in English fails only where an
/// automaton cannot be built, and succeeds where every category can be
/// searched.
pub proof fn law_english_parse(text: Seq<char>)
    ensures
        parse_result("en"@, text) matches Err(reason) ==> reason == Failure::Build,
        (forall|name: Seq<char>| searchable(english(), name)) ==> parse_result("en"@, text) is Ok,
{
    lemma_english_categories();
    lemma_english_numbers();
}

} // verus!
