//! Per-language dictionaries: for each category name an ordered list of
//! surface forms. The order of a list is the priority of its patterns and, for
//! periods and amounts, the value that a pattern stands for.

use crate::error::{Failure, ParserError};
use crate::text::{same_text, texts};
use vstd::prelude::*;
use vstd::string::*;

verus! {

/// A dictionary as a mathematical value: category name to pattern list.
pub type Lexicon = Map<Seq<char>, Seq<Seq<char>>>;

/// The pattern list of category `name`, if the lexicon has that category.
pub open spec fn lookup(lexicon: Lexicon, name: Seq<char>) -> Option<Seq<Seq<char>>> {
    if lexicon.contains_key(name) {
        Some(lexicon[name])
    } else {
        None
    }
}

/// One category of a dictionary.
#[derive(Debug)]
struct DictionaryEntry {
    name: String,
    patterns: Vec<String>,
}

/// The dictionary of one language. A category that is inserted again replaces
/// the earlier one.
#[derive(Debug)]
pub struct LanguageDictionary {
    entries: Vec<DictionaryEntry>,
}

/// The lexicon that a list of entries stands for: a later entry replaces an
/// earlier one of the same name.
spec fn entries_lexicon(entries: Seq<DictionaryEntry>) -> Lexicon
    decreases entries.len(),
{
    if entries.len() == 0 {
        Map::empty()
    } else {
        entries_lexicon(entries.drop_last()).insert(
            entries.last().name@,
            texts(entries.last().patterns@),
        )
    }
}

/// The index of the last entry named `name`, if there is one.
spec fn last_named(entries: Seq<DictionaryEntry>, name: Seq<char>) -> Option<int>
    decreases entries.len(),
{
    if entries.len() == 0 {
        None
    } else if entries.last().name@ == name {
        Some(entries.len() - 1)
    } else {
        last_named(entries.drop_last(), name)
    }
}

/// A category is in the lexicon exactly where an entry has its name, and its
/// patterns are those of the last such entry.
proof fn lemma_entries_lexicon(entries: Seq<DictionaryEntry>, name: Seq<char>)
    ensures
        match last_named(entries, name) {
            Some(k) => 0 <= k < entries.len() && lookup(entries_lexicon(entries), name) == Some(
                texts(entries[k].patterns@),
            ),
            None => lookup(entries_lexicon(entries), name) is None,
        },
    decreases entries.len(),
{
    if entries.len() > 0 {
        lemma_entries_lexicon(entries.drop_last(), name);
    }
}

impl View for LanguageDictionary {
    type V = Lexicon;

    closed spec fn view(&self) -> Lexicon {
        entries_lexicon(self.entries@)
    }
}

impl LanguageDictionary {
    /// A dictionary without categories.
    pub fn new() -> (r: Self)
        ensures
            r@ == Map::<Seq<char>, Seq<Seq<char>>>::empty(),
    {
        LanguageDictionary { entries: Vec::new() }
    }

    /// Sets the pattern list of category `name`.
    pub fn insert(&mut self, name: &str, patterns: Vec<String>)
        ensures
            final(self)@ == old(self)@.insert(name@, texts(patterns@)),
    {
        let entry = DictionaryEntry { name: String::from_str(name), patterns };
        self.entries.push(entry);
        assert(self.entries@.drop_last() =~= old(self).entries@);
    }

    /// The pattern list of category `name`, if the dictionary has that category.
    pub fn get(&self, name: &str) -> (r: Option<&Vec<String>>)
        ensures
            match r {
                Some(patterns) => lookup(self@, name@) == Some(texts(patterns@)),
                None => lookup(self@, name@) is None,
            },
    {
        let mut i: usize = self.entries.len();
        assert(self.entries@.take(i as int) =~= self.entries@);
        while i > 0
            invariant
                i <= self.entries.len(),
                last_named(self.entries@, name@) == last_named(self.entries@.take(i as int), name@),
            decreases i,
        {
            assert(self.entries@.take(i as int).drop_last() =~= self.entries@.take(i - 1));
            i -= 1;
            if same_text(self.entries[i].name.as_str(), name) {
                proof {
                    assert(self.entries@.take(i + 1).last() == self.entries@[i as int]);
                    lemma_entries_lexicon(self.entries@, name@);
                }
                return Some(&self.entries[i].patterns);
            }
        }
        proof {
            lemma_entries_lexicon(self.entries@, name@);
        }
        None
    }
}

/// Whether a dictionary exists for the language tag.
pub open spec fn supported(lang: Seq<char>) -> bool {
    lang == "en"@
}

/// The English lexicon.
pub open spec fn english() -> Lexicon {
    Map::<Seq<char>, Seq<Seq<char>>>::empty().insert(
        "object"@,
        seq!["build"@, "construct"@, "object"@, "create"@, "make"@],
    ).insert(
        "document"@,
        seq!["picture"@, "image"@, "video"@, "report"@, "document"@, "file"@],
    ).insert("description"@, seq!["describe"@, "modification"@, "alteration"@]).insert(
        "comparison"@,
        seq!["compar"@, "differ"@, "detect"@, "update"@, "change"@],
    ).insert("last"@, seq!["last"@, "previous"@, "recent"@]).insert(
        "new"@,
        seq!["new"@, "latest"@, "current"@],
    ).insert("all"@, seq!["all"@, "every"@, "entire"@, "complete"@]).insert(
        "period"@,
        seq!["day"@, "week"@, "month"@, "quarter"@, "year"@],
    ).insert(
        "amount_num"@,
        seq!["1"@, "2"@, "3"@, "4"@, "5"@, "6"@, "7"@, "8"@, "9"@, "10"@],
    ).insert(
        "amount_text"@,
        seq![
            "one"@,
            "two"@,
            "three"@,
            "four"@,
            "five"@,
            "six"@,
            "seven"@,
            "eight"@,
            "nine"@,
            "ten"@,
        ],
    )
}

/// The ten categories of the English lexicon are distinct names, so each of
/// them has the pattern list that it was given.
pub proof fn lemma_english_categories()
    ensures
        lookup(english(), "object"@) == Some(
            seq!["build"@, "construct"@, "object"@, "create"@, "make"@],
        ),
        lookup(english(), "document"@) == Some(
            seq!["picture"@, "image"@, "video"@, "report"@, "document"@, "file"@],
        ),
        lookup(english(), "description"@) == Some(
            seq!["describe"@, "modification"@, "alteration"@],
        ),
        lookup(english(), "comparison"@) == Some(
            seq!["compar"@, "differ"@, "detect"@, "update"@, "change"@],
        ),
        lookup(english(), "last"@) == Some(seq!["last"@, "previous"@, "recent"@]),
        lookup(english(), "new"@) == Some(seq!["new"@, "latest"@, "current"@]),
        lookup(english(), "all"@) == Some(seq!["all"@, "every"@, "entire"@, "complete"@]),
        lookup(english(), "period"@) == Some(
            seq!["day"@, "week"@, "month"@, "quarter"@, "year"@],
        ),
        lookup(english(), "amount_num"@) == Some(
            seq!["1"@, "2"@, "3"@, "4"@, "5"@, "6"@, "7"@, "8"@, "9"@, "10"@],
        ),
        lookup(english(), "amount_text"@) == Some(
            seq![
                "one"@,
                "two"@,
                "three"@,
                "four"@,
                "five"@,
                "six"@,
                "seven"@,
                "eight"@,
                "nine"@,
                "ten"@,
            ],
        ),
{
    reveal_strlit("object");
    reveal_strlit("document");
    reveal_strlit("description");
    reveal_strlit("comparison");
    reveal_strlit("last");
    reveal_strlit("new");
    reveal_strlit("all");
    reveal_strlit("period");
    reveal_strlit("amount_num");
    reveal_strlit("amount_text");
    assert("object"@.len() == 6 && "object"@[0] == 'o');
    assert("document"@.len() == 8);
    assert("description"@.len() == 11 && "description"@[0] == 'd');
    assert("comparison"@.len() == 10 && "comparison"@[0] == 'c');
    assert("last"@.len() == 4);
    assert("new"@.len() == 3 && "new"@[0] == 'n');
    assert("all"@.len() == 3 && "all"@[0] == 'a');
    assert("period"@.len() == 6 && "period"@[0] == 'p');
    assert("amount_num"@.len() == 10 && "amount_num"@[0] == 'a');
    assert("amount_text"@.len() == 11 && "amount_text"@[0] == 'a');
}

/// The lexicon of a language, if it is supported.
pub open spec fn lexicon_of(lang: Seq<char>) -> Option<Lexicon> {
    if supported(lang) {
        Some(english())
    } else {
        None
    }
}

/// Owned copies of `words`, in the same order.
fn word_list(words: Vec<&'static str>) -> (r: Vec<String>)
    ensures
        texts(r@) == Seq::new(words@.len(), |i: int| words@[i]@),
{
    let mut r: Vec<String> = Vec::new();
    let mut i: usize = 0;
    while i < words.len()
        invariant
            i <= words.len(),
            r@.len() == i,
            forall|j: int| 0 <= j < i ==> r@[j]@ == words@[j]@,
        decreases words.len() - i,
    {
        r.push(String::from_str(words[i]));
        i += 1;
    }
    assert(texts(r@) =~= Seq::new(words@.len(), |i: int| words@[i]@));
    r
}

/// The English dictionary.
pub fn words_en() -> (r: LanguageDictionary)
    ensures
        r@ == english(),
{
    let mut d = LanguageDictionary::new();
    let words = word_list(vec!["build", "construct", "object", "create", "make"]);
    assert(texts(words@) =~= seq!["build"@, "construct"@, "object"@, "create"@, "make"@]);
    d.insert("object", words);
    let words = word_list(vec!["picture", "image", "video", "report", "document", "file"]);
    assert(texts(words@) =~= seq![
        "picture"@,
        "image"@,
        "video"@,
        "report"@,
        "document"@,
        "file"@,
    ]);
    d.insert("document", words);
    let words = word_list(vec!["describe", "modification", "alteration"]);
    assert(texts(words@) =~= seq!["describe"@, "modification"@, "alteration"@]);
    d.insert("description", words);
    let words = word_list(vec!["compar", "differ", "detect", "update", "change"]);
    assert(texts(words@) =~= seq!["compar"@, "differ"@, "detect"@, "update"@, "change"@]);
    d.insert("comparison", words);
    let words = word_list(vec!["last", "previous", "recent"]);
    assert(texts(words@) =~= seq!["last"@, "previous"@, "recent"@]);
    d.insert("last", words);
    let words = word_list(vec!["new", "latest", "current"]);
    assert(texts(words@) =~= seq!["new"@, "latest"@, "current"@]);
    d.insert("new", words);
    let words = word_list(vec!["all", "every", "entire", "complete"]);
    assert(texts(words@) =~= seq!["all"@, "every"@, "entire"@, "complete"@]);
    d.insert("all", words);
    let words = word_list(vec!["day", "week", "month", "quarter", "year"]);
    assert(texts(words@) =~= seq!["day"@, "week"@, "month"@, "quarter"@, "year"@]);
    d.insert("period", words);
    let words = word_list(vec!["1", "2", "3", "4", "5", "6", "7", "8", "9", "10"]);
    assert(texts(words@) =~= seq!["1"@, "2"@, "3"@, "4"@, "5"@, "6"@, "7"@, "8"@, "9"@, "10"@]);
    d.insert("amount_num", words);
    let words = word_list(
        vec!["one", "two", "three", "four", "five", "six", "seven", "eight", "nine", "ten"],
    );
    assert(texts(words@) =~= seq![
        "one"@,
        "two"@,
        "three"@,
        "four"@,
        "five"@,
        "six"@,
        "seven"@,
        "eight"@,
        "nine"@,
        "ten"@,
    ]);
    d.insert("amount_text", words);
    d
}

/// The dictionary of language `lang`. Only a fixed set of languages has one; any
/// other tag is an error that names the tag.
pub fn get_dictionary(lang: &str) -> (r: Result<LanguageDictionary, ParserError>)
    ensures
        match r {
            Ok(dictionary) => lexicon_of(lang@) == Some(dictionary@),
            Err(e) => lexicon_of(lang@) is None && e@ == Failure::UnsupportedLanguage(lang@),
        },
{
    if same_text(lang, "en") {
        Ok(words_en())
    } else {
        Err(ParserError::UnsupportedLanguage(String::from_str(lang)))
    }
}

} // verus!
