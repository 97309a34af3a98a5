//! Localised messages. Each language has its messages as the text of a Fluent
//! resource; the `fluent-bundle` crate reads the resource and formats a
//! message with its arguments. This module chooses the language, falling back
//! to English, and names the arguments.

use crate::dictionary::{LanguageDictionary, Lexicon};
use crate::error::{Failure, ParserError};
use crate::text::{optional_text, same_text, texts};
use crate::words::{split_words, words_of};
use fluent_bundle::{FluentArgs, FluentBundle, FluentResource};
use unic_langid::LanguageIdentifier;
use vstd::prelude::*;
use vstd::string::*;

verus! {

/// The languages that the application has messages for.
pub const LANGUAGES: [&'static str; 2] = ["en", "de"];

/// The messages of one language as a mathematical value: the language tag and
/// the text of the Fluent resource.
pub struct LocaleText {
    pub lang: Seq<char>,
    pub source: Seq<char>,
}

/// The texts of a list of named arguments.
pub open spec fn pairs(args: Seq<(String, String)>) -> Seq<(Seq<char>, Seq<char>)> {
    Seq::new(args.len(), |i: int| (args[i].0@, args[i].1@))
}

/// What `fluent-bundle` makes of message `id` of the resource `source` in
/// language `lang` with the named arguments `args`: the formatted text, or
/// nothing where the language tag or the resource is not accepted or the
/// resource has no message `id` with a value.
pub uninterp spec fn fluent_text(
    lang: Seq<char>,
    source: Seq<char>,
    id: Seq<char>,
    args: Seq<(Seq<char>, Seq<char>)>,
) -> Option<Seq<char>>;

/// Formats one message with `fluent-bundle`: parses `source` with
/// `FluentResource::try_new` and `lang` as a `LanguageIdentifier`, puts the
/// resource in a `FluentBundle::new` for that language with `add_resource`,
/// gets the message with `get_message` and `FluentMessage::value`, and formats
/// it with `format_pattern` and the arguments as string values. Gives nothing
/// where one of the first five steps fails. Trusted: that the outcome depends
/// on the four arguments alone.
#[verifier::external_body]
fn fluent_message(lang: &str, source: &str, id: &str, args: &Vec<(String, String)>) -> (r: Option<
    String,
>)
    ensures
        optional_text(r) == fluent_text(lang@, source@, id@, pairs(args@)),
{
    let resource = FluentResource::try_new(source.to_string()).ok()?;
    let mut bundle = FluentBundle::new(vec![lang.parse::<LanguageIdentifier>().ok()?]);
    bundle.add_resource(resource).ok()?;
    let named: FluentArgs = args.iter().map(|pair| (pair.0.as_str(), pair.1.as_str())).collect();
    let pattern = bundle.get_message(id)?.value()?;
    let mut errors = vec![];
    Some(bundle.format_pattern(pattern, Some(&named), &mut errors).to_string())
}

/// The index of the last locale of language `lang`, if there is one.
pub open spec fn last_locale(locales: Seq<LocaleText>, lang: Seq<char>) -> Option<int>
    decreases locales.len(),
{
    if locales.len() == 0 {
        None
    } else if locales.last().lang == lang {
        Some(locales.len() - 1)
    } else {
        last_locale(locales.drop_last(), lang)
    }
}

/// The locale that serves language `lang`: its own, or else the English one.
pub open spec fn serving_locale(locales: Seq<LocaleText>, lang: Seq<char>) -> Option<int> {
    match last_locale(locales, lang) {
        Some(i) => Some(i),
        None => last_locale(locales, "en"@),
    }
}

/// The text of message `id` in language `lang` with the arguments `args`, if
/// a locale serves the language and has the message.
pub open spec fn message_text(
    locales: Seq<LocaleText>,
    lang: Seq<char>,
    id: Seq<char>,
    args: Seq<(Seq<char>, Seq<char>)>,
) -> Option<Seq<char>> {
    match serving_locale(locales, lang) {
        Some(i) => fluent_text(locales[i].lang, locales[i].source, id, args),
        None => None,
    }
}

/// The categories that a dictionary may have: those of the generic keys, the
/// periods, and the two lists of amounts.
pub open spec fn categories() -> Seq<Seq<char>> {
    seq![
        "object"@,
        "document"@,
        "description"@,
        "comparison"@,
        "last"@,
        "new"@,
        "all"@,
        "period"@,
        "amount_num"@,
        "amount_text"@,
    ]
}

/// The message that holds the words of a category, as one line: the two lists
/// of amounts under their own names, every other category under its name
/// with `-words` behind it.
pub open spec fn words_message(category: Seq<char>) -> Seq<char> {
    if category == "amount_num"@ || category == "amount_text"@ {
        category
    } else {
        category + "-words"@
    }
}

/// The words of a category in language `lang`, if its message can be had.
pub open spec fn category_words(locales: Seq<LocaleText>, lang: Seq<char>, category: Seq<char>)
    -> Option<Seq<Seq<char>>> {
    match message_text(locales, lang, words_message(category), Seq::empty()) {
        Some(line) => Some(words_of(line)),
        None => None,
    }
}

/// The lexicon that the messages of language `lang` hold: each category
/// whose message can be had, with the words of that message.
pub open spec fn messages_lexicon(locales: Seq<LocaleText>, lang: Seq<char>) -> Lexicon {
    Map::new(
        |name: Seq<char>| categories().contains(name) && category_words(locales, lang, name) is Some,
        |name: Seq<char>| category_words(locales, lang, name)->Some_0,
    )
}

/// The lexicon of language `lang`, if a locale serves the language.
pub open spec fn served_lexicon(locales: Seq<LocaleText>, lang: Seq<char>) -> Option<Lexicon> {
    if serving_locale(locales, lang) is Some {
        Some(messages_lexicon(locales, lang))
    } else {
        None
    }
}

/// Whether `name` is one of the first `count` categories.
spec fn among_first(count: int, name: Seq<char>) -> bool {
    exists|j: int| 0 <= j < count && j < categories().len() && #[trigger] categories()[j] == name
}

/// The lexicon of the first `count` categories.
spec fn lexicon_until(locales: Seq<LocaleText>, lang: Seq<char>, count: int) -> Lexicon {
    Map::new(
        |name: Seq<char>| among_first(count, name) && category_words(locales, lang, name) is Some,
        |name: Seq<char>| category_words(locales, lang, name)->Some_0,
    )
}

/// How `among_first` grows with `count`, and what it is at both ends.
proof fn lemma_among_first(count: int, name: Seq<char>)
    requires
        0 <= count < categories().len(),
    ensures
        among_first(count + 1, name) <==> among_first(count, name) || name == categories()[count],
        among_first(0, name) == false,
        among_first(categories().len() as int, name) <==> categories().contains(name),
{
    if among_first(count + 1, name) {
        let j = choose|j: int|
            0 <= j < count + 1 && j < categories().len() && #[trigger] categories()[j] == name;
        if j < count {
            assert(among_first(count, name));
        }
    }
    if among_first(count, name) {
        let j = choose|j: int|
            0 <= j < count && j < categories().len() && #[trigger] categories()[j] == name;
        assert(categories()[j] == name);
    }
    if name == categories()[count] {
        assert(among_first(count + 1, name));
    }
    if categories().contains(name) {
        let j = choose|j: int| 0 <= j < categories().len() && categories()[j] == name;
        assert(categories()[j] == name);
    }
}

/// The names of the categories.
fn category_names() -> (r: Vec<&'static str>)
    ensures
        r@.len() == categories().len(),
        forall|i: int| 0 <= i < r@.len() ==> (#[trigger] r@[i])@ == categories()[i],
{
    vec![
        "object",
        "document",
        "description",
        "comparison",
        "last",
        "new",
        "all",
        "period",
        "amount_num",
        "amount_text",
    ]
}

/// The name of the message that holds the words of `category`.
pub fn message_of(category: &str) -> (r: String)
    ensures
        r@ == words_message(category@),
{
    if same_text(category, "amount_num") || same_text(category, "amount_text") {
        String::from_str(category)
    } else {
        String::from_str(category).concat("-words")
    }
}

/// The named arguments of a message with one parameter.
pub open spec fn one_param(param1: Seq<char>) -> Seq<(Seq<char>, Seq<char>)> {
    seq![("p1"@, param1)]
}

/// The named arguments of a message with two parameters.
pub open spec fn two_params(param1: Seq<char>, param2: Seq<char>) -> Seq<(Seq<char>, Seq<char>)> {
    seq![("p1"@, param1), ("p2"@, param2)]
}

/// The named arguments of a message with three parameters.
pub open spec fn three_params(param1: Seq<char>, param2: Seq<char>, param3: Seq<char>) -> Seq<
    (Seq<char>, Seq<char>),
> {
    seq![("p1"@, param1), ("p2"@, param2), ("p3"@, param3)]
}

/// The messages of the application, language by language.
#[derive(Debug)]
pub struct TextManager {
    locales: Vec<(String, String)>,
}

impl View for TextManager {
    type V = Seq<LocaleText>;

    closed spec fn view(&self) -> Seq<LocaleText> {
        Seq::new(
            self.locales@.len(),
            |i: int| LocaleText { lang: self.locales@[i].0@, source: self.locales@[i].1@ },
        )
    }
}

impl TextManager {
    /// The messages of the given locales: pairs of a language tag and the text
    /// of a Fluent resource. A language that comes twice has the messages that
    /// come last.
    pub fn new(locales: Vec<(String, String)>) -> (r: Self)
        ensures
            r@ == Seq::new(
                locales@.len(),
                |i: int| LocaleText { lang: locales@[i].0@, source: locales@[i].1@ },
            ),
    {
        TextManager { locales }
    }

    /// The index of the last locale of language `lang`.
    fn find_locale(&self, lang: &str) -> (r: Option<usize>)
        ensures
            match r {
                Some(i) => i < self@.len() && last_locale(self@, lang@) == Some(i as int),
                None => last_locale(self@, lang@) is None,
            },
    {
        let mut i: usize = self.locales.len();
        assert(self@.take(i as int) =~= self@);
        while i > 0
            invariant
                i <= self.locales.len(),
                self@.len() == self.locales@.len(),
                last_locale(self@, lang@) == last_locale(self@.take(i as int), lang@),
            decreases i,
        {
            assert(self@.take(i as int).drop_last() =~= self@.take(i - 1));
            i -= 1;
            assert(self@.take(i + 1).last() == self@[i as int]);
            if same_text(self.locales[i].0.as_str(), lang) {
                return Some(i);
            }
        }
        None
    }

    /// The index of the locale that serves language `lang`: its own, or else
    /// the English one.
    fn serving(&self, lang: &str) -> (r: Option<usize>)
        ensures
            match r {
                Some(i) => i < self@.len() && serving_locale(self@, lang@) == Some(i as int),
                None => serving_locale(self@, lang@) is None,
            },
    {
        match self.find_locale(lang) {
            Some(i) => Some(i),
            None => self.find_locale("en"),
        }
    }

    /// The message as `fluent-bundle` formats it, from the locale that serves
    /// the language.
    fn format(&self, lang: &str, msg_id: &str, args: &Vec<(String, String)>) -> (r: Option<String>)
        ensures
            optional_text(r) == message_text(self@, lang@, msg_id@, pairs(args@)),
    {
        match self.serving(lang) {
            Some(i) => fluent_message(
                self.locales[i].0.as_str(),
                self.locales[i].1.as_str(),
                msg_id,
                args,
            ),
            None => None,
        }
    }

    /// Whether message `msg_id` can be had in language `lang` with the named
    /// arguments `args`: a locale serves the language, its resource is a valid
    /// one, and it has the message.
    pub fn has_msg(&self, lang: &str, msg_id: &str, args: &Vec<(String, String)>) -> (r: bool)
        ensures
            r == message_text(self@, lang@, msg_id@, pairs(args@)) is Some,
    {
        self.format(lang, msg_id, args).is_some()
    }

    /// The text of message `msg_id` in language `lang`, without arguments.
    pub fn get_msg(&self, lang: &str, msg_id: &str) -> (r: String)
        requires
            message_text(self@, lang@, msg_id@, Seq::empty()) is Some,
        ensures
            Some(r@) == message_text(self@, lang@, msg_id@, Seq::empty()),
    {
        let args: Vec<(String, String)> = Vec::new();
        assert(pairs(args@) =~= Seq::empty());
        self.get_msg_with_args(lang, msg_id, args)
    }

    /// The text of message `msg_id` in language `lang`, with `param1` as its
    /// argument `p1`.
    pub fn get_msg1(&self, lang: &str, msg_id: &str, param1: &str) -> (r: String)
        requires
            message_text(self@, lang@, msg_id@, one_param(param1@)) is Some,
        ensures
            Some(r@) == message_text(self@, lang@, msg_id@, one_param(param1@)),
    {
        let args = vec![(String::from_str("p1"), String::from_str(param1))];
        assert(pairs(args@) =~= one_param(param1@));
        self.get_msg_with_args(lang, msg_id, args)
    }

    /// The text of message `msg_id` in language `lang`, with the parameters as
    /// its arguments `p1` and `p2`.
    pub fn get_msg2(&self, lang: &str, msg_id: &str, param1: &str, param2: &str) -> (r: String)
        requires
            message_text(self@, lang@, msg_id@, two_params(param1@, param2@)) is Some,
        ensures
            Some(r@) == message_text(self@, lang@, msg_id@, two_params(param1@, param2@)),
    {
        let args = vec![
            (String::from_str("p1"), String::from_str(param1)),
            (String::from_str("p2"), String::from_str(param2)),
        ];
        assert(pairs(args@) =~= two_params(param1@, param2@));
        self.get_msg_with_args(lang, msg_id, args)
    }

    /// The text of message `msg_id` in language `lang`, with the parameters as
    /// its arguments `p1`, `p2` and `p3`.
    pub fn get_msg3(
        &self,
        lang: &str,
        msg_id: &str,
        param1: &str,
        param2: &str,
        param3: &str,
    ) -> (r: String)
        requires
            message_text(self@, lang@, msg_id@, three_params(param1@, param2@, param3@)) is Some,
        ensures
            Some(r@) == message_text(self@, lang@, msg_id@, three_params(param1@, param2@, param3@)),
    {
        let args = vec![
            (String::from_str("p1"), String::from_str(param1)),
            (String::from_str("p2"), String::from_str(param2)),
            (String::from_str("p3"), String::from_str(param3)),
        ];
        assert(pairs(args@) =~= three_params(param1@, param2@, param3@));
        self.get_msg_with_args(lang, msg_id, args)
    }

    /// The text of message `msg_id` in the language `lang`, or in English where
    /// the language has no locale, formatted with the named arguments `args`.
    pub fn get_msg_with_args(&self, lang: &str, msg_id: &str, args: Vec<(String, String)>) -> (r:
        String)
        requires
            message_text(self@, lang@, msg_id@, pairs(args@)) is Some,
        ensures
            Some(r@) == message_text(self@, lang@, msg_id@, pairs(args@)),
    {
        self.format(lang, msg_id, &args).unwrap()
    }

    /// The words of message `msg_id` in language `lang`: a pattern list is kept
    /// as one message, its patterns parted by white space.
    pub fn split_msg(&self, lang: &str, msg_id: &str) -> (r: Vec<String>)
        requires
            message_text(self@, lang@, msg_id@, Seq::empty()) is Some,
        ensures
            texts(r@) == words_of(message_text(self@, lang@, msg_id@, Seq::empty())->Some_0),
    {
        let line = self.get_msg(lang, msg_id);
        split_words(line.as_str())
    }

    /// The dictionary that the messages of language `lang` hold, or of
    /// English where the language has no locale. Fails where no locale serves
    /// the language.
    pub fn dictionary(&self, lang: &str) -> (r: Result<LanguageDictionary, ParserError>)
        ensures
            match r {
                Ok(dictionary) => served_lexicon(self@, lang@) == Some(dictionary@),
                Err(e) => served_lexicon(self@, lang@) is None && e@
                    == Failure::UnsupportedLanguage(lang@),
            },
    {
        if self.serving(lang).is_none() {
            return Err(ParserError::UnsupportedLanguage(String::from_str(lang)));
        }
        let names = category_names();
        let no_args: Vec<(String, String)> = Vec::new();
        assert(pairs(no_args@) =~= Seq::empty());
        let mut dictionary = LanguageDictionary::new();
        assert(dictionary@ =~= lexicon_until(self@, lang@, 0)) by {
            assert forall|other: Seq<char>| !among_first(0, other) by {
                lemma_among_first(0, other);
            }
        }
        let mut i: usize = 0;
        while i < names.len()
            invariant
                i <= names.len(),
                names@.len() == categories().len(),
                forall|j: int| 0 <= j < names@.len() ==> (#[trigger] names@[j])@ == categories()[j],
                pairs(no_args@) == Seq::<(Seq<char>, Seq<char>)>::empty(),
                dictionary@ == lexicon_until(self@, lang@, i as int),
            decreases names.len() - i,
        {
            let name = names[i];
            let msg_id = message_of(name);
            if self.has_msg(lang, msg_id.as_str(), &no_args) {
                let words = self.split_msg(lang, msg_id.as_str());
                dictionary.insert(name, words);
            }
            assert(categories()[i as int] == name@);
            assert(dictionary@ =~= lexicon_until(self@, lang@, i + 1)) by {
                assert forall|other: Seq<char>| #[trigger]
                    among_first(i + 1, other) <==> among_first(i as int, other) || other
                        == name@ by {
                    lemma_among_first(i as int, other);
                }
            }
            i += 1;
        }
        assert(dictionary@ =~= messages_lexicon(self@, lang@)) by {
            assert forall|other: Seq<char>| #[trigger]
                among_first(categories().len() as int, other) <==> categories().contains(
                    other,
                ) by {
                lemma_among_first(0, other);
            }
        }
        Ok(dictionary)
    }

    /// `get_msg`, or nothing where the message cannot be had.
    pub fn find_msg(&self, lang: &str, msg_id: &str) -> (r: Option<String>)
        ensures
            optional_text(r) == message_text(self@, lang@, msg_id@, Seq::empty()),
    {
        let args: Vec<(String, String)> = Vec::new();
        assert(pairs(args@) =~= Seq::empty());
        if self.has_msg(lang, msg_id, &args) {
            Some(self.get_msg(lang, msg_id))
        } else {
            None
        }
    }

    /// `get_msg1`, or nothing where the message cannot be had.
    pub fn find_msg1(&self, lang: &str, msg_id: &str, param1: &str) -> (r: Option<String>)
        ensures
            optional_text(r) == message_text(self@, lang@, msg_id@, one_param(param1@)),
    {
        let args = vec![(String::from_str("p1"), String::from_str(param1))];
        assert(pairs(args@) =~= one_param(param1@));
        if self.has_msg(lang, msg_id, &args) {
            Some(self.get_msg1(lang, msg_id, param1))
        } else {
            None
        }
    }

    /// `get_msg2`, or nothing where the message cannot be had.
    pub fn find_msg2(&self, lang: &str, msg_id: &str, param1: &str, param2: &str) -> (r: Option<
        String,
    >)
        ensures
            optional_text(r) == message_text(self@, lang@, msg_id@, two_params(param1@, param2@)),
    {
        let args = vec![
            (String::from_str("p1"), String::from_str(param1)),
            (String::from_str("p2"), String::from_str(param2)),
        ];
        assert(pairs(args@) =~= two_params(param1@, param2@));
        if self.has_msg(lang, msg_id, &args) {
            Some(self.get_msg2(lang, msg_id, param1, param2))
        } else {
            None
        }
    }

    /// `get_msg3`, or nothing where the message cannot be had.
    pub fn find_msg3(
        &self,
        lang: &str,
        msg_id: &str,
        param1: &str,
        param2: &str,
        param3: &str,
    ) -> (r: Option<String>)
        ensures
            optional_text(r) == message_text(
                self@,
                lang@,
                msg_id@,
                three_params(param1@, param2@, param3@),
            ),
    {
        let args = vec![
            (String::from_str("p1"), String::from_str(param1)),
            (String::from_str("p2"), String::from_str(param2)),
            (String::from_str("p3"), String::from_str(param3)),
        ];
        assert(pairs(args@) =~= three_params(param1@, param2@, param3@));
        if self.has_msg(lang, msg_id, &args) {
            Some(self.get_msg3(lang, msg_id, param1, param2, param3))
        } else {
            None
        }
    }

    /// `get_msg_with_args`, or nothing where the message cannot be had.
    pub fn find_msg_with_args(&self, lang: &str, msg_id: &str, args: Vec<(String, String)>) -> (r:
        Option<String>)
        ensures
            optional_text(r) == message_text(self@, lang@, msg_id@, pairs(args@)),
    {
        if self.has_msg(lang, msg_id, &args) {
            Some(self.get_msg_with_args(lang, msg_id, args))
        } else {
            None
        }
    }
}

} // verus!
