use prompt_context::dictionary::LanguageDictionary;
use prompt_context::{ContextParser, ParserError, Period, PromptContext, PromptKey};

fn words(list: &str) -> Vec<String> {
    list.split_whitespace().map(String::from).collect()
}

fn parse_en(prompt: &str) -> PromptContext {
    let mut parser = ContextParser::new();
    parser.parse("en", prompt).unwrap()
}

#[test]
fn test_basic_parsing() {
    let result = parse_en("Detect changes during last two weeks");

    assert!(result.has_key(PromptKey::Comparison));
    assert!(result.has_key(PromptKey::Last));
    assert_eq!(result.period(), Some(Period::Week));
    assert_eq!(result.amount(), Some(2));
}

#[test]
fn test_amount_numeric() {
    let result = parse_en("Show 5 reports");
    assert_eq!(result.amount(), Some(5));
}

#[test]
fn test_amount_text() {
    let result = parse_en("Show three reports");
    assert_eq!(result.amount(), Some(3));
}

#[test]
fn test_period_detection() {
    let mut parser = ContextParser::new();
    let test_cases = vec![
        ("last day", Period::Day),
        ("this week", Period::Week),
        ("current month", Period::Month),
        ("last quarter", Period::Quarter),
        ("this year", Period::Year),
    ];
    for (prompt, expected_period) in test_cases {
        let result = parser.parse("en", prompt).unwrap();
        assert_eq!(result.period(), Some(expected_period), "Failed for: {}", prompt);
    }
}

#[test]
fn test_multiple_keys() {
    let result = parse_en("Build a new report for last month");

    assert!(!result.has_key(PromptKey::Object));
    assert!(result.has_key(PromptKey::New));
    assert!(result.has_key(PromptKey::Document));
    assert!(result.has_key(PromptKey::Last));
    assert_eq!(result.period(), Some(Period::Month));
}

#[test]
fn test_no_matches() {
    let result = parse_en("hello world");

    assert!(result.keys().is_empty());
    assert_eq!(result.period(), None);
    assert_eq!(result.amount(), None);
}

#[test]
fn test_unsupported_language() {
    let mut parser = ContextParser::new();
    let result = parser.parse("fr", "test");

    assert!(result.is_err());
    match result {
        Err(ParserError::UnsupportedLanguage(lang)) => assert_eq!(lang, "fr"),
        _ => panic!("Expected UnsupportedLanguage error"),
    }
}

#[test]
fn test_unsupported_language_whatever_the_text() {
    let mut parser = ContextParser::new();
    for lang in ["", "EN", "en-US", "de", "english", "e", "enn"] {
        for prompt in ["", "last two weeks", "Show 5 reports"] {
            match parser.parse(lang, prompt) {
                Err(ParserError::UnsupportedLanguage(tag)) => assert_eq!(tag, lang),
                _ => panic!("Expected UnsupportedLanguage error"),
            }
        }
    }
}

#[test]
fn test_duplicate_keys_not_added() {
    let result = parse_en("new new new report");

    let new_count = result.keys().iter().filter(|&&k| k == PromptKey::New).count();
    assert_eq!(new_count, 1);
    assert_eq!(result.keys(), &[PromptKey::Document, PromptKey::New]);
}

#[test]
fn test_case_sensitive() {
    let upper = parse_en("LAST WEEK");
    let lower = parse_en("last week");

    assert!(lower.has_key(PromptKey::Last));
    assert_eq!(lower.period(), Some(Period::Week));
    assert!(upper.keys().is_empty());
    assert_eq!(upper.period(), None);
    assert_ne!(upper, lower);
}

#[test]
fn test_complex_prompt() {
    let result = parse_en("Compare all changes in documents from the last three quarters");

    assert!(result.has_key(PromptKey::Comparison));
    assert!(result.has_key(PromptKey::All));
    assert!(result.has_key(PromptKey::Document));
    assert!(result.has_key(PromptKey::Last));
    assert_eq!(result.period(), Some(Period::Quarter));
    assert_eq!(result.amount(), Some(3));
}

#[test]
fn test_complex_prompt_lower_case() {
    let result = parse_en("compare all changes in documents from the last three quarters");

    assert_eq!(
        result.keys(),
        &[PromptKey::Document, PromptKey::Comparison, PromptKey::Last, PromptKey::All]
    );
    assert_eq!(result.period(), Some(Period::Quarter));
    assert_eq!(result.amount(), Some(3));
}

#[test]
fn test_parse_twice_gives_equal_contexts() {
    let mut parser = ContextParser::new();
    for prompt in ["Detect changes during last two weeks", "hello world", "", "Show 5 reports"] {
        let first = parser.parse("en", prompt).unwrap();
        let second = parser.parse("en", prompt).unwrap();
        assert_eq!(first, second);
        let third = ContextParser::new().parse("en", prompt).unwrap();
        assert_eq!(first, third);
    }
}

#[test]
fn test_empty_prompt() {
    let result = parse_en("");
    assert_eq!(result, PromptContext::new());
}

#[test]
fn test_keys_follow_enumeration_order() {
    let result = parse_en("every recent file, all new: describe and update the object");
    assert_eq!(
        result.keys(),
        &[
            PromptKey::Object,
            PromptKey::Document,
            PromptKey::Description,
            PromptKey::Comparison,
            PromptKey::Last,
            PromptKey::New,
            PromptKey::All,
        ]
    );
    assert!(!result.has_key(PromptKey::Period));
    assert!(!result.has_key(PromptKey::Amount));
}

#[test]
fn test_period_and_amount_are_no_keys() {
    let result = parse_en("two weeks");
    assert!(result.keys().is_empty());
    assert_eq!(result.period(), Some(Period::Week));
    assert_eq!(result.amount(), Some(2));
}

#[test]
fn test_digit_wins_over_spelled_number() {
    assert_eq!(parse_en("two reports and 5 images").amount(), Some(5));
    assert_eq!(parse_en("5 reports and two images").amount(), Some(5));
    assert_eq!(parse_en("seven reports").amount(), Some(7));
    assert_eq!(parse_en("reports").amount(), None);
}

#[test]
fn test_leftmost_digit_wins() {
    assert_eq!(parse_en("7 or 3").amount(), Some(7));
    assert_eq!(parse_en("3 or 7").amount(), Some(3));
}

#[test]
fn test_ten_is_read_as_one() {
    // "1" stands before "10" in the numeric patterns and matches at the same place.
    assert_eq!(parse_en("10 reports").amount(), Some(1));
    assert_eq!(parse_en("ten reports").amount(), Some(10));
}

#[test]
fn test_leftmost_period_wins() {
    assert_eq!(parse_en("a year or a day").period(), Some(Period::Year));
    assert_eq!(parse_en("a day or a year").period(), Some(Period::Day));
}

#[test]
fn test_words_match_inside_words() {
    let result = parse_en("yesterday");
    assert_eq!(result.period(), Some(Period::Day));
    let result = parse_en("a renewal");
    assert!(result.has_key(PromptKey::New));
}

fn small_dictionary() -> LanguageDictionary {
    let mut d = LanguageDictionary::new();
    d.insert("new", words("new fresh"));
    d.insert("period", words("day week month quarter year decade"));
    d.insert("amount_num", words("10 20"));
    d.insert("amount_text", words("one two three"));
    d
}

#[test]
fn test_period_index_mapping() {
    let d = small_dictionary();
    let expected = [
        ("day", Some(Period::Day)),
        ("week", Some(Period::Week)),
        ("month", Some(Period::Month)),
        ("quarter", Some(Period::Quarter)),
        ("year", Some(Period::Year)),
        ("decade", None),
        ("century", None),
    ];
    for (prompt, period) in expected {
        let result = ContextParser::parse_with(&d, prompt).unwrap();
        assert_eq!(result.period(), period, "Failed for: {}", prompt);
        assert!(result.keys().is_empty());
    }
}

#[test]
fn test_spelled_number_takes_the_number_at_its_index() {
    let d = small_dictionary();
    assert_eq!(ContextParser::parse_with(&d, "one").unwrap().amount(), Some(10));
    assert_eq!(ContextParser::parse_with(&d, "two").unwrap().amount(), Some(20));
}

#[test]
fn test_spelled_number_past_the_numbers_counts_from_one() {
    let d = small_dictionary();
    assert_eq!(ContextParser::parse_with(&d, "three").unwrap().amount(), Some(3));
}

#[test]
fn test_missing_numeric_patterns() {
    let mut d = LanguageDictionary::new();
    d.insert("new", words("new"));
    d.insert("amount_text", words("one two"));
    match ContextParser::parse_with(&d, "one new thing") {
        Err(ParserError::InvalidPattern(category)) => assert_eq!(category, "amount_num"),
        _ => panic!("Expected InvalidPattern error"),
    }
}

#[test]
fn test_numeric_pattern_that_is_no_number() {
    let mut d = LanguageDictionary::new();
    d.insert("amount_num", words("1 2 three"));
    let result = ContextParser::parse_with(&d, "nothing here");
    assert!(matches!(result, Err(ParserError::AmountParsing(_))));
    let result = ContextParser::parse_with(&d, "1");
    assert!(matches!(result, Err(ParserError::AmountParsing(_))));
}

#[test]
fn test_missing_optional_categories() {
    let mut d = LanguageDictionary::new();
    d.insert("amount_num", words("1 2"));
    let result = ContextParser::parse_with(&d, "two new weeks, 2").unwrap();
    assert!(result.keys().is_empty());
    assert_eq!(result.period(), None);
    assert_eq!(result.amount(), Some(2));
    let result = ContextParser::parse_with(&d, "two new weeks").unwrap();
    assert_eq!(result, PromptContext::new());
}

#[test]
fn test_empty_pattern_lists() {
    let mut d = LanguageDictionary::new();
    d.insert("new", Vec::new());
    d.insert("period", Vec::new());
    d.insert("amount_num", Vec::new());
    d.insert("amount_text", words("one two"));
    let result = ContextParser::parse_with(&d, "two new weeks").unwrap();
    assert!(result.keys().is_empty());
    assert_eq!(result.period(), None);
    assert_eq!(result.amount(), Some(2));
}

#[test]
fn test_steps_one_by_one() {
    let d = small_dictionary();
    let mut context = PromptContext::new();
    ContextParser::parse_generic_key(PromptKey::New, "a fresh week, 20", &mut context, &d).unwrap();
    assert_eq!(context.keys(), &[PromptKey::New]);
    ContextParser::parse_generic_key(PromptKey::New, "a fresh week, 20", &mut context, &d).unwrap();
    assert_eq!(context.keys(), &[PromptKey::New]);
    ContextParser::parse_generic_key(PromptKey::All, "a fresh week, 20", &mut context, &d).unwrap();
    assert_eq!(context.keys(), &[PromptKey::New]);
    assert_eq!(context.period(), None);
    ContextParser::parse_period("a fresh week, 20", &mut context, &d).unwrap();
    assert_eq!(context.period(), Some(Period::Week));
    assert_eq!(context.amount(), None);
    ContextParser::parse_amount("a fresh week, 20", &mut context, &d).unwrap();
    assert_eq!(context.amount(), Some(20));
    ContextParser::parse_period("nothing", &mut context, &d).unwrap();
    assert_eq!(context.period(), Some(Period::Week));
    ContextParser::parse_amount("nothing", &mut context, &d).unwrap();
    assert_eq!(context.amount(), Some(20));
}

#[test]
fn test_default_parser() {
    let mut parser = ContextParser::default();
    let result = parser.parse("en", "latest video").unwrap();
    assert_eq!(result.keys(), &[PromptKey::Document, PromptKey::New]);
}

struct Dice(u64);

impl Dice {
    fn roll(&mut self, sides: usize) -> usize {
        self.0 = self.0.wrapping_mul(6364136223846793005).wrapping_add(1442695040888963407);
        ((self.0 >> 33) as usize) % sides
    }

    fn word(&mut self, letters: &[char], shortest: usize, longest: usize) -> String {
        let len = shortest + self.roll(longest - shortest + 1);
        (0..len).map(|_| letters[self.roll(letters.len())]).collect()
    }

    fn words(&mut self, letters: &[char], most: usize) -> Vec<String> {
        let count = self.roll(most + 1);
        (0..count).map(|_| self.word(letters, 1, 3)).collect()
    }
}

fn first_by_hand(list: &[String], text: &str) -> Option<usize> {
    let hay = text.as_bytes();
    for start in 0..=hay.len() {
        for (index, word) in list.iter().enumerate() {
            if hay[start..].starts_with(word.as_bytes()) {
                return Some(index);
            }
        }
    }
    None
}

#[derive(Debug, PartialEq)]
enum Expected {
    Facts(Vec<PromptKey>, Option<Period>, Option<usize>),
    MissingNumbers,
    BadNumber,
}

fn parse_by_hand(categories: &[(String, Vec<String>)], text: &str) -> Expected {
    let get = |name: &str| categories.iter().rev().find(|(n, _)| n == name).map(|(_, w)| w);
    let generic = [
        PromptKey::Object,
        PromptKey::Document,
        PromptKey::Description,
        PromptKey::Comparison,
        PromptKey::Last,
        PromptKey::New,
        PromptKey::All,
    ];
    let mut keys = Vec::new();
    for key in generic {
        if let Some(list) = get(key.category()) {
            if first_by_hand(list, text).is_some() {
                keys.push(key);
            }
        }
    }
    let period = get("period")
        .and_then(|list| first_by_hand(list, text))
        .and_then(|index| Period::all().get(index).copied());
    let numerals = match get("amount_num") {
        Some(list) => list,
        None => return Expected::MissingNumbers,
    };
    let mut nums = Vec::new();
    for numeral in numerals {
        match numeral.parse::<usize>() {
            Ok(n) => nums.push(n),
            Err(_) => return Expected::BadNumber,
        }
    }
    let amount = match first_by_hand(numerals, text) {
        Some(index) => Some(nums[index]),
        None => get("amount_text")
            .and_then(|list| first_by_hand(list, text))
            .map(|index| nums.get(index).copied().unwrap_or(index + 1)),
    };
    Expected::Facts(keys, period, amount)
}

#[test]
fn test_parses_drawn_by_lot() {
    let mut dice = Dice(41);
    let letters = ['a', 'b', 'c', 'd'];
    let digits = ['1', '2', '3'];
    let names = [
        "object",
        "document",
        "description",
        "comparison",
        "last",
        "new",
        "all",
        "period",
        "amount_text",
        "amount",
        "Object",
    ];
    let mut seen_facts = 0;
    let mut seen_missing = 0;
    let mut seen_bad = 0;
    for _ in 0..3000 {
        let mut categories: Vec<(String, Vec<String>)> = Vec::new();
        for _ in 0..dice.roll(9) {
            let name = names[dice.roll(names.len())];
            let most = if name == "period" { 7 } else { 4 };
            categories.push((name.to_string(), dice.words(&letters, most)));
        }
        if dice.roll(10) > 0 {
            let mut numerals: Vec<String> =
                (0..dice.roll(5)).map(|_| dice.word(&digits, 1, 2)).collect();
            if dice.roll(12) == 0 {
                numerals.push(dice.word(&letters, 1, 2));
            }
            let at = dice.roll(categories.len() + 1);
            categories.insert(at, ("amount_num".to_string(), numerals));
        }
        let mut text = String::new();
        for _ in 0..dice.roll(8) {
            let piece =
                if dice.roll(4) == 0 { dice.word(&digits, 1, 2) } else { dice.word(&letters, 1, 3) };
            text.push_str(&piece);
            text.push(' ');
        }

        let mut d = LanguageDictionary::new();
        for (name, list) in &categories {
            d.insert(name, list.clone());
        }
        let expected = parse_by_hand(&categories, &text);
        match ContextParser::parse_with(&d, &text) {
            Ok(context) => {
                seen_facts += 1;
                assert_eq!(
                    Expected::Facts(context.keys().to_vec(), context.period(), context.amount()),
                    expected,
                    "{:?} in {:?}",
                    categories,
                    text
                );
            }
            Err(ParserError::InvalidPattern(name)) => {
                seen_missing += 1;
                assert_eq!(name, "amount_num");
                assert_eq!(expected, Expected::MissingNumbers, "{:?} in {:?}", categories, text);
            }
            Err(ParserError::AmountParsing(_)) => {
                seen_bad += 1;
                assert_eq!(expected, Expected::BadNumber, "{:?} in {:?}", categories, text);
            }
            Err(other) => panic!("{:?} for {:?} in {:?}", other, categories, text),
        }
    }
    assert!(seen_facts > 1000);
    assert!(seen_missing > 100);
    assert!(seen_bad > 50);
}
