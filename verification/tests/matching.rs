use prompt_context::{aho_parse, PatternMatch};

fn patterns(list: &[&str]) -> Vec<String> {
    list.iter().map(|s| s.to_string()).collect()
}

fn find(list: &[&str], haystack: &str) -> Option<PatternMatch> {
    aho_parse(&patterns(list), haystack).unwrap()
}

fn found(pattern: usize, start: usize, end: usize) -> Option<PatternMatch> {
    Some(PatternMatch { pattern, start, end })
}

#[test]
fn test_no_patterns() {
    assert_eq!(find(&[], "anything"), None);
    assert_eq!(find(&[], ""), None);
}

#[test]
fn test_no_occurrence() {
    assert_eq!(find(&["day", "week"], "hello world"), None);
    assert_eq!(find(&["day", "week"], ""), None);
    assert_eq!(find(&["day"], "da"), None);
}

#[test]
fn test_single_pattern() {
    assert_eq!(find(&["week"], "last week"), found(0, 5, 9));
    assert_eq!(find(&["week"], "week"), found(0, 0, 4));
    assert_eq!(find(&["week"], "weekweek"), found(0, 0, 4));
}

#[test]
fn test_leftmost_occurrence_wins() {
    assert_eq!(find(&["day", "year"], "a year and a day"), found(1, 2, 6));
    assert_eq!(find(&["abcd", "b"], "abcdef"), found(0, 0, 4));
    assert_eq!(find(&["b", "abcd"], "abcdef"), found(1, 0, 4));
    assert_eq!(find(&["abcd", "b", "bce"], "abce"), found(1, 1, 2));
}

#[test]
fn test_earlier_pattern_wins_at_the_same_place() {
    assert_eq!(find(&["ab", "abcd"], "abcd"), found(0, 0, 2));
    assert_eq!(find(&["abcd", "ab"], "abcd"), found(0, 0, 4));
    assert_eq!(find(&["sam", "samwise"], "samwise"), found(0, 0, 3));
    assert_eq!(find(&["samwise", "sam"], "samwise"), found(0, 0, 7));
    assert_eq!(find(&["abcdefg", "bcde", "bcdef"], "abcdef"), found(1, 1, 5));
    assert_eq!(find(&["abcdefg", "bcdef", "bcde"], "abcdef"), found(1, 1, 6));
}

#[test]
fn test_duplicate_patterns() {
    assert_eq!(find(&["ab", "ab"], "abcd"), found(0, 0, 2));
    assert_eq!(find(&["x", "ab", "ab", "x"], "abx"), found(1, 0, 2));
}

#[test]
fn test_empty_pattern() {
    assert_eq!(find(&["", "a"], "a"), found(0, 0, 0));
    assert_eq!(find(&["a", ""], "a"), found(0, 0, 1));
    assert_eq!(find(&["a", ""], "ba"), found(1, 0, 0));
    assert_eq!(find(&[""], ""), found(0, 0, 0));
    assert_eq!(find(&["a", "ba", ""], "bba"), found(2, 0, 0));
    assert_eq!(find(&["a", "ba", ""], "bab"), found(1, 0, 2));
    assert_eq!(find(&["b", "", "ba"], "ba"), found(0, 0, 1));
}

#[test]
fn test_case_matters() {
    assert_eq!(find(&["last"], "LAST"), None);
    assert_eq!(find(&["last"], "Last last"), found(0, 5, 9));
}

#[test]
fn test_offsets_count_bytes() {
    assert_eq!(find(&["day"], "né day"), found(0, 4, 7));
    assert_eq!(find(&["é"], "née"), found(0, 1, 3));
    assert_eq!(find(&["日"], "今日は"), found(0, 3, 6));
}

#[test]
fn test_match_is_a_plain_value() {
    let m = find(&["b"], "abc").unwrap();
    assert_eq!(m.pattern, 0);
    assert_eq!(m.start, 1);
    assert_eq!(m.end, 2);
    let copy = m;
    assert_eq!(copy, m);
}

fn strings_up_to(alphabet: &[char], longest: usize) -> Vec<String> {
    let mut all = vec![String::new()];
    let mut last = vec![String::new()];
    for _ in 0..longest {
        let mut next = Vec::new();
        for s in &last {
            for c in alphabet {
                let mut longer = s.clone();
                longer.push(*c);
                next.push(longer);
            }
        }
        all.extend(next.iter().cloned());
        last = next;
    }
    all
}

fn leftmost_first_by_hand(list: &[String], haystack: &str) -> Option<PatternMatch> {
    let hay = haystack.as_bytes();
    for start in 0..=hay.len() {
        for (pattern, text) in list.iter().enumerate() {
            if hay[start..].starts_with(text.as_bytes()) {
                return Some(PatternMatch { pattern, start, end: start + text.len() });
            }
        }
    }
    None
}

#[test]
fn test_every_small_search_over_two_letters() {
    let candidates = strings_up_to(&['a', 'b'], 2);
    let haystacks = strings_up_to(&['a', 'b'], 5);
    let mut lists: Vec<Vec<String>> = Vec::new();
    for x in &candidates {
        lists.push(vec![x.clone()]);
        for y in &candidates {
            lists.push(vec![x.clone(), y.clone()]);
            for z in &candidates {
                lists.push(vec![x.clone(), y.clone(), z.clone()]);
            }
        }
    }
    for list in &lists {
        for haystack in &haystacks {
            assert_eq!(
                aho_parse(list, haystack).unwrap(),
                leftmost_first_by_hand(list, haystack),
                "patterns {:?} in {:?}",
                list,
                haystack
            );
        }
    }
}

#[test]
fn test_every_small_search_with_longer_patterns() {
    let candidates: Vec<String> =
        strings_up_to(&['a', 'b'], 3).into_iter().filter(|s| s.len() == 3).collect();
    let haystacks = strings_up_to(&['a', 'b'], 6);
    for x in &candidates {
        for y in &candidates {
            let list = vec![x.clone(), y.clone(), "ab".to_string()];
            for haystack in &haystacks {
                assert_eq!(
                    aho_parse(&list, haystack).unwrap(),
                    leftmost_first_by_hand(&list, haystack),
                    "patterns {:?} in {:?}",
                    list,
                    haystack
                );
            }
        }
    }
}

struct Dice(u64);

impl Dice {
    fn roll(&mut self, sides: usize) -> usize {
        self.0 = self.0.wrapping_mul(6364136223846793005).wrapping_add(1442695040888963407);
        ((self.0 >> 33) as usize) % sides
    }

    fn word(&mut self, letters: &[char], shortest: usize, longest: usize) -> String {
        let len = shortest + self.roll(longest - shortest + 1);
        (0..len).map(|_| letters[self.roll(letters.len())]).collect()
    }
}

#[test]
fn test_searches_drawn_by_lot() {
    let mut dice = Dice(17);
    let letters = ['a', 'b', 'c', 'é'];
    for _ in 0..4000 {
        let count = 1 + dice.roll(6);
        let list: Vec<String> = (0..count).map(|_| dice.word(&letters, 1, 6)).collect();
        let haystack = dice.word(&letters, 0, 40);
        assert_eq!(
            aho_parse(&list, &haystack).unwrap(),
            leftmost_first_by_hand(&list, &haystack),
            "patterns {:?} in {:?}",
            list,
            haystack
        );
    }
}

#[test]
fn test_searches_drawn_by_lot_with_empty_patterns() {
    let mut dice = Dice(23);
    let letters = ['a', 'b'];
    for _ in 0..2000 {
        let count = 1 + dice.roll(5);
        let list: Vec<String> = (0..count).map(|_| dice.word(&letters, 0, 3)).collect();
        let haystack = dice.word(&letters, 0, 12);
        assert_eq!(
            aho_parse(&list, &haystack).unwrap(),
            leftmost_first_by_hand(&list, &haystack),
            "patterns {:?} in {:?}",
            list,
            haystack
        );
    }
}

#[test]
fn test_searches_drawn_by_lot_in_long_text() {
    let mut dice = Dice(5);
    let letters = ['a', 'b', 'c', 'd', 'e', 'f', 'g', 'h'];
    for _ in 0..300 {
        let count = 1 + dice.roll(40);
        let list: Vec<String> = (0..count).map(|_| dice.word(&letters, 3, 9)).collect();
        let haystack = dice.word(&letters, 200, 2000);
        assert_eq!(
            aho_parse(&list, &haystack).unwrap(),
            leftmost_first_by_hand(&list, &haystack),
            "patterns {:?} in {:?}",
            list,
            haystack
        );
    }
}

#[test]
fn test_searches_drawn_by_lot_with_many_patterns() {
    let mut dice = Dice(77);
    let letters = ['a', 'b', 'c'];
    for round in 0..60 {
        let count = 101 + dice.roll(150);
        let shortest = 1 + round % 4;
        let list: Vec<String> = (0..count).map(|_| dice.word(&letters, shortest, 9)).collect();
        for _ in 0..20 {
            let haystack = dice.word(&letters, 0, 60);
            assert_eq!(
                aho_parse(&list, &haystack).unwrap(),
                leftmost_first_by_hand(&list, &haystack),
                "patterns {:?} in {:?}",
                list,
                haystack
            );
        }
    }
}

#[test]
fn test_many_patterns() {
    let list: Vec<String> = (0..300).map(|i| format!("w{}x", i)).collect();
    for i in [0usize, 1, 99, 100, 101, 299] {
        let haystack = format!("..w{}x..w0x", i);
        assert_eq!(
            aho_parse(&list, &haystack).unwrap(),
            leftmost_first_by_hand(&list, &haystack)
        );
        assert_eq!(aho_parse(&list, &haystack).unwrap().unwrap().pattern, i);
    }
    assert_eq!(aho_parse(&list, "w300x").unwrap(), None);
}

#[test]
fn test_search_in_text_beyond_ascii() {
    let list: Vec<String> = ["é", "e", "日本", "本", "ü"].iter().map(|s| s.to_string()).collect();
    for haystack in ["née", "nee", "日本語", "本日", "grün", "", "ée", "eé"] {
        assert_eq!(
            aho_parse(&list, haystack).unwrap(),
            leftmost_first_by_hand(&list, haystack),
            "in {:?}",
            haystack
        );
    }
}
