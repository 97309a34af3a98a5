//! The words of a text: a pattern list is kept as one line of words, and
//! split where it is read.

use crate::text::texts;
use vstd::prelude::*;
use vstd::string::*;

verus! {

/// Whether `c` separates words: a blank, a tab, or the end of a line or page.
pub open spec fn is_space(c: char) -> bool {
    c == ' ' || c == '\t' || c == '\n' || c == '\r' || c == '\u{c}'
}

/// Where the word that starts at `from` ends: at the next separator, or at
/// the end of the text.
pub open spec fn word_end(text: Seq<char>, from: int) -> int
    decreases text.len() - from,
{
    if from < 0 || from >= text.len() {
        from
    } else if is_space(text[from]) {
        from
    } else {
        word_end(text, from + 1)
    }
}

/// The words of `text` from offset `from` on.
pub open spec fn words_from(text: Seq<char>, from: int) -> Seq<Seq<char>>
    decreases text.len() - from,
{
    if from < 0 || from >= text.len() {
        Seq::empty()
    } else if is_space(text[from]) {
        words_from(text, from + 1)
    } else {
        proof {
            lemma_word_end(text, from);
        }
        seq![text.subrange(from, word_end(text, from))] + words_from(text, word_end(text, from))
    }
}

/// The words of `text`: its longest pieces without a separator, in the order
/// in which they stand. None of them is empty.
pub open spec fn words_of(text: Seq<char>) -> Seq<Seq<char>> {
    words_from(text, 0)
}

/// A word ends after its start and within the text, at a separator if not at
/// the end, and holds no separator.
pub proof fn lemma_word_end(text: Seq<char>, from: int)
    requires
        0 <= from < text.len(),
        !is_space(text[from]),
    ensures
        from < word_end(text, from) <= text.len(),
        word_end(text, from) < text.len() ==> is_space(text[word_end(text, from)]),
        forall|i: int| from <= i < word_end(text, from) ==> !is_space(#[trigger] text[i]),
    decreases text.len() - from,
{
    assert(word_end(text, from) == word_end(text, from + 1));
    if from + 1 < text.len() && !is_space(text[from + 1]) {
        lemma_word_end(text, from + 1);
    } else {
        assert(word_end(text, from + 1) == from + 1);
    }
}

/// Whether `word` is a word: it is not empty and holds no separator.
pub open spec fn is_word(word: Seq<char>) -> bool {
    word.len() > 0 && forall|i: int| 0 <= i < word.len() ==> !is_space(#[trigger] word[i])
}

/// What a text is split into are words.
pub proof fn lemma_words(text: Seq<char>, from: int)
    ensures
        forall|k: int|
            0 <= k < words_from(text, from).len() ==> is_word(#[trigger] words_from(text, from)[k]),
    decreases text.len() - from,
{
    if 0 <= from < text.len() {
        if is_space(text[from]) {
            lemma_words(text, from + 1);
            assert(words_from(text, from) == words_from(text, from + 1));
        } else {
            lemma_word_end(text, from);
            let end = word_end(text, from);
            let first = text.subrange(from, end);
            let rest = words_from(text, end);
            lemma_words(text, end);
            assert(words_from(text, from) == seq![first] + rest);
            assert(is_word(first)) by {
                assert forall|i: int| 0 <= i < first.len() implies !is_space(
                    #[trigger] first[i],
                ) by {
                    assert(first[i] == text[from + i]);
                }
            }
            assert forall|k: int| 0 <= k < words_from(text, from).len() implies is_word(
                #[trigger] words_from(text, from)[k],
            ) by {
                if k > 0 {
                    assert(words_from(text, from)[k] == rest[k - 1]);
                }
            }
        }
    } else {
        assert(words_from(text, from) =~= Seq::<Seq<char>>::empty());
    }
}

/// Whether `c` separates words.
pub fn separates(c: char) -> (r: bool)
    ensures
        r == is_space(c),
{
    c == ' ' || c == '\t' || c == '\n' || c == '\r' || c == '\u{c}'
}

/// The character of `text` at offset `at`. In ASCII text it is read in one
/// step, else by counting from the start.
fn char_at(text: &str, at: usize, ascii: bool) -> (c: char)
    requires
        at < text@.len(),
        ascii ==> text.is_ascii(),
    ensures
        c == text@[at as int],
{
    if ascii {
        let byte = text.get_ascii(at);
        let c = byte as char;
        assert(c == text@[at as int]) by {
            assert(text@[at as int] <= '\u{7f}');
            assert(text@[at as int] as u32 == byte as u32);
        }
        c
    } else {
        text.get_char(at)
    }
}

/// The piece of `text` between two offsets.
fn piece<'a>(text: &'a str, from: usize, to: usize, ascii: bool) -> (r: &'a str)
    requires
        from <= to <= text@.len(),
        ascii ==> text.is_ascii(),
    ensures
        r@ == text@.subrange(from as int, to as int),
{
    if ascii {
        text.substring_ascii(from, to)
    } else {
        text.substring_char(from, to)
    }
}

/// The words of `text`, in the order in which they stand.
///
/// ASCII text is split in one pass. In other text each character is counted
/// from the start, so that the time grows with the square of the length: that
/// is for the short lines that hold a pattern list.
pub fn split_words(text: &str) -> (r: Vec<String>)
    ensures
        texts(r@) == words_of(text@),
{
    let ascii = text.is_ascii();
    let len = text.unicode_len();
    let mut words: Vec<String> = Vec::new();
    let mut i: usize = 0;
    while i < len
        invariant
            len == text@.len(),
            ascii ==> text.is_ascii(),
            i <= len,
            texts(words@) + words_from(text@, i as int) == words_of(text@),
        decreases len - i,
    {
        if separates(char_at(text, i, ascii)) {
            i += 1;
        } else {
            let start = i;
            i += 1;
            while i < len && !separates(char_at(text, i, ascii))
                invariant
                    len == text@.len(),
                    ascii ==> text.is_ascii(),
                    start < i <= len,
                    !is_space(text@[start as int]),
                    word_end(text@, start as int) == word_end(text@, i as int),
                decreases len - i,
            {
                i += 1;
            }
            proof {
                lemma_word_end(text@, start as int);
            }
            let word = String::from_str(piece(text, start, i, ascii));
            let ghost before = texts(words@);
            words.push(word);
            assert(texts(words@) =~= before + seq![text@.subrange(start as int, i as int)]);
            assert(texts(words@) + words_from(text@, i as int) =~= before + words_from(
                text@,
                start as int,
            ));
        }
    }
    assert(texts(words@) + words_from(text@, len as int) =~= texts(words@));
    words
}

} // verus!
