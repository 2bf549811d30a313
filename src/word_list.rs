//! Word lists: where the words of a password come from.
//!
//! A custom word list is any type that implements `WordList`.
use vstd::prelude::*;

use crate::text::{chars_of, string_from_chars};

pub mod simple_english;

pub use self::simple_english::SimpleEnglish;

verus! {

/// The words of a sequence whose length lies in `[min_len, max_len]`, in their order.
pub open spec fn words_between(words: Seq<Seq<char>>, min_len: u8, max_len: u8) -> Seq<Seq<char>> {
    words.filter(|w: Seq<char>| min_len <= w.len() && w.len() <= max_len)
}

/// The views of a sequence of strings.
pub open spec fn string_views(words: Seq<String>) -> Seq<Seq<char>> {
    words.map_values(|w: String| w@)
}

/// The views of a sequence of borrowed strings.
pub open spec fn borrowed_views(words: Seq<&String>) -> Seq<Seq<char>> {
    words.map_values(|w: &String| w@)
}

/// Every word has a length, in characters, within `[min_len, max_len]`.
pub open spec fn lengths_within(words: Seq<Seq<char>>, min_len: u8, max_len: u8) -> bool {
    forall|i: int| 0 <= i < words.len() ==> min_len <= (#[trigger] words[i]).len() <= max_len
}

/// A source of candidate words.
pub trait WordList {
    /// The words that `get_words` returns for the given bounds, in their order.
    spec fn candidates(&self, min_len: u8, max_len: u8) -> Seq<Seq<char>>;

    /// Words of the list whose length, in characters, lies in `[min_len, max_len]`.
    fn get_words(&self, min_len: u8, max_len: u8) -> (r: Vec<&String>)
        ensures
            borrowed_views(r@) == self.candidates(min_len, max_len),
            lengths_within(borrowed_views(r@), min_len, max_len),
    ;
}

/// A white-space character in Unicode's sense (the `White_Space` property).
pub open spec fn is_white_space(c: char) -> bool {
    ||| '\u{9}' <= c && c <= '\u{d}'
    ||| c == ' '
    ||| c == '\u{85}'
    ||| c == '\u{a0}'
    ||| c == '\u{1680}'
    ||| '\u{2000}' <= c && c <= '\u{200a}'
    ||| c == '\u{2028}'
    ||| c == '\u{2029}'
    ||| c == '\u{202f}'
    ||| c == '\u{205f}'
    ||| c == '\u{3000}'
}

/// A line with no character but white space.
pub open spec fn is_blank(line: Seq<char>) -> bool {
    forall|i: int| 0 <= i < line.len() ==> is_white_space(#[trigger] line[i])
}

/// The text cut at each newline; a text with `k` newlines has `k + 1` lines.
pub open spec fn split_lines(text: Seq<char>) -> Seq<Seq<char>>
    decreases text.len(),
{
    if text.len() == 0 {
        seq![Seq::empty()]
    } else {
        let prev = split_lines(text.drop_last());
        if text.last() == '\n' {
            prev.push(Seq::empty())
        } else {
            prev.update(prev.len() - 1, prev.last().push(text.last()))
        }
    }
}

/// The lines that are not blank, in their order.
pub open spec fn nonblank_lines(lines: Seq<Seq<char>>) -> Seq<Seq<char>> {
    lines.filter(|l: Seq<char>| !is_blank(l))
}

/// The lines of a text that are not blank, in their order.
pub open spec fn word_lines(text: Seq<char>) -> Seq<Seq<char>> {
    nonblank_lines(split_lines(text))
}

proof fn lemma_nonblank_lines_step(lines: Seq<Seq<char>>)
    requires
        lines.len() > 0,
    ensures
        nonblank_lines(lines) == if is_blank(lines.last()) {
            nonblank_lines(lines.drop_last())
        } else {
            nonblank_lines(lines.drop_last()).push(lines.last())
        },
{
    reveal(Seq::filter);
}

proof fn lemma_words_between_step(words: Seq<Seq<char>>, min_len: u8, max_len: u8)
    requires
        words.len() > 0,
    ensures
        words_between(words, min_len, max_len) == if min_len <= words.last().len()
            <= max_len {
            words_between(words.drop_last(), min_len, max_len).push(words.last())
        } else {
            words_between(words.drop_last(), min_len, max_len)
        },
{
    reveal(Seq::filter);
}

/// Narrowing the bounds keeps exactly the words of the wider result that lie
/// within the narrower ones, in their order: widening the bounds drops no word.
pub proof fn lemma_words_between_nested(
    words: Seq<Seq<char>>,
    min1: u8,
    max1: u8,
    min2: u8,
    max2: u8,
)
    requires
        min2 <= min1,
        max1 <= max2,
    ensures
        words_between(words, min1, max1) == words_between(
            words_between(words, min2, max2),
            min1,
            max1,
        ),
    decreases words.len(),
{
    if words.len() > 0 {
        lemma_words_between_nested(words.drop_last(), min1, max1, min2, max2);
        lemma_words_between_step(words, min1, max1);
        lemma_words_between_step(words, min2, max2);
        let wide = words_between(words, min2, max2);
        if min2 <= words.last().len() <= max2 {
            assert(wide.drop_last() == words_between(words.drop_last(), min2, max2));
            lemma_words_between_step(wide, min1, max1);
        }
    } else {
        reveal(Seq::filter);
    }
}

fn is_white_space_char(c: char) -> (r: bool)
    ensures
        r == is_white_space(c),
{
    ('\u{9}' <= c && c <= '\u{d}') || c == ' ' || c == '\u{85}' || c == '\u{a0}' || c == '\u{1680}'
        || ('\u{2000}' <= c && c <= '\u{200a}') || c == '\u{2028}' || c == '\u{2029}' || c
        == '\u{202f}' || c == '\u{205f}' || c == '\u{3000}'
}

fn line_is_blank(line: &Vec<char>) -> (r: bool)
    ensures
        r == is_blank(line@),
{
    let mut i: usize = 0;
    while i < line.len()
        invariant
            i <= line@.len(),
            forall|k: int| 0 <= k < i ==> is_white_space(#[trigger] line@[k]),
        decreases line@.len() - i,
    {
        if !is_white_space_char(line[i]) {
            return false;
        }
        i += 1;
    }
    true
}

/// Keeps `line` at the end of `lines` when it is not blank.
fn keep_line(lines: &mut Vec<String>, line: &Vec<char>)
    ensures
        string_views(final(lines)@) == if is_blank(line@) {
            string_views(old(lines)@)
        } else {
            string_views(old(lines)@).push(line@)
        },
{
    if !line_is_blank(line) {
        lines.push(string_from_chars(line));
        assert(string_views(lines@) =~= string_views(old(lines)@).push(line@));
    }
}

/// The lines of a text that are not blank, each kept as it stands.
pub fn parse_word_lines(text: &str) -> (r: Vec<String>)
    ensures
        string_views(r@) == word_lines(text@),
{
    let chars = chars_of(text);
    let mut done: Vec<String> = Vec::new();
    let mut current: Vec<char> = Vec::new();
    let mut i: usize = 0;
    proof {
        assert(chars@.take(0) =~= Seq::<char>::empty());
        reveal(Seq::filter);
        assert(string_views(done@) =~= nonblank_lines(split_lines(chars@.take(0)).drop_last()));
    }
    while i < chars.len()
        invariant
            chars@ == text@,
            i <= chars@.len(),
            split_lines(chars@.take(i as int)).len() >= 1,
            string_views(done@) == nonblank_lines(split_lines(chars@.take(i as int)).drop_last()),
            current@ == split_lines(chars@.take(i as int)).last(),
        decreases chars@.len() - i,
    {
        let ghost before = chars@.take(i as int);
        let c = chars[i];
        proof {
            assert(chars@.take(i + 1).drop_last() =~= before);
            lemma_nonblank_lines_step(split_lines(before));
        }
        if c == '\n' {
            keep_line(&mut done, &current);
            current = Vec::new();
            proof {
                assert(split_lines(chars@.take(i + 1)).drop_last() =~= split_lines(before));
            }
        } else {
            current.push(c);
            proof {
                assert(split_lines(chars@.take(i + 1)).drop_last() =~= split_lines(before).drop_last());
            }
        }
        i += 1;
    }
    proof {
        assert(chars@.take(i as int) =~= text@);
        lemma_nonblank_lines_step(split_lines(text@));
    }
    keep_line(&mut done, &current);
    done
}

} // verus!
