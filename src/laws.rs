//! Laws that every generated password obeys.
use vstd::prelude::*;

use crate::configuration::{
    Configuration, PaddingCharTypes, PaddingTypes, SeperatorTypes, WordTransformations,
};
use crate::generator::{
    digits_fit, digits_prefix, digits_suffix, generation_error, is_well_formed, join_words,
    padding_char_of, password_of, repeat_char, separator_of, transform_word, transformed_words,
    unpadded_password, Draws, PasswordError,
};
use crate::text::{
    decimal, digit_char, is_ascii_lower, is_ascii_upper, is_decimal_digit, lower_char, lower_word,
    pow10, upper_char, upper_word,
};

verus! {

/// Fixed padding adds exactly its two counts to the length; adaptive padding brings
/// the length up to the target and never shortens the password.
pub proof fn lemma_password_length(c: Configuration, words: Seq<Seq<char>>, d: Draws)
    ensures
        ({
            let n = unpadded_password(c, words, d).len();
            match c.padding_symbols.padding_type {
                PaddingTypes::Fixed(before, after) => password_of(c, words, d).len() == n + before
                    + after,
                PaddingTypes::Adaptive(target) => password_of(c, words, d).len() == if n < target {
                    target as int
                } else {
                    n as int
                },
            }
        }),
{
}

/// Raising a lowered character is the same as raising it.
pub proof fn lemma_upper_of_lower(ch: char)
    ensures
        upper_char(lower_char(ch)) == upper_char(ch),
{
}

/// A lowered character is no uppercase letter; a raised one is no lowercase letter.
pub proof fn lemma_case_of_char(ch: char)
    ensures
        !is_ascii_upper(lower_char(ch)),
        !is_ascii_lower(upper_char(ch)),
{
}

/// A character that a password may hold: the separator, the padding character, a
/// decimal digit, or a letter of a chosen word, lowered or raised.
pub open spec fn allowed_char(c: Configuration, words: Seq<Seq<char>>, d: Draws, ch: char) -> bool {
    ||| ch == separator_of(c, d)
    ||| ch == padding_char_of(c, d)
    ||| is_decimal_digit(ch)
    ||| exists|i: int, j: int|
        0 <= i < words.len() && 0 <= j < words[i].len() && (ch == lower_char(
            #[trigger] words[i][j],
        ) || ch == upper_char(words[i][j]))
}

/// Every character of `s` is allowed.
pub open spec fn all_allowed(c: Configuration, words: Seq<Seq<char>>, d: Draws, s: Seq<char>) -> bool {
    forall|k: int| 0 <= k < s.len() ==> allowed_char(c, words, d, #[trigger] s[k])
}

/// Every character of a decimal rendering is a digit.
pub proof fn lemma_decimal_digits(n: nat)
    ensures
        forall|k: int| 0 <= k < decimal(n).len() ==> is_decimal_digit(#[trigger] decimal(n)[k]),
    decreases n,
{
    let last = digit_char(n % 10);
    assert(is_decimal_digit(last));
    if n >= 10 {
        lemma_decimal_digits(n / 10);
        assert(decimal(n) == decimal(n / 10).push(last));
    } else {
        assert(decimal(n) == seq![last]);
    }
}

/// A changed word has the length of the word, and each of its characters is the
/// character of the word at that place, lowered or raised.
pub proof fn lemma_transform_chars(t: WordTransformations, w: Seq<char>, index: int, upper: bool)
    ensures
        transform_word(t, w, index, upper).len() == w.len(),
        forall|j: int|
            0 <= j < w.len() ==> (#[trigger] transform_word(t, w, index, upper)[j] == lower_char(w[j])
                || transform_word(t, w, index, upper)[j] == upper_char(w[j])),
{
    assert forall|j: int| 0 <= j < w.len() implies upper_char(lower_char(w[j])) == upper_char(w[j]) by {
        lemma_upper_of_lower(w[j]);
    }
}

proof fn lemma_join_allowed(
    c: Configuration,
    words: Seq<Seq<char>>,
    d: Draws,
    ws: Seq<Seq<char>>,
    sep: char,
)
    requires
        sep == separator_of(c, d),
        forall|i: int| 0 <= i < ws.len() ==> all_allowed(c, words, d, #[trigger] ws[i]),
    ensures
        all_allowed(c, words, d, join_words(ws, sep)),
    decreases ws.len(),
{
    if ws.len() > 1 {
        lemma_join_allowed(c, words, d, ws.drop_last(), sep);
        assert(all_allowed(c, words, d, ws.last()));
    } else if ws.len() == 1 {
        assert(all_allowed(c, words, d, ws[0]));
    }
}

/// Every character of a password is the separator, the padding character, a decimal
/// digit, or a letter of a chosen word, lowered or raised.
pub proof fn lemma_password_characters(c: Configuration, words: Seq<Seq<char>>, d: Draws)
    ensures
        all_allowed(c, words, d, password_of(c, words, d)),
{
    let sep = separator_of(c, d);
    let pad = padding_char_of(c, d);
    let tw = transformed_words(c, words, d);
    assert forall|i: int| 0 <= i < tw.len() implies all_allowed(c, words, d, #[trigger] tw[i]) by {
        lemma_transform_chars(c.words.transformations, words[i], i, d.uppercase@[i]);
        assert forall|k: int| 0 <= k < tw[i].len() implies allowed_char(
            c,
            words,
            d,
            #[trigger] tw[i][k],
        ) by {
            assert(0 <= k < words[i].len());
        }
    }
    lemma_join_allowed(c, words, d, tw, sep);
    lemma_decimal_digits(d.digits_before as nat);
    lemma_decimal_digits(d.digits_after as nat);
    let pre = digits_prefix(c, d);
    let suf = digits_suffix(c, d);
    let block = join_words(tw, sep);
    assert(all_allowed(c, words, d, pre));
    assert(all_allowed(c, words, d, suf));
    let u = unpadded_password(c, words, d);
    assert(u == pre + block + suf);
    assert(all_allowed(c, words, d, u));
    let p = password_of(c, words, d);
    assert(all_allowed(c, words, d, repeat_char(pad, 0)));
    match c.padding_symbols.padding_type {
        PaddingTypes::Adaptive(target) => {
            if u.len() < target {
                assert(all_allowed(c, words, d, repeat_char(pad, (target - u.len()) as nat)));
            }
        },
        PaddingTypes::Fixed(before, after) => {
            assert(all_allowed(c, words, d, repeat_char(pad, before as nat)));
            assert(all_allowed(c, words, d, repeat_char(pad, after as nat)));
        },
    }
}

/// `LowerCase` leaves no uppercase letter, `UpperCase` no lowercase letter, and
/// `CapitaliseFirst` no lowercase letter first and no uppercase letter after it.
pub proof fn lemma_case_policies(w: Seq<char>, index: int, upper: bool)
    ensures
        forall|j: int|
            0 <= j < w.len() ==> !is_ascii_upper(
                #[trigger] transform_word(WordTransformations::LowerCase, w, index, upper)[j],
            ),
        forall|j: int|
            0 <= j < w.len() ==> !is_ascii_lower(
                #[trigger] transform_word(WordTransformations::UpperCase, w, index, upper)[j],
            ),
        w.len() > 0 ==> !is_ascii_lower(
            transform_word(WordTransformations::CapitaliseFirst, w, index, upper)[0],
        ),
        forall|j: int|
            1 <= j < w.len() ==> !is_ascii_upper(
                #[trigger] transform_word(WordTransformations::CapitaliseFirst, w, index, upper)[j],
            ),
{
    assert forall|j: int| 0 <= j < w.len() implies !is_ascii_upper(lower_char(w[j])) && !is_ascii_lower(
        upper_char(lower_char(w[j])),
    ) by {
        lemma_case_of_char(w[j]);
        lemma_case_of_char(lower_char(w[j]));
    }
}

/// `AlternatingLowerUpper` uses no coin: words at even places are lowercase, words
/// at odd places uppercase, whatever the draws.
pub proof fn lemma_alternating_case(c: Configuration, words: Seq<Seq<char>>, d1: Draws, d2: Draws)
    requires
        c.words.transformations == WordTransformations::AlternatingLowerUpper,
    ensures
        transformed_words(c, words, d1) == transformed_words(c, words, d2),
        forall|i: int|
            0 <= i < words.len() ==> #[trigger] transformed_words(c, words, d1)[i] == if i % 2
                == 0 {
                lower_word(words[i])
            } else {
                upper_word(lower_word(words[i]))
            },
{
    assert(transformed_words(c, words, d1) =~= transformed_words(c, words, d2));
}

/// A `SingleCharacter` policy takes the first candidate, whatever the draws.
pub proof fn lemma_single_character(c: Configuration, d1: Draws, d2: Draws)
    ensures
        c.seperator.seperator_type == SeperatorTypes::SingleCharacter ==> separator_of(c, d1)
            == c.seperator.seperators@[0] && separator_of(c, d2) == c.seperator.seperators@[0],
        c.padding_symbols.padding_character_type == PaddingCharTypes::SingleCharacter
            ==> padding_char_of(c, d1) == c.padding_symbols.padding_chars@[0] && padding_char_of(
            c,
            d2,
        ) == c.padding_symbols.padding_chars@[0],
{
}

/// A number drawn for a digit block of `count` digits is written with exactly
/// `count` digits.
pub proof fn lemma_digit_block_width(count: u8, value: u64)
    requires
        count > 0,
        digits_fit(count, value),
    ensures
        decimal(value as nat).len() == count,
    decreases count,
{
    if count > 1 {
        let v = value as nat;
        let low = pow10((count - 2) as nat);
        assert(pow10((count - 1) as nat) == 10 * low);
        assert(pow10(count as nat) == 10 * pow10((count - 1) as nat));
        assert(v >= 10) by {
            crate::text::lemma_pow10_grows(0, (count - 2) as nat);
        }
        assert(low <= v / 10 < pow10((count - 1) as nat)) by (nonlinear_arith)
            requires
                10 * low <= v,
                v < 10 * pow10((count - 1) as nat),
        ;
        lemma_digit_block_width((count - 1) as u8, (v / 10) as u64);
    }
}

/// A well-formed configuration with no candidate word fails with
/// `EmptyWordCandidates`, never with an empty password.
pub proof fn lemma_empty_source(c: Configuration)
    requires
        is_well_formed(c),
    ensures
        generation_error(c, 0) == Some(PasswordError::EmptyWordCandidates),
{
}

} // verus!
