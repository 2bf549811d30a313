//! Password assembly: words, case changes, separator, digits and padding.
use vstd::prelude::*;

use crate::configuration::{
    Configuration, PaddingCharTypes, PaddingTypes, SeperatorTypes, WordTransformations,
};
use crate::random::{random_bool, random_in_range, random_index};
use crate::text::{
    chars_of, decimal, lemma_pow10_grows, lower_word, pow10, power_of_ten, push_decimal,
    string_from_chars, to_ascii_upper, to_lower_case, to_upper_case, upper_char, upper_word,
    MAX_DIGITS,
};
use crate::word_list::{borrowed_views, string_views, WordList};

verus! {

/// Why no password could be generated.
#[derive(Debug, Clone, Copy, PartialEq, Eq)]
pub enum PasswordError {
    /// The word source has no word within the length bounds
    EmptyWordCandidates,
    /// A character policy needs candidates and has none
    EmptyCharacterCandidates,
    /// The configuration cannot describe a password
    InvalidConfiguration,
}

/// The random draws that shape a password once its words are chosen.
#[derive(Debug)]
pub struct Draws {
    /// For each word, whether a random change of case raises it
    pub uppercase: Vec<bool>,
    /// The index of the separator, when it is drawn at random
    pub separator_index: usize,
    /// The index of the padding character, when it is drawn at random
    pub padding_index: usize,
    /// The number written before the words, when there is one
    pub digits_before: u64,
    /// The number written after the words, when there is one
    pub digits_after: u64,
}

/// At least one word, ordered length bounds, and digit counts whose range fits a `u64`.
pub open spec fn is_well_formed(c: Configuration) -> bool {
    &&& c.words.num_words >= 1
    &&& c.words.min_length <= c.words.max_length
    &&& c.padding_digits.num_before <= MAX_DIGITS
    &&& c.padding_digits.num_after <= MAX_DIGITS
}

/// Every character policy has the candidates that it needs.
pub open spec fn has_characters(c: Configuration) -> bool {
    &&& c.seperator.seperators@.len() > 0
    &&& (c.padding_symbols.padding_character_type == PaddingCharTypes::SeperatorCharacter
        || c.padding_symbols.padding_chars@.len() > 0)
}

/// The error of a generation from `num_candidates` candidate words, if any.
pub open spec fn generation_error(c: Configuration, num_candidates: nat) -> Option<PasswordError> {
    if !is_well_formed(c) {
        Some(PasswordError::InvalidConfiguration)
    } else if num_candidates == 0 {
        Some(PasswordError::EmptyWordCandidates)
    } else if !has_characters(c) {
        Some(PasswordError::EmptyCharacterCandidates)
    } else {
        None
    }
}

/// The error of an assembly from `num_words` chosen words, if any.
pub open spec fn assembly_error(c: Configuration, num_words: nat) -> Option<PasswordError> {
    if !is_well_formed(c) || num_words != c.words.num_words {
        Some(PasswordError::InvalidConfiguration)
    } else if !has_characters(c) {
        Some(PasswordError::EmptyCharacterCandidates)
    } else {
        None
    }
}

/// A number with exactly `count` decimal digits, when `count` is not zero.
pub open spec fn digits_fit(count: u8, value: u64) -> bool {
    count > 0 ==> pow10((count - 1) as nat) <= value < pow10(count as nat)
}

/// Draws that the configuration can use for `num_words` words.
pub open spec fn draws_fit(c: Configuration, d: Draws, num_words: nat) -> bool {
    &&& (c.words.transformations == WordTransformations::RandomLowerUpper ==> d.uppercase@.len()
        == num_words)
    &&& (c.seperator.seperator_type == SeperatorTypes::RandomCharacter ==> d.separator_index
        < c.seperator.seperators@.len())
    &&& (c.padding_symbols.padding_character_type == PaddingCharTypes::RandomCharacter
        ==> d.padding_index < c.padding_symbols.padding_chars@.len())
    &&& digits_fit(c.padding_digits.num_before, d.digits_before)
    &&& digits_fit(c.padding_digits.num_after, d.digits_after)
}

/// The one separator of the password.
pub open spec fn separator_of(c: Configuration, d: Draws) -> char {
    match c.seperator.seperator_type {
        SeperatorTypes::SingleCharacter => c.seperator.seperators@[0],
        SeperatorTypes::RandomCharacter => c.seperator.seperators@[d.separator_index as int],
    }
}

/// The one padding character of the password.
pub open spec fn padding_char_of(c: Configuration, d: Draws) -> char {
    match c.padding_symbols.padding_character_type {
        PaddingCharTypes::SingleCharacter => c.padding_symbols.padding_chars@[0],
        PaddingCharTypes::RandomCharacter => c.padding_symbols.padding_chars@[d.padding_index as int],
        PaddingCharTypes::SeperatorCharacter => separator_of(c, d),
    }
}

/// The word at position `index` after it is lowercased and then changed by `t`;
/// `upper` is the coin of a random change of case.
pub open spec fn transform_word(t: WordTransformations, w: Seq<char>, index: int, upper: bool) -> Seq<
    char,
> {
    let l = lower_word(w);
    match t {
        WordTransformations::CapitaliseFirst => if l.len() == 0 {
            l
        } else {
            l.update(0, upper_char(l[0]))
        },
        WordTransformations::CapitaliseNonFirst => if l.len() == 0 {
            l
        } else {
            upper_word(l).update(0, l[0])
        },
        WordTransformations::LowerCase => l,
        WordTransformations::UpperCase => upper_word(l),
        WordTransformations::AlternatingLowerUpper => if index % 2 == 1 {
            upper_word(l)
        } else {
            l
        },
        WordTransformations::RandomLowerUpper => if upper {
            upper_word(l)
        } else {
            l
        },
    }
}

/// The chosen words after their change of case.
pub open spec fn transformed_words(c: Configuration, words: Seq<Seq<char>>, d: Draws) -> Seq<
    Seq<char>,
> {
    Seq::new(
        words.len(),
        |i: int| transform_word(c.words.transformations, words[i], i, d.uppercase@[i]),
    )
}

/// The words joined by the separator.
pub open spec fn join_words(words: Seq<Seq<char>>, sep: char) -> Seq<char>
    decreases words.len(),
{
    if words.len() == 0 {
        Seq::empty()
    } else if words.len() == 1 {
        words[0]
    } else {
        join_words(words.drop_last(), sep).push(sep) + words.last()
    }
}

/// The digits and separator before the words, if any.
pub open spec fn digits_prefix(c: Configuration, d: Draws) -> Seq<char> {
    if c.padding_digits.num_before > 0 {
        decimal(d.digits_before as nat).push(separator_of(c, d))
    } else {
        Seq::empty()
    }
}

/// The separator and digits after the words, if any.
pub open spec fn digits_suffix(c: Configuration, d: Draws) -> Seq<char> {
    if c.padding_digits.num_after > 0 {
        seq![separator_of(c, d)] + decimal(d.digits_after as nat)
    } else {
        Seq::empty()
    }
}

/// The password before its outer padding.
pub open spec fn unpadded_password(c: Configuration, words: Seq<Seq<char>>, d: Draws) -> Seq<char> {
    digits_prefix(c, d) + join_words(transformed_words(c, words, d), separator_of(c, d))
        + digits_suffix(c, d)
}

/// `n` copies of a character.
pub open spec fn repeat_char(ch: char, n: nat) -> Seq<char> {
    Seq::new(n, |i: int| ch)
}

/// The password with its outer padding.
pub open spec fn pad_password(p: PaddingTypes, ch: char, s: Seq<char>) -> Seq<char> {
    match p {
        PaddingTypes::Adaptive(target) => if s.len() < target {
            s + repeat_char(ch, (target - s.len()) as nat)
        } else {
            s
        },
        PaddingTypes::Fixed(before, after) => repeat_char(ch, before as nat) + s + repeat_char(
            ch,
            after as nat,
        ),
    }
}

/// The password made of the chosen words with the given draws.
pub open spec fn password_of(c: Configuration, words: Seq<Seq<char>>, d: Draws) -> Seq<char> {
    pad_password(
        c.padding_symbols.padding_type,
        padding_char_of(c, d),
        unpadded_password(c, words, d),
    )
}

/// Indices that pick `num_words` words among `num_candidates`.
pub open spec fn picks_fit(picks: Seq<int>, num_words: nat, num_candidates: nat) -> bool {
    &&& picks.len() == num_words
    &&& forall|i: int| 0 <= i < picks.len() ==> 0 <= #[trigger] picks[i] < num_candidates
}

/// The candidates at the picked indices, in the order of the picks.
pub open spec fn picked(candidates: Seq<Seq<char>>, picks: Seq<int>) -> Seq<Seq<char>> {
    picks.map_values(|k: int| candidates[k])
}

fn check_well_formed(config: &Configuration) -> (r: bool)
    ensures
        r == is_well_formed(*config),
{
    config.words.num_words >= 1 && config.words.min_length <= config.words.max_length
        && config.padding_digits.num_before <= MAX_DIGITS && config.padding_digits.num_after
        <= MAX_DIGITS
}

fn check_characters(config: &Configuration) -> (r: bool)
    ensures
        r == has_characters(*config),
{
    config.seperator.seperators.len() > 0 && (match config.padding_symbols.padding_character_type {
        PaddingCharTypes::SeperatorCharacter => true,
        _ => config.padding_symbols.padding_chars.len() > 0,
    })
}

fn choose_separator(config: &Configuration, draws: &Draws) -> (r: char)
    requires
        has_characters(*config),
        config.seperator.seperator_type == SeperatorTypes::RandomCharacter ==> draws.separator_index
            < config.seperator.seperators@.len(),
    ensures
        r == separator_of(*config, *draws),
{
    match config.seperator.seperator_type {
        SeperatorTypes::SingleCharacter => config.seperator.seperators[0],
        SeperatorTypes::RandomCharacter => config.seperator.seperators[draws.separator_index],
    }
}

fn choose_padding_char(config: &Configuration, draws: &Draws, sep: char) -> (r: char)
    requires
        has_characters(*config),
        sep == separator_of(*config, *draws),
        config.padding_symbols.padding_character_type == PaddingCharTypes::RandomCharacter
            ==> draws.padding_index < config.padding_symbols.padding_chars@.len(),
    ensures
        r == padding_char_of(*config, *draws),
{
    match config.padding_symbols.padding_character_type {
        PaddingCharTypes::SingleCharacter => config.padding_symbols.padding_chars[0],
        PaddingCharTypes::RandomCharacter => config.padding_symbols.padding_chars[draws.padding_index],
        PaddingCharTypes::SeperatorCharacter => sep,
    }
}

/// The word lowercased and then changed by `t`.
fn transform(t: WordTransformations, w: &Vec<char>, index: usize, upper: bool) -> (r: Vec<char>)
    ensures
        r@ == transform_word(t, w@, index as int, upper),
{
    let lower = to_lower_case(w);
    match t {
        WordTransformations::CapitaliseFirst => {
            let mut r = lower;
            if r.len() > 0 {
                let first = to_ascii_upper(r[0]);
                r.set(0, first);
            }
            r
        },
        WordTransformations::CapitaliseNonFirst => {
            let mut r = to_upper_case(&lower);
            if lower.len() > 0 {
                r.set(0, lower[0]);
            }
            r
        },
        WordTransformations::LowerCase => lower,
        WordTransformations::UpperCase => to_upper_case(&lower),
        WordTransformations::AlternatingLowerUpper => {
            if index % 2 == 1 {
                to_upper_case(&lower)
            } else {
                lower
            }
        },
        WordTransformations::RandomLowerUpper => {
            if upper {
                to_upper_case(&lower)
            } else {
                lower
            }
        },
    }
}

fn append_chars(out: &mut Vec<char>, w: &Vec<char>)
    ensures
        final(out)@ == old(out)@ + w@,
{
    let mut i: usize = 0;
    while i < w.len()
        invariant
            i <= w@.len(),
            out@ == old(out)@ + w@.take(i as int),
        decreases w@.len() - i,
    {
        out.push(w[i]);
        i += 1;
        assert(out@ =~= old(out)@ + w@.take(i as int));
    }
    assert(w@.take(i as int) =~= w@);
}

fn push_repeated(out: &mut Vec<char>, ch: char, n: usize)
    ensures
        final(out)@ == old(out)@ + repeat_char(ch, n as nat),
{
    let mut i: usize = 0;
    while i < n
        invariant
            i <= n,
            out@ == old(out)@ + repeat_char(ch, i as nat),
        decreases n - i,
    {
        out.push(ch);
        i += 1;
        assert(out@ =~= old(out)@ + repeat_char(ch, i as nat));
    }
}

/// The password made of the chosen `words` with the given draws.
///
/// It fails with `InvalidConfiguration` when the configuration is not well formed
/// or `words` does not hold `num_words` words, and then with
/// `EmptyCharacterCandidates` when a character policy has no candidates.
pub fn build_password(config: &Configuration, words: &Vec<String>, draws: &Draws) -> (r: Result<
    String,
    PasswordError,
>)
    requires
        assembly_error(*config, words@.len()) is None ==> draws_fit(*config, *draws, words@.len()),
    ensures
        match assembly_error(*config, words@.len()) {
            Some(e) => r == Err::<String, PasswordError>(e),
            None => r is Ok && r->Ok_0@ == password_of(*config, string_views(words@), *draws),
        },
{
    if !check_well_formed(config) || words.len() != config.words.num_words as usize {
        return Err(PasswordError::InvalidConfiguration);
    }
    if !check_characters(config) {
        return Err(PasswordError::EmptyCharacterCandidates);
    }
    let ghost c = *config;
    let ghost d = *draws;
    let ghost views = string_views(words@);
    let ghost tw = transformed_words(c, views, d);
    let sep = choose_separator(config, draws);
    let pad = choose_padding_char(config, draws, sep);
    let random_case = match config.words.transformations {
        WordTransformations::RandomLowerUpper => true,
        _ => false,
    };

    let mut out: Vec<char> = Vec::new();
    if config.padding_digits.num_before > 0 {
        push_decimal(&mut out, draws.digits_before);
        out.push(sep);
    }
    assert(out@ =~= digits_prefix(c, d));
    let mut i: usize = 0;
    while i < words.len()
        invariant
            c == *config,
            d == *draws,
            views == string_views(words@),
            tw == transformed_words(c, views, d),
            tw.len() == words@.len(),
            sep == separator_of(c, d),
            random_case == (c.words.transformations == WordTransformations::RandomLowerUpper),
            random_case ==> d.uppercase@.len() == words@.len(),
            i <= words@.len(),
            out@ == digits_prefix(c, d) + join_words(tw.take(i as int), sep),
        decreases words@.len() - i,
    {
        let chars = chars_of(words[i].as_str());
        let upper = if random_case {
            draws.uppercase[i]
        } else {
            false
        };
        let word = transform(config.words.transformations, &chars, i, upper);
        assert(word@ == tw[i as int]);
        if i > 0 {
            out.push(sep);
        }
        append_chars(&mut out, &word);
        proof {
            assert(tw.take(i + 1).drop_last() =~= tw.take(i as int));
            if i == 0 {
                assert(join_words(tw.take(1), sep) == tw[0]);
            }
            assert(out@ =~= digits_prefix(c, d) + join_words(tw.take(i + 1), sep));
        }
        i += 1;
    }
    assert(tw.take(i as int) =~= tw);
    if config.padding_digits.num_after > 0 {
        out.push(sep);
        push_decimal(&mut out, draws.digits_after);
    }
    assert(out@ =~= unpadded_password(c, views, d));
    let padded = match config.padding_symbols.padding_type {
        PaddingTypes::Adaptive(target) => {
            let len = out.len();
            if len < target as usize {
                push_repeated(&mut out, pad, target as usize - len);
            }
            out
        },
        PaddingTypes::Fixed(before, after) => {
            let mut padded: Vec<char> = Vec::new();
            push_repeated(&mut padded, pad, before as usize);
            append_chars(&mut padded, &out);
            push_repeated(&mut padded, pad, after as usize);
            padded
        },
    };
    Ok(string_from_chars(&padded))
}

/// Generates a password with the given configuration and word list.
///
/// It fails with `InvalidConfiguration` when the configuration is not well formed,
/// then with `EmptyWordCandidates` when the word list has no word within the
/// length bounds, then with `EmptyCharacterCandidates` when a character policy has
/// no candidates. The candidates are what `word_list.get_words` returns for the
/// configured bounds. Otherwise the password is made of words drawn with
/// replacement from the candidates, and of draws that fit the configuration.
pub fn generate_password<A: WordList>(config: &Configuration, word_list: &A) -> (r: Result<
    String,
    PasswordError,
>)
    ensures
        outcome(
            *config,
            word_list.candidates(config.words.min_length, config.words.max_length),
            r,
        ),
{
    if !check_well_formed(config) {
        return Err(PasswordError::InvalidConfiguration);
    }
    let candidates = word_list.get_words(config.words.min_length, config.words.max_length);
    let ghost views = borrowed_views(candidates@);
    if candidates.len() == 0 {
        assert(outcome(*config, views, Err(PasswordError::EmptyWordCandidates)));
        return Err(PasswordError::EmptyWordCandidates);
    }
    if !check_characters(config) {
        assert(outcome(*config, views, Err(PasswordError::EmptyCharacterCandidates)));
        return Err(PasswordError::EmptyCharacterCandidates);
    }
    let mut rng = rand::thread_rng();
    let num_words = config.words.num_words as usize;

    let mut chosen: Vec<String> = Vec::new();
    let ghost mut picks: Seq<int> = Seq::empty();
    let mut i: usize = 0;
    while i < num_words
        invariant
            views == borrowed_views(candidates@),
            views.len() > 0,
            i <= num_words,
            picks_fit(picks, i as nat, views.len()),
            string_views(chosen@) == picked(views, picks),
        decreases num_words - i,
    {
        let k = random_index(&mut rng, candidates.len());
        let word: &String = candidates[k];
        let copy = word.clone();
        assert(copy@ == views[k as int]);
        let ghost old_picks = picks;
        let ghost old_chosen = chosen@;
        chosen.push(copy);
        proof {
            picks = picks.push(k as int);
            assert(string_views(chosen@) =~= string_views(old_chosen).push(copy@));
            assert(picked(views, picks) =~= picked(views, old_picks).push(views[k as int]));
            assert(string_views(chosen@) =~= picked(views, picks));
        }
        i += 1;
    }

    let mut uppercase: Vec<bool> = Vec::new();
    if let WordTransformations::RandomLowerUpper = config.words.transformations {
        let mut j: usize = 0;
        while j < num_words
            invariant
                j <= num_words,
                uppercase@.len() == j,
            decreases num_words - j,
        {
            uppercase.push(random_bool(&mut rng));
            j += 1;
        }
    }
    let separator_index = match config.seperator.seperator_type {
        SeperatorTypes::SingleCharacter => 0,
        SeperatorTypes::RandomCharacter => random_index(&mut rng, config.seperator.seperators.len()),
    };
    let padding_index = match config.padding_symbols.padding_character_type {
        PaddingCharTypes::RandomCharacter => random_index(
            &mut rng,
            config.padding_symbols.padding_chars.len(),
        ),
        _ => 0,
    };
    let digits_before = random_digits(&mut rng, config.padding_digits.num_before);
    let digits_after = random_digits(&mut rng, config.padding_digits.num_after);
    let draws = Draws { uppercase, separator_index, padding_index, digits_before, digits_after };
    let r = build_password(config, &chosen, &draws);
    assert(draws_fit(*config, draws, config.words.num_words as nat));
    assert(outcome(*config, views, r));
    r
}

/// What a generation from the given candidate words may return: the error that
/// they call for, or else a password made of words picked among them, with draws
/// that fit the configuration.
pub open spec fn outcome(c: Configuration, candidates: Seq<Seq<char>>, r: Result<String, PasswordError>) -> bool {
    match generation_error(c, candidates.len()) {
        Some(e) => r == Err::<String, PasswordError>(e),
        None => r is Ok && exists|picks: Seq<int>, d: Draws|
            picks_fit(picks, c.words.num_words as nat, candidates.len()) && draws_fit(
                c,
                d,
                c.words.num_words as nat,
            ) && r->Ok_0@ == password_of(c, picked(candidates, picks), d),
    }
}

/// A number with exactly `count` decimal digits drawn at random, or zero when
/// `count` is zero.
fn random_digits(rng: &mut rand::rngs::ThreadRng, count: u8) -> (r: u64)
    requires
        count <= MAX_DIGITS,
    ensures
        digits_fit(count, r),
{
    if count == 0 {
        return 0;
    }
    let low = power_of_ten(count - 1);
    let high = power_of_ten(count);
    proof {
        lemma_pow10_grows(0, (count - 1) as nat);
    }
    assert(pow10(count as nat) == 10 * pow10((count - 1) as nat));
    random_in_range(rng, low, high)
}

} // verus!
