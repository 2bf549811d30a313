//! The configuration that the password generator reads.
//!
//! Most passwords are made from one of the preset configurations of the `defaults`
//! module; the methods of `Configuration` give them short names.
use vstd::prelude::*;

pub mod defaults;

verus! {

/// Everything that decides how a password is built, apart from the random draws.
#[derive(Debug)]
pub struct Configuration {
    /// How many words there are, how long they are, and how their case is changed
    pub words: WordConfiguration,
    /// The separator characters between words
    pub seperator: SeperatorConfiguration,
    /// The digits before and after the words
    pub padding_digits: PaddingDigitConfiguration,
    /// The symbols before and after the whole password
    pub padding_symbols: PaddingSymbolConfiguration,
}

/// The quantity and style of the words of a password.
#[derive(Debug)]
pub struct WordConfiguration {
    /// The number of words in the password
    pub num_words: u8,
    /// The minimum length of a word, in characters
    pub min_length: u8,
    /// The maximum length of a word, in characters
    pub max_length: u8,
    /// The change of case applied to the words
    pub transformations: WordTransformations,
}

/// The change of case applied to the words, after each word has been lowercased.
#[derive(Debug, Clone, Copy, PartialEq, Eq)]
pub enum WordTransformations {
    /// First letter uppercase, the rest lowercase: `Random`, `Word`
    CapitaliseFirst,
    /// First letter lowercase, the rest uppercase: `rANDOM`, `wORD`
    CapitaliseNonFirst,
    /// Every word lowercase
    LowerCase,
    /// Every word uppercase
    UpperCase,
    /// Words at even positions lowercase, at odd positions uppercase
    AlternatingLowerUpper,
    /// Each word uppercase or lowercase at random
    RandomLowerUpper,
}

/// The separator placed between words and between the digit blocks and the words.
#[derive(Debug)]
pub struct SeperatorConfiguration {
    /// How the separator is chosen
    pub seperator_type: SeperatorTypes,
    /// The candidate characters; at least one is needed
    pub seperators: Vec<char>,
}

/// How the one separator of a password is chosen.
#[derive(Debug, Clone, Copy, PartialEq, Eq)]
pub enum SeperatorTypes {
    /// The first candidate
    SingleCharacter,
    /// A candidate drawn at random, once for the whole password
    RandomCharacter,
}

/// The number of digits before and after the words.
#[derive(Debug)]
pub struct PaddingDigitConfiguration {
    /// Digits before the words
    pub num_before: u8,
    /// Digits after the words
    pub num_after: u8,
}

/// The symbols before and after the whole password.
#[derive(Debug)]
pub struct PaddingSymbolConfiguration {
    /// How much padding is added
    pub padding_type: PaddingTypes,
    /// How the one padding character is chosen
    pub padding_character_type: PaddingCharTypes,
    /// The candidate characters; needed unless the separator is reused
    pub padding_chars: Vec<char>,
}

/// How much padding is added around the password.
#[derive(Debug, Clone, Copy, PartialEq, Eq)]
pub enum PaddingTypes {
    /// Pad at the end up to the given length; a longer password is left as it is
    Adaptive(u32),
    /// A fixed number of padding characters before and after
    Fixed(u8, u8),
}

/// How the one padding character of a password is chosen.
#[derive(Debug, Clone, Copy, PartialEq, Eq)]
pub enum PaddingCharTypes {
    /// The first candidate
    SingleCharacter,
    /// A candidate drawn at random, once for the whole password
    RandomCharacter,
    /// The separator character chosen for the password
    SeperatorCharacter,
}

/// A configuration whose every field has the given value.
pub open spec fn has_fields(
    c: Configuration,
    num_words: u8,
    min_length: u8,
    max_length: u8,
    transformations: WordTransformations,
    seperator_type: SeperatorTypes,
    seperators: Seq<char>,
    num_before: u8,
    num_after: u8,
    padding_type: PaddingTypes,
    padding_character_type: PaddingCharTypes,
    padding_chars: Seq<char>,
) -> bool {
    &&& c.words.num_words == num_words
    &&& c.words.min_length == min_length
    &&& c.words.max_length == max_length
    &&& c.words.transformations == transformations
    &&& c.seperator.seperator_type == seperator_type
    &&& c.seperator.seperators@ == seperators
    &&& c.padding_digits.num_before == num_before
    &&& c.padding_digits.num_after == num_after
    &&& c.padding_symbols.padding_type == padding_type
    &&& c.padding_symbols.padding_character_type == padding_character_type
    &&& c.padding_symbols.padding_chars@ == padding_chars
}

impl Configuration {
    /// The balanced default configuration.
    pub fn default() -> (r: Configuration)
        ensures
            defaults::is_default(r),
    {
        defaults::configuration_default()
    }

    /// The configuration for Apple ID passwords.
    pub fn appleid() -> (r: Configuration)
        ensures
            defaults::is_appleid(r),
    {
        defaults::configuration_appleid()
    }

    /// The configuration for NTLM passwords.
    pub fn ntml() -> (r: Configuration)
        ensures
            defaults::is_ntml(r),
    {
        defaults::configuration_ntml()
    }

    /// The configuration of the original XKCD comic.
    pub fn xkcd() -> (r: Configuration)
        ensures
            defaults::is_xkcd(r),
    {
        defaults::configuration_xkcd()
    }

    /// The configuration for web sites that allow 16 characters.
    pub fn web16() -> (r: Configuration)
        ensures
            defaults::is_web16(r),
    {
        defaults::configuration_web16()
    }

    /// The configuration for web sites that allow 32 characters.
    pub fn web32() -> (r: Configuration)
        ensures
            defaults::is_web32(r),
    {
        defaults::configuration_web32()
    }

    /// The configuration for 63-character WiFi keys.
    pub fn wifi() -> (r: Configuration)
        ensures
            defaults::is_wifi(r),
    {
        defaults::configuration_wifi()
    }
}

} // verus!
