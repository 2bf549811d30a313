//! The preset configurations, each a fixed table of values.
use vstd::prelude::*;

use super::{
    has_fields, Configuration, PaddingCharTypes, PaddingDigitConfiguration,
    PaddingSymbolConfiguration, PaddingTypes, SeperatorConfiguration, SeperatorTypes,
    WordConfiguration, WordTransformations,
};

verus! {

/// The balanced default configuration: the values of every field.
pub open spec fn is_default(c: Configuration) -> bool {
    has_fields(
        c,
        3,
        4,
        8,
        WordTransformations::AlternatingLowerUpper,
        SeperatorTypes::RandomCharacter,
        seq!['!', '@', '$', '%', '^', '&', '*', '-', '_', '+', '=', ':', '|', '~', '?', '/', '.', ';'],
        2,
        2,
        PaddingTypes::Fixed(2, 2),
        PaddingCharTypes::RandomCharacter,
        seq!['!', '@', '$', '%', '^', '&', '*', '-', '_', '+', '=', ':', '|', '~', '?', '/', '.', ';'],
    )
}

/// The balanced default configuration.
pub fn configuration_default() -> (r: Configuration)
    ensures
        is_default(r),
{
    Configuration {
        words: WordConfiguration {
            num_words: 3,
            min_length: 4,
            max_length: 8,
            transformations: WordTransformations::AlternatingLowerUpper,
        },
        seperator: SeperatorConfiguration {
            seperator_type: SeperatorTypes::RandomCharacter,
            seperators: vec!['!', '@', '$', '%', '^', '&', '*', '-', '_', '+', '=', ':', '|', '~', '?', '/', '.', ';'],
        },
        padding_digits: PaddingDigitConfiguration { num_before: 2, num_after: 2 },
        padding_symbols: PaddingSymbolConfiguration {
            padding_type: PaddingTypes::Fixed(2, 2),
            padding_character_type: PaddingCharTypes::RandomCharacter,
            padding_chars: vec!['!', '@', '$', '%', '^', '&', '*', '-', '_', '+', '=', ':', '|', '~', '?', '/', '.', ';'],
        },
    }
}

/// The configuration for Apple ID passwords: the values of every field.
pub open spec fn is_appleid(c: Configuration) -> bool {
    has_fields(
        c,
        3,
        5,
        7,
        WordTransformations::RandomLowerUpper,
        SeperatorTypes::RandomCharacter,
        seq!['-', ':', '.', ','],
        2,
        2,
        PaddingTypes::Fixed(1, 1),
        PaddingCharTypes::RandomCharacter,
        seq!['!', '?', '@', '&'],
    )
}

/// The configuration for Apple ID passwords.
pub fn configuration_appleid() -> (r: Configuration)
    ensures
        is_appleid(r),
{
    Configuration {
        words: WordConfiguration {
            num_words: 3,
            min_length: 5,
            max_length: 7,
            transformations: WordTransformations::RandomLowerUpper,
        },
        seperator: SeperatorConfiguration {
            seperator_type: SeperatorTypes::RandomCharacter,
            seperators: vec!['-', ':', '.', ','],
        },
        padding_digits: PaddingDigitConfiguration { num_before: 2, num_after: 2 },
        padding_symbols: PaddingSymbolConfiguration {
            padding_type: PaddingTypes::Fixed(1, 1),
            padding_character_type: PaddingCharTypes::RandomCharacter,
            padding_chars: vec!['!', '?', '@', '&'],
        },
    }
}

/// The configuration for NTLM passwords: the values of every field.
pub open spec fn is_ntml(c: Configuration) -> bool {
    has_fields(
        c,
        2,
        5,
        5,
        WordTransformations::CapitaliseNonFirst,
        SeperatorTypes::RandomCharacter,
        seq!['-', '+', '=', '.', '*', '_', '|', '~', ','],
        1,
        0,
        PaddingTypes::Fixed(0, 1),
        PaddingCharTypes::RandomCharacter,
        seq!['!', '@', '$', '%', '^', '&', '*', '+', '=', ':', '|', '~', '?'],
    )
}

/// The configuration for NTLM passwords.
pub fn configuration_ntml() -> (r: Configuration)
    ensures
        is_ntml(r),
{
    Configuration {
        words: WordConfiguration {
            num_words: 2,
            min_length: 5,
            max_length: 5,
            transformations: WordTransformations::CapitaliseNonFirst,
        },
        seperator: SeperatorConfiguration {
            seperator_type: SeperatorTypes::RandomCharacter,
            seperators: vec!['-', '+', '=', '.', '*', '_', '|', '~', ','],
        },
        padding_digits: PaddingDigitConfiguration { num_before: 1, num_after: 0 },
        padding_symbols: PaddingSymbolConfiguration {
            padding_type: PaddingTypes::Fixed(0, 1),
            padding_character_type: PaddingCharTypes::RandomCharacter,
            padding_chars: vec!['!', '@', '$', '%', '^', '&', '*', '+', '=', ':', '|', '~', '?'],
        },
    }
}

/// The configuration of the original XKCD comic: the values of every field.
pub open spec fn is_xkcd(c: Configuration) -> bool {
    has_fields(
        c,
        4,
        4,
        8,
        WordTransformations::RandomLowerUpper,
        SeperatorTypes::SingleCharacter,
        seq!['-'],
        0,
        0,
        PaddingTypes::Fixed(0, 0),
        PaddingCharTypes::SingleCharacter,
        seq!['-'],
    )
}

/// The configuration of the original XKCD comic.
pub fn configuration_xkcd() -> (r: Configuration)
    ensures
        is_xkcd(r),
{
    let seperators = vec!['-'];
    let padding_chars = vec!['-'];
    let c = Configuration {
        words: WordConfiguration {
            num_words: 4,
            min_length: 4,
            max_length: 8,
            transformations: WordTransformations::RandomLowerUpper,
        },
        seperator: SeperatorConfiguration {
            seperator_type: SeperatorTypes::SingleCharacter,
            seperators,
        },
        padding_digits: PaddingDigitConfiguration { num_before: 0, num_after: 0 },
        padding_symbols: PaddingSymbolConfiguration {
            padding_type: PaddingTypes::Fixed(0, 0),
            padding_character_type: PaddingCharTypes::SingleCharacter,
            padding_chars,
        },
    };
    assert(c.seperator.seperators@ == seq!['-']);
    assert(c.padding_symbols.padding_chars@ == seq!['-']);
    c
}

/// The configuration for web sites that allow 16 characters: the values of every field.
pub open spec fn is_web16(c: Configuration) -> bool {
    has_fields(
        c,
        3,
        4,
        4,
        WordTransformations::RandomLowerUpper,
        SeperatorTypes::RandomCharacter,
        seq!['-', '+', '=', '.', '*', '_', '|', '~', ','],
        0,
        0,
        PaddingTypes::Fixed(1, 1),
        PaddingCharTypes::RandomCharacter,
        seq!['!', '@', '$', '%', '^', '&', '*', '+', '=', ':', '|', '~', '?'],
    )
}

/// The configuration for web sites that allow 16 characters.
pub fn configuration_web16() -> (r: Configuration)
    ensures
        is_web16(r),
{
    Configuration {
        words: WordConfiguration {
            num_words: 3,
            min_length: 4,
            max_length: 4,
            transformations: WordTransformations::RandomLowerUpper,
        },
        seperator: SeperatorConfiguration {
            seperator_type: SeperatorTypes::RandomCharacter,
            seperators: vec!['-', '+', '=', '.', '*', '_', '|', '~', ','],
        },
        padding_digits: PaddingDigitConfiguration { num_before: 0, num_after: 0 },
        padding_symbols: PaddingSymbolConfiguration {
            padding_type: PaddingTypes::Fixed(1, 1),
            padding_character_type: PaddingCharTypes::RandomCharacter,
            padding_chars: vec!['!', '@', '$', '%', '^', '&', '*', '+', '=', ':', '|', '~', '?'],
        },
    }
}

/// The configuration for web sites that allow 32 characters: the values of every field.
pub open spec fn is_web32(c: Configuration) -> bool {
    has_fields(
        c,
        4,
        4,
        5,
        WordTransformations::AlternatingLowerUpper,
        SeperatorTypes::RandomCharacter,
        seq!['-', '+', '=', '.', '*', '_', '|', '~', ','],
        2,
        2,
        PaddingTypes::Fixed(1, 1),
        PaddingCharTypes::RandomCharacter,
        seq!['!', '@', '$', '%', '^', '&', '*', '+', '=', ':', '|', '~', '?'],
    )
}

/// The configuration for web sites that allow 32 characters.
pub fn configuration_web32() -> (r: Configuration)
    ensures
        is_web32(r),
{
    Configuration {
        words: WordConfiguration {
            num_words: 4,
            min_length: 4,
            max_length: 5,
            transformations: WordTransformations::AlternatingLowerUpper,
        },
        seperator: SeperatorConfiguration {
            seperator_type: SeperatorTypes::RandomCharacter,
            seperators: vec!['-', '+', '=', '.', '*', '_', '|', '~', ','],
        },
        padding_digits: PaddingDigitConfiguration { num_before: 2, num_after: 2 },
        padding_symbols: PaddingSymbolConfiguration {
            padding_type: PaddingTypes::Fixed(1, 1),
            padding_character_type: PaddingCharTypes::RandomCharacter,
            padding_chars: vec!['!', '@', '$', '%', '^', '&', '*', '+', '=', ':', '|', '~', '?'],
        },
    }
}

/// The configuration for 63-character WiFi keys: the values of every field.
pub open spec fn is_wifi(c: Configuration) -> bool {
    has_fields(
        c,
        6,
        4,
        8,
        WordTransformations::RandomLowerUpper,
        SeperatorTypes::RandomCharacter,
        seq!['-', '+', '=', '.', '*', '_', '|', '~', ','],
        4,
        4,
        PaddingTypes::Adaptive(63),
        PaddingCharTypes::RandomCharacter,
        seq!['!', '@', '$', '%', '^', '&', '*', '+', '=', ':', '|', '~', '?'],
    )
}

/// The configuration for 63-character WiFi keys.
pub fn configuration_wifi() -> (r: Configuration)
    ensures
        is_wifi(r),
{
    Configuration {
        words: WordConfiguration {
            num_words: 6,
            min_length: 4,
            max_length: 8,
            transformations: WordTransformations::RandomLowerUpper,
        },
        seperator: SeperatorConfiguration {
            seperator_type: SeperatorTypes::RandomCharacter,
            seperators: vec!['-', '+', '=', '.', '*', '_', '|', '~', ','],
        },
        padding_digits: PaddingDigitConfiguration { num_before: 4, num_after: 4 },
        padding_symbols: PaddingSymbolConfiguration {
            padding_type: PaddingTypes::Adaptive(63),
            padding_character_type: PaddingCharTypes::RandomCharacter,
            padding_chars: vec!['!', '@', '$', '%', '^', '&', '*', '+', '=', ':', '|', '~', '?'],
        },
    }
}

} // verus!
