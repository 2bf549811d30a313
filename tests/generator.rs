use xkcd_pass::configuration::{
    PaddingCharTypes, PaddingDigitConfiguration, PaddingSymbolConfiguration, PaddingTypes,
    SeperatorConfiguration, SeperatorTypes, WordConfiguration, WordTransformations,
};
use xkcd_pass::generator::{build_password, Draws, PasswordError};
use xkcd_pass::{generate_password, Configuration, SimpleEnglish};

fn config(
    num_words: u8,
    transformations: WordTransformations,
    seperator_type: SeperatorTypes,
    seperators: Vec<char>,
    digits: (u8, u8),
    padding_type: PaddingTypes,
    padding_character_type: PaddingCharTypes,
    padding_chars: Vec<char>,
) -> Configuration {
    Configuration {
        words: WordConfiguration { num_words, min_length: 4, max_length: 4, transformations },
        seperator: SeperatorConfiguration { seperator_type, seperators },
        padding_digits: PaddingDigitConfiguration { num_before: digits.0, num_after: digits.1 },
        padding_symbols: PaddingSymbolConfiguration {
            padding_type,
            padding_character_type,
            padding_chars,
        },
    }
}

fn plain(num_words: u8, t: WordTransformations) -> Configuration {
    config(
        num_words,
        t,
        SeperatorTypes::SingleCharacter,
        vec!['-'],
        (0, 0),
        PaddingTypes::Fixed(0, 0),
        PaddingCharTypes::SingleCharacter,
        vec!['!'],
    )
}

fn three_words() -> SimpleEnglish {
    SimpleEnglish::from_text("blue\ntree\nfrog\n")
}

fn no_draws() -> Draws {
    Draws {
        uppercase: vec![],
        separator_index: 0,
        padding_index: 0,
        digits_before: 0,
        digits_after: 0,
    }
}

fn build(c: &Configuration, words: &[&str], draws: &Draws) -> Result<String, PasswordError> {
    let words: Vec<String> = words.iter().map(|w| String::from(*w)).collect();
    build_password(c, &words, draws)
}

#[test]
fn uppercase_three_words_scenario() {
    let c = plain(3, WordTransformations::UpperCase);
    let source = three_words();
    for _ in 0..20 {
        let p = generate_password(&c, &source).unwrap();
        assert_eq!(p.len(), 14);
        let parts: Vec<&str> = p.split('-').collect();
        assert_eq!(parts.len(), 3);
        for part in parts {
            assert!(part == "BLUE" || part == "TREE" || part == "FROG");
        }
    }
}

#[test]
fn two_digits_before_are_between_ten_and_ninety_nine() {
    let mut c = plain(1, WordTransformations::LowerCase);
    c.padding_digits.num_before = 2;
    let source = three_words();
    for _ in 0..50 {
        let p = generate_password(&c, &source).unwrap();
        assert_eq!(p.len(), 7);
        let n: u32 = p[0..2].parse().unwrap();
        assert!((10..=99).contains(&n));
        assert_eq!(&p[2..3], "-");
        assert!(["blue", "tree", "frog"].contains(&&p[3..]));
    }
}

#[test]
fn empty_word_source_gives_empty_word_candidates() {
    let c = plain(3, WordTransformations::UpperCase);
    let source = SimpleEnglish::from_text("");
    assert_eq!(generate_password(&c, &source), Err(PasswordError::EmptyWordCandidates));
    let long_only = SimpleEnglish::from_text("elephant");
    assert_eq!(generate_password(&c, &long_only), Err(PasswordError::EmptyWordCandidates));
    let mut long = Configuration::xkcd();
    long.words.min_length = 30;
    long.words.max_length = 40;
    assert_eq!(
        generate_password(&long, &SimpleEnglish::new()),
        Err(PasswordError::EmptyWordCandidates)
    );
}

#[test]
fn invalid_configurations_are_rejected() {
    let source = three_words();
    let mut c = plain(0, WordTransformations::LowerCase);
    assert_eq!(generate_password(&c, &source), Err(PasswordError::InvalidConfiguration));
    c.words.num_words = 2;
    c.words.min_length = 5;
    c.words.max_length = 4;
    assert_eq!(generate_password(&c, &source), Err(PasswordError::InvalidConfiguration));
    let mut d = plain(2, WordTransformations::LowerCase);
    d.padding_digits.num_after = 20;
    assert_eq!(generate_password(&d, &source), Err(PasswordError::InvalidConfiguration));
}

#[test]
fn missing_characters_are_rejected() {
    let source = three_words();
    let mut c = plain(2, WordTransformations::LowerCase);
    c.seperator.seperators = vec![];
    assert_eq!(generate_password(&c, &source), Err(PasswordError::EmptyCharacterCandidates));
    let mut d = plain(2, WordTransformations::LowerCase);
    d.padding_symbols.padding_character_type = PaddingCharTypes::RandomCharacter;
    d.padding_symbols.padding_chars = vec![];
    assert_eq!(generate_password(&d, &source), Err(PasswordError::EmptyCharacterCandidates));
    d.padding_symbols.padding_character_type = PaddingCharTypes::SeperatorCharacter;
    assert!(generate_password(&d, &source).is_ok());
}

#[test]
fn single_character_policies_always_take_the_first_candidate() {
    let c = config(
        3,
        WordTransformations::LowerCase,
        SeperatorTypes::SingleCharacter,
        vec!['+', '-', '='],
        (1, 1),
        PaddingTypes::Fixed(1, 1),
        PaddingCharTypes::SingleCharacter,
        vec!['#', '@'],
    );
    let source = three_words();
    for _ in 0..20 {
        let p: Vec<char> = generate_password(&c, &source).unwrap().chars().collect();
        assert_eq!(p.len(), 1 + 1 + 1 + 14 + 1 + 1 + 1);
        assert_eq!(p[0], '#');
        assert_eq!(p[2], '+');
        assert_eq!(p[7], '+');
        assert_eq!(p[12], '+');
        assert_eq!(p[17], '+');
        assert_eq!(p[19], '#');
    }
}

#[test]
fn alternating_case_has_no_randomness() {
    let c = plain(3, WordTransformations::AlternatingLowerUpper);
    let source = SimpleEnglish::from_text("Frog");
    for _ in 0..10 {
        assert_eq!(generate_password(&c, &source).unwrap(), "frog-FROG-frog");
    }
}

#[test]
fn fixed_padding_adds_its_counts() {
    let c = Configuration::default();
    let words = SimpleEnglish::new();
    for _ in 0..20 {
        let p = generate_password(&c, &words).unwrap();
        let n = p.chars().count();
        // 2 + 2 padding, 2 + 2 digits, 4 separators, 3 words of 4 to 8 letters
        assert!(n >= 4 + 4 + 4 + 12 && n <= 4 + 4 + 4 + 24);
        let chars: Vec<char> = p.chars().collect();
        assert_eq!(chars[0], chars[1]);
        assert_eq!(chars[n - 1], chars[n - 2]);
        assert_eq!(chars[0], chars[n - 1]);
        assert!(chars[2].is_ascii_digit() && chars[3].is_ascii_digit());
        assert!(chars[n - 3].is_ascii_digit() && chars[n - 4].is_ascii_digit());
    }
}

#[test]
fn adaptive_padding_reaches_the_target() {
    let c = Configuration::wifi();
    let words = SimpleEnglish::new();
    for _ in 0..20 {
        let p = generate_password(&c, &words).unwrap();
        assert_eq!(p.chars().count(), 63);
    }
}

#[test]
fn generated_characters_come_from_the_configuration() {
    let c = Configuration::default();
    let words = SimpleEnglish::new();
    for _ in 0..20 {
        let p = generate_password(&c, &words).unwrap();
        for ch in p.chars() {
            assert!(ch.is_ascii_alphanumeric() || c.seperator.seperators.contains(&ch));
        }
    }
}

#[test]
fn build_uppercase() {
    let c = plain(3, WordTransformations::UpperCase);
    assert_eq!(build(&c, &["blue", "tree", "frog"], &no_draws()), Ok(String::from("BLUE-TREE-FROG")));
}

#[test]
fn build_capitalise_first() {
    let c = plain(3, WordTransformations::CapitaliseFirst);
    assert_eq!(build(&c, &["bLUE", "tree", "FROG"], &no_draws()), Ok(String::from("Blue-Tree-Frog")));
}

#[test]
fn build_capitalise_non_first() {
    let c = plain(3, WordTransformations::CapitaliseNonFirst);
    assert_eq!(build(&c, &["Blue", "tree", "frog"], &no_draws()), Ok(String::from("bLUE-tREE-fROG")));
}

#[test]
fn build_lower_case() {
    let c = plain(2, WordTransformations::LowerCase);
    assert_eq!(build(&c, &["BlUe", "TREE"], &no_draws()), Ok(String::from("blue-tree")));
}

#[test]
fn build_alternating() {
    let c = plain(4, WordTransformations::AlternatingLowerUpper);
    assert_eq!(
        build(&c, &["Blue", "tree", "FROG", "moon"], &no_draws()),
        Ok(String::from("blue-TREE-frog-MOON"))
    );
}

#[test]
fn build_random_case_follows_the_coins() {
    let c = plain(3, WordTransformations::RandomLowerUpper);
    let mut d = no_draws();
    d.uppercase = vec![true, false, true];
    assert_eq!(build(&c, &["blue", "Tree", "frog"], &d), Ok(String::from("BLUE-tree-FROG")));
}

#[test]
fn build_with_digits_and_fixed_padding() {
    let c = config(
        3,
        WordTransformations::LowerCase,
        SeperatorTypes::SingleCharacter,
        vec!['.'],
        (2, 3),
        PaddingTypes::Fixed(1, 2),
        PaddingCharTypes::SingleCharacter,
        vec!['!'],
    );
    let mut d = no_draws();
    d.digits_before = 42;
    d.digits_after = 123;
    assert_eq!(
        build(&c, &["blue", "tree", "frog"], &d),
        Ok(String::from("!42.blue.tree.frog.123!!"))
    );
}

#[test]
fn build_with_adaptive_padding() {
    let mut c = plain(3, WordTransformations::LowerCase);
    c.padding_symbols.padding_type = PaddingTypes::Adaptive(20);
    c.padding_symbols.padding_chars = vec!['*'];
    assert_eq!(
        build(&c, &["blue", "tree", "frog"], &no_draws()),
        Ok(String::from("blue-tree-frog******"))
    );
    c.padding_symbols.padding_type = PaddingTypes::Adaptive(5);
    assert_eq!(build(&c, &["blue", "tree", "frog"], &no_draws()), Ok(String::from("blue-tree-frog")));
}

#[test]
fn build_with_random_characters() {
    let c = config(
        2,
        WordTransformations::LowerCase,
        SeperatorTypes::RandomCharacter,
        vec!['-', '+', '='],
        (1, 0),
        PaddingTypes::Fixed(1, 1),
        PaddingCharTypes::RandomCharacter,
        vec!['#', '@'],
    );
    let mut d = no_draws();
    d.separator_index = 2;
    d.padding_index = 1;
    d.digits_before = 7;
    assert_eq!(build(&c, &["blue", "tree"], &d), Ok(String::from("@7=blue=tree@")));
}

#[test]
fn build_padding_reuses_the_separator() {
    let c = config(
        3,
        WordTransformations::LowerCase,
        SeperatorTypes::RandomCharacter,
        vec!['-', '+'],
        (0, 0),
        PaddingTypes::Fixed(1, 1),
        PaddingCharTypes::SeperatorCharacter,
        vec![],
    );
    let mut d = no_draws();
    d.separator_index = 1;
    assert_eq!(build(&c, &["blue", "tree", "frog"], &d), Ok(String::from("+blue+tree+frog+")));
}

#[test]
fn build_errors() {
    let c = plain(3, WordTransformations::LowerCase);
    assert_eq!(build(&c, &["blue", "tree"], &no_draws()), Err(PasswordError::InvalidConfiguration));
    let mut e = plain(2, WordTransformations::LowerCase);
    e.seperator.seperators = vec![];
    assert_eq!(build(&e, &["blue", "tree"], &no_draws()), Err(PasswordError::EmptyCharacterCandidates));
}

#[test]
fn build_nineteen_digits() {
    let mut c = plain(1, WordTransformations::LowerCase);
    c.padding_digits.num_after = 19;
    let mut d = no_draws();
    d.digits_after = 10_000_000_000_000_000_000;
    assert_eq!(build(&c, &["blue"], &d), Ok(String::from("blue-10000000000000000000")));
}
