use xkcd_pass::word_list::{parse_word_lines, SimpleEnglish, WordList};

#[test]
fn test_dictionary_contains_words() {
    let dict = SimpleEnglish::new();
    let words = dict.get_words(0, 5);

    assert!(words.len() != 0);
    // Make sure all the words are less than 5 characters long
    for word in words {
        assert!(word.len() <= 5);
    }
}

#[test]
fn get_words_keeps_only_words_within_bounds() {
    let dict = SimpleEnglish::new();
    let words = dict.get_words(4, 4);
    assert!(!words.is_empty());
    for word in &words {
        assert_eq!(word.chars().count(), 4);
    }
    assert!(words.iter().any(|w| w.as_str() == "tree"));
    assert!(!words.iter().any(|w| w.as_str() == "apple"));
}

#[test]
fn get_words_with_no_word_in_bounds_is_empty() {
    let dict = SimpleEnglish::new();
    assert!(dict.get_words(30, 40).is_empty());
    assert!(dict.get_words(6, 5).is_empty());
}

#[test]
fn parse_word_lines_drops_blank_lines() {
    let words = parse_word_lines("apple\n\n   \n\tbanana \r\n");
    assert_eq!(words, vec![String::from("apple"), String::from("\tbanana \r")]);
}

#[test]
fn parse_word_lines_of_empty_text() {
    assert!(parse_word_lines("").is_empty());
    assert!(parse_word_lines("\n\n").is_empty());
    assert_eq!(parse_word_lines("one"), vec![String::from("one")]);
}

#[test]
fn parse_word_lines_treats_unicode_spaces_as_blank() {
    let words = parse_word_lines("\u{a0}\u{3000}\nword\n\u{2003}");
    assert_eq!(words, vec![String::from("word")]);
}

#[test]
fn from_text_serves_exactly_the_words_in_bounds() {
    let list = SimpleEnglish::from_text("blue\n\nelephant\ntree\n  \nox\n");
    let words: Vec<&str> = list.get_words(2, 4).into_iter().map(|w| w.as_str()).collect();
    assert_eq!(words, vec!["blue", "tree", "ox"]);
    let wide: Vec<&str> = list.get_words(0, 20).into_iter().map(|w| w.as_str()).collect();
    assert_eq!(wide, vec!["blue", "elephant", "tree", "ox"]);
    let narrow: Vec<&str> = list.get_words(4, 4).into_iter().map(|w| w.as_str()).collect();
    assert_eq!(narrow, vec!["blue", "tree"]);
}
