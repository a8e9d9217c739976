use scrum_poker::{capitalize_words, random_username, room_id, username};

#[test]
fn username_collapses_whitespace_runs() {
    assert_eq!(username(&"  John   Doe  ".to_string()), "John Doe".to_string());
}

#[test]
fn username_drops_everything_but_letters_digits_and_spaces() {
    assert_eq!(username(&"J(oh)n! D#oe%7".to_string()), "John Doe7".to_string());
    assert_eq!(username(&"a*b".to_string()), "ab".to_string());
    assert_eq!(username(&"a * b".to_string()), "a b".to_string());
}

#[test]
fn username_keeps_unicode_letters() {
    assert_eq!(username(&" Zoë  Åberg ".to_string()), "Zoë Åberg".to_string());
}

#[test]
fn empty_or_symbol_only_names_fall_back_to_a_generated_one() {
    let generated = username(&"  !!!  ".to_string());
    assert!(!generated.contains('-'));
    let generated = username(&String::new());
    assert!(!generated.contains('-'));
}

#[test]
fn random_usernames_are_capitalized_word_pairs() {
    let name = random_username();
    assert!(!name.contains('-'));
    for word in name.split(' ') {
        let first = word.chars().next().unwrap();
        assert!(!first.is_ascii_lowercase());
    }
}

#[test]
fn capitalize_words_turns_dashes_into_spaces() {
    assert_eq!(capitalize_words("rusty-lake"), "Rusty Lake".to_string());
    assert_eq!(capitalize_words("one"), "One".to_string());
    assert_eq!(capitalize_words(""), "".to_string());
    assert_eq!(capitalize_words("a-b-c"), "A B C".to_string());
}

#[test]
fn room_id_keeps_only_ascii_alphanumerics() {
    assert_eq!(room_id("room-42!"), "room42".to_string());
    assert_eq!(room_id("ABC xyz 012"), "ABCxyz012".to_string());
    assert_eq!(room_id("☕️poker"), "poker".to_string());
}

#[test]
fn room_id_is_capped_at_ten_characters() {
    assert_eq!(room_id("abcdefghijKLMNO"), "abcdefghij".to_string());
    assert_eq!(room_id("a-b-c-d-e-f-g-h-i-j-k-l"), "abcdefghij".to_string());
    assert_eq!(room_id(""), "".to_string());
}
