use pin_manager::text::{chars_of, same_chars, string_of};

#[test]
fn characters_of_a_string() {
    assert_eq!(chars_of(""), Vec::<char>::new());
    assert_eq!(chars_of("abc"), vec!['a', 'b', 'c']);
    assert_eq!(chars_of("é写\u{1F600}"), vec!['é', '写', '\u{1F600}']);
}

#[test]
fn string_of_characters() {
    assert_eq!(string_of(&[]), "");
    assert_eq!(string_of(&['a', '.', 'b']), "a.b");
    assert_eq!(string_of(&['é', '写']), "é写");
}

#[test]
fn strings_survive_the_round_trip() {
    for text in ["", "photo.jpg", "line\nbreak", "été 写真 \u{1F600}"] {
        assert_eq!(string_of(&chars_of(text)), text);
    }
}

#[test]
fn same_characters() {
    assert!(same_chars(&[], &[]));
    assert!(same_chars(&['a', 'b'], &['a', 'b']));
    assert!(!same_chars(&['a', 'b'], &['a', 'c']));
    assert!(!same_chars(&['a', 'b'], &['b', 'b']));
    assert!(!same_chars(&['a'], &['a', 'b']));
    assert!(!same_chars(&['a', 'b'], &['a']));
    assert!(!same_chars(&[], &['a']));
}
