use pin_manager::digest::hash_bytes;
use pin_manager::index::{index_contains, index_entry};

const A: &str = "ba7816bf8f01cfea414140de5dae2223b00361a396177a9cb410ff61f20015ad";
const B: &str = "b94d27b9934d3e08a52e52d7da7dabfac484efe37a5380ee9088f7ace2efcde9";

#[test]
fn empty_index_holds_nothing() {
    assert!(!index_contains("", A));
    assert!(!index_contains("", ""));
}

#[test]
fn finds_a_hash_on_any_line() {
    let index = format!("{}\n{}\n", A, B);
    assert!(index_contains(&index, A));
    assert!(index_contains(&index, B));
    assert!(!index_contains(
        &index,
        "e3b0c44298fc1c149afbf4c8996fb92427ae41e4649b934ca495991b7852b855"
    ));
}

#[test]
fn last_line_needs_no_line_feed() {
    let index = format!("{}\n{}", A, B);
    assert!(index_contains(&index, B));
    assert!(index_contains(A, A));
}

#[test]
fn only_whole_lines_match() {
    let index = format!("{}\n", A);
    assert!(!index_contains(&index, &A[..63]));
    assert!(!index_contains(&index, &A[1..]));
    assert!(!index_contains(&format!("{}{}\n", A, B), A));
    assert!(!index_contains(&format!(" {}\n", A), A));
    assert!(!index_contains(&format!("{} \n", A), A));
}

#[test]
fn carriage_return_before_line_feed_ends_the_line() {
    let index = format!("{}\r\n{}\r\n", A, B);
    assert!(index_contains(&index, A));
    assert!(index_contains(&index, B));
    assert!(!index_contains(&index, &format!("{}\r", A)));
}

#[test]
fn carriage_return_elsewhere_belongs_to_the_line() {
    assert!(!index_contains(&format!("{}\r", A), A));
    assert!(index_contains(&format!("{}\r", A), &format!("{}\r", A)));
    assert!(index_contains(&format!("{}\r\r\n", A), &format!("{}\r", A)));
}

#[test]
fn empty_lines_are_lines() {
    assert!(index_contains("\n", ""));
    assert!(index_contains("a\n\nb\n", ""));
    assert!(!index_contains("a\nb\n", ""));
    assert!(index_contains("\r\n", ""));
}

#[test]
fn repeated_hashes_are_found() {
    let index = format!("{}\n{}\n{}\n", A, B, A);
    assert!(index_contains(&index, A));
}

#[test]
fn entry_is_the_hash_and_a_line_feed() {
    let hash = hash_bytes(b"abc").unwrap();
    assert_eq!(index_entry(&hash), format!("{}\n", A));
}

#[test]
fn an_appended_entry_is_found() {
    let first = hash_bytes(b"abc").unwrap();
    let second = hash_bytes(b"hello world").unwrap();
    let mut index = String::new();
    index.push_str(&index_entry(&first));
    assert!(index_contains(&index, first.as_str()));
    assert!(!index_contains(&index, second.as_str()));
    index.push_str(&index_entry(&second));
    assert!(index_contains(&index, first.as_str()));
    assert!(index_contains(&index, second.as_str()));
    assert_eq!(index.lines().count(), 2);
}

#[test]
fn lines_are_the_lines_of_the_text() {
    let texts = [
        "", "a", "a\n", "a\nb", "a\nb\n", "\n", "\n\n", "a\r\n", "a\r", "\r", "\r\n", "a\r\nb\r",
        "a\n\rb", "\ra\n", "a\r\r\n", "b\n\na\n", " a\n", "a \n", "ab\n", "a\nb\na",
    ];
    let wanted = ["", "a", "b", "a\r", "\r", "\ra", "\rb", "ab", " a", "a ", "a\n"];
    for text in texts {
        for line in wanted {
            assert_eq!(
                index_contains(text, line),
                text.lines().any(|l| l == line),
                "{:?} in {:?}",
                line,
                text
            );
        }
    }
}
