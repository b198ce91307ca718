use pin_manager::backup::SIDECAR_DIR;
use pin_manager::listing::{
    build_listing, classify, is_hidden, key_precedes, select_entries, sort_entries, text_less,
    DirectoryEntry, FoundEntry,
};

fn found(name: &str, is_dir: bool) -> FoundEntry {
    FoundEntry { name: Some(String::from(name)), path: format!("/pics/{}", name), is_dir }
}

fn entry(name: &str, is_dir: bool) -> DirectoryEntry {
    DirectoryEntry {
        name: String::from(name),
        path: format!("/pics/{}", name),
        is_dir,
        is_image: !is_dir,
    }
}

fn names(entries: &[DirectoryEntry]) -> Vec<&str> {
    entries.iter().map(|e| e.name.as_str()).collect()
}

fn chars(text: &str) -> Vec<char> {
    text.chars().collect()
}

#[test]
fn hidden_names_begin_with_a_dot() {
    assert!(is_hidden(".git"));
    assert!(is_hidden("."));
    assert!(is_hidden(".."));
    assert!(is_hidden(".photo.jpg"));
    assert!(!is_hidden("photo.jpg"));
    assert!(!is_hidden("a.b"));
    assert!(!is_hidden(""));
    assert!(!is_hidden(" .x"));
}

#[test]
fn the_sidecar_directory_is_hidden() {
    assert!(is_hidden(SIDECAR_DIR));
    assert_eq!(classify(&found(SIDECAR_DIR, true)), None);
}

#[test]
fn directories_and_images_are_shown() {
    assert_eq!(
        classify(&found("holiday", true)),
        Some(DirectoryEntry {
            name: String::from("holiday"),
            path: String::from("/pics/holiday"),
            is_dir: true,
            is_image: false,
        })
    );
    assert_eq!(
        classify(&found("sun.JPG", false)),
        Some(DirectoryEntry {
            name: String::from("sun.JPG"),
            path: String::from("/pics/sun.JPG"),
            is_dir: false,
            is_image: true,
        })
    );
}

#[test]
fn a_directory_is_no_image_whatever_its_name() {
    let shown = classify(&found("album.png", true)).unwrap();
    assert!(shown.is_dir);
    assert!(!shown.is_image);
}

#[test]
fn other_entries_are_not_shown() {
    assert_eq!(classify(&found("notes.txt", false)), None);
    assert_eq!(classify(&found("README", false)), None);
    assert_eq!(classify(&found(".hidden.png", false)), None);
    assert_eq!(classify(&found(".config", true)), None);
    assert_eq!(
        classify(&FoundEntry { name: None, path: String::from("/pics/\u{fffd}.png"), is_dir: false }),
        None
    );
    assert_eq!(
        classify(&FoundEntry { name: None, path: String::from("/pics/\u{fffd}"), is_dir: true }),
        None
    );
}

#[test]
fn selection_keeps_the_order_found() {
    let all = vec![
        found("b.png", false),
        found(".safety_net", true),
        found("notes.txt", false),
        found("a", true),
        found("A.gif", false),
    ];
    let entries = select_entries(&all);
    assert_eq!(names(&entries), vec!["b.png", "a", "A.gif"]);
}

#[test]
fn characters_order_texts() {
    assert!(text_less(&chars("a"), &chars("b")));
    assert!(!text_less(&chars("b"), &chars("a")));
    assert!(!text_less(&chars("a"), &chars("a")));
    assert!(text_less(&chars(""), &chars("a")));
    assert!(!text_less(&chars("a"), &chars("")));
    assert!(!text_less(&chars(""), &chars("")));
    assert!(text_less(&chars("ab"), &chars("abc")));
    assert!(!text_less(&chars("abc"), &chars("ab")));
    assert!(text_less(&chars("abc"), &chars("abd")));
    assert!(text_less(&chars("Z"), &chars("a")));
    assert!(text_less(&chars("img10"), &chars("img2")));
    assert!(text_less(&chars("z"), &chars("é")));
    assert_eq!(text_less(&chars("é"), &chars("z")), "é" < "z");
    assert_eq!(text_less(&chars("\u{ffff}"), &chars("\u{10000}")), "\u{ffff}" < "\u{10000}");
}

#[test]
fn directories_come_before_files() {
    assert!(key_precedes(true, &chars("z"), false, &chars("a")));
    assert!(!key_precedes(false, &chars("a"), true, &chars("z")));
    assert!(key_precedes(true, &chars("a"), true, &chars("b")));
    assert!(!key_precedes(true, &chars("b"), true, &chars("a")));
    assert!(key_precedes(false, &chars("a"), false, &chars("b")));
    assert!(!key_precedes(false, &chars("a"), false, &chars("a")));
}

#[test]
fn sorting_puts_directories_first_and_ignores_case() {
    let sorted = sort_entries(vec![
        entry("zebra.png", false),
        entry("Apple.png", false),
        entry("music", true),
        entry("banana.gif", false),
        entry("Albums", true),
        entry("cherry.JPG", false),
    ]);
    assert_eq!(
        names(&sorted),
        vec!["Albums", "music", "Apple.png", "banana.gif", "cherry.JPG", "zebra.png"]
    );
}

#[test]
fn sorting_keeps_every_entry() {
    let sorted = sort_entries(vec![
        entry("b.png", false),
        entry("a.png", false),
        entry("b.png", false),
        entry("a.png", false),
    ]);
    assert_eq!(names(&sorted), vec!["a.png", "a.png", "b.png", "b.png"]);
    assert!(sort_entries(Vec::new()).is_empty());
    assert_eq!(sort_entries(vec![entry("x", true)]), vec![entry("x", true)]);
}

#[test]
fn names_that_differ_in_case_only_keep_their_order() {
    let sorted = sort_entries(vec![
        entry("b.png", false),
        entry("A.PNG", false),
        entry("a.png", false),
        entry("A.png", false),
    ]);
    assert_eq!(names(&sorted), vec!["A.PNG", "a.png", "A.png", "b.png"]);
    let sorted = sort_entries(vec![
        entry("a.png", false),
        entry("A.png", false),
        entry("A.PNG", false),
    ]);
    assert_eq!(names(&sorted), vec!["a.png", "A.png", "A.PNG"]);
}

#[test]
fn sorting_agrees_with_the_standard_stable_sort() {
    let given = [
        "delta.png", "Alpha.png", "charlie.gif", "bravo", "ALPHA.PNG", "echo", "Bravo.jpg",
        "alpha.png", "Zulu", "yankee.bmp", "été.png", "Zebra.png", "10.png", "9.png", "_x.png",
    ];
    let make = || -> Vec<DirectoryEntry> {
        given.iter().map(|name| entry(name, !name.contains('.'))).collect()
    };
    let mut expected = make();
    expected.sort_by(|a, b| match (a.is_dir, b.is_dir) {
        (true, false) => std::cmp::Ordering::Less,
        (false, true) => std::cmp::Ordering::Greater,
        _ => a.name.to_lowercase().cmp(&b.name.to_lowercase()),
    });
    assert_eq!(sort_entries(make()), expected);
}

#[test]
fn a_listing_selects_and_sorts() {
    let all = vec![
        found("sunset.JPG", false),
        found(".safety_net", true),
        found("trips", true),
        found("notes.txt", false),
        found(".DS_Store", false),
        found("Archive", true),
        found("beach.png", false),
    ];
    let listing = build_listing(String::from("/pics"), Some(String::from("/")), &all);
    assert_eq!(listing.current_path, "/pics");
    assert_eq!(listing.parent_path, Some(String::from("/")));
    assert_eq!(names(&listing.entries), vec!["Archive", "trips", "beach.png", "sunset.JPG"]);
    assert!(listing.entries.iter().all(|e| e.name != SIDECAR_DIR));
    assert!(listing.entries[0].is_dir && !listing.entries[0].is_image);
    assert!(!listing.entries[2].is_dir && listing.entries[2].is_image);
    assert_eq!(listing.entries[3].path, "/pics/sunset.JPG");
}

#[test]
fn a_listing_of_nothing_is_empty() {
    let listing = build_listing(String::from("/"), None, &Vec::new());
    assert_eq!(listing.current_path, "/");
    assert_eq!(listing.parent_path, None);
    assert!(listing.entries.is_empty());
}
