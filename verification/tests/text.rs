use gedcom::text::{
    chars_of, collect_chars, push_decimal, reference_id, same_text, scan, split_entries,
    text_between, whitespace, CharClass,
};

#[test]
fn white_space_is_what_unicode_calls_so() {
    for code in 0..=0x3100u32 {
        if let Some(c) = char::from_u32(code) {
            assert_eq!(whitespace(c), c.is_whitespace(), "U+{:04X}", code);
        }
    }
    assert!(!whitespace('\u{feff}'));
    assert!(!whitespace('\u{180e}'));
}

#[test]
fn the_classes_tell_their_characters() {
    assert!(CharClass::Blank.contains(' '));
    assert!(CharClass::Blank.contains('\t'));
    assert!(CharClass::Blank.contains('\r'));
    assert!(CharClass::Blank.contains('\u{feff}'));
    assert!(!CharClass::Blank.contains('\n'));
    assert!(!CharClass::Blank.contains('a'));
    assert!(CharClass::Word.contains('@'));
    assert!(!CharClass::Word.contains(' '));
    assert!(!CharClass::Word.contains('\n'));
    assert!(CharClass::Value.contains(' '));
    assert!(!CharClass::Value.contains('\n'));
    assert!(!CharClass::Value.contains('\r'));
    assert!(CharClass::Digit.contains('0'));
    assert!(CharClass::Digit.contains('9'));
    assert!(!CharClass::Digit.contains('a'));
    assert!(CharClass::Entry.contains(' '));
    assert!(!CharClass::Entry.contains(','));
}

#[test]
fn scan_finds_the_end_of_a_run() {
    let v: Vec<char> = "  12ab".chars().collect();
    assert_eq!(scan(&v, 0, CharClass::Blank), 2);
    assert_eq!(scan(&v, 2, CharClass::Digit), 4);
    assert_eq!(scan(&v, 4, CharClass::Digit), 4);
    assert_eq!(scan(&v, 4, CharClass::Word), 6);
    assert_eq!(scan(&v, 6, CharClass::Word), 6);
}

#[test]
fn text_between_copies_a_part() {
    let v: Vec<char> = "hello world".chars().collect();
    assert_eq!(text_between(&v, 6, 11), "world");
    assert_eq!(text_between(&v, 3, 3), "");
}

#[test]
fn chars_are_collected_in_order() {
    assert_eq!(collect_chars("añ→b".chars()), vec!['a', 'ñ', '→', 'b']);
    assert_eq!(chars_of(""), Vec::<char>::new());
}

#[test]
fn same_text_compares_characters() {
    assert!(same_text("HEAD", "HEAD"));
    assert!(same_text("", ""));
    assert!(!same_text("HEAD", "HEAd"));
    assert!(!same_text("HEAD", "HEA"));
    assert!(!same_text("é", "e"));
}

#[test]
fn a_reference_loses_its_delimiters() {
    assert_eq!(reference_id("@F1@".to_string()), "F1");
    assert_eq!(reference_id("@@".to_string()), "");
    assert_eq!(reference_id("F1".to_string()), "F1");
    assert_eq!(reference_id("@F1".to_string()), "@F1");
    assert_eq!(reference_id("@".to_string()), "@");
    assert_eq!(reference_id("".to_string()), "");
}

#[test]
fn a_list_is_cut_at_its_commas() {
    assert_eq!(
        split_entries("City, County , State,Country"),
        vec!["City", "County", "State", "Country"]
    );
    assert_eq!(split_entries("one"), vec!["one"]);
    assert_eq!(split_entries(""), vec![""]);
    assert_eq!(split_entries("a,"), vec!["a", ""]);
    assert_eq!(split_entries(" , b b "), vec!["", "b b"]);
}

#[test]
fn a_list_is_cut_as_split_and_trim_cut_it() {
    for text in ["a, b", ",", " x ,, y\t", "\u{a0}p\u{2003},q", "no comma"] {
        let expected: Vec<String> = text.split(",").map(|t| t.trim().to_string()).collect();
        assert_eq!(split_entries(text), expected);
    }
}

#[test]
fn numbers_are_written_in_decimal() {
    for (n, text) in [(0u32, "0"), (7, "7"), (10, "10"), (4096, "4096"), (u32::MAX, "4294967295")] {
        let mut s = String::from("n=");
        push_decimal(&mut s, n);
        assert_eq!(s, format!("n={}", text));
    }
}
