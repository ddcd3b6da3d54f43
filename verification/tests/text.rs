use deb822_lossy::text::{chars_of, find_in, matches_at, same_text, split_bounds, CharClass};

#[test]
fn characters_of_a_text() {
    assert_eq!(chars_of(""), Vec::<char>::new());
    assert_eq!(chars_of("a\u{e9}\u{1f600}"), vec!['a', '\u{e9}', '\u{1f600}']);
}

#[test]
fn texts_compare_by_characters() {
    assert!(same_text("", ""));
    assert!(same_text("abc", "abc"));
    assert!(!same_text("abc", "abd"));
    assert!(!same_text("abc", "ab"));
    assert!(!same_text("ab", "abc"));
}

#[test]
fn finding_a_text_in_a_text() {
    let hay = chars_of("a, b, c");
    let comma = chars_of(", ");
    assert_eq!(find_in(&hay, &comma), Some(1));
    assert_eq!(find_in(&hay, &chars_of("c")), Some(6));
    assert_eq!(find_in(&hay, &chars_of("cc")), None);
    assert_eq!(find_in(&hay, &chars_of("")), Some(0));
    assert_eq!(find_in(&chars_of(""), &chars_of("")), Some(0));
    assert_eq!(find_in(&chars_of(""), &comma), None);
    assert!(matches_at(&hay, &comma, 4));
    assert!(!matches_at(&hay, &comma, 5));
    assert!(!matches_at(&hay, &comma, 6));
    assert!(!matches_at(&hay, &comma, 100));
    assert!(matches_at(&hay, &chars_of(""), 7));
    assert!(!matches_at(&hay, &chars_of(""), 8));
}

#[test]
fn splitting_at_a_character() {
    assert_eq!(split_bounds(&chars_of(""), ','), vec![(0, 0)]);
    assert_eq!(split_bounds(&chars_of("ab"), ','), vec![(0, 2)]);
    assert_eq!(split_bounds(&chars_of(",ab,,c,"), ','), vec![(0, 0), (1, 3), (4, 4), (5, 6), (7, 7)]);
}

#[test]
fn character_classes() {
    assert!(CharClass::Blank.test(' '));
    assert!(CharClass::Blank.test('\t'));
    assert!(!CharClass::Blank.test('\n'));
    assert!(!CharClass::Blank.test('\u{a0}'));
    assert!(CharClass::NotNewline.test(' '));
    assert!(!CharClass::NotNewline.test('\n'));
    assert!(!CharClass::NotNewline.test('\r'));
    assert!(CharClass::Except(':').test(';'));
    assert!(!CharClass::Except(':').test(':'));
}
