use password_policy::text::{characters, stands_at};

#[test]
fn characters_are_unicode_scalar_values() {
    assert_eq!(characters(""), Vec::<char>::new());
    assert_eq!(characters("abc"), vec!['a', 'b', 'c']);
    assert_eq!(characters("a\u{e9}\u{4e2d}\u{1f600}"), vec!['a', '\u{e9}', '\u{4e2d}', '\u{1f600}']);
}

#[test]
fn a_part_stands_where_its_characters_follow_each_other() {
    let text = characters("1-3 a: abc");
    assert!(stands_at(&text, 0, &characters("1-3")));
    assert!(stands_at(&text, 7, &characters("abc")));
    assert!(stands_at(&text, 4, &characters("a")));
    assert!(!stands_at(&text, 4, &characters("b")));
    assert!(!stands_at(&text, 1, &characters("1-3")));
    assert!(!stands_at(&text, 0, &characters("1-4")));
}

#[test]
fn the_empty_part_stands_everywhere_within_the_text() {
    let text = characters("abc");
    let nothing = characters("");
    assert!(stands_at(&text, 0, &nothing));
    assert!(stands_at(&text, 3, &nothing));
    assert!(!stands_at(&text, 4, &nothing));
    assert!(!stands_at(&text, usize::MAX, &nothing));
}

#[test]
fn no_part_stands_beyond_the_end() {
    let text = characters("abc");
    assert!(stands_at(&text, 1, &characters("bc")));
    assert!(!stands_at(&text, 2, &characters("bc")));
    assert!(!stands_at(&text, 2, &characters("cd")));
    assert!(!stands_at(&text, usize::MAX, &characters("a")));
    assert!(!stands_at(&characters(""), 0, &characters("a")));
}
