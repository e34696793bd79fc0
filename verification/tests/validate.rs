use playtak_ws::validate::{email_is_valid, name_is_guest, name_is_valid, trimmed};

#[test]
fn names_are_letters_and_spaces_four_to_twenty_four() {
    assert!(name_is_valid("abcd"));
    assert!(name_is_valid("ab cd"));
    assert!(name_is_valid("  long enough  "));
    assert!(name_is_valid("abcdefghijklmnopqrstuvwx")); // 24 characters
    assert!(!name_is_valid(""));
    assert!(!name_is_valid("abc"));
    assert!(!name_is_valid("abcdefghijklmnopqrstuvwxy")); // 25 characters
    assert!(!name_is_valid("x1"));
    assert!(!name_is_valid("abcd!"));
    assert!(!name_is_valid("Guest123")); // digits: only the guest bypass admits it
    assert!(!name_is_valid("12abcd34"));
    assert!(!name_is_valid("a1b2c3d4"));
}

#[test]
fn guest_names_contain_guest_then_a_digit() {
    assert!(name_is_guest("Guest1"));
    assert!(name_is_guest("Guest1234"));
    assert!(name_is_guest("XXGuest9YY"));
    assert!(!name_is_guest("Guest"));
    assert!(!name_is_guest("guest1"));
    assert!(!name_is_guest("Gues t1"));
    assert!(!name_is_guest("A Normal Name"));
}

#[test]
fn emails_have_atoms_labels_and_a_short_top_label() {
    assert!(email_is_valid("a@b.com"));
    assert!(email_is_valid("first.last@mail.example.org"));
    assert!(email_is_valid("odd!#$chars@x-1.co"));
    assert!(!email_is_valid(""));
    assert!(!email_is_valid("not an email"));
    assert!(!email_is_valid("a@b"));
    assert!(!email_is_valid("a@b.c"));
    assert!(!email_is_valid("a@b.toolongtld"));
    assert!(!email_is_valid("a..b@c.com"));
    assert!(!email_is_valid(".a@c.com"));
    assert!(!email_is_valid("a@b.com@d.com"));
    assert!(!email_is_valid("a@.com"));
}

#[test]
fn trimming_strips_edges_only() {
    assert_eq!(trimmed("  a bc  "), "a bc");
    assert_eq!(trimmed("abc"), "abc");
    assert_eq!(trimmed("   "), "");
    assert_eq!(trimmed(""), "");
    assert_eq!(trimmed("\t\na b\r\n"), "a b");
}

#[test]
fn whitespace_means_the_unicode_set() {
    assert_eq!(trimmed("\u{a0}a bc\u{3000}"), "a bc");
    assert_eq!(trimmed("\u{2003}\u{2028}x\u{85}"), "x");
    assert!(name_is_valid("a\u{2003}b\u{a0}c"));
}
