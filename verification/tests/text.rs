use maybe_special::text::{
    clone_strings, contains_text, ident_char, join, lowercase_of, push_sanitized, same_text,
    to_ascii_lower,
};

fn strings(items: &[&str]) -> Vec<String> {
    items.iter().map(|s| s.to_string()).collect()
}

#[test]
fn lower_case_touches_ascii_letters_only() {
    assert_eq!(to_ascii_lower('A'), 'a');
    assert_eq!(to_ascii_lower('Z'), 'z');
    assert_eq!(to_ascii_lower('a'), 'a');
    assert_eq!(to_ascii_lower('@'), '@');
    assert_eq!(to_ascii_lower('['), '[');
    assert_eq!(to_ascii_lower('É'), 'É');
    assert_eq!(lowercase_of("PowerPC64"), "powerpc64");
    assert_eq!(lowercase_of("ÀB_c9"), "Àb_c9");
    assert_eq!(lowercase_of(""), "");
}

#[test]
fn identifier_characters() {
    for c in ['a', 'z', 'A', 'Z', '0', '9', '_'] {
        assert!(ident_char(c));
    }
    for c in ['.', '-', ' ', '+', 'é', '`', '{', '/', ':', '@', '['] {
        assert!(!ident_char(c));
    }
}

#[test]
fn sanitising_strips_what_is_no_identifier_character() {
    let mut out = String::from("_x86_");
    push_sanitized(&mut out, "sse4.1");
    assert_eq!(out, "_x86_sse41");
    push_sanitized(&mut out, "+-.");
    assert_eq!(out, "_x86_sse41");
    push_sanitized(&mut out, "a-b c_d");
    assert_eq!(out, "_x86_sse41abc_d");
}

#[test]
fn same_text_compares_characters() {
    assert!(same_text("", ""));
    assert!(same_text("avx2", "avx2"));
    assert!(!same_text("avx2", "avx"));
    assert!(!same_text("avx", "avx2"));
    assert!(!same_text("avx2", "avx3"));
    assert!(same_text("é", "é"));
}

#[test]
fn contains_text_finds_whole_items() {
    let items = strings(&["avx", "avx2"]);
    assert!(contains_text(&items, "avx"));
    assert!(contains_text(&items, "avx2"));
    assert!(!contains_text(&items, "avx5"));
    assert!(!contains_text(&items, "av"));
    assert!(!contains_text(&Vec::new(), "avx"));
}

#[test]
fn join_puts_the_separator_between() {
    assert_eq!(join(&strings(&[]), ","), "");
    assert_eq!(join(&strings(&["avx2"]), ","), "avx2");
    assert_eq!(join(&strings(&["avx512f", "avx512vl"]), ","), "avx512f,avx512vl");
    assert_eq!(join(&strings(&["a", "", "b"]), ", "), "a, , b");
}

#[test]
fn clone_strings_copies_in_order() {
    let items = strings(&["b", "a", "b"]);
    assert_eq!(clone_strings(&items), items);
}
