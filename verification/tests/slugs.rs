use gelder::slug::canonical_slugify;

#[test]
fn words_joined_by_underscore() {
    assert_eq!(canonical_slugify("  Hello, World!  "), "hello_world");
}

#[test]
fn runs_of_separators_collapse() {
    assert_eq!(canonical_slugify("Phone  #2"), "phone_2");
    assert_eq!(canonical_slugify("a---b___c"), "a_b_c");
}

#[test]
fn nothing_alphanumeric_gives_empty() {
    assert_eq!(canonical_slugify("___"), "");
    assert_eq!(canonical_slugify(""), "");
    assert_eq!(canonical_slugify("   "), "");
}

#[test]
fn non_ascii_letters_are_separators() {
    assert_eq!(canonical_slugify("\u{c4}BC"), "bc");
    assert_eq!(canonical_slugify("Caf\u{e9} Name"), "caf_name");
}

#[test]
fn slugify_is_idempotent() {
    for s in ["  Hello, World!  ", "Phone #2", "x", "_a_", "ABC def GHI", "9-to-5"] {
        let once = canonical_slugify(s);
        assert_eq!(canonical_slugify(&once), once);
    }
}

#[test]
fn digits_and_case() {
    assert_eq!(canonical_slugify("Zip Code 12345"), "zip_code_12345");
}
