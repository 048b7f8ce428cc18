use gelder::model::{Address, CanonicalField, CanonicalProfile};
use gelder::profile::{empty_profile, mark_stripe_connected, normalize_fields, prepare_profile_for_save, str_is_blank};

fn field(slug: &str, name: &str, value: &str) -> CanonicalField {
    CanonicalField { slug: slug.to_string(), name: name.to_string(), value: value.to_string() }
}

fn profile(fields: Vec<CanonicalField>) -> CanonicalProfile {
    let mut p = empty_profile();
    p.fields = fields;
    p
}

fn slugs(fs: &[CanonicalField]) -> Vec<String> {
    fs.iter().map(|f| f.slug.clone()).collect()
}

#[test]
fn blank_slugs_take_the_slug_of_the_name() {
    let out = normalize_fields(&vec![field("  ", "Phone Number", "555")]);
    assert_eq!(slugs(&out), vec!["phone_number".to_string()]);
    assert_eq!(out[0].value, "555");
}

#[test]
fn fields_without_any_slug_are_dropped() {
    let out = normalize_fields(&vec![field("", "!!!", "x"), field("a", "A", "1")]);
    assert_eq!(slugs(&out), vec!["a".to_string()]);
}

#[test]
fn later_field_replaces_earlier_and_moves_last() {
    let out = normalize_fields(&vec![field("a", "A", "1"), field("b", "B", "2"), field("a", "A2", "3")]);
    assert_eq!(slugs(&out), vec!["b".to_string(), "a".to_string()]);
    assert_eq!(out[1].value, "3");
    assert_eq!(out[1].name, "A2");
}

#[test]
fn at_most_twenty_fields() {
    let fields: Vec<CanonicalField> = (0..25).map(|i| field(&format!("f{}", i), "n", "v")).collect();
    let out = normalize_fields(&fields);
    assert_eq!(out.len(), 20);
    assert_eq!(out[19].slug, "f19");
}

#[test]
fn a_given_slug_is_kept_as_is() {
    let out = normalize_fields(&vec![field(" Custom Slug ", "ignored", "v")]);
    assert_eq!(out[0].slug, " Custom Slug ");
}

#[test]
fn blank_means_only_whitespace() {
    assert!(str_is_blank(""));
    assert!(str_is_blank(" \t\n\u{a0}\u{3000}"));
    assert!(!str_is_blank(" a "));
}

#[test]
fn saving_carries_forward_what_others_own() {
    let mut stored = profile(vec![]);
    stored.address = Some(Address {
        street: "1 Main".to_string(),
        unit: None,
        city: "Town".to_string(),
        state: "ST".to_string(),
        zip: "00000".to_string(),
    });
    stored.idothis_categories = Some(vec!["garden".to_string()]);
    stored.service_zip = Some("12345".to_string());
    stored.idothis_rate_cents = Some(4000);
    stored.stripe_connected = Some(true);
    let mut incoming = profile(vec![field("", "Name", "Me")]);
    incoming.service_zip = Some("99999".to_string());
    let saved = prepare_profile_for_save(incoming, Some(stored), "42".to_string());
    assert_eq!(saved.address.as_ref().map(|a| a.city.clone()), Some("Town".to_string()));
    assert_eq!(saved.idothis_categories, Some(vec!["garden".to_string()]));
    assert_eq!(saved.service_zip, Some("99999".to_string()));
    assert_eq!(saved.idothis_rate_cents, Some(4000));
    assert_eq!(saved.stripe_connected, Some(true));
    assert_eq!(saved.updated_at, Some("42".to_string()));
    assert_eq!(slugs(&saved.fields), vec!["name".to_string()]);
}

#[test]
fn saving_without_a_stored_profile() {
    let saved = prepare_profile_for_save(profile(vec![]), None, "1".to_string());
    assert_eq!(saved.address.is_none(), true);
    assert_eq!(saved.stripe_connected, None);
    assert_eq!(saved.updated_at, Some("1".to_string()));
}

#[test]
fn publishing_the_stripe_flag() {
    let mut p = profile(vec![field("a", "A", "1")]);
    mark_stripe_connected(&mut p, false, "5".to_string());
    assert_eq!(p.stripe_connected, Some(false));
    assert_eq!(p.updated_at, Some("5".to_string()));
    assert_eq!(p.fields.len(), 1);
}
