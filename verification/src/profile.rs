//! Preparing the shared canonical profile for saving: carrying forward what
//! other apps own, and normalising the field list (one field per slug).

use vstd::prelude::*;
use crate::model::{CanonicalField, CanonicalProfile};
use crate::slug::{canonical_slugify, slugify};

verus! {

/// The most fields a profile keeps.
pub const MAX_CANONICAL_FIELDS: usize = 20;

/// Unicode `White_Space` (what `char::is_whitespace` and `str::trim` use).
pub open spec fn is_unicode_whitespace(c: char) -> bool {
    ('\u{9}' <= c && c <= '\u{d}') || c == ' ' || c == '\u{85}' || c == '\u{a0}' || c == '\u{1680}'
        || ('\u{2000}' <= c && c <= '\u{200a}') || c == '\u{2028}' || c == '\u{2029}' || c == '\u{202f}'
        || c == '\u{205f}' || c == '\u{3000}'
}

/// `s` is empty once trimmed: it holds only whitespace.
pub open spec fn is_blank(s: Seq<char>) -> bool {
    forall|i: int| 0 <= i < s.len() ==> is_unicode_whitespace(#[trigger] s[i])
}

/// A field as (slug, name, value).
pub open spec fn field_view(f: CanonicalField) -> (Seq<char>, Seq<char>, Seq<char>) {
    (f.slug@, f.name@, f.value@)
}

/// The fields of a list as (slug, name, value) triples.
pub open spec fn fields_view(fs: Seq<CanonicalField>) -> Seq<(Seq<char>, Seq<char>, Seq<char>)> {
    fs.map_values(|f: CanonicalField| field_view(f))
}

/// The slug a field is stored under: its own, or the slug of its name when
/// its own is blank.
pub open spec fn effective_slug(slug: Seq<char>, name: Seq<char>) -> Seq<char> {
    if is_blank(slug) { slugify(name) } else { slug }
}

/// `fs` without the fields stored under `slug`, order kept.
pub open spec fn without_slug(
    fs: Seq<(Seq<char>, Seq<char>, Seq<char>)>,
    slug: Seq<char>,
) -> Seq<(Seq<char>, Seq<char>, Seq<char>)>
    decreases fs.len(),
{
    if fs.len() == 0 {
        fs
    } else if fs.last().0 == slug {
        without_slug(fs.drop_last(), slug)
    } else {
        without_slug(fs.drop_last(), slug).push(fs.last())
    }
}

/// Fields taken in order: each gets its effective slug; one whose slug is
/// empty is dropped; a later field replaces an earlier one of the same slug,
/// moving to the end.
pub open spec fn dedupe_fields(
    fs: Seq<(Seq<char>, Seq<char>, Seq<char>)>,
) -> Seq<(Seq<char>, Seq<char>, Seq<char>)>
    decreases fs.len(),
{
    if fs.len() == 0 {
        fs
    } else {
        let earlier = dedupe_fields(fs.drop_last());
        let f = fs.last();
        let slug = effective_slug(f.0, f.1);
        if slug.len() == 0 {
            earlier
        } else {
            without_slug(earlier, slug).push((slug, f.1, f.2))
        }
    }
}

/// The field list that is saved: deduplicated, then cut to the first
/// `MAX_CANONICAL_FIELDS`.
pub open spec fn normalized_fields(
    fs: Seq<(Seq<char>, Seq<char>, Seq<char>)>,
) -> Seq<(Seq<char>, Seq<char>, Seq<char>)> {
    let d = dedupe_fields(fs);
    if d.len() > 20 { d.take(20) } else { d }
}

/// Every slug of the list is non-empty and no slug occurs twice.
pub open spec fn slugs_unique(fs: Seq<(Seq<char>, Seq<char>, Seq<char>)>) -> bool {
    &&& forall|i: int| 0 <= i < fs.len() ==> (#[trigger] fs[i]).0.len() > 0
    &&& forall|i: int, j: int| 0 <= i < j < fs.len() ==> (#[trigger] fs[i]).0 != (#[trigger] fs[j]).0
}

proof fn lemma_without_slug(fs: Seq<(Seq<char>, Seq<char>, Seq<char>)>, slug: Seq<char>)
    requires
        slugs_unique(fs),
    ensures
        slugs_unique(without_slug(fs, slug)),
        forall|i: int| 0 <= i < without_slug(fs, slug).len() ==> (#[trigger] without_slug(fs, slug)[i]).0 != slug,
        forall|i: int|
            0 <= i < without_slug(fs, slug).len() ==> fs.contains(#[trigger] without_slug(fs, slug)[i]),
    decreases fs.len(),
{
    if fs.len() > 0 {
        let t = fs.drop_last();
        assert(slugs_unique(t)) by {
            assert forall|i: int| 0 <= i < t.len() implies (#[trigger] t[i]).0.len() > 0 by {
                assert(t[i] == fs[i]);
            }
            assert forall|i: int, j: int| 0 <= i < j < t.len() implies (#[trigger] t[i]).0 != (#[trigger] t[j]).0 by {
                assert(t[i] == fs[i] && t[j] == fs[j]);
            }
        }
        lemma_without_slug(t, slug);
        let w = without_slug(t, slug);
        assert forall|i: int| 0 <= i < w.len() implies fs.contains(#[trigger] w[i]) by {
            let k = choose|k: int| 0 <= k < t.len() && t[k] == w[i];
            assert(fs[k] == t[k]);
        }
        if fs.last().0 != slug {
            let r = w.push(fs.last());
            assert forall|i: int| 0 <= i < r.len() implies fs.contains(#[trigger] r[i]) by {
                if i < w.len() {
                    assert(r[i] == w[i]);
                } else {
                    assert(fs[fs.len() - 1] == fs.last());
                }
            }
            assert forall|i: int, j: int| 0 <= i < j < r.len() implies (#[trigger] r[i]).0 != (#[trigger] r[j]).0 by {
                if j == w.len() {
                    assert(r[i] == w[i]);
                    let k = choose|k: int| 0 <= k < t.len() && t[k] == w[i];
                    assert(fs[k] == t[k]);
                    assert(fs[fs.len() - 1] == fs.last());
                } else {
                    assert(r[i] == w[i] && r[j] == w[j]);
                }
            }
            assert forall|i: int| 0 <= i < r.len() implies (#[trigger] r[i]).0 != slug by {
                if i < w.len() {
                    assert(r[i] == w[i]);
                }
            }
            assert forall|i: int| 0 <= i < r.len() implies (#[trigger] r[i]).0.len() > 0 by {
                if i < w.len() {
                    assert(r[i] == w[i]);
                } else {
                    assert(fs[fs.len() - 1] == fs.last());
                }
            }
        }
    }
}

/// After deduplication every field has a non-empty slug of its own.
pub proof fn lemma_dedupe_unique(fs: Seq<(Seq<char>, Seq<char>, Seq<char>)>)
    ensures
        slugs_unique(dedupe_fields(fs)),
    decreases fs.len(),
{
    if fs.len() > 0 {
        lemma_dedupe_unique(fs.drop_last());
        let earlier = dedupe_fields(fs.drop_last());
        let f = fs.last();
        let slug = effective_slug(f.0, f.1);
        if slug.len() > 0 {
            lemma_without_slug(earlier, slug);
            let w = without_slug(earlier, slug);
            let r = w.push((slug, f.1, f.2));
            assert forall|i: int| 0 <= i < r.len() implies (#[trigger] r[i]).0.len() > 0 by {
                if i < w.len() {
                    assert(r[i] == w[i]);
                }
            }
            assert forall|i: int, j: int| 0 <= i < j < r.len() implies (#[trigger] r[i]).0 != (#[trigger] r[j]).0 by {
                assert(r[i] == w[i]);
                if j < w.len() {
                    assert(r[j] == w[j]);
                }
            }
        }
    }
}

/// The saved field list holds at most `MAX_CANONICAL_FIELDS` fields, each
/// under a non-empty slug that no other field shares.
pub proof fn lemma_normalized_fields(fs: Seq<(Seq<char>, Seq<char>, Seq<char>)>)
    ensures
        normalized_fields(fs).len() <= MAX_CANONICAL_FIELDS,
        slugs_unique(normalized_fields(fs)),
{
    lemma_dedupe_unique(fs);
    let d = dedupe_fields(fs);
    if d.len() > 20 {
        let t = d.take(20);
        assert forall|i: int| 0 <= i < t.len() implies (#[trigger] t[i]).0.len() > 0 by {
            assert(t[i] == d[i]);
        }
        assert forall|i: int, j: int| 0 <= i < j < t.len() implies (#[trigger] t[i]).0 != (#[trigger] t[j]).0 by {
            assert(t[i] == d[i] && t[j] == d[j]);
        }
    }
}

/// Each field under its effective slug, in order; fields whose effective
/// slug is empty dropped.
pub open spec fn slugged_fields(
    fs: Seq<(Seq<char>, Seq<char>, Seq<char>)>,
) -> Seq<(Seq<char>, Seq<char>, Seq<char>)>
    decreases fs.len(),
{
    if fs.len() == 0 {
        fs
    } else {
        let earlier = slugged_fields(fs.drop_last());
        let f = fs.last();
        let slug = effective_slug(f.0, f.1);
        if slug.len() == 0 { earlier } else { earlier.push((slug, f.1, f.2)) }
    }
}

/// Some field of `g` is stored under `slug`.
pub open spec fn has_slug(g: Seq<(Seq<char>, Seq<char>, Seq<char>)>, slug: Seq<char>) -> bool {
    exists|i: int| 0 <= i < g.len() && (#[trigger] g[i]).0 == slug
}

/// For each slug of `g`, its last occurrence, ordered by the position of
/// that last occurrence.
pub open spec fn last_occurrences(
    g: Seq<(Seq<char>, Seq<char>, Seq<char>)>,
) -> Seq<(Seq<char>, Seq<char>, Seq<char>)>
    decreases g.len(),
{
    if g.len() == 0 {
        g
    } else if has_slug(g.skip(1), g[0].0) {
        last_occurrences(g.skip(1))
    } else {
        seq![g[0]] + last_occurrences(g.skip(1))
    }
}

proof fn lemma_without_slug_concat(
    a: Seq<(Seq<char>, Seq<char>, Seq<char>)>,
    b: Seq<(Seq<char>, Seq<char>, Seq<char>)>,
    slug: Seq<char>,
)
    ensures
        without_slug(a + b, slug) == without_slug(a, slug) + without_slug(b, slug),
    decreases b.len(),
{
    if b.len() == 0 {
        assert(a + b =~= a);
        assert(without_slug(a, slug) + without_slug(b, slug) =~= without_slug(a, slug));
    } else {
        lemma_without_slug_concat(a, b.drop_last(), slug);
        assert((a + b).drop_last() =~= a + b.drop_last());
        assert((a + b).last() == b.last());
        if b.last().0 == slug {
        } else {
            assert(without_slug(a + b, slug) =~= (without_slug(a, slug) + without_slug(b.drop_last(), slug)).push(
                b.last(),
            ));
            assert((without_slug(a, slug) + without_slug(b.drop_last(), slug)).push(b.last()) =~= without_slug(
                a,
                slug,
            ) + without_slug(b, slug));
        }
    }
}

proof fn lemma_last_occurrences_push(
    g: Seq<(Seq<char>, Seq<char>, Seq<char>)>,
    x: (Seq<char>, Seq<char>, Seq<char>),
)
    ensures
        last_occurrences(g.push(x)) == without_slug(last_occurrences(g), x.0).push(x),
    decreases g.len(),
{
    let h = g.push(x);
    if g.len() == 0 {
        assert(h.skip(1) =~= Seq::<(Seq<char>, Seq<char>, Seq<char>)>::empty());
        assert(!has_slug(h.skip(1), h[0].0));
        assert(last_occurrences(h.skip(1)) =~= Seq::<(Seq<char>, Seq<char>, Seq<char>)>::empty());
        assert(h[0] == x);
        assert(last_occurrences(h) =~= seq![x]);
        assert(without_slug(last_occurrences(g), x.0).push(x) =~= seq![x]);
    } else {
        let rest = g.skip(1);
        assert(h.skip(1) =~= rest.push(x));
        assert(h[0] == g[0]);
        lemma_last_occurrences_push(rest, x);
        let g0 = g[0];
        let one = seq![g0];
        assert(one.drop_last() =~= Seq::<(Seq<char>, Seq<char>, Seq<char>)>::empty());
        assert(one.last() == g0);
        assert(without_slug(one.drop_last(), x.0) =~= Seq::<(Seq<char>, Seq<char>, Seq<char>)>::empty());
        if has_slug(rest, g0.0) {
            let i = choose|i: int| 0 <= i < rest.len() && (#[trigger] rest[i]).0 == g0.0;
            assert(rest.push(x)[i] == rest[i]);
            assert(has_slug(rest.push(x), g0.0));
        } else if g0.0 == x.0 {
            assert(rest.push(x)[rest.len() as int] == x);
            assert(has_slug(rest.push(x), g0.0));
            lemma_without_slug_concat(one, last_occurrences(rest), x.0);
            assert(without_slug(one, x.0) =~= Seq::<(Seq<char>, Seq<char>, Seq<char>)>::empty());
            assert(Seq::<(Seq<char>, Seq<char>, Seq<char>)>::empty() + without_slug(last_occurrences(rest), x.0)
                =~= without_slug(last_occurrences(rest), x.0));
        } else {
            assert(!has_slug(rest.push(x), g0.0)) by {
                if has_slug(rest.push(x), g0.0) {
                    let i = choose|i: int| 0 <= i < rest.push(x).len() && (#[trigger] rest.push(x)[i]).0 == g0.0;
                    if i < rest.len() {
                        assert(rest.push(x)[i] == rest[i]);
                    }
                }
            }
            lemma_without_slug_concat(one, last_occurrences(rest), x.0);
            assert(without_slug(one, x.0) =~= one);
            assert(last_occurrences(h) =~= one + without_slug(last_occurrences(rest), x.0).push(x));
            assert(one + without_slug(last_occurrences(rest), x.0).push(x) =~= (one + without_slug(
                last_occurrences(rest),
                x.0,
            )).push(x));
        }
    }
}

/// Deduplication keeps, for each slug, the last field stored under it, in
/// the order of those last fields.
pub proof fn lemma_dedupe_is_last_occurrences(fs: Seq<(Seq<char>, Seq<char>, Seq<char>)>)
    ensures
        dedupe_fields(fs) == last_occurrences(slugged_fields(fs)),
    decreases fs.len(),
{
    if fs.len() > 0 {
        lemma_dedupe_is_last_occurrences(fs.drop_last());
        let f = fs.last();
        let slug = effective_slug(f.0, f.1);
        if slug.len() > 0 {
            lemma_last_occurrences_push(slugged_fields(fs.drop_last()), (slug, f.1, f.2));
        }
    }
}

/// The saved field list: the fields under their effective slugs (empty
/// slugs dropped), for each slug its last occurrence in the order of those
/// last occurrences, cut to the first `MAX_CANONICAL_FIELDS`.
pub proof fn lemma_saved_fields_are_last_occurrences(fs: Seq<(Seq<char>, Seq<char>, Seq<char>)>)
    ensures
        normalized_fields(fs) == (if last_occurrences(slugged_fields(fs)).len() > 20 {
            last_occurrences(slugged_fields(fs)).take(20)
        } else {
            last_occurrences(slugged_fields(fs))
        }),
{
    lemma_dedupe_is_last_occurrences(fs);
}

fn is_whitespace(c: char) -> (r: bool)
    ensures
        r == is_unicode_whitespace(c),
{
    ('\u{9}' <= c && c <= '\u{d}') || c == ' ' || c == '\u{85}' || c == '\u{a0}' || c == '\u{1680}'
        || ('\u{2000}' <= c && c <= '\u{200a}') || c == '\u{2028}' || c == '\u{2029}' || c == '\u{202f}'
        || c == '\u{205f}' || c == '\u{3000}'
}

/// Whether `s` is empty once trimmed of whitespace.
pub fn str_is_blank(s: &str) -> (r: bool)
    ensures
        r == is_blank(s@),
{
    for c in it: s.chars()
        invariant
            it.seq() == s@,
            forall|j: int| 0 <= j < it.index() ==> is_unicode_whitespace(#[trigger] s@[j]),
    {
        let ghost n = it.index();
        assert(c == s@[n as int]);
        if !is_whitespace(c) {
            return false;
        }
    }
    true
}

fn copy_string(s: &String) -> (r: String)
    ensures
        r@ == s@,
{
    s.clone()
}

/// `fields` without those stored under `slug`.
fn retain_other_slugs(fields: &Vec<CanonicalField>, slug: &String) -> (r: Vec<CanonicalField>)
    ensures
        fields_view(r@) == without_slug(fields_view(fields@), slug@),
{
    let mut r: Vec<CanonicalField> = Vec::new();
    let mut i: usize = 0;
    while i < fields.len()
        invariant
            i <= fields.len(),
            fields_view(r@) == without_slug(fields_view(fields@.take(i as int)), slug@),
        decreases fields.len() - i,
    {
        let ghost before = fields_view(fields@.take(i as int));
        let f = &fields[i];
        assert(fields_view(fields@.take(i + 1)).drop_last() =~= before);
        assert(fields_view(fields@.take(i + 1)).last() == field_view(*f));
        if !(f.slug == *slug) {
            let ghost prev = r@;
            r.push(CanonicalField { slug: copy_string(&f.slug), name: copy_string(&f.name), value: copy_string(&f.value) });
            assert(fields_view(r@) =~= fields_view(prev).push(field_view(*f)));
        }
        i = i + 1;
    }
    assert(fields@.take(fields.len() as int) =~= fields@);
    r
}

/// The field list to save: each field stored under its effective slug,
/// dropped when that is empty, a later field replacing an earlier one of the
/// same slug, at most `MAX_CANONICAL_FIELDS` kept.
pub fn normalize_fields(fields: &Vec<CanonicalField>) -> (r: Vec<CanonicalField>)
    ensures
        fields_view(r@) == normalized_fields(fields_view(fields@)),
        r@.len() <= MAX_CANONICAL_FIELDS,
        slugs_unique(fields_view(r@)),
{
    let mut deduped: Vec<CanonicalField> = Vec::new();
    let mut i: usize = 0;
    while i < fields.len()
        invariant
            i <= fields.len(),
            fields_view(deduped@) == dedupe_fields(fields_view(fields@.take(i as int))),
        decreases fields.len() - i,
    {
        let f = &fields[i];
        let ghost prefix = fields_view(fields@.take(i + 1));
        assert(prefix.drop_last() =~= fields_view(fields@.take(i as int)));
        assert(prefix.last() == field_view(*f));
        let slug = if str_is_blank(f.slug.as_str()) {
            canonical_slugify(f.name.as_str())
        } else {
            copy_string(&f.slug)
        };
        if !slug.as_str().is_empty() {
            let mut kept = retain_other_slugs(&deduped, &slug);
            let ghost prev = kept@;
            kept.push(CanonicalField { slug, name: copy_string(&f.name), value: copy_string(&f.value) });
            assert(fields_view(kept@) =~= fields_view(prev).push(fields_view(kept@).last()));
            deduped = kept;
        }
        i = i + 1;
    }
    assert(fields@.take(fields.len() as int) =~= fields@);
    let ghost full = deduped@;
    deduped.truncate(MAX_CANONICAL_FIELDS);
    proof {
        if full.len() > 20 {
            assert(fields_view(deduped@) =~= fields_view(full).take(20));
        } else {
            assert(deduped@ =~= full);
        }
        lemma_normalized_fields(fields_view(fields@));
    }
    deduped
}

/// What a saved profile holds: the fields this app does not edit (address,
/// categories, service zip, rate, Stripe flag) carried forward from the
/// stored profile when the incoming one leaves them unset; the field list
/// normalized; `updated_at` set to `now`.
pub open spec fn prepared_profile_ok(
    r: CanonicalProfile,
    incoming: CanonicalProfile,
    existing: Option<CanonicalProfile>,
    now: Seq<char>,
) -> bool {
    &&& r.photo == incoming.photo
    &&& r.address == (if incoming.address is None && existing is Some { existing->0.address } else { incoming.address })
    &&& r.idothis_categories == (if incoming.idothis_categories is None && existing is Some {
        existing->0.idothis_categories
    } else {
        incoming.idothis_categories
    })
    &&& r.service_zip == (if incoming.service_zip is None && existing is Some { existing->0.service_zip } else { incoming.service_zip })
    &&& r.idothis_rate_cents == (if incoming.idothis_rate_cents is None && existing is Some {
        existing->0.idothis_rate_cents
    } else {
        incoming.idothis_rate_cents
    })
    &&& r.stripe_connected == (if incoming.stripe_connected is None && existing is Some {
        existing->0.stripe_connected
    } else {
        incoming.stripe_connected
    })
    &&& fields_view(r.fields@) == normalized_fields(fields_view(incoming.fields@))
    &&& r.updated_at matches Some(t) && t@ == now
}

/// The photo saved is always the incoming one: a photo the user removed is
/// not brought back from the stored profile.
pub proof fn lemma_photo_not_carried_forward(
    r: CanonicalProfile,
    incoming: CanonicalProfile,
    existing: Option<CanonicalProfile>,
    now: Seq<char>,
)
    requires
        prepared_profile_ok(r, incoming, existing, now),
    ensures
        r.photo == incoming.photo,
{
}

/// Prepares a profile for saving over `existing`, the stored one.
pub fn prepare_profile_for_save(
    profile: CanonicalProfile,
    existing: Option<CanonicalProfile>,
    now: String,
) -> (r: CanonicalProfile)
    ensures
        prepared_profile_ok(r, profile, existing, now@),
        r.photo == profile.photo,
        r.fields@.len() <= MAX_CANONICAL_FIELDS,
        slugs_unique(fields_view(r.fields@)),
{
    let ghost incoming = profile;
    let ghost stored = existing;
    let mut profile = profile;
    match existing {
        Some(existing) => {
            if profile.address.is_none() {
                profile.address = existing.address;
            }
            if profile.idothis_categories.is_none() {
                profile.idothis_categories = existing.idothis_categories;
            }
            if profile.service_zip.is_none() {
                profile.service_zip = existing.service_zip;
            }
            if profile.idothis_rate_cents.is_none() {
                profile.idothis_rate_cents = existing.idothis_rate_cents;
            }
            if profile.stripe_connected.is_none() {
                profile.stripe_connected = existing.stripe_connected;
            }
        },
        None => {},
    }
    let fields = normalize_fields(&profile.fields);
    profile.fields = fields;
    profile.updated_at = Some(now);
    profile
}

/// Publishes the local Stripe-connection state on the profile.
pub fn mark_stripe_connected(profile: &mut CanonicalProfile, connected: bool, now: String)
    ensures
        final(profile).stripe_connected == Some(connected),
        final(profile).updated_at matches Some(t) && t@ == now@,
        final(profile).photo == old(profile).photo,
        final(profile).fields == old(profile).fields,
        final(profile).address == old(profile).address,
        final(profile).idothis_categories == old(profile).idothis_categories,
        final(profile).service_zip == old(profile).service_zip,
        final(profile).idothis_rate_cents == old(profile).idothis_rate_cents,
{
    profile.stripe_connected = Some(connected);
    profile.updated_at = Some(now);
}

/// An empty profile, as stored when none exists yet.
pub fn empty_profile() -> (r: CanonicalProfile)
    ensures
        r.photo.is_none(),
        r.fields@.len() == 0,
        r.address.is_none(),
        r.idothis_categories.is_none(),
        r.service_zip.is_none(),
        r.idothis_rate_cents.is_none(),
        r.stripe_connected.is_none(),
        r.updated_at.is_none(),
{
    CanonicalProfile {
        photo: None,
        fields: Vec::new(),
        address: None,
        idothis_categories: None,
        service_zip: None,
        idothis_rate_cents: None,
        stripe_connected: None,
        updated_at: None,
    }
}

} // verus!
