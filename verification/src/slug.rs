//! Slugs of canonical-profile field names: lower-case ASCII letters and
//! digits, runs of anything else collapsed to a single '_'.

use vstd::prelude::*;
use crate::numbers::chars_of;
use crate::text::push_char;

verus! {

/// `c` is an ASCII letter or digit.
pub open spec fn is_ascii_alphanumeric(c: char) -> bool {
    ('0' <= c && c <= '9') || ('a' <= c && c <= 'z') || ('A' <= c && c <= 'Z')
}

/// `c` with an ASCII upper-case letter mapped to its lower-case form.
pub open spec fn ascii_lower(c: char) -> char {
    if 'A' <= c && c <= 'Z' {
        (c as int + 32) as char
    } else {
        c
    }
}

/// The left-to-right scan: each ASCII letter or digit is kept (lower-cased);
/// the first of a run of other characters becomes '_'; the flag tells whether
/// the last thing written was a separator (true at the start).
pub open spec fn slug_scan(s: Seq<char>) -> (Seq<char>, bool)
    decreases s.len(),
{
    if s.len() == 0 {
        (Seq::empty(), true)
    } else {
        let (out, last_was_separator) = slug_scan(s.drop_last());
        let c = s.last();
        if is_ascii_alphanumeric(c) {
            (out.push(ascii_lower(c)), false)
        } else if !last_was_separator {
            (out.push('_'), true)
        } else {
            (out, true)
        }
    }
}

/// `s` without its trailing '_' characters.
pub open spec fn strip_trailing_separators(s: Seq<char>) -> Seq<char>
    decreases s.len(),
{
    if s.len() > 0 && s.last() == '_' {
        strip_trailing_separators(s.drop_last())
    } else {
        s
    }
}

/// The slug of `s`. Leading and trailing whitespace contribute nothing, like
/// every other character that is not an ASCII letter or digit.
pub open spec fn slugify(s: Seq<char>) -> Seq<char> {
    strip_trailing_separators(slug_scan(s).0)
}

/// A character a slug may hold.
pub open spec fn is_slug_char(c: char) -> bool {
    ('0' <= c && c <= '9') || ('a' <= c && c <= 'z') || c == '_'
}

/// `t` is a well-formed slug: lower-case letters, digits and single '_'
/// separators, never at either end.
pub open spec fn is_slug(t: Seq<char>) -> bool {
    &&& forall|i: int| 0 <= i < t.len() ==> is_slug_char(#[trigger] t[i])
    &&& t.len() > 0 ==> t[0] != '_' && t.last() != '_'
    &&& forall|i: int| 0 < i < t.len() && #[trigger] t[i] == '_' ==> t[i - 1] != '_'
}

/// What the scan has produced so far is a slug, except that it may end in '_'.
spec fn scan_ok(out: Seq<char>, last_was_separator: bool) -> bool {
    &&& forall|i: int| 0 <= i < out.len() ==> is_slug_char(#[trigger] out[i])
    &&& out.len() > 0 ==> out[0] != '_'
    &&& forall|i: int| 0 < i < out.len() && #[trigger] out[i] == '_' ==> out[i - 1] != '_'
    &&& last_was_separator == (out.len() == 0 || out.last() == '_')
}

proof fn lemma_scan_ok(s: Seq<char>)
    ensures
        scan_ok(slug_scan(s).0, slug_scan(s).1),
    decreases s.len(),
{
    if s.len() > 0 {
        lemma_scan_ok(s.drop_last());
        let (out, sep) = slug_scan(s.drop_last());
        let (out2, sep2) = slug_scan(s);
        let c = s.last();
        if is_ascii_alphanumeric(c) {
            assert(out2 == out.push(ascii_lower(c)));
            assert forall|i: int| 0 <= i < out2.len() implies is_slug_char(#[trigger] out2[i]) by {
                if i < out.len() {
                    assert(out2[i] == out[i]);
                }
            }
            assert forall|i: int| 0 < i < out2.len() && #[trigger] out2[i] == '_' implies out2[i - 1] != '_' by {
                assert(out2[i] == out[i]);
                assert(out2[i - 1] == out[i - 1]);
            }
        } else if !sep {
            assert(out2 == out.push('_'));
            assert forall|i: int| 0 <= i < out2.len() implies is_slug_char(#[trigger] out2[i]) by {
                if i < out.len() {
                    assert(out2[i] == out[i]);
                }
            }
            assert forall|i: int| 0 < i < out2.len() && #[trigger] out2[i] == '_' implies out2[i - 1] != '_' by {
                assert(out2[i - 1] == out[i - 1]);
                if i < out.len() {
                    assert(out2[i] == out[i]);
                }
            }
        }
    }
}

/// Stripping trailing separators keeps a prefix that ends in no separator.
proof fn lemma_strip(s: Seq<char>)
    ensures
        strip_trailing_separators(s).len() <= s.len(),
        strip_trailing_separators(s) == s.take(strip_trailing_separators(s).len() as int),
        strip_trailing_separators(s).len() > 0 ==> strip_trailing_separators(s).last() != '_',
    decreases s.len(),
{
    if s.len() > 0 && s.last() == '_' {
        lemma_strip(s.drop_last());
        let r = strip_trailing_separators(s.drop_last());
        assert(s.drop_last().take(r.len() as int) =~= s.take(r.len() as int));
    } else {
        assert(s.take(s.len() as int) =~= s);
    }
}

/// A slug of anything is well formed.
pub proof fn lemma_slugify_is_slug(s: Seq<char>)
    ensures
        is_slug(slugify(s)),
{
    lemma_scan_ok(s);
    let out = slug_scan(s).0;
    lemma_strip(out);
    let t = slugify(s);
    assert forall|i: int| 0 <= i < t.len() implies is_slug_char(#[trigger] t[i]) by {
        assert(t[i] == out[i]);
    }
    if t.len() > 0 {
        assert(t[0] == out[0]);
    }
    assert forall|i: int| 0 < i < t.len() && #[trigger] t[i] == '_' implies t[i - 1] != '_' by {
        assert(t[i] == out[i]);
        assert(t[i - 1] == out[i - 1]);
    }
}

/// Scanning a well-formed slug gives it back unchanged.
proof fn lemma_scan_of_slug_prefix(t: Seq<char>, k: int)
    requires
        is_slug(t),
        0 <= k <= t.len(),
    ensures
        slug_scan(t.take(k)).0 == t.take(k),
        slug_scan(t.take(k)).1 == (k == 0 || t[k - 1] == '_'),
    decreases k,
{
    if k > 0 {
        lemma_scan_of_slug_prefix(t, k - 1);
        let p = t.take(k);
        assert(p.drop_last() =~= t.take(k - 1));
        let c = t[k - 1];
        assert(p.last() == c);
        assert(is_slug_char(c));
        if c == '_' {
            if k - 1 == 0 {
                assert(t[0] != '_');
            } else {
                assert(t[k - 2] != '_');
            }
        }
        assert(t.take(k - 1).push(c) =~= p);
    } else {
        assert(t.take(0) =~= Seq::<char>::empty());
    }
}

/// Slugifying a slug changes nothing.
pub proof fn lemma_slugify_fixes_slugs(t: Seq<char>)
    requires
        is_slug(t),
    ensures
        slugify(t) == t,
{
    lemma_scan_of_slug_prefix(t, t.len() as int);
    assert(t.take(t.len() as int) =~= t);
}

/// Slugifying twice is slugifying once.
pub proof fn lemma_slugify_idempotent(s: Seq<char>)
    ensures
        slugify(slugify(s)) == slugify(s),
{
    lemma_slugify_is_slug(s);
    lemma_slugify_fixes_slugs(slugify(s));
}

/// The runs of ASCII letters and digits of `s`, lower-cased, read left to
/// right: the runs already ended by another character, and the run still open.
pub open spec fn word_runs(s: Seq<char>) -> (Seq<Seq<char>>, Seq<char>)
    decreases s.len(),
{
    if s.len() == 0 {
        (Seq::empty(), Seq::empty())
    } else {
        let (done, open) = word_runs(s.drop_last());
        let c = s.last();
        if is_ascii_alphanumeric(c) {
            (done, open.push(ascii_lower(c)))
        } else if open.len() > 0 {
            (done.push(open), Seq::empty())
        } else {
            (done, open)
        }
    }
}

/// The words of `s`: `s` split at every character that is not an ASCII
/// letter or digit, empty pieces dropped, each lower-cased.
pub open spec fn split_words(s: Seq<char>) -> Seq<Seq<char>> {
    let (done, open) = word_runs(s);
    if open.len() > 0 { done.push(open) } else { done }
}

/// Words joined with '_' between them.
pub open spec fn join_words(ws: Seq<Seq<char>>) -> Seq<char>
    decreases ws.len(),
{
    if ws.len() == 0 {
        Seq::empty()
    } else if ws.len() == 1 {
        ws[0]
    } else {
        join_words(ws.drop_last()) + seq!['_'] + ws.last()
    }
}

/// Each word followed by '_'.
spec fn terminated(ws: Seq<Seq<char>>) -> Seq<char>
    decreases ws.len(),
{
    if ws.len() == 0 {
        Seq::empty()
    } else {
        terminated(ws.drop_last()) + ws.last() + seq!['_']
    }
}

/// `w` holds no '_'.
spec fn no_separator(w: Seq<char>) -> bool {
    forall|i: int| 0 <= i < w.len() ==> #[trigger] w[i] != '_'
}

proof fn lemma_terminated_join(ws: Seq<Seq<char>>)
    requires
        ws.len() > 0,
    ensures
        terminated(ws.drop_last()) + ws.last() == join_words(ws),
    decreases ws.len(),
{
    if ws.len() == 1 {
        assert(ws.drop_last() =~= Seq::<Seq<char>>::empty());
        assert(Seq::<char>::empty() + ws[0] =~= ws[0]);
    } else {
        let d = ws.drop_last();
        lemma_terminated_join(d);
        assert(d.drop_last() =~= ws.drop_last().drop_last());
        assert(terminated(d) == terminated(d.drop_last()) + d.last() + seq!['_']);
        assert(terminated(d) + ws.last() =~= join_words(d) + seq!['_'] + ws.last());
    }
}

proof fn lemma_strip_plain(w: Seq<char>)
    requires
        w.len() == 0 || w.last() != '_',
    ensures
        strip_trailing_separators(w) == w,
{
}

/// The scan writes each ended word followed by '_', then the open word.
proof fn lemma_scan_words(s: Seq<char>)
    ensures
        slug_scan(s).0 == terminated(word_runs(s).0) + word_runs(s).1,
        slug_scan(s).1 == (word_runs(s).1.len() == 0),
        forall|k: int|
            0 <= k < word_runs(s).0.len() ==> (#[trigger] word_runs(s).0[k]).len() > 0 && no_separator(
                word_runs(s).0[k],
            ),
        no_separator(word_runs(s).1),
    decreases s.len(),
{
    if s.len() == 0 {
        assert(terminated(Seq::<Seq<char>>::empty()) + Seq::<char>::empty() =~= Seq::<char>::empty());
    } else {
        let p = s.drop_last();
        lemma_scan_words(p);
        let (done, open) = word_runs(p);
        let c = s.last();
        if is_ascii_alphanumeric(c) {
            let o2 = open.push(ascii_lower(c));
            assert(terminated(done) + o2 =~= (terminated(done) + open).push(ascii_lower(c)));
            assert forall|i: int| 0 <= i < o2.len() implies #[trigger] o2[i] != '_' by {
                if i < open.len() {
                    assert(o2[i] == open[i]);
                }
            }
        } else if open.len() > 0 {
            let d2 = done.push(open);
            assert(d2.drop_last() =~= done);
            assert(terminated(d2) + Seq::<char>::empty() =~= (terminated(done) + open).push('_'));
            assert forall|k: int| 0 <= k < d2.len() implies (#[trigger] d2[k]).len() > 0 && no_separator(d2[k]) by {
                if k < done.len() {
                    assert(d2[k] == done[k]);
                }
            }
        }
    }
}

/// The slug is the words of the text, split at every character that is not
/// an ASCII letter or digit, empty pieces dropped, lower-cased, and joined
/// with '_'.
pub proof fn lemma_slugify_is_joined_words(s: Seq<char>)
    ensures
        slugify(s) == join_words(split_words(s)),
{
    lemma_scan_words(s);
    let (done, open) = word_runs(s);
    if open.len() > 0 {
        assert(open.last() != '_');
        lemma_strip_plain(terminated(done) + open);
        let w = done.push(open);
        assert(w.drop_last() =~= done);
        lemma_terminated_join(w);
    } else if done.len() > 0 {
        let d = done.drop_last();
        let last = done.last();
        assert(done.drop_last() =~= d);
        assert(terminated(done) + open =~= (terminated(d) + last).push('_'));
        assert((terminated(d) + last).push('_').drop_last() =~= terminated(d) + last);
        assert(done[done.len() - 1] == last);
        assert(last.last() != '_');
        lemma_strip_plain(terminated(d) + last);
        lemma_terminated_join(done);
    } else {
        assert(terminated(done) + open =~= Seq::<char>::empty());
    }
}

fn is_alnum(c: char) -> (r: bool)
    ensures
        r == is_ascii_alphanumeric(c),
{
    ('0' <= c && c <= '9') || ('a' <= c && c <= 'z') || ('A' <= c && c <= 'Z')
}

fn to_lower(c: char) -> (r: char)
    ensures
        r == ascii_lower(c),
{
    if 'A' <= c && c <= 'Z' {
        ((c as u8) + 32) as char
    } else {
        c
    }
}

/// The slug of `s`: ASCII letters and digits lower-cased, each run of other
/// characters collapsed into one '_', with no '_' at either end.
pub fn canonical_slugify(s: &str) -> (r: String)
    ensures
        r@ == slugify(s@),
        is_slug(r@),
{
    let cs = chars_of(s);
    let mut out: Vec<char> = Vec::new();
    let mut last_was_sep = true;
    let mut i: usize = 0;
    while i < cs.len()
        invariant
            i <= cs.len(),
            cs@ == s@,
            (out@, last_was_sep) == slug_scan(s@.take(i as int)),
        decreases cs.len() - i,
    {
        let c = cs[i];
        assert(s@.take(i + 1).drop_last() =~= s@.take(i as int));
        assert(s@.take(i + 1).last() == c);
        if is_alnum(c) {
            out.push(to_lower(c));
            last_was_sep = false;
        } else if !last_was_sep {
            out.push('_');
            last_was_sep = true;
        }
        i = i + 1;
    }
    assert(s@.take(cs.len() as int) =~= s@);
    let ghost scanned = out@;
    while out.len() > 0 && out[out.len() - 1] == '_'
        invariant
            strip_trailing_separators(out@) == strip_trailing_separators(scanned),
        decreases out.len(),
    {
        let ghost before = out@;
        out.pop();
        assert(out@ =~= before.drop_last());
    }
    let mut r = String::new();
    let mut j: usize = 0;
    while j < out.len()
        invariant
            j <= out.len(),
            r@ == out@.take(j as int),
        decreases out.len() - j,
    {
        push_char(&mut r, out[j]);
        j = j + 1;
        assert(r@ =~= out@.take(j as int));
    }
    assert(out@.take(out.len() as int) =~= out@);
    proof {
        lemma_slugify_is_slug(s@);
    }
    r
}

} // verus!
