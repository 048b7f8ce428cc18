//! Character-level text helpers shared by the renderers.

use vstd::prelude::*;

verus! {

/// Appends one character to a string (std's `String::push`).
#[verifier::external_body]
pub(crate) fn push_char(s: &mut String, c: char)
    ensures
        final(s)@ == old(s)@.push(c),
{
    s.push(c);
}

/// The entity that stands for a character in XML text, or the character itself.
pub open spec fn xml_escape_char(c: char) -> Seq<char> {
    if c == '&' {
        seq!['&', 'a', 'm', 'p', ';']
    } else if c == '<' {
        seq!['&', 'l', 't', ';']
    } else if c == '>' {
        seq!['&', 'g', 't', ';']
    } else if c == '"' {
        seq!['&', 'q', 'u', 'o', 't', ';']
    } else if c == '\'' {
        seq!['&', 'a', 'p', 'o', 's', ';']
    } else {
        seq![c]
    }
}

/// Every character of `s` replaced by its XML escape, in order.
pub open spec fn xml_escape(s: Seq<char>) -> Seq<char>
    decreases s.len(),
{
    if s.len() == 0 {
        Seq::empty()
    } else {
        xml_escape(s.drop_last()) + xml_escape_char(s.last())
    }
}

/// One of the characters XML text must not hold raw: & < > " '.
pub open spec fn is_xml_special(c: char) -> bool {
    c == '&' || c == '<' || c == '>' || c == '"' || c == '\''
}

/// Reading entities back: each of the five entities becomes its character,
/// every other character stands for itself.
pub open spec fn xml_unescape(t: Seq<char>) -> Seq<char>
    decreases t.len(),
{
    if t.len() == 0 {
        t
    } else if t.len() >= 5 && t.take(5) == seq!['&', 'a', 'm', 'p', ';'] {
        seq!['&'] + xml_unescape(t.skip(5))
    } else if t.len() >= 4 && t.take(4) == seq!['&', 'l', 't', ';'] {
        seq!['<'] + xml_unescape(t.skip(4))
    } else if t.len() >= 4 && t.take(4) == seq!['&', 'g', 't', ';'] {
        seq!['>'] + xml_unescape(t.skip(4))
    } else if t.len() >= 6 && t.take(6) == seq!['&', 'q', 'u', 'o', 't', ';'] {
        seq!['"'] + xml_unescape(t.skip(6))
    } else if t.len() >= 6 && t.take(6) == seq!['&', 'a', 'p', 'o', 's', ';'] {
        seq!['\''] + xml_unescape(t.skip(6))
    } else {
        seq![t[0]] + xml_unescape(t.skip(1))
    }
}

/// Escaping distributes over concatenation.
proof fn lemma_escape_concat(a: Seq<char>, b: Seq<char>)
    ensures
        xml_escape(a + b) == xml_escape(a) + xml_escape(b),
    decreases b.len(),
{
    if b.len() == 0 {
        assert(a + b =~= a);
        assert(xml_escape(a) + xml_escape(b) =~= xml_escape(a));
    } else {
        lemma_escape_concat(a, b.drop_last());
        assert((a + b).drop_last() =~= a + b.drop_last());
        assert((a + b).last() == b.last());
        assert(xml_escape(a + b) =~= xml_escape(a) + xml_escape(b));
    }
}

/// Escaping the first character, then the rest.
proof fn lemma_escape_front(s: Seq<char>)
    requires
        s.len() > 0,
    ensures
        xml_escape(s) == xml_escape_char(s[0]) + xml_escape(s.skip(1)),
{
    lemma_escape_concat(seq![s[0]], s.skip(1));
    assert(seq![s[0]] + s.skip(1) =~= s);
    let one = seq![s[0]];
    assert(one.drop_last() =~= Seq::<char>::empty());
    assert(one.last() == s[0]);
    assert(xml_escape(one.drop_last()).len() == 0);
    assert(xml_escape(one) =~= xml_escape_char(s[0]));
}

/// Reading back the escape of one character followed by more text.
proof fn lemma_unescape_char(c: char, rest: Seq<char>)
    ensures
        xml_unescape(xml_escape_char(c) + rest) == seq![c] + xml_unescape(rest),
{
    let t = xml_escape_char(c) + rest;
    let n = xml_escape_char(c).len() as int;
    assert(t.skip(n) =~= rest);
    assert(t.take(n) =~= xml_escape_char(c));
    if !is_xml_special(c) {
        assert(t[0] == c);
        assert(t.skip(1) =~= rest);
    } else if c == '&' {
    } else if c == '<' {
        assert(t[1] == 'l');
    } else if c == '>' {
        assert(t[1] == 'g');
    } else if c == '"' {
        assert(t[1] == 'q');
    } else {
        assert(t[1] == 'a' && t[2] == 'p');
    }
}

/// Escaping loses nothing: reading the entities back gives the text.
pub proof fn lemma_escape_round_trip(s: Seq<char>)
    ensures
        xml_unescape(xml_escape(s)) == s,
    decreases s.len(),
{
    if s.len() > 0 {
        lemma_escape_front(s);
        lemma_unescape_char(s[0], xml_escape(s.skip(1)));
        lemma_escape_round_trip(s.skip(1));
        assert(seq![s[0]] + s.skip(1) =~= s);
    }
}

/// Escaped text holds none of < > " ' raw, and every '&' in it begins an entity.
pub proof fn lemma_escape_has_no_markup(s: Seq<char>)
    ensures
        forall|i: int|
            0 <= i < xml_escape(s).len() ==> {
                let c = #[trigger] xml_escape(s)[i];
                c != '<' && c != '>' && c != '"' && c != '\''
            },
    decreases s.len(),
{
    if s.len() > 0 {
        lemma_escape_has_no_markup(s.drop_last());
        let p = xml_escape(s.drop_last());
        let e = xml_escape_char(s.last());
        assert(xml_escape(s) == p + e);
        assert forall|i: int| 0 <= i < xml_escape(s).len() implies {
            let c = #[trigger] xml_escape(s)[i];
            c != '<' && c != '>' && c != '"' && c != '\''
        } by {
            if i < p.len() {
                assert(xml_escape(s)[i] == p[i]);
            } else {
                assert(xml_escape(s)[i] == e[i - p.len()]);
            }
        }
    }
}

/// Text without special characters is its own escape.
pub proof fn lemma_escape_plain_text(s: Seq<char>)
    requires
        forall|i: int| 0 <= i < s.len() ==> !is_xml_special(#[trigger] s[i]),
    ensures
        xml_escape(s) == s,
    decreases s.len(),
{
    if s.len() > 0 {
        lemma_escape_plain_text(s.drop_last());
        assert(!is_xml_special(s[s.len() - 1]));
        assert(s.drop_last().push(s.last()) =~= s);
    }
}

/// How many times `c` occurs in `s`.
pub open spec fn char_count(s: Seq<char>, c: char) -> nat
    decreases s.len(),
{
    if s.len() == 0 {
        0
    } else {
        char_count(s.drop_last(), c) + if s.last() == c { 1nat } else { 0nat }
    }
}

/// Occurrences in a concatenation add up.
pub broadcast proof fn lemma_char_count_concat(a: Seq<char>, b: Seq<char>, c: char)
    ensures
        #[trigger] char_count(a + b, c) == char_count(a, c) + char_count(b, c),
    decreases b.len(),
{
    if b.len() == 0 {
        assert(a + b =~= a);
    } else {
        lemma_char_count_concat(a, b.drop_last(), c);
        assert((a + b).drop_last() =~= a + b.drop_last());
        assert((a + b).last() == b.last());
    }
}

proof fn lemma_char_count_absent(s: Seq<char>, c: char)
    requires
        forall|i: int| 0 <= i < s.len() ==> #[trigger] s[i] != c,
    ensures
        char_count(s, c) == 0,
    decreases s.len(),
{
    if s.len() > 0 {
        lemma_char_count_absent(s.drop_last(), c);
        assert(s.last() == s[s.len() - 1]);
    }
}

/// Escaped text holds no markup character: no < > " or '.
pub proof fn lemma_escape_counts_no_markup(s: Seq<char>, c: char)
    requires
        c == '<' || c == '>' || c == '"' || c == '\'',
    ensures
        char_count(xml_escape(s), c) == 0,
{
    lemma_escape_has_no_markup(s);
    let e = xml_escape(s);
    assert forall|i: int| 0 <= i < e.len() implies #[trigger] e[i] != c by {
        let d = e[i];
        assert(d != '<' && d != '>' && d != '"' && d != '\'');
    }
    lemma_char_count_absent(e, c);
}

/// Escapes the five XML special characters of `s`.
pub fn escape_xml(s: &str) -> (r: String)
    ensures
        r@ == xml_escape(s@),
{
    let mut out = String::new();
    for c in it: s.chars()
        invariant
            it.seq() == s@,
            out@ == xml_escape(s@.take(it.index() as int)),
    {
        let ghost n = it.index();
        proof {
            assert(s@.take(n + 1).drop_last() =~= s@.take(n as int));
        }
        assert(c == s@[n as int]);
        if c == '&' {
            out.append("&amp;");
            proof { reveal_strlit("&amp;"); }
        } else if c == '<' {
            out.append("&lt;");
            proof { reveal_strlit("&lt;"); }
        } else if c == '>' {
            out.append("&gt;");
            proof { reveal_strlit("&gt;"); }
        } else if c == '"' {
            out.append("&quot;");
            proof { reveal_strlit("&quot;"); }
        } else if c == '\'' {
            out.append("&apos;");
            proof { reveal_strlit("&apos;"); }
        } else {
            push_char(&mut out, c);
        }
    }
    proof {
        assert(s@.take(s@.len() as int) =~= s@);
    }
    out
}

/// Whether two strings hold the same characters.
pub fn str_eq(a: &str, b: &str) -> (r: bool)
    ensures
        r == (a@ == b@),
{
    let x = crate::numbers::chars_of(a);
    let y = crate::numbers::chars_of(b);
    if x.len() != y.len() {
        return false;
    }
    let mut i: usize = 0;
    while i < x.len()
        invariant
            i <= x.len(),
            x.len() == y.len(),
            x@ == a@,
            y@ == b@,
            forall|j: int| 0 <= j < i ==> x@[j] == y@[j],
        decreases x.len() - i,
    {
        if x[i] != y[i] {
            return false;
        }
        i = i + 1;
    }
    assert(x@ =~= y@);
    true
}

} // verus!
