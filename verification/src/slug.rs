//! Room identifiers: turning free text into a slug.

use vstd::prelude::*;
use crate::text::{ascii_lower, char_ascii_lower, char_is_ascii_alnum, is_ascii_alnum, pop_char, push_char};

verus! {

/// What the left-to-right scan of `s` has produced: the slug characters so
/// far, and whether the last thing emitted was a separator. Letters and
/// digits are kept (lower-cased); any other run of characters becomes one
/// `-`, and only once something has been emitted.
pub open spec fn slug_scan(s: Seq<char>) -> (Seq<char>, bool)
    decreases s.len(),
{
    if s.len() == 0 {
        (Seq::<char>::empty(), false)
    } else {
        let (out, dash) = slug_scan(s.drop_last());
        let c = s.last();
        if is_ascii_alnum(c) {
            (out.push(ascii_lower(c)), false)
        } else if !dash && out.len() > 0 {
            (out.push('-'), true)
        } else {
            (out, dash)
        }
    }
}

/// `s` without its trailing `-` characters.
pub open spec fn strip_trailing_dashes(s: Seq<char>) -> Seq<char>
    decreases s.len(),
{
    if s.len() > 0 && s.last() == '-' {
        strip_trailing_dashes(s.drop_last())
    } else {
        s
    }
}

/// The slug used when the text holds no letter or digit at all.
pub open spec fn fallback_slug() -> Seq<char> {
    seq!['s', 'a', 'l', 'a']
}

/// The slug of `s`: its ASCII letters and digits in lower case, each run of
/// other characters between two of them replaced by a single `-`.
pub open spec fn slug(s: Seq<char>) -> Seq<char> {
    let t = strip_trailing_dashes(slug_scan(s).0);
    if t.len() == 0 {
        fallback_slug()
    } else {
        t
    }
}

/// A character that may appear in a slug.
pub open spec fn is_slug_char(c: char) -> bool {
    ('0' <= c && c <= '9') || ('a' <= c && c <= 'z') || c == '-'
}

/// `s` has the shape of a slug: not empty, only lower-case ASCII letters,
/// digits and `-`, and neither starting nor ending with `-` nor holding two
/// `-` in a row.
pub open spec fn is_slug(s: Seq<char>) -> bool {
    &&& s.len() > 0
    &&& forall|i: int| 0 <= i < s.len() ==> #[trigger] is_slug_char(s[i])
    &&& s[0] != '-'
    &&& s.last() != '-'
    &&& forall|i: int| 0 <= i < s.len() - 1 ==> !(#[trigger] s[i] == '-' && s[i + 1] == '-')
}

/// Shape of a slug under construction: the same as [`is_slug`] except that it
/// may be empty and may end with one `-`.
pub open spec fn is_slug_prefix(s: Seq<char>) -> bool {
    &&& forall|i: int| 0 <= i < s.len() ==> #[trigger] is_slug_char(s[i])
    &&& s.len() > 0 ==> s[0] != '-'
    &&& forall|i: int| 0 <= i < s.len() - 1 ==> !(#[trigger] s[i] == '-' && s[i + 1] == '-')
}

proof fn lemma_scan_shape(s: Seq<char>)
    ensures
        is_slug_prefix(slug_scan(s).0),
        slug_scan(s).1 <==> (slug_scan(s).0.len() > 0 && slug_scan(s).0.last() == '-'),
    decreases s.len(),
{
    if s.len() > 0 {
        lemma_scan_shape(s.drop_last());
        let (out, dash) = slug_scan(s.drop_last());
        let c = s.last();
        if is_ascii_alnum(c) {
            let o2 = out.push(ascii_lower(c));
            assert forall|i: int| 0 <= i < o2.len() - 1 implies !(#[trigger] o2[i] == '-' && o2[i + 1] == '-') by {
                if i < out.len() - 1 {
                    assert(o2[i] == out[i] && o2[i + 1] == out[i + 1]);
                }
            }
            assert forall|i: int| 0 <= i < o2.len() implies #[trigger] is_slug_char(o2[i]) by {
                if i < out.len() {
                    assert(o2[i] == out[i]);
                }
            }
        } else if !dash && out.len() > 0 {
            let o2 = out.push('-');
            assert forall|i: int| 0 <= i < o2.len() - 1 implies !(#[trigger] o2[i] == '-' && o2[i + 1] == '-') by {
                if i < out.len() - 1 {
                    assert(o2[i] == out[i] && o2[i + 1] == out[i + 1]);
                }
            }
            assert forall|i: int| 0 <= i < o2.len() implies #[trigger] is_slug_char(o2[i]) by {
                if i < out.len() {
                    assert(o2[i] == out[i]);
                }
            }
        }
    }
}

proof fn lemma_strip_of_prefix_shape(s: Seq<char>)
    requires
        is_slug_prefix(s),
        s.len() > 0 && s.last() == '-' ==> s.len() >= 2 && s[s.len() - 2] != '-',
    ensures
        strip_trailing_dashes(s) == (if s.len() > 0 && s.last() == '-' { s.drop_last() } else { s }),
{
    if s.len() > 0 && s.last() == '-' {
        assert(strip_trailing_dashes(s) == strip_trailing_dashes(s.drop_last()));
        let t = s.drop_last();
        assert(t.last() == s[s.len() - 2]);
    }
}

/// Every slug has the shape of a slug: not empty, only `[a-z0-9-]`,
/// never starting or ending with `-`, never two `-` in a row.
pub proof fn lemma_slug_is_slug(s: Seq<char>)
    ensures
        is_slug(slug(s)),
{
    lemma_scan_shape(s);
    let out = slug_scan(s).0;
    if out.len() > 0 && out.last() == '-' {
        if out.len() == 1 {
            assert(out[0] == '-');
        } else {
            assert(!(out[out.len() - 2] == '-' && out[out.len() - 1] == '-'));
        }
    }
    lemma_strip_of_prefix_shape(out);
    let t = strip_trailing_dashes(out);
    if t.len() == 0 {
        let f = fallback_slug();
        assert(is_slug_char(f[0]) && is_slug_char(f[1]) && is_slug_char(f[2]) && is_slug_char(f[3]));
        assert(is_slug(f));
    } else {
        if out.len() > 0 && out.last() == '-' {
            assert forall|i: int| 0 <= i < t.len() implies #[trigger] is_slug_char(t[i]) by {
                assert(t[i] == out[i]);
            }
            assert forall|i: int| 0 <= i < t.len() - 1 implies !(#[trigger] t[i] == '-' && t[i + 1] == '-') by {
                assert(t[i] == out[i] && t[i + 1] == out[i + 1]);
            }
            assert(t.last() == out[out.len() - 2]);
        }
    }
}

proof fn lemma_scan_of_slug_prefix(p: Seq<char>)
    requires
        is_slug_prefix(p),
    ensures
        slug_scan(p) == (p, p.len() > 0 && p.last() == '-'),
    decreases p.len(),
{
    if p.len() > 0 {
        let q = p.drop_last();
        assert forall|i: int| 0 <= i < q.len() implies #[trigger] is_slug_char(q[i]) by {
            assert(q[i] == p[i]);
        }
        assert forall|i: int| 0 <= i < q.len() - 1 implies !(#[trigger] q[i] == '-' && q[i + 1] == '-') by {
            assert(q[i] == p[i] && q[i + 1] == p[i + 1]);
        }
        lemma_scan_of_slug_prefix(q);
        let c = p.last();
        assert(is_slug_char(p[p.len() - 1]));
        if c == '-' {
            assert(p.len() >= 2);
            assert(!(p[p.len() - 2] == '-' && p[p.len() - 1] == '-'));
            assert(q.last() == p[p.len() - 2]);
        }
        assert(q.push(c) =~= p);
    }
}

/// A text that already is a slug is its own slug, so slugging twice
/// gives the same as slugging once.
pub proof fn lemma_slug_of_slug(s: Seq<char>)
    requires
        is_slug(s),
    ensures
        slug(s) == s,
        slug(slug(s)) == slug(s),
{
    lemma_scan_of_slug_prefix(s);
}

/// Slugging is idempotent.
pub proof fn lemma_slug_idempotent(s: Seq<char>)
    ensures
        slug(slug(s)) == slug(s),
{
    lemma_slug_is_slug(s);
    lemma_slug_of_slug(slug(s));
}

/// Turns free text into a safe identifier: lower-case ASCII letters and
/// digits, with single `-` between the runs of other characters, or `"sala"`
/// when nothing remains.
///
/// Whitespace around `s` needs no trimming: it is made of non-alphanumeric
/// characters, which are dropped at the start and collapse into the one
/// trailing separator that is removed at the end.
pub fn slugify(s: &str) -> (res: String)
    ensures
        res@ == slug(s@),
{
    let mut out = String::new();
    let mut prev_dash = false;
    for c in it: s.chars()
        invariant
            it.seq() == s@,
            (out@, prev_dash) == slug_scan(s@.take(it.index() as int)),
    {
        proof {
            assert(s@.take(it.index() + 1).drop_last() =~= s@.take(it.index() as int));
        }
        if char_is_ascii_alnum(c) {
            push_char(&mut out, char_ascii_lower(c));
            prev_dash = false;
        } else if !prev_dash && !out.as_str().is_empty() {
            push_char(&mut out, '-');
            prev_dash = true;
        }
    }
    proof {
        assert(s@.take(s@.len() as int) =~= s@);
        lemma_scan_shape(s@);
        let o = out@;
        if o.len() > 0 && o.last() == '-' {
            if o.len() == 1 {
                assert(o[0] == '-');
            } else {
                assert(!(o[o.len() - 2] == '-' && o[o.len() - 1] == '-'));
            }
        }
        lemma_strip_of_prefix_shape(o);
    }
    // Separators never come two in a row, so at most one trails.
    if prev_dash {
        pop_char(&mut out);
    }
    if out.as_str().is_empty() {
        let fallback = String::from_str("sala");
        proof {
            reveal_strlit("sala");
            assert(fallback@ =~= fallback_slug());
        }
        fallback
    } else {
        out
    }
}

} // verus!
