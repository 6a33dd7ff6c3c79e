use vstd::prelude::*;

use crate::text::{chars_of, push_char};

verus! {

/// An ASCII letter or digit: the characters a slug keeps.
pub open spec fn is_word_char(c: char) -> bool {
    ('a' <= c && c <= 'z') || ('A' <= c && c <= 'Z') || ('0' <= c && c <= '9')
}

/// The ASCII lower-case form of `c`; other characters are unchanged.
pub open spec fn to_lower(c: char) -> char {
    if 'A' <= c && c <= 'Z' {
        ((c as u32) + 32) as char
    } else {
        c
    }
}

/// A character that may stand in a slug.
pub open spec fn is_slug_char(c: char) -> bool {
    ('a' <= c && c <= 'z') || ('0' <= c && c <= '9') || c == '-'
}

/// The state after reading `s` from the left: the slug built so far, and
/// whether a run of other characters has been seen since its last letter.
pub open spec fn slug_scan(s: Seq<char>) -> (Seq<char>, bool)
    decreases s.len(),
{
    if s.len() == 0 {
        (Seq::empty(), false)
    } else {
        let prev = slug_scan(s.drop_last());
        let c = s.last();
        if is_word_char(c) {
            let base = if prev.1 && prev.0.len() > 0 {
                prev.0.push('-')
            } else {
                prev.0
            };
            (base.push(to_lower(c)), false)
        } else {
            (prev.0, true)
        }
    }
}

/// The slug of `s`: its ASCII letters and digits in lower case, each run of
/// other characters between two of them turned into one `-`, and nothing
/// kept of the runs at either end.
pub open spec fn slug_of(s: Seq<char>) -> Seq<char> {
    slug_scan(s).0
}

/// `t` has the shape of a slug: lower-case letters, digits and single `-`
/// separators, with no `-` at either end.
pub open spec fn is_slug(t: Seq<char>) -> bool {
    &&& forall|i: int| 0 <= i < t.len() ==> is_slug_char(#[trigger] t[i])
    &&& t.len() > 0 ==> t[0] != '-' && t.last() != '-'
    &&& forall|i: int| 0 <= i < t.len() - 1 ==> !(#[trigger] t[i] == '-' && t[i + 1] == '-')
}

proof fn lemma_to_lower(c: char)
    requires
        is_word_char(c),
    ensures
        is_slug_char(to_lower(c)),
        to_lower(c) != '-',
        ('a' <= c && c <= 'z') || ('0' <= c && c <= '9') ==> to_lower(c) == c,
{
}

/// Whatever is read, the slug built has the shape of a slug.
pub proof fn lemma_slug_of_is_slug(s: Seq<char>)
    ensures
        is_slug(slug_of(s)),
    decreases s.len(),
{
    if s.len() > 0 {
        lemma_slug_of_is_slug(s.drop_last());
        let prev = slug_scan(s.drop_last());
        let c = s.last();
        if is_word_char(c) {
            lemma_to_lower(c);
            let base = if prev.1 && prev.0.len() > 0 {
                prev.0.push('-')
            } else {
                prev.0
            };
            let t = base.push(to_lower(c));
            assert(t == slug_of(s));
            assert forall|i: int| 0 <= i < t.len() - 1 implies !(#[trigger] t[i] == '-' && t[i
                + 1] == '-') by {
                if i + 1 < prev.0.len() {
                    assert(t[i] == prev.0[i] && t[i + 1] == prev.0[i + 1]);
                }
            }
            assert(forall|i: int| 0 <= i < t.len() ==> is_slug_char(#[trigger] t[i]));
        }
    }
}

proof fn lemma_scan_of_slug(t: Seq<char>, i: int)
    requires
        is_slug(t),
        0 <= i <= t.len(),
    ensures
        slug_scan(t.take(i)) == (if i > 0 && t[i - 1] == '-' {
            (t.take(i - 1), true)
        } else {
            (t.take(i), false)
        }),
    decreases i,
{
    if i > 0 {
        lemma_scan_of_slug(t, i - 1);
        assert(t.take(i).drop_last() =~= t.take(i - 1));
        let c = t[i - 1];
        assert(is_slug_char(c));
        if c != '-' {
            lemma_to_lower(c);
            if i > 1 && t[i - 2] == '-' {
                assert(t.take(i - 2).push('-').push(c) =~= t.take(i));
            } else {
                assert(t.take(i - 1).push(c) =~= t.take(i));
            }
        }
    } else {
        assert(t.take(0) =~= Seq::<char>::empty());
    }
}

/// A slug is its own slug.
pub proof fn lemma_slug_of_slug(t: Seq<char>)
    requires
        is_slug(t),
    ensures
        slug_of(t) == t,
{
    lemma_scan_of_slug(t, t.len() as int);
    assert(t.take(t.len() as int) =~= t);
}

/// Taking the slug of a slug changes nothing: `slug_of(slug_of(x)) == slug_of(x)`.
pub proof fn lemma_slugify_idempotent(x: Seq<char>)
    ensures
        slug_of(slug_of(x)) == slug_of(x),
{
    lemma_slug_of_is_slug(x);
    lemma_slug_of_slug(slug_of(x));
}

/// Relies on char::to_ascii_lowercase: 'A' to 'Z' become 'a' to 'z', all
/// other characters are unchanged.
#[verifier::external_body]
fn ascii_lowercase(c: char) -> (r: char)
    ensures
        r == to_lower(c),
{
    c.to_ascii_lowercase()
}

/// The slug of `s`, fit to name an output file.
pub fn slugify(s: &str) -> (r: String)
    ensures
        r@ == slug_of(s@),
        is_slug(r@),
{
    let cs = chars_of(s);
    let mut out = String::new();
    let mut pending = false;
    let mut started = false;
    let mut i: usize = 0;
    while i < cs.len()
        invariant
            i <= cs@.len(),
            cs@ == s@,
            (out@, pending) == slug_scan(cs@.take(i as int)),
            started == (out@.len() > 0),
        decreases cs@.len() - i,
    {
        let c = cs[i];
        assert(cs@.take(i + 1).drop_last() =~= cs@.take(i as int));
        if ('a' <= c && c <= 'z') || ('A' <= c && c <= 'Z') || ('0' <= c && c <= '9') {
            if pending && started {
                push_char(&mut out, '-');
            }
            push_char(&mut out, ascii_lowercase(c));
            pending = false;
            started = true;
        } else {
            pending = true;
        }
        i = i + 1;
    }
    assert(cs@.take(i as int) =~= s@);
    proof {
        lemma_slug_of_is_slug(s@);
    }
    out
}

} // verus!
