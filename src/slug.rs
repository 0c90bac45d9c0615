//! Slugs: lowercase ASCII letters and digits in runs joined by single hyphens.

use vstd::prelude::*;
use crate::text::{chars_of, lower_ascii_char, string_of};

verus! {

pub open spec fn is_ascii_alnum(c: char) -> bool {
    ('a' <= c && c <= 'z') || ('A' <= c && c <= 'Z') || ('0' <= c && c <= '9')
}

/// A character that may stand in a slug besides the hyphen.
pub open spec fn is_slug_char(c: char) -> bool {
    ('a' <= c && c <= 'z') || ('0' <= c && c <= '9')
}

/// Every alphanumeric character lowercased, every run of other characters
/// turned into one hyphen.
pub open spec fn kebab_run(s: Seq<char>) -> Seq<char>
    decreases s.len(),
{
    if s.len() == 0 {
        seq![]
    } else {
        let p = kebab_run(s.drop_last());
        let c = s.last();
        if is_ascii_alnum(c) {
            p.push(lower_ascii_char(c))
        } else if p.len() > 0 && p.last() == '-' {
            p
        } else {
            p.push('-')
        }
    }
}

pub open spec fn trim_leading_dashes(s: Seq<char>) -> Seq<char>
    decreases s.len(),
{
    if s.len() > 0 && s[0] == '-' {
        trim_leading_dashes(s.drop_first())
    } else {
        s
    }
}

pub open spec fn trim_trailing_dashes(s: Seq<char>) -> Seq<char>
    decreases s.len(),
{
    if s.len() > 0 && s.last() == '-' {
        trim_trailing_dashes(s.drop_last())
    } else {
        s
    }
}

/// The slug of a text: its kebab form without hyphens at either end.
pub open spec fn slugify(s: Seq<char>) -> Seq<char> {
    trim_trailing_dashes(trim_leading_dashes(kebab_run(s)))
}

pub open spec fn slug_charset(s: Seq<char>) -> bool {
    forall|i: int| 0 <= i < s.len() ==> is_slug_char(#[trigger] s[i]) || s[i] == '-'
}

pub open spec fn no_double_dash(s: Seq<char>) -> bool {
    forall|i: int| 0 <= i < s.len() - 1 ==> !(#[trigger] s[i] == '-' && s[i + 1] == '-')
}

/// The shape `^[a-z0-9]+(-[a-z0-9]+)*$`, or the empty text.
pub open spec fn is_slug(s: Seq<char>) -> bool {
    &&& slug_charset(s)
    &&& no_double_dash(s)
    &&& s.len() > 0 ==> s[0] != '-' && s.last() != '-'
}

fn is_alnum(c: char) -> (r: bool)
    ensures
        r == is_ascii_alnum(c),
{
    ('a' <= c && c <= 'z') || ('A' <= c && c <= 'Z') || ('0' <= c && c <= '9')
}

fn to_lower(c: char) -> (r: char)
    ensures
        r == lower_ascii_char(c),
{
    if 'A' <= c && c <= 'Z' {
        ((c as u8) + 32) as char
    } else {
        c
    }
}

proof fn lemma_trim_leading_suffix(s: Seq<char>, k: int)
    requires
        0 <= k <= s.len(),
        forall|j: int| 0 <= j < k ==> s[j] == '-',
    ensures
        trim_leading_dashes(s) == trim_leading_dashes(s.skip(k)),
    decreases k,
{
    if k > 0 {
        assert(s.skip(k) =~= s.drop_first().skip(k - 1));
        lemma_trim_leading_suffix(s.drop_first(), k - 1);
    } else {
        assert(s.skip(0) =~= s);
    }
}

proof fn lemma_trim_trailing_prefix(s: Seq<char>, k: int)
    requires
        0 <= k <= s.len(),
        forall|j: int| k <= j < s.len() ==> s[j] == '-',
    ensures
        trim_trailing_dashes(s) == trim_trailing_dashes(s.take(k)),
    decreases s.len() - k,
{
    if k < s.len() {
        assert(s.drop_last().take(k) =~= s.take(k));
        lemma_trim_trailing_prefix(s.drop_last(), k);
    } else {
        assert(s.take(k) =~= s);
    }
}

/// The slug of a title or of an explicit override: ASCII letters and digits
/// lowercased, every run of other characters one hyphen, no hyphen at
/// either end.
pub fn slugify_kebab(value: &str) -> (r: String)
    ensures
        r@ == slugify(value@),
        is_slug(r@),
{
    let chars = chars_of(value);
    let mut out: Vec<char> = Vec::new();
    let mut prev_dash = false;
    let mut i: usize = 0;
    while i < chars.len()
        invariant
            i <= chars.len(),
            out@ == kebab_run(chars@.take(i as int)),
            prev_dash == (out@.len() > 0 && out@.last() == '-'),
        decreases chars.len() - i,
    {
        let ch = chars[i];
        assert(chars@.take(i + 1).drop_last() =~= chars@.take(i as int));
        if is_alnum(ch) {
            out.push(to_lower(ch));
            prev_dash = false;
        } else if !prev_dash {
            out.push('-');
            prev_dash = true;
        }
        i += 1;
    }
    assert(chars@.take(chars.len() as int) =~= chars@);
    let ghost run = out@;
    let mut start: usize = 0;
    while start < out.len() && out[start] == '-'
        invariant
            start <= out.len(),
            forall|j: int| 0 <= j < start ==> out@[j] == '-',
        decreases out.len() - start,
    {
        start += 1;
    }
    proof {
        lemma_trim_leading_suffix(run, start as int);
    }
    let mut end: usize = out.len();
    while end > start && out[end - 1] == '-'
        invariant
            start <= end <= out.len(),
            forall|j: int| end <= j < out.len() ==> out@[j] == '-',
        decreases end,
    {
        end -= 1;
    }
    let ghost rest = run.skip(start as int);
    proof {
        assert forall|j: int| end - start <= j < rest.len() implies rest[j] == '-' by {
            assert(rest[j] == run[j + start]);
        }
        lemma_trim_trailing_prefix(rest, end - start);
    }
    let mut kept: Vec<char> = Vec::new();
    let mut k: usize = start;
    while k < end
        invariant
            start <= k <= end <= out.len(),
            kept@ == out@.subrange(start as int, k as int),
        decreases end - k,
    {
        kept.push(out[k]);
        k += 1;
    }
    proof {
        assert(kept@ =~= rest.take(end - start));
        lemma_kebab_shape(chars@);
        lemma_trim_shape(run);
    }
    string_of(&kept)
}

proof fn lemma_kebab_shape(s: Seq<char>)
    ensures
        slug_charset(kebab_run(s)),
        no_double_dash(kebab_run(s)),
    decreases s.len(),
{
    if s.len() > 0 {
        lemma_kebab_shape(s.drop_last());
        let p = kebab_run(s.drop_last());
        let r = kebab_run(s);
        assert forall|i: int| 0 <= i < r.len() implies is_slug_char(#[trigger] r[i]) || r[i] == '-' by {
            if i < p.len() {
                assert(r[i] == p[i]);
            }
        }
        assert forall|i: int| 0 <= i < r.len() - 1 implies !(#[trigger] r[i] == '-' && r[i + 1] == '-') by {
            if i + 1 < p.len() {
                assert(r[i] == p[i] && r[i + 1] == p[i + 1]);
            }
        }
    }
}

proof fn lemma_trim_shape(s: Seq<char>)
    requires
        slug_charset(s),
        no_double_dash(s),
    ensures
        is_slug(trim_trailing_dashes(trim_leading_dashes(s))),
{
    lemma_trim_leading_shape(s);
    lemma_trim_trailing_shape(trim_leading_dashes(s));
}

proof fn lemma_trim_leading_shape(s: Seq<char>)
    requires
        slug_charset(s),
        no_double_dash(s),
    ensures
        slug_charset(trim_leading_dashes(s)),
        no_double_dash(trim_leading_dashes(s)),
        trim_leading_dashes(s).len() > 0 ==> trim_leading_dashes(s)[0] != '-',
    decreases s.len(),
{
    if s.len() > 0 && s[0] == '-' {
        let t = s.drop_first();
        assert forall|i: int| 0 <= i < t.len() implies is_slug_char(#[trigger] t[i]) || t[i] == '-' by {
            assert(t[i] == s[i + 1]);
        }
        assert forall|i: int| 0 <= i < t.len() - 1 implies !(#[trigger] t[i] == '-' && t[i + 1] == '-') by {
            assert(t[i] == s[i + 1] && t[i + 1] == s[i + 2]);
        }
        lemma_trim_leading_shape(t);
    }
}

proof fn lemma_trim_trailing_shape(s: Seq<char>)
    requires
        slug_charset(s),
        no_double_dash(s),
        s.len() > 0 ==> s[0] != '-',
    ensures
        is_slug(trim_trailing_dashes(s)),
    decreases s.len(),
{
    if s.len() > 0 && s.last() == '-' {
        let t = s.drop_last();
        assert forall|i: int| 0 <= i < t.len() implies is_slug_char(#[trigger] t[i]) || t[i] == '-' by {
            assert(t[i] == s[i]);
        }
        assert forall|i: int| 0 <= i < t.len() - 1 implies !(#[trigger] t[i] == '-' && t[i + 1] == '-') by {
            assert(t[i] == s[i] && t[i + 1] == s[i + 1]);
        }
        if t.len() > 0 {
            assert(t[0] == s[0]);
        }
        lemma_trim_trailing_shape(t);
    }
}

proof fn lemma_kebab_of_shaped(s: Seq<char>)
    requires
        slug_charset(s),
        no_double_dash(s),
    ensures
        kebab_run(s) == s,
    decreases s.len(),
{
    if s.len() > 0 {
        let t = s.drop_last();
        assert forall|i: int| 0 <= i < t.len() implies is_slug_char(#[trigger] t[i]) || t[i] == '-' by {
            assert(t[i] == s[i]);
        }
        assert forall|i: int| 0 <= i < t.len() - 1 implies !(#[trigger] t[i] == '-' && t[i + 1] == '-') by {
            assert(t[i] == s[i] && t[i + 1] == s[i + 1]);
        }
        lemma_kebab_of_shaped(t);
        if s.last() == '-' && t.len() > 0 {
            assert(s[s.len() - 2] == t.last());
        }
        assert(t.push(s.last()) =~= s);
    }
}

/// A slug is its own slug.
pub proof fn lemma_slug_fixed_point(s: Seq<char>)
    requires
        is_slug(s),
    ensures
        slugify(s) == s,
{
    lemma_kebab_of_shaped(s);
}

/// Slugifying twice gives the same as slugifying once, and every result has
/// the slug shape.
pub proof fn lemma_slugify_idempotent(s: Seq<char>)
    ensures
        is_slug(slugify(s)),
        slugify(slugify(s)) == slugify(s),
{
    lemma_kebab_shape(s);
    lemma_trim_shape(kebab_run(s));
    lemma_slug_fixed_point(slugify(s));
}

} // verus!
