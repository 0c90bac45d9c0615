//! The order of a listing: newest date first, then title from high to low.

use vstd::prelude::*;
use crate::date::{
    is_later_date, lemma_later_date_order, later_date, parse_ymd, parsed_date, CalendarDate,
};
use crate::post::{Post, PostView};
use crate::text::chars_of;

verus! {

/// `a` is greater than `b` in lexicographic order of characters, the order
/// of `str`'s `cmp`.
pub open spec fn text_greater(a: Seq<char>, b: Seq<char>) -> bool
    decreases a.len(),
{
    if a.len() == 0 {
        false
    } else if b.len() == 0 {
        true
    } else if a[0] != b[0] {
        a[0] > b[0]
    } else {
        text_greater(a.drop_first(), b.drop_first())
    }
}

pub proof fn lemma_text_greater_order(a: Seq<char>, b: Seq<char>, c: Seq<char>)
    ensures
        !text_greater(a, a),
        text_greater(a, b) && text_greater(b, c) ==> text_greater(a, c),
        !text_greater(a, b) && !text_greater(b, a) ==> a == b,
    decreases a.len(),
{
    if a.len() > 0 && b.len() > 0 && c.len() > 0 {
        lemma_text_greater_order(a.drop_first(), b.drop_first(), c.drop_first());
        if a[0] == b[0] && !text_greater(a, b) && !text_greater(b, a) {
            assert(a =~= seq![a[0]] + a.drop_first());
            assert(b =~= seq![b[0]] + b.drop_first());
        }
    } else if a.len() > 0 && b.len() > 0 {
        lemma_text_greater_order(a.drop_first(), b.drop_first(), c);
        if a[0] == b[0] && !text_greater(a, b) && !text_greater(b, a) {
            assert(a =~= seq![a[0]] + a.drop_first());
            assert(b =~= seq![b[0]] + b.drop_first());
        }
    } else if a.len() > 0 {
        lemma_text_greater_order(a.drop_first(), a.drop_first(), a.drop_first());
    } else if b.len() == 0 {
        assert(a =~= b);
    }
}

/// The listing key of `a` goes above that of `b`.
pub open spec fn key_before(
    a_date: Option<CalendarDate>,
    a_title: Seq<char>,
    b_date: Option<CalendarDate>,
    b_title: Seq<char>,
) -> bool {
    later_date(a_date, b_date) || (a_date == b_date && text_greater(a_title, b_title))
}

/// Post `a` goes above post `b` in a listing.
pub open spec fn post_before(a: PostView, b: PostView) -> bool {
    key_before(parsed_date(a.date), a.title, parsed_date(b.date), b.title)
}

pub open spec fn post_views(s: Seq<Post>) -> Seq<PostView> {
    s.map_values(|p: Post| p@)
}

/// No post goes above one that stands before it.
pub open spec fn is_listing_order(s: Seq<PostView>) -> bool {
    forall|i: int, j: int| 0 <= i < j < s.len() ==> !post_before(#[trigger] s[j], #[trigger] s[i])
}

fn is_text_greater(a: &Vec<char>, b: &Vec<char>) -> (r: bool)
    ensures
        r == text_greater(a@, b@),
{
    let mut i: usize = 0;
    assert(a@.skip(0) =~= a@);
    assert(b@.skip(0) =~= b@);
    while i < a.len() && i < b.len() && a[i] == b[i]
        invariant
            i <= a.len(),
            i <= b.len(),
            text_greater(a@, b@) == text_greater(a@.skip(i as int), b@.skip(i as int)),
        decreases a.len() - i,
    {
        assert(a@.skip(i as int).drop_first() =~= a@.skip(i + 1));
        assert(b@.skip(i as int).drop_first() =~= b@.skip(i + 1));
        i += 1;
    }
    assert(a@.skip(0) =~= a@);
    assert(b@.skip(0) =~= b@);
    if i == a.len() {
        false
    } else if i == b.len() {
        true
    } else {
        assert(a@.skip(i as int)[0] == a@[i as int]);
        assert(b@.skip(i as int)[0] == b@[i as int]);
        a[i] > b[i]
    }
}

/// Whether a post with date `a_date` and title `a_title` goes above one with
/// `b_date` and `b_title`: the later date first, a missing date last, and
/// on equal dates the greater title first.
pub fn precedes(
    a_date: Option<CalendarDate>,
    a_title: &str,
    b_date: Option<CalendarDate>,
    b_title: &str,
) -> (r: bool)
    ensures
        r == key_before(a_date, a_title@, b_date, b_title@),
{
    if is_later_date(a_date, b_date) {
        return true;
    }
    let same = match (a_date, b_date) {
        (Some(x), Some(y)) => x == y,
        (None, None) => true,
        _ => false,
    };
    same && is_text_greater(&chars_of(a_title), &chars_of(b_title))
}

fn post_precedes(a: &Post, b: &Post) -> (r: bool)
    ensures
        r == post_before(a@, b@),
{
    precedes(parse_ymd(a.date.as_str()), a.title.as_str(), parse_ymd(b.date.as_str()), b.title.as_str())
}

proof fn lemma_post_order(a: PostView, b: PostView, c: PostView)
    ensures
        !post_before(a, a),
        post_before(a, b) && post_before(b, c) ==> post_before(a, c),
{
    lemma_later_date_order(parsed_date(a.date), parsed_date(b.date), parsed_date(c.date));
    lemma_later_date_order(parsed_date(b.date), parsed_date(a.date), parsed_date(c.date));
    lemma_later_date_order(parsed_date(a.date), parsed_date(c.date), parsed_date(b.date));
    lemma_later_date_order(parsed_date(c.date), parsed_date(b.date), parsed_date(a.date));
    lemma_text_greater_order(a.title, b.title, c.title);
}

/// Where `p` goes into the listing `r`: before the first post that it goes
/// above, else at the end.
pub open spec fn insert_pos(r: Seq<PostView>, p: PostView) -> int
    decreases r.len(),
{
    if r.len() == 0 {
        0
    } else if post_before(p, r[0]) {
        0
    } else {
        1 + insert_pos(r.drop_first(), p)
    }
}

/// The listing of `s`: each post in turn goes before the first post already
/// listed that it goes above, so posts with equal keys keep their order.
pub open spec fn listing(s: Seq<PostView>) -> Seq<PostView>
    decreases s.len(),
{
    if s.len() == 0 {
        seq![]
    } else {
        let r = listing(s.drop_last());
        r.insert(insert_pos(r, s.last()), s.last())
    }
}

proof fn lemma_insert_pos(r: Seq<PostView>, p: PostView)
    ensures
        0 <= insert_pos(r, p) <= r.len(),
        forall|j: int| 0 <= j < insert_pos(r, p) ==> !post_before(p, #[trigger] r[j]),
        insert_pos(r, p) < r.len() ==> post_before(p, r[insert_pos(r, p)]),
    decreases r.len(),
{
    if r.len() > 0 && !post_before(p, r[0]) {
        lemma_insert_pos(r.drop_first(), p);
        assert forall|j: int| 0 <= j < insert_pos(r, p) implies !post_before(p, #[trigger] r[j]) by {
            if j > 0 {
                assert(r[j] == r.drop_first()[j - 1]);
            }
        }
    }
}

proof fn lemma_insert_pos_at(r: Seq<PostView>, p: PostView, k: int)
    requires
        0 <= k <= r.len(),
        forall|j: int| 0 <= j < k ==> !post_before(p, #[trigger] r[j]),
        k < r.len() ==> post_before(p, r[k]),
    ensures
        insert_pos(r, p) == k,
{
    lemma_insert_pos(r, p);
}

/// A listing holds the same posts as what it lists, in listing order.
pub proof fn lemma_listing(s: Seq<PostView>)
    ensures
        listing(s).to_multiset() == s.to_multiset(),
        is_listing_order(listing(s)),
    decreases s.len(),
{
    if s.len() > 0 {
        let vb = listing(s.drop_last());
        let p = s.last();
        let k = insert_pos(vb, p);
        lemma_listing(s.drop_last());
        lemma_insert_pos(vb, p);
        let va = listing(s);
        vstd::seq_lib::to_multiset_insert(vb, k, p);
        assert(s.drop_last().push(p) =~= s);
        vstd::seq_lib::to_multiset_build(s.drop_last(), p);
        assert forall|i: int, j: int| 0 <= i < j < va.len() implies !post_before(
            #[trigger] va[j],
            #[trigger] va[i],
        ) by {
            if j < k {
                assert(va[i] == vb[i] && va[j] == vb[j]);
            } else if j == k {
                assert(va[j] == p && va[i] == vb[i]);
            } else if i == k {
                assert(va[i] == p && va[j] == vb[j - 1]);
                lemma_post_order(vb[j - 1], p, vb[k]);
                if j - 1 > k {
                    assert(!post_before(vb[j - 1], vb[k]));
                }
            } else if i < k {
                assert(va[i] == vb[i] && va[j] == vb[j - 1]);
            } else {
                assert(va[i] == vb[i - 1] && va[j] == vb[j - 1]);
            }
        }
    } else {
        assert(s =~= Seq::<PostView>::empty());
    }
}

/// The posts in listing order: newest date first, unparsable dates last,
/// equal dates by title from high to low; posts with equal keys keep their
/// order.
pub fn sort_posts(posts: Vec<Post>) -> (r: Vec<Post>)
    ensures
        post_views(r@) == listing(post_views(posts@)),
        post_views(r@).to_multiset() == post_views(posts@).to_multiset(),
        is_listing_order(post_views(r@)),
{
    let ghost orig = posts@;
    let mut rest = posts;
    let mut out: Vec<Post> = Vec::new();
    let ghost mut n: int = 0;
    assert(rest@ =~= orig.skip(0));
    assert(post_views(orig.take(0)) =~= Seq::<PostView>::empty());
    assert(post_views(out@) =~= listing(post_views(orig.take(0))));
    while rest.len() > 0
        invariant
            0 <= n <= orig.len(),
            rest@ == orig.skip(n),
            post_views(out@) == listing(post_views(orig.take(n))),
        decreases rest.len(),
    {
        let p = rest.remove(0);
        assert(p == orig[n]);
        assert(rest@ =~= orig.skip(n + 1));
        let mut k: usize = 0;
        while k < out.len() && !post_precedes(&p, &out[k])
            invariant
                k <= out.len(),
                forall|j: int| 0 <= j < k ==> !post_before(p@, #[trigger] out@[j]@),
            decreases out.len() - k,
        {
            k += 1;
        }
        let ghost before = out@;
        out.insert(k, p);
        proof {
            let vb = post_views(before);
            assert forall|j: int| 0 <= j < k implies !post_before(p@, #[trigger] vb[j]) by {
                assert(vb[j] == before[j]@);
            }
            if k < vb.len() {
                assert(vb[k as int] == before[k as int]@);
            }
            lemma_insert_pos_at(vb, p@, k as int);
            let s1 = post_views(orig.take(n + 1));
            assert(s1.drop_last() =~= post_views(orig.take(n)));
            assert(s1.last() == p@);
            assert(post_views(out@) =~= vb.insert(k as int, p@));
        }
        proof {
            n = n + 1;
        }
    }
    assert(orig.take(n) =~= orig);
    proof {
        lemma_listing(post_views(orig));
    }
    out
}

} // verus!
