//! The set of posts read from a content directory's files.

use vstd::prelude::*;
use crate::order::{is_listing_order, listing, post_views, sort_posts};
use crate::post::{parse_post, parse_spec, Post, PostView};
use crate::text::{chars_of, same_chars};

verus! {

/// One file of the content directory: its name and its text.
pub struct ContentFile {
    pub name: String,
    pub contents: String,
}

/// A content file ends in `.md` after a non-empty stem; `example.md` is a
/// template and never counts.
pub open spec fn is_content_name(n: Seq<char>) -> bool {
    &&& n.len() >= 4
    &&& n.skip(n.len() - 3) == ".md"@
    &&& n != "example.md"@
}

/// The posts of the files in order, drafts among them where `with_drafts`.
pub open spec fn posts_of(files: Seq<ContentFile>, with_drafts: bool) -> Seq<PostView>
    decreases files.len(),
{
    if files.len() == 0 {
        seq![]
    } else {
        let rest = posts_of(files.drop_last(), with_drafts);
        let f = files.last();
        if is_content_name(f.name@) {
            match parse_spec(f.contents@) {
                Some(p) => if with_drafts || !p.draft {
                    rest.push(p)
                } else {
                    rest
                },
                None => rest,
            }
        } else {
            rest
        }
    }
}

/// The post of the first file, in the order given, whose slug is `slug`.
pub open spec fn first_with_slug(files: Seq<ContentFile>, slug: Seq<char>) -> Option<PostView>
    decreases files.len(),
{
    if files.len() == 0 {
        None
    } else {
        let f = files[0];
        let found = if is_content_name(f.name@) {
            match parse_spec(f.contents@) {
                Some(p) => if p.slug == slug {
                    Some(p)
                } else {
                    None
                },
                None => None,
            }
        } else {
            None
        };
        if found is Some {
            found
        } else {
            first_with_slug(files.drop_first(), slug)
        }
    }
}

/// Whether a file of this name is read as content.
pub fn is_content_file(name: &str) -> (r: bool)
    ensures
        r == is_content_name(name@),
{
    let n = chars_of(name);
    let ext = chars_of(".md");
    let example = chars_of("example.md");
    let len = n.len();
    if len < 4 {
        return false;
    }
    proof {
        reveal_strlit(".md");
    }
    let tail_ok = n[len - 3] == '.' && n[len - 2] == 'm' && n[len - 1] == 'd';
    proof {
        let t = n@.skip(len - 3);
        assert(ext@ =~= seq!['.', 'm', 'd']);
        assert(t[0] == n@[len - 3] && t[1] == n@[len - 2] && t[2] == n@[len - 1]);
        if tail_ok {
            assert(t =~= ext@);
        }
    }
    tail_ok && !same_chars(&n, &example)
}

/// The posts of the content files, in the order of the files; the drafts
/// too where `with_drafts`. Files that are not content, or that name no
/// title or date, give none.
pub fn collect_posts(files: &Vec<ContentFile>, with_drafts: bool) -> (r: Vec<Post>)
    ensures
        post_views(r@) == posts_of(files@, with_drafts),
{
    let mut out: Vec<Post> = Vec::new();
    let mut i: usize = 0;
    assert(post_views(out@) =~= posts_of(files@.take(0), with_drafts));
    while i < files.len()
        invariant
            i <= files.len(),
            post_views(out@) == posts_of(files@.take(i as int), with_drafts),
        decreases files.len() - i,
    {
        let f = &files[i];
        assert(files@.take(i + 1).drop_last() =~= files@.take(i as int));
        if is_content_file(f.name.as_str()) {
            match parse_post(f.contents.as_str()) {
                Some(p) => {
                    if with_drafts || !p.draft {
                        let ghost before = out@;
                        out.push(p);
                        assert(post_views(out@) =~= post_views(before).push(p@));
                    }
                },
                None => {},
            }
        }
        i += 1;
    }
    assert(files@.take(files.len() as int) =~= files@);
    out
}

/// The published posts, in listing order; no draft among them.
pub fn published_posts(files: &Vec<ContentFile>) -> (r: Vec<Post>)
    ensures
        post_views(r@) == listing(posts_of(files@, false)),
        post_views(r@).to_multiset() == posts_of(files@, false).to_multiset(),
        is_listing_order(post_views(r@)),
        forall|i: int| 0 <= i < r@.len() ==> !(#[trigger] r@[i]).draft,
{
    let r = sort_posts(collect_posts(files, false));
    proof {
        broadcast use vstd::seq_lib::group_to_multiset_ensures;

        assert forall|i: int| 0 <= i < r@.len() implies !(#[trigger] r@[i]).draft by {
            let v = post_views(r@);
            assert(v[i] == r@[i]@);
            assert(v.contains(v[i]));
            assert(v.to_multiset().count(v[i]) > 0);
            lemma_no_drafts_published(files@, v[i]);
        }
    }
    r
}

/// Every post, drafts too, in listing order.
pub fn all_posts(files: &Vec<ContentFile>) -> (r: Vec<Post>)
    ensures
        post_views(r@) == listing(posts_of(files@, true)),
        post_views(r@).to_multiset() == posts_of(files@, true).to_multiset(),
        is_listing_order(post_views(r@)),
{
    sort_posts(collect_posts(files, true))
}

/// The post of the first content file, in the order given, whose slug is
/// `slug`, draft or not.
pub fn find_post_by_slug(files: &Vec<ContentFile>, slug: &str) -> (r: Option<Post>)
    ensures
        match r {
            Some(p) => first_with_slug(files@, slug@) == Some(p@),
            None => first_with_slug(files@, slug@) is None,
        },
{
    let target = chars_of(slug);
    let mut i: usize = 0;
    assert(files@.skip(0) =~= files@);
    while i < files.len()
        invariant
            i <= files.len(),
            target@ == slug@,
            first_with_slug(files@, slug@) == first_with_slug(files@.skip(i as int), slug@),
        decreases files.len() - i,
    {
        let f = &files[i];
        assert(files@.skip(i as int)[0] == files@[i as int]);
        assert(files@.skip(i as int).drop_first() =~= files@.skip(i + 1));
        if is_content_file(f.name.as_str()) {
            match parse_post(f.contents.as_str()) {
                Some(p) => {
                    if same_chars(&chars_of(p.slug.as_str()), &target) {
                        return Some(p);
                    }
                },
                None => {},
            }
        }
        i += 1;
    }
    None
}

/// Every post of the listing without drafts is not a draft.
pub proof fn lemma_no_drafts_published(files: Seq<ContentFile>, p: PostView)
    requires
        posts_of(files, false).contains(p),
    ensures
        !p.draft,
    decreases files.len(),
{
    if files.len() > 0 {
        let rest = posts_of(files.drop_last(), false);
        if rest.contains(p) {
            lemma_no_drafts_published(files.drop_last(), p);
        } else {
            let i = choose|i: int| 0 <= i < posts_of(files, false).len() && posts_of(files, false)[i] == p;
            if is_content_name(files.last().name@) {
                match parse_spec(files.last().contents@) {
                    Some(q) => {
                        if !q.draft {
                            if i < rest.len() {
                                assert(rest[i] == p);
                            }
                        }
                    },
                    None => {},
                }
            }
        }
    }
}

} // verus!
