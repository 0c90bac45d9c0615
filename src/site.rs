//! The two ways pages leave the library: answers to live requests, and the
//! files of a static export.

use vstd::prelude::*;
use crate::order::{lemma_listing, listing, post_views};
use crate::post::{parse_spec, PostView};
use crate::render::{
    index_html, post_html, render_index, render_not_found, render_post, NOT_FOUND_PAGE,
};
use crate::repo::{
    all_posts, find_post_by_slug, first_with_slug, is_content_name, lemma_no_drafts_published,
    posts_of, published_posts, ContentFile,
};
use crate::text::chars_of;

verus! {

pub open spec fn has_suffix(s: Seq<char>, p: Seq<char>) -> bool {
    p.len() <= s.len() && s.skip(s.len() - p.len()) == p
}

pub open spec fn has_infix(s: Seq<char>, p: Seq<char>) -> bool {
    exists|i: int| 0 <= i && i + p.len() <= s.len() && #[trigger] s.subrange(i, i + p.len()) == p
}

/// The back-link label: `Back` for a referrer that ends in `/` or
/// `/index.html` and holds no `/posts/`, `Home` otherwise and where there is
/// no referrer.
pub open spec fn back_label(referer: Option<Seq<char>>) -> Seq<char> {
    match referer {
        Some(r) => if (has_suffix(r, "/"@) || has_suffix(r, "/index.html"@)) && !has_infix(
            r,
            "/posts/"@,
        ) {
            "Back"@
        } else {
            "Home"@
        },
        None => "Home"@,
    }
}

pub open spec fn str_opt(o: Option<&str>) -> Option<Seq<char>> {
    match o {
        Some(s) => Some(s@),
        None => None,
    }
}

fn ends_with(s: &Vec<char>, p: &Vec<char>) -> (r: bool)
    ensures
        r == has_suffix(s@, p@),
{
    if p.len() > s.len() {
        return false;
    }
    let off = s.len() - p.len();
    let mut i: usize = 0;
    while i < p.len()
        invariant
            off + p.len() == s.len(),
            i <= p.len(),
            forall|j: int| 0 <= j < i ==> s@[off + j] == p@[j],
        decreases p.len() - i,
    {
        if s[off + i] != p[i] {
            assert(s@.skip(off as int)[i as int] == s@[off + i]);
            return false;
        }
        i += 1;
    }
    assert(s@.skip(off as int) =~= p@);
    true
}

fn contains_text(s: &Vec<char>, p: &Vec<char>) -> (r: bool)
    ensures
        r == has_infix(s@, p@),
{
    if p.len() > s.len() {
        return false;
    }
    let mut i: usize = 0;
    while i <= s.len() - p.len()
        invariant
            p.len() <= s.len(),
            i <= s.len() - p.len() + 1,
            forall|k: int| 0 <= k < i ==> #[trigger] s@.subrange(k, k + p.len()) != p@,
        decreases s.len() - i,
    {
        let mut j: usize = 0;
        let mut same = true;
        while j < p.len()
            invariant
                i + p.len() <= s.len(),
                j <= p.len(),
                same == (forall|m: int| 0 <= m < j ==> s@[i + m] == p@[m]),
            decreases p.len() - j,
        {
            if s[i + j] != p[j] {
                same = false;
            }
            j += 1;
        }
        if same {
            assert(s@.subrange(i as int, i + p.len()) =~= p@);
            return true;
        }
        proof {
            if s@.subrange(i as int, i + p.len()) == p@ {
                assert forall|m: int| 0 <= m < p.len() implies s@[i + m] == p@[m] by {
                    assert(s@.subrange(i as int, i + p.len())[m] == s@[i + m]);
                }
            }
        }
        i += 1;
    }
    false
}

/// The back-link label for a request with this `Referer` header, if any.
pub fn back_label_from_referer(referer: Option<&str>) -> (r: String)
    ensures
        r@ == back_label(str_opt(referer)),
{
    match referer {
        Some(r) => {
            let text = chars_of(r);
            let is_root = ends_with(&text, &chars_of("/")) || ends_with(&text, &chars_of("/index.html"));
            if is_root && !contains_text(&text, &chars_of("/posts/")) {
                "Back".to_owned()
            } else {
                "Home".to_owned()
            }
        },
        None => "Home".to_owned(),
    }
}

/// The answer to a live request: a page, and whether it is the thing asked
/// for (else it is the not-found page, sent with a not-found status).
pub struct Page {
    pub found: bool,
    pub html: String,
}

/// The index of a site: its published posts in listing order.
pub open spec fn published_listing(files: Seq<ContentFile>) -> Seq<PostView> {
    listing(posts_of(files, false))
}

/// Every post of a site, drafts too, in listing order.
pub open spec fn full_listing(files: Seq<ContentFile>) -> Seq<PostView> {
    listing(posts_of(files, true))
}

/// The index page of the published posts.
pub fn index_page(files: &Vec<ContentFile>) -> (r: String)
    ensures
        r@ == index_html(published_listing(files@)),
{
    let posts = published_posts(files);
    render_index(&posts)
}

/// The answer to a request for a post by slug: its page where the first
/// file with that slug holds a post that is not a draft, else not found.
pub fn post_page(files: &Vec<ContentFile>, slug: &str, referer: Option<&str>) -> (r: Page)
    ensures
        match first_with_slug(files@, slug@) {
            Some(p) => if !p.draft {
                r.found && r.html@ == post_html(p, back_label(str_opt(referer)))
            } else {
                !r.found && r.html@ == NOT_FOUND_PAGE@
            },
            None => !r.found && r.html@ == NOT_FOUND_PAGE@,
        },
{
    match find_post_by_slug(files, slug) {
        Some(post) => {
            if !post.draft {
                let label = back_label_from_referer(referer);
                Page { found: true, html: render_post(&post, label.as_str()) }
            } else {
                not_found_page()
            }
        },
        None => not_found_page(),
    }
}

/// The answer to a request for a draft by slug: the page of the first post
/// with that slug, draft or not, else not found.
pub fn draft_page(files: &Vec<ContentFile>, slug: &str, referer: Option<&str>) -> (r: Page)
    ensures
        match first_with_slug(files@, slug@) {
            Some(p) => r.found && r.html@ == post_html(p, back_label(str_opt(referer))),
            None => !r.found && r.html@ == NOT_FOUND_PAGE@,
        },
{
    match find_post_by_slug(files, slug) {
        Some(post) => {
            let label = back_label_from_referer(referer);
            Page { found: true, html: render_post(&post, label.as_str()) }
        },
        None => not_found_page(),
    }
}

/// The answer to a request for anything else.
pub fn not_found_page() -> (r: Page)
    ensures
        !r.found,
        r.html@ == NOT_FOUND_PAGE@,
{
    Page { found: false, html: render_not_found() }
}

/// One file of an export: its path under the output directory, and its
/// text.
pub struct OutputFile {
    pub path: String,
    pub contents: String,
}

pub open spec fn section(p: PostView) -> Seq<char> {
    if p.draft {
        "drafts/"@
    } else {
        "posts/"@
    }
}

pub open spec fn dir_page_path(p: PostView) -> Seq<char> {
    section(p) + p.slug + "/index.html"@
}

pub open spec fn flat_page_path(p: PostView) -> Seq<char> {
    section(p) + p.slug + ".html"@
}

pub open spec fn post_files(s: Seq<PostView>) -> Seq<(Seq<char>, Seq<char>)>
    decreases s.len(),
{
    if s.len() == 0 {
        seq![]
    } else {
        let p = s.last();
        let html = post_html(p, "Home"@);
        post_files(s.drop_last()) + seq![(dir_page_path(p), html), (flat_page_path(p), html)]
    }
}

/// The files of an export: the index of `index`, then two copies of each
/// post's page, with `Home` as its back-link label.
pub open spec fn export_layout(index: Seq<PostView>, posts: Seq<PostView>) -> Seq<
    (Seq<char>, Seq<char>),
> {
    seq![("index.html"@, index_html(index))] + post_files(posts)
}

pub open spec fn output_views(v: Seq<OutputFile>) -> Seq<(Seq<char>, Seq<char>)> {
    v.map_values(|f: OutputFile| (f.path@, f.contents@))
}

/// The files of a static export: `index.html` listing the published posts,
/// and for every post, drafts too, its page under `<section><slug>/index.html`
/// and `<section><slug>.html`, where the section is `drafts/` for a draft and
/// `posts/` otherwise.
pub fn export_site(files: &Vec<ContentFile>) -> (r: Vec<OutputFile>)
    ensures
        output_views(r@) == export_layout(published_listing(files@), full_listing(files@)),
{
    let published = published_posts(files);
    let posts = all_posts(files);
    let mut out: Vec<OutputFile> = Vec::new();
    out.push(OutputFile { path: "index.html".to_owned(), contents: render_index(&published) });
    let ghost s = post_views(posts@);
    let mut i: usize = 0;
    assert(output_views(out@) =~= seq![("index.html"@, index_html(post_views(published@)))]);
    assert(s.take(0) =~= Seq::<PostView>::empty());
    while i < posts.len()
        invariant
            i <= posts.len(),
            s == post_views(posts@),
            output_views(out@) == seq![("index.html"@, index_html(post_views(published@)))]
                + post_files(s.take(i as int)),
        decreases posts.len() - i,
    {
        let post = &posts[i];
        assert(s.take(i + 1).drop_last() =~= s.take(i as int));
        assert(s.take(i + 1).last() == post@);
        let html = render_post(post, "Home");
        let sect = if post.draft {
            "drafts/"
        } else {
            "posts/"
        };
        let mut dir_path = String::new();
        dir_path.append(sect);
        dir_path.append(post.slug.as_str());
        dir_path.append("/index.html");
        let mut flat_path = String::new();
        flat_path.append(sect);
        flat_path.append(post.slug.as_str());
        flat_path.append(".html");
        let copy = html.clone();
        let ghost before = out@;
        out.push(OutputFile { path: dir_path, contents: html });
        out.push(OutputFile { path: flat_path, contents: copy });
        assert(output_views(out@) =~= output_views(before) + seq![
            (dir_page_path(post@), post_html(post@, "Home"@)),
            (flat_page_path(post@), post_html(post@, "Home"@)),
        ]);
        i += 1;
    }
    assert(s.take(posts.len() as int) =~= s);
    assert(output_views(out@) == export_layout(post_views(published@), s));
    out
}

proof fn lemma_post_files_at(s: Seq<PostView>, i: int)
    requires
        0 <= i < s.len(),
    ensures
        post_files(s).len() == 2 * s.len(),
        post_files(s)[2 * i] == (dir_page_path(s[i]), post_html(s[i], "Home"@)),
        post_files(s)[2 * i + 1] == (flat_page_path(s[i]), post_html(s[i], "Home"@)),
    decreases s.len(),
{
    lemma_post_files_len(s.drop_last());
    if i < s.len() - 1 {
        lemma_post_files_at(s.drop_last(), i);
    }
}

proof fn lemma_post_files_len(s: Seq<PostView>)
    ensures
        post_files(s).len() == 2 * s.len(),
    decreases s.len(),
{
    if s.len() > 0 {
        lemma_post_files_len(s.drop_last());
    }
}

/// The post, if any, that one file contributes to `posts_of`.
pub open spec fn file_post(f: ContentFile, with_drafts: bool) -> Seq<PostView> {
    if is_content_name(f.name@) {
        match parse_spec(f.contents@) {
            Some(p) => if with_drafts || !p.draft {
                seq![p]
            } else {
                seq![]
            },
            None => seq![],
        }
    } else {
        seq![]
    }
}

proof fn lemma_posts_of_front(files: Seq<ContentFile>, w: bool)
    requires
        files.len() > 0,
    ensures
        posts_of(files, w) == file_post(files[0], w) + posts_of(files.drop_first(), w),
    decreases files.len(),
{
    if files.len() == 1 {
        assert(files.drop_last() =~= Seq::<ContentFile>::empty());
        assert(files.drop_first() =~= Seq::<ContentFile>::empty());
        assert(posts_of(files.drop_last(), w) =~= Seq::<PostView>::empty());
        assert(files.last() == files[0]);
        if is_content_name(files[0].name@) {
            match parse_spec(files[0].contents@) {
                Some(p) => {
                    assert(Seq::<PostView>::empty().push(p) =~= seq![p]);
                },
                None => {},
            }
        }
        assert(posts_of(files, w) =~= file_post(files[0], w) + posts_of(files.drop_first(), w));
    } else {
        lemma_posts_of_front(files.drop_last(), w);
        assert(files.drop_last().drop_first() =~= files.drop_first().drop_last());
        assert(files.drop_last()[0] == files[0]);
        assert(files.drop_first().last() == files.last());
        let a = file_post(files[0], w);
        let b = posts_of(files.drop_first().drop_last(), w);
        if is_content_name(files.last().name@) {
            match parse_spec(files.last().contents@) {
                Some(p) => {
                    assert((a + b).push(p) =~= a + b.push(p));
                },
                None => {},
            }
        }
    }
}

proof fn lemma_first_is_a_post(files: Seq<ContentFile>, slug: Seq<char>)
    requires
        first_with_slug(files, slug) is Some,
    ensures
        posts_of(files, true).contains(first_with_slug(files, slug)->0),
        first_with_slug(files, slug)->0.slug == slug,
    decreases files.len(),
{
    let p = first_with_slug(files, slug)->0;
    lemma_posts_of_front(files, true);
    let head = file_post(files[0], true);
    let tail = posts_of(files.drop_first(), true);
    if is_content_name(files[0].name@) && (parse_spec(files[0].contents@) matches Some(q)
        && q.slug == slug) {
        assert((head + tail)[0] == p);
    } else {
        lemma_first_is_a_post(files.drop_first(), slug);
        let i = choose|i: int| 0 <= i < tail.len() && tail[i] == p;
        assert((head + tail)[head.len() + i] == p);
    }
}

/// A draft is never in the published listing, and so never on the index
/// page; every draft is in the export, under `drafts/`, in both its copies,
/// each holding its page with `Home` as the back-link label.
pub proof fn lemma_draft_isolation(files: Seq<ContentFile>, p: PostView)
    requires
        p.draft,
        posts_of(files, true).contains(p),
    ensures
        !published_listing(files).contains(p),
        exists|i: int|
            0 <= i < full_listing(files).len() && full_listing(files)[i] == p
                && #[trigger] export_layout(published_listing(files), full_listing(files))[1 + 2
                * i] == ("drafts/"@ + p.slug + "/index.html"@, post_html(p, "Home"@))
                && export_layout(published_listing(files), full_listing(files))[2 + 2 * i] == (
                "drafts/"@ + p.slug + ".html"@,
                post_html(p, "Home"@),
            ),
{
    broadcast use vstd::seq_lib::group_to_multiset_ensures;

    let index = published_listing(files);
    let posts = full_listing(files);
    lemma_listing(posts_of(files, false));
    lemma_listing(posts_of(files, true));
    if index.contains(p) {
        assert(index.to_multiset().count(p) > 0);
        assert(posts_of(files, false).contains(p));
        lemma_no_drafts_published(files, p);
    }
    assert(posts_of(files, true).to_multiset().count(p) > 0);
    assert(posts.contains(p));
    let i = choose|i: int| 0 <= i < posts.len() && posts[i] == p;
    lemma_post_files_at(posts, i);
    let out = export_layout(index, posts);
    assert(out[1 + 2 * i] == post_files(posts)[2 * i]);
    assert(out[2 + 2 * i] == post_files(posts)[2 * i + 1]);
}

/// The export's `index.html` is the live index page.
pub proof fn lemma_export_index_is_live(files: Seq<ContentFile>)
    ensures
        export_layout(published_listing(files), full_listing(files))[0] == (
            "index.html"@,
            index_html(published_listing(files)),
        ),
{
}

/// For a published post found by its slug, both export copies hold the same
/// page, and it is the live page of that slug for a request without a
/// referrer.
pub proof fn lemma_export_matches_live(files: Seq<ContentFile>, slug: Seq<char>)
    requires
        first_with_slug(files, slug) matches Some(p) && !p.draft,
    ensures
        exists|i: int|
            0 <= i < full_listing(files).len() && full_listing(files)[i] == first_with_slug(
                files,
                slug,
            )->0 && #[trigger] export_layout(published_listing(files), full_listing(files))[1 + 2
                * i] == ("posts/"@ + slug + "/index.html"@, post_html(
                first_with_slug(files, slug)->0,
                back_label(None),
            )) && export_layout(published_listing(files), full_listing(files))[2 + 2 * i] == (
                "posts/"@ + slug + ".html"@,
                post_html(first_with_slug(files, slug)->0, back_label(None)),
            ),
{
    broadcast use vstd::seq_lib::group_to_multiset_ensures;

    let p = first_with_slug(files, slug)->0;
    let index = published_listing(files);
    let posts = full_listing(files);
    lemma_listing(posts_of(files, true));
    lemma_first_is_a_post(files, slug);
    assert(posts_of(files, true).to_multiset().count(p) > 0);
    assert(posts.contains(p));
    let i = choose|i: int| 0 <= i < posts.len() && posts[i] == p;
    lemma_post_files_at(posts, i);
    let out = export_layout(index, posts);
    assert(out[1 + 2 * i] == post_files(posts)[2 * i]);
    assert(out[2 + 2 * i] == post_files(posts)[2 * i + 1]);
}

} // verus!
