//! The HTML pages: the index, a post, and the not-found page.

use vstd::prelude::*;
use crate::date::{display_date, format_date_full};
use crate::order::post_views;
use crate::post::{Post, PostView};

verus! {

/// The index page up to the prefetch hints.
pub const INDEX_HEAD: &'static str = r#"<!doctype html>
<html lang="en">
<head>
  <meta charset="utf-8" />
  <meta name="viewport" content="width=device-width, initial-scale=1" />
  <title>Fragments</title>
  <link rel="icon" href="/favicon.ico" sizes="any" />
  <link rel="icon" href="/assets/favicons/favicon.svg" type="image/svg+xml" />
  <link rel="apple-touch-icon" href="/assets/favicons/apple-touch-icon.png" />
  <link rel="manifest" href="/assets/favicons/site.webmanifest" />
  <link rel="preconnect" href="https://fonts.googleapis.com" />
  <link rel="preconnect" href="https://fonts.gstatic.com" crossorigin />
  <link href="https://fonts.googleapis.com/css2?family=Instrument+Serif:ital@0;1&family=PT+Sans+Narrow:wght@400;700&display=swap" rel="stylesheet" />
  "#;

/// The index page between the prefetch hints and the list.
pub const INDEX_STYLE: &'static str = r#"
  <style>
    :root {
      color-scheme: light;
    }
    body {
      margin: 0;
      padding: 72px 20px 48px;
      font-family: "PT Sans Narrow", sans-serif;
      font-weight: 400;
      background: #ffffff;
      color: #141311;
    }
    main {
      max-width: 720px;
      margin: 0 auto 35vh;
    }
    h1 {
      font-family: "Instrument Serif", serif;
      font-size: 3rem;
      margin: 0 0 24px;
      letter-spacing: -0.01em;
      line-height: 1.3;
    }
    .post-list {
      list-style: none;
      padding: 0;
      margin: 0;
      display: grid;
      gap: 16px;
    }
    .post-list li {
      display: flex;
      flex-wrap: wrap;
      gap: 8px 16px;
      align-items: baseline;
      justify-content: space-between;
      padding: 12px 0;
      border-bottom: 1px solid #e7e5e4;
    }
    .post-list a {
      font-family: "Instrument Serif", serif;
      font-size: 1.5rem;
      color: inherit;
      text-decoration: none;
    }
    .post-list span {
      opacity: 0.65;
    }
    @media (max-width: 640px) {
      body {
        padding: 32px 16px;
      }
      h1 {
        font-size: 2.4rem;
      }
      .post-list a {
        font-size: 1.3rem;
      }
    }
  </style>
</head>
<body>
  <main>
    <h1>Fragments</h1>
    "#;

/// The end of the index page.
pub const INDEX_TAIL: &'static str = r#"
  </main>
</body>
</html>"#;

/// A post page up to its title in the head.
pub const POST_HEAD: &'static str = r#"<!doctype html>
<html lang="en">
<head>
  <meta charset="utf-8" />
  <meta name="viewport" content="width=device-width, initial-scale=1" />
  <title>"#;

/// A post page from the end of the head title to the heading.
pub const POST_STYLE: &'static str = r#"</title>
  <link rel="icon" href="/favicon.ico" sizes="any" />
  <link rel="icon" href="/assets/favicons/favicon.svg" type="image/svg+xml" />
  <link rel="apple-touch-icon" href="/assets/favicons/apple-touch-icon.png" />
  <link rel="manifest" href="/assets/favicons/site.webmanifest" />
  <link rel="preconnect" href="https://fonts.googleapis.com" />
  <link rel="preconnect" href="https://fonts.gstatic.com" crossorigin />
  <link href="https://fonts.googleapis.com/css2?family=Instrument+Serif:ital@0;1&family=PT+Sans+Narrow:wght@400;700&display=swap" rel="stylesheet" />
  <style>
    :root {
      color-scheme: light;
    }
    body {
      margin: 0;
      padding: 48px 20px;
      font-family: "PT Sans Narrow", sans-serif;
      background: #ffffff;
      color: #1c1917;
    }
    article {
      max-width: 720px;
      margin: 0 auto;
      line-height: 1.7;
      font-size: 20px;
      padding-bottom: 24px;
    }
    header {
      margin-bottom: 32px;
      padding-top: 16px;
    }
    h1 {
      font-family: "Instrument Serif", serif;
      font-size: 3rem;
      margin: 0 0 8px;
      letter-spacing: -0.01em;
      line-height: 1.3;
    }
    h2 {
      font-family: "Instrument Serif", serif;
      font-size: 2rem;
      margin: 32px 0 12px;
      letter-spacing: -0.01em;
    }
    .subtitle {
      font-family: "Instrument Serif", serif;
      font-size: 1.6rem;
      font-weight: 400;
      margin: 0 0 16px;
      color: #292524;
    }
    p {
      margin: 0 0 16px;
    }
    header p {
      opacity: 0.65;
      margin-bottom: 36px;
    }
    a {
      color: inherit;
    }
    pre, code {
      font-family: "SFMono-Regular", Menlo, Monaco, Consolas, "Liberation Mono", monospace;
    }
    pre {
      background: #efe6d6;
      padding: 16px;
      overflow-x: auto;
    }
    .post-footer {
      margin-top: 200px;
      text-align: center;
    }
    .post-body {
      color: #1c1917;
    }
    .post-body p {
      color: rgba(28, 25, 23, 0.7);
      font-weight: 300;
    }
    .back-link {
      display: inline-block;
      font-family: "Instrument Serif", serif;
      font-size: 1.1rem;
      font-style: italic;
      color: inherit;
      text-decoration: none;
      padding: 4px 0;
      border: none;
    }
    @media (max-width: 640px) {
      body {
        padding: 32px 16px;
      }
      article {
        font-size: 18px;
      }
      h1 {
        font-size: 2.4rem;
      }
    }
    @media print {
      @page {
        margin: 1in 1.5in;
      }
      body {
        padding: 0;
      }
      article {
        font-size: 14px;
        line-height: 1.6;
        padding-bottom: 0;
      }
      header {
        margin-bottom: 20px;
      }
      h1 {
        font-size: 2.1rem;
      }
      h2 {
        break-after: avoid;
        page-break-after: avoid;
      }
      h2 {
        font-size: 1.4rem;
      }
      .subtitle {
        font-size: 1.12rem;
      }
      .post-footer {
        display: none;
      }
    }
  </style>
</head>
<body>
  <article>
    <header>
      <h1>"#;

/// A post page between the heading and the subtitle.
pub const POST_AFTER_TITLE: &'static str = r#"</h1>
      "#;

/// A post page between the subtitle and the date.
pub const POST_BEFORE_DATE: &'static str = r#"
      <p>"#;

/// A post page between the date and the body.
pub const POST_AFTER_DATE: &'static str = r#"</p>
    </header>
    <div class="post-body">
      "#;

/// A post page between the body and the back-link label.
pub const POST_AFTER_BODY: &'static str = r#"
    </div>
    <div class="post-footer">
      <a class="back-link" href="/">- "#;

/// The end of a post page.
pub const POST_TAIL: &'static str = r#" -</a>
    </div>
  </article>
</body>
</html>"#;

/// The page for anything that is not found.
pub const NOT_FOUND_PAGE: &'static str = r#"<!doctype html>
<html lang="en">
<head>
  <meta charset="utf-8" />
  <meta name="viewport" content="width=device-width, initial-scale=1" />
  <title>Not found</title>
  <link rel="icon" href="/favicon.ico" sizes="any" />
  <link rel="icon" href="/assets/favicons/favicon.svg" type="image/svg+xml" />
  <link rel="apple-touch-icon" href="/assets/favicons/apple-touch-icon.png" />
  <link rel="manifest" href="/assets/favicons/site.webmanifest" />
  <link rel="preconnect" href="https://fonts.googleapis.com" />
  <link rel="preconnect" href="https://fonts.gstatic.com" crossorigin />
  <link href="https://fonts.googleapis.com/css2?family=Instrument+Serif:ital@0;1&family=PT+Sans+Narrow:wght@400;700&display=swap" rel="stylesheet" />
  <style>
    :root {
      color-scheme: light;
    }
    body {
      margin: 0;
      padding: 72px 20px 48px;
      font-family: "PT Sans Narrow", sans-serif;
      font-weight: 400;
      background: #ffffff;
      color: #141311;
      width: 100vw;
      height: 100vh;
      overflow: hidden;
      display: flex;
      align-items: center;
      justify-content: center;
    }
    main {
      max-width: 720px;
      margin: 0 auto;
      text-align: center;
      transform: translateY(-12px);
    }
    h1 {
      font-family: "Instrument Serif", serif;
      font-size: 3rem;
      margin: 0 0 8px;
      letter-spacing: -0.01em;
      line-height: 1.3;
    }
    .back-link {
      display: inline-block;
      font-family: "Instrument Serif", serif;
      font-size: 1.1rem;
      font-style: italic;
      color: inherit;
      text-decoration: none;
      padding: 4px 0;
    }
  </style>
</head>
<body>
  <main>
    <h1>Not found</h1>
    <a class="back-link" href="/">- Home -</a>
  </main>
</body>
</html>"#;

pub const PREFETCH_OPEN: &'static str = r#"<link rel="prefetch" href="/posts/"#;

pub const PREFETCH_CLOSE: &'static str = r#"" />"#;

pub const ITEM_OPEN: &'static str = r#"<li><a href="/posts/"#;

pub const ITEM_TITLE: &'static str = r#"">"#;

pub const ITEM_DATE: &'static str = "</a><span>";

pub const ITEM_CLOSE: &'static str = "</span></li>";

pub const EMPTY_LIST: &'static str = "<p>No posts yet.</p>";

pub const LIST_OPEN: &'static str = r#"<ul class="post-list">"#;

pub const LIST_CLOSE: &'static str = "</ul>";

pub const SUBTITLE_OPEN: &'static str = r#"<h2 class="subtitle">"#;

pub const SUBTITLE_CLOSE: &'static str = "</h2>";

/// How `html_escape::encode_text` writes one character.
pub open spec fn escaped_char(c: char) -> Seq<char> {
    if c == '&' {
        "&amp;"@
    } else if c == '<' {
        "&lt;"@
    } else if c == '>' {
        "&gt;"@
    } else {
        seq![c]
    }
}

/// Text made safe to stand between HTML tags: `&`, `<` and `>` become
/// entities, every other character stays.
pub open spec fn escaped(s: Seq<char>) -> Seq<char>
    decreases s.len(),
{
    if s.len() == 0 {
        seq![]
    } else {
        escaped(s.drop_last()) + escaped_char(s.last())
    }
}

/// The HTML that pulldown-cmark makes of a markdown text, with tables and
/// strikethrough on.
pub uninterp spec fn markdown_html(src: Seq<char>) -> Seq<char>;

/// Relies on `html_escape::encode_text`, which replaces `&`, `<` and `>`
/// with `&amp;`, `&lt;` and `&gt;` and copies every other character.
#[verifier::external_body]
fn encode_text(s: &str) -> (r: String)
    ensures
        r@ == escaped(s@),
{
    html_escape::encode_text(s).into_owned()
}

/// Relies on pulldown-cmark's `Parser::new_ext`, with tables and
/// strikethrough enabled, and `html::push_html` into an empty string.
#[verifier::external_body]
fn markdown_to_html(src: &str) -> (r: String)
    ensures
        r@ == markdown_html(src@),
{
    let options = pulldown_cmark::Options::ENABLE_TABLES
        | pulldown_cmark::Options::ENABLE_STRIKETHROUGH;
    let parser = pulldown_cmark::Parser::new_ext(src, options);
    let mut out = String::new();
    pulldown_cmark::html::push_html(&mut out, parser);
    out
}

pub open spec fn prefetch_hint(p: PostView) -> Seq<char> {
    PREFETCH_OPEN@ + escaped(p.slug) + PREFETCH_CLOSE@
}

pub open spec fn list_item(p: PostView) -> Seq<char> {
    ITEM_OPEN@ + escaped(p.slug) + ITEM_TITLE@ + escaped(p.title) + ITEM_DATE@ + escaped(
        display_date(p.date),
    ) + ITEM_CLOSE@
}

pub open spec fn prefetch_hints(s: Seq<PostView>) -> Seq<char>
    decreases s.len(),
{
    if s.len() == 0 {
        seq![]
    } else {
        prefetch_hints(s.drop_last()) + prefetch_hint(s.last())
    }
}

pub open spec fn list_items(s: Seq<PostView>) -> Seq<char>
    decreases s.len(),
{
    if s.len() == 0 {
        seq![]
    } else {
        list_items(s.drop_last()) + list_item(s.last())
    }
}

/// The index page listing the posts in the order given.
pub open spec fn index_html(s: Seq<PostView>) -> Seq<char> {
    let list = if s.len() == 0 {
        EMPTY_LIST@
    } else {
        LIST_OPEN@ + list_items(s) + LIST_CLOSE@
    };
    INDEX_HEAD@ + prefetch_hints(s) + INDEX_STYLE@ + list + INDEX_TAIL@
}

pub open spec fn subtitle_html(sub: Option<Seq<char>>) -> Seq<char> {
    match sub {
        Some(t) => SUBTITLE_OPEN@ + escaped(t) + SUBTITLE_CLOSE@,
        None => seq![],
    }
}

/// The page of one post, with `label` as the text of its back link.
pub open spec fn post_html(p: PostView, label: Seq<char>) -> Seq<char> {
    POST_HEAD@ + escaped(p.title) + POST_STYLE@ + escaped(p.title) + POST_AFTER_TITLE@
        + subtitle_html(p.subtitle) + POST_BEFORE_DATE@ + escaped(display_date(p.date))
        + POST_AFTER_DATE@ + markdown_html(p.body) + POST_AFTER_BODY@ + escaped(label)
        + POST_TAIL@
}

/// The index page: a prefetch hint and a list entry (link, title and date)
/// for each post in the order given, or a placeholder where there are none.
pub fn render_index(posts: &Vec<Post>) -> (r: String)
    ensures
        r@ == index_html(post_views(posts@)),
{
    let ghost s = post_views(posts@);
    let mut hints = String::new();
    let mut items = String::new();
    let mut i: usize = 0;
    assert(s.take(0) =~= Seq::<PostView>::empty());
    while i < posts.len()
        invariant
            i <= posts.len(),
            s == post_views(posts@),
            hints@ == prefetch_hints(s.take(i as int)),
            items@ == list_items(s.take(i as int)),
        decreases posts.len() - i,
    {
        let post = &posts[i];
        assert(s.take(i + 1).drop_last() =~= s.take(i as int));
        assert(s.take(i + 1).last() == post@);
        let slug = encode_text(post.slug.as_str());
        let title = encode_text(post.title.as_str());
        let date = encode_text(format_date_full(post.date.as_str()).as_str());
        hints.append(PREFETCH_OPEN);
        hints.append(slug.as_str());
        hints.append(PREFETCH_CLOSE);
        items.append(ITEM_OPEN);
        items.append(slug.as_str());
        items.append(ITEM_TITLE);
        items.append(title.as_str());
        items.append(ITEM_DATE);
        items.append(date.as_str());
        items.append(ITEM_CLOSE);
        i += 1;
    }
    assert(s.take(posts.len() as int) =~= s);
    let mut out = String::new();
    out.append(INDEX_HEAD);
    out.append(hints.as_str());
    out.append(INDEX_STYLE);
    if posts.len() == 0 {
        out.append(EMPTY_LIST);
    } else {
        out.append(LIST_OPEN);
        out.append(items.as_str());
        out.append(LIST_CLOSE);
    }
    out.append(INDEX_TAIL);
    out
}

/// The page of one post: title, subtitle where there is one, the date, the
/// body as HTML, and a back link whose text is `back_label`.
pub fn render_post(post: &Post, back_label: &str) -> (r: String)
    ensures
        r@ == post_html(post@, back_label@),
{
    let body = markdown_to_html(post.body.as_str());
    let title = encode_text(post.title.as_str());
    let date = encode_text(format_date_full(post.date.as_str()).as_str());
    let mut sub = String::new();
    match &post.subtitle {
        Some(t) => {
            sub.append(SUBTITLE_OPEN);
            sub.append(encode_text(t.as_str()).as_str());
            sub.append(SUBTITLE_CLOSE);
        },
        None => {},
    }
    let label = encode_text(back_label);
    let mut out = String::new();
    out.append(POST_HEAD);
    out.append(title.as_str());
    out.append(POST_STYLE);
    out.append(title.as_str());
    out.append(POST_AFTER_TITLE);
    out.append(sub.as_str());
    out.append(POST_BEFORE_DATE);
    out.append(date.as_str());
    out.append(POST_AFTER_DATE);
    out.append(body.as_str());
    out.append(POST_AFTER_BODY);
    out.append(label.as_str());
    out.append(POST_TAIL);
    out
}

/// The not-found page; it takes no post data.
pub fn render_not_found() -> (r: String)
    ensures
        r@ == NOT_FOUND_PAGE@,
{
    NOT_FOUND_PAGE.to_owned()
}

} // verus!
