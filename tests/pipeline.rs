use fragments::date::{format_date_full, CalendarDate};
use fragments::order::precedes;
use fragments::post::parse_post;
use fragments::render::{render_index, render_not_found, render_post};
use fragments::repo::{all_posts, find_post_by_slug, is_content_file, published_posts, ContentFile};
use fragments::site::{back_label_from_referer, draft_page, export_site, index_page, not_found_page, post_page};
use fragments::slug::slugify_kebab;

fn file(name: &str, contents: &str) -> ContentFile {
    ContentFile { name: name.to_string(), contents: contents.to_string() }
}

fn is_slug_shape(s: &str) -> bool {
    if s.is_empty() {
        return true;
    }
    let ok_chars = s.chars().all(|c| c.is_ascii_lowercase() || c.is_ascii_digit() || c == '-');
    ok_chars && !s.starts_with('-') && !s.ends_with('-') && !s.contains("--")
}

#[test]
fn slugify_basic_title() {
    assert_eq!(slugify_kebab("Hello World"), "hello-world");
}

#[test]
fn slugify_collapses_and_trims_punctuation() {
    assert_eq!(slugify_kebab("--Hello,   World!--"), "hello-world");
    assert_eq!(slugify_kebab("Rust 2024: what's new?"), "rust-2024-what-s-new");
}

#[test]
fn slugify_drops_non_ascii_letters() {
    assert_eq!(slugify_kebab("Ünïcode Title"), "n-code-title");
}

#[test]
fn slugify_empty_and_punctuation_only() {
    assert_eq!(slugify_kebab(""), "");
    assert_eq!(slugify_kebab("!!! ???"), "");
}

#[test]
fn slugify_is_idempotent_on_examples() {
    for input in ["Hello World", "  A--B  ", "Ünïcode Title", "x", "", "2024 -- Review!", "<script>"] {
        let once = slugify_kebab(input);
        assert_eq!(slugify_kebab(&once), once);
        assert!(is_slug_shape(&once));
    }
}

#[test]
fn parse_header_example() {
    let post = parse_post("Title: Hello World\nDate: 2024-03-05\n---\n# Hi").unwrap();
    assert_eq!(post.title, "Hello World");
    assert_eq!(post.date, "2024-03-05");
    assert_eq!(post.slug, "hello-world");
    assert!(!post.draft);
    assert_eq!(post.subtitle, None);
    assert_eq!(post.body, "# Hi");
}

#[test]
fn parse_is_repeatable() {
    let text = "Title: A\nSubtitle: B\nDate: 2024-01-01\nDraft: yes\n---\nbody\n\nmore";
    let a = parse_post(text).unwrap();
    let b = parse_post(text).unwrap();
    assert_eq!(a.title, b.title);
    assert_eq!(a.subtitle, b.subtitle);
    assert_eq!(a.date, b.date);
    assert_eq!(a.slug, b.slug);
    assert_eq!(a.draft, b.draft);
    assert_eq!(a.body, b.body);
}

#[test]
fn parse_requires_title_and_date() {
    assert!(parse_post("Date: 2024-01-01\n---\nx").is_none());
    assert!(parse_post("Title: T\n---\nx").is_none());
    assert!(parse_post("").is_none());
}

#[test]
fn parse_rejects_blank_title_or_date() {
    assert!(parse_post("Title: \nDate: 2024-01-01\n---\n").is_none());
    assert!(parse_post("Title:    \nDate: 2024-01-01\n---\nbody").is_none());
    assert!(parse_post("Title: T\nDate:  \n---\n").is_none());
    assert!(parse_post("Title: \nTitle: Later\nDate: 2024-01-01\n").is_some());
}

#[test]
fn parse_without_separator_has_empty_body() {
    let post = parse_post("Title: T\nDate: 2024-01-01\nsome text").unwrap();
    assert_eq!(post.body, "");
}

#[test]
fn parse_body_keeps_lines_and_ignores_headers_after_separator() {
    let post = parse_post("Title: T\nDate: d\n  ---  \nTitle: Other\n\nline\r\nend\n").unwrap();
    assert_eq!(post.title, "T");
    assert_eq!(post.body, "Title: Other\n\nline\nend");
}

#[test]
fn parse_trims_values_and_ignores_unknown_keys() {
    let post = parse_post("Author: me\nTitle:   Spaced   \nDate:  2024-02-02 \n---\n").unwrap();
    assert_eq!(post.title, "Spaced");
    assert_eq!(post.date, "2024-02-02");
    assert_eq!(post.body, "");
}

#[test]
fn parse_draft_flag_values() {
    let yes = parse_post("Title: T\nDate: d\nDraft: YES\n").unwrap();
    assert!(yes.draft);
    let t = parse_post("Title: T\nDate: d\nDraft:True\n").unwrap();
    assert!(t.draft);
    let no = parse_post("Title: T\nDate: d\nDraft: maybe\n").unwrap();
    assert!(!no.draft);
}

#[test]
fn parse_subtitle_blank_is_absent() {
    let post = parse_post("Title: T\nDate: d\nSubtitle:    \n").unwrap();
    assert_eq!(post.subtitle, None);
    let post = parse_post("Title: T\nDate: d\nSubtitle:  Sub  \n").unwrap();
    assert_eq!(post.subtitle, Some("Sub".to_string()));
}

#[test]
fn parse_slug_override() {
    let post = parse_post("Title: T\nDate: d\nSlug: My Custom Slug\n").unwrap();
    assert_eq!(post.slug, "my-custom-slug");
    let blank = parse_post("Title: Fallback Title\nDate: d\nSlug:   \n").unwrap();
    assert_eq!(blank.slug, "fallback-title");
}

#[test]
fn slug_injection_guard() {
    let post = parse_post("Title: Safe Title\nDate: 2024-01-01\nSlug: <script>\n---\n").unwrap();
    assert_eq!(post.slug, "safe-title");
    assert!(!post.slug.contains('<') && !post.slug.contains('>'));
    let post = parse_post("Title: Safe Title\nDate: 2024-01-01\nSlug: a>b\n---\n").unwrap();
    assert_eq!(post.slug, "safe-title");
}

#[test]
fn date_in_words() {
    assert_eq!(format_date_full("2024-03-05"), "March 5, 2024");
    assert_eq!(format_date_full("2023-12-25"), "December 25, 2023");
    assert_eq!(format_date_full("0099-01-02"), "January 2, 0099");
}

#[test]
fn date_unparsable_shown_as_is() {
    assert_eq!(format_date_full("oops"), "oops");
    assert_eq!(format_date_full("2024-02-30"), "2024-02-30");
}

#[test]
fn precedes_on_given_keys() {
    let jan = Some(CalendarDate { year: 2024, month: 1, day: 1 });
    let jun = Some(CalendarDate { year: 2024, month: 6, day: 15 });
    assert!(precedes(jun, "a", jan, "z"));
    assert!(!precedes(jan, "z", jun, "a"));
    assert!(precedes(jan, "a", None, "z"));
    assert!(!precedes(None, "z", jan, "a"));
    assert!(precedes(jan, "b", jan, "a"));
    assert!(!precedes(jan, "a", jan, "a"));
    assert!(precedes(None, "b", None, "a"));
}

#[test]
fn sort_order_newest_first_unparsable_last() {
    let files = vec![
        file("a.md", "Title: First\nDate: 2024-01-01\n---\n"),
        file("b.md", "Title: Broken\nDate: oops\n---\n"),
        file("c.md", "Title: Second\nDate: 2024-06-15\n---\n"),
    ];
    let posts = published_posts(&files);
    let dates: Vec<&str> = posts.iter().map(|p| p.date.as_str()).collect();
    assert_eq!(dates, vec!["2024-06-15", "2024-01-01", "oops"]);
}

#[test]
fn sort_ties_by_title_descending() {
    let files = vec![
        file("a.md", "Title: Apple\nDate: 2024-01-01\n---\n"),
        file("b.md", "Title: Cherry\nDate: 2024-01-01\n---\n"),
        file("c.md", "Title: Banana\nDate: 2024-01-01\n---\n"),
    ];
    let posts = published_posts(&files);
    let titles: Vec<&str> = posts.iter().map(|p| p.title.as_str()).collect();
    assert_eq!(titles, vec!["Cherry", "Banana", "Apple"]);
}

#[test]
fn sort_keeps_order_of_equal_keys() {
    let files = vec![
        file("a.md", "Title: Same\nDate: 2024-01-01\n---\none"),
        file("b.md", "Title: Same\nDate: 2024-01-01\n---\ntwo"),
        file("c.md", "Title: Same\nDate: 2024-01-01\n---\nthree"),
    ];
    let posts = published_posts(&files);
    let bodies: Vec<&str> = posts.iter().map(|p| p.body.as_str()).collect();
    assert_eq!(bodies, vec!["one", "two", "three"]);
}

#[test]
fn content_file_names() {
    assert!(is_content_file("post.md"));
    assert!(is_content_file("a.b.md"));
    assert!(!is_content_file("example.md"));
    assert!(!is_content_file(".md"));
    assert!(!is_content_file("notes.txt"));
    assert!(!is_content_file("md"));
}

#[test]
fn skipped_files_give_no_posts() {
    let files = vec![
        file("example.md", "Title: Template\nDate: 2024-01-01\n---\n"),
        file("notes.txt", "Title: Notes\nDate: 2024-01-01\n---\n"),
        file("bad.md", "no header here"),
    ];
    assert!(published_posts(&files).is_empty());
    assert!(all_posts(&files).is_empty());
}

fn draft_files() -> Vec<ContentFile> {
    vec![
        file("pub.md", "Title: Public Post\nDate: 2024-01-01\n---\nhello"),
        file("draft.md", "Title: Secret Draft\nDate: 2024-02-01\nDraft: true\n---\nhidden"),
    ]
}

#[test]
fn draft_isolation() {
    let files = draft_files();
    let published = published_posts(&files);
    assert_eq!(published.len(), 1);
    assert_eq!(published[0].title, "Public Post");
    let index = index_page(&files);
    assert!(!index.contains("Secret Draft"));
    assert!(!index.contains("secret-draft"));
    assert!(index.contains("Public Post"));
    let draft = draft_page(&files, "secret-draft", None);
    assert!(draft.found);
    assert!(draft.html.contains("Secret Draft"));
    let live = post_page(&files, "secret-draft", None);
    assert!(!live.found);
    assert_eq!(live.html, render_not_found());
    let export = export_site(&files);
    let paths: Vec<&str> = export.iter().map(|f| f.path.as_str()).collect();
    assert!(paths.contains(&"drafts/secret-draft/index.html"));
    assert!(paths.contains(&"drafts/secret-draft.html"));
    assert!(!paths.contains(&"posts/secret-draft.html"));
}

#[test]
fn find_by_slug_takes_first_file() {
    let files = vec![
        file("x.txt", "Title: Same\nDate: 2024-01-01\n---\nnot content"),
        file("a.md", "Title: Same\nDate: 2024-01-01\n---\nfirst"),
        file("b.md", "Title: Same\nDate: 2024-01-02\n---\nsecond"),
    ];
    let post = find_post_by_slug(&files, "same").unwrap();
    assert_eq!(post.body, "first");
    assert!(find_post_by_slug(&files, "other").is_none());
}

#[test]
fn back_label_from_referrer() {
    assert_eq!(back_label_from_referer(Some("https://site/")), "Back");
    assert_eq!(back_label_from_referer(Some("https://site/index.html")), "Back");
    assert_eq!(back_label_from_referer(Some("https://site/posts/x/")), "Home");
    assert_eq!(back_label_from_referer(Some("https://site/about")), "Home");
    assert_eq!(back_label_from_referer(None), "Home");
}

#[test]
fn export_round_trip() {
    let files = vec![file("abc.md", "Title: Abc\nDate: 2024-03-05\n---\nSome *text*")];
    let export = export_site(&files);
    assert_eq!(export.len(), 3);
    assert_eq!(export[0].path, "index.html");
    assert_eq!(export[0].contents, index_page(&files));
    let dir = export.iter().find(|f| f.path == "posts/abc/index.html").unwrap();
    let flat = export.iter().find(|f| f.path == "posts/abc.html").unwrap();
    assert_eq!(dir.contents, flat.contents);
    let live = post_page(&files, "abc", None);
    assert!(live.found);
    assert_eq!(live.html, dir.contents);
    let from_root = post_page(&files, "abc", Some("https://site/"));
    assert!(from_root.html.contains("- Back -"));
    assert!(dir.contents.contains("- Home -"));
}

#[test]
fn index_page_escapes_and_lists() {
    let files = vec![file("a.md", "Title: A & B <c>\nDate: 2024-03-05\n---\n")];
    let page = index_page(&files);
    assert!(page.contains("<li><a href=\"/posts/a-b-c\">A &amp; B &lt;c&gt;</a><span>March 5, 2024</span></li>"));
    assert!(page.contains("<link rel=\"prefetch\" href=\"/posts/a-b-c\" />"));
    assert!(page.contains("<ul class=\"post-list\">"));
    assert!(!page.contains("No posts yet."));
}

#[test]
fn index_page_empty_placeholder() {
    let posts = Vec::new();
    let page = render_index(&posts);
    assert!(page.contains("<p>No posts yet.</p>"));
    assert!(page.starts_with("<!doctype html>"));
    assert!(page.ends_with("</html>"));
    assert!(page.contains(":root {\n      color-scheme: light;\n    }"));
}

#[test]
fn post_page_renders_markdown_and_subtitle() {
    let post = parse_post("Title: T <1>\nSubtitle: S & S\nDate: 2024-03-05\n---\n# Hi\n\n~~old~~").unwrap();
    let html = render_post(&post, "Back <");
    assert!(html.contains("<title>T &lt;1&gt;</title>"));
    assert!(html.contains("<h1>T &lt;1&gt;</h1>"));
    assert!(html.contains("<h2 class=\"subtitle\">S &amp; S</h2>"));
    assert!(html.contains("<p>March 5, 2024</p>"));
    assert!(html.contains("<h1>Hi</h1>"));
    assert!(html.contains("<del>old</del>"));
    assert!(html.contains("- Back &lt; -"));
    assert!(!html.contains("# Hi"));
}

#[test]
fn post_page_without_subtitle() {
    let post = parse_post("Title: T\nDate: oops\n---\ntext").unwrap();
    let html = render_post(&post, "Home");
    assert!(!html.contains("class=\"subtitle\">"));
    assert!(html.contains("<p>oops</p>"));
}

#[test]
fn not_found_page_is_static() {
    let page = not_found_page();
    assert!(!page.found);
    assert!(page.html.contains("<h1>Not found</h1>"));
    assert_eq!(page.html, render_not_found());
    let missing = post_page(&draft_files(), "nope", None);
    assert!(!missing.found);
    assert_eq!(missing.html, render_not_found());
}
