//! Posts and the header block that each content file starts with.

use vstd::prelude::*;
use crate::slug::{is_slug, lemma_slugify_idempotent, slugify, slugify_kebab};
use crate::text::{
    chars_of, contains_char, copy_range, has_prefix, join_lines, join_with_newlines, lines_of,
    lower_ascii_text, lower_ascii_vec, same_chars, split_lines, starts_with, string_of, trim,
    trim_from, views,
};

verus! {

/// One piece of content.
pub struct Post {
    pub title: String,
    pub subtitle: Option<String>,
    pub date: String,
    pub slug: String,
    pub draft: bool,
    pub body: String,
}

pub struct PostView {
    pub title: Seq<char>,
    pub subtitle: Option<Seq<char>>,
    pub date: Seq<char>,
    pub slug: Seq<char>,
    pub draft: bool,
    pub body: Seq<char>,
}

pub open spec fn opt_view(o: Option<String>) -> Option<Seq<char>> {
    match o {
        Some(s) => Some(s@),
        None => None,
    }
}

impl View for Post {
    type V = PostView;

    open spec fn view(&self) -> PostView {
        PostView {
            title: self.title@,
            subtitle: opt_view(self.subtitle),
            date: self.date@,
            slug: self.slug@,
            draft: self.draft,
            body: self.body@,
        }
    }
}

/// What the header lines read so far have set.
pub struct HeaderModel {
    pub title: Option<Seq<char>>,
    pub subtitle: Option<Seq<char>>,
    pub date: Option<Seq<char>>,
    pub raw_slug: Option<Seq<char>>,
    pub draft: bool,
    pub in_body: bool,
    pub body: Seq<Seq<char>>,
}

pub open spec fn initial_header() -> HeaderModel {
    HeaderModel {
        title: None,
        subtitle: None,
        date: None,
        raw_slug: None,
        draft: false,
        in_body: false,
        body: seq![],
    }
}

/// The trimmed text of `line` after its first `n` characters.
pub open spec fn value_after(line: Seq<char>, n: int) -> Seq<char> {
    trim(line.skip(n))
}

/// The effect of one line of the file.
pub open spec fn header_step(h: HeaderModel, line: Seq<char>) -> HeaderModel {
    if h.in_body {
        HeaderModel { body: h.body.push(line), ..h }
    } else if trim(line) == "---"@ {
        HeaderModel { in_body: true, ..h }
    } else if has_prefix(line, "Title: "@) {
        HeaderModel { title: Some(value_after(line, "Title: "@.len() as int)), ..h }
    } else if has_prefix(line, "Date: "@) {
        HeaderModel { date: Some(value_after(line, "Date: "@.len() as int)), ..h }
    } else if has_prefix(line, "Subtitle: "@) {
        let v = value_after(line, "Subtitle: "@.len() as int);
        if v.len() > 0 {
            HeaderModel { subtitle: Some(v), ..h }
        } else {
            h
        }
    } else if has_prefix(line, "Slug:"@) {
        HeaderModel { raw_slug: Some(value_after(line, "Slug:"@.len() as int)), ..h }
    } else if has_prefix(line, "Draft:"@) {
        let v = lower_ascii_text(value_after(line, "Draft:"@.len() as int));
        HeaderModel { draft: v == "true"@ || v == "yes"@, ..h }
    } else {
        h
    }
}

/// The state after reading the lines in order.
pub open spec fn read_header(lines: Seq<Seq<char>>) -> HeaderModel
    decreases lines.len(),
{
    if lines.len() == 0 {
        initial_header()
    } else {
        header_step(read_header(lines.drop_last()), lines.last())
    }
}

/// An explicit slug is used where it is not empty and holds no `<` or `>`.
pub open spec fn usable_slug(raw: Option<Seq<char>>) -> bool {
    match raw {
        Some(v) => v.len() > 0 && !v.contains('<') && !v.contains('>'),
        None => false,
    }
}

pub open spec fn slug_source(h: HeaderModel) -> Seq<char> {
    if usable_slug(h.raw_slug) {
        h.raw_slug->0
    } else {
        h.title->0
    }
}

/// The post that a file's text describes, where it names a title and a date
/// that are not blank.
pub open spec fn parse_spec(contents: Seq<char>) -> Option<PostView> {
    let h = read_header(lines_of(contents));
    if h.title is None || h.date is None || h.title->0.len() == 0 || h.date->0.len() == 0 {
        None
    } else {
        Some(
            PostView {
                title: h.title->0,
                subtitle: h.subtitle,
                date: h.date->0,
                slug: slugify(slug_source(h)),
                draft: h.draft,
                body: join_lines(h.body),
            },
        )
    }
}

pub open spec fn vopt(o: Option<Vec<char>>) -> Option<Seq<char>> {
    match o {
        Some(v) => Some(v@),
        None => None,
    }
}

fn to_string_opt(o: Option<Vec<char>>) -> (r: Option<String>)
    ensures
        opt_view(r) == vopt(o),
{
    match o {
        Some(v) => Some(string_of(&v)),
        None => None,
    }
}

/// Reads a content file: header lines up to a line that is `---` once
/// trimmed, then the body. Yields a post exactly where the header sets a
/// title and a date and neither is blank.
pub fn parse_post(contents: &str) -> (r: Option<Post>)
    ensures
        match r {
            Some(p) => parse_spec(contents@) == Some(p@),
            None => parse_spec(contents@) is None,
        },
{
    let text = chars_of(contents);
    let lines = split_lines(&text);
    let k_sep = chars_of("---");
    let k_title = chars_of("Title: ");
    let k_date = chars_of("Date: ");
    let k_subtitle = chars_of("Subtitle: ");
    let k_slug = chars_of("Slug:");
    let k_draft = chars_of("Draft:");
    let k_true = chars_of("true");
    let k_yes = chars_of("yes");
    let mut title: Option<Vec<char>> = None;
    let mut subtitle: Option<Vec<char>> = None;
    let mut date: Option<Vec<char>> = None;
    let mut raw_slug: Option<Vec<char>> = None;
    let mut draft = false;
    let mut in_body = false;
    let mut body_lines: Vec<Vec<char>> = Vec::new();
    let mut i: usize = 0;
    assert(views(lines@).take(0) =~= Seq::<Seq<char>>::empty());
    assert(views(body_lines@) =~= Seq::<Seq<char>>::empty());
    while i < lines.len()
        invariant
            i <= lines.len(),
            views(lines@) == lines_of(contents@),
            k_sep@ == "---"@,
            k_title@ == "Title: "@,
            k_date@ == "Date: "@,
            k_subtitle@ == "Subtitle: "@,
            k_slug@ == "Slug:"@,
            k_draft@ == "Draft:"@,
            k_true@ == "true"@,
            k_yes@ == "yes"@,
            read_header(views(lines@).take(i as int)) == (HeaderModel {
                title: vopt(title),
                subtitle: vopt(subtitle),
                date: vopt(date),
                raw_slug: vopt(raw_slug),
                draft: draft,
                in_body: in_body,
                body: views(body_lines@),
            }),
        decreases lines.len() - i,
    {
        let line = &lines[i];
        assert(views(lines@).take(i + 1).drop_last() =~= views(lines@).take(i as int));
        assert(views(lines@)[i as int] == line@);
        let ghost h = read_header(views(lines@).take(i as int));
        assert(read_header(views(lines@).take(i + 1)) == header_step(h, line@));
        assert(line@.skip(0) =~= line@);
        if in_body {
            let ghost before = body_lines@;
            let copied = copy_range(line, 0, line.len());
            assert(copied@ =~= line@);
            body_lines.push(copied);
            assert(views(body_lines@) =~= views(before).push(line@));
        } else if same_chars(&trim_from(line, 0), &k_sep) {
            in_body = true;
        } else if starts_with(line, &k_title) {
            title = Some(trim_from(line, k_title.len()));
        } else if starts_with(line, &k_date) {
            date = Some(trim_from(line, k_date.len()));
        } else if starts_with(line, &k_subtitle) {
            let v = trim_from(line, k_subtitle.len());
            if v.len() > 0 {
                subtitle = Some(v);
            }
        } else if starts_with(line, &k_slug) {
            raw_slug = Some(trim_from(line, k_slug.len()));
        } else if starts_with(line, &k_draft) {
            let v = lower_ascii_vec(&trim_from(line, k_draft.len()));
            draft = same_chars(&v, &k_true) || same_chars(&v, &k_yes);
        }
        i += 1;
    }
    assert(views(lines@).take(lines.len() as int) =~= views(lines@));
    let title = match title {
        Some(t) => t,
        None => return None,
    };
    let date = match date {
        Some(d) => d,
        None => return None,
    };
    if title.len() == 0 || date.len() == 0 {
        return None;
    }
    let use_raw = match &raw_slug {
        Some(v) => v.len() > 0 && !contains_char(v, '<') && !contains_char(v, '>'),
        None => false,
    };
    let title_text = string_of(&title);
    let slug = if use_raw {
        match &raw_slug {
            Some(v) => slugify_kebab(string_of(v).as_str()),
            None => slugify_kebab(title_text.as_str()),
        }
    } else {
        slugify_kebab(title_text.as_str())
    };
    let body = join_with_newlines(&body_lines);
    Some(
        Post {
            title: title_text,
            subtitle: to_string_opt(subtitle),
            date: string_of(&date),
            slug,
            draft,
            body: string_of(&body),
        },
    )
}

/// Reading a file gives nothing, or a post with a non-empty title and date,
/// the last `Title: ` and `Date: ` values of its header, and a slug of the
/// slug shape.
pub proof fn lemma_parse_result(contents: Seq<char>)
    ensures
        parse_spec(contents) matches Some(p) ==> {
            let h = read_header(lines_of(contents));
            &&& p.title.len() > 0
            &&& p.date.len() > 0
            &&& is_slug(p.slug)
            &&& Some(p.title) == h.title
            &&& Some(p.date) == h.date
        },
{
    let h = read_header(lines_of(contents));
    if h.title is Some && h.date is Some {
        lemma_slugify_idempotent(slug_source(h));
    }
}

/// An explicit slug that holds `<` or `>` is ignored: the slug comes from
/// the title, and no slug ever holds `<` or `>`.
pub proof fn lemma_slug_injection_guard(contents: Seq<char>)
    ensures
        parse_spec(contents) matches Some(p) ==> !p.slug.contains('<') && !p.slug.contains('>'),
        parse_spec(contents) matches Some(p) ==> (read_header(lines_of(contents)).raw_slug matches Some(
            v,
        ) && (v.contains('<') || v.contains('>')) ==> p.slug == slugify(p.title)),
{
    let h = read_header(lines_of(contents));
    if h.title is Some && h.date is Some {
        let slug = slugify(slug_source(h));
        lemma_slugify_idempotent(slug_source(h));
        if slug.contains('<') {
            let i = choose|i: int| 0 <= i < slug.len() && slug[i] == '<';
            assert(crate::slug::is_slug_char(slug[i]) || slug[i] == '-');
        }
        if slug.contains('>') {
            let i = choose|i: int| 0 <= i < slug.len() && slug[i] == '>';
            assert(crate::slug::is_slug_char(slug[i]) || slug[i] == '-');
        }
    }
}

} // verus!
