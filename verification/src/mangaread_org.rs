//! MangaRead, a manga site built on WordPress.
use vstd::prelude::*;
use crate::encoding::{url_encode, url_encoded};
use crate::model::{
    header_is, referer_and_agent, BROWSER_AGENT,
    absolute_on, absolute_on_exec, chapter_views, collect_new, collect_some, contains_text,
    distinct_by, distinct_nonempty, eager_src, eager_src_exec, entries, entry_of, is_parse,
    lazy_src, lazy_src_exec, longest_nonempty, longest_nonempty_exec, mentioned_status,
    mentioned_status_exec, opt, plain_chapter, push_chapter, push_if_new, reversed, string_from,
    texts, Chapter, ChapterView, Element, Entry, SourceError, SourceInfo, WorkDetails, WorkKind,
    WorkSummary,
};
use crate::text::{
    before, before_exec, chars_of, contains, contains_exec, decimal, decimal_exec, eq_chars,
    push_all, push_str, replace, replace_exec, second_piece, second_piece_exec, starts_with,
    starts_with_exec, trim, trim_end_in, trim_end_in_exec, trim_exec,
};

verus! {

/// The site's address.
pub const BASE: &'static str = "https://www.mangaread.org";

/// The headers of the source's requests.
pub fn request_headers() -> (r: Vec<(String, String)>)
    ensures
        r@.len() == 2,
        header_is(r@[0], "Referer"@, BASE@ + "/"@),
        header_is(r@[1], "User-Agent"@, BROWSER_AGENT@),
{
    referer_and_agent(BASE)
}

/// The description of the source.
pub fn info() -> (r: SourceInfo)
    ensures
        r.id@ == "mangaread_org"@,
        r.name@ == "MangaRead"@,
        r.version@ == "1.0.0"@,
        r.kind == WorkKind::Manga,
        r.icon_url is None,
        opt(r.referer_url) == Some(BASE@ + "/"@),
        opt(r.base_url) == Some(BASE@),
{
    let mut referer = chars_of(BASE);
    push_str(&mut referer, "/");
    SourceInfo {
        id: String::from_str("mangaread_org"),
        name: String::from_str("MangaRead"),
        version: String::from_str("1.0.0"),
        kind: WorkKind::Manga,
        icon_url: None,
        referer_url: Some(string_from(referer)),
        base_url: Some(String::from_str(BASE)),
    }
}

/// The address of the search results for `query`; a single page.
pub fn search_url(query: &str, page: u32) -> (r: Option<String>)
    ensures
        page > 1 ==> r is None,
        page <= 1 ==> opt(r) == Some(BASE@ + "/?s="@ + url_encoded(query@) + "&post_type=wp-manga"@),
{
    if page > 1 {
        return None;
    }
    let mut v = chars_of(BASE);
    push_str(&mut v, "/?s=");
    let q = url_encode(query);
    push_str(&mut v, q.as_str());
    push_str(&mut v, "&post_type=wp-manga");
    Some(string_from(v))
}

/// The address of a page of the catalogue ordered by `order`.
pub open spec fn catalogue_url(order: Seq<char>, page: u32) -> Seq<char> {
    BASE@ + "/manga/?m_orderby="@ + order + "&paged="@ + decimal(page as nat)
}

fn catalogue_url_exec(order: &str, page: u32) -> (r: String)
    ensures
        r@ == catalogue_url(order@, page),
{
    let mut v = chars_of(BASE);
    push_str(&mut v, "/manga/?m_orderby=");
    push_str(&mut v, order);
    push_str(&mut v, "&paged=");
    let d = decimal_exec(page as u64);
    push_all(&mut v, d.as_slice());
    string_from(v)
}

/// The address of a page of the latest updates; the site serves 100.
pub fn latest_url(page: u32) -> (r: Option<String>)
    ensures
        page > 100 ==> r is None,
        page <= 100 ==> opt(r) == Some(catalogue_url("latest"@, page)),
{
    if page > 100 {
        return None;
    }
    Some(catalogue_url_exec("latest", page))
}

/// The address of a page of the most viewed works; the site serves 20.
pub fn trending_url(page: u32) -> (r: Option<String>)
    ensures
        page > 20 ==> r is None,
        page <= 20 ==> opt(r) == Some(catalogue_url("views"@, page)),
{
    if page > 20 {
        return None;
    }
    Some(catalogue_url_exec("views", page))
}

// ---------------------------------------------------------------------
// Listings
// ---------------------------------------------------------------------

/// The slug of a link to a work: the text after `/manga/` up to the next
/// `/manga/`, cut at `?`, without trailing slashes.
pub open spec fn work_slug(rest: Seq<char>) -> Seq<char> {
    trim_end_in(before(rest, "?"@), "/"@)
}

/// A link target leads to a work: after `/manga/` comes a single non-empty
/// path segment other than `feed`, and no chapter.
pub open spec fn work_href(href: Seq<char>) -> bool {
    match second_piece(href, "/manga/"@) {
        None => false,
        Some(rest) => {
            let slug = work_slug(rest);
            slug.len() > 0 && !contains(slug, "/"@) && slug != "feed"@ && !contains(rest, "/chapter-"@)
        },
    }
}

/// Whether a link target leads to a work.
pub fn is_work_href(href: &str) -> (r: bool)
    ensures
        r == work_href(href@),
{
    let h = chars_of(href);
    let manga = chars_of("/manga/");
    let rest = match second_piece_exec(h.as_slice(), manga.as_slice()) {
        Some(r) => r,
        None => return false,
    };
    let q = chars_of("?");
    let slash = chars_of("/");
    let feed = chars_of("feed");
    let chapter = chars_of("/chapter-");
    let head = before_exec(rest.as_slice(), q.as_slice());
    let slug = trim_end_in_exec(head.as_slice(), slash.as_slice());
    slug.len() > 0 && !contains_exec(slug.as_slice(), slash.as_slice()) && !eq_chars(
        slug.as_slice(),
        feed.as_slice(),
    ) && !contains_exec(rest.as_slice(), chapter.as_slice())
}

/// The raw title of a link: its `title` attribute unless empty or equal to
/// the target, else its `alt` attribute unless empty, else its text.
pub open spec fn raw_title(e: Element, href: Seq<char>) -> Seq<char> {
    let t = e.attr_spec("title"@);
    let a = e.attr_spec("alt"@);
    if t is Some && t->0.len() > 0 && t->0 != href {
        t->0
    } else if a is Some && a->0.len() > 0 {
        a->0
    } else {
        e.text@
    }
}

fn raw_title_exec(e: &Element, href: &String) -> (r: String)
    ensures
        r@ == raw_title(*e, href@),
{
    match e.attr("title") {
        Some(t) => {
            if !t.as_str().is_empty() && t != *href {
                return t;
            }
        },
        None => {},
    }
    match e.attr("alt") {
        Some(a) => {
            if !a.as_str().is_empty() {
                return a;
            }
        },
        None => {},
    }
    e.text.clone()
}

/// A listing title without the site's decorations: what follows " on Hari"
/// dropped, every "Read " and " Manga Online" removed, trimmed.
pub open spec fn cleaned(title: Seq<char>) -> Seq<char> {
    trim(replace(replace(before(title, " on Hari"@), "Read "@, Seq::empty()), " Manga Online"@, Seq::empty()))
}

fn cleaned_exec(title: &String) -> (r: String)
    ensures
        r@ == cleaned(title@),
{
    let t = chars_of(title.as_str());
    let sep = chars_of(" on Hari");
    let read = chars_of("Read ");
    let online = chars_of(" Manga Online");
    let empty: Vec<char> = Vec::new();
    proof {
        reveal_strlit("Read ");
        reveal_strlit(" Manga Online");
    }
    let first = before_exec(t.as_slice(), sep.as_slice());
    let a = replace_exec(first.as_slice(), read.as_slice(), empty.as_slice());
    let b = replace_exec(a.as_slice(), online.as_slice(), empty.as_slice());
    assert(empty@ =~= Seq::<char>::empty());
    string_from(trim_exec(b.as_slice()))
}

/// The entry a link gives.
pub open spec fn link_entry(e: Element) -> Option<Entry> {
    match e.attr_spec("href"@) {
        Some(h) => if work_href(h) {
            Some((cleaned(raw_title(e, h)), absolute_on(BASE@, h), None))
        } else {
            None
        },
        None => None,
    }
}

/// The entry a link gives.
pub open spec fn link_entries() -> spec_fn(Element) -> Option<Entry> {
    |e: Element| link_entry(e)
}

/// The works of a listing page, once each, from its links to works.
pub fn parse_items(links: &Vec<Element>) -> (r: Vec<WorkSummary>)
    ensures
        entries(r@) == collect_new(links@, link_entries()),
{
    let mut out: Vec<WorkSummary> = Vec::new();
    let mut i: usize = 0;
    while i < links.len()
        invariant
            i <= links@.len(),
            entries(out@) == collect_new(links@.subrange(0, i as int), link_entries()),
        decreases links.len() - i,
    {
        assert(links@.subrange(0, i + 1).drop_last() =~= links@.subrange(0, i as int));
        let e = &links[i];
        match e.attr("href") {
            Some(h) => {
                if is_work_href(h.as_str()) {
                    let raw = raw_title_exec(e, &h);
                    let title = cleaned_exec(&raw);
                    let url = absolute_on_exec(BASE, h.as_str());
                    push_if_new(&mut out, WorkSummary { title, url, cover_url: None });
                }
            },
            None => {},
        }
        i = i + 1;
    }
    assert(links@.subrange(0, links@.len() as int) =~= links@);
    out
}

// ---------------------------------------------------------------------
// Work pages
// ---------------------------------------------------------------------

/// What the page of a work shows.
pub struct WorkPage {
    /// The text of the first `h1`.
    pub heading: Option<String>,
    /// The texts of the author links (`.author-content a`).
    pub authors: Vec<String>,
    /// The texts of the `.summary-content` blocks.
    pub summaries: Vec<String>,
    /// The texts of the genre links.
    pub genres: Vec<String>,
    /// The cover image (`.summary_image img`).
    pub cover: Option<Element>,
    /// The chapter links (`li.wp-manga-chapter a`).
    pub chapter_links: Vec<Element>,
}

/// The cover address a work page gives: made absolute with `https:`.
pub open spec fn page_cover(cover: Option<Element>) -> Option<Seq<char>> {
    match cover {
        Some(e) => match lazy_src(e) {
            Some(s) => Some(
                if starts_with(s, "http"@) {
                    s
                } else {
                    "https:"@ + s
                },
            ),
            None => None,
        },
        None => None,
    }
}

/// The chapter a chapter link gives: it needs a target and a text.
pub open spec fn link_chapter(e: Element) -> Option<crate::model::ChapterView> {
    match e.attr_spec("href"@) {
        Some(h) => if e.text@.len() > 0 {
            Some((e.text@, absolute_on(BASE@, h), None, None))
        } else {
            None
        },
        None => None,
    }
}

/// The chapter a chapter link gives.
pub open spec fn link_chapters() -> spec_fn(Element) -> Option<ChapterView> {
    |e: Element| link_chapter(e)
}

fn link_chapters_exec(links: &Vec<Element>) -> (r: Vec<Chapter>)
    ensures
        chapter_views(r@) == collect_some(links@, link_chapters()),
{
    let mut out: Vec<Chapter> = Vec::new();
    let mut i: usize = 0;
    while i < links.len()
        invariant
            i <= links@.len(),
            chapter_views(out@) == collect_some(links@.subrange(0, i as int), link_chapters()),
        decreases links.len() - i,
    {
        assert(links@.subrange(0, i + 1).drop_last() =~= links@.subrange(0, i as int));
        let e = &links[i];
        match e.attr("href") {
            Some(h) => {
                if !e.text.as_str().is_empty() {
                    push_chapter(
                        &mut out,
                        plain_chapter(e.text.clone(), absolute_on_exec(BASE, h.as_str())),
                    );
                }
            },
            None => {},
        }
        i = i + 1;
    }
    assert(links@.subrange(0, links@.len() as int) =~= links@);
    out
}

/// The details of the work at `url`, from its page (the site lists the
/// newest chapter first; the details list the oldest first).
pub fn work_details(url: String, page: WorkPage) -> (r: WorkDetails)
    ensures
        r.title@ == match page.heading {
            Some(h) => h@,
            None => url@,
        },
        r.url@ == url@,
        opt(r.cover_url) == page_cover(page.cover),
        r.alternative_names@.len() == 0,
        texts(r.authors@) == distinct_by(texts(page.authors@), |t: Seq<char>| t.len() > 0),
        r.artists@.len() == 0,
        opt(r.status) == mentioned_status(texts(page.summaries@)),
        r.release_date is None,
        opt(r.description) == longest_nonempty(texts(page.summaries@)),
        texts(r.genres@) == distinct_by(texts(page.genres@), |t: Seq<char>| t.len() > 0),
        chapter_views(r.chapters@) == collect_some(page.chapter_links@, link_chapters()).reverse(),
        r.content_html is None,
{
    let title = match &page.heading {
        Some(h) => h.clone(),
        None => url.clone(),
    };
    let http = chars_of("http");
    let cover_url = match &page.cover {
        Some(e) => match lazy_src_exec(e) {
            Some(s) => {
                let sc = chars_of(s.as_str());
                if starts_with_exec(sc.as_slice(), http.as_slice()) {
                    Some(s)
                } else {
                    let mut v = chars_of("https:");
                    push_all(&mut v, sc.as_slice());
                    Some(string_from(v))
                }
            },
            None => None,
        },
        None => None,
    };
    let chapters = link_chapters_exec(&page.chapter_links);
    let ghost before_rev = chapters@;
    let chapters = reversed(chapters);
    assert(chapter_views(chapters@) =~= chapter_views(before_rev).reverse());
    WorkDetails {
        title,
        url,
        cover_url,
        alternative_names: Vec::new(),
        authors: distinct_nonempty(&page.authors),
        artists: Vec::new(),
        status: mentioned_status_exec(&page.summaries),
        release_date: None,
        description: longest_nonempty_exec(&page.summaries),
        genres: distinct_nonempty(&page.genres),
        chapters,
        content_html: None,
    }
}

/// The page images of a chapter: the absolute sources of its images, once
/// each.
pub open spec fn page_images(images: Seq<Element>) -> Seq<Seq<char>>
    decreases images.len(),
{
    if images.len() == 0 {
        Seq::empty()
    } else {
        let acc = page_images(images.drop_last());
        let s = eager_src(images.last());
        if starts_with(s, "http"@) && !acc.contains(s) {
            acc.push(s)
        } else {
            acc
        }
    }
}

/// The pages of a chapter, from its images (`img.wp-manga-chapter-img`);
/// an error when there are none.
pub fn chapter_images(images: &Vec<Element>) -> (r: Result<Vec<String>, SourceError>)
    ensures
        page_images(images@).len() == 0 ==> is_parse(r, "no images found in chapter page"@),
        page_images(images@).len() > 0 ==> (r matches Ok(v) && texts(v@) == page_images(images@)),
{
    let http = chars_of("http");
    let mut out: Vec<String> = Vec::new();
    let mut i: usize = 0;
    while i < images.len()
        invariant
            i <= images@.len(),
            http@ == "http"@,
            texts(out@) == page_images(images@.subrange(0, i as int)),
        decreases images.len() - i,
    {
        assert(images@.subrange(0, i + 1).drop_last() =~= images@.subrange(0, i as int));
        let src = eager_src_exec(&images[i]);
        let s = string_from(src);
        let ghost before_push = texts(out@);
        let sc = chars_of(s.as_str());
        if starts_with_exec(sc.as_slice(), http.as_slice()) && !contains_text(&out, &s) {
            out.push(s);
            assert(texts(out@) =~= before_push.push(sc@));
        }
        i = i + 1;
    }
    assert(images@.subrange(0, images@.len() as int) =~= images@);
    if out.len() == 0 {
        return Err(SourceError::Parse(String::from_str("no images found in chapter page")));
    }
    Ok(out)
}

} // verus!
