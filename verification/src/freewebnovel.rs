//! FreeWebNovel, a novel site.
use vstd::prelude::*;
use crate::encoding::{url_encode, url_encoded};
use crate::model::{
    header, header_is, BROWSER_AGENT,
    chapter_of, chapter_views, collect_new, collect_some, entries, entry_of, filled, filled_exec,
    is_parse, lazy_src, lazy_src_exec, non_blank, non_blank_exec, opt, page_cover_on,
    page_cover_on_exec, parse_unsigned, parse_unsigned_exec, plain_chapter, push_chapter,
    push_if_new, resolve_on, resolve_on_exec, string_from, texts, Chapter, ChapterView, Element,
    Entry, SourceError, SourceInfo, WorkDetails, WorkKind, WorkSummary,
};
use crate::text::{
    chars_of, contains, contains_exec, decimal, decimal_exec, push_all, push_str, starts_with,
    starts_with_exec,
};

verus! {

/// The site's address.
pub const BASE: &'static str = "https://freewebnovel.com";

/// The headers of the source's requests: a form content type, the home
/// page as referer, the site as origin, and the browser's user agent.
pub fn request_headers() -> (r: Vec<(String, String)>)
    ensures
        r@.len() == 4,
        header_is(r@[0], "Content-Type"@, "application/x-www-form-urlencoded"@),
        header_is(r@[1], "Referer"@, BASE@ + "/home"@),
        header_is(r@[2], "Origin"@, BASE@),
        header_is(r@[3], "User-Agent"@, BROWSER_AGENT@),
{
    let mut home = chars_of(BASE);
    push_str(&mut home, "/home");
    let home = string_from(home);
    let mut v: Vec<(String, String)> = Vec::new();
    v.push(header("Content-Type", "application/x-www-form-urlencoded"));
    v.push(header("Referer", home.as_str()));
    v.push(header("Origin", BASE));
    v.push(header("User-Agent", BROWSER_AGENT));
    v
}

/// The description of the source.
pub fn info() -> (r: SourceInfo)
    ensures
        r.id@ == "freewebnovel"@,
        r.name@ == "FreeWebNovel"@,
        r.version@ == "1.0.3"@,
        r.kind == WorkKind::Novel,
        r.icon_url is None,
        opt(r.referer_url) == Some(BASE@),
        opt(r.base_url) == Some(BASE@),
{
    SourceInfo {
        id: String::from_str("freewebnovel"),
        name: String::from_str("FreeWebNovel"),
        version: String::from_str("1.0.3"),
        kind: WorkKind::Novel,
        icon_url: None,
        referer_url: Some(String::from_str(BASE)),
        base_url: Some(String::from_str(BASE)),
    }
}

/// The address of the search results for `query`; a single page.
pub fn search_url(query: &str, page: u32) -> (r: Option<String>)
    ensures
        page > 1 ==> r is None,
        page <= 1 ==> opt(r) == Some(BASE@ + "/search?keyword="@ + url_encoded(query@)),
{
    if page > 1 {
        return None;
    }
    let mut v = chars_of(BASE);
    push_str(&mut v, "/search?keyword=");
    let q = url_encode(query);
    push_str(&mut v, q.as_str());
    Some(string_from(v))
}

fn sorted_url(sort: &str, page: u32) -> (r: String)
    ensures
        r@ == BASE@ + "/sort/"@ + sort@ + "?p="@ + decimal(page as nat),
{
    let mut v = chars_of(BASE);
    push_str(&mut v, "/sort/");
    push_str(&mut v, sort);
    push_str(&mut v, "?p=");
    let d = decimal_exec(page as u64);
    push_all(&mut v, d.as_slice());
    string_from(v)
}

/// The address of a page of the latest releases; the site shows 10.
pub fn latest_url(page: u32) -> (r: Option<String>)
    ensures
        page > 10 ==> r is None,
        page <= 10 ==> opt(r) == Some(BASE@ + "/sort/"@ + "latest-release"@ + "?p="@ + decimal(page as nat)),
{
    if page > 10 {
        return None;
    }
    Some(sorted_url("latest-release", page))
}

/// The address of the most popular novels; a single page.
pub fn trending_url(page: u32) -> (r: Option<String>)
    ensures
        page > 1 ==> r is None,
        page <= 1 ==> opt(r) == Some(BASE@ + "/sort/"@ + "most-popular"@ + "?p="@ + decimal(page as nat)),
{
    if page > 1 {
        return None;
    }
    Some(sorted_url("most-popular", page))
}

// ---------------------------------------------------------------------
// Listings
// ---------------------------------------------------------------------

/// A card of a listing (`.ul-list1 .con`): its title link
/// (`h3 a[href^='/novel/']`) and its image (`.pic img`).
pub struct GridCard {
    pub link: Option<Element>,
    pub image: Option<Element>,
}

/// The entry a card gives: it needs a link to a novel (not to a chapter);
/// the title is the link's `title` attribute, else its text.
pub open spec fn card_entry(c: GridCard) -> Option<Entry> {
    match c.link {
        None => None,
        Some(l) => match l.attr_spec("href"@) {
            Some(h) => if starts_with(h, "/novel/"@) && !contains(h, "/chapter-"@) {
                Some(
                    (
                        match l.attr_spec("title"@) {
                            Some(t) => t,
                            None => l.text@,
                        },
                        BASE@ + h,
                        match c.image {
                            Some(i) => match lazy_src(i) {
                                Some(src) => Some(resolve_on(BASE@, src)),
                                None => None,
                            },
                            None => None,
                        },
                    ),
                )
            } else {
                None
            },
            None => None,
        },
    }
}

/// The entry a card gives.
pub open spec fn card_entries() -> spec_fn(GridCard) -> Option<Entry> {
    |c: GridCard| card_entry(c)
}

fn card_entry_exec(c: &GridCard) -> (r: Option<WorkSummary>)
    ensures
        match r {
            Some(w) => card_entry(*c) == Some(entry_of(w)),
            None => card_entry(*c) is None,
        },
{
    let l = match &c.link {
        Some(l) => l,
        None => return None,
    };
    let h = match l.attr("href") {
        Some(h) => h,
        None => return None,
    };
    let hc = chars_of(h.as_str());
    let novel = chars_of("/novel/");
    let chapter = chars_of("/chapter-");
    if !(starts_with_exec(hc.as_slice(), novel.as_slice()) && !contains_exec(
        hc.as_slice(),
        chapter.as_slice(),
    )) {
        return None;
    }
    let title = match l.attr("title") {
        Some(t) => t,
        None => l.text.clone(),
    };
    let mut url = chars_of(BASE);
    push_all(&mut url, hc.as_slice());
    let cover = match &c.image {
        Some(i) => match lazy_src_exec(i) {
            Some(src) => Some(resolve_on_exec(BASE, src.as_str())),
            None => None,
        },
        None => None,
    };
    Some(WorkSummary { title, url: string_from(url), cover_url: cover })
}

/// The novels of a listing page, once each, from its cards.
pub fn parse_grid(cards: &Vec<GridCard>) -> (r: Vec<WorkSummary>)
    ensures
        entries(r@) == collect_new(cards@, card_entries()),
{
    let mut out: Vec<WorkSummary> = Vec::new();
    let mut i: usize = 0;
    while i < cards.len()
        invariant
            i <= cards@.len(),
            entries(out@) == collect_new(cards@.subrange(0, i as int), card_entries()),
        decreases cards.len() - i,
    {
        assert(cards@.subrange(0, i + 1).drop_last() =~= cards@.subrange(0, i as int));
        match card_entry_exec(&cards[i]) {
            Some(w) => push_if_new(&mut out, w),
            None => {},
        }
        i = i + 1;
    }
    assert(cards@.subrange(0, cards@.len() as int) =~= cards@);
    out
}

// ---------------------------------------------------------------------
// Work pages
// ---------------------------------------------------------------------

/// The chapter a chapter link gives: its text, at the site's address
/// followed by its target (or nothing).
pub open spec fn link_chapter(e: Element) -> Option<ChapterView> {
    Some(
        (
            e.text@,
            BASE@ + match e.attr_spec("href"@) {
                Some(h) => h,
                None => Seq::empty(),
            },
            None,
            None,
        ),
    )
}

/// The chapter a chapter link gives.
pub open spec fn link_chapters() -> spec_fn(Element) -> Option<ChapterView> {
    |e: Element| link_chapter(e)
}

/// The chapters of a list of chapter links, in order.
pub fn parse_chapters(links: &Vec<Element>) -> (r: Vec<Chapter>)
    ensures
        chapter_views(r@) == collect_some(links@, link_chapters()),
{
    let mut out: Vec<Chapter> = Vec::new();
    let mut i: usize = 0;
    while i < links.len()
        invariant
            i <= links@.len(),
            chapter_views(out@) == collect_some(links@.subrange(0, i as int), link_chapters()),
        decreases links.len() - i,
    {
        assert(links@.subrange(0, i + 1).drop_last() =~= links@.subrange(0, i as int));
        let e = &links[i];
        let mut url = chars_of(BASE);
        match e.attr("href") {
            Some(h) => push_str(&mut url, h.as_str()),
            None => {
                assert(url@ =~= BASE@ + Seq::<char>::empty());
            },
        }
        push_chapter(&mut out, plain_chapter(e.text.clone(), string_from(url)));
        i = i + 1;
    }
    assert(links@.subrange(0, links@.len() as int) =~= links@);
    out
}

/// The number of pages of the chapter list: the `data-total-page`
/// attribute read as a number, else 1.
pub fn total_pages(attr: &Option<String>) -> (r: u32)
    ensures
        r == match attr {
            Some(a) => match parse_unsigned(a@, u32::MAX as nat) {
                Some(n) => n,
                None => 1,
            },
            None => 1,
        },
{
    match attr {
        Some(a) => match parse_unsigned_exec(a.as_str(), u32::MAX as u64) {
            Some(n) => n as u32,
            None => 1,
        },
        None => 1,
    }
}

/// The address of a page of the chapter list of the work at `url`.
pub open spec fn chapter_page_spec(url: Seq<char>, page: u32) -> Seq<char> {
    url + (if contains(url, "?"@) {
        "&"@
    } else {
        "?"@
    }) + "ajax=chapters&page="@ + decimal(page as nat) + "&pageSize=40"@
}

/// The address of a page of the chapter list of the work at `url`.
pub fn chapter_page_url(url: &str, page: u32) -> (r: String)
    ensures
        r@ == chapter_page_spec(url@, page),
{
    let u = chars_of(url);
    let q = chars_of("?");
    let mut v = chars_of(url);
    if contains_exec(u.as_slice(), q.as_slice()) {
        push_str(&mut v, "&");
    } else {
        push_str(&mut v, "?");
    }
    push_str(&mut v, "ajax=chapters&page=");
    let d = decimal_exec(page as u64);
    push_all(&mut v, d.as_slice());
    push_str(&mut v, "&pageSize=40");
    string_from(v)
}

/// The HTML of a page of the chapter list, from the `html` member of its
/// JSON answer: the parser's message when the answer is not JSON, an error
/// when the member is missing or not a string.
pub fn chapter_page_html(answer: Result<Option<String>, String>) -> (r: Result<String, SourceError>)
    ensures
        answer matches Err(e) ==> is_parse(r, e@),
        answer matches Ok(None) ==> is_parse(r, "missing chapter page html"@),
        answer matches Ok(Some(h)) ==> (r matches Ok(x) && x@ == h@),
{
    match answer {
        Err(e) => Err(SourceError::Parse(e)),
        Ok(None) => Err(SourceError::Parse(String::from_str("missing chapter page html"))),
        Ok(Some(h)) => Ok(h),
    }
}

/// What the page of a novel shows.
pub struct WorkPage {
    /// The text of the first `h1`.
    pub heading: Option<String>,
    /// The texts of the author links (`[itemprop='author'] a`).
    pub authors: Vec<String>,
    /// The text of `#description-box`.
    pub description: Option<String>,
    /// The texts of the genre links.
    pub genres: Vec<String>,
    /// The text of the last span of `.header-stats`.
    pub status: Option<String>,
    /// The `og:image` meta tag.
    pub og_image: Option<Element>,
    /// The cover image.
    pub cover_image: Option<Element>,
}

/// The details of the novel at `url`, from its page and its chapters.
pub fn work_details(url: String, page: WorkPage, chapters: Vec<Chapter>) -> (r: WorkDetails)
    ensures
        r.title@ == match page.heading {
            Some(h) => h@,
            None => url@,
        },
        r.url@ == url@,
        opt(r.cover_url) == page_cover_on(BASE@, page.og_image, page.cover_image),
        r.alternative_names@.len() == 0,
        r.authors@ == page.authors@,
        r.artists@.len() == 0,
        opt(r.status) == filled(page.status),
        r.release_date is None,
        opt(r.description) == filled(page.description),
        r.genres@ == page.genres@,
        r.chapters@ == chapters@,
        r.content_html is None,
{
    let title = match &page.heading {
        Some(h) => h.clone(),
        None => url.clone(),
    };
    let cover_url = page_cover_on_exec(BASE, &page.og_image, &page.cover_image);
    WorkDetails {
        title,
        url,
        cover_url,
        alternative_names: Vec::new(),
        authors: page.authors,
        artists: Vec::new(),
        status: filled_exec(page.status),
        release_date: None,
        description: filled_exec(page.description),
        genres: page.genres,
        chapters,
        content_html: None,
    }
}

/// The paragraphs of a chapter: the texts of `#article` that are not blank.
pub fn chapter_paragraphs(paragraphs: &Vec<String>) -> (r: Vec<String>)
    ensures
        texts(r@) == non_blank(texts(paragraphs@)),
{
    non_blank_exec(paragraphs)
}

} // verus!
