//! Royal Road, a web fiction site.
use vstd::prelude::*;
use crate::encoding::{url_encode, url_encoded};
use crate::model::{
    agent_and_referer, header_is, BROWSER_AGENT,
    absolute_on, absolute_on_exec, chapter_views, collect_some, entries, entry_of, is_parse,
    nonempty_texts, nonempty_texts_exec, opt, plain_chapter, push_chapter, string_from, texts,
    Chapter, ChapterView, Element, Entry, SourceError, SourceInfo, WorkDetails, WorkKind,
    WorkSummary,
};
use crate::text::{chars_of, decimal, decimal_exec, eq_str, push_all, push_str};

verus! {

/// The site's address.
pub const BASE: &'static str = "https://www.royalroad.com";

/// A link target or image source made absolute on the site.
pub fn absolute(url: &str) -> (r: String)
    ensures
        r@ == absolute_on(BASE@, url@),
{
    absolute_on_exec(BASE, url)
}

/// The headers of the source's requests.
pub fn request_headers() -> (r: Vec<(String, String)>)
    ensures
        r@.len() == 2,
        header_is(r@[0], "User-Agent"@, BROWSER_AGENT@),
        header_is(r@[1], "Referer"@, BASE@ + "/"@),
{
    agent_and_referer(BASE)
}

/// The description of the source.
pub fn info() -> (r: SourceInfo)
    ensures
        r.id@ == "royal_road"@,
        r.name@ == "Royal Road"@,
        r.version@ == "1.0.0"@,
        r.kind == WorkKind::Novel,
        r.icon_url is None,
        opt(r.referer_url) == Some(BASE@),
        opt(r.base_url) == Some(BASE@),
{
    SourceInfo {
        id: String::from_str("royal_road"),
        name: String::from_str("Royal Road"),
        version: String::from_str("1.0.0"),
        kind: WorkKind::Novel,
        icon_url: None,
        referer_url: Some(String::from_str(BASE)),
        base_url: Some(String::from_str(BASE)),
    }
}

/// The address of the search results for `query`; a single page.
pub fn search_url(query: &str, page: u32) -> (r: Option<String>)
    ensures
        page > 1 ==> r is None,
        page <= 1 ==> opt(r) == Some(BASE@ + "/fictions/search?title="@ + url_encoded(query@)),
{
    if page > 1 {
        return None;
    }
    let mut v = chars_of(BASE);
    push_str(&mut v, "/fictions/search?title=");
    let q = url_encode(query);
    push_str(&mut v, q.as_str());
    Some(string_from(v))
}

/// The address of a page of the fictions ordered by `order`; the trending
/// fictions have a single page.
pub open spec fn browse_spec(order: Seq<char>, page: u32) -> Option<Seq<char>> {
    if page > 1 && order == "trending"@ {
        None
    } else {
        Some(BASE@ + "/fictions/"@ + order + "?page="@ + decimal(page as nat))
    }
}

/// The address of a page of the fictions ordered by `order`.
pub fn browse_url(order: &str, page: u32) -> (r: Option<String>)
    ensures
        opt(r) == browse_spec(order@, page),
{
    if page > 1 && eq_str(order, "trending") {
        return None;
    }
    let mut v = chars_of(BASE);
    push_str(&mut v, "/fictions/");
    push_str(&mut v, order);
    push_str(&mut v, "?page=");
    let d = decimal_exec(page as u64);
    push_all(&mut v, d.as_slice());
    Some(string_from(v))
}

/// The address of a page of the latest updates.
pub fn latest_url(page: u32) -> (r: Option<String>)
    ensures
        opt(r) == browse_spec("latest-updates"@, page),
{
    browse_url("latest-updates", page)
}

/// The address of the trending fictions.
pub fn trending_url(page: u32) -> (r: Option<String>)
    ensures
        opt(r) == browse_spec("trending"@, page),
{
    browse_url("trending", page)
}

/// A fiction card of a listing (`div.fiction-list-item`): its title link
/// (`h2.fiction-title a`) and its image (`figure img`).
pub struct Card {
    pub link: Option<Element>,
    pub image: Option<Element>,
}

/// The entry a card gives: it needs a title link with a text and a target.
pub open spec fn card_entry(c: Card) -> Option<Entry> {
    match c.link {
        Some(a) => match a.attr_spec("href"@) {
            Some(h) => if a.text@.len() > 0 {
                Some(
                    (
                        a.text@,
                        absolute_on(BASE@, h),
                        match c.image {
                            Some(i) => i.attr_spec("src"@),
                            None => None,
                        },
                    ),
                )
            } else {
                None
            },
            None => None,
        },
        None => None,
    }
}

/// The entry a card gives.
pub open spec fn card_entries() -> spec_fn(Card) -> Option<Entry> {
    |c: Card| card_entry(c)
}

/// The fictions of a listing page, in order, from its cards.
pub fn parse_grid(cards: &Vec<Card>) -> (r: Vec<WorkSummary>)
    ensures
        entries(r@) == collect_some(cards@, card_entries()),
{
    let mut out: Vec<WorkSummary> = Vec::new();
    let mut i: usize = 0;
    while i < cards.len()
        invariant
            i <= cards@.len(),
            entries(out@) == collect_some(cards@.subrange(0, i as int), card_entries()),
        decreases cards.len() - i,
    {
        assert(cards@.subrange(0, i + 1).drop_last() =~= cards@.subrange(0, i as int));
        let c = &cards[i];
        match &c.link {
            Some(a) => match a.attr("href") {
                Some(h) => {
                    if !a.text.as_str().is_empty() {
                        let cover = match &c.image {
                            Some(img) => img.attr("src"),
                            None => None,
                        };
                        let w = WorkSummary {
                            title: a.text.clone(),
                            url: absolute(h.as_str()),
                            cover_url: cover,
                        };
                        let ghost before = entries(out@);
                        let ghost e = entry_of(w);
                        out.push(w);
                        assert(entries(out@) =~= before.push(e));
                    }
                },
                None => {},
            },
            None => {},
        }
        i = i + 1;
    }
    assert(cards@.subrange(0, cards@.len() as int) =~= cards@);
    out
}

/// What the page of a fiction shows.
pub struct WorkPage {
    /// The text of `h1.font-white`.
    pub heading: Option<String>,
    /// The chapter links (`a[href*='/chapter/']`).
    pub chapter_links: Vec<Element>,
    /// The text of the author link (`h4.font-white span a`).
    pub author: Option<String>,
    /// The texts of the tag links (`span.tags a`).
    pub tags: Vec<String>,
    /// The `og:image` meta tag.
    pub og_image: Option<Element>,
    /// The text of `div.description`.
    pub description: Option<String>,
}

/// The chapter a chapter link gives: it needs a target and a text.
pub open spec fn link_chapter(e: Element) -> Option<ChapterView> {
    match e.attr_spec("href"@) {
        Some(h) => if e.text@.len() > 0 {
            Some((e.text@, absolute_on(BASE@, h), None, None))
        } else {
            None
        },
        None => None,
    }
}

/// The chapter a chapter link gives.
pub open spec fn link_chapters() -> spec_fn(Element) -> Option<ChapterView> {
    |e: Element| link_chapter(e)
}

fn link_chapters_exec(links: &Vec<Element>) -> (r: Vec<Chapter>)
    ensures
        chapter_views(r@) == collect_some(links@, link_chapters()),
{
    let mut out: Vec<Chapter> = Vec::new();
    let mut i: usize = 0;
    while i < links.len()
        invariant
            i <= links@.len(),
            chapter_views(out@) == collect_some(links@.subrange(0, i as int), link_chapters()),
        decreases links.len() - i,
    {
        assert(links@.subrange(0, i + 1).drop_last() =~= links@.subrange(0, i as int));
        let e = &links[i];
        match e.attr("href") {
            Some(h) => {
                if !e.text.as_str().is_empty() {
                    push_chapter(
                        &mut out,
                        plain_chapter(e.text.clone(), absolute(h.as_str())),
                    );
                }
            },
            None => {},
        }
        i = i + 1;
    }
    assert(links@.subrange(0, links@.len() as int) =~= links@);
    out
}

/// The details of the fiction at `url`, from its page.
pub fn work_details(url: String, page: WorkPage) -> (r: WorkDetails)
    ensures
        r.title@ == match page.heading {
            Some(h) => h@,
            None => url@,
        },
        r.url@ == url@,
        opt(r.cover_url) == match page.og_image {
            Some(m) => m.attr_spec("content"@),
            None => None,
        },
        r.alternative_names@.len() == 0,
        texts(r.authors@) == match page.author {
            Some(a) => seq![a@],
            None => Seq::empty(),
        },
        r.artists@.len() == 0,
        r.status is None,
        r.release_date is None,
        opt(r.description) == opt(page.description),
        texts(r.genres@) == nonempty_texts(texts(page.tags@)),
        chapter_views(r.chapters@) == collect_some(page.chapter_links@, link_chapters()),
        r.content_html is None,
{
    let title = match &page.heading {
        Some(h) => h.clone(),
        None => url.clone(),
    };
    let mut authors: Vec<String> = Vec::new();
    match &page.author {
        Some(a) => {
            authors.push(a.clone());
            assert(texts(authors@) =~= seq![a@]);
        },
        None => {
            assert(texts(authors@) =~= Seq::<Seq<char>>::empty());
        },
    }
    let cover_url = match &page.og_image {
        Some(m) => m.attr("content"),
        None => None,
    };
    WorkDetails {
        title,
        url,
        cover_url,
        alternative_names: Vec::new(),
        authors,
        artists: Vec::new(),
        status: None,
        release_date: None,
        description: page.description,
        genres: nonempty_texts_exec(&page.tags),
        chapters: link_chapters_exec(&page.chapter_links),
        content_html: None,
    }
}

/// The content of a chapter: the HTML of its `div.chapter-content`, as one
/// piece; an error when the page has none.
pub fn chapter_content(content_html: Option<String>) -> (r: Result<Vec<String>, SourceError>)
    ensures
        content_html matches Some(h) ==> (r matches Ok(v) && texts(v@) == seq![h@]),
        content_html is None ==> is_parse(r, "no chapter content"@),
{
    match content_html {
        Some(h) => {
            let mut v: Vec<String> = Vec::new();
            let ghost hv = h@;
            v.push(h);
            assert(texts(v@) =~= seq![hv]);
            Ok(v)
        },
        None => Err(SourceError::Parse(String::from_str("no chapter content"))),
    }
}

} // verus!
