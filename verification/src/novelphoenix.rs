//! NovelPhoenix, a novel site.
use vstd::prelude::*;
use crate::encoding::{url_encode, url_encoded};
use crate::model::{
    header_is, referer_and_agent, BROWSER_AGENT,
    nonempty_texts, nonempty_texts_exec,
    absolute_on, absolute_on_exec, chapter_views, collect_new, collect_some, distinct_by,
    distinct_nonempty, entries, entry_of, filled, filled_exec, is_parse, non_blank, non_blank_exec,
    opt, page_cover_on, page_cover_on_exec, plain_chapter, push_chapter, push_if_new,
    string_from, texts, Chapter, ChapterView, Element, Entry, SourceError, SourceInfo, WorkDetails,
    WorkKind, WorkSummary,
};
use crate::text::{
    chars_of, contains, contains_exec, decimal, decimal_exec, drop_suffix, drop_suffix_exec,
    push_all, push_str, trim, trim_end_in, trim_end_in_exec, trim_exec,
};

verus! {

/// The site's address.
pub const BASE: &'static str = "https://novelphoenix.com";

/// The headers of the source's requests.
pub fn request_headers() -> (r: Vec<(String, String)>)
    ensures
        r@.len() == 2,
        header_is(r@[0], "Referer"@, BASE@ + "/"@),
        header_is(r@[1], "User-Agent"@, BROWSER_AGENT@),
{
    referer_and_agent(BASE)
}

/// The description of the source.
pub fn info() -> (r: SourceInfo)
    ensures
        r.id@ == "novelphoenix"@,
        r.name@ == "NovelPhoenix"@,
        r.version@ == "1.0.1"@,
        r.kind == WorkKind::Novel,
        r.icon_url is None,
        opt(r.referer_url) == Some(BASE@ + "/"@),
        opt(r.base_url) == Some(BASE@),
{
    let mut referer = chars_of(BASE);
    push_str(&mut referer, "/");
    SourceInfo {
        id: String::from_str("novelphoenix"),
        name: String::from_str("NovelPhoenix"),
        version: String::from_str("1.0.1"),
        kind: WorkKind::Novel,
        icon_url: None,
        referer_url: Some(string_from(referer)),
        base_url: Some(String::from_str(BASE)),
    }
}

/// The address of a page of search results for `query`; the site serves 100.
pub fn search_url(query: &str, page: u32) -> (r: Option<String>)
    ensures
        page > 100 ==> r is None,
        page <= 100 ==> opt(r) == Some(
            BASE@ + "/search?keyword="@ + url_encoded(query@) + "&page="@ + decimal(page as nat),
        ),
{
    if page > 100 {
        return None;
    }
    let mut v = chars_of(BASE);
    push_str(&mut v, "/search?keyword=");
    let q = url_encode(query);
    push_str(&mut v, q.as_str());
    push_str(&mut v, "&page=");
    let d = decimal_exec(page as u64);
    push_all(&mut v, d.as_slice());
    Some(string_from(v))
}

fn paged(path: &str, page: u32) -> (r: String)
    ensures
        r@ == BASE@ + path@ + "?page="@ + decimal(page as nat),
{
    let mut v = chars_of(BASE);
    push_str(&mut v, path);
    push_str(&mut v, "?page=");
    let d = decimal_exec(page as u64);
    push_all(&mut v, d.as_slice());
    string_from(v)
}

/// The address of a page of the latest releases; the site serves 500.
pub fn latest_url(page: u32) -> (r: Option<String>)
    ensures
        page > 500 ==> r is None,
        page <= 500 ==> opt(r) == Some(
            BASE@ + "/latest-release-novels"@ + "?page="@ + decimal(page as nat),
        ),
{
    if page > 500 {
        return None;
    }
    Some(paged("/latest-release-novels", page))
}

/// The address of a page of the popular novels; the site serves 50.
pub fn trending_url(page: u32) -> (r: Option<String>)
    ensures
        page > 50 ==> r is None,
        page <= 50 ==> opt(r) == Some(
            BASE@ + "/genre-all/sort-popular/status-all/all-novel"@ + "?page="@ + decimal(page as nat),
        ),
{
    if page > 50 {
        return None;
    }
    Some(paged("/genre-all/sort-popular/status-all/all-novel", page))
}

// ---------------------------------------------------------------------
// Listings
// ---------------------------------------------------------------------

/// The entry a link to a novel gives (not one to a chapter); the title is
/// the link's `title` attribute unless empty, else its text, without the
/// site's ` | NovelFire` suffix, trimmed.
pub open spec fn link_entry(e: Element) -> Option<Entry> {
    match e.attr_spec("href"@) {
        Some(h) => if !contains(h, "/chapter-"@) {
            let t = e.attr_spec("title"@);
            let title = if t is Some && t->0.len() > 0 {
                t->0
            } else {
                e.text@
            };
            Some((trim(drop_suffix(title, " | NovelFire"@)), BASE@ + h, None))
        } else {
            None
        },
        None => None,
    }
}

/// The entry a link to a novel gives.
pub open spec fn link_entries() -> spec_fn(Element) -> Option<Entry> {
    |e: Element| link_entry(e)
}

fn link_entry_exec(e: &Element) -> (r: Option<WorkSummary>)
    ensures
        match r {
            Some(w) => link_entry(*e) == Some(entry_of(w)),
            None => link_entry(*e) is None,
        },
{
    let h = match e.attr("href") {
        Some(h) => h,
        None => return None,
    };
    let hc = chars_of(h.as_str());
    let chapter = chars_of("/chapter-");
    if contains_exec(hc.as_slice(), chapter.as_slice()) {
        return None;
    }
    let title = match e.attr("title") {
        Some(t) => if !t.as_str().is_empty() {
            t
        } else {
            e.text.clone()
        },
        None => e.text.clone(),
    };
    let tc = chars_of(title.as_str());
    let suffix = chars_of(" | NovelFire");
    let stripped = drop_suffix_exec(tc.as_slice(), suffix.as_slice());
    let mut url = chars_of(BASE);
    push_all(&mut url, hc.as_slice());
    Some(
        WorkSummary {
            title: string_from(trim_exec(stripped.as_slice())),
            url: string_from(url),
            cover_url: None,
        },
    )
}

/// The novels of a listing page, once each, from its links to novels
/// (`a[href^='/novel/']`); the source queries the links twice and reads
/// them twice over.
pub fn parse_items(links: &Vec<Element>) -> (r: Vec<WorkSummary>)
    ensures
        entries(r@) == collect_new(links@ + links@, link_entries()),
{
    let ghost all = links@ + links@;
    let mut out: Vec<WorkSummary> = Vec::new();
    let mut pass: usize = 0;
    while pass < 2
        invariant
            pass <= 2,
            all == links@ + links@,
            entries(out@) == collect_new(all.subrange(0, pass * links@.len()), link_entries()),
        decreases 2 - pass,
    {
        let mut i: usize = 0;
        while i < links.len()
            invariant
                pass < 2,
                i <= links@.len(),
                all == links@ + links@,
                entries(out@) == collect_new(
                    all.subrange(0, pass * links@.len() + i),
                    link_entries(),
                ),
            decreases links.len() - i,
        {
            let ghost j = pass * links@.len() + i;
            assert(all.subrange(0, j + 1).drop_last() =~= all.subrange(0, j));
            assert(all[j] == links@[i as int]);
            match link_entry_exec(&links[i]) {
                Some(w) => push_if_new(&mut out, w),
                None => {},
            }
            i = i + 1;
        }
        pass = pass + 1;
        assert(entries(out@) == collect_new(all.subrange(0, pass * links@.len()), link_entries()))
            by (nonlinear_arith)
            requires
                entries(out@) == collect_new(
                    all.subrange(0, (pass - 1) * links@.len() + links@.len()),
                    link_entries(),
                ),
        ;
    }
    assert(all.subrange(0, all.len() as int) =~= all);
    out
}

// ---------------------------------------------------------------------
// Work pages
// ---------------------------------------------------------------------

/// The address of a page of the chapter list of the novel at `url`.
pub open spec fn chapters_page_spec(url: Seq<char>, page: u32) -> Seq<char> {
    trim_end_in(url, "/"@) + "/chapters"@ + "?page="@ + decimal(page as nat)
}

/// The address of a page of the chapter list of the novel at `url`.
pub fn chapters_page_url(url: &str, page: u32) -> (r: String)
    ensures
        r@ == chapters_page_spec(url@, page),
{
    let u = chars_of(url);
    let slash = chars_of("/");
    let mut v = trim_end_in_exec(u.as_slice(), slash.as_slice());
    push_str(&mut v, "/chapters");
    push_str(&mut v, "?page=");
    let d = decimal_exec(page as u64);
    push_all(&mut v, d.as_slice());
    string_from(v)
}

/// The chapter a chapter link gives (`ul.chapter-list li a`): it needs a
/// target and a text.
pub open spec fn link_chapter(e: Element) -> Option<ChapterView> {
    match e.attr_spec("href"@) {
        Some(h) => if e.text@.len() > 0 {
            Some((e.text@, absolute_on(BASE@, h), None, None))
        } else {
            None
        },
        None => None,
    }
}

/// The chapter a chapter link gives.
pub open spec fn link_chapters() -> spec_fn(Element) -> Option<ChapterView> {
    |e: Element| link_chapter(e)
}

/// The chapters of a page of the chapter list, from its chapter links.
pub fn chapter_links(links: &Vec<Element>) -> (r: Vec<Chapter>)
    ensures
        chapter_views(r@) == collect_some(links@, link_chapters()),
{
    let mut out: Vec<Chapter> = Vec::new();
    let mut i: usize = 0;
    while i < links.len()
        invariant
            i <= links@.len(),
            chapter_views(out@) == collect_some(links@.subrange(0, i as int), link_chapters()),
        decreases links.len() - i,
    {
        assert(links@.subrange(0, i + 1).drop_last() =~= links@.subrange(0, i as int));
        let e = &links[i];
        match e.attr("href") {
            Some(h) => {
                if !e.text.as_str().is_empty() {
                    push_chapter(
                        &mut out,
                        plain_chapter(e.text.clone(), absolute_on_exec(BASE, h.as_str())),
                    );
                }
            },
            None => {},
        }
        i = i + 1;
    }
    assert(links@.subrange(0, links@.len() as int) =~= links@);
    out
}

/// The last page of the chapter list that is read (pages count from 1).
pub const LAST_CHAPTER_PAGE: u32 = 200;

/// Adds the chapters of page `page` of the chapter list, read from its
/// chapter links, to `acc`, and says whether to ask for the next page: not
/// after a page that gives no chapter, nor after the last page that is
/// read.
pub fn chapter_page_step(page: u32, links: &Vec<Element>, acc: &mut Vec<Chapter>) -> (more: bool)
    ensures
        chapter_views(final(acc)@) == chapter_views(old(acc)@) + collect_some(
            links@,
            link_chapters(),
        ),
        more == (collect_some(links@, link_chapters()).len() > 0 && page < LAST_CHAPTER_PAGE),
{
    let mut found = chapter_links(links);
    let any = found.len() > 0;
    let ghost before = acc@;
    let ghost added = found@;
    acc.append(&mut found);
    assert(chapter_views(acc@) =~= chapter_views(before) + chapter_views(added));
    any && page < LAST_CHAPTER_PAGE
}

/// What the page of a novel shows.
pub struct WorkPage {
    /// The text of `h1.novel-title`.
    pub title_heading: Option<String>,
    /// The text of the first `h1`.
    pub heading: Option<String>,
    /// The texts of the authors (`[itemprop='author']`).
    pub authors: Vec<String>,
    /// Whether the page marks the novel as ongoing (`strong.ongoing`).
    pub ongoing: bool,
    /// Whether the page marks the novel as completed (`strong.completed`).
    pub completed: bool,
    /// The text of `.summary .content`.
    pub description: Option<String>,
    /// The texts of the category links.
    pub genres: Vec<String>,
    /// The `og:image` meta tag.
    pub og_image: Option<Element>,
    /// The cover image.
    pub cover_image: Option<Element>,
    /// The chapter links of the page itself.
    pub chapter_links: Vec<Element>,
}

/// The details of the novel at `url`, from its page and the chapters read
/// from the pages of its chapter list; when those gave none, the chapter
/// links of the novel's page are read instead.
pub fn work_details(url: String, page: WorkPage, paged_chapters: Vec<Chapter>) -> (r: WorkDetails)
    ensures
        r.title@ == match page.title_heading {
            Some(h) => h@,
            None => match page.heading {
                Some(h) => h@,
                None => url@,
            },
        },
        r.url@ == url@,
        opt(r.cover_url) == page_cover_on(BASE@, page.og_image, page.cover_image),
        r.alternative_names@.len() == 0,
        texts(r.authors@) == nonempty_texts(texts(page.authors@)),
        r.artists@.len() == 0,
        opt(r.status) == if page.ongoing {
            Some("Ongoing"@)
        } else if page.completed {
            Some("Completed"@)
        } else {
            None
        },
        r.release_date is None,
        opt(r.description) == filled(page.description),
        texts(r.genres@) == distinct_by(texts(page.genres@), |t: Seq<char>| t.len() > 0),
        paged_chapters@.len() > 0 ==> r.chapters@ == paged_chapters@,
        paged_chapters@.len() == 0 ==> chapter_views(r.chapters@) == collect_some(
            page.chapter_links@,
            link_chapters(),
        ),
        r.content_html is None,
{
    let title = match &page.title_heading {
        Some(h) => h.clone(),
        None => match &page.heading {
            Some(h) => h.clone(),
            None => url.clone(),
        },
    };
    let status = if page.ongoing {
        Some(String::from_str("Ongoing"))
    } else if page.completed {
        Some(String::from_str("Completed"))
    } else {
        None
    };
    let chapters = if paged_chapters.len() > 0 {
        paged_chapters
    } else {
        chapter_links(&page.chapter_links)
    };
    WorkDetails {
        title,
        url,
        cover_url: page_cover_on_exec(BASE, &page.og_image, &page.cover_image),
        alternative_names: Vec::new(),
        authors: nonempty_texts_exec(&page.authors),
        artists: Vec::new(),
        status,
        release_date: None,
        description: filled_exec(page.description),
        genres: distinct_nonempty(&page.genres),
        chapters,
        content_html: None,
    }
}

/// The paragraphs of a chapter: the texts of `#content` that are not blank,
/// else those of `.chapter-content`; an error when neither has any.
pub fn chapter_paragraphs(content: &Vec<String>, alternative: &Vec<String>) -> (r: Result<
    Vec<String>,
    SourceError,
>)
    ensures
        non_blank(texts(content@)).len() > 0 ==> (r matches Ok(v) && texts(v@) == non_blank(
            texts(content@),
        )),
        non_blank(texts(content@)).len() == 0 && non_blank(texts(alternative@)).len() > 0 ==> (
        r matches Ok(v) && texts(v@) == non_blank(texts(alternative@))),
        non_blank(texts(content@)).len() == 0 && non_blank(texts(alternative@)).len() == 0
            ==> is_parse(r, "no content found in chapter page"@),
{
    let first = non_blank_exec(content);
    if first.len() > 0 {
        return Ok(first);
    }
    let second = non_blank_exec(alternative);
    if second.len() > 0 {
        return Ok(second);
    }
    Err(SourceError::Parse(String::from_str("no content found in chapter page")))
}

} // verus!
