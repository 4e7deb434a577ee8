//! WuxiaBox, a novel site.
use vstd::prelude::*;
use crate::encoding::{url_encode, url_encoded};
use crate::model::{
    agent_and_referer, header_is, BROWSER_AGENT,
    absolute_on, absolute_on_exec, chapter_of, chapter_views, collect_some, entries, entry_of,
    is_network, is_parse, is_text, lazy_src, lazy_src_exec, opt, push_chapter, string_from, texts, Chapter,
    ChapterView, Element, Entry, SourceError, SourceInfo, WorkDetails, WorkKind, WorkSummary,
};
use crate::text::{
    chars_of, decimal, decimal_exec, last_piece, last_piece_exec, push_all, push_str, trim_end_in,
    trim_end_in_exec, trim_end_str, trim_end_str_exec,
};

verus! {

/// The site's address.
pub const BASE: &'static str = "https://www.wuxiabox.com";

/// A link target or image source made absolute on the site.
pub fn absolute(url: &str) -> (r: String)
    ensures
        r@ == absolute_on(BASE@, url@),
{
    absolute_on_exec(BASE, url)
}

/// The headers of the source's requests.
pub fn request_headers() -> (r: Vec<(String, String)>)
    ensures
        r@.len() == 2,
        header_is(r@[0], "User-Agent"@, BROWSER_AGENT@),
        header_is(r@[1], "Referer"@, BASE@ + "/"@),
{
    agent_and_referer(BASE)
}

/// The description of the source.
pub fn info() -> (r: SourceInfo)
    ensures
        r.id@ == "wuxia_box"@,
        r.name@ == "WuxiaBox"@,
        r.version@ == "1.0.0"@,
        r.kind == WorkKind::Novel,
        r.icon_url is None,
        opt(r.referer_url) == Some(BASE@),
        opt(r.base_url) == Some(BASE@),
{
    SourceInfo {
        id: String::from_str("wuxia_box"),
        name: String::from_str("WuxiaBox"),
        version: String::from_str("1.0.0"),
        kind: WorkKind::Novel,
        icon_url: None,
        referer_url: Some(String::from_str(BASE)),
        base_url: Some(String::from_str(BASE)),
    }
}

// ---------------------------------------------------------------------
// Search and listings
// ---------------------------------------------------------------------

/// The address of the search form's endpoint.
pub fn search_endpoint() -> (r: String)
    ensures
        r@ == BASE@ + "/e/search/index.php"@,
{
    let mut v = chars_of(BASE);
    push_str(&mut v, "/e/search/index.php");
    string_from(v)
}

/// The form body of a search for `query`; search has a single page.
pub fn search_payload(query: &str, page: u32) -> (r: Option<String>)
    ensures
        page > 1 ==> r is None,
        page <= 1 ==> opt(r) == Some(
            "show=title&tempid=1&tbname=news&keyboard="@ + url_encoded(query@),
        ),
{
    if page > 1 {
        return None;
    }
    let mut v = chars_of("show=title&tempid=1&tbname=news&keyboard=");
    let q = url_encode(query);
    push_str(&mut v, q.as_str());
    Some(string_from(v))
}

/// The headers of a search request: user agent, referer and form type.
pub fn search_headers() -> (r: Vec<(String, String)>)
    ensures
        r@.len() == 3,
        r@[0].0@ == "User-Agent"@ && r@[0].1@ == BROWSER_AGENT@,
        r@[1].0@ == "Referer"@ && r@[1].1@ == BASE@ + "/search.html"@,
        r@[2].0@ == "Content-Type"@ && r@[2].1@ == "application/x-www-form-urlencoded"@,
{
    let mut referer = chars_of(BASE);
    push_str(&mut referer, "/search.html");
    let mut v: Vec<(String, String)> = Vec::new();
    v.push((String::from_str("User-Agent"), String::from_str(BROWSER_AGENT)));
    v.push((String::from_str("Referer"), string_from(referer)));
    v.push(
        (String::from_str("Content-Type"), String::from_str("application/x-www-form-urlencoded")),
    );
    v
}

/// The page the search endpoint answered: an error when it did not answer
/// (the status is not looked at).
pub fn search_outcome(response: Option<String>) -> (r: Result<String, SourceError>)
    ensures
        response matches Some(b) ==> is_text(r, b@),
        response is None ==> is_network(r, "empty response"@),
{
    match response {
        Some(b) => Ok(b),
        None => Err(SourceError::Network(String::from_str("empty response"))),
    }
}

/// The address of a page of a genre's novels ordered by `order`; the site
/// serves 10 pages.
pub open spec fn browse_spec(genre: Seq<char>, order: Seq<char>, page: u32) -> Option<Seq<char>> {
    if page > 10 {
        None
    } else {
        Some(BASE@ + "/list/"@ + genre + "/all-"@ + order + "-"@ + decimal(page as nat) + ".html"@)
    }
}

/// The address of a page of a genre's novels ordered by `order`.
pub fn browse_url(genre: &str, order: &str, page: u32) -> (r: Option<String>)
    ensures
        opt(r) == browse_spec(genre@, order@, page),
{
    if page > 10 {
        return None;
    }
    let mut v = chars_of(BASE);
    push_str(&mut v, "/list/");
    push_str(&mut v, genre);
    push_str(&mut v, "/all-");
    push_str(&mut v, order);
    push_str(&mut v, "-");
    let d = decimal_exec(page as u64);
    push_all(&mut v, d.as_slice());
    push_str(&mut v, ".html");
    Some(string_from(v))
}

/// The address of a page of the newest novels.
pub fn latest_url(page: u32) -> (r: Option<String>)
    ensures
        opt(r) == browse_spec("all"@, "newstime"@, page),
{
    browse_url("all", "newstime", page)
}

/// The address of a page of the most read novels.
pub fn trending_url(page: u32) -> (r: Option<String>)
    ensures
        opt(r) == browse_spec("all"@, "onclick"@, page),
{
    browse_url("all", "onclick", page)
}

/// A novel card of a listing (`li.novel-item`): its first link with a
/// title (`a[title]`), the text of its heading (`h4.novel-title`) and its
/// image.
pub struct Card {
    pub link: Option<Element>,
    pub heading: Option<String>,
    pub image: Option<Element>,
}

/// The entry a card gives: it needs a link with a target and a title (the
/// link's non-empty `title` attribute, else the heading).
pub open spec fn card_entry(c: Card) -> Option<Entry> {
    match c.link {
        None => None,
        Some(a) => {
            let t = a.attr_spec("title"@);
            let title = if t is Some && t->0.len() > 0 {
                Some(t->0)
            } else {
                opt(c.heading)
            };
            match (title, a.attr_spec("href"@)) {
                (Some(t), Some(h)) => Some(
                    (
                        t,
                        absolute_on(BASE@, h),
                        match c.image {
                            Some(i) => match lazy_src(i) {
                                Some(s) => Some(absolute_on(BASE@, s)),
                                None => None,
                            },
                            None => None,
                        },
                    ),
                ),
                _ => None,
            }
        },
    }
}

/// The entry a card gives.
pub open spec fn card_entries() -> spec_fn(Card) -> Option<Entry> {
    |c: Card| card_entry(c)
}

fn card_entry_exec(c: &Card) -> (r: Option<WorkSummary>)
    ensures
        match r {
            Some(w) => card_entry(*c) == Some(entry_of(w)),
            None => card_entry(*c) is None,
        },
{
    let a = match &c.link {
        Some(a) => a,
        None => return None,
    };
    let title = match a.attr("title") {
        Some(t) => if !t.as_str().is_empty() {
            Some(t)
        } else {
            c.heading.clone()
        },
        None => c.heading.clone(),
    };
    let title = match title {
        Some(t) => t,
        None => return None,
    };
    let h = match a.attr("href") {
        Some(h) => h,
        None => return None,
    };
    let cover = match &c.image {
        Some(i) => match lazy_src_exec(i) {
            Some(s) => Some(absolute(s.as_str())),
            None => None,
        },
        None => None,
    };
    Some(WorkSummary { title, url: absolute(h.as_str()), cover_url: cover })
}

/// The novels of a listing page, in order, from its cards.
pub fn parse_grid(cards: &Vec<Card>) -> (r: Vec<WorkSummary>)
    ensures
        entries(r@) == collect_some(cards@, card_entries()),
{
    let mut out: Vec<WorkSummary> = Vec::new();
    let mut i: usize = 0;
    while i < cards.len()
        invariant
            i <= cards@.len(),
            entries(out@) == collect_some(cards@.subrange(0, i as int), card_entries()),
        decreases cards.len() - i,
    {
        assert(cards@.subrange(0, i + 1).drop_last() =~= cards@.subrange(0, i as int));
        match card_entry_exec(&cards[i]) {
            Some(w) => {
                let ghost before = entries(out@);
                let ghost e = entry_of(w);
                out.push(w);
                assert(entries(out@) =~= before.push(e));
            },
            None => {},
        }
        i = i + 1;
    }
    assert(cards@.subrange(0, cards@.len() as int) =~= cards@);
    out
}

// ---------------------------------------------------------------------
// Work pages
// ---------------------------------------------------------------------

/// The id of a novel: the last segment of its address (without trailing
/// slashes), without its `.html` suffixes.
pub open spec fn novel_id(url: Seq<char>) -> Seq<char> {
    trim_end_str(last_piece(trim_end_in(url, "/"@), "/"@), ".html"@)
}

/// The address of the chapter list of the novel at `url`.
pub open spec fn chapters_spec(url: Seq<char>) -> Seq<char> {
    BASE@ + "/e/extend/fy.php?page=0&wjm="@ + novel_id(url) + "&X-Requested-With=XMLHttpRequest"@
}

/// The address of the chapter list of the novel at `url`.
pub fn chapters_url(url: &str) -> (r: String)
    ensures
        r@ == chapters_spec(url@),
{
    let u = chars_of(url);
    let slash = chars_of("/");
    let html = chars_of(".html");
    let trimmed = trim_end_in_exec(u.as_slice(), slash.as_slice());
    let last = last_piece_exec(trimmed.as_slice(), slash.as_slice());
    let id = trim_end_str_exec(last.as_slice(), html.as_slice());
    let mut v = chars_of(BASE);
    push_str(&mut v, "/e/extend/fy.php?page=0&wjm=");
    push_all(&mut v, id.as_slice());
    push_str(&mut v, "&X-Requested-With=XMLHttpRequest");
    string_from(v)
}

/// An item of the chapter list (`ul.chapter-list li`): its link, the text of
/// its title (`strong.chapter-title`) and of its time.
pub struct ChapterItem {
    pub link: Option<Element>,
    pub title: Option<String>,
    pub time: Option<String>,
}

/// The chapter an item gives: it needs a link with a target.
pub open spec fn item_chapter(c: ChapterItem) -> Option<ChapterView> {
    match c.link {
        Some(a) => match a.attr_spec("href"@) {
            Some(h) => Some(
                (
                    match c.title {
                        Some(t) => t@,
                        None => Seq::empty(),
                    },
                    absolute_on(BASE@, h),
                    opt(c.time),
                    None,
                ),
            ),
            None => None,
        },
        None => None,
    }
}

/// The chapter an item gives.
pub open spec fn item_chapters() -> spec_fn(ChapterItem) -> Option<ChapterView> {
    |c: ChapterItem| item_chapter(c)
}

/// The chapters of the chapter list, in order.
pub fn parse_chapters(items: &Vec<ChapterItem>) -> (r: Vec<Chapter>)
    ensures
        chapter_views(r@) == collect_some(items@, item_chapters()),
{
    let mut out: Vec<Chapter> = Vec::new();
    let mut i: usize = 0;
    while i < items.len()
        invariant
            i <= items@.len(),
            chapter_views(out@) == collect_some(items@.subrange(0, i as int), item_chapters()),
        decreases items.len() - i,
    {
        assert(items@.subrange(0, i + 1).drop_last() =~= items@.subrange(0, i as int));
        let c = &items[i];
        match &c.link {
            Some(a) => match a.attr("href") {
                Some(h) => {
                    let title = match &c.title {
                        Some(t) => t.clone(),
                        None => String::new(),
                    };
                    push_chapter(
                        &mut out,
                        Chapter {
                            title,
                            url: absolute(h.as_str()),
                            date: c.time.clone(),
                            scanlation_group: None,
                        },
                    );
                },
                None => {},
            },
            None => {},
        }
        i = i + 1;
    }
    assert(items@.subrange(0, items@.len() as int) =~= items@);
    out
}

/// What the page of a novel shows.
pub struct WorkPage {
    /// The text of `h1.novel-title`.
    pub heading: Option<String>,
    /// The text of the first author (`[itemprop='author']`).
    pub author: Option<String>,
    /// The text of `p.description`.
    pub description: Option<String>,
    /// The `og:image` meta tag.
    pub og_image: Option<Element>,
}

/// The details of the novel at `url`, from its page and its chapter list.
pub fn work_details(url: String, page: WorkPage, chapters: Vec<Chapter>) -> (r: WorkDetails)
    ensures
        r.title@ == match page.heading {
            Some(h) => h@,
            None => url@,
        },
        r.url@ == url@,
        opt(r.cover_url) == match page.og_image {
            Some(m) => m.attr_spec("content"@),
            None => None,
        },
        r.alternative_names@.len() == 0,
        texts(r.authors@) == match page.author {
            Some(a) => seq![a@],
            None => Seq::empty(),
        },
        r.artists@.len() == 0,
        r.status is None,
        r.release_date is None,
        opt(r.description) == opt(page.description),
        r.genres@.len() == 0,
        r.chapters@ == chapters@,
        r.content_html is None,
{
    let title = match &page.heading {
        Some(h) => h.clone(),
        None => url.clone(),
    };
    let mut authors: Vec<String> = Vec::new();
    match &page.author {
        Some(a) => {
            authors.push(a.clone());
            assert(texts(authors@) =~= seq![a@]);
        },
        None => {
            assert(texts(authors@) =~= Seq::<Seq<char>>::empty());
        },
    }
    let cover_url = match &page.og_image {
        Some(m) => m.attr("content"),
        None => None,
    };
    WorkDetails {
        title,
        url,
        cover_url,
        alternative_names: Vec::new(),
        authors,
        artists: Vec::new(),
        status: None,
        release_date: None,
        description: page.description,
        genres: Vec::new(),
        chapters,
        content_html: None,
    }
}

/// The content of a chapter: the HTML of its `div.chapter-content`, as one
/// piece; an error when the page has none.
pub fn chapter_content(content_html: Option<String>) -> (r: Result<Vec<String>, SourceError>)
    ensures
        content_html matches Some(h) ==> (r matches Ok(v) && texts(v@) == seq![h@]),
        content_html is None ==> is_parse(r, "no chapter content"@),
{
    match content_html {
        Some(h) => {
            let mut v: Vec<String> = Vec::new();
            let ghost hv = h@;
            v.push(h);
            assert(texts(v@) =~= seq![hv]);
            Ok(v)
        },
        None => Err(SourceError::Parse(String::from_str("no chapter content"))),
    }
}

} // verus!
