//! Mangabuddy (served from comizy.io), a manga site built with Next.js.
use vstd::prelude::*;
use crate::encoding::{url_encode, url_encoded};
use crate::model::{
    header_is, referer_and_agent, BROWSER_AGENT,
    absolute_on, absolute_on_exec, chapter_views, collect_new, collect_some, contains_text,
    distinct_by, distinct_nonempty, entries, entry_of, filled, filled_exec, is_parse, opt,
    plain_chapter, push_chapter, push_if_new, reversed, string_from, texts, Chapter, ChapterView,
    Element, Entry, SourceError, SourceInfo, WorkDetails, WorkKind, WorkSummary,
};
use crate::text::{
    before, before_exec, chars_of, contains, contains_exec, decimal, decimal_exec, drop_prefix,
    drop_prefix_exec, eq_chars, eq_ignore_case, eq_ignore_case_exec, push_all, push_str,
    slice_chars, starts_with, starts_with_exec, trim_end_in, trim_end_in_exec, trim_start,
    trim_start_exec, trim_start_in, trim_start_in_exec,
};

verus! {

/// The site's address.
pub const BASE: &'static str = "https://comizy.io";

/// The headers of the source's requests.
pub fn request_headers() -> (r: Vec<(String, String)>)
    ensures
        r@.len() == 2,
        header_is(r@[0], "Referer"@, BASE@ + "/"@),
        header_is(r@[1], "User-Agent"@, BROWSER_AGENT@),
{
    referer_and_agent(BASE)
}

/// The description of the source.
pub fn info() -> (r: SourceInfo)
    ensures
        r.id@ == "mangabuddy"@,
        r.name@ == "Mangabuddy"@,
        r.version@ == "1.0.1"@,
        r.kind == WorkKind::Manga,
        r.icon_url is None,
        opt(r.referer_url) == Some(BASE@ + "/"@),
        opt(r.base_url) == Some(BASE@),
{
    let mut referer = chars_of(BASE);
    push_str(&mut referer, "/");
    SourceInfo {
        id: String::from_str("mangabuddy"),
        name: String::from_str("Mangabuddy"),
        version: String::from_str("1.0.1"),
        kind: WorkKind::Manga,
        icon_url: None,
        referer_url: Some(string_from(referer)),
        base_url: Some(String::from_str(BASE)),
    }
}

/// The address of a page of search results for `query`; the site serves 20.
pub fn search_url(query: &str, page: u32) -> (r: Option<String>)
    ensures
        page > 20 ==> r is None,
        page <= 20 ==> opt(r) == Some(
            BASE@ + "/search?q="@ + url_encoded(query@) + "&page="@ + decimal(page as nat),
        ),
{
    if page > 20 {
        return None;
    }
    let mut v = chars_of(BASE);
    push_str(&mut v, "/search?q=");
    let q = url_encode(query);
    push_str(&mut v, q.as_str());
    push_str(&mut v, "&page=");
    let d = decimal_exec(page as u64);
    push_all(&mut v, d.as_slice());
    Some(string_from(v))
}

/// The address of a page of the latest updates; the site serves 10.
pub fn latest_url(page: u32) -> (r: Option<String>)
    ensures
        page > 10 ==> r is None,
        page <= 10 ==> opt(r) == Some(BASE@ + "/latest?page="@ + decimal(page as nat)),
{
    if page > 10 {
        return None;
    }
    let mut v = chars_of(BASE);
    push_str(&mut v, "/latest?page=");
    let d = decimal_exec(page as u64);
    push_all(&mut v, d.as_slice());
    Some(string_from(v))
}

/// The address of the ranking; a single page.
pub fn trending_url(page: u32) -> (r: Option<String>)
    ensures
        page > 1 ==> r is None,
        page <= 1 ==> opt(r) == Some(BASE@ + "/ranking"@),
{
    if page > 1 {
        return None;
    }
    let mut v = chars_of(BASE);
    push_str(&mut v, "/ranking");
    Some(string_from(v))
}

// ---------------------------------------------------------------------
// Listings
// ---------------------------------------------------------------------

/// The first path segments that are pages of the site, not works.
pub open spec fn reserved(segment: Seq<char>) -> bool {
    ||| segment == "lists"@
    ||| segment == "ranking"@
    ||| segment == "genres"@
    ||| segment == "authors"@
    ||| segment == "search"@
    ||| segment == "latest"@
    ||| segment == "static"@
    ||| segment == "library"@
    ||| segment == "settings"@
}

fn reserved_exec(segment: &[char]) -> (r: bool)
    ensures
        r == reserved(segment@),
{
    let a = chars_of("lists");
    let b = chars_of("ranking");
    let c = chars_of("genres");
    let d = chars_of("authors");
    let e = chars_of("search");
    let f = chars_of("latest");
    let g = chars_of("static");
    let h = chars_of("library");
    let i = chars_of("settings");
    eq_chars(segment, a.as_slice()) || eq_chars(segment, b.as_slice()) || eq_chars(
        segment,
        c.as_slice(),
    ) || eq_chars(segment, d.as_slice()) || eq_chars(segment, e.as_slice()) || eq_chars(
        segment,
        f.as_slice(),
    ) || eq_chars(segment, g.as_slice()) || eq_chars(segment, h.as_slice()) || eq_chars(
        segment,
        i.as_slice(),
    )
}

/// A link target without its trailing slashes.
pub open spec fn link_path(href: Seq<char>) -> Seq<char> {
    trim_end_in(href, "/"@)
}

/// A link the listing can read: its target, without trailing slashes, is
/// not empty and starts with a one-byte character (the listing cuts it
/// after its first byte).
pub open spec fn readable_link(e: Element) -> bool {
    e.attr_spec("href"@) matches Some(h) ==> link_path(h).len() > 0 && (link_path(h)[0] as u32)
        < 0x80
}

/// The entry a link gives: it needs a target of a single path segment
/// (without a dot) that is not a page of the site; the title is the
/// link's `title` attribute unless empty, else its text.
pub open spec fn link_entry(e: Element) -> Option<Entry> {
    match e.attr_spec("href"@) {
        None => None,
        Some(h) => {
            let path = link_path(h);
            let segment = path.subrange(1, path.len() as int);
            if path == "/"@ || contains(segment, "/"@) || contains(path, "."@) || reserved(segment) {
                None
            } else {
                let t = e.attr_spec("title"@);
                Some(
                    (
                        if t is Some && t->0.len() > 0 {
                            t->0
                        } else {
                            e.text@
                        },
                        BASE@ + path,
                        None,
                    ),
                )
            }
        },
    }
}

/// The pages of the site that a listing links to besides its works.
pub open spec fn site_pages() -> Seq<Seq<char>> {
    seq![
        "lists"@,
        "ranking"@,
        "genres"@,
        "authors"@,
        "search"@,
        "latest"@,
        "static"@,
        "library"@,
        "settings"@,
    ]
}

/// No entry of a listing is a page of the site: a link to `/lists`,
/// `/ranking`, `/genres`, `/authors`, `/search`, `/latest`, `/static`,
/// `/library` or `/settings` (trailing slashes aside) gives no work, while a
/// link to any other single non-empty segment without a dot gives the work
/// at that address.
pub proof fn lemma_site_pages_are_not_works(e: Element, segment: Seq<char>)
    requires
        e.attr_spec("href"@) is Some,
        link_path(e.attr_spec("href"@)->0) == "/"@ + segment,
    ensures
        site_pages().contains(segment) ==> link_entry(e) is None,
        (!site_pages().contains(segment) && segment.len() > 0 && !contains(segment, "/"@)
            && !contains(link_path(e.attr_spec("href"@)->0), "."@)) ==> (link_entry(e) is Some
            && (link_entry(e)->0).1 == BASE@ + "/"@ + segment),
{
    reveal_strlit("/");
    let path = link_path(e.attr_spec("href"@)->0);
    assert(path.subrange(1, path.len() as int) =~= segment);
    if site_pages().contains(segment) {
        let k = choose|k: int| 0 <= k < site_pages().len() && site_pages()[k] == segment;
        assert(reserved(segment));
    } else {
        assert(segment != site_pages()[0]);
        assert(segment != site_pages()[1]);
        assert(segment != site_pages()[2]);
        assert(segment != site_pages()[3]);
        assert(segment != site_pages()[4]);
        assert(segment != site_pages()[5]);
        assert(segment != site_pages()[6]);
        assert(segment != site_pages()[7]);
        assert(segment != site_pages()[8]);
        assert(!reserved(segment));
        if segment.len() > 0 {
            assert(path.len() > 1);
            assert(path != "/"@);
        }
    }
}

/// The entry a link gives.
pub open spec fn link_entries() -> spec_fn(Element) -> Option<Entry> {
    |e: Element| link_entry(e)
}

fn link_entry_exec(e: &Element) -> (r: Option<WorkSummary>)
    requires
        readable_link(*e),
    ensures
        match r {
            Some(w) => link_entry(*e) == Some(entry_of(w)),
            None => link_entry(*e) is None,
        },
{
    let h = match e.attr("href") {
        Some(h) => h,
        None => return None,
    };
    let hc = chars_of(h.as_str());
    let slash = chars_of("/");
    let dot = chars_of(".");
    let path = trim_end_in_exec(hc.as_slice(), slash.as_slice());
    let segment = slice_chars(path.as_slice(), 1, path.len());
    if eq_chars(path.as_slice(), slash.as_slice()) || contains_exec(segment.as_slice(), slash.as_slice())
        || contains_exec(path.as_slice(), dot.as_slice()) || reserved_exec(segment.as_slice()) {
        return None;
    }
    let title = match e.attr("title") {
        Some(t) => if !t.as_str().is_empty() {
            t
        } else {
            e.text.clone()
        },
        None => e.text.clone(),
    };
    let mut url = chars_of(BASE);
    push_all(&mut url, path.as_slice());
    Some(WorkSummary { title, url: string_from(url), cover_url: None })
}

/// The works of a listing page, once each, from its links to site paths
/// (`a[href^='/']`). The segment is read from the second byte of the
/// target on, so a target made only of slashes, or starting with a
/// character of more than one byte, cannot be read; such links are left out
/// of the input (see `links_readable`).
pub fn parse_items(links: &Vec<Element>) -> (r: Vec<WorkSummary>)
    requires
        forall|i: int| 0 <= i < links@.len() ==> readable_link(#[trigger] links@[i]),
    ensures
        entries(r@) == collect_new(links@, link_entries()),
{
    let mut out: Vec<WorkSummary> = Vec::new();
    let mut i: usize = 0;
    while i < links.len()
        invariant
            i <= links@.len(),
            forall|i: int| 0 <= i < links@.len() ==> readable_link(#[trigger] links@[i]),
            entries(out@) == collect_new(links@.subrange(0, i as int), link_entries()),
        decreases links.len() - i,
    {
        assert(links@.subrange(0, i + 1).drop_last() =~= links@.subrange(0, i as int));
        match link_entry_exec(&links[i]) {
            Some(w) => push_if_new(&mut out, w),
            None => {},
        }
        i = i + 1;
    }
    assert(links@.subrange(0, links@.len() as int) =~= links@);
    out
}

/// Whether every link of a listing page can be read (see `parse_items`).
pub fn links_readable(links: &Vec<Element>) -> (r: bool)
    ensures
        r == forall|i: int| 0 <= i < links@.len() ==> readable_link(#[trigger] links@[i]),
{
    let mut i: usize = 0;
    while i < links.len()
        invariant
            i <= links@.len(),
            forall|k: int| 0 <= k < i ==> readable_link(#[trigger] links@[k]),
        decreases links.len() - i,
    {
        match links[i].attr("href") {
            Some(h) => {
                let hc = chars_of(h.as_str());
                let slash = chars_of("/");
                let path = trim_end_in_exec(hc.as_slice(), slash.as_slice());
                if path.len() == 0 || path[0] as u32 >= 0x80 {
                    return false;
                }
            },
            None => {},
        }
        i = i + 1;
    }
    true
}

// ---------------------------------------------------------------------
// Work pages
// ---------------------------------------------------------------------

/// The first segment of the path of a work address.
pub open spec fn work_path_spec(url: Seq<char>) -> Seq<char> {
    before(trim_start_in(drop_prefix(url, BASE@), "/"@), "/"@)
}

/// The first segment of the path of a work address (the address may or may
/// not start with the site's address).
pub fn work_path(url: &str) -> (r: String)
    ensures
        r@ == work_path_spec(url@),
{
    let u = chars_of(url);
    let base = chars_of(BASE);
    let slash = chars_of("/");
    let without = drop_prefix_exec(u.as_slice(), base.as_slice());
    let trimmed = trim_start_in_exec(without.as_slice(), slash.as_slice());
    string_from(before_exec(trimmed.as_slice(), slash.as_slice()))
}

/// A chapter address made absolute.
pub fn absolute_url(path: &str) -> (r: String)
    ensures
        r@ == absolute_on(BASE@, path@),
{
    absolute_on_exec(BASE, path)
}

/// A chapter of the `initialManga.chapters` array of the page's Next.js data.
pub struct NextChapter {
    /// `name`, when a string.
    pub name: Option<String>,
    /// `url`, when a string.
    pub url: Option<String>,
    /// `updatedAt`, when a string.
    pub updated_at: Option<String>,
}

/// The chapter a Next.js chapter gives: it needs a name and an address.
pub open spec fn next_chapter(c: NextChapter) -> Option<ChapterView> {
    match (c.name, c.url) {
        (Some(n), Some(u)) => Some((n@, absolute_on(BASE@, u@), opt(c.updated_at), None)),
        _ => None,
    }
}

/// The chapter a Next.js chapter gives.
pub open spec fn next_chapters() -> spec_fn(NextChapter) -> Option<ChapterView> {
    |c: NextChapter| next_chapter(c)
}

/// The chapters of the page's Next.js data.
pub fn next_data_chapters(items: &Vec<NextChapter>) -> (r: Vec<Chapter>)
    ensures
        chapter_views(r@) == collect_some(items@, next_chapters()),
{
    let mut out: Vec<Chapter> = Vec::new();
    let mut i: usize = 0;
    while i < items.len()
        invariant
            i <= items@.len(),
            chapter_views(out@) == collect_some(items@.subrange(0, i as int), next_chapters()),
        decreases items.len() - i,
    {
        assert(items@.subrange(0, i + 1).drop_last() =~= items@.subrange(0, i as int));
        let c = &items[i];
        match (&c.name, &c.url) {
            (Some(n), Some(u)) => {
                push_chapter(
                    &mut out,
                    Chapter {
                        title: n.clone(),
                        url: absolute_url(u.as_str()),
                        date: c.updated_at.clone(),
                        scanlation_group: None,
                    },
                );
            },
            _ => {},
        }
        i = i + 1;
    }
    assert(items@.subrange(0, items@.len() as int) =~= items@);
    out
}

/// The chapter a chapter link of the page gives: it needs a target within
/// the work's path and a text starting with `Chapter`.
pub open spec fn link_chapter(e: Element, path: Seq<char>) -> Option<ChapterView> {
    match e.attr_spec("href"@) {
        Some(h) => if contains(h, path) && starts_with(trim_start(e.text@), "Chapter"@) {
            Some((e.text@, absolute_on(BASE@, h), None, None))
        } else {
            None
        },
        None => None,
    }
}

/// The chapter a chapter link of the page gives.
pub open spec fn link_chapters(path: Seq<char>) -> spec_fn(Element) -> Option<ChapterView> {
    |e: Element| link_chapter(e, path)
}

fn link_chapters_exec(links: &Vec<Element>, path: &String) -> (r: Vec<Chapter>)
    ensures
        chapter_views(r@) == collect_some(links@, link_chapters(path@)),
{
    let p = chars_of(path.as_str());
    let word = chars_of("Chapter");
    let mut out: Vec<Chapter> = Vec::new();
    let mut i: usize = 0;
    while i < links.len()
        invariant
            i <= links@.len(),
            p@ == path@,
            word@ == "Chapter"@,
            chapter_views(out@) == collect_some(links@.subrange(0, i as int), link_chapters(path@)),
        decreases links.len() - i,
    {
        assert(links@.subrange(0, i + 1).drop_last() =~= links@.subrange(0, i as int));
        let e = &links[i];
        match e.attr("href") {
            Some(h) => {
                let hc = chars_of(h.as_str());
                let t = chars_of(e.text.as_str());
                let ts = trim_start_exec(t.as_slice());
                if contains_exec(hc.as_slice(), p.as_slice()) && starts_with_exec(
                    ts.as_slice(),
                    word.as_slice(),
                ) {
                    push_chapter(&mut out, plain_chapter(e.text.clone(), absolute_url(h.as_str())));
                }
            },
            None => {},
        }
        i = i + 1;
    }
    assert(links@.subrange(0, links@.len() as int) =~= links@);
    out
}

/// Authors that are named: not empty and not a placeholder `updating`.
pub open spec fn named_author() -> spec_fn(Seq<char>) -> bool {
    |t: Seq<char>| t.len() > 0 && !eq_ignore_case(t, "updating"@)
}

fn named_authors(ts: &Vec<String>) -> (r: Vec<String>)
    ensures
        texts(r@) == distinct_by(texts(ts@), named_author()),
{
    let updating = chars_of("updating");
    let mut out: Vec<String> = Vec::new();
    let mut i: usize = 0;
    while i < ts.len()
        invariant
            i <= ts@.len(),
            updating@ == "updating"@,
            texts(out@) == distinct_by(texts(ts@).subrange(0, i as int), named_author()),
        decreases ts.len() - i,
    {
        assert(texts(ts@).subrange(0, i + 1).drop_last() =~= texts(ts@).subrange(0, i as int));
        let t = ts[i].clone();
        let tc = chars_of(t.as_str());
        let ghost before_push = texts(out@);
        if !t.as_str().is_empty() && !eq_ignore_case_exec(tc.as_slice(), updating.as_slice())
            && !contains_text(&out, &t) {
            out.push(t);
            assert(texts(out@) =~= before_push.push(ts@[i as int]@));
        }
        i = i + 1;
    }
    assert(texts(ts@).subrange(0, ts@.len() as int) =~= texts(ts@));
    out
}

/// The page's text has `"status":"{state}"`.
pub open spec fn declares(body: Seq<char>, state: Seq<char>) -> bool {
    contains(body, "\"status\":\""@ + state + "\""@)
}

/// The first publication state that the page's data declares.
pub open spec fn declared_status(body: Seq<char>) -> Option<Seq<char>> {
    if declares(body, "Ongoing"@) {
        Some("Ongoing"@)
    } else if declares(body, "Completed"@) {
        Some("Completed"@)
    } else if declares(body, "Hiatus"@) {
        Some("Hiatus"@)
    } else if declares(body, "Dropped"@) {
        Some("Dropped"@)
    } else {
        None
    }
}

/// The publication states a work page can declare, in the order the page
/// is searched for them.
pub open spec fn publication_states() -> Seq<Seq<char>> {
    seq!["Ongoing"@, "Completed"@, "Hiatus"@, "Dropped"@]
}

/// The state read from a work page is one the page declares: it is the
/// first of Ongoing, Completed, Hiatus and Dropped whose
/// `"status":"<state>"` the page's text holds; there is none exactly when
/// the text holds none of them.
pub proof fn lemma_status_is_declared(body: Seq<char>)
    ensures
        declared_status(body) is Some ==> exists|k: int|
            0 <= k < 4 && declared_status(body)->0 == publication_states()[k] && contains(
                body,
                "\"status\":\""@ + publication_states()[k] + "\""@,
            ) && forall|j: int|
                0 <= j < k ==> !contains(
                    body,
                    "\"status\":\""@ + #[trigger] publication_states()[j] + "\""@,
                ),
        declared_status(body) is None <==> forall|k: int|
            0 <= k < 4 ==> !contains(
                body,
                "\"status\":\""@ + #[trigger] publication_states()[k] + "\""@,
            ),
{
    let st = publication_states();
    assert(st[0] == "Ongoing"@);
    assert(st[1] == "Completed"@);
    assert(st[2] == "Hiatus"@);
    assert(st[3] == "Dropped"@);
    if declared_status(body) is Some {
        if declares(body, "Ongoing"@) {
            assert(declared_status(body)->0 == st[0]);
        } else if declares(body, "Completed"@) {
            assert(declared_status(body)->0 == st[1]);
        } else if declares(body, "Hiatus"@) {
            assert(declared_status(body)->0 == st[2]);
        } else {
            assert(declared_status(body)->0 == st[3]);
        }
    } else {
        assert forall|k: int| 0 <= k < 4 implies !contains(
            body,
            "\"status\":\""@ + #[trigger] st[k] + "\""@,
        ) by {
            if k == 0 {
            } else if k == 1 {
            } else if k == 2 {
            } else {
            }
        }
    }
}

fn declares_exec(body: &[char], state: &str) -> (r: bool)
    ensures
        r == declares(body@, state@),
{
    let mut p = chars_of("\"status\":\"");
    push_str(&mut p, state);
    push_str(&mut p, "\"");
    contains_exec(body, p.as_slice())
}

fn declared_status_exec(body: &str) -> (r: Option<String>)
    ensures
        opt(r) == declared_status(body@),
{
    let b = chars_of(body);
    if declares_exec(b.as_slice(), "Ongoing") {
        Some(String::from_str("Ongoing"))
    } else if declares_exec(b.as_slice(), "Completed") {
        Some(String::from_str("Completed"))
    } else if declares_exec(b.as_slice(), "Hiatus") {
        Some(String::from_str("Hiatus"))
    } else if declares_exec(b.as_slice(), "Dropped") {
        Some(String::from_str("Dropped"))
    } else {
        None
    }
}

/// What the page of a work shows.
pub struct WorkPage {
    /// The page's text.
    pub body: String,
    /// The text of the first `h1`.
    pub heading: Option<String>,
    /// The texts of the author links.
    pub authors: Vec<String>,
    /// The `content` of the description meta tag.
    pub description: Option<String>,
    /// The texts of the genre links.
    pub genres: Vec<String>,
    /// The `src` of the cover image (`img[src*='/covers/']`).
    pub cover: Option<String>,
    /// The chapters of the page's Next.js data.
    pub next_chapters: Vec<NextChapter>,
    /// The chapter links of the page (`a[href*='/chapter-']`).
    pub chapter_links: Vec<Element>,
}

/// The chapters of a work page, oldest first: those of the Next.js data,
/// else those of the chapter links.
pub open spec fn page_chapters(url: Seq<char>, page: WorkPage) -> Seq<ChapterView> {
    let from_data = collect_some(page.next_chapters@, next_chapters());
    if from_data.len() > 0 {
        from_data.reverse()
    } else {
        collect_some(page.chapter_links@, link_chapters(work_path_spec(url))).reverse()
    }
}

/// The cover address of a work page: kept when absolute.
pub open spec fn http_only(src: Option<String>) -> Option<Seq<char>> {
    match src {
        Some(s) => if starts_with(s@, "http"@) {
            Some(s@)
        } else {
            None
        },
        None => None,
    }
}

/// The details of the work at `url`, from its page.
pub fn work_details(url: String, page: WorkPage) -> (r: WorkDetails)
    ensures
        r.title@ == match page.heading {
            Some(h) => h@,
            None => url@,
        },
        r.url@ == url@,
        opt(r.cover_url) == http_only(page.cover),
        r.alternative_names@.len() == 0,
        texts(r.authors@) == distinct_by(texts(page.authors@), named_author()),
        r.artists@.len() == 0,
        opt(r.status) == declared_status(page.body@),
        r.release_date is None,
        opt(r.description) == filled(page.description),
        texts(r.genres@) == distinct_by(texts(page.genres@), |t: Seq<char>| t.len() > 0),
        chapter_views(r.chapters@) == page_chapters(url@, page),
        r.content_html is None,
{
    let title = match &page.heading {
        Some(h) => h.clone(),
        None => url.clone(),
    };
    let authors = named_authors(&page.authors);
    let genres = distinct_nonempty(&page.genres);
    let status = declared_status_exec(page.body.as_str());
    let http = chars_of("http");
    let cover_url = match page.cover {
        Some(s) => {
            let sc = chars_of(s.as_str());
            if starts_with_exec(sc.as_slice(), http.as_slice()) {
                Some(s)
            } else {
                None
            }
        },
        None => None,
    };
    let path = work_path(url.as_str());
    let mut chapters = next_data_chapters(&page.next_chapters);
    if chapters.len() == 0 {
        chapters = link_chapters_exec(&page.chapter_links, &path);
    }
    let ghost before_rev = chapters@;
    let chapters = reversed(chapters);
    assert(chapter_views(chapters@) =~= chapter_views(before_rev).reverse());
    WorkDetails {
        title,
        url,
        cover_url,
        alternative_names: Vec::new(),
        authors,
        artists: Vec::new(),
        status,
        release_date: None,
        description: filled_exec(page.description),
        genres,
        chapters,
        content_html: None,
    }
}

/// The page images of a chapter page: the absolute `src` attributes, once
/// each.
pub open spec fn image_sources(images: Seq<Element>) -> Seq<Seq<char>>
    decreases images.len(),
{
    if images.len() == 0 {
        Seq::empty()
    } else {
        let acc = image_sources(images.drop_last());
        match images.last().attr_spec("src"@) {
            Some(s) => if starts_with(s, "http"@) && !acc.contains(s) {
                acc.push(s)
            } else {
                acc
            },
            None => acc,
        }
    }
}

/// The pages of a chapter: the images of the page's Next.js data, else the
/// page's CDN images; an error when there are none.
pub fn chapter_images(data_images: Vec<String>, images: &Vec<Element>) -> (r: Result<
    Vec<String>,
    SourceError,
>)
    ensures
        data_images@.len() > 0 ==> r == Ok::<Vec<String>, SourceError>(data_images),
        data_images@.len() == 0 && image_sources(images@).len() == 0 ==> is_parse(
            r,
            "no images found in chapter page"@,
        ),
        data_images@.len() == 0 && image_sources(images@).len() > 0 ==> (r matches Ok(v) && texts(v@)
            == image_sources(images@)),
{
    if data_images.len() > 0 {
        return Ok(data_images);
    }
    let http = chars_of("http");
    let mut out: Vec<String> = Vec::new();
    let mut i: usize = 0;
    while i < images.len()
        invariant
            i <= images@.len(),
            http@ == "http"@,
            texts(out@) == image_sources(images@.subrange(0, i as int)),
        decreases images.len() - i,
    {
        assert(images@.subrange(0, i + 1).drop_last() =~= images@.subrange(0, i as int));
        let ghost before_push = texts(out@);
        match images[i].attr("src") {
            Some(s) => {
                let sc = chars_of(s.as_str());
                if starts_with_exec(sc.as_slice(), http.as_slice()) && !contains_text(&out, &s) {
                    out.push(s);
                    assert(texts(out@) =~= before_push.push(sc@));
                }
            },
            None => {},
        }
        i = i + 1;
    }
    assert(images@.subrange(0, images@.len() as int) =~= images@);
    if out.len() == 0 {
        return Err(SourceError::Parse(String::from_str("no images found in chapter page")));
    }
    Ok(out)
}

} // verus!
