//! ReaderNovel, a novel site with a JSON search endpoint.
use vstd::prelude::*;
use crate::model::{
    header, header_is, referer_and_agent, BROWSER_AGENT,
    absolute_on, absolute_on_exec, chapter_views, collect_new, collect_some, contains_text,
    distinct_by, distinct_nonempty, entries, entry_of, extract_string_field, filled, filled_exec,
    is_parse, non_blank, non_blank_exec, opt, page_cover_on, page_cover_on_exec, plain_chapter,
    push_chapter, push_if_new, reversed, string_field, string_from, texts, Chapter, ChapterView,
    Element, Entry, SourceError, SourceInfo, WorkDetails, WorkKind, WorkSummary,
};
use crate::text::{
    chars_of, decimal, decimal_exec, eq_chars, eq_ignore_case, eq_ignore_case_exec, find,
    find_exec, lemma_find_from_some, pieces, pieces_exec, push_all, push_str, replace, replace_exec,
    slice_chars, starts_with, starts_with_exec, trim, trim_exec,
};

verus! {

/// The site's address.
pub const BASE: &'static str = "https://www.readernovel.net";

/// The headers of the source's requests.
pub fn request_headers() -> (r: Vec<(String, String)>)
    ensures
        r@.len() == 2,
        header_is(r@[0], "Referer"@, BASE@ + "/"@),
        header_is(r@[1], "User-Agent"@, BROWSER_AGENT@),
{
    referer_and_agent(BASE)
}

/// The description of the source.
pub fn info() -> (r: SourceInfo)
    ensures
        r.id@ == "readernovel"@,
        r.name@ == "ReaderNovel"@,
        r.version@ == "1.0.1"@,
        r.kind == WorkKind::Novel,
        r.icon_url is None,
        opt(r.referer_url) == Some(BASE@ + "/"@),
        opt(r.base_url) == Some(BASE@),
{
    let mut referer = chars_of(BASE);
    push_str(&mut referer, "/");
    SourceInfo {
        id: String::from_str("readernovel"),
        name: String::from_str("ReaderNovel"),
        version: String::from_str("1.0.1"),
        kind: WorkKind::Novel,
        icon_url: None,
        referer_url: Some(string_from(referer)),
        base_url: Some(String::from_str(BASE)),
    }
}

/// The address of a page of the catalogue sorted by `sort`.
pub open spec fn browse_spec(sort: Seq<char>, page: u32) -> Seq<char> {
    BASE@ + "/browse?sort="@ + sort + "&status=0&p="@ + decimal(page as nat)
}

/// The address of a page of the catalogue sorted by `sort`.
pub fn browse_url(sort: &str, page: u32) -> (r: String)
    ensures
        r@ == browse_spec(sort@, page),
{
    let mut v = chars_of(BASE);
    push_str(&mut v, "/browse?sort=");
    push_str(&mut v, sort);
    push_str(&mut v, "&status=0&p=");
    let d = decimal_exec(page as u64);
    push_all(&mut v, d.as_slice());
    string_from(v)
}

/// The catalogue page that search falls back on when the search endpoint
/// gives nothing; search has a single page.
pub fn search_fallback_url(page: u32) -> (r: Option<String>)
    ensures
        page > 1 ==> r is None,
        page <= 1 ==> opt(r) == Some(browse_spec("name"@, 1)),
{
    if page > 1 {
        return None;
    }
    Some(browse_url("name", 1))
}

/// The address of a page of the latest novels; the site serves 500.
pub fn latest_url(page: u32) -> (r: Option<String>)
    ensures
        page > 500 ==> r is None,
        page <= 500 ==> opt(r) == Some(browse_spec("date"@, page)),
{
    if page > 500 {
        return None;
    }
    Some(browse_url("date", page))
}

/// The address of a page of the popular novels; the site serves 50.
pub fn trending_url(page: u32) -> (r: Option<String>)
    ensures
        page > 50 ==> r is None,
        page <= 50 ==> opt(r) == Some(browse_spec("popular"@, page)),
{
    if page > 50 {
        return None;
    }
    Some(browse_url("popular", page))
}

// ---------------------------------------------------------------------
// The search endpoint
// ---------------------------------------------------------------------

/// The address of the search endpoint.
pub fn search_endpoint() -> (r: String)
    ensures
        r@ == BASE@ + "/search"@,
{
    let mut v = chars_of(BASE);
    push_str(&mut v, "/search");
    string_from(v)
}

/// The headers of a search request: a JSON body, a JSON answer.
pub fn search_headers() -> (r: Vec<(String, String)>)
    ensures
        r@.len() == 2,
        header_is(r@[0], "Content-Type"@, "application/json"@),
        header_is(r@[1], "Accept"@, "application/json"@),
{
    let mut v: Vec<(String, String)> = Vec::new();
    v.push(header("Content-Type", "application/json"));
    v.push(header("Accept", "application/json"));
    v
}

/// A text written inside a JSON string as the source writes it: every
/// backslash doubled, then every quote escaped.
pub open spec fn escaped(q: Seq<char>) -> Seq<char> {
    replace(replace(q, "\\"@, "\\\\"@), "\""@, "\\\""@)
}

/// The JSON body of a search request.
pub open spec fn payload_spec(query: Seq<char>, token: Seq<char>) -> Seq<char> {
    "{\"query\":\""@ + escaped(query) + "\",\"_token\":\""@ + token + "\"}"@
}

/// The JSON body of a search request for `query` with the form token of the
/// catalogue page.
pub fn search_payload(query: &str, token: &str) -> (r: String)
    ensures
        r@ == payload_spec(query@, token@),
{
    let q = chars_of(query);
    let bs = chars_of("\\");
    let bs2 = chars_of("\\\\");
    let quote = chars_of("\"");
    let escq = chars_of("\\\"");
    proof {
        reveal_strlit("\\");
        reveal_strlit("\"");
    }
    let a = replace_exec(q.as_slice(), bs.as_slice(), bs2.as_slice());
    let b = replace_exec(a.as_slice(), quote.as_slice(), escq.as_slice());
    let mut v = chars_of("{\"query\":\"");
    push_all(&mut v, b.as_slice());
    push_str(&mut v, "\",\"_token\":\"");
    push_str(&mut v, token);
    push_str(&mut v, "\"}");
    string_from(v)
}

/// The entry a segment of the search answer gives: it needs a non-empty
/// name and slug.
pub open spec fn hit(segment: Seq<char>) -> Option<Entry> {
    match (string_field(segment, "name"@), string_field(segment, "slug"@)) {
        (Some(n), Some(s)) => if n.len() > 0 && s.len() > 0 {
            Some((n, BASE@ + "/novel/"@ + s, None))
        } else {
            None
        },
        _ => None,
    }
}

/// The entries of the segments of the search answer, in order.
pub open spec fn hits(segments: Seq<Seq<char>>) -> Seq<Entry>
    decreases segments.len(),
{
    if segments.len() == 0 {
        Seq::empty()
    } else {
        let acc = hits(segments.drop_last());
        match hit(segments.last()) {
            Some(e) => acc.push(e),
            None => acc,
        }
    }
}

/// The novels of an answer of the search endpoint: each text after a
/// `{"name":` gives one when it has a non-empty name and slug.
pub open spec fn api_hits(body: Seq<char>) -> Seq<Entry> {
    hits(pieces(body, "{\"name\":"@).drop_first())
}

/// The novels the search endpoint answered: none when it did not answer,
/// answered with another status than 200, or named no novel.
pub fn search_results(response: Option<(u16, String)>) -> (r: Option<Vec<WorkSummary>>)
    ensures
        match response {
            Some((status, body)) => if status == 200 && api_hits(body@).len() > 0 {
                r matches Some(v) && entries(v@) == api_hits(body@)
            } else {
                r is None
            },
            None => r is None,
        },
{
    let (status, body) = match response {
        Some(x) => x,
        None => return None,
    };
    if status != 200 {
        return None;
    }
    let b = chars_of(body.as_str());
    let sep = chars_of("{\"name\":");
    proof {
        reveal_strlit("{\"name\":");
    }
    let segments = pieces_exec(b.as_slice(), sep.as_slice());
    let ghost all = pieces(b@, sep@);
    let mut out: Vec<WorkSummary> = Vec::new();
    let mut i: usize = 1;
    assert(all.len() >= 1) by {
        reveal_with_fuel(pieces, 1);
    }
    while i < segments.len()
        invariant
            1 <= i <= segments@.len(),
            segments@.len() == all.len(),
            forall|k: int| 0 <= k < segments@.len() ==> #[trigger] segments@[k]@ == all[k],
            entries(out@) == hits(all.drop_first().subrange(0, i - 1)),
        decreases segments.len() - i,
    {
        let ghost rest = all.drop_first();
        assert(rest.subrange(0, i as int).drop_last() =~= rest.subrange(0, i - 1));
        assert(rest.subrange(0, i as int).last() == all[i as int]);
        let seg = string_from(slice_chars(segments[i].as_slice(), 0, segments[i].len()));
        assert(seg@ =~= all[i as int]);
        let ghost before = entries(out@);
        match (extract_string_field(seg.as_str(), "name"), extract_string_field(seg.as_str(), "slug")) {
            (Some(n), Some(s)) => {
                if !n.as_str().is_empty() && !s.as_str().is_empty() {
                    let mut url = chars_of(BASE);
                    push_str(&mut url, "/novel/");
                    push_str(&mut url, s.as_str());
                    let w = WorkSummary { title: n, url: string_from(url), cover_url: None };
                    let ghost e = entry_of(w);
                    out.push(w);
                    assert(entries(out@) =~= before.push(e));
                }
            },
            _ => {},
        }
        i = i + 1;
    }
    assert(all.drop_first().subrange(0, all.len() - 1) =~= all.drop_first());
    if out.len() == 0 {
        return None;
    }
    Some(out)
}

// ---------------------------------------------------------------------
// Listings
// ---------------------------------------------------------------------

/// The entry a link to a novel gives; the title is its `title` attribute
/// unless empty, else its text.
pub open spec fn link_entry(e: Element) -> Option<Entry> {
    match e.attr_spec("href"@) {
        Some(h) => if starts_with(h, "/novel/"@) {
            let t = e.attr_spec("title"@);
            Some(
                (
                    if t is Some && t->0.len() > 0 {
                        t->0
                    } else {
                        e.text@
                    },
                    BASE@ + h,
                    None,
                ),
            )
        } else {
            None
        },
        None => None,
    }
}

/// The entry a link to a novel gives.
pub open spec fn link_entries() -> spec_fn(Element) -> Option<Entry> {
    |e: Element| link_entry(e)
}

fn titled_text(e: &Element) -> (r: String)
    ensures
        r@ == (if e.attr_spec("title"@) is Some && e.attr_spec("title"@)->0.len() > 0 {
            e.attr_spec("title"@)->0
        } else {
            e.text@
        }),
{
    match e.attr("title") {
        Some(t) => if !t.as_str().is_empty() {
            t
        } else {
            e.text.clone()
        },
        None => e.text.clone(),
    }
}

/// The novels of a listing page, once each, from its links to novels.
pub fn parse_items(links: &Vec<Element>) -> (r: Vec<WorkSummary>)
    ensures
        entries(r@) == collect_new(links@, link_entries()),
{
    let novel = chars_of("/novel/");
    let mut out: Vec<WorkSummary> = Vec::new();
    let mut i: usize = 0;
    while i < links.len()
        invariant
            i <= links@.len(),
            novel@ == "/novel/"@,
            entries(out@) == collect_new(links@.subrange(0, i as int), link_entries()),
        decreases links.len() - i,
    {
        assert(links@.subrange(0, i + 1).drop_last() =~= links@.subrange(0, i as int));
        let e = &links[i];
        match e.attr("href") {
            Some(h) => {
                let hc = chars_of(h.as_str());
                if starts_with_exec(hc.as_slice(), novel.as_slice()) {
                    let mut url = chars_of(BASE);
                    push_all(&mut url, hc.as_slice());
                    push_if_new(
                        &mut out,
                        WorkSummary { title: titled_text(e), url: string_from(url), cover_url: None },
                    );
                }
            },
            None => {},
        }
        i = i + 1;
    }
    assert(links@.subrange(0, links@.len() as int) =~= links@);
    out
}

// ---------------------------------------------------------------------
// Work pages
// ---------------------------------------------------------------------

/// The label and value of an information line `label: value`, both
/// trimmed, when the value is not empty.
pub open spec fn field(line: Seq<char>) -> Option<(Seq<char>, Seq<char>)> {
    match find(line, ":"@) {
        None => None,
        Some(i) => {
            let value = trim(line.subrange(i + 1, line.len() as int));
            if value.len() == 0 {
                None
            } else {
                Some((trim(line.subrange(0, i)), value))
            }
        },
    }
}

/// A label that names the authors.
pub open spec fn author_label(label: Seq<char>) -> bool {
    label == "Author"@ || label == "Author(s)"@ || label == "Authors"@
}

/// The values of the author lines, in order.
pub open spec fn author_values(lines: Seq<Seq<char>>) -> Seq<Seq<char>>
    decreases lines.len(),
{
    if lines.len() == 0 {
        Seq::empty()
    } else {
        let acc = author_values(lines.drop_last());
        match field(lines.last()) {
            Some((l, v)) => if author_label(l) {
                acc.push(v)
            } else {
                acc
            },
            None => acc,
        }
    }
}

/// Authors that are named.
pub open spec fn named_author() -> spec_fn(Seq<char>) -> bool {
    |t: Seq<char>| !eq_ignore_case(t, "unknown"@)
}

/// The value of the last `Status` line.
pub open spec fn status_of(lines: Seq<Seq<char>>) -> Option<Seq<char>>
    decreases lines.len(),
{
    if lines.len() == 0 {
        None
    } else {
        match field(lines.last()) {
            Some((l, v)) => if l == "Status"@ {
                Some(v)
            } else {
                status_of(lines.drop_last())
            },
            None => status_of(lines.drop_last()),
        }
    }
}

fn field_exec(line: &String) -> (r: Option<(String, String)>)
    ensures
        match r {
            Some((l, v)) => field(line@) == Some((l@, v@)),
            None => field(line@) is None,
        },
{
    let t = chars_of(line.as_str());
    let colon = chars_of(":");
    proof {
        reveal_strlit(":");
    }
    let i = match find_exec(t.as_slice(), colon.as_slice()) {
        Some(i) => i,
        None => return None,
    };
    proof {
        lemma_find_from_some(t@, colon@, 0);
    }
    assert(colon@.len() == 1);
    assert(i + 1 <= t@.len());
    assert(t@.len() == t.len());
    let value = trim_exec(slice_chars(t.as_slice(), i + 1, t.len()).as_slice());
    if value.len() == 0 {
        return None;
    }
    let label = trim_exec(slice_chars(t.as_slice(), 0, i).as_slice());
    Some((string_from(label), string_from(value)))
}

/// What the page of a novel shows.
pub struct WorkPage {
    /// The text of `h1.page-title`.
    pub heading: Option<String>,
    /// The texts of the information lines (`ul.list-group li.list-group-item`).
    pub info_lines: Vec<String>,
    /// The text of `#collapseSummary`.
    pub description: Option<String>,
    /// The texts of the genre links.
    pub genres: Vec<String>,
    /// The `og:image` meta tag.
    pub og_image: Option<Element>,
    /// The cover image.
    pub cover_image: Option<Element>,
    /// The chapter links (`.chapter-list-wrapper a`).
    pub chapter_links: Vec<Element>,
}

/// The chapter a chapter link gives: it needs a target; the title is its
/// `title` attribute unless empty, else its text.
pub open spec fn link_chapter(e: Element) -> Option<ChapterView> {
    match e.attr_spec("href"@) {
        Some(h) => {
            let t = e.attr_spec("title"@);
            Some(
                (
                    if t is Some && t->0.len() > 0 {
                        t->0
                    } else {
                        e.text@
                    },
                    absolute_on(BASE@, h),
                    None,
                    None,
                ),
            )
        },
        None => None,
    }
}

/// The chapter a chapter link gives.
pub open spec fn link_chapters() -> spec_fn(Element) -> Option<ChapterView> {
    |e: Element| link_chapter(e)
}

fn link_chapters_exec(links: &Vec<Element>) -> (r: Vec<Chapter>)
    ensures
        chapter_views(r@) == collect_some(links@, link_chapters()),
{
    let mut out: Vec<Chapter> = Vec::new();
    let mut i: usize = 0;
    while i < links.len()
        invariant
            i <= links@.len(),
            chapter_views(out@) == collect_some(links@.subrange(0, i as int), link_chapters()),
        decreases links.len() - i,
    {
        assert(links@.subrange(0, i + 1).drop_last() =~= links@.subrange(0, i as int));
        let e = &links[i];
        match e.attr("href") {
            Some(h) => {
                push_chapter(&mut out, plain_chapter(titled_text(e), absolute_on_exec(BASE, h.as_str())));
            },
            None => {},
        }
        i = i + 1;
    }
    assert(links@.subrange(0, links@.len() as int) =~= links@);
    out
}

/// The details of the novel at `url`, from its page (the site lists the
/// newest chapter first; the details list the oldest first).
pub fn work_details(url: String, page: WorkPage) -> (r: WorkDetails)
    ensures
        r.title@ == match page.heading {
            Some(h) => h@,
            None => url@,
        },
        r.url@ == url@,
        opt(r.cover_url) == page_cover_on(BASE@, page.og_image, page.cover_image),
        r.alternative_names@.len() == 0,
        texts(r.authors@) == distinct_by(author_values(texts(page.info_lines@)), named_author()),
        r.artists@.len() == 0,
        opt(r.status) == status_of(texts(page.info_lines@)),
        r.release_date is None,
        opt(r.description) == filled(page.description),
        texts(r.genres@) == distinct_by(texts(page.genres@), |t: Seq<char>| t.len() > 0),
        chapter_views(r.chapters@) == collect_some(page.chapter_links@, link_chapters()).reverse(),
        r.content_html is None,
{
    let title = match &page.heading {
        Some(h) => h.clone(),
        None => url.clone(),
    };
    let a = chars_of("Author");
    let b = chars_of("Author(s)");
    let c = chars_of("Authors");
    let st = chars_of("Status");
    let unknown = chars_of("unknown");
    let mut authors: Vec<String> = Vec::new();
    let mut status: Option<String> = None;
    let lines = &page.info_lines;
    let mut i: usize = 0;
    while i < lines.len()
        invariant
            i <= lines@.len(),
            a@ == "Author"@,
            b@ == "Author(s)"@,
            c@ == "Authors"@,
            st@ == "Status"@,
            unknown@ == "unknown"@,
            texts(authors@) == distinct_by(author_values(texts(lines@).subrange(0, i as int)), named_author()),
            opt(status) == status_of(texts(lines@).subrange(0, i as int)),
        decreases lines.len() - i,
    {
        let ghost sub = texts(lines@).subrange(0, i + 1);
        let ghost prev = texts(lines@).subrange(0, i as int);
        assert(sub.drop_last() =~= prev);
        assert(sub.last() == lines@[i as int]@);
        match field_exec(&lines[i]) {
            Some((label, value)) => {
                let lc = chars_of(label.as_str());
                let vc = chars_of(value.as_str());
                if eq_chars(lc.as_slice(), a.as_slice()) || eq_chars(lc.as_slice(), b.as_slice())
                    || eq_chars(lc.as_slice(), c.as_slice()) {
                    proof {
                        reveal_strlit("Author");
                        reveal_strlit("Author(s)");
                        reveal_strlit("Authors");
                        reveal_strlit("Status");
                    }
                    assert("Author"@[0] == 'A' && "Author(s)"@[0] == 'A' && "Authors"@[0] == 'A');
                    assert("Status"@[0] == 'S');
                    assert(lc@[0] == 'A');
                    assert(label@ != "Status"@);
                    assert(status_of(sub) == status_of(prev));
                    assert(author_values(sub) == author_values(prev).push(value@));
                    assert(author_values(sub).drop_last() =~= author_values(prev));
                    let ghost before = texts(authors@);
                    if !eq_ignore_case_exec(vc.as_slice(), unknown.as_slice()) && !contains_text(
                        &authors,
                        &value,
                    ) {
                        authors.push(value);
                        assert(texts(authors@) =~= before.push(vc@));
                    }
                } else {
                    assert(author_values(sub) == author_values(prev));
                    if eq_chars(lc.as_slice(), st.as_slice()) {
                        status = Some(value);
                    }
                }
            },
            None => {
                assert(author_values(sub) == author_values(prev));
            },
        }
        i = i + 1;
    }
    assert(texts(lines@).subrange(0, lines@.len() as int) =~= texts(lines@));
    let chapters = link_chapters_exec(&page.chapter_links);
    let ghost before_rev = chapters@;
    let chapters = reversed(chapters);
    assert(chapter_views(chapters@) =~= chapter_views(before_rev).reverse());
    WorkDetails {
        title,
        url,
        cover_url: page_cover_on_exec(BASE, &page.og_image, &page.cover_image),
        alternative_names: Vec::new(),
        authors,
        artists: Vec::new(),
        status,
        release_date: None,
        description: filled_exec(page.description),
        genres: distinct_nonempty(&page.genres),
        chapters,
        content_html: None,
    }
}

/// The paragraphs of a chapter (`#chapter-container p`) that are not blank;
/// an error when there are none.
pub fn chapter_paragraphs(paragraphs: &Vec<String>) -> (r: Result<Vec<String>, SourceError>)
    ensures
        non_blank(texts(paragraphs@)).len() > 0 ==> (r matches Ok(v) && texts(v@) == non_blank(
            texts(paragraphs@),
        )),
        non_blank(texts(paragraphs@)).len() == 0 ==> is_parse(r, "no content found in chapter page"@),
{
    let v = non_blank_exec(paragraphs);
    if v.len() == 0 {
        return Err(SourceError::Parse(String::from_str("no content found in chapter page")));
    }
    Ok(v)
}

} // verus!
