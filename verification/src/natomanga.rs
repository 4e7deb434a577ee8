//! NatoManga, a manga site.
use vstd::prelude::*;
use crate::encoding::{url_encode, url_encoded};
use crate::json::{json_strings, parse_string_list};
use crate::model::{
    header_is, referer_and_agent, BROWSER_AGENT,
    absolute_on, absolute_on_exec, chapter_views, collect_new, collect_some, contains_text,
    distinct_by, distinct_nonempty, entries, entry_of, filled, filled_exec, is_parse, name_slugs,
    name_slugs_exec, opt, pair_texts, plain_chapter, push_chapter, push_if_new, reversed,
    string_from, texts, Chapter, ChapterView, Element, Entry, SourceError, SourceInfo, WorkDetails,
    WorkKind, WorkSummary,
};
use crate::text::{
    after, after_exec, chars_of, contains, contains_exec, decimal, decimal_exec, eq_chars, find,
    find_exec, last_piece, last_piece_exec, lemma_find_from_some, pieces, pieces_exec, push_all,
    push_str, replace, replace_exec, rfind, rfind_exec, second_piece, second_piece_exec,
    slice_chars, starts_with, starts_with_exec, strip_prefix, strip_prefix_exec, trim, trim_end_in,
    trim_end_in_exec, trim_exec, trim_start_in, trim_start_in_exec,
};

verus! {

/// The site's address.
pub const BASE: &'static str = "https://www.natomanga.com";

/// The headers of the source's requests.
pub fn request_headers() -> (r: Vec<(String, String)>)
    ensures
        r@.len() == 2,
        header_is(r@[0], "Referer"@, BASE@ + "/"@),
        header_is(r@[1], "User-Agent"@, BROWSER_AGENT@),
{
    referer_and_agent(BASE)
}

/// The description of the source.
pub fn info() -> (r: SourceInfo)
    ensures
        r.id@ == "natomanga"@,
        r.name@ == "NatoManga"@,
        r.version@ == "1.0.1"@,
        r.kind == WorkKind::Manga,
        r.icon_url is None,
        opt(r.referer_url) == Some(BASE@ + "/"@),
        opt(r.base_url) == Some(BASE@),
{
    let mut referer = chars_of(BASE);
    push_str(&mut referer, "/");
    SourceInfo {
        id: String::from_str("natomanga"),
        name: String::from_str("NatoManga"),
        version: String::from_str("1.0.1"),
        kind: WorkKind::Manga,
        icon_url: None,
        referer_url: Some(string_from(referer)),
        base_url: Some(String::from_str(BASE)),
    }
}

/// The address of a page of search results for `query` (spaces written as
/// underscores); the site serves 50.
pub fn search_url(query: &str, page: u32) -> (r: Option<String>)
    ensures
        page > 50 ==> r is None,
        page <= 50 ==> opt(r) == Some(
            BASE@ + "/search/story/"@ + url_encoded(replace(query@, " "@, "_"@)) + "?page="@
                + decimal(page as nat),
        ),
{
    if page > 50 {
        return None;
    }
    let q = chars_of(query);
    let space = chars_of(" ");
    let underscore = chars_of("_");
    proof {
        reveal_strlit(" ");
    }
    let dashed = string_from(replace_exec(q.as_slice(), space.as_slice(), underscore.as_slice()));
    let encoded = url_encode(dashed.as_str());
    let mut v = chars_of(BASE);
    push_str(&mut v, "/search/story/");
    push_str(&mut v, encoded.as_str());
    push_str(&mut v, "?page=");
    let d = decimal_exec(page as u64);
    push_all(&mut v, d.as_slice());
    Some(string_from(v))
}

/// The address of a page of a list of the site.
pub open spec fn list_url(list: Seq<char>, page: u32) -> Seq<char> {
    BASE@ + "/manga-list/"@ + list + "?page="@ + decimal(page as nat)
}

fn list_url_exec(list: &str, page: u32) -> (r: String)
    ensures
        r@ == list_url(list@, page),
{
    let mut v = chars_of(BASE);
    push_str(&mut v, "/manga-list/");
    push_str(&mut v, list);
    push_str(&mut v, "?page=");
    let d = decimal_exec(page as u64);
    push_all(&mut v, d.as_slice());
    string_from(v)
}

/// The address of a page of the latest works; the site serves 100.
pub fn latest_url(page: u32) -> (r: Option<String>)
    ensures
        page > 100 ==> r is None,
        page <= 100 ==> opt(r) == Some(list_url("latest-manga"@, page)),
{
    if page > 100 {
        return None;
    }
    Some(list_url_exec("latest-manga", page))
}

/// The address of a page of the popular works; the site serves 20.
pub fn trending_url(page: u32) -> (r: Option<String>)
    ensures
        page > 20 ==> r is None,
        page <= 20 ==> opt(r) == Some(list_url("hot-manga"@, page)),
{
    if page > 20 {
        return None;
    }
    Some(list_url_exec("hot-manga", page))
}

// ---------------------------------------------------------------------
// Listings
// ---------------------------------------------------------------------

/// The entry a link gives: it needs a target to a work (not a chapter, not
/// a genre); the title is its `title` attribute unless empty, else its text.
pub open spec fn link_entry(e: Element) -> Option<Entry> {
    match e.attr_spec("href"@) {
        Some(h) => if contains(h, "/manga/"@) && !contains(h, "/chapter-"@) && !contains(h, "/genre"@) {
            let t = e.attr_spec("title"@);
            Some(
                (
                    if t is Some && t->0.len() > 0 {
                        t->0
                    } else {
                        e.text@
                    },
                    absolute_on(BASE@, h),
                    None,
                ),
            )
        } else {
            None
        },
        None => None,
    }
}

/// The entry a link gives.
pub open spec fn link_entries() -> spec_fn(Element) -> Option<Entry> {
    |e: Element| link_entry(e)
}

/// The works of a listing page, once each, from its links to works.
pub fn parse_items(links: &Vec<Element>) -> (r: Vec<WorkSummary>)
    ensures
        entries(r@) == collect_new(links@, link_entries()),
{
    let manga = chars_of("/manga/");
    let chapter = chars_of("/chapter-");
    let genre = chars_of("/genre");
    let mut out: Vec<WorkSummary> = Vec::new();
    let mut i: usize = 0;
    while i < links.len()
        invariant
            i <= links@.len(),
            manga@ == "/manga/"@,
            chapter@ == "/chapter-"@,
            genre@ == "/genre"@,
            entries(out@) == collect_new(links@.subrange(0, i as int), link_entries()),
        decreases links.len() - i,
    {
        assert(links@.subrange(0, i + 1).drop_last() =~= links@.subrange(0, i as int));
        let e = &links[i];
        match e.attr("href") {
            Some(h) => {
                let hc = chars_of(h.as_str());
                if contains_exec(hc.as_slice(), manga.as_slice()) && !contains_exec(
                    hc.as_slice(),
                    chapter.as_slice(),
                ) && !contains_exec(hc.as_slice(), genre.as_slice()) {
                    let title = match e.attr("title") {
                        Some(t) => if !t.as_str().is_empty() {
                            t
                        } else {
                            e.text.clone()
                        },
                        None => e.text.clone(),
                    };
                    let url = absolute_on_exec(BASE, h.as_str());
                    push_if_new(&mut out, WorkSummary { title, url, cover_url: None });
                }
            },
            None => {},
        }
        i = i + 1;
    }
    assert(links@.subrange(0, links@.len() as int) =~= links@);
    out
}

// ---------------------------------------------------------------------
// The chapter list of a work
// ---------------------------------------------------------------------

/// The address of the site's chapter list for the work at `url`: the last
/// segment of the address is the work's slug.
pub open spec fn api_base_spec(url: Seq<char>) -> Seq<char> {
    BASE@ + "/api/manga/"@ + last_piece(url, "/"@) + "/chapters"@
}

/// The address of the site's chapter list for the work at `url`.
pub fn api_base(url: &str) -> (r: String)
    ensures
        r@ == api_base_spec(url@),
{
    let u = chars_of(url);
    let slash = chars_of("/");
    let slug = last_piece_exec(u.as_slice(), slash.as_slice());
    let mut v = chars_of(BASE);
    push_str(&mut v, "/api/manga/");
    push_all(&mut v, slug.as_slice());
    push_str(&mut v, "/chapters");
    string_from(v)
}

/// The address of a page of 50 chapters of the site's chapter list.
pub fn api_page_url(base: &str, page: u32) -> (r: String)
    ensures
        r@ == base@ + "?limit=50&offset="@ + decimal((page * 50) as nat),
{
    let mut v = chars_of(base);
    push_str(&mut v, "?limit=50&offset=");
    let d = decimal_exec(page as u64 * 50);
    push_all(&mut v, d.as_slice());
    string_from(v)
}

/// The names and slugs of the chapters of an answer of the chapter list:
/// the objects between the first `[` after `"chapters":` and the last `]`.
pub open spec fn api_chapters_spec(body: Seq<char>) -> Option<Seq<(Seq<char>, Seq<char>)>> {
    match find(body, "\"chapters\":"@) {
        None => None,
        Some(i) => {
            let start = i + "\"chapters\":"@.len();
            match find(body.subrange(start, body.len() as int), "["@) {
                None => None,
                Some(o) => {
                    let open = start + o;
                    match rfind(body.subrange(open, body.len() as int), "]"@) {
                        None => None,
                        Some(c) => Some(
                            name_slugs(pieces(body.subrange(open + 1, open + c), "},{"@)),
                        ),
                    }
                },
            }
        },
    }
}

/// The names and slugs of the chapters of an answer of the chapter list;
/// `None` when it has no `"chapters":` array.
pub fn extract_api_chapters(body: &str) -> (r: Option<Vec<(String, String)>>)
    ensures
        match r {
            Some(v) => api_chapters_spec(body@) == Some(pair_texts(v@)),
            None => api_chapters_spec(body@) is None,
        },
{
    let b = chars_of(body);
    let key = chars_of("\"chapters\":");
    let open_p = chars_of("[");
    let close_p = chars_of("]");
    proof {
        reveal_strlit("[");
        reveal_strlit("]");
    }
    let i = match find_exec(b.as_slice(), key.as_slice()) {
        Some(i) => i,
        None => return None,
    };
    proof {
        lemma_find_from_some(b@, key@, 0);
    }
    assert(b@.len() == b.len());
    let start = i + key.len();
    let tail = slice_chars(b.as_slice(), start, b.len());
    let o = match find_exec(tail.as_slice(), open_p.as_slice()) {
        Some(o) => o,
        None => return None,
    };
    proof {
        lemma_find_from_some(tail@, open_p@, 0);
    }
    let open = start + o;
    assert(b@[open as int] == '[') by {
        assert(tail@.subrange(o as int, o + 1)[0] == '[');
    }
    let rest = slice_chars(b.as_slice(), open, b.len());
    let c = match rfind_exec(rest.as_slice(), close_p.as_slice()) {
        Some(c) => c,
        None => return None,
    };
    assert(rest@.subrange(c as int, c + 1)[0] == ']');
    let array = slice_chars(b.as_slice(), open + 1, open + c);
    Some(name_slugs_exec(array.as_slice()))
}

/// One answer of the chapter list added to the chapters: the chapters of
/// the answer, at the work's address followed by `/` and the slug.
pub open spec fn api_step_chapters(body: Seq<char>, prefix: Seq<char>) -> Seq<ChapterView> {
    match api_chapters_spec(body) {
        Some(list) => Seq::new(
            list.len(),
            |k: int| (list[k].0, prefix + "/"@ + list[k].1, None::<Seq<char>>, None::<Seq<char>>),
        ),
        None => Seq::empty(),
    }
}

/// The last page of the chapter list that is read (pages count from 0).
pub const LAST_API_PAGE: u32 = 200;

/// Adds the chapters of the answer for page `page` of the chapter list to
/// `acc`, and says whether to ask for the next page: not when the answer
/// has no chapter list, an empty one, or no `"has_more":true`, nor after
/// the last page that is read.
pub fn api_step(page: u32, body: &str, prefix: &str, acc: &mut Vec<Chapter>) -> (more: bool)
    ensures
        chapter_views(final(acc)@) == chapter_views(old(acc)@) + api_step_chapters(body@, prefix@),
        more == (page < LAST_API_PAGE && (api_chapters_spec(body@) matches Some(list) && list.len()
            > 0 && contains(body@, "\"has_more\":true"@))),
{
    let ghost start = chapter_views(acc@);
    let list = match extract_api_chapters(body) {
        Some(l) => l,
        None => {
            assert(chapter_views(acc@) =~= start + Seq::<crate::model::ChapterView>::empty());
            return false;
        },
    };
    if list.len() == 0 {
        assert(chapter_views(acc@) =~= start + api_step_chapters(body@, prefix@));
        return false;
    }
    let b = chars_of(body);
    let flag = chars_of("\"has_more\":true");
    let has_more = contains_exec(b.as_slice(), flag.as_slice());
    let ghost lst = pair_texts(list@);
    let mut i: usize = 0;
    while i < list.len()
        invariant
            i <= list@.len(),
            lst == pair_texts(list@),
            chapter_views(acc@) == start + Seq::new(
                i as nat,
                |k: int| (lst[k].0, prefix@ + "/"@ + lst[k].1, None::<Seq<char>>, None::<Seq<char>>),
            ),
        decreases list.len() - i,
    {
        let mut url = chars_of(prefix);
        push_str(&mut url, "/");
        push_str(&mut url, list[i].1.as_str());
        let ghost before = chapter_views(acc@);
        push_chapter(acc, plain_chapter(list[i].0.clone(), string_from(url)));
        i = i + 1;
        assert(chapter_views(acc@) =~= start + Seq::new(
            i as nat,
            |k: int| (lst[k].0, prefix@ + "/"@ + lst[k].1, None::<Seq<char>>, None::<Seq<char>>),
        ));
    }
    assert(api_step_chapters(body@, prefix@) =~= Seq::new(
        list@.len(),
        |k: int| (lst[k].0, prefix@ + "/"@ + lst[k].1, None::<Seq<char>>, None::<Seq<char>>),
    ));
    has_more && page < LAST_API_PAGE
}

// ---------------------------------------------------------------------
// Work pages
// ---------------------------------------------------------------------

/// The value of an `Author(s)` line of the information list: the text after
/// the label, without leading spaces and colons, trimmed.
pub open spec fn author_value(line: Seq<char>) -> Option<Seq<char>> {
    match strip_prefix(line, "Author(s)"@) {
        Some(v) => Some(trim(trim_start_in(v, " :"@))),
        None => None,
    }
}

/// The author values of the information lines, in order.
pub open spec fn author_values(lines: Seq<Seq<char>>) -> Seq<Seq<char>>
    decreases lines.len(),
{
    if lines.len() == 0 {
        Seq::empty()
    } else {
        let acc = author_values(lines.drop_last());
        match author_value(lines.last()) {
            Some(v) => acc.push(v),
            None => acc,
        }
    }
}

/// Authors that are named.
pub open spec fn named_author() -> spec_fn(Seq<char>) -> bool {
    |t: Seq<char>| t.len() > 0 && t != "Unknown"@
}

/// The publication state of the information lines: given by the last line
/// that starts with `Status` (and not with `Author(s)`), as the trimmed text
/// after its first colon, if it has one.
pub open spec fn status_of(lines: Seq<Seq<char>>) -> Option<Seq<char>>
    decreases lines.len(),
{
    if lines.len() == 0 {
        None
    } else {
        let t = lines.last();
        if author_value(t) is None && starts_with(t, "Status"@) {
            match second_piece(t, ":"@) {
                Some(v) => Some(trim(v)),
                None => None,
            }
        } else {
            status_of(lines.drop_last())
        }
    }
}

/// The alternative names of a work: the text after the heading's first
/// colon (trimmed), split at commas, each trimmed, the empty ones left out.
pub open spec fn alternative_names(heading: Option<String>) -> Seq<Seq<char>> {
    match heading {
        None => Seq::empty(),
        Some(h) => {
            let text = match after(h@, ":"@) {
                Some(rest) => trim(rest),
                None => h@,
            };
            trimmed_names(pieces(text, ","@))
        },
    }
}

/// The trimmed names that are not empty.
pub open spec fn trimmed_names(names: Seq<Seq<char>>) -> Seq<Seq<char>>
    decreases names.len(),
{
    if names.len() == 0 {
        Seq::empty()
    } else {
        let acc = trimmed_names(names.drop_last());
        let t = trim(names.last());
        if t.len() > 0 {
            acc.push(t)
        } else {
            acc
        }
    }
}

fn alternative_names_exec(heading: &Option<String>) -> (r: Vec<String>)
    ensures
        texts(r@) == alternative_names(*heading),
{
    let h = match heading {
        Some(h) => h,
        None => {
            return Vec::new();
        },
    };
    let hc = chars_of(h.as_str());
    let colon = chars_of(":");
    let comma = chars_of(",");
    proof {
        reveal_strlit(",");
    }
    let text = match after_exec(hc.as_slice(), colon.as_slice()) {
        Some(rest) => trim_exec(rest.as_slice()),
        None => hc,
    };
    let names = pieces_exec(text.as_slice(), comma.as_slice());
    let ghost all = pieces(text@, comma@);
    let mut out: Vec<String> = Vec::new();
    let mut i: usize = 0;
    while i < names.len()
        invariant
            i <= names@.len(),
            names@.len() == all.len(),
            forall|k: int| 0 <= k < names@.len() ==> #[trigger] names@[k]@ == all[k],
            texts(out@) == trimmed_names(all.subrange(0, i as int)),
        decreases names.len() - i,
    {
        assert(all.subrange(0, i + 1).drop_last() =~= all.subrange(0, i as int));
        let t = trim_exec(names[i].as_slice());
        let ghost before = texts(out@);
        if t.len() > 0 {
            let ghost tv = t@;
            out.push(string_from(t));
            assert(texts(out@) =~= before.push(tv));
        }
        i = i + 1;
    }
    assert(all.subrange(0, all.len() as int) =~= all);
    out
}

/// What the page of a work shows.
pub struct WorkPage {
    /// The text of the heading of the information list (`ul.manga-info-text li h1`).
    pub info_heading: Option<String>,
    /// The text of the first `h1`.
    pub heading: Option<String>,
    /// The texts of the lines of the information list.
    pub info_lines: Vec<String>,
    /// The text of the alternative names heading (`h2.story-alternative`).
    pub alternative: Option<String>,
    /// The text of `.description`.
    pub description: Option<String>,
    /// The texts of the genre links of the information list.
    pub genres: Vec<String>,
    /// The `src` of the cover image.
    pub cover: Option<String>,
    /// The links of the chapter list of the page.
    pub chapter_links: Vec<Element>,
}

/// The chapter a link of the page's chapter list gives: its text, at its
/// target as written (or nothing).
pub open spec fn list_chapter(e: Element) -> Option<ChapterView> {
    Some(
        (
            e.text@,
            match e.attr_spec("href"@) {
                Some(h) => h,
                None => Seq::empty(),
            },
            None,
            None,
        ),
    )
}

/// The chapter a link of the page's chapter list gives.
pub open spec fn list_chapters() -> spec_fn(Element) -> Option<ChapterView> {
    |e: Element| list_chapter(e)
}

fn list_chapters_exec(links: &Vec<Element>) -> (r: Vec<Chapter>)
    ensures
        chapter_views(r@) == collect_some(links@, list_chapters()),
{
    let mut out: Vec<Chapter> = Vec::new();
    let mut i: usize = 0;
    while i < links.len()
        invariant
            i <= links@.len(),
            chapter_views(out@) == collect_some(links@.subrange(0, i as int), list_chapters()),
        decreases links.len() - i,
    {
        assert(links@.subrange(0, i + 1).drop_last() =~= links@.subrange(0, i as int));
        let e = &links[i];
        let url = match e.attr("href") {
            Some(h) => h,
            None => String::new(),
        };
        push_chapter(&mut out, plain_chapter(e.text.clone(), url));
        i = i + 1;
    }
    assert(links@.subrange(0, links@.len() as int) =~= links@);
    out
}

/// The details of the work at `url`, from its page and the chapters the
/// site's chapter list gave (newest first there; the details list the
/// oldest first). When the chapter list gave none, the links of the page's
/// chapter list are read instead.
pub fn work_details(url: String, page: WorkPage, api_chapters: Vec<Chapter>) -> (r: WorkDetails)
    ensures
        r.title@ == match page.info_heading {
            Some(h) => h@,
            None => match page.heading {
                Some(h) => h@,
                None => url@,
            },
        },
        r.url@ == url@,
        opt(r.cover_url) == opt(page.cover),
        texts(r.alternative_names@) == alternative_names(page.alternative),
        texts(r.authors@) == distinct_by(author_values(texts(page.info_lines@)), named_author()),
        r.artists@.len() == 0,
        opt(r.status) == status_of(texts(page.info_lines@)),
        r.release_date is None,
        opt(r.description) == filled(page.description),
        texts(r.genres@) == distinct_by(texts(page.genres@), |t: Seq<char>| t.len() > 0),
        api_chapters@.len() > 0 ==> r.chapters@ == api_chapters@.reverse(),
        api_chapters@.len() == 0 ==> chapter_views(r.chapters@) == collect_some(
            page.chapter_links@,
            list_chapters(),
        ).reverse(),
        r.content_html is None,
{
    let title = match &page.info_heading {
        Some(h) => h.clone(),
        None => match &page.heading {
            Some(h) => h.clone(),
            None => url.clone(),
        },
    };
    let prefix = chars_of("Author(s)");
    let status_word = chars_of("Status");
    let colon = chars_of(":");
    let set = chars_of(" :");
    let unknown = chars_of("Unknown");
    let mut authors: Vec<String> = Vec::new();
    let mut status: Option<String> = None;
    let lines = &page.info_lines;
    let mut i: usize = 0;
    while i < lines.len()
        invariant
            i <= lines@.len(),
            prefix@ == "Author(s)"@,
            status_word@ == "Status"@,
            colon@ == ":"@,
            set@ == " :"@,
            unknown@ == "Unknown"@,
            texts(authors@) == distinct_by(author_values(texts(lines@).subrange(0, i as int)), named_author()),
            opt(status) == status_of(texts(lines@).subrange(0, i as int)),
        decreases lines.len() - i,
    {
        let ghost sub = texts(lines@).subrange(0, i + 1);
        assert(sub.drop_last() =~= texts(lines@).subrange(0, i as int));
        assert(sub.last() == lines@[i as int]@);
        let t = chars_of(lines[i].as_str());
        match strip_prefix_exec(t.as_slice(), prefix.as_slice()) {
            Some(v) => {
                let value = trim_exec(trim_start_in_exec(v.as_slice(), set.as_slice()).as_slice());
                let vs = string_from(value);
                let ghost prev = texts(lines@).subrange(0, i as int);
                assert(author_value(sub.last()) == Some(vs@));
                assert(author_values(sub) == author_values(prev).push(vs@));
                assert(author_values(sub).drop_last() =~= author_values(prev));
                let ghost before = texts(authors@);
                if !vs.as_str().is_empty() && !eq_chars(chars_of(vs.as_str()).as_slice(), unknown.as_slice())
                    && !contains_text(&authors, &vs) {
                    authors.push(vs);
                    assert(texts(authors@) =~= before.push(author_value(sub.last())->0));
                }
            },
            None => {
                assert(author_values(sub) == author_values(texts(lines@).subrange(0, i as int)));
                if starts_with_exec(t.as_slice(), status_word.as_slice()) {
                    status = match second_piece_exec(t.as_slice(), colon.as_slice()) {
                        Some(v) => Some(string_from(trim_exec(v.as_slice()))),
                        None => None,
                    };
                }
            },
        }
        i = i + 1;
    }
    assert(texts(lines@).subrange(0, lines@.len() as int) =~= texts(lines@));
    let chapters = if api_chapters.len() > 0 {
        reversed(api_chapters)
    } else {
        let listed = list_chapters_exec(&page.chapter_links);
        let ghost before_rev = listed@;
        let c = reversed(listed);
        assert(chapter_views(c@) =~= chapter_views(before_rev).reverse());
        c
    };
    WorkDetails {
        title,
        url,
        cover_url: page.cover,
        alternative_names: alternative_names_exec(&page.alternative),
        authors,
        artists: Vec::new(),
        status,
        release_date: None,
        description: filled_exec(page.description),
        genres: distinct_nonempty(&page.genres),
        chapters,
        content_html: None,
    }
}

// ---------------------------------------------------------------------
// Chapter pages
// ---------------------------------------------------------------------

/// The text of the JSON array that follows `"field"` in a page's script:
/// from the first `[` after it to the first `]` after that.
pub open spec fn js_array(body: Seq<char>, field: Seq<char>) -> Option<Seq<char>> {
    match find(body, "\""@ + field + "\""@) {
        None => None,
        Some(start) => match find(body.subrange(start, body.len() as int), "["@) {
            None => None,
            Some(o) => {
                let open = start + o;
                match find(body.subrange(open, body.len() as int), "]"@) {
                    None => None,
                    Some(c) => Some(body.subrange(open, open + c + 1)),
                }
            },
        },
    }
}

/// The strings of the JSON array that follows `"field"` in a page's script,
/// as `serde_json` reads them.
pub open spec fn js_strings_spec(body: Seq<char>, field: Seq<char>) -> Option<Seq<Seq<char>>> {
    match js_array(body, field) {
        Some(a) => match json_strings(a) {
            Ok(v) => Some(v),
            Err(_) => None,
        },
        None => None,
    }
}

/// The strings of the JSON array that follows `"field"` in a page's script.
pub fn js_strings(body: &str, field: &str) -> (r: Option<Vec<String>>)
    ensures
        match r {
            Some(v) => js_strings_spec(body@, field@) == Some(texts(v@)),
            None => js_strings_spec(body@, field@) is None,
        },
{
    let b = chars_of(body);
    let mut key = chars_of("\"");
    push_str(&mut key, field);
    push_str(&mut key, "\"");
    let open_p = chars_of("[");
    let close_p = chars_of("]");
    let start = match find_exec(b.as_slice(), key.as_slice()) {
        Some(s) => s,
        None => return None,
    };
    proof {
        lemma_find_from_some(b@, key@, 0);
    }
    assert(b@.len() == b.len());
    let tail = slice_chars(b.as_slice(), start, b.len());
    let o = match find_exec(tail.as_slice(), open_p.as_slice()) {
        Some(o) => o,
        None => return None,
    };
    proof {
        lemma_find_from_some(tail@, open_p@, 0);
    }
    let open = start + o;
    let rest = slice_chars(b.as_slice(), open, b.len());
    let c = match find_exec(rest.as_slice(), close_p.as_slice()) {
        Some(c) => c,
        None => return None,
    };
    proof {
        lemma_find_from_some(rest@, close_p@, 0);
        reveal_strlit("]");
    }
    let array = string_from(slice_chars(b.as_slice(), open, open + c + 1));
    match parse_string_list(array.as_str()) {
        Ok(v) => Some(v),
        Err(_) => None,
    }
}

/// The page images a chapter page's script names: the first image server,
/// without trailing slashes, followed by `/` and each image path without
/// leading slashes.
pub open spec fn scripted_images(cdns: Seq<Seq<char>>, paths: Seq<Seq<char>>) -> Seq<Seq<char>> {
    if cdns.len() == 0 {
        Seq::empty()
    } else {
        Seq::new(
            paths.len(),
            |k: int| trim_end_in(cdns[0], "/"@) + "/"@ + trim_start_in(paths[k], "/"@),
        )
    }
}

/// The `src` attribute of an image, or else its `data-src` attribute, or
/// else nothing.
pub open spec fn src_or_data(e: Element) -> Seq<char> {
    match e.attr_spec("src"@) {
        Some(s) => s,
        None => match e.attr_spec("data-src"@) {
            Some(d) => d,
            None => Seq::empty(),
        },
    }
}

/// The absolute sources of a group of images, once each.
pub open spec fn group_images(images: Seq<Element>) -> Seq<Seq<char>>
    decreases images.len(),
{
    if images.len() == 0 {
        Seq::empty()
    } else {
        let acc = group_images(images.drop_last());
        let s = src_or_data(images.last());
        if starts_with(s, "http"@) && !acc.contains(s) {
            acc.push(s)
        } else {
            acc
        }
    }
}

fn group_images_exec(images: &Vec<Element>) -> (r: Vec<String>)
    ensures
        texts(r@) == group_images(images@),
{
    let http = chars_of("http");
    let mut out: Vec<String> = Vec::new();
    let mut i: usize = 0;
    while i < images.len()
        invariant
            i <= images@.len(),
            http@ == "http"@,
            texts(out@) == group_images(images@.subrange(0, i as int)),
        decreases images.len() - i,
    {
        assert(images@.subrange(0, i + 1).drop_last() =~= images@.subrange(0, i as int));
        let e = &images[i];
        let s = match e.attr("src") {
            Some(s) => s,
            None => match e.attr("data-src") {
                Some(d) => d,
                None => String::new(),
            },
        };
        let sc = chars_of(s.as_str());
        let ghost before = texts(out@);
        if starts_with_exec(sc.as_slice(), http.as_slice()) && !contains_text(&out, &s) {
            out.push(s);
            assert(texts(out@) =~= before.push(sc@));
        }
        i = i + 1;
    }
    assert(images@.subrange(0, images@.len() as int) =~= images@);
    out
}

/// The pages a chapter page gives: those its script names, else the images
/// of the reader (`div.vung-doc img`), else those of the other reader
/// (`div.container-chapter-reader img`).
pub open spec fn chapter_pages_spec(body: Seq<char>, reader: Seq<Element>, other_reader: Seq<Element>) -> Seq<Seq<char>> {
    let scripted = match (js_strings_spec(body, "cdns"@), js_strings_spec(body, "chapterImages"@)) {
        (Some(cdns), Some(paths)) => scripted_images(cdns, paths),
        _ => Seq::empty(),
    };
    if scripted.len() > 0 {
        scripted
    } else if group_images(reader).len() > 0 {
        group_images(reader)
    } else {
        group_images(other_reader)
    }
}

/// The pages of a chapter, from its page's text and reader images; an error
/// when there are none.
pub fn chapter_images(body: &str, reader: &Vec<Element>, other_reader: &Vec<Element>) -> (r: Result<
    Vec<String>,
    SourceError,
>)
    ensures
        chapter_pages_spec(body@, reader@, other_reader@).len() == 0 ==> is_parse(
            r,
            "no images found in chapter page"@,
        ),
        chapter_pages_spec(body@, reader@, other_reader@).len() > 0 ==> (r matches Ok(v) && texts(v@)
            == chapter_pages_spec(body@, reader@, other_reader@)),
{
    match (js_strings(body, "cdns"), js_strings(body, "chapterImages")) {
        (Some(cdns), Some(paths)) => {
            if cdns.len() > 0 {
                let slash = chars_of("/");
                let c = chars_of(cdns[0].as_str());
                let cdn = trim_end_in_exec(c.as_slice(), slash.as_slice());
                let ghost cv = texts(cdns@);
                let ghost pv = texts(paths@);
                assert(cv[0] == cdns@[0]@);
                let mut out: Vec<String> = Vec::new();
                let mut i: usize = 0;
                while i < paths.len()
                    invariant
                        i <= paths@.len(),
                        slash@ == "/"@,
                        pv == texts(paths@),
                        cdn@ == trim_end_in(cv[0], "/"@),
                        out@.len() == i,
                        forall|k: int|
                            0 <= k < i ==> (#[trigger] out@[k])@ == trim_end_in(cv[0], "/"@) + "/"@
                                + trim_start_in(pv[k], "/"@),
                    decreases paths.len() - i,
                {
                    let p = chars_of(paths[i].as_str());
                    let path = trim_start_in_exec(p.as_slice(), slash.as_slice());
                    let mut v = slice_chars(cdn.as_slice(), 0, cdn.len());
                    assert(v@ =~= cdn@);
                    push_str(&mut v, "/");
                    push_all(&mut v, path.as_slice());
                    out.push(string_from(v));
                    i = i + 1;
                }
                if out.len() > 0 {
                    assert(texts(out@) =~= scripted_images(cv, pv));
                    return Ok(out);
                }
                assert(scripted_images(cv, pv).len() == 0);
            }
        },
        _ => {},
    }
    let first = group_images_exec(reader);
    if first.len() > 0 {
        return Ok(first);
    }
    let second = group_images_exec(other_reader);
    if second.len() == 0 {
        return Err(SourceError::Parse(String::from_str("no images found in chapter page")));
    }
    Ok(second)
}

} // verus!
