//! HariManga, a manga site built on WordPress.
use vstd::prelude::*;
use crate::encoding::{url_encode, url_encoded};
use crate::model::{
    header_is, referer_and_agent, BROWSER_AGENT,
    distinct_urls, entry_of, Entry,
    eager_src, eager_src_exec, lazy_src, lazy_src_exec,
    chapter_is, distinct_by, distinct_nonempty, extract_string_field, is_parse, longest_nonempty,
    longest_nonempty_exec, mentioned_status, mentioned_status_exec, name_slugs, name_slugs_exec,
    opt, pair_texts, reversed, string_from, summary_is, texts, Chapter, Element, SourceError,
    SourceInfo, WorkDetails, WorkKind, WorkSummary,
};
use crate::text::{
    lemma_find_from_prefix, lemma_trim_ends, lemma_trim_start_in_shape, is_ws,
    chars_of, contains, contains_exec, decimal, decimal_exec, drop_prefix, drop_prefix_exec,
    drop_suffix, drop_suffix_exec, find, find_exec, last_piece, last_piece_exec, lemma_find_from_some,
    lowercase, lowercase_exec, pieces, push_all, push_str, rfind, rfind_exec, slice_chars,
    starts_with, starts_with_exec, trim, trim_end_in, trim_end_in_exec, trim_exec, trim_start_in,
    trim_start_in_exec, before, before_exec,
};

verus! {

/// The site's address.
pub const BASE: &'static str = "https://www.harimanga.co.uk";

/// The headers of the source's requests.
pub fn request_headers() -> (r: Vec<(String, String)>)
    ensures
        r@.len() == 2,
        header_is(r@[0], "Referer"@, BASE@ + "/"@),
        header_is(r@[1], "User-Agent"@, BROWSER_AGENT@),
{
    referer_and_agent(BASE)
}

/// The description of the source.
pub fn info() -> (r: SourceInfo)
    ensures
        r.id@ == "hari_manga"@,
        r.name@ == "HariManga"@,
        r.version@ == "1.0.1"@,
        r.kind == WorkKind::Manga,
        r.icon_url is None,
        opt(r.referer_url) == Some(BASE@ + "/"@),
        opt(r.base_url) == Some(BASE@),
{
    let mut referer = chars_of(BASE);
    push_str(&mut referer, "/");
    SourceInfo {
        id: String::from_str("hari_manga"),
        name: String::from_str("HariManga"),
        version: String::from_str("1.0.1"),
        kind: WorkKind::Manga,
        icon_url: None,
        referer_url: Some(string_from(referer)),
        base_url: Some(String::from_str(BASE)),
    }
}

/// The address of the search results for `query`; there is a single page
/// of them, so a later page is `None` (an empty listing).
pub fn search_url(query: &str, page: u32) -> (r: Option<String>)
    ensures
        page > 1 ==> r is None,
        page <= 1 ==> opt(r) == Some(BASE@ + "/?s="@ + url_encoded(query@) + "&post_type=wp-manga"@),
{
    if page > 1 {
        return None;
    }
    let mut v = chars_of(BASE);
    push_str(&mut v, "/?s=");
    let q = url_encode(query);
    push_str(&mut v, q.as_str());
    push_str(&mut v, "&post_type=wp-manga");
    Some(string_from(v))
}

/// The address of a page of a listing ordered by `order`.
pub open spec fn listing_url(order: Seq<char>, page: u32) -> Seq<char> {
    BASE@ + "/home/page/"@ + decimal(page as nat) + "?orderby="@ + order + "&post_type=wp-manga"@
}

fn listing_url_exec(order: &str, page: u32) -> (r: String)
    ensures
        r@ == listing_url(order@, page),
{
    let mut v = chars_of(BASE);
    push_str(&mut v, "/home/page/");
    let d = decimal_exec(page as u64);
    push_all(&mut v, d.as_slice());
    push_str(&mut v, "?orderby=");
    push_str(&mut v, order);
    push_str(&mut v, "&post_type=wp-manga");
    string_from(v)
}

/// The address of a page of the latest updates; the site shows 100 of them.
pub fn latest_url(page: u32) -> (r: Option<String>)
    ensures
        page > 100 ==> r is None,
        page <= 100 ==> opt(r) == Some(listing_url("latest"@, page)),
{
    if page > 100 {
        return None;
    }
    Some(listing_url_exec("latest", page))
}

/// The address of a page of the trending works; the site shows 20 of them.
pub fn trending_url(page: u32) -> (r: Option<String>)
    ensures
        page > 20 ==> r is None,
        page <= 20 ==> opt(r) == Some(listing_url("trending"@, page)),
{
    if page > 20 {
        return None;
    }
    Some(listing_url_exec("trending", page))
}

// ---------------------------------------------------------------------
// Titles and image addresses
// ---------------------------------------------------------------------

/// A title that is only the text of a "read" overlay of a listing card.
pub open spec fn placeholder(title: Seq<char>) -> bool {
    let t = lowercase(trim(title));
    t == "read"@ || t == "read manga"@ || t == "manga"@
}

proof fn lemma_absolute_image(r: Seq<char>)
    requires
        r.len() > 0,
        !is_ws(r[0]),
        !is_ws(r.last()),
    ensures
        absolute_image(r).len() > 0,
        absolute_image(r)[0] != '/',
        !is_ws(absolute_image(r)[0]),
        absolute_image(r).last() == r.last(),
{
    reveal_strlit("https://www.harimanga.co.uk");
    reveal_strlit("https:");
    reveal_strlit("//");
    reveal_strlit("/");
    let x = absolute_image(r);
    if starts_with(r, "//"@) {
        assert(x[0] == "https:"@[0]);
        assert("https:"@[0] == 'h');
    } else if starts_with(r, "/"@) {
        assert(x[0] == BASE@[0]);
        assert(BASE@[0] == 'h');
    } else {
        if r[0] == '/' {
            assert(r.subrange(0, 1) =~= "/"@);
        }
    }
    assert(x.last() == r.last());
}

proof fn lemma_single_slash_stable(url: Seq<char>)
    requires
        url.len() > 0,
        url[0] != '/',
    ensures
        single_slash(url) matches Some(u) ==> u.len() > 0 && u[0] == url[0] && (u.last() == '/'
            || u.last() == url.last()) && single_slash(u) == Some(u),
{
    if let Some(u) = single_slash(url) {
        reveal_strlit("://");
        reveal_strlit("/");
        let i = find(url, "://"@)->0;
        lemma_find_from_some(url, "://"@, 0);
        let a = i + 3;
        let rest = url.subrange(a, url.len() as int);
        let o = find(rest, "/"@)->0;
        lemma_find_from_some(rest, "/"@, 0);
        let head = url.subrange(0, a + o);
        let tail = url.subrange(a + o, url.len() as int);
        let t = trim_start_in(tail, "/"@);
        lemma_trim_start_in_shape(tail, "/"@);
        assert(u =~= head + seq!['/'] + t);
        assert(u[0] == url[0]);
        if t.len() > 0 {
            assert(u.last() == t.last());
            assert(t.last() == tail.last());
        }
        assert(u.subrange(0, a + o) =~= url.subrange(0, a + o));
        lemma_find_from_prefix(url, u, "://"@, 0, a + o);
        let rest2 = u.subrange(a, u.len() as int);
        assert(rest.subrange(o, o + 1)[0] == rest[o]);
        assert(rest[o] == '/');
        assert(rest.subrange(0, o + 1) =~= rest2.subrange(0, o + 1));
        lemma_find_from_prefix(rest, rest2, "/"@, 0, o + 1);
        let tail2 = u.subrange(a + o, u.len() as int);
        assert(tail2 =~= seq!['/'] + t);
        assert(tail2.drop_first() =~= t);
        assert(trim_start_in(tail2, "/"@) == trim_start_in(t, "/"@));
        assert(u.subrange(0, a + o) + "/"@ + trim_start_in(tail2, "/"@) =~= u);
    }
}

/// `normalize_image_url` is idempotent: when it turns `raw` into `u`, it
/// turns `u` into `u` again (stated over `normalized_image`, the result its
/// contract gives for every input).
pub proof fn lemma_normalize_image_url_idempotent(raw: Seq<char>)
    ensures
        normalized_image(raw) matches Some(u) ==> normalized_image(u) == Some(u),
{
    let r = trim(raw);
    if let Some(u) = normalized_image(raw) {
        reveal_strlit("//");
        reveal_strlit("/");
        lemma_trim_ends(raw);
        lemma_absolute_image(r);
        let x = absolute_image(r);
        lemma_single_slash_stable(x);
        assert(!is_ws(u[0]) && !is_ws(u.last()));
        lemma_trim_ends(u);
        assert(!starts_with(u, "/"@)) by {
            if starts_with(u, "/"@) {
                assert(u.subrange(0, 1)[0] == u[0]);
            }
        }
        assert(!starts_with(u, "//"@)) by {
            if starts_with(u, "//"@) {
                assert(u.subrange(0, 2)[0] == u[0]);
            }
        }
        assert(absolute_image(u) == u);
    }
}

/// Whether a title is only the text of a "read" overlay: after trimming and
/// in lower case, it is `read`, `read manga` or `manga`.
pub fn is_placeholder_title(title: &str) -> (r: bool)
    ensures
        r == placeholder(title@),
{
    let t = chars_of(title);
    let trimmed = trim_exec(t.as_slice());
    let low = lowercase_exec(trimmed.as_slice());
    let a = chars_of("read");
    let b = chars_of("read manga");
    let c = chars_of("manga");
    crate::text::eq_chars(low.as_slice(), a.as_slice()) || crate::text::eq_chars(
        low.as_slice(),
        b.as_slice(),
    ) || crate::text::eq_chars(low.as_slice(), c.as_slice())
}

/// The title of a listing entry without the site's decorations.
pub open spec fn cleaned_title(raw: Seq<char>) -> Seq<char> {
    trim(drop_suffix(drop_prefix(trim(before(raw, " on Hari"@)), "Read "@), " Manga Online"@))
}

/// Removes the site's decorations from a listing title: what follows
/// " on Hari", a leading "Read " and a trailing " Manga Online".
pub fn clean_title(raw: &str) -> (r: String)
    ensures
        r@ == cleaned_title(raw@),
{
    let t = chars_of(raw);
    let sep = chars_of(" on Hari");
    let first = before_exec(t.as_slice(), sep.as_slice());
    let title = trim_exec(first.as_slice());
    let read = chars_of("Read ");
    let title = drop_prefix_exec(title.as_slice(), read.as_slice());
    let online = chars_of(" Manga Online");
    let title = drop_suffix_exec(title.as_slice(), online.as_slice());
    string_from(trim_exec(title.as_slice()))
}

/// An image address made absolute: protocol-relative ones get `https:`,
/// site-relative ones the site's address.
pub open spec fn absolute_image(r: Seq<char>) -> Seq<char> {
    if starts_with(r, "//"@) {
        "https:"@ + r
    } else if starts_with(r, "/"@) {
        BASE@ + r
    } else {
        r
    }
}

/// An absolute address with a single slash between its host and its path;
/// none when it has no `://` or no path.
pub open spec fn single_slash(url: Seq<char>) -> Option<Seq<char>> {
    match find(url, "://"@) {
        None => None,
        Some(i) => {
            let a = i + "://"@.len();
            match find(url.subrange(a, url.len() as int), "/"@) {
                None => None,
                Some(o) => Some(
                    url.subrange(0, a + o) + "/"@ + trim_start_in(
                        url.subrange(a + o, url.len() as int),
                        "/"@,
                    ),
                ),
            }
        },
    }
}

/// An image address made absolute and with a single slash after the host.
pub open spec fn normalized_image(raw: Seq<char>) -> Option<Seq<char>> {
    let r = trim(raw);
    if r.len() == 0 {
        None
    } else {
        single_slash(absolute_image(r))
    }
}

/// Normalises an image address: trimmed; `//host/..` gets `https:`, a path
/// gets the site's address; the slashes after the host are collapsed into
/// one. `None` for an empty address, or one with no `://` or no path.
pub fn normalize_image_url(raw: &str) -> (r: Option<String>)
    ensures
        opt(r) == normalized_image(raw@),
{
    let t = chars_of(raw);
    let r = trim_exec(t.as_slice());
    if r.len() == 0 {
        return None;
    }
    let dslash = chars_of("//");
    let slash = chars_of("/");
    let url = if starts_with_exec(r.as_slice(), dslash.as_slice()) {
        let mut v = chars_of("https:");
        push_all(&mut v, r.as_slice());
        v
    } else if starts_with_exec(r.as_slice(), slash.as_slice()) {
        let mut v = chars_of(BASE);
        push_all(&mut v, r.as_slice());
        v
    } else {
        r
    };
    let sep = chars_of("://");
    let i = match find_exec(url.as_slice(), sep.as_slice()) {
        Some(i) => i,
        None => return None,
    };
    proof {
        lemma_find_from_some(url@, sep@, 0);
    }
    assert(url@.len() == url.len());
    let a = i + sep.len();
    let rest = slice_chars(url.as_slice(), a, url.len());
    let o = match find_exec(rest.as_slice(), slash.as_slice()) {
        Some(o) => o,
        None => return None,
    };
    proof {
        lemma_find_from_some(rest@, slash@, 0);
    }
    let mut v = slice_chars(url.as_slice(), 0, a + o);
    push_str(&mut v, "/");
    let path = slice_chars(url.as_slice(), a + o, url.len());
    let path = trim_start_in_exec(path.as_slice(), slash.as_slice());
    push_all(&mut v, path.as_slice());
    Some(string_from(v))
}

// ---------------------------------------------------------------------
// The chapter list of a work
// ---------------------------------------------------------------------

/// The address of a work with its trailing slashes removed.
pub open spec fn work_base(url: Seq<char>) -> Seq<char> {
    trim_end_in(url, "/"@)
}

/// The address of the site's chapter list for a work: the last segment of
/// the work's address is its slug.
pub open spec fn api_url(url: Seq<char>) -> Seq<char> {
    BASE@ + "/api/comics/"@ + last_piece(work_base(url), "/"@) + "/chapters"@
}

/// The address of the site's chapter list for the work at `url`.
pub fn chapters_api_url(url: &str) -> (r: String)
    ensures
        r@ == api_url(url@),
{
    let u = chars_of(url);
    let slash = chars_of("/");
    let base = trim_end_in_exec(u.as_slice(), slash.as_slice());
    let slug = last_piece_exec(base.as_slice(), slash.as_slice());
    let mut v = chars_of(BASE);
    push_str(&mut v, "/api/comics/");
    push_all(&mut v, slug.as_slice());
    push_str(&mut v, "/chapters");
    string_from(v)
}

/// The text between the brackets of the `"chapters":` array of the answer:
/// from the first `[` after `"chapters":` (or from `"chapters":` itself when
/// no `[` follows) to the last `]`.
pub open spec fn chapters_array(body: Seq<char>) -> Option<Seq<char>> {
    match find(body, "\"chapters\":"@) {
        None => None,
        Some(st) => {
            let a = st + match find(body.subrange(st, body.len() as int), "["@) {
                Some(o) => o,
                None => 0,
            };
            match rfind(body.subrange(a, body.len() as int), "]"@) {
                None => None,
                Some(c) => Some(body.subrange(a + 1, a + c)),
            }
        },
    }
}

/// The text of an optional string slice.
pub open spec fn opt_str(b: Option<&str>) -> Option<Seq<char>> {
    match b {
        Some(t) => Some(t@),
        None => None,
    }
}

/// The names and slugs of the chapters in the answer of the chapter list;
/// nothing when there was no answer.
pub open spec fn api_entries(body: Option<Seq<char>>) -> Seq<(Seq<char>, Seq<char>)> {
    match body {
        None => Seq::empty(),
        Some(b) => match chapters_array(b) {
            None => Seq::empty(),
            Some(array) => name_slugs(pieces(array, "},{"@)),
        },
    }
}

fn chapters_array_exec(body: &[char]) -> (r: Option<Vec<char>>)
    ensures
        r matches Some(v) ==> chapters_array(body@) == Some(v@),
        r is None ==> chapters_array(body@) is None,
{
    let key = chars_of("\"chapters\":");
    let open = chars_of("[");
    let close = chars_of("]");
    proof {
        reveal_strlit("\"chapters\":");
        reveal_strlit("[");
        reveal_strlit("]");
    }
    let st = match find_exec(body, key.as_slice()) {
        Some(st) => st,
        None => return None,
    };
    proof {
        lemma_find_from_some(body@, key@, 0);
    }
    assert(body@.len() == body.len());
    let tail = slice_chars(body, st, body.len());
    let o = match find_exec(tail.as_slice(), open.as_slice()) {
        Some(o) => {
            proof {
                lemma_find_from_some(tail@, open@, 0);
            }
            o
        },
        None => 0,
    };
    let a = st + o;
    assert(body@[a as int] == '[' || body@[a as int] == '"') by {
        if o > 0 {
            assert(tail@.subrange(o as int, o + 1)[0] == '[');
        } else {
            assert(body@.subrange(st as int, st + key@.len())[0] == '"');
        }
    }
    let rest = slice_chars(body, a, body.len());
    let c = match rfind_exec(rest.as_slice(), close.as_slice()) {
        Some(c) => c,
        None => return None,
    };
    assert(rest@.subrange(c as int, c + 1)[0] == ']');
    assert(c >= 1);
    Some(slice_chars(body, a + 1, a + c))
}

/// The chapters in the answer of the site's chapter list for the work at
/// `url` (`None` when the request failed): each object with a
/// `chapter_name` and a `chapter_slug` gives a chapter titled by the name,
/// at the work's address (without trailing slashes) followed by `/` and the
/// slug.
pub fn chapters_from_api(body: Option<&str>, url: &str) -> (r: Vec<Chapter>)
    ensures
        r@.len() == api_entries(opt_str(body)).len(),
        forall|k: int|
            0 <= k < r@.len() ==> chapter_is(
                #[trigger] r@[k],
                api_entries(opt_str(body))[k].0,
                work_base(url@) + "/"@ + api_entries(opt_str(body))[k].1,
                None,
                None,
            ),
{
    let ghost entries = api_entries(opt_str(body));
    let text = match body {
        Some(b) => b,
        None => {
            return Vec::new();
        },
    };
    let t = chars_of(text);
    let array = match chapters_array_exec(t.as_slice()) {
        Some(a) => a,
        None => {
            return Vec::new();
        },
    };
    let pairs = name_slugs_exec(array.as_slice());
    assert(pair_texts(pairs@) == entries);
    let u = chars_of(url);
    let slash = chars_of("/");
    let base = trim_end_in_exec(u.as_slice(), slash.as_slice());
    let mut out: Vec<Chapter> = Vec::new();
    let mut i: usize = 0;
    while i < pairs.len()
        invariant
            i <= pairs@.len(),
            base@ == work_base(url@),
            pair_texts(pairs@) == entries,
            out@.len() == i,
            forall|k: int|
                0 <= k < i ==> chapter_is(
                    #[trigger] out@[k],
                    entries[k].0,
                    work_base(url@) + "/"@ + entries[k].1,
                    None,
                    None,
                ),
        decreases pairs.len() - i,
    {
        assert(entries[i as int] == (pairs@[i as int].0@, pairs@[i as int].1@));
        let mut link = slice_chars(base.as_slice(), 0, base.len());
        assert(link@ =~= base@);
        push_str(&mut link, "/");
        push_str(&mut link, pairs[i].1.as_str());
        out.push(
            Chapter {
                title: pairs[i].0.clone(),
                url: string_from(link),
                date: None,
                scanlation_group: None,
            },
        );
        i = i + 1;
    }
    out
}

// ---------------------------------------------------------------------
// Work pages
// ---------------------------------------------------------------------

/// What the page of a work shows, as the host's selectors find it.
pub struct WorkPage {
    /// The text of the first `h1`.
    pub heading: Option<String>,
    /// The texts of the links to author pages.
    pub authors: Vec<String>,
    /// The texts of the `.summary-content` blocks.
    pub summaries: Vec<String>,
    /// The texts of the links to genre pages.
    pub genres: Vec<String>,
    /// The cover image (`.summary_image img`).
    pub cover: Option<Element>,
}

/// The cover address a work page gives.
pub open spec fn page_cover(cover: Option<Element>) -> Option<Seq<char>> {
    match cover {
        Some(e) => match lazy_src(e) {
            Some(src) => normalized_image(src),
            None => None,
        },
        None => None,
    }
}

/// The details of the work at `url`, from its page and the chapter list
/// that the site's chapter list answered (oldest chapter last there; the
/// details list the oldest first).
pub fn work_details(url: String, page: WorkPage, api_chapters: Vec<Chapter>) -> (r: WorkDetails)
    ensures
        r.title@ == match page.heading {
            Some(h) => h@,
            None => url@,
        },
        r.url@ == url@,
        opt(r.cover_url) == page_cover(page.cover),
        r.alternative_names@.len() == 0,
        texts(r.authors@) == distinct_by(texts(page.authors@), |t: Seq<char>| t.len() > 0),
        r.artists@.len() == 0,
        opt(r.status) == mentioned_status(texts(page.summaries@)),
        r.release_date is None,
        opt(r.description) == longest_nonempty(texts(page.summaries@)),
        texts(r.genres@) == distinct_by(texts(page.genres@), |t: Seq<char>| t.len() > 0),
        r.chapters@ == api_chapters@.reverse(),
        r.content_html is None,
{
    let title = match &page.heading {
        Some(h) => h.clone(),
        None => url.clone(),
    };
    let authors = distinct_nonempty(&page.authors);
    let status = mentioned_status_exec(&page.summaries);
    let description = longest_nonempty_exec(&page.summaries);
    let genres = distinct_nonempty(&page.genres);
    let cover_url = match &page.cover {
        Some(e) => match lazy_src_exec(e) {
            Some(src) => normalize_image_url(src.as_str()),
            None => None,
        },
        None => None,
    };
    WorkDetails {
        title,
        url,
        cover_url,
        alternative_names: Vec::new(),
        authors,
        artists: Vec::new(),
        status,
        release_date: None,
        description,
        genres,
        chapters: reversed(api_chapters),
        content_html: None,
    }
}

/// The addresses of the pages of a chapter, in order and each once, from
/// the chapter images.
pub open spec fn page_images(images: Seq<Element>) -> Seq<Seq<char>>
    decreases images.len(),
{
    if images.len() == 0 {
        Seq::empty()
    } else {
        let acc = page_images(images.drop_last());
        match normalized_image(eager_src(images.last())) {
            Some(u) => if acc.contains(u) {
                acc
            } else {
                acc.push(u)
            },
            None => acc,
        }
    }
}

/// The pages of a chapter, from its images (`img.wp-manga-chapter-img`);
/// an error when there are none.
pub fn chapter_images(images: &Vec<Element>) -> (r: Result<Vec<String>, SourceError>)
    ensures
        page_images(images@).len() == 0 ==> is_parse(r, "no images found in chapter page"@),
        page_images(images@).len() > 0 ==> (r matches Ok(v) && texts(v@) == page_images(images@)),
{
    let mut out: Vec<String> = Vec::new();
    let mut i: usize = 0;
    while i < images.len()
        invariant
            i <= images@.len(),
            texts(out@) == page_images(images@.subrange(0, i as int)),
        decreases images.len() - i,
    {
        assert(images@.subrange(0, i + 1).drop_last() =~= images@.subrange(0, i as int));
        let src = eager_src_exec(&images[i]);
        let s = string_from(src);
        let ghost before_push = texts(out@);
        match normalize_image_url(s.as_str()) {
            Some(u) => {
                if !crate::model::contains_text(&out, &u) {
                    out.push(u);
                    assert(texts(out@) =~= before_push.push(u@));
                }
            },
            None => {},
        }
        i = i + 1;
    }
    assert(images@.subrange(0, images@.len() as int) =~= images@);
    if out.len() == 0 {
        return Err(SourceError::Parse(String::from_str("no images found in chapter page")));
    }
    Ok(out)
}

// ---------------------------------------------------------------------
// Listings
// ---------------------------------------------------------------------

/// A link of a listing page (`a[href*='/manga/']`) and the first image in it.
pub struct ListingLink {
    pub link: Element,
    pub image: Option<Element>,
}

/// The link target of a listing link, when it leads to a work (and not to
/// one of its chapters).
pub open spec fn work_href(l: ListingLink) -> Option<Seq<char>> {
    match l.link.attr_spec("href"@) {
        Some(h) => if contains(h, "/manga/"@) && !contains(h, "/chapter-"@) {
            Some(h)
        } else {
            None
        },
        None => None,
    }
}

/// The raw title of a listing link: its `title` attribute unless empty or
/// equal to the target, else its `alt` attribute unless empty, else its text.
pub open spec fn raw_title(l: ListingLink, href: Seq<char>) -> Seq<char> {
    let t = l.link.attr_spec("title"@);
    let a = l.link.attr_spec("alt"@);
    if t is Some && t->0.len() > 0 && t->0 != href {
        t->0
    } else if a is Some && a->0.len() > 0 {
        a->0
    } else {
        l.link.text@
    }
}

/// A link target made absolute.
pub open spec fn absolute(href: Seq<char>) -> Seq<char> {
    if starts_with(href, "http"@) {
        href
    } else {
        BASE@ + href
    }
}

/// The first position at or after `i` of an entry with the address `url`.
pub open spec fn url_index_from(works: Seq<Entry>, url: Seq<char>, i: int) -> Option<int>
    decreases works.len() - i,
{
    if i < 0 || i >= works.len() {
        None
    } else if works[i].1 == url {
        Some(i)
    } else {
        url_index_from(works, url, i + 1)
    }
}

/// One link added to the entries: a link to a work with a non-empty cleaned
/// title adds an entry, unless one with the same address is there already;
/// then that one takes the new title if its own is a placeholder and the new
/// one is not, and the new cover if it has none.
pub open spec fn merge_link(works: Seq<Entry>, l: ListingLink) -> Seq<Entry> {
    match work_href(l) {
        None => works,
        Some(href) => {
            let url = absolute(href);
            let title = cleaned_title(raw_title(l, href));
            let cover = page_cover(l.image);
            if title.len() == 0 {
                works
            } else {
                match url_index_from(works, url, 0) {
                    Some(k) => {
                        let old = works[k];
                        let new_title = if placeholder(old.0) && !placeholder(title) {
                            title
                        } else {
                            old.0
                        };
                        let new_cover = if old.2 is None {
                            cover
                        } else {
                            old.2
                        };
                        works.update(k, (new_title, url, new_cover))
                    },
                    None => works.push((title, url, cover)),
                }
            }
        },
    }
}

/// The entries that a sequence of links adds up to.
pub open spec fn merged(links: Seq<ListingLink>) -> Seq<Entry>
    decreases links.len(),
{
    if links.len() == 0 {
        Seq::empty()
    } else {
        merge_link(merged(links.drop_last()), links.last())
    }
}

proof fn lemma_url_index_from(works: Seq<Entry>, url: Seq<char>, i: int)
    requires
        0 <= i,
    ensures
        url_index_from(works, url, i) matches Some(k) ==> i <= k < works.len() && works[k].1 == url,
        url_index_from(works, url, i) is None ==> forall|j: int|
            i <= j < works.len() ==> (#[trigger] works[j]).1 != url,
    decreases works.len() - i,
{
    if i < works.len() && works[i].1 != url {
        lemma_url_index_from(works, url, i + 1);
    }
}

proof fn lemma_merged_distinct(links: Seq<ListingLink>)
    ensures
        distinct_urls(merged(links)),
    decreases links.len(),
{
    if links.len() > 0 {
        let works = merged(links.drop_last());
        lemma_merged_distinct(links.drop_last());
        let l = links.last();
        match work_href(l) {
            None => {},
            Some(href) => {
                let url = absolute(href);
                lemma_url_index_from(works, url, 0);
                let out = merged(links);
                match url_index_from(works, url, 0) {
                    Some(k) => {
                        assert forall|i: int, j: int| 0 <= i < j < out.len() implies (#[trigger] out[i]).1
                            != (#[trigger] out[j]).1 by {
                            assert(out[i].1 == works[i].1);
                            assert(out[j].1 == works[j].1);
                        }
                    },
                    None => {},
                }
            },
        }
    }
}

proof fn lemma_filter_distinct(s: Seq<Entry>, p: spec_fn(Entry) -> bool)
    requires
        distinct_urls(s),
    ensures
        distinct_urls(s.filter(p)),
    decreases s.len(),
{
    reveal(Seq::filter);
    if s.len() > 0 {
        let init = s.drop_last();
        assert(distinct_urls(init)) by {
            assert forall|i: int, j: int| 0 <= i < j < init.len() implies (#[trigger] init[i]).1
                != (#[trigger] init[j]).1 by {
                assert(init[i] == s[i] && init[j] == s[j]);
            }
        }
        lemma_filter_distinct(init, p);
        let f = init.filter(p);
        if p(s.last()) {
            assert(s.filter(p) == f.push(s.last()));
            assert forall|i: int| 0 <= i < f.len() implies (#[trigger] f[i]).1 != s.last().1 by {
                assert(f.contains(f[i]));
                init.lemma_filter_contains_rev(p, f[i]);
                let m = choose|m: int| 0 <= m < init.len() && init[m] == f[i];
                assert(s[m] == f[i]);
            }
        }
    }
}

/// A listing lists no address twice and no entry whose title is a
/// placeholder.
pub proof fn lemma_listing_clean(links: Seq<ListingLink>)
    ensures
        distinct_urls(listing(links)),
        forall|i: int| 0 <= i < listing(links).len() ==> !placeholder(#[trigger] listing(links)[i].0),
{
    lemma_merged_distinct(links);
    lemma_filter_distinct(merged(links), titled());
    assert forall|i: int| 0 <= i < listing(links).len() implies !placeholder(#[trigger] listing(links)[i].0) by {
        merged(links).lemma_filter_pred(titled(), i);
    }
}

/// Entries whose title is not a placeholder.
pub open spec fn titled() -> spec_fn(Entry) -> bool {
    |w: Entry| !placeholder(w.0)
}

/// The listing that a sequence of links gives: the merged entries whose
/// title is not a placeholder.
pub open spec fn listing(links: Seq<ListingLink>) -> Seq<Entry> {
    merged(links).filter(titled())
}

spec fn state_of(titles: Seq<String>, urls: Seq<String>, covers: Seq<Option<String>>) -> Seq<Entry> {
    Seq::new(titles.len(), |k: int| (titles[k]@, urls[k]@, opt(covers[k])))
}

fn raw_title_exec(l: &ListingLink, href: &String) -> (r: String)
    ensures
        r@ == raw_title(*l, href@),
{
    match l.link.attr("title") {
        Some(t) => {
            if !t.as_str().is_empty() && t != *href {
                return t;
            }
        },
        None => {},
    }
    match l.link.attr("alt") {
        Some(a) => {
            if !a.as_str().is_empty() {
                return a;
            }
        },
        None => {},
    }
    l.link.text.clone()
}

fn absolute_exec(href: &String) -> (r: String)
    ensures
        r@ == absolute(href@),
{
    let h = chars_of(href.as_str());
    let http = chars_of("http");
    if starts_with_exec(h.as_slice(), http.as_slice()) {
        href.clone()
    } else {
        let mut v = chars_of(BASE);
        push_all(&mut v, h.as_slice());
        string_from(v)
    }
}

/// The works a listing page shows, from its links to works: one entry per
/// work address, with a cleaned title; entries whose title stays a
/// placeholder are left out.
pub fn parse_items(links: &Vec<ListingLink>) -> (r: Vec<WorkSummary>)
    ensures
        r@.map_values(|w: WorkSummary| entry_of(w)) == listing(links@),
{
    let mut titles: Vec<String> = Vec::new();
    let mut urls: Vec<String> = Vec::new();
    let mut covers: Vec<Option<String>> = Vec::new();
    let mut i: usize = 0;
    while i < links.len()
        invariant
            i <= links@.len(),
            titles@.len() == urls@.len() == covers@.len(),
            state_of(titles@, urls@, covers@) == merged(links@.subrange(0, i as int)),
        decreases links.len() - i,
    {
        assert(links@.subrange(0, i + 1).drop_last() =~= links@.subrange(0, i as int));
        assert(links@.subrange(0, i + 1).last() == links@[i as int]);
        let l = &links[i];
        let ghost works = state_of(titles@, urls@, covers@);
        i = i + 1;
        let href = match l.link.attr("href") {
            Some(h) => h,
            None => {
                continue;
            },
        };
        let hc = chars_of(href.as_str());
        let manga = chars_of("/manga/");
        let chapter = chars_of("/chapter-");
        if !(contains_exec(hc.as_slice(), manga.as_slice()) && !contains_exec(
            hc.as_slice(),
            chapter.as_slice(),
        )) {
            continue;
        }
        let raw = raw_title_exec(l, &href);
        let url = absolute_exec(&href);
        let title = clean_title(raw.as_str());
        let cover = match &l.image {
            Some(e) => match lazy_src_exec(e) {
                Some(src) => normalize_image_url(src.as_str()),
                None => None,
            },
            None => None,
        };
        if title.as_str().is_empty() {
            continue;
        }
        let mut k: usize = 0;
        let mut found = false;
        while k < urls.len()
            invariant_except_break
                !found,
            invariant
                k <= urls@.len(),
                titles@.len() == urls@.len() == covers@.len(),
                works == state_of(titles@, urls@, covers@),
                url_index_from(works, url@, 0) == url_index_from(works, url@, k as int),
            ensures
                found ==> k < urls@.len() && urls@[k as int]@ == url@,
                !found ==> k == urls@.len(),
            decreases urls.len() - k,
        {
            if urls[k] == url {
                found = true;
                break;
            }
            k = k + 1;
        }
        if found {
            assert(url_index_from(works, url@, 0) == Some(k as int));
            let old_title = titles[k].clone();
            if is_placeholder_title(old_title.as_str()) && !is_placeholder_title(title.as_str()) {
                titles.set(k, title);
            }
            if covers[k].is_none() {
                covers.set(k, cover);
            }
            assert(state_of(titles@, urls@, covers@) =~= merge_link(works, *l));
        } else {
            assert(url_index_from(works, url@, 0) is None);
            titles.push(title);
            urls.push(url);
            covers.push(cover);
            assert(state_of(titles@, urls@, covers@) =~= merge_link(works, *l));
        }
    }
    assert(links@.subrange(0, links@.len() as int) =~= links@);
    let ghost all = state_of(titles@, urls@, covers@);
    let mut out: Vec<WorkSummary> = Vec::new();
    let mut titles = titles;
    let mut urls = urls;
    let mut covers = covers;
    let ghost mut j: int = 0;
    // the entries are taken from the back, so collect them reversed first
    let mut rev: Vec<WorkSummary> = Vec::new();
    while titles.len() > 0
        invariant
            titles@.len() == urls@.len() == covers@.len(),
            titles@.len() <= all.len(),
            state_of(titles@, urls@, covers@) == all.subrange(0, titles@.len() as int),
            rev@.map_values(|w: WorkSummary| entry_of(w)) == all.subrange(
                titles@.len() as int,
                all.len() as int,
            ).reverse(),
        decreases titles.len(),
    {
        let ghost n = titles@.len();
        let ghost st = state_of(titles@, urls@, covers@);
        let t = titles.pop().unwrap();
        let u = urls.pop().unwrap();
        let c = covers.pop().unwrap();
        assert(st[n - 1] == all[n - 1]);
        assert(state_of(titles@, urls@, covers@) =~= all.subrange(0, titles@.len() as int));
        let ghost before_push = rev@.map_values(|w: WorkSummary| entry_of(w));
        rev.push(WorkSummary { title: t, url: u, cover_url: c });
        assert(rev@.map_values(|w: WorkSummary| entry_of(w)) =~= before_push.push(all[n - 1]));
        assert(rev@.map_values(|w: WorkSummary| entry_of(w)) =~= all.subrange(
            titles@.len() as int,
            all.len() as int,
        ).reverse());
    }
    assert(all.subrange(0, all.len() as int) =~= all);
    // rev holds the entries in reverse order: pop them back into order,
    // keeping those with a real title
    let ghost revv = rev@.map_values(|w: WorkSummary| entry_of(w));
    assert(revv =~= all.reverse());
    while rev.len() > 0
        invariant
            rev@.len() <= all.len(),
            rev@.map_values(|w: WorkSummary| entry_of(w)) == all.reverse().subrange(
                0,
                rev@.len() as int,
            ),
            out@.map_values(|w: WorkSummary| entry_of(w)) == all.subrange(
                0,
                all.len() - rev@.len(),
            ).filter(titled()),
        decreases rev.len(),
    {
        let ghost n = rev@.len();
        let ghost m = all.len() - n;
        let ghost old_rev = rev@;
        let w = rev.pop().unwrap();
        assert(entry_of(w) == old_rev.map_values(|w: WorkSummary| entry_of(w))[n - 1]);
        assert(entry_of(w) == all[m]);
        assert(rev@.map_values(|w: WorkSummary| entry_of(w)) =~= all.reverse().subrange(
            0,
            rev@.len() as int,
        ));
        proof {
            all.subrange(0, m).lemma_filter_push(all[m], titled());
            assert(all.subrange(0, m + 1) =~= all.subrange(0, m).push(all[m]));
        }
        let ghost before_push = out@.map_values(|w: WorkSummary| entry_of(w));
        if !is_placeholder_title(w.title.as_str()) {
            out.push(w);
            assert(out@.map_values(|w: WorkSummary| entry_of(w)) =~= before_push.push(all[m]));
        }
    }
    out
}

} // verus!
