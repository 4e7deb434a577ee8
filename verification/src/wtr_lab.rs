//! WTR-LAB, a site of translated novels whose chapter texts come encrypted.
use vstd::prelude::*;
use crate::encoding::{url_encode, url_encoded};
use crate::cipher::{aes256_gcm_open, aes256_gcm_opened, base64_decode, base64_standard, utf8_error, utf8_text};
use crate::json::{json_quoted, json_strings, parse_string_list, quote_json};
use crate::model::{
    BROWSER_AGENT,
    absolute_on, absolute_on_exec, chapter_of, chapter_views, collect_new, collect_some,
    entries, is_network, is_parse, is_text, opt, push_chapter, push_if_new, status_message,
    status_message_exec, string_from, texts, Chapter, ChapterView, Element, Entry, SourceError,
    SourceInfo, WorkDetails, WorkKind, WorkSummary,
};
use crate::text::{
    chars_of, decimal, decimal_exec, drop_prefix, drop_prefix_exec, pieces, pieces_exec, push_all,
    push_str, signed_decimal, signed_decimal_exec, starts_with_exec, string_of, strip_prefix,
    strip_prefix_exec, trim, trim_end_in, trim_end_in_exec, trim_exec,
};
use vstd::utf8::{decode_utf8, encode_utf8, valid_utf8};

verus! {

/// The site's address.
pub const BASE: &'static str = "https://wtr-lab.com";

/// The description of the source.
pub fn info() -> (r: SourceInfo)
    ensures
        r.id@ == "wtr_lab"@,
        r.name@ == "WTR-LAB"@,
        r.version@ == "1.0.0"@,
        r.kind == WorkKind::Novel,
        r.icon_url is None,
        opt(r.referer_url) == Some(BASE@ + "/"@),
        opt(r.base_url) == Some(BASE@),
{
    let mut referer = chars_of(BASE);
    push_str(&mut referer, "/");
    SourceInfo {
        id: String::from_str("wtr_lab"),
        name: String::from_str("WTR-LAB"),
        version: String::from_str("1.0.0"),
        kind: WorkKind::Novel,
        icon_url: None,
        referer_url: Some(string_from(referer)),
        base_url: Some(String::from_str(BASE)),
    }
}

// ---------------------------------------------------------------------
// Requests
// ---------------------------------------------------------------------

/// The headers of a request: the referer, the user agent and, for a request
/// with a body, its content type.
pub fn headers(content_type: Option<&str>) -> (r: Vec<(String, String)>)
    ensures
        r@.len() == (if content_type is Some {
            3int
        } else {
            2int
        }),
        r@[0].0@ == "Referer"@ && r@[0].1@ == BASE@ + "/"@,
        r@[1].0@ == "User-Agent"@ && r@[1].1@ == BROWSER_AGENT@,
        content_type matches Some(t) ==> r@[2].0@ == "Content-Type"@ && r@[2].1@ == t@,
{
    let mut referer = chars_of(BASE);
    push_str(&mut referer, "/");
    let mut v: Vec<(String, String)> = Vec::new();
    v.push((String::from_str("Referer"), string_from(referer)));
    v.push((String::from_str("User-Agent"), String::from_str(BROWSER_AGENT)));
    match content_type {
        Some(t) => v.push((String::from_str("Content-Type"), String::from_str(t))),
        None => {},
    }
    v
}

/// What a POST request for `url` yields, given the host's answer (`None`
/// when it had none; otherwise its status and body): the body of a `200`
/// answer, else a network error.
pub fn post_outcome(url: &str, response: Option<(u16, String)>) -> (r: Result<String, SourceError>)
    ensures
        response is None ==> is_network(r, "empty response"@),
        response matches Some((status, body)) ==> if status == 200 {
            is_text(r, body@)
        } else {
            is_network(r, status_message(status, url@))
        },
{
    match response {
        None => Err(SourceError::Network(String::from_str("empty response"))),
        Some((status, body)) => {
            if status == 200 {
                Ok(body)
            } else {
                Err(SourceError::Network(status_message_exec(status, url)))
            }
        },
    }
}

/// A link target or image source made absolute on the site.
pub fn absolute(url: &str) -> (r: String)
    ensures
        r@ == absolute_on(BASE@, url@),
{
    absolute_on_exec(BASE, url)
}

/// The address of the search results for `query`; the site serves them on
/// one page, whatever page is asked for.
pub fn search_url(query: &str) -> (r: String)
    ensures
        r@ == BASE@ + "/en/novel-finder?text="@ + url_encoded(query@),
{
    let mut v = chars_of(BASE);
    push_str(&mut v, "/en/novel-finder?text=");
    let q = url_encode(query);
    push_str(&mut v, q.as_str());
    string_from(v)
}

/// The address of a page of all novels ordered by `order`.
pub open spec fn list_spec(order: Seq<char>, page: u32) -> Seq<char> {
    BASE@ + "/en/novel-list?page="@ + decimal(page as nat) + "&status=all&orderBy="@ + order
        + "&genre="@
}

/// The address of a page of all novels ordered by `order`.
pub fn list_url(order: &str, page: u32) -> (r: String)
    ensures
        r@ == list_spec(order@, page),
{
    let mut v = chars_of(BASE);
    push_str(&mut v, "/en/novel-list?page=");
    let d = decimal_exec(page as u64);
    push_all(&mut v, d.as_slice());
    push_str(&mut v, "&status=all&orderBy=");
    push_str(&mut v, order);
    push_str(&mut v, "&genre=");
    string_from(v)
}

/// The address of a page of the novels updated last.
pub fn latest_url(page: u32) -> (r: String)
    ensures
        r@ == list_spec("date"@, page),
{
    list_url("date", page)
}

/// The address of a page of the most read novels.
pub fn trending_url(page: u32) -> (r: String)
    ensures
        r@ == list_spec("view"@, page),
{
    list_url("view", page)
}

// ---------------------------------------------------------------------
// Listings
// ---------------------------------------------------------------------

/// A card of a listing (`.series-list > div`).
pub struct Card {
    /// Its first link to a novel (`a[href^='/en/novel/']`).
    pub link: Option<Element>,
    /// The text of the first `h3` inside that link.
    pub heading: Option<String>,
    /// Its first framed image with a description (`.image-wrap img[alt]`).
    pub framed_image: Option<Element>,
    /// Its first image (`img`).
    pub image: Option<Element>,
}

/// The title a card's link gives: its `title` attribute, else the text of
/// its heading, else nothing.
pub open spec fn card_title(a: Element, heading: Option<String>) -> Seq<char> {
    match a.attr_spec("title"@) {
        Some(t) => t,
        None => match heading {
            Some(h) => h@,
            None => Seq::empty(),
        },
    }
}

/// The cover a card shows: the source of its framed image, or, when it has
/// none, of its first image; made absolute.
pub open spec fn card_cover(c: Card) -> Option<Seq<char>> {
    let image = match c.framed_image {
        Some(i) => Some(i),
        None => c.image,
    };
    match image {
        Some(i) => match i.attr_spec("src"@) {
            Some(s) => Some(absolute_on(BASE@, s)),
            None => None,
        },
        None => None,
    }
}

/// The entry a card gives: it needs a link with a target and a title that
/// is not blank.
pub open spec fn card_entry(c: Card) -> Option<Entry> {
    match c.link {
        Some(a) => match a.attr_spec("href"@) {
            Some(h) => {
                let title = card_title(a, c.heading);
                if trim(title).len() == 0 {
                    None
                } else {
                    Some((title, absolute_on(BASE@, h), card_cover(c)))
                }
            },
            None => None,
        },
        None => None,
    }
}

/// The entry a card gives.
pub open spec fn card_entries() -> spec_fn(Card) -> Option<Entry> {
    |c: Card| card_entry(c)
}

fn card_cover_exec(c: &Card) -> (r: Option<String>)
    ensures
        opt(r) == card_cover(*c),
{
    let image = match &c.framed_image {
        Some(i) => Some(i),
        None => match &c.image {
            Some(i) => Some(i),
            None => None,
        },
    };
    match image {
        Some(i) => match i.attr("src") {
            Some(s) => Some(absolute(s.as_str())),
            None => None,
        },
        None => None,
    }
}

/// The novels of a listing page, once each, from its cards.
pub fn parse_items(cards: &Vec<Card>) -> (r: Vec<WorkSummary>)
    ensures
        entries(r@) == collect_new(cards@, card_entries()),
{
    let mut out: Vec<WorkSummary> = Vec::new();
    let mut i: usize = 0;
    while i < cards.len()
        invariant
            i <= cards@.len(),
            entries(out@) == collect_new(cards@.subrange(0, i as int), card_entries()),
        decreases cards.len() - i,
    {
        assert(cards@.subrange(0, i + 1).drop_last() =~= cards@.subrange(0, i as int));
        let c = &cards[i];
        match &c.link {
            Some(a) => match a.attr("href") {
                Some(h) => {
                    let title = match a.attr("title") {
                        Some(t) => t,
                        None => match &c.heading {
                            Some(h) => h.clone(),
                            None => String::new(),
                        },
                    };
                    let t = chars_of(title.as_str());
                    let trimmed = trim_exec(t.as_slice());
                    if trimmed.len() > 0 {
                        let w = WorkSummary {
                            title,
                            url: absolute(h.as_str()),
                            cover_url: card_cover_exec(c),
                        };
                        push_if_new(&mut out, w);
                    }
                },
                None => {},
            },
            None => {},
        }
        i = i + 1;
    }
    assert(cards@.subrange(0, cards@.len() as int) =~= cards@);
    out
}

// ---------------------------------------------------------------------
// Novels
// ---------------------------------------------------------------------

/// What the embedded page data of a novel (`props.pageProps.serie.serie_data`)
/// holds.
pub struct SeriesData {
    /// `raw_id`, when it is an integer.
    pub raw_id: Option<i64>,
    /// `raw_chapter_count`, when it is an integer.
    pub raw_chapter_count: Option<i64>,
    /// `data.raw.title`, when it is a string.
    pub raw_title: Option<String>,
    /// `data.title`, when it is a string.
    pub title: Option<String>,
    /// `data.image`, when it is a string.
    pub image: Option<String>,
    /// `data.description`, when it is a string.
    pub description: Option<String>,
    /// `data.author`, when it is a string.
    pub author: Option<String>,
}

/// The address of the chapter list of a novel: from chapter 1 to its chapter
/// count; none unless the page data gives both numbers.
pub open spec fn chapters_spec(data: SeriesData) -> Option<Seq<char>> {
    match (data.raw_id, data.raw_chapter_count) {
        (Some(id), Some(count)) => Some(
            BASE@ + "/api/chapters/"@ + signed_decimal(id as int) + "?start=1&end="@
                + signed_decimal(count as int),
        ),
        _ => None,
    }
}

/// The address of the chapter list of a novel.
pub fn chapters_url(data: &SeriesData) -> (r: Option<String>)
    ensures
        opt(r) == chapters_spec(*data),
{
    match (data.raw_id, data.raw_chapter_count) {
        (Some(id), Some(count)) => {
            let mut v = chars_of(BASE);
            push_str(&mut v, "/api/chapters/");
            let a = signed_decimal_exec(id);
            push_all(&mut v, a.as_slice());
            push_str(&mut v, "?start=1&end=");
            let b = signed_decimal_exec(count);
            push_all(&mut v, b.as_slice());
            Some(string_from(v))
        },
        _ => None,
    }
}

/// One chapter of the chapter list the site's API answers.
pub struct ApiChapter {
    /// `order`, when it is an integer.
    pub order: Option<i64>,
    /// `title`, when it is a string.
    pub title: Option<String>,
    /// `updated_at`, when it is a string.
    pub updated_at: Option<String>,
}

/// The chapter an item of the list gives for the novel at `url`: it needs
/// an order and a title; its address is the novel's, without trailing
/// slashes, followed by `/chapter-` and the order.
pub open spec fn api_chapter(url: Seq<char>, c: ApiChapter) -> Option<ChapterView> {
    match (c.order, c.title) {
        (Some(o), Some(t)) => Some(
            (
                "#"@ + signed_decimal(o as int) + " "@ + t@,
                trim_end_in(url, "/"@) + "/chapter-"@ + signed_decimal(o as int),
                opt(c.updated_at),
                None,
            ),
        ),
        _ => None,
    }
}

/// The chapter an item of the list gives for the novel at `url`.
pub open spec fn api_chapters(url: Seq<char>) -> spec_fn(ApiChapter) -> Option<ChapterView> {
    |c: ApiChapter| api_chapter(url, c)
}

/// The chapters of the novel at `url`, in the order of the list the API
/// answered.
pub fn chapter_list(url: &str, items: &Vec<ApiChapter>) -> (r: Vec<Chapter>)
    ensures
        chapter_views(r@) == collect_some(items@, api_chapters(url@)),
{
    let u = chars_of(url);
    let slash = chars_of("/");
    let stem = trim_end_in_exec(u.as_slice(), slash.as_slice());
    let mut out: Vec<Chapter> = Vec::new();
    let mut i: usize = 0;
    while i < items.len()
        invariant
            i <= items@.len(),
            stem@ == trim_end_in(url@, "/"@),
            chapter_views(out@) == collect_some(items@.subrange(0, i as int), api_chapters(url@)),
        decreases items.len() - i,
    {
        assert(items@.subrange(0, i + 1).drop_last() =~= items@.subrange(0, i as int));
        let c = &items[i];
        match (c.order, &c.title) {
            (Some(o), Some(t)) => {
                let number = signed_decimal_exec(o);
                let mut title = chars_of("#");
                push_all(&mut title, number.as_slice());
                push_str(&mut title, " ");
                push_str(&mut title, t.as_str());
                let mut address = stem.clone();
                push_str(&mut address, "/chapter-");
                push_all(&mut address, number.as_slice());
                let date = match &c.updated_at {
                    Some(d) => Some(d.clone()),
                    None => None,
                };
                push_chapter(
                    &mut out,
                    Chapter {
                        title: string_from(title),
                        url: string_from(address),
                        date,
                        scanlation_group: None,
                    },
                );
            },
            _ => {},
        }
        i = i + 1;
    }
    assert(items@.subrange(0, items@.len() as int) =~= items@);
    out
}

/// The details of the novel at `url`, from the data embedded in its page
/// (none when the page has none) and the chapters its list gave.
pub fn work_details(url: String, data: Option<SeriesData>, chapters: Vec<Chapter>) -> (r: Result<
    WorkDetails,
    SourceError,
>)
    ensures
        data is None ==> is_parse(r, "missing WTR-LAB metadata"@),
        data matches Some(d) ==> r matches Ok(w) && {
            &&& w.title@ == match (d.raw_title, d.title) {
                (Some(t), _) => t@,
                (None, Some(t)) => t@,
                (None, None) => url@,
            }
            &&& w.url@ == url@
            &&& opt(w.cover_url) == match d.image {
                Some(i) => Some(absolute_on(BASE@, i@)),
                None => None,
            }
            &&& w.alternative_names@.len() == 0
            &&& texts(w.authors@) == match d.author {
                Some(a) => seq![a@],
                None => Seq::empty(),
            }
            &&& w.artists@.len() == 0
            &&& w.status is None
            &&& w.release_date is None
            &&& opt(w.description) == opt(d.description)
            &&& w.genres@.len() == 0
            &&& chapter_views(w.chapters@) == chapter_views(chapters@)
            &&& w.content_html is None
        },
{
    let d = match data {
        Some(d) => d,
        None => return Err(SourceError::Parse(String::from_str("missing WTR-LAB metadata"))),
    };
    let title = match &d.raw_title {
        Some(t) => t.clone(),
        None => match &d.title {
            Some(t) => t.clone(),
            None => url.clone(),
        },
    };
    let cover_url = match &d.image {
        Some(i) => Some(absolute(i.as_str())),
        None => None,
    };
    let mut authors: Vec<String> = Vec::new();
    match d.author {
        Some(a) => {
            let ghost av = a@;
            authors.push(a);
            assert(texts(authors@) =~= seq![av]);
        },
        None => {
            assert(texts(authors@) =~= Seq::<Seq<char>>::empty());
        },
    }
    Ok(
        WorkDetails {
            title,
            url,
            cover_url,
            alternative_names: Vec::new(),
            authors,
            artists: Vec::new(),
            status: None,
            release_date: None,
            description: d.description,
            genres: Vec::new(),
            chapters,
            content_html: None,
        },
    )
}

// ---------------------------------------------------------------------
// Chapters
// ---------------------------------------------------------------------

/// What the embedded page data of a chapter (`props.pageProps.serie`) holds.
pub struct ChapterData {
    /// `chapter.id`, when it is an integer.
    pub chapter_id: Option<i64>,
    /// `chapter.slug`, when it is a string.
    pub slug: Option<String>,
    /// `chapter.name`, when it is a string.
    pub name: Option<String>,
    /// `serie_data.raw_id`, when it is an integer.
    pub raw_id: Option<i64>,
}

/// The address the reader requests a chapter text from.
pub open spec fn reader_address() -> Seq<char> {
    BASE@ + "/api/reader/get"@
}

/// The JSON body of a request for a chapter's text, its keys in order.
pub open spec fn reader_payload(chapter_id: i64, chapter_no: Seq<char>, raw_id: i64) -> Seq<char> {
    "{\"chapter_id\":"@ + signed_decimal(chapter_id as int) + ",\"chapter_no\":"@ + json_quoted(
        chapter_no,
    ) + ",\"force_retry\":\"false\",\"language\":\"en\",\"raw_id\":"@ + signed_decimal(
        raw_id as int,
    ) + ",\"retry\":\"false\",\"translate\":\"web\"}"@
}

/// The number of a chapter as the reader names it: its slug, else its
/// name, else nothing.
pub open spec fn chapter_number(d: ChapterData) -> Seq<char> {
    match (d.slug, d.name) {
        (Some(s), _) => s@,
        (None, Some(n)) => n@,
        (None, None) => Seq::empty(),
    }
}

/// The request for a chapter's text: its address and its body; an error
/// when the chapter page has no data, or the data lacks the chapter's or the
/// novel's number.
pub fn reader_request(data: Option<ChapterData>) -> (r: Result<(String, String), SourceError>)
    ensures
        match data {
            None => is_parse(r, "missing chapter metadata"@),
            Some(d) => match (d.chapter_id, d.raw_id) {
                (None, _) => is_parse(r, "missing chapter id"@),
                (Some(_), None) => is_parse(r, "missing series id"@),
                (Some(id), Some(raw)) => r matches Ok((address, body)) && address@
                    == reader_address() && body@ == reader_payload(id, chapter_number(d), raw),
            },
        },
{
    let d = match data {
        Some(d) => d,
        None => return Err(SourceError::Parse(String::from_str("missing chapter metadata"))),
    };
    let id = match d.chapter_id {
        Some(id) => id,
        None => return Err(SourceError::Parse(String::from_str("missing chapter id"))),
    };
    let number = match &d.slug {
        Some(s) => s.clone(),
        None => match &d.name {
            Some(n) => n.clone(),
            None => String::new(),
        },
    };
    let raw = match d.raw_id {
        Some(raw) => raw,
        None => return Err(SourceError::Parse(String::from_str("missing series id"))),
    };
    let mut address = chars_of(BASE);
    push_str(&mut address, "/api/reader/get");
    let mut body = chars_of("{\"chapter_id\":");
    let a = signed_decimal_exec(id);
    push_all(&mut body, a.as_slice());
    push_str(&mut body, ",\"chapter_no\":");
    let quoted = quote_json(number.as_str());
    push_str(&mut body, quoted.as_str());
    push_str(&mut body, ",\"force_retry\":\"false\",\"language\":\"en\",\"raw_id\":");
    let b = signed_decimal_exec(raw);
    push_all(&mut body, b.as_slice());
    push_str(&mut body, ",\"retry\":\"false\",\"translate\":\"web\"}");
    Ok((string_from(address), string_from(body)))
}

/// The encrypted text of a chapter, from the reader's answer
/// (`data.data.body`, when it is a string).
pub fn chapter_cipher(body: Option<String>) -> (r: Result<String, SourceError>)
    ensures
        body matches Some(b) ==> is_text(r, b@),
        body is None ==> is_parse(r, "missing chapter body"@),
{
    match body {
        Some(b) => Ok(b),
        None => Err(SourceError::Parse(String::from_str("missing chapter body"))),
    }
}

// ---------------------------------------------------------------------
// Decryption of chapter texts
// ---------------------------------------------------------------------

/// The key the site encrypts chapter texts with.
pub const CHAPTER_KEY: &'static str = "IJAFUUxjM25hyzL2AZrn0wl7cESED6Ru";

/// The bytes of the key.
pub open spec fn key_bytes() -> Seq<u8> {
    encode_utf8(CHAPTER_KEY@)
}

/// An encrypted chapter body after its `arr:` or `str:` prefix.
pub open spec fn cipher_text(raw: Seq<char>) -> Seq<char> {
    match strip_prefix(raw, "arr:"@) {
        Some(r) => r,
        None => drop_prefix(raw, "str:"@),
    }
}

/// An encrypted chapter body marked `arr:` holds a JSON array of paragraphs.
pub open spec fn holds_array(raw: Seq<char>) -> bool {
    strip_prefix(raw, "arr:"@) is Some
}

/// The three base64 parts of an encrypted chapter body, separated by `:`.
pub open spec fn cipher_parts(raw: Seq<char>) -> Seq<Seq<char>> {
    pieces(cipher_text(raw), ":"@)
}

/// The nonce of an encrypted chapter body has the cipher's 16 bytes, or the
/// body is refused before the nonce is used.
pub open spec fn nonce_fits(raw: Seq<char>) -> bool {
    let p = cipher_parts(raw);
    p.len() == 3 ==> match (base64_standard(p[0]), base64_standard(p[1]), base64_standard(p[2])) {
        (Ok(iv), Ok(_), Ok(_)) => iv.len() == 16,
        _ => true,
    }
}

/// The paragraphs a decrypted chapter gives: its UTF-8 text, or, when the
/// body was marked as an array, the strings of the JSON array that text is;
/// else the message of the failure.
pub open spec fn chapter_lines(array: bool, plain: Seq<u8>) -> Result<Seq<Seq<char>>, Seq<char>> {
    if !valid_utf8(plain) {
        Err(utf8_error(plain))
    } else if array {
        json_strings(decode_utf8(plain))
    } else {
        Ok(seq![decode_utf8(plain)])
    }
}

/// The paragraphs of a chapter encrypted under the site's key with the nonce
/// `iv`; else the message of the failure.
pub open spec fn opened_chapter(array: bool, iv: Seq<u8>, data: Seq<u8>) -> Result<
    Seq<Seq<char>>,
    Seq<char>,
> {
    match aes256_gcm_opened(key_bytes(), iv, data) {
        None => Err("aead::Error"@),
        Some(plain) => chapter_lines(array, plain),
    }
}

/// The paragraphs of an encrypted chapter body `prefix:iv:tail:head`, all
/// three parts in base64, the ciphertext being the head followed by the tail;
/// else the message of the first failure.
pub open spec fn decrypted(raw: Seq<char>) -> Result<Seq<Seq<char>>, Seq<char>> {
    let p = cipher_parts(raw);
    if p.len() != 3 {
        Err("invalid encrypted chapter format"@)
    } else {
        match base64_standard(p[0]) {
            Err(m) => Err(m),
            Ok(iv) => match base64_standard(p[1]) {
                Err(m) => Err(m),
                Ok(short) => match base64_standard(p[2]) {
                    Err(m) => Err(m),
                    Ok(long) => opened_chapter(holds_array(raw), iv, long + short),
                },
            },
        }
    }
}

/// `r` hands on the outcome `s`: its paragraphs, or a parse error with its
/// message.
pub open spec fn hands_on(r: Result<Vec<String>, SourceError>, s: Result<Seq<Seq<char>>, Seq<char>>) -> bool {
    match s {
        Ok(v) => r matches Ok(w) && texts(w@) == v,
        Err(m) => is_parse(r, m),
    }
}

/// The paragraphs of a decrypted chapter.
pub fn chapter_text(array: bool, plain: Vec<u8>) -> (r: Result<Vec<String>, SourceError>)
    ensures
        hands_on(r, chapter_lines(array, plain@)),
{
    let ghost bytes = plain@;
    let text = match utf8_text(plain) {
        Ok(t) => t,
        Err(m) => return Err(SourceError::Parse(m)),
    };
    if array {
        match parse_string_list(text.as_str()) {
            Ok(v) => Ok(v),
            Err(m) => Err(SourceError::Parse(m)),
        }
    } else {
        let mut v: Vec<String> = Vec::new();
        let ghost t = text@;
        v.push(text);
        assert(texts(v@) =~= seq![t]);
        Ok(v)
    }
}

/// The paragraphs of a chapter encrypted under the site's key with the
/// 16-byte nonce `iv`.
pub fn open_chapter(array: bool, iv: &[u8], data: &[u8]) -> (r: Result<Vec<String>, SourceError>)
    requires
        iv@.len() == 16,
    ensures
        hands_on(r, opened_chapter(array, iv@, data@)),
{
    let key = CHAPTER_KEY.as_bytes();
    proof {
        reveal_strlit("IJAFUUxjM25hyzL2AZrn0wl7cESED6Ru");
        vstd::string::is_ascii_spec_bytes(CHAPTER_KEY);
    }
    assert(key@.len() == 32);
    match aes256_gcm_open(key, iv, data) {
        Ok(plain) => chapter_text(array, plain),
        Err(m) => Err(SourceError::Parse(m)),
    }
}

/// The three parts of an encrypted chapter body, when it has three.
fn split_cipher(raw: &str) -> (r: Option<Vec<String>>)
    ensures
        cipher_parts(raw@).len() != 3 ==> r is None,
        cipher_parts(raw@).len() == 3 ==> (r matches Some(v) && v@.len() == 3 && v@[0]@
            == cipher_parts(raw@)[0] && v@[1]@ == cipher_parts(raw@)[1] && v@[2]@ == cipher_parts(
            raw@,
        )[2]),
{
    let all = chars_of(raw);
    let arr = chars_of("arr:");
    let str_mark = chars_of("str:");
    let colon = chars_of(":");
    let body = match strip_prefix_exec(all.as_slice(), arr.as_slice()) {
        Some(b) => b,
        None => drop_prefix_exec(all.as_slice(), str_mark.as_slice()),
    };
    assert(body@ == cipher_text(raw@));
    proof {
        reveal_strlit(":");
    }
    let parts = pieces_exec(body.as_slice(), colon.as_slice());
    if parts.len() != 3 {
        return None;
    }
    let mut v: Vec<String> = Vec::new();
    v.push(string_of(parts[0].as_slice()));
    v.push(string_of(parts[1].as_slice()));
    v.push(string_of(parts[2].as_slice()));
    Some(v)
}

/// The paragraphs of an encrypted chapter body whose nonce has the cipher's
/// 16 bytes.
pub fn decrypt(raw: &str) -> (r: Result<Vec<String>, SourceError>)
    requires
        nonce_fits(raw@),
    ensures
        hands_on(r, decrypted(raw@)),
{
    let arr = chars_of("arr:");
    let array = starts_with_exec(chars_of(raw).as_slice(), arr.as_slice());
    let parts = match split_cipher(raw) {
        Some(p) => p,
        None => {
            return Err(SourceError::Parse(String::from_str("invalid encrypted chapter format")));
        },
    };
    let iv = match base64_decode(parts[0].as_str()) {
        Ok(b) => b,
        Err(m) => return Err(SourceError::Parse(m)),
    };
    let short = match base64_decode(parts[1].as_str()) {
        Ok(b) => b,
        Err(m) => return Err(SourceError::Parse(m)),
    };
    let long = match base64_decode(parts[2].as_str()) {
        Ok(b) => b,
        Err(m) => return Err(SourceError::Parse(m)),
    };
    assert(iv@.len() == 16);
    let mut data = long;
    let mut k: usize = 0;
    let ghost head = data@;
    while k < short.len()
        invariant
            k <= short@.len(),
            data@ == head + short@.subrange(0, k as int),
        decreases short.len() - k,
    {
        data.push(short[k]);
        assert(short@.subrange(0, k + 1) =~= short@.subrange(0, k as int).push(short@[k as int]));
        k = k + 1;
    }
    assert(short@.subrange(0, short@.len() as int) =~= short@);
    open_chapter(array, iv.as_slice(), data.as_slice())
}

/// The paragraphs of an encrypted chapter body, or `None` when its nonce
/// does not have the cipher's 16 bytes.
pub fn decrypt_checked(raw: &str) -> (r: Option<Result<Vec<String>, SourceError>>)
    ensures
        r is None <==> !nonce_fits(raw@),
        r matches Some(x) ==> hands_on(x, decrypted(raw@)),
{
    match split_cipher(raw) {
        None => Some(decrypt(raw)),
        Some(parts) => {
            let fits = match (
                base64_decode(parts[0].as_str()),
                base64_decode(parts[1].as_str()),
                base64_decode(parts[2].as_str()),
            ) {
                (Ok(iv), Ok(_), Ok(_)) => iv.len() == 16,
                _ => true,
            };
            if fits {
                Some(decrypt(raw))
            } else {
                None
            }
        },
    }
}

} // verus!
