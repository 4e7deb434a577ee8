//! MangaDex, through its public JSON API.
use vstd::prelude::*;
use crate::encoding::{encode_byte, percent_encode, url_encoded};
use crate::model::{
    header, header_is,
    attr_of, chapter_is, distinct_by, distinct_nonempty, is_network, opt, string_from, summary_is,
    texts, byte_len, byte_len_exec, Chapter, SourceError, SourceInfo, WorkDetails, WorkKind,
    WorkSummary,
};
use crate::sort::{same_key, sorted_by_key, stable_sort, stably_sorted, SortKey};
use crate::text::{
    chars_of, contains, contains_exec, decimal, decimal_exec, eq_str, join2, last_piece,
    last_piece_exec, push_all, push_str, trim, trim_exec,
};

verus! {

/// The address of the API.
pub const API_BASE: &'static str = "https://api.mangadex.org";

/// The address of the image server of covers.
pub const CDN_BASE: &'static str = "https://uploads.mangadex.org";

/// The address of the site.
pub const SITE_BASE: &'static str = "https://mangadex.org";

/// The tag of one-shots, which is not listed as a genre.
pub const ONE_SHOT_TAG: &'static str = "0234a31e-a729-4e28-9d6a-3f87c4966b9e";

/// The tag of anthologies, which is not listed as a genre.
pub const ANTHOLOGY_TAG: &'static str = "51d83883-4103-437c-b4b1-731cb73d786c";

/// The headers of the source's requests: the site as referer (with a
/// trailing slash) and as origin.
pub fn request_headers() -> (r: Vec<(String, String)>)
    ensures
        r@.len() == 2,
        header_is(r@[0], "Referer"@, SITE_BASE@ + "/"@),
        header_is(r@[1], "Origin"@, SITE_BASE@),
{
    let mut referer = chars_of(SITE_BASE);
    push_str(&mut referer, "/");
    let referer = string_from(referer);
    let mut v: Vec<(String, String)> = Vec::new();
    v.push(header("Referer", referer.as_str()));
    v.push(header("Origin", SITE_BASE));
    v
}

/// The description of the source.
pub fn info() -> (r: SourceInfo)
    ensures
        r.id@ == "manga_dex"@,
        r.name@ == "MangaDex"@,
        r.version@ == "1.0.0"@,
        r.kind == WorkKind::Manga,
        r.icon_url is None,
        opt(r.referer_url) == Some(SITE_BASE@ + "/"@),
        opt(r.base_url) == Some(SITE_BASE@),
{
    let mut referer = chars_of(SITE_BASE);
    push_str(&mut referer, "/");
    SourceInfo {
        id: String::from_str("manga_dex"),
        name: String::from_str("MangaDex"),
        version: String::from_str("1.0.0"),
        kind: WorkKind::Manga,
        icon_url: None,
        referer_url: Some(string_from(referer)),
        base_url: Some(String::from_str(SITE_BASE)),
    }
}

// ---------------------------------------------------------------------
// Requests
// ---------------------------------------------------------------------

/// The content ratings asked for, as query parameters.
pub open spec fn ratings() -> Seq<char> {
    "contentRating[]="@ + "safe"@ + "&"@ + "contentRating[]="@ + "suggestive"@
}

fn push_ratings(v: &mut Vec<char>)
    ensures
        final(v)@ == old(v)@ + ratings(),
{
    push_str(v, "contentRating[]=");
    push_str(v, "safe");
    push_str(v, "&");
    push_str(v, "contentRating[]=");
    push_str(v, "suggestive");
    assert(final(v)@ =~= old(v)@ + ratings());
}

/// The offset of a listing page of 20 works: `(page - 1) * 20` in 32 bits,
/// wrapping (page 0 gives the wrapped offset).
pub open spec fn list_offset(page: u32) -> int {
    ((page as int - 1) * 20) % 0x1_0000_0000
}

/// The address of a page of the works ordered by `order`, in English, with
/// their cover art.
pub open spec fn manga_query_spec(order: Seq<char>, page: u32) -> Seq<char> {
    API_BASE@ + "/manga?limit="@ + decimal(20) + "&offset="@ + decimal(list_offset(page) as nat)
        + "&includes[]=cover_art&order["@ + order + "]=desc&availableTranslatedLanguage[]=en&"@
        + ratings()
}

/// The address of a page of the works ordered by `order`.
pub fn manga_query(order: &str, page: u32) -> (r: String)
    ensures
        r@ == manga_query_spec(order@, page),
{
    let offset: u64 = if page == 0 {
        4294967276
    } else {
        ((page as u64 - 1) * 20) % 0x1_0000_0000
    };
    assert(offset == list_offset(page));
    let mut v = chars_of(API_BASE);
    push_str(&mut v, "/manga?limit=");
    let l = decimal_exec(20);
    push_all(&mut v, l.as_slice());
    push_str(&mut v, "&offset=");
    let o = decimal_exec(offset);
    push_all(&mut v, o.as_slice());
    push_str(&mut v, "&includes[]=cover_art&order[");
    push_str(&mut v, order);
    push_str(&mut v, "]=desc&availableTranslatedLanguage[]=en&");
    push_ratings(&mut v);
    string_from(v)
}

/// The address of a page of search results for `query`; the API serves 100
/// pages.
pub fn search_url(query: &str, page: u32) -> (r: Option<String>)
    ensures
        page > 100 ==> r is None,
        page <= 100 ==> opt(r) == Some(
            manga_query_spec("latestUploadedChapter"@, page) + "&title="@ + url_encoded(query@),
        ),
{
    if page > 100 {
        return None;
    }
    let encoded = urlencoding_encode(query);
    let q = manga_query("latestUploadedChapter", page);
    let mut v = chars_of(q.as_str());
    push_str(&mut v, "&title=");
    push_str(&mut v, encoded.as_str());
    Some(string_from(v))
}

/// The address of a page of the latest updates; the API serves 100 pages.
pub fn latest_url(page: u32) -> (r: Option<String>)
    ensures
        page > 100 ==> r is None,
        page <= 100 ==> opt(r) == Some(manga_query_spec("latestUploadedChapter"@, page)),
{
    if page > 100 {
        return None;
    }
    Some(manga_query("latestUploadedChapter", page))
}

/// The address of a page of the most followed works; the API serves 100 pages.
pub fn trending_url(page: u32) -> (r: Option<String>)
    ensures
        page > 100 ==> r is None,
        page <= 100 ==> opt(r) == Some(manga_query_spec("followedCount"@, page)),
{
    if page > 100 {
        return None;
    }
    Some(manga_query("followedCount", page))
}

/// Percent-encodes the UTF-8 bytes of `text`: ASCII letters, digits and
/// `-`, `_`, `.`, `~` stay, every other byte becomes `%XX` in upper case.
pub fn urlencoding_encode(text: &str) -> (r: String)
    ensures
        r@ == url_encoded(text@),
{
    let bytes = text.as_bytes();
    let mut out: Vec<char> = Vec::new();
    let mut i: usize = 0;
    while i < bytes.len()
        invariant
            i <= bytes@.len(),
            bytes@ == vstd::utf8::encode_utf8(text@),
            out@ == percent_encode(bytes@.subrange(0, i as int)),
        decreases bytes.len() - i,
    {
        assert(bytes@.subrange(0, i + 1).drop_last() =~= bytes@.subrange(0, i as int));
        let b = bytes[i];
        let ghost before_push = out@;
        if (48 <= b && b <= 57) || (65 <= b && b <= 90) || (97 <= b && b <= 122) || b == 45 || b
            == 46 || b == 95 || b == 126 {
            out.push(b as char);
        } else {
            let hi = b / 16;
            let lo = b % 16;
            out.push('%');
            out.push(if hi < 10 { (hi + 48) as char } else { (hi + 55) as char });
            out.push(if lo < 10 { (lo + 48) as char } else { (lo + 55) as char });
        }
        assert(out@ =~= before_push + encode_byte(b));
        i = i + 1;
    }
    assert(bytes@.subrange(0, bytes@.len() as int) =~= bytes@);
    string_from(out)
}

// ---------------------------------------------------------------------
// Answers of the API
// ---------------------------------------------------------------------

/// An entry of a `relationships` array of the API.
pub struct Relationship {
    /// Its `type`, when that is a string.
    pub kind: Option<String>,
    /// Whether it also has a string `id`, as a typed relationship needs.
    pub has_id: bool,
    /// `attributes.name`, when that is a string.
    pub name: Option<String>,
    /// `attributes.fileName`, when that is a string.
    pub file_name: Option<String>,
}

/// A map of the API from language codes to texts, in the order the host's
/// JSON map yields its entries.
pub type Localized = Vec<(String, String)>;

/// The attributes of a work.
pub struct MangaAttributes {
    pub title: Localized,
    pub alt_titles: Vec<Localized>,
    pub description: Localized,
    /// The ids of the tags.
    pub tags: Vec<String>,
    pub status: Option<String>,
    pub year: Option<u16>,
}

/// An entry of the `data` array of a listing.
pub struct ListedWork {
    /// Its `id`, when that is a string.
    pub id: Option<String>,
    /// Its attributes, when they have the shape of the attributes of a work.
    pub attributes: Option<MangaAttributes>,
    pub relationships: Vec<Relationship>,
}

/// The English text of a map, else its first text.
pub open spec fn localized_spec(map: Seq<(String, String)>) -> Option<Seq<char>> {
    match attr_of(map, "en"@) {
        Some(t) => Some(t),
        None => if map.len() > 0 {
            Some(map[0].1@)
        } else {
            None
        },
    }
}

fn lookup(map: &Localized, key: &str) -> (r: Option<String>)
    ensures
        opt(r) == attr_of(map@, key@),
{
    let mut i: usize = 0;
    assert(map@.subrange(0, map@.len() as int) =~= map@);
    while i < map.len()
        invariant
            i <= map@.len(),
            attr_of(map@, key@) == attr_of(map@.subrange(i as int, map@.len() as int), key@),
        decreases map.len() - i,
    {
        assert(map@.subrange(i as int, map@.len() as int).drop_first() =~= map@.subrange(
            i + 1,
            map@.len() as int,
        ));
        if eq_str(map[i].0.as_str(), key) {
            return Some(map[i].1.clone());
        }
        i = i + 1;
    }
    None
}

/// The English text of a map, else its first text.
pub fn localized(map: &Localized) -> (r: Option<String>)
    ensures
        opt(r) == localized_spec(map@),
{
    match lookup(map, "en") {
        Some(t) => Some(t),
        None => if map.len() > 0 {
            Some(map[0].1.clone())
        } else {
            None
        },
    }
}

/// The first relationship of type `kind` that also has an id.
pub open spec fn typed_relationship(rels: Seq<Relationship>, kind: Seq<char>) -> Option<Relationship>
    decreases rels.len(),
{
    if rels.len() == 0 {
        None
    } else if opt(rels[0].kind) == Some(kind) && rels[0].has_id {
        Some(rels[0])
    } else {
        typed_relationship(rels.drop_first(), kind)
    }
}

/// The address of the cover of a work, from the file name of its first
/// well-formed `cover_art` relationship.
pub open spec fn cover_spec(rels: Seq<Relationship>, manga_id: Seq<char>) -> Option<Seq<char>> {
    match typed_relationship(rels, "cover_art"@) {
        Some(r) => match r.file_name {
            Some(f) => Some(CDN_BASE@ + "/covers/"@ + manga_id + "/"@ + f@ + ".512.jpg"@),
            None => None,
        },
        None => None,
    }
}

/// The address of the cover of a work (the 512-pixel thumbnail).
pub fn cover_file_name(rels: &Vec<Relationship>, manga_id: &str) -> (r: Option<String>)
    ensures
        opt(r) == cover_spec(rels@, manga_id@),
{
    let cover_art = chars_of("cover_art");
    let mut i: usize = 0;
    assert(rels@.subrange(0, rels@.len() as int) =~= rels@);
    while i < rels.len()
        invariant
            i <= rels@.len(),
            cover_art@ == "cover_art"@,
            typed_relationship(rels@, "cover_art"@) == typed_relationship(
                rels@.subrange(i as int, rels@.len() as int),
                "cover_art"@,
            ),
        decreases rels.len() - i,
    {
        assert(rels@.subrange(i as int, rels@.len() as int).drop_first() =~= rels@.subrange(
            i + 1,
            rels@.len() as int,
        ));
        let r = &rels[i];
        let matches = match &r.kind {
            Some(k) => eq_str(k.as_str(), "cover_art") && r.has_id,
            None => false,
        };
        if matches {
            return match &r.file_name {
                Some(f) => {
                    let mut v = chars_of(CDN_BASE);
                    push_str(&mut v, "/covers/");
                    push_str(&mut v, manga_id);
                    push_str(&mut v, "/");
                    push_str(&mut v, f.as_str());
                    push_str(&mut v, ".512.jpg");
                    Some(string_from(v))
                },
                None => None,
            };
        }
        i = i + 1;
    }
    None
}

/// The first alternative title map that has an English text.
pub open spec fn english_alt(alts: Seq<Localized>) -> Option<Seq<char>>
    decreases alts.len(),
{
    if alts.len() == 0 {
        None
    } else {
        match attr_of(alts[0]@, "en"@) {
            Some(t) => Some(t),
            None => english_alt(alts.drop_first()),
        }
    }
}

/// The listing entry of a work: it needs a string id, well-formed
/// attributes and an English title (or English alternative title).
pub open spec fn listed_entry(w: ListedWork) -> Option<(Seq<char>, Seq<char>, Option<Seq<char>>)> {
    match w.id {
        None => None,
        Some(id) => match w.attributes {
            None => None,
            Some(a) => {
                let title = match attr_of(a.title@, "en"@) {
                    Some(t) => Some(t),
                    None => english_alt(a.alt_titles@),
                };
                match title {
                    None => None,
                    Some(t) => Some((t, SITE_BASE@ + "/title/"@ + id@, cover_spec(w.relationships@, id@))),
                }
            },
        },
    }
}

/// The listing entries of the works that give one, in order.
pub open spec fn summaries(items: Seq<ListedWork>) -> Seq<(Seq<char>, Seq<char>, Option<Seq<char>>)>
    decreases items.len(),
{
    if items.len() == 0 {
        Seq::empty()
    } else {
        let acc = summaries(items.drop_last());
        match listed_entry(items.last()) {
            Some(e) => acc.push(e),
            None => acc,
        }
    }
}

fn english_alt_exec(alts: &Vec<Localized>) -> (r: Option<String>)
    ensures
        opt(r) == english_alt(alts@),
{
    let mut i: usize = 0;
    assert(alts@.subrange(0, alts@.len() as int) =~= alts@);
    while i < alts.len()
        invariant
            i <= alts@.len(),
            english_alt(alts@) == english_alt(alts@.subrange(i as int, alts@.len() as int)),
        decreases alts.len() - i,
    {
        assert(alts@.subrange(i as int, alts@.len() as int).drop_first() =~= alts@.subrange(
            i + 1,
            alts@.len() as int,
        ));
        match lookup(&alts[i], "en") {
            Some(t) => {
                return Some(t);
            },
            None => {},
        }
        i = i + 1;
    }
    None
}

/// The works of a listing answer (its `data` array).
pub fn parse_summary(items: &Vec<ListedWork>) -> (r: Vec<WorkSummary>)
    ensures
        r@.len() == summaries(items@).len(),
        forall|k: int|
            0 <= k < r@.len() ==> summary_is(
                #[trigger] r@[k],
                summaries(items@)[k].0,
                summaries(items@)[k].1,
                summaries(items@)[k].2,
            ),
{
    let mut out: Vec<WorkSummary> = Vec::new();
    let mut i: usize = 0;
    while i < items.len()
        invariant
            i <= items@.len(),
            out@.len() == summaries(items@.subrange(0, i as int)).len(),
            forall|k: int|
                0 <= k < out@.len() ==> summary_is(
                    #[trigger] out@[k],
                    summaries(items@.subrange(0, i as int))[k].0,
                    summaries(items@.subrange(0, i as int))[k].1,
                    summaries(items@.subrange(0, i as int))[k].2,
                ),
        decreases items.len() - i,
    {
        assert(items@.subrange(0, i + 1).drop_last() =~= items@.subrange(0, i as int));
        let w = &items[i];
        match (&w.id, &w.attributes) {
            (Some(id), Some(a)) => {
                let title = match lookup(&a.title, "en") {
                    Some(t) => Some(t),
                    None => english_alt_exec(&a.alt_titles),
                };
                match title {
                    Some(t) => {
                        let mut url = chars_of(SITE_BASE);
                        push_str(&mut url, "/title/");
                        push_str(&mut url, id.as_str());
                        let cover = cover_file_name(&w.relationships, id.as_str());
                        out.push(WorkSummary { title: t, url: string_from(url), cover_url: cover });
                    },
                    None => {},
                }
            },
            _ => {},
        }
        i = i + 1;
    }
    assert(items@.subrange(0, items@.len() as int) =~= items@);
    out
}

/// The id at the end of a work or chapter address: its last `/`-segment,
/// when that has at least 32 bytes and a `-`.
pub open spec fn uuid_spec(url: Seq<char>) -> Option<Seq<char>> {
    let id = last_piece(url, "/"@);
    if byte_len(id) >= 32 && contains(id, "-"@) {
        Some(id)
    } else {
        None
    }
}

/// The id at the end of a work or chapter address; not found when the last
/// segment does not look like one.
pub fn uuid_from_title_url(url: &str) -> (r: Result<String, SourceError>)
    ensures
        uuid_spec(url@) matches Some(id) ==> (r matches Ok(s) && s@ == id),
        uuid_spec(url@) is None ==> r matches Err(SourceError::NotFound),
{
    let u = chars_of(url);
    let slash = chars_of("/");
    let id = string_from(last_piece_exec(u.as_slice(), slash.as_slice()));
    let dash = chars_of("-");
    let idc = chars_of(id.as_str());
    if byte_len_exec(&id) >= 32 && contains_exec(idc.as_slice(), dash.as_slice()) {
        Ok(id)
    } else {
        Err(SourceError::NotFound)
    }
}

/// The address of the request for a work with its cover, authors and artists.
pub open spec fn work_request_spec(manga_id: Seq<char>) -> Seq<char> {
    API_BASE@ + "/manga/"@ + manga_id + "?includes[]=cover_art&includes[]=author&includes[]=artist&"@
        + ratings()
}

/// The address of the request for a work with its cover, authors and artists.
pub fn work_request_url(manga_id: &str) -> (r: String)
    ensures
        r@ == work_request_spec(manga_id@),
{
    let mut v = chars_of(API_BASE);
    push_str(&mut v, "/manga/");
    push_str(&mut v, manga_id);
    push_str(&mut v, "?includes[]=cover_art&includes[]=author&includes[]=artist&");
    push_ratings(&mut v);
    string_from(v)
}

/// The genre named by a tag id; empty for a tag the source does not know.
pub open spec fn tag_label(id: Seq<char>) -> Seq<char> {
    if id == "391b0423-d847-456f-aff0-8b0cfc03038b"@ {
        "Action"@
    } else if id == "aafb99c1-7f60-43fa-b75f-fc9502ce29c7"@ {
        "Horror"@
    } else if id == "5920b825-4181-4a17-be10-99577219b01e"@ {
        "Drama"@
    } else if id == "f5ba408b-0e6e-48ca-b089-795f5b69594e"@ {
        "Sports"@
    } else if id == "cdccad85-1493-4706-95d0-450b14f3fa66"@ {
        "Cooking"@
    } else if id == "cde1bc03-e7ac-400b-af9b-11dc72446c34"@ {
        "Combat"@
    } else if id == "256c8bd9-4904-4360-bf4f-508a76d67183"@ {
        "Sci-Fi"@
    } else if id == "cdc58593-87dd-415e-bbc0-2ec27bf404cc"@ {
        "Fantasy"@
    } else if id == "81c836c9-914a-4eca-981a-560dad663e73"@ {
        "Gag Humor"@
    } else if id == "ddefd648-5142-468e-b6f0-422164300946"@ {
        "Award Winning"@
    } else if id == "ee968100-4171-4968-b27b-10138d2a4c74"@ {
        "Martial Arts"@
    } else if id == "df33b061-20a3-4d84-a48f-c5cff5f8c102"@ {
        "Video Games"@
    } else if id == "f8f62992-7cec-4a74-9140-049246a24079"@ {
        "Web Comic"@
    } else if id == "a1f53773-ce69-4d54-8bd0-2b520120bee6"@ {
        "Adaptation"@
    } else if id == "ace04997-f6bd-436e-b261-779182194d3d"@ {
        "Isekai"@
    } else if id == "acc803a4-c95a-4c22-86fc-eb6b582d82a2"@ {
        "Superhero"@
    } else if id == "320831a8-4026-470b-94f6-8354840acf6f"@ {
        "Iyashikei"@
    } else if id == "07251805-a27e-4d59-b488-f0bccfb3aefd"@ {
        "Office Workers"@
    } else if id == "0a39b5a1-b235-4886-a747-1d05d216532d"@ {
        "Athletes"@
    } else if id == "ea2bc92d-1afe-4bc2-87ae-35013477a28b"@ {
        "Time Travel"@
    } else if id == "292e862b-2d17-4062-90a2-0356aa4cdbb5"@ {
        "Survival"@
    } else if id == "489dd859-9b61-4b37-87fa-f45ead0c78e7"@ {
        "Cross-Dressing"@
    } else if id == "85daba54-a71c-4554-8a28-9901a8b0afad"@ {
        "Mafia"@
    } else if id == "92d6d951-ca5e-429c-ac79-d97164cd140c"@ {
        "Post-Apocalyptic"@
    } else if id == "9ab8f526-7f3b-413f-b6da-5d33a68918e4"@ {
        "Villainess"@
    } else if id == "97893a4c-12af-4dac-b6be-0dffb0020025"@ {
        "Delinquents"@
    } else if id == "b9af330a-a069-4838-a9df-adf2f6dc31a5"@ {
        "Reverse Harem"@
    } else if id == "5fff9db5-7e58-444a-b080-7f9c85a26e49"@ {
        "Music"@
    } else if id == "69964a91-5ca9-4edf-b71c-ade55903073d"@ {
        "Cultivation"@
    } else if id == "fad12b5e-68ba-460e-b9ff-edbcecfafd0e"@ {
        "Genderswap"@
    } else if id == "3de8c15d-9dff-4f8b-95b9-feefd1c722a2"@ {
        "Loli"@
    } else if id == "a7065a7c-7eae-4474-a002-ced584633275"@ {
        "Shota"@
    } else if id == "2bd2e0d0-e35b-41c6-9060-962a7b1bbca8"@ {
        "Ghosts"@
    } else if id == "891cf779-9f88-47b7-abb2-c725e346ef2b"@ {
        "Police"@
    } else if id == "5b7de119-cfd6-42ec-8a72-676765d62b09"@ {
        "Traditional Games"@
    } else if id == "8d2dc5fe-3a43-4d6b-9a57-7dfc5a4fc5d1"@ {
        "Zombies"@
    } else if id == "be78d95d-c4b5-4634-9d60-d0a6b6a4d3d2"@ {
        "Memory Loss"@
    } else if id == "2dd8d4df-9b83-4f56-a130-e7a35bcd6766"@ {
        "Idols (Female)"@
    } else if id == "7b2ce280-79ef-4c09-9b58-198930885421"@ {
        "Idols (Male)"@
    } else if id == "e64f6742-c834-471d-8d72-dd51fc74e63c"@ {
        "Educational"@
    } else if id == "3e2b8dae-350e-4ef8-9f3d-7e8cd574e43a"@ {
        "Military"@
    } else if id == "ac72833b-f410-4e05-886c-64993eeff942"@ {
        "Ninja"@
    } else if id == "4d32cc48-9f00-4cca-9b5a-a839f0764984"@ {
        "Comedy"@
    } else if id == "cdad7e68-1419-41dd-bdce-27753074a640"@ {
        "Ecchi"@
    } else if id == "423e2eae-a7f2-41a8-a77b-eccc094a00ff"@ {
        "Romance"@
    } else if id == "b13b2a48-c720-44a9-9c77-39c997537f43"@ {
        "Supernatural"@
    } else if id == "caaa44eb-cd40-4177-b930-79d3ef2afe87"@ {
        "Medical"@
    } else if id == "eabc5b4c-6aff-42f3-b657-3e90cbd00b75"@ {
        "Thriller"@
    } else if id == "b9fc3a18-e470-487c-8133-f77e2f0f6ad0"@ {
        "Incest"@
    } else if id == "0bc34acb-738f-4a49-82b6-9db49818d6f9"@ {
        "Boxing"@
    } else if id == "33771934-028e-4cb3-8744-691e866aacf9"@ {
        "Survival"@
    } else if id == "87cc87de-a736-4fd8-b6d3-67a6ee269c1d"@ {
        "Campus Life"@
    } else if id == "c8cbe35b-1b2b-4ac3-b08c-232111bdcaf7"@ {
        "Historical"@
    } else if id == "0234a31e-a729-4e28-9d6a-3f87c4966b9e"@ {
        "Oneshot"@
    } else if id == "51d83883-4103-437c-b4b1-731cb73d786c"@ {
        "Anthology"@
    } else if id == "3b60b75c-a2d7-4860-ab56-05f391bb889c"@ {
        "Psychological"@
    } else if id == "ea2a92de-7deb-406b-8b39-36f6e6e7e0b5"@ {
        "Magic"@
    } else if id == "5ca48f85-080a-4c8a-b157-10a71553cf7f"@ {
        "Gyaru"@
    } else if id == "9438db5a-7e2a-4ac0-b39e-ea12346900ae"@ {
        "Gore"@
    } else if id == "631ef4f4-362c-4fd3-8b24-fefeefdd3554"@ {
        "Mecha"@
    } else if id == "e5301a23-eb50-4c9c-b3f7-4a7e02ae0f97"@ {
        "Sexual Violence"@
    } else if id == "1bc23b15-d4a3-4efc-a1a6-657cbd6555d0"@ {
        "Love triangles"@
    } else if id == "0c92ef58-2ba9-405b-a843-204f21ccdcb6"@ {
        "Reincarnation"@
    } else if id == "2d1f5d56-a1e5-4d0d-a961-219b8f31ed9e"@ {
        "Otaku Culture"@
    } else if id == "da2d33ca-3dd4-4062-9d3c-2ec1bae0c5ee"@ {
        "Collective Volume"@
    } else if id == "7dcde953-a6f8-4551-9619-3b2dca6b262d"@ {
        "Tragedy"@
    } else if id == "b1e97889-25b4-4258-b28b-cd7f4a283ea3"@ {
        "Animals"@
    } else if id == "7065a305-b63c-4b28-965c-6967e08c8d3e"@ {
        "Archery"@
    } else if id == "6dd003f7-11f6-4b53-9ce7-3566588206c7"@ {
        "Chess"@
    } else if id == "0b39104a-4d94-4e64-923f-bdcf5cfcb27a"@ {
        "Fight Club"@
    } else if id == "54828dfd-57c3-436c-b607-3d758a55219c"@ {
        "Virtual Reality"@
    } else if id == "e19dff06-8112-4181-9d3c-3d6f2325b98f"@ {
        "Photography"@
    } else if id == "51dc5d9c-5739-4a94-a372-e9422e195a84"@ {
        "Harem"@
    } else {
        ""@
    }
}

/// A short fingerprint of a genre name: its length and its first, second
/// and last characters (it tells the genres of the table apart).
spec fn genre_key(n: Seq<char>) -> (nat, char, char, char) {
    (n.len(), n[0], n[1], n[n.len() - 1])
}

/// The tag id whose genre has this fingerprint.
spec fn tag_of_genre_key(k: (nat, char, char, char)) -> Seq<char> {
    if k == (6nat, 'A', 'c', 'n') {
        "391b0423-d847-456f-aff0-8b0cfc03038b"@
    } else if k == (6nat, 'H', 'o', 'r') {
        "aafb99c1-7f60-43fa-b75f-fc9502ce29c7"@
    } else if k == (5nat, 'D', 'r', 'a') {
        "5920b825-4181-4a17-be10-99577219b01e"@
    } else if k == (6nat, 'S', 'p', 's') {
        "f5ba408b-0e6e-48ca-b089-795f5b69594e"@
    } else if k == (7nat, 'C', 'o', 'g') {
        "cdccad85-1493-4706-95d0-450b14f3fa66"@
    } else if k == (6nat, 'C', 'o', 't') {
        "cde1bc03-e7ac-400b-af9b-11dc72446c34"@
    } else if k == (6nat, 'S', 'c', 'i') {
        "256c8bd9-4904-4360-bf4f-508a76d67183"@
    } else if k == (7nat, 'F', 'a', 'y') {
        "cdc58593-87dd-415e-bbc0-2ec27bf404cc"@
    } else if k == (9nat, 'G', 'a', 'r') {
        "81c836c9-914a-4eca-981a-560dad663e73"@
    } else if k == (13nat, 'A', 'w', 'g') {
        "ddefd648-5142-468e-b6f0-422164300946"@
    } else if k == (12nat, 'M', 'a', 's') {
        "ee968100-4171-4968-b27b-10138d2a4c74"@
    } else if k == (11nat, 'V', 'i', 's') {
        "df33b061-20a3-4d84-a48f-c5cff5f8c102"@
    } else if k == (9nat, 'W', 'e', 'c') {
        "f8f62992-7cec-4a74-9140-049246a24079"@
    } else if k == (10nat, 'A', 'd', 'n') {
        "a1f53773-ce69-4d54-8bd0-2b520120bee6"@
    } else if k == (6nat, 'I', 's', 'i') {
        "ace04997-f6bd-436e-b261-779182194d3d"@
    } else if k == (9nat, 'S', 'u', 'o') {
        "acc803a4-c95a-4c22-86fc-eb6b582d82a2"@
    } else if k == (9nat, 'I', 'y', 'i') {
        "320831a8-4026-470b-94f6-8354840acf6f"@
    } else if k == (14nat, 'O', 'f', 's') {
        "07251805-a27e-4d59-b488-f0bccfb3aefd"@
    } else if k == (8nat, 'A', 't', 's') {
        "0a39b5a1-b235-4886-a747-1d05d216532d"@
    } else if k == (11nat, 'T', 'i', 'l') {
        "ea2bc92d-1afe-4bc2-87ae-35013477a28b"@
    } else if k == (14nat, 'C', 'r', 'g') {
        "489dd859-9b61-4b37-87fa-f45ead0c78e7"@
    } else if k == (5nat, 'M', 'a', 'a') {
        "85daba54-a71c-4554-8a28-9901a8b0afad"@
    } else if k == (16nat, 'P', 'o', 'c') {
        "92d6d951-ca5e-429c-ac79-d97164cd140c"@
    } else if k == (10nat, 'V', 'i', 's') {
        "9ab8f526-7f3b-413f-b6da-5d33a68918e4"@
    } else if k == (11nat, 'D', 'e', 's') {
        "97893a4c-12af-4dac-b6be-0dffb0020025"@
    } else if k == (13nat, 'R', 'e', 'm') {
        "b9af330a-a069-4838-a9df-adf2f6dc31a5"@
    } else if k == (5nat, 'M', 'u', 'c') {
        "5fff9db5-7e58-444a-b080-7f9c85a26e49"@
    } else if k == (11nat, 'C', 'u', 'n') {
        "69964a91-5ca9-4edf-b71c-ade55903073d"@
    } else if k == (10nat, 'G', 'e', 'p') {
        "fad12b5e-68ba-460e-b9ff-edbcecfafd0e"@
    } else if k == (4nat, 'L', 'o', 'i') {
        "3de8c15d-9dff-4f8b-95b9-feefd1c722a2"@
    } else if k == (5nat, 'S', 'h', 'a') {
        "a7065a7c-7eae-4474-a002-ced584633275"@
    } else if k == (6nat, 'G', 'h', 's') {
        "2bd2e0d0-e35b-41c6-9060-962a7b1bbca8"@
    } else if k == (6nat, 'P', 'o', 'e') {
        "891cf779-9f88-47b7-abb2-c725e346ef2b"@
    } else if k == (17nat, 'T', 'r', 's') {
        "5b7de119-cfd6-42ec-8a72-676765d62b09"@
    } else if k == (7nat, 'Z', 'o', 's') {
        "8d2dc5fe-3a43-4d6b-9a57-7dfc5a4fc5d1"@
    } else if k == (11nat, 'M', 'e', 's') {
        "be78d95d-c4b5-4634-9d60-d0a6b6a4d3d2"@
    } else if k == (14nat, 'I', 'd', ')') {
        "2dd8d4df-9b83-4f56-a130-e7a35bcd6766"@
    } else if k == (12nat, 'I', 'd', ')') {
        "7b2ce280-79ef-4c09-9b58-198930885421"@
    } else if k == (11nat, 'E', 'd', 'l') {
        "e64f6742-c834-471d-8d72-dd51fc74e63c"@
    } else if k == (8nat, 'M', 'i', 'y') {
        "3e2b8dae-350e-4ef8-9f3d-7e8cd574e43a"@
    } else if k == (5nat, 'N', 'i', 'a') {
        "ac72833b-f410-4e05-886c-64993eeff942"@
    } else if k == (6nat, 'C', 'o', 'y') {
        "4d32cc48-9f00-4cca-9b5a-a839f0764984"@
    } else if k == (5nat, 'E', 'c', 'i') {
        "cdad7e68-1419-41dd-bdce-27753074a640"@
    } else if k == (7nat, 'R', 'o', 'e') {
        "423e2eae-a7f2-41a8-a77b-eccc094a00ff"@
    } else if k == (12nat, 'S', 'u', 'l') {
        "b13b2a48-c720-44a9-9c77-39c997537f43"@
    } else if k == (7nat, 'M', 'e', 'l') {
        "caaa44eb-cd40-4177-b930-79d3ef2afe87"@
    } else if k == (8nat, 'T', 'h', 'r') {
        "eabc5b4c-6aff-42f3-b657-3e90cbd00b75"@
    } else if k == (6nat, 'I', 'n', 't') {
        "b9fc3a18-e470-487c-8133-f77e2f0f6ad0"@
    } else if k == (6nat, 'B', 'o', 'g') {
        "0bc34acb-738f-4a49-82b6-9db49818d6f9"@
    } else if k == (11nat, 'C', 'a', 'e') {
        "87cc87de-a736-4fd8-b6d3-67a6ee269c1d"@
    } else if k == (10nat, 'H', 'i', 'l') {
        "c8cbe35b-1b2b-4ac3-b08c-232111bdcaf7"@
    } else if k == (7nat, 'O', 'n', 't') {
        "0234a31e-a729-4e28-9d6a-3f87c4966b9e"@
    } else if k == (9nat, 'A', 'n', 'y') {
        "51d83883-4103-437c-b4b1-731cb73d786c"@
    } else if k == (13nat, 'P', 's', 'l') {
        "3b60b75c-a2d7-4860-ab56-05f391bb889c"@
    } else if k == (5nat, 'M', 'a', 'c') {
        "ea2a92de-7deb-406b-8b39-36f6e6e7e0b5"@
    } else if k == (5nat, 'G', 'y', 'u') {
        "5ca48f85-080a-4c8a-b157-10a71553cf7f"@
    } else if k == (4nat, 'G', 'o', 'e') {
        "9438db5a-7e2a-4ac0-b39e-ea12346900ae"@
    } else if k == (5nat, 'M', 'e', 'a') {
        "631ef4f4-362c-4fd3-8b24-fefeefdd3554"@
    } else if k == (15nat, 'S', 'e', 'e') {
        "e5301a23-eb50-4c9c-b3f7-4a7e02ae0f97"@
    } else if k == (14nat, 'L', 'o', 's') {
        "1bc23b15-d4a3-4efc-a1a6-657cbd6555d0"@
    } else if k == (13nat, 'R', 'e', 'n') {
        "0c92ef58-2ba9-405b-a843-204f21ccdcb6"@
    } else if k == (13nat, 'O', 't', 'e') {
        "2d1f5d56-a1e5-4d0d-a961-219b8f31ed9e"@
    } else if k == (17nat, 'C', 'o', 'e') {
        "da2d33ca-3dd4-4062-9d3c-2ec1bae0c5ee"@
    } else if k == (7nat, 'T', 'r', 'y') {
        "7dcde953-a6f8-4551-9619-3b2dca6b262d"@
    } else if k == (7nat, 'A', 'n', 's') {
        "b1e97889-25b4-4258-b28b-cd7f4a283ea3"@
    } else if k == (7nat, 'A', 'r', 'y') {
        "7065a305-b63c-4b28-965c-6967e08c8d3e"@
    } else if k == (5nat, 'C', 'h', 's') {
        "6dd003f7-11f6-4b53-9ce7-3566588206c7"@
    } else if k == (10nat, 'F', 'i', 'b') {
        "0b39104a-4d94-4e64-923f-bdcf5cfcb27a"@
    } else if k == (15nat, 'V', 'i', 'y') {
        "54828dfd-57c3-436c-b607-3d758a55219c"@
    } else if k == (11nat, 'P', 'h', 'y') {
        "e19dff06-8112-4181-9d3c-3d6f2325b98f"@
    } else if k == (5nat, 'H', 'a', 'm') {
        "51dc5d9c-5739-4a94-a372-e9422e195a84"@
    } else {
        Seq::empty()
    }
}

/// A known tag id other than the two named "Survival" can be read back
/// from the fingerprint of its genre.
proof fn lemma_tag_from_genre(a: Seq<char>)
    requires
        tag_label(a).len() > 0,
        tag_label(a) != "Survival"@,
    ensures
        tag_of_genre_key(genre_key(tag_label(a))) == a,
{
    if a == "391b0423-d847-456f-aff0-8b0cfc03038b"@ {
        reveal_strlit("Action");
    } else if a == "aafb99c1-7f60-43fa-b75f-fc9502ce29c7"@ {
        reveal_strlit("Horror");
    } else if a == "5920b825-4181-4a17-be10-99577219b01e"@ {
        reveal_strlit("Drama");
    } else if a == "f5ba408b-0e6e-48ca-b089-795f5b69594e"@ {
        reveal_strlit("Sports");
    } else if a == "cdccad85-1493-4706-95d0-450b14f3fa66"@ {
        reveal_strlit("Cooking");
    } else if a == "cde1bc03-e7ac-400b-af9b-11dc72446c34"@ {
        reveal_strlit("Combat");
    } else if a == "256c8bd9-4904-4360-bf4f-508a76d67183"@ {
        reveal_strlit("Sci-Fi");
    } else if a == "cdc58593-87dd-415e-bbc0-2ec27bf404cc"@ {
        reveal_strlit("Fantasy");
    } else if a == "81c836c9-914a-4eca-981a-560dad663e73"@ {
        reveal_strlit("Gag Humor");
    } else if a == "ddefd648-5142-468e-b6f0-422164300946"@ {
        reveal_strlit("Award Winning");
    } else if a == "ee968100-4171-4968-b27b-10138d2a4c74"@ {
        reveal_strlit("Martial Arts");
    } else if a == "df33b061-20a3-4d84-a48f-c5cff5f8c102"@ {
        reveal_strlit("Video Games");
    } else if a == "f8f62992-7cec-4a74-9140-049246a24079"@ {
        reveal_strlit("Web Comic");
    } else if a == "a1f53773-ce69-4d54-8bd0-2b520120bee6"@ {
        reveal_strlit("Adaptation");
    } else if a == "ace04997-f6bd-436e-b261-779182194d3d"@ {
        reveal_strlit("Isekai");
    } else if a == "acc803a4-c95a-4c22-86fc-eb6b582d82a2"@ {
        reveal_strlit("Superhero");
    } else if a == "320831a8-4026-470b-94f6-8354840acf6f"@ {
        reveal_strlit("Iyashikei");
    } else if a == "07251805-a27e-4d59-b488-f0bccfb3aefd"@ {
        reveal_strlit("Office Workers");
    } else if a == "0a39b5a1-b235-4886-a747-1d05d216532d"@ {
        reveal_strlit("Athletes");
    } else if a == "ea2bc92d-1afe-4bc2-87ae-35013477a28b"@ {
        reveal_strlit("Time Travel");
    } else if a == "292e862b-2d17-4062-90a2-0356aa4cdbb5"@ {
    } else if a == "489dd859-9b61-4b37-87fa-f45ead0c78e7"@ {
        reveal_strlit("Cross-Dressing");
    } else if a == "85daba54-a71c-4554-8a28-9901a8b0afad"@ {
        reveal_strlit("Mafia");
    } else if a == "92d6d951-ca5e-429c-ac79-d97164cd140c"@ {
        reveal_strlit("Post-Apocalyptic");
    } else if a == "9ab8f526-7f3b-413f-b6da-5d33a68918e4"@ {
        reveal_strlit("Villainess");
    } else if a == "97893a4c-12af-4dac-b6be-0dffb0020025"@ {
        reveal_strlit("Delinquents");
    } else if a == "b9af330a-a069-4838-a9df-adf2f6dc31a5"@ {
        reveal_strlit("Reverse Harem");
    } else if a == "5fff9db5-7e58-444a-b080-7f9c85a26e49"@ {
        reveal_strlit("Music");
    } else if a == "69964a91-5ca9-4edf-b71c-ade55903073d"@ {
        reveal_strlit("Cultivation");
    } else if a == "fad12b5e-68ba-460e-b9ff-edbcecfafd0e"@ {
        reveal_strlit("Genderswap");
    } else if a == "3de8c15d-9dff-4f8b-95b9-feefd1c722a2"@ {
        reveal_strlit("Loli");
    } else if a == "a7065a7c-7eae-4474-a002-ced584633275"@ {
        reveal_strlit("Shota");
    } else if a == "2bd2e0d0-e35b-41c6-9060-962a7b1bbca8"@ {
        reveal_strlit("Ghosts");
    } else if a == "891cf779-9f88-47b7-abb2-c725e346ef2b"@ {
        reveal_strlit("Police");
    } else if a == "5b7de119-cfd6-42ec-8a72-676765d62b09"@ {
        reveal_strlit("Traditional Games");
    } else if a == "8d2dc5fe-3a43-4d6b-9a57-7dfc5a4fc5d1"@ {
        reveal_strlit("Zombies");
    } else if a == "be78d95d-c4b5-4634-9d60-d0a6b6a4d3d2"@ {
        reveal_strlit("Memory Loss");
    } else if a == "2dd8d4df-9b83-4f56-a130-e7a35bcd6766"@ {
        reveal_strlit("Idols (Female)");
    } else if a == "7b2ce280-79ef-4c09-9b58-198930885421"@ {
        reveal_strlit("Idols (Male)");
    } else if a == "e64f6742-c834-471d-8d72-dd51fc74e63c"@ {
        reveal_strlit("Educational");
    } else if a == "3e2b8dae-350e-4ef8-9f3d-7e8cd574e43a"@ {
        reveal_strlit("Military");
    } else if a == "ac72833b-f410-4e05-886c-64993eeff942"@ {
        reveal_strlit("Ninja");
    } else if a == "4d32cc48-9f00-4cca-9b5a-a839f0764984"@ {
        reveal_strlit("Comedy");
    } else if a == "cdad7e68-1419-41dd-bdce-27753074a640"@ {
        reveal_strlit("Ecchi");
    } else if a == "423e2eae-a7f2-41a8-a77b-eccc094a00ff"@ {
        reveal_strlit("Romance");
    } else if a == "b13b2a48-c720-44a9-9c77-39c997537f43"@ {
        reveal_strlit("Supernatural");
    } else if a == "caaa44eb-cd40-4177-b930-79d3ef2afe87"@ {
        reveal_strlit("Medical");
    } else if a == "eabc5b4c-6aff-42f3-b657-3e90cbd00b75"@ {
        reveal_strlit("Thriller");
    } else if a == "b9fc3a18-e470-487c-8133-f77e2f0f6ad0"@ {
        reveal_strlit("Incest");
    } else if a == "0bc34acb-738f-4a49-82b6-9db49818d6f9"@ {
        reveal_strlit("Boxing");
    } else if a == "33771934-028e-4cb3-8744-691e866aacf9"@ {
    } else if a == "87cc87de-a736-4fd8-b6d3-67a6ee269c1d"@ {
        reveal_strlit("Campus Life");
    } else if a == "c8cbe35b-1b2b-4ac3-b08c-232111bdcaf7"@ {
        reveal_strlit("Historical");
    } else if a == "0234a31e-a729-4e28-9d6a-3f87c4966b9e"@ {
        reveal_strlit("Oneshot");
    } else if a == "51d83883-4103-437c-b4b1-731cb73d786c"@ {
        reveal_strlit("Anthology");
    } else if a == "3b60b75c-a2d7-4860-ab56-05f391bb889c"@ {
        reveal_strlit("Psychological");
    } else if a == "ea2a92de-7deb-406b-8b39-36f6e6e7e0b5"@ {
        reveal_strlit("Magic");
    } else if a == "5ca48f85-080a-4c8a-b157-10a71553cf7f"@ {
        reveal_strlit("Gyaru");
    } else if a == "9438db5a-7e2a-4ac0-b39e-ea12346900ae"@ {
        reveal_strlit("Gore");
    } else if a == "631ef4f4-362c-4fd3-8b24-fefeefdd3554"@ {
        reveal_strlit("Mecha");
    } else if a == "e5301a23-eb50-4c9c-b3f7-4a7e02ae0f97"@ {
        reveal_strlit("Sexual Violence");
    } else if a == "1bc23b15-d4a3-4efc-a1a6-657cbd6555d0"@ {
        reveal_strlit("Love triangles");
    } else if a == "0c92ef58-2ba9-405b-a843-204f21ccdcb6"@ {
        reveal_strlit("Reincarnation");
    } else if a == "2d1f5d56-a1e5-4d0d-a961-219b8f31ed9e"@ {
        reveal_strlit("Otaku Culture");
    } else if a == "da2d33ca-3dd4-4062-9d3c-2ec1bae0c5ee"@ {
        reveal_strlit("Collective Volume");
    } else if a == "7dcde953-a6f8-4551-9619-3b2dca6b262d"@ {
        reveal_strlit("Tragedy");
    } else if a == "b1e97889-25b4-4258-b28b-cd7f4a283ea3"@ {
        reveal_strlit("Animals");
    } else if a == "7065a305-b63c-4b28-965c-6967e08c8d3e"@ {
        reveal_strlit("Archery");
    } else if a == "6dd003f7-11f6-4b53-9ce7-3566588206c7"@ {
        reveal_strlit("Chess");
    } else if a == "0b39104a-4d94-4e64-923f-bdcf5cfcb27a"@ {
        reveal_strlit("Fight Club");
    } else if a == "54828dfd-57c3-436c-b607-3d758a55219c"@ {
        reveal_strlit("Virtual Reality");
    } else if a == "e19dff06-8112-4181-9d3c-3d6f2325b98f"@ {
        reveal_strlit("Photography");
    } else if a == "51dc5d9c-5739-4a94-a372-e9422e195a84"@ {
        reveal_strlit("Harem");
    } else {
        reveal_strlit("");
    }
}

/// Distinct tag ids name distinct genres: two ids to which `tag_name` gives
/// the same non-empty genre are the same id. The one exception in the table
/// is "Survival", which two ids name.
pub proof fn lemma_tag_genres_distinct(a: Seq<char>, b: Seq<char>)
    requires
        tag_label(a).len() > 0,
        tag_label(a) == tag_label(b),
        tag_label(a) != "Survival"@,
    ensures
        a == b,
{
    lemma_tag_from_genre(a);
    lemma_tag_from_genre(b);
}

/// The genre named by a tag id; empty for a tag the source does not know.
pub fn tag_name(id: &str) -> (r: &'static str)
    ensures
        r@ == tag_label(id@),
{
    if eq_str(id, "391b0423-d847-456f-aff0-8b0cfc03038b") {
        "Action"
    } else if eq_str(id, "aafb99c1-7f60-43fa-b75f-fc9502ce29c7") {
        "Horror"
    } else if eq_str(id, "5920b825-4181-4a17-be10-99577219b01e") {
        "Drama"
    } else if eq_str(id, "f5ba408b-0e6e-48ca-b089-795f5b69594e") {
        "Sports"
    } else if eq_str(id, "cdccad85-1493-4706-95d0-450b14f3fa66") {
        "Cooking"
    } else if eq_str(id, "cde1bc03-e7ac-400b-af9b-11dc72446c34") {
        "Combat"
    } else if eq_str(id, "256c8bd9-4904-4360-bf4f-508a76d67183") {
        "Sci-Fi"
    } else if eq_str(id, "cdc58593-87dd-415e-bbc0-2ec27bf404cc") {
        "Fantasy"
    } else if eq_str(id, "81c836c9-914a-4eca-981a-560dad663e73") {
        "Gag Humor"
    } else if eq_str(id, "ddefd648-5142-468e-b6f0-422164300946") {
        "Award Winning"
    } else if eq_str(id, "ee968100-4171-4968-b27b-10138d2a4c74") {
        "Martial Arts"
    } else if eq_str(id, "df33b061-20a3-4d84-a48f-c5cff5f8c102") {
        "Video Games"
    } else if eq_str(id, "f8f62992-7cec-4a74-9140-049246a24079") {
        "Web Comic"
    } else if eq_str(id, "a1f53773-ce69-4d54-8bd0-2b520120bee6") {
        "Adaptation"
    } else if eq_str(id, "ace04997-f6bd-436e-b261-779182194d3d") {
        "Isekai"
    } else if eq_str(id, "acc803a4-c95a-4c22-86fc-eb6b582d82a2") {
        "Superhero"
    } else if eq_str(id, "320831a8-4026-470b-94f6-8354840acf6f") {
        "Iyashikei"
    } else if eq_str(id, "07251805-a27e-4d59-b488-f0bccfb3aefd") {
        "Office Workers"
    } else if eq_str(id, "0a39b5a1-b235-4886-a747-1d05d216532d") {
        "Athletes"
    } else if eq_str(id, "ea2bc92d-1afe-4bc2-87ae-35013477a28b") {
        "Time Travel"
    } else if eq_str(id, "292e862b-2d17-4062-90a2-0356aa4cdbb5") {
        "Survival"
    } else if eq_str(id, "489dd859-9b61-4b37-87fa-f45ead0c78e7") {
        "Cross-Dressing"
    } else if eq_str(id, "85daba54-a71c-4554-8a28-9901a8b0afad") {
        "Mafia"
    } else if eq_str(id, "92d6d951-ca5e-429c-ac79-d97164cd140c") {
        "Post-Apocalyptic"
    } else if eq_str(id, "9ab8f526-7f3b-413f-b6da-5d33a68918e4") {
        "Villainess"
    } else if eq_str(id, "97893a4c-12af-4dac-b6be-0dffb0020025") {
        "Delinquents"
    } else if eq_str(id, "b9af330a-a069-4838-a9df-adf2f6dc31a5") {
        "Reverse Harem"
    } else if eq_str(id, "5fff9db5-7e58-444a-b080-7f9c85a26e49") {
        "Music"
    } else if eq_str(id, "69964a91-5ca9-4edf-b71c-ade55903073d") {
        "Cultivation"
    } else if eq_str(id, "fad12b5e-68ba-460e-b9ff-edbcecfafd0e") {
        "Genderswap"
    } else if eq_str(id, "3de8c15d-9dff-4f8b-95b9-feefd1c722a2") {
        "Loli"
    } else if eq_str(id, "a7065a7c-7eae-4474-a002-ced584633275") {
        "Shota"
    } else if eq_str(id, "2bd2e0d0-e35b-41c6-9060-962a7b1bbca8") {
        "Ghosts"
    } else if eq_str(id, "891cf779-9f88-47b7-abb2-c725e346ef2b") {
        "Police"
    } else if eq_str(id, "5b7de119-cfd6-42ec-8a72-676765d62b09") {
        "Traditional Games"
    } else if eq_str(id, "8d2dc5fe-3a43-4d6b-9a57-7dfc5a4fc5d1") {
        "Zombies"
    } else if eq_str(id, "be78d95d-c4b5-4634-9d60-d0a6b6a4d3d2") {
        "Memory Loss"
    } else if eq_str(id, "2dd8d4df-9b83-4f56-a130-e7a35bcd6766") {
        "Idols (Female)"
    } else if eq_str(id, "7b2ce280-79ef-4c09-9b58-198930885421") {
        "Idols (Male)"
    } else if eq_str(id, "e64f6742-c834-471d-8d72-dd51fc74e63c") {
        "Educational"
    } else if eq_str(id, "3e2b8dae-350e-4ef8-9f3d-7e8cd574e43a") {
        "Military"
    } else if eq_str(id, "ac72833b-f410-4e05-886c-64993eeff942") {
        "Ninja"
    } else if eq_str(id, "4d32cc48-9f00-4cca-9b5a-a839f0764984") {
        "Comedy"
    } else if eq_str(id, "cdad7e68-1419-41dd-bdce-27753074a640") {
        "Ecchi"
    } else if eq_str(id, "423e2eae-a7f2-41a8-a77b-eccc094a00ff") {
        "Romance"
    } else if eq_str(id, "b13b2a48-c720-44a9-9c77-39c997537f43") {
        "Supernatural"
    } else if eq_str(id, "caaa44eb-cd40-4177-b930-79d3ef2afe87") {
        "Medical"
    } else if eq_str(id, "eabc5b4c-6aff-42f3-b657-3e90cbd00b75") {
        "Thriller"
    } else if eq_str(id, "b9fc3a18-e470-487c-8133-f77e2f0f6ad0") {
        "Incest"
    } else if eq_str(id, "0bc34acb-738f-4a49-82b6-9db49818d6f9") {
        "Boxing"
    } else if eq_str(id, "33771934-028e-4cb3-8744-691e866aacf9") {
        "Survival"
    } else if eq_str(id, "87cc87de-a736-4fd8-b6d3-67a6ee269c1d") {
        "Campus Life"
    } else if eq_str(id, "c8cbe35b-1b2b-4ac3-b08c-232111bdcaf7") {
        "Historical"
    } else if eq_str(id, "0234a31e-a729-4e28-9d6a-3f87c4966b9e") {
        "Oneshot"
    } else if eq_str(id, "51d83883-4103-437c-b4b1-731cb73d786c") {
        "Anthology"
    } else if eq_str(id, "3b60b75c-a2d7-4860-ab56-05f391bb889c") {
        "Psychological"
    } else if eq_str(id, "ea2a92de-7deb-406b-8b39-36f6e6e7e0b5") {
        "Magic"
    } else if eq_str(id, "5ca48f85-080a-4c8a-b157-10a71553cf7f") {
        "Gyaru"
    } else if eq_str(id, "9438db5a-7e2a-4ac0-b39e-ea12346900ae") {
        "Gore"
    } else if eq_str(id, "631ef4f4-362c-4fd3-8b24-fefeefdd3554") {
        "Mecha"
    } else if eq_str(id, "e5301a23-eb50-4c9c-b3f7-4a7e02ae0f97") {
        "Sexual Violence"
    } else if eq_str(id, "1bc23b15-d4a3-4efc-a1a6-657cbd6555d0") {
        "Love triangles"
    } else if eq_str(id, "0c92ef58-2ba9-405b-a843-204f21ccdcb6") {
        "Reincarnation"
    } else if eq_str(id, "2d1f5d56-a1e5-4d0d-a961-219b8f31ed9e") {
        "Otaku Culture"
    } else if eq_str(id, "da2d33ca-3dd4-4062-9d3c-2ec1bae0c5ee") {
        "Collective Volume"
    } else if eq_str(id, "7dcde953-a6f8-4551-9619-3b2dca6b262d") {
        "Tragedy"
    } else if eq_str(id, "b1e97889-25b4-4258-b28b-cd7f4a283ea3") {
        "Animals"
    } else if eq_str(id, "7065a305-b63c-4b28-965c-6967e08c8d3e") {
        "Archery"
    } else if eq_str(id, "6dd003f7-11f6-4b53-9ce7-3566588206c7") {
        "Chess"
    } else if eq_str(id, "0b39104a-4d94-4e64-923f-bdcf5cfcb27a") {
        "Fight Club"
    } else if eq_str(id, "54828dfd-57c3-436c-b607-3d758a55219c") {
        "Virtual Reality"
    } else if eq_str(id, "e19dff06-8112-4181-9d3c-3d6f2325b98f") {
        "Photography"
    } else if eq_str(id, "51dc5d9c-5739-4a94-a372-e9422e195a84") {
        "Harem"
    } else {
        ""
    }
}

/// The localized text of the first alternative title map that has one.
pub open spec fn first_localized(alts: Seq<Localized>) -> Option<Seq<char>>
    decreases alts.len(),
{
    if alts.len() == 0 {
        None
    } else {
        match localized_spec(alts[0]@) {
            Some(t) => Some(t),
            None => first_localized(alts.drop_first()),
        }
    }
}

fn first_localized_exec(alts: &Vec<Localized>) -> (r: Option<String>)
    ensures
        opt(r) == first_localized(alts@),
{
    let mut i: usize = 0;
    assert(alts@.subrange(0, alts@.len() as int) =~= alts@);
    while i < alts.len()
        invariant
            i <= alts@.len(),
            first_localized(alts@) == first_localized(alts@.subrange(i as int, alts@.len() as int)),
        decreases alts.len() - i,
    {
        assert(alts@.subrange(i as int, alts@.len() as int).drop_first() =~= alts@.subrange(
            i + 1,
            alts@.len() as int,
        ));
        match localized(&alts[i]) {
            Some(t) => {
                return Some(t);
            },
            None => {},
        }
        i = i + 1;
    }
    None
}

/// The names of the relationships of type `kind` that name something.
pub open spec fn kind_names(rels: Seq<Relationship>, kind: Seq<char>) -> Seq<Seq<char>>
    decreases rels.len(),
{
    if rels.len() == 0 {
        Seq::empty()
    } else {
        let acc = kind_names(rels.drop_last(), kind);
        let r = rels.last();
        if opt(r.kind) == Some(kind) && r.name is Some {
            acc.push(r.name->0@)
        } else {
            acc
        }
    }
}

fn push_kind_names(out: &mut Vec<String>, rels: &Vec<Relationship>, kind: &str)
    ensures
        texts(final(out)@) == texts(old(out)@) + kind_names(rels@, kind@),
{
    let ghost start = texts(out@);
    let mut i: usize = 0;
    while i < rels.len()
        invariant
            i <= rels@.len(),
            texts(out@) == start + kind_names(rels@.subrange(0, i as int), kind@),
        decreases rels.len() - i,
    {
        assert(rels@.subrange(0, i + 1).drop_last() =~= rels@.subrange(0, i as int));
        let r = &rels[i];
        let ghost before_push = texts(out@);
        match (&r.kind, &r.name) {
            (Some(k), Some(n)) => {
                if eq_str(k.as_str(), kind) {
                    out.push(n.clone());
                    assert(texts(out@) =~= before_push.push(n@));
                }
            },
            _ => {},
        }
        i = i + 1;
    }
    assert(rels@.subrange(0, rels@.len() as int) =~= rels@);
    assert(texts(out@) =~= start + kind_names(rels@, kind@));
}

/// The publication state as the source names it.
pub open spec fn status_label(status: Option<String>) -> Option<Seq<char>> {
    match status {
        Some(s) => Some(
            if s@ == "completed"@ {
                "Completed"@
            } else if s@ == "hiatus"@ {
                "Hiatus"@
            } else if s@ == "cancelled"@ {
                "Cancelled"@
            } else {
                "Ongoing"@
            },
        ),
        None => None,
    }
}

/// The genres of the tags, leaving out the one-shot and anthology tags.
pub open spec fn genre_labels(tags: Seq<String>) -> Seq<Seq<char>>
    decreases tags.len(),
{
    if tags.len() == 0 {
        Seq::empty()
    } else {
        let acc = genre_labels(tags.drop_last());
        let t = tags.last()@;
        if t == ONE_SHOT_TAG@ || t == ANTHOLOGY_TAG@ {
            acc
        } else {
            acc.push(tag_label(t))
        }
    }
}

fn genre_labels_exec(tags: &Vec<String>) -> (r: Vec<String>)
    ensures
        texts(r@) == genre_labels(tags@),
{
    let mut out: Vec<String> = Vec::new();
    let mut i: usize = 0;
    while i < tags.len()
        invariant
            i <= tags@.len(),
            texts(out@) == genre_labels(tags@.subrange(0, i as int)),
        decreases tags.len() - i,
    {
        assert(tags@.subrange(0, i + 1).drop_last() =~= tags@.subrange(0, i as int));
        let t = tags[i].as_str();
        let ghost before_push = texts(out@);
        if !(eq_str(t, ONE_SHOT_TAG) || eq_str(t, ANTHOLOGY_TAG)) {
            let label = String::from_str(tag_name(t));
            out.push(label);
            assert(texts(out@) =~= before_push.push(tag_label(t@)));
        }
        i = i + 1;
    }
    assert(tags@.subrange(0, tags@.len() as int) =~= tags@);
    out
}

/// The details of the work at `url` with the id `manga_id`, from its
/// attributes, the relationships at the top of the answer (the authors and
/// artists), those of its data (the cover) and its chapters.
pub fn work_details(
    url: String,
    manga_id: &str,
    attributes: &MangaAttributes,
    relationships: &Vec<Relationship>,
    data_relationships: &Vec<Relationship>,
    chapters: Vec<Chapter>,
) -> (r: WorkDetails)
    ensures
        r.title@ == match localized_spec(attributes.title@) {
            Some(t) => t,
            None => match first_localized(attributes.alt_titles@) {
                Some(t) => t,
                None => url@,
            },
        },
        r.url@ == url@,
        opt(r.cover_url) == cover_spec(data_relationships@, manga_id@),
        r.alternative_names@.len() == 0,
        texts(r.authors@) == distinct_by(
            kind_names(relationships@, "author"@) + kind_names(relationships@, "artist"@),
            |t: Seq<char>| t.len() > 0,
        ),
        r.artists@.len() == 0,
        opt(r.status) == status_label(attributes.status),
        opt(r.release_date) == match attributes.year {
            Some(y) => Some(decimal(y as nat)),
            None => None,
        },
        opt(r.description) == attr_of(attributes.description@, "en"@),
        texts(r.genres@) == genre_labels(attributes.tags@),
        r.chapters@ == chapters@,
        r.content_html is None,
{
    let title = match localized(&attributes.title) {
        Some(t) => t,
        None => match first_localized_exec(&attributes.alt_titles) {
            Some(t) => t,
            None => url.clone(),
        },
    };
    let mut names: Vec<String> = Vec::new();
    push_kind_names(&mut names, relationships, "author");
    push_kind_names(&mut names, relationships, "artist");
    let authors = distinct_nonempty(&names);
    let status = match &attributes.status {
        Some(s) => {
            let st = s.as_str();
            Some(
                String::from_str(
                    if eq_str(st, "completed") {
                        "Completed"
                    } else if eq_str(st, "hiatus") {
                        "Hiatus"
                    } else if eq_str(st, "cancelled") {
                        "Cancelled"
                    } else {
                        "Ongoing"
                    },
                ),
            )
        },
        None => None,
    };
    let description = lookup(&attributes.description, "en");
    let genres = genre_labels_exec(&attributes.tags);
    let release_date = match attributes.year {
        Some(y) => Some(string_from(decimal_exec(y as u64))),
        None => None,
    };
    WorkDetails {
        title,
        url,
        cover_url: cover_file_name(data_relationships, manga_id),
        alternative_names: Vec::new(),
        authors,
        artists: Vec::new(),
        status,
        release_date,
        description,
        genres,
        chapters,
        content_html: None,
    }
}

// ---------------------------------------------------------------------
// Chapter pages
// ---------------------------------------------------------------------

/// The id of a chapter, from its address.
pub fn chapter_id(url: &str) -> (r: Result<String, SourceError>)
    ensures
        uuid_spec(url@) matches Some(id) ==> (r matches Ok(s) && s@ == trim(id)),
        uuid_spec(url@) is None ==> r matches Err(SourceError::NotFound),
{
    let id = uuid_from_title_url(url)?;
    let c = chars_of(id.as_str());
    Ok(string_from(trim_exec(c.as_slice())))
}

/// The address of the request for the image server of a chapter.
pub open spec fn at_home_spec(chapter_id: Seq<char>) -> Seq<char> {
    API_BASE@ + "/at-home/server/"@ + chapter_id + "?forcePort443=true"@
}

/// The address of the request for the image server of a chapter.
pub fn at_home_url(chapter_id: &str) -> (r: String)
    ensures
        r@ == at_home_spec(chapter_id@),
{
    let mut v = chars_of(API_BASE);
    push_str(&mut v, "/at-home/server/");
    push_str(&mut v, chapter_id);
    push_str(&mut v, "?forcePort443=true");
    string_from(v)
}

/// The answer of the image server request.
pub struct AtHome {
    pub base_url: String,
    pub hash: String,
    pub data: Vec<String>,
}

/// The address of a page image.
pub open spec fn page_url(a: AtHome, file: Seq<char>) -> Seq<char> {
    a.base_url@ + "/data/"@ + a.hash@ + "/"@ + file
}

/// The addresses of the pages of a chapter; an error when the image server
/// named no host.
pub fn chapter_pages(at_home: &AtHome) -> (r: Result<Vec<String>, SourceError>)
    ensures
        at_home.base_url@.len() == 0 ==> is_network(r, "at-home returned no host"@),
        at_home.base_url@.len() > 0 ==> (r matches Ok(v) && v@.len() == at_home.data@.len() && (
        forall|k: int|
            0 <= k < v@.len() ==> (#[trigger] v@[k])@ == page_url(*at_home, at_home.data@[k]@))),
{
    if at_home.base_url.as_str().is_empty() {
        return Err(SourceError::Network(String::from_str("at-home returned no host")));
    }
    let mut out: Vec<String> = Vec::new();
    let mut i: usize = 0;
    while i < at_home.data.len()
        invariant
            i <= at_home.data@.len(),
            out@.len() == i,
            forall|k: int|
                0 <= k < i ==> (#[trigger] out@[k])@ == page_url(*at_home, at_home.data@[k]@),
        decreases at_home.data.len() - i,
    {
        let mut v = chars_of(at_home.base_url.as_str());
        push_str(&mut v, "/data/");
        push_str(&mut v, at_home.hash.as_str());
        push_str(&mut v, "/");
        push_str(&mut v, at_home.data[i].as_str());
        out.push(string_from(v));
        i = i + 1;
    }
    Ok(out)
}

// ---------------------------------------------------------------------
// The chapter feed
// ---------------------------------------------------------------------

/// The address of a page of 500 entries of the English chapter feed of a
/// work, in chapter order, without external, empty or future chapters.
pub open spec fn feed_page_spec(manga_id: Seq<char>, page: u32) -> Seq<char> {
    API_BASE@ + "/manga/"@ + manga_id
        + "/feed?translatedLanguage[]=en&order[chapter]=asc&limit="@ + decimal(500)
        + "&offset="@ + decimal((page * 500) as nat)
        + "&includeExternalUrl=0&includeEmptyPages=0&includeFuturePublishAt=0&"@ + ratings()
        + "&includes[]=scanlation_group"@
}

/// The address of a page of the chapter feed of a work.
pub fn feed_page_url(manga_id: &str, page: u32) -> (r: String)
    ensures
        r@ == feed_page_spec(manga_id@, page),
{
    let mut v = chars_of(API_BASE);
    push_str(&mut v, "/manga/");
    push_str(&mut v, manga_id);
    push_str(&mut v, "/feed?translatedLanguage[]=en&order[chapter]=asc&limit=");
    let l = decimal_exec(500);
    push_all(&mut v, l.as_slice());
    push_str(&mut v, "&offset=");
    let o = decimal_exec(page as u64 * 500);
    push_all(&mut v, o.as_slice());
    push_str(&mut v, "&includeExternalUrl=0&includeEmptyPages=0&includeFuturePublishAt=0&");
    push_ratings(&mut v);
    push_str(&mut v, "&includes[]=scanlation_group");
    string_from(v)
}

/// An entry of the chapter feed.
pub struct FeedEntry {
    pub chapter: Option<String>,
    pub title: Option<String>,
    pub publish_at: String,
    pub external_url: Option<String>,
    pub pages: u32,
    /// Its `id`, when that is a string.
    pub id: Option<String>,
    pub relationships: Vec<Relationship>,
}

/// A readable chapter upload of the feed.
pub struct Upload {
    /// The chapter number, as the feed writes it.
    pub number: Option<String>,
    pub title: Option<String>,
    pub publish_at: String,
    pub id: String,
    pub group: Option<String>,
    /// Where the chapter number, read as a decimal number, stands among
    /// those of the other uploads: equal numbers have equal ranks and a
    /// smaller number a smaller rank. `None` when the number cannot be read.
    pub number_rank: Option<u64>,
}

/// The first relationship of type `kind`.
pub open spec fn first_of_kind(rels: Seq<Relationship>, kind: Seq<char>) -> Option<Relationship>
    decreases rels.len(),
{
    if rels.len() == 0 {
        None
    } else if opt(rels[0].kind) == Some(kind) {
        Some(rels[0])
    } else {
        first_of_kind(rels.drop_first(), kind)
    }
}

/// The scanlation group named by the first `scanlation_group` relationship.
pub open spec fn group_of(rels: Seq<Relationship>) -> Option<Seq<char>> {
    match first_of_kind(rels, "scanlation_group"@) {
        Some(r) => opt(r.name),
        None => None,
    }
}

fn group_of_exec(rels: &Vec<Relationship>) -> (r: Option<String>)
    ensures
        opt(r) == group_of(rels@),
{
    let mut i: usize = 0;
    assert(rels@.subrange(0, rels@.len() as int) =~= rels@);
    while i < rels.len()
        invariant
            i <= rels@.len(),
            first_of_kind(rels@, "scanlation_group"@) == first_of_kind(
                rels@.subrange(i as int, rels@.len() as int),
                "scanlation_group"@,
            ),
        decreases rels.len() - i,
    {
        assert(rels@.subrange(i as int, rels@.len() as int).drop_first() =~= rels@.subrange(
            i + 1,
            rels@.len() as int,
        ));
        match &rels[i].kind {
            Some(k) => {
                if eq_str(k.as_str(), "scanlation_group") {
                    return rels[i].name.clone();
                }
            },
            None => {},
        }
        i = i + 1;
    }
    None
}

/// The upload of a feed entry, unless it is external or has no pages; its
/// rank is not known yet.
pub fn upload_of(entry: FeedEntry) -> (r: Option<Upload>)
    ensures
        (entry.external_url is Some || entry.pages == 0) ==> r is None,
        !(entry.external_url is Some || entry.pages == 0) ==> (r matches Some(u) && u.number
            == entry.chapter && u.title == entry.title && u.publish_at == entry.publish_at
            && u.id@ == match entry.id {
            Some(i) => i@,
            None => Seq::empty(),
        } && opt(u.group) == group_of(entry.relationships@) && u.number_rank is None),
{
    if entry.external_url.is_some() || entry.pages == 0 {
        return None;
    }
    let group = group_of_exec(&entry.relationships);
    let id = match entry.id {
        Some(i) => i,
        None => String::new(),
    };
    Some(
        Upload {
            number: entry.chapter,
            title: entry.title,
            publish_at: entry.publish_at,
            id,
            group,
            number_rank: None,
        },
    )
}

/// Whether the feed has been read to its end: once as many uploads were
/// kept as the feed counts in total, or when it counts none.
pub fn feed_finished(kept: usize, total: u64) -> (r: bool)
    ensures
        r == (kept >= total || total == 0),
{
    kept as u64 >= total || total == 0
}

/// The number of pages of the chapter feed that are read at most.
pub const FEED_PAGES: u32 = 20;

/// Whether to ask for the page after page `page` of the chapter feed, once
/// its `n_entries` entries were read and `kept` uploads are kept in all: not
/// after an empty page, nor once the feed is read to its end, nor after the
/// last page that is read.
pub fn feed_continue(page: u32, n_entries: usize, kept: usize, total: u64) -> (r: bool)
    ensures
        r == (page + 1 < FEED_PAGES && n_entries > 0 && !(kept >= total || total == 0)),
{
    if n_entries == 0 {
        return false;
    }
    if feed_finished(kept, total) {
        return false;
    }
    page < FEED_PAGES - 1
}

/// The title of a chapter: `Ch. {number} - {title}`, `Ch. {number}`, its
/// title, or `Oneshot`.
pub open spec fn chapter_title_spec(number: Option<String>, title: Option<String>) -> Seq<char> {
    match number {
        Some(n) => match title {
            Some(t) => if t@.len() > 0 {
                "Ch. "@ + n@ + " - "@ + t@
            } else {
                "Ch. "@ + n@
            },
            None => "Ch. "@ + n@,
        },
        None => match title {
            Some(t) => if t@.len() > 0 {
                t@
            } else {
                "Oneshot"@
            },
            None => "Oneshot"@,
        },
    }
}

/// The title of a chapter, from its number and title.
pub fn chapter_title(number: &Option<String>, title: &Option<String>) -> (r: String)
    ensures
        r@ == chapter_title_spec(*number, *title),
{
    match number {
        Some(n) => {
            let mut v = chars_of("Ch. ");
            push_str(&mut v, n.as_str());
            match title {
                Some(t) => {
                    if !t.as_str().is_empty() {
                        push_str(&mut v, " - ");
                        push_str(&mut v, t.as_str());
                    }
                },
                None => {},
            }
            string_from(v)
        },
        None => match title {
            Some(t) => if !t.as_str().is_empty() {
                t.clone()
            } else {
                String::from_str("Oneshot")
            },
            None => String::from_str("Oneshot"),
        },
    }
}

/// The uploads keyed by publication time.
pub open spec fn by_time(s: Seq<Upload>) -> Seq<(String, Upload)> {
    s.map_values(|u: Upload| (u.publish_at, u))
}

/// The uploads keyed by the rank of their chapter number.
pub open spec fn by_rank(s: Seq<Upload>) -> Seq<(Option<u64>, Upload)> {
    s.map_values(|u: Upload| (u.number_rank, u))
}

/// What makes two uploads the same chapter: the chapter number, or for a
/// chapter without number `oneshot:` and its title.
pub open spec fn chapter_key(u: Upload) -> Seq<char> {
    match u.number {
        Some(n) => n@,
        None => "oneshot:"@ + match u.title {
            Some(t) => t@,
            None => Seq::empty(),
        },
    }
}

/// The first upload of each chapter, in order.
pub open spec fn first_per_chapter(s: Seq<Upload>) -> Seq<Upload>
    decreases s.len(),
{
    if s.len() == 0 {
        Seq::empty()
    } else {
        let acc = first_per_chapter(s.drop_last());
        if acc.map_values(|u: Upload| chapter_key(u)).contains(chapter_key(s.last())) {
            acc
        } else {
            acc.push(s.last())
        }
    }
}

/// Keeping the first upload of each chapter lists every chapter of the
/// uploads exactly once, with one of its uploads.
pub proof fn lemma_one_upload_per_chapter(s: Seq<Upload>)
    ensures
        forall|i: int, j: int|
            0 <= i < j < first_per_chapter(s).len() ==> chapter_key(#[trigger] first_per_chapter(s)[i])
                != chapter_key(#[trigger] first_per_chapter(s)[j]),
        forall|k: int|
            0 <= k < s.len() ==> exists|i: int|
                0 <= i < first_per_chapter(s).len() && chapter_key(#[trigger] first_per_chapter(s)[i])
                    == chapter_key(#[trigger] s[k]),
        forall|i: int| 0 <= i < first_per_chapter(s).len() ==> s.contains(#[trigger] first_per_chapter(s)[i]),
    decreases s.len(),
{
    if s.len() > 0 {
        let init = s.drop_last();
        let x = s.last();
        lemma_one_upload_per_chapter(init);
        let acc = first_per_chapter(init);
        let keys = acc.map_values(|u: Upload| chapter_key(u));
        let out = first_per_chapter(s);
        assert forall|i: int| 0 <= i < acc.len() implies s.contains(#[trigger] acc[i]) by {
            let m = choose|m: int| 0 <= m < init.len() && init[m] == acc[i];
            assert(s[m] == acc[i]);
        }
        if keys.contains(chapter_key(x)) {
            assert(out == acc);
            let w = choose|w: int| 0 <= w < keys.len() && keys[w] == chapter_key(x);
            assert forall|k: int| 0 <= k < s.len() implies exists|i: int|
                0 <= i < out.len() && chapter_key(#[trigger] out[i]) == chapter_key(#[trigger] s[k]) by {
                if k < s.len() - 1 {
                    assert(s[k] == init[k]);
                } else {
                    assert(chapter_key(out[w]) == chapter_key(s[k]));
                }
            }
        } else {
            assert(out == acc.push(x));
            assert forall|i: int| 0 <= i < acc.len() implies chapter_key(#[trigger] acc[i]) != chapter_key(x) by {
                assert(keys[i] == chapter_key(acc[i]));
            }
            assert forall|i: int, j: int| 0 <= i < j < out.len() implies chapter_key(#[trigger] out[i])
                != chapter_key(#[trigger] out[j]) by {
                if j < acc.len() {
                    assert(out[i] == acc[i] && out[j] == acc[j]);
                } else {
                    assert(out[i] == acc[i]);
                }
            }
            assert forall|k: int| 0 <= k < s.len() implies exists|i: int|
                0 <= i < out.len() && chapter_key(#[trigger] out[i]) == chapter_key(#[trigger] s[k]) by {
                if k < s.len() - 1 {
                    assert(s[k] == init[k]);
                    let i = choose|i: int| 0 <= i < acc.len() && chapter_key(#[trigger] acc[i]) == chapter_key(#[trigger] init[k]);
                    assert(out[i] == acc[i]);
                } else {
                    assert(out[acc.len() as int] == x);
                }
            }
            assert forall|i: int| 0 <= i < out.len() implies s.contains(#[trigger] out[i]) by {
                if i < acc.len() {
                    assert(out[i] == acc[i]);
                } else {
                    assert(s[s.len() - 1] == out[i]);
                }
            }
        }
    }
}

/// The second items of the pairs.
pub open spec fn seconds<K, T>(s: Seq<(K, T)>) -> Seq<T> {
    s.map_values(|p: (K, T)| p.1)
}

fn chapter_key_exec(u: &Upload) -> (r: String)
    ensures
        r@ == chapter_key(*u),
{
    match &u.number {
        Some(n) => n.clone(),
        None => {
            let mut v = chars_of("oneshot:");
            match &u.title {
                Some(t) => push_str(&mut v, t.as_str()),
                None => {},
            }
            assert(v@ =~= chapter_key(*u));
            string_from(v)
        },
    }
}

fn keyed_by_time(v: Vec<Upload>) -> (r: Vec<(String, Upload)>)
    ensures
        r@ == by_time(v@),
{
    let mut v = v;
    let ghost orig = v@;
    let mut out: Vec<(String, Upload)> = Vec::new();
    let ghost mut i: int = 0;
    while v.len() > 0
        invariant
            0 <= i <= orig.len(),
            v@ == orig.subrange(i, orig.len() as int),
            out@ == by_time(orig.subrange(0, i)),
        decreases v.len(),
    {
        let u = v.remove(0);
        let k = u.publish_at.clone();
        out.push((k, u));
        proof {
            assert(by_time(orig.subrange(0, i + 1)) =~= by_time(orig.subrange(0, i)).push(
                (orig[i].publish_at, orig[i]),
            ));
            i = i + 1;
            assert(v@ =~= orig.subrange(i, orig.len() as int));
        }
    }
    assert(orig.subrange(0, i) =~= orig);
    out
}

fn keyed_by_rank(v: Vec<Upload>) -> (r: Vec<(Option<u64>, Upload)>)
    ensures
        r@ == by_rank(v@),
{
    let mut v = v;
    let ghost orig = v@;
    let mut out: Vec<(Option<u64>, Upload)> = Vec::new();
    let ghost mut i: int = 0;
    while v.len() > 0
        invariant
            0 <= i <= orig.len(),
            v@ == orig.subrange(i, orig.len() as int),
            out@ == by_rank(orig.subrange(0, i)),
        decreases v.len(),
    {
        let u = v.remove(0);
        let k = u.number_rank;
        out.push((k, u));
        proof {
            assert(by_rank(orig.subrange(0, i + 1)) =~= by_rank(orig.subrange(0, i)).push(
                (orig[i].number_rank, orig[i]),
            ));
            i = i + 1;
            assert(v@ =~= orig.subrange(i, orig.len() as int));
        }
    }
    assert(orig.subrange(0, i) =~= orig);
    out
}

fn first_per_chapter_exec(v: Vec<(String, Upload)>) -> (r: Vec<Upload>)
    ensures
        r@ == first_per_chapter(seconds(v@)),
{
    let mut v = v;
    let ghost orig = seconds(v@);
    assert(orig.len() == v@.len());
    let mut seen: Vec<String> = Vec::new();
    let mut out: Vec<Upload> = Vec::new();
    let ghost mut i: int = 0;
    while v.len() > 0
        invariant
            0 <= i <= orig.len(),
            v@.len() == orig.len() - i,
            seconds(v@) == orig.subrange(i, orig.len() as int),
            out@ == first_per_chapter(orig.subrange(0, i)),
            texts(seen@) == out@.map_values(|u: Upload| chapter_key(u)),
        decreases v.len(),
    {
        let ghost old_v = v@;
        let (_, u) = v.remove(0);
        assert(u == seconds(old_v)[0]);
        assert(orig.subrange(0, i + 1).drop_last() =~= orig.subrange(0, i));
        let key = chapter_key_exec(&u);
        let ghost before = out@;
        let ghost before_seen = texts(seen@);
        assert(orig.subrange(0, i + 1).last() == u);
        if !crate::model::contains_text(&seen, &key) {
            seen.push(key);
            out.push(u);
            assert(texts(seen@) =~= before_seen.push(key@));
            assert(out@.map_values(|u: Upload| chapter_key(u)) =~= before.map_values(
                |u: Upload| chapter_key(u),
            ).push(chapter_key(u)));
        }
        proof {
            assert(v@ =~= old_v.subrange(1, old_v.len() as int));
            assert forall|j: int| 0 <= j < v@.len() implies seconds(v@)[j] == orig[i + 1 + j] by {
                assert(v@[j] == old_v[j + 1]);
                assert(seconds(old_v)[j + 1] == old_v[j + 1].1);
            }
            i = i + 1;
            assert(seconds(v@) =~= orig.subrange(i, orig.len() as int));
        }
    }
    assert(orig.subrange(0, i) =~= orig);
    out
}

/// The chapter an upload is listed as.
pub open spec fn listed_as(c: Chapter, u: Upload) -> bool {
    chapter_is(
        c,
        chapter_title_spec(u.number, u.title),
        SITE_BASE@ + "/chapter/"@ + u.id@,
        Some(u.publish_at@),
        opt(u.group),
    )
}

/// The chapters of a work from the uploads of its feed: the uploads sorted
/// by publication time (stably), the first upload of each chapter kept,
/// those sorted by the rank of their chapter number (stably; uploads whose
/// number cannot be read come last), and each listed with its title, its
/// address on the site, its publication time and its group.
pub fn ordered_chapters(uploads: Vec<Upload>) -> (r: Vec<Chapter>)
    ensures
        exists|t: Seq<(String, Upload)>, n: Seq<(Option<u64>, Upload)>|
            {
                &&& stably_sorted(t, by_time(uploads@))
                &&& stably_sorted(n, by_rank(first_per_chapter(seconds(t))))
                &&& r@.len() == n.len()
                &&& forall|k: int| 0 <= k < n.len() ==> listed_as(#[trigger] r@[k], n[k].1)
            },
{
    let timed = stable_sort(keyed_by_time(uploads));
    let ghost t = timed@;
    let firsts = first_per_chapter_exec(timed);
    let mut ranked = stable_sort(keyed_by_rank(firsts));
    let ghost n = ranked@;
    let mut out: Vec<Chapter> = Vec::new();
    let ghost mut i: int = 0;
    while ranked.len() > 0
        invariant
            0 <= i <= n.len(),
            ranked@ == n.subrange(i, n.len() as int),
            out@.len() == i,
            forall|k: int| 0 <= k < i ==> listed_as(#[trigger] out@[k], n[k].1),
        decreases ranked.len(),
    {
        let (_, u) = ranked.remove(0);
        let mut url = chars_of(SITE_BASE);
        push_str(&mut url, "/chapter/");
        push_str(&mut url, u.id.as_str());
        let title = chapter_title(&u.number, &u.title);
        out.push(
            Chapter {
                title,
                url: string_from(url),
                date: Some(u.publish_at),
                scanlation_group: u.group,
            },
        );
        proof {
            i = i + 1;
            assert(ranked@ =~= n.subrange(i, n.len() as int));
        }
    }
    out
}

} // verus!
