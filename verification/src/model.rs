//! The values a source hands to the host, the model of the HTML elements
//! the host hands to a source, and the helpers that all sources share.
use vstd::prelude::*;
use crate::text::{
    after, after_exec, chars_of, contains, contains_exec, decimal, decimal_exec, eq_str, find,
    find_exec, join3, lemma_find_from_some, pieces, pieces_exec, push_all, push_str, slice_chars,
    string_of, trim, trim_exec, starts_with, starts_with_exec,
};

verus! {

// ---------------------------------------------------------------------
// Values handed to the host
// ---------------------------------------------------------------------

/// Why a request of the host could not be answered.
#[derive(Debug, PartialEq, Eq)]
pub enum SourceError {
    Network(String),
    NotFound,
    Parse(String),
}

/// What a source publishes.
#[derive(Debug, PartialEq, Eq)]
pub enum WorkKind {
    Manga,
    Novel,
}

/// The description of a source.
#[derive(Debug, PartialEq, Eq)]
pub struct SourceInfo {
    pub id: String,
    pub name: String,
    pub version: String,
    pub kind: WorkKind,
    pub icon_url: Option<String>,
    pub referer_url: Option<String>,
    pub base_url: Option<String>,
}

/// One entry of a listing.
#[derive(Debug, PartialEq, Eq)]
pub struct WorkSummary {
    pub title: String,
    pub url: String,
    pub cover_url: Option<String>,
}

/// One chapter of a work.
#[derive(Debug, PartialEq, Eq)]
pub struct Chapter {
    pub title: String,
    pub url: String,
    pub date: Option<String>,
    pub scanlation_group: Option<String>,
}

/// Everything a source tells of one work.
#[derive(Debug, PartialEq, Eq)]
pub struct WorkDetails {
    pub title: String,
    pub url: String,
    pub cover_url: Option<String>,
    pub alternative_names: Vec<String>,
    pub authors: Vec<String>,
    pub artists: Vec<String>,
    pub status: Option<String>,
    pub release_date: Option<String>,
    pub description: Option<String>,
    pub genres: Vec<String>,
    pub chapters: Vec<Chapter>,
    pub content_html: Option<String>,
}

// ---------------------------------------------------------------------
// HTML elements, as the host's selector queries return them
// ---------------------------------------------------------------------

/// An element that a selector query of the host matched: its text, as the
/// host extracts it, and the attributes that were asked of it, by name.
#[derive(Debug, PartialEq, Eq)]
pub struct Element {
    pub text: String,
    pub attrs: Vec<(String, String)>,
}

/// The value of the first attribute called `name`.
pub open spec fn attr_of(attrs: Seq<(String, String)>, name: Seq<char>) -> Option<Seq<char>>
    decreases attrs.len(),
{
    if attrs.len() == 0 {
        None
    } else if attrs[0].0@ == name {
        Some(attrs[0].1@)
    } else {
        attr_of(attrs.drop_first(), name)
    }
}

impl Element {
    /// The value of the attribute `name` (`html::attr`).
    pub open spec fn attr_spec(&self, name: Seq<char>) -> Option<Seq<char>> {
        attr_of(self.attrs@, name)
    }

    /// The value of the attribute `name` (`html::attr`).
    pub fn attr(&self, name: &str) -> (r: Option<String>)
        ensures
            opt(r) == self.attr_spec(name@),
    {
        let mut i: usize = 0;
        assert(self.attrs@.subrange(0, self.attrs@.len() as int) =~= self.attrs@);
        while i < self.attrs.len()
            invariant
                i <= self.attrs@.len(),
                attr_of(self.attrs@, name@) == attr_of(self.attrs@.subrange(i as int, self.attrs@.len() as int), name@),
            decreases self.attrs.len() - i,
        {
            assert(self.attrs@.subrange(i as int, self.attrs@.len() as int).drop_first() =~= self.attrs@.subrange(
                i + 1,
                self.attrs@.len() as int,
            ));
            if eq_str(self.attrs[i].0.as_str(), name) {
                return Some(self.attrs[i].1.clone());
            }
            i = i + 1;
        }
        None
    }
}

/// The `data-src` attribute of an image, or else its `src` attribute.
pub open spec fn lazy_src(e: Element) -> Option<Seq<char>> {
    match e.attr_spec("data-src"@) {
        Some(s) => Some(s),
        None => e.attr_spec("src"@),
    }
}

/// `html::attr(e, "data-src").or_else(|| html::attr(e, "src"))`.
pub fn lazy_src_exec(e: &Element) -> (r: Option<String>)
    ensures
        opt(r) == lazy_src(*e),
{
    match e.attr("data-src") {
        Some(s) => Some(s),
        None => e.attr("src"),
    }
}

/// The `src` attribute of an image, or else its `data-src` attribute, or else
/// nothing, trimmed.
pub open spec fn eager_src(e: Element) -> Seq<char> {
    trim(
        match e.attr_spec("src"@) {
            Some(s) => s,
            None => match e.attr_spec("data-src"@) {
                Some(d) => d,
                None => Seq::empty(),
            },
        },
    )
}

/// `html::attr(e, "src").or_else(|| html::attr(e, "data-src")).unwrap_or_default().trim()`.
pub fn eager_src_exec(e: &Element) -> (r: Vec<char>)
    ensures
        r@ == eager_src(*e),
{
    let raw = match e.attr("src") {
        Some(s) => s,
        None => match e.attr("data-src") {
            Some(d) => d,
            None => String::new(),
        },
    };
    let t = chars_of(raw.as_str());
    trim_exec(t.as_slice())
}

// ---------------------------------------------------------------------
// Views
// ---------------------------------------------------------------------

/// The text of an optional string.
pub open spec fn opt(o: Option<String>) -> Option<Seq<char>> {
    match o {
        Some(s) => Some(s@),
        None => None,
    }
}

/// The texts of a list of strings.
pub open spec fn texts(v: Seq<String>) -> Seq<Seq<char>> {
    v.map_values(|s: String| s@)
}

/// The number of bytes of the UTF-8 encoding of a character (`char::len_utf8`).
pub open spec fn char_len_utf8(c: char) -> nat {
    if (c as u32) < 0x80 {
        1
    } else if (c as u32) < 0x800 {
        2
    } else if (c as u32) < 0x10000 {
        3
    } else {
        4
    }
}

/// The number of bytes of the UTF-8 encoding of a text (`str::len`).
pub open spec fn byte_len(t: Seq<char>) -> nat
    decreases t.len(),
{
    if t.len() == 0 {
        0
    } else {
        byte_len(t.drop_last()) + char_len_utf8(t.last())
    }
}

/// The number of bytes of the UTF-8 encoding of a string (`str::len`).
pub fn byte_len_exec(s: &String) -> (r: u128)
    ensures
        r == byte_len(s@),
{
    let t = chars_of(s.as_str());
    let mut n: u128 = 0;
    let mut i: usize = 0;
    while i < t.len()
        invariant
            i <= t@.len(),
            t@ == s@,
            n == byte_len(t@.subrange(0, i as int)),
            n <= 4 * i,
        decreases t.len() - i,
    {
        assert(t@.subrange(0, i + 1).drop_last() =~= t@.subrange(0, i as int));
        let u = t[i] as u32;
        let w: u128 = if u < 0x80 {
            1
        } else if u < 0x800 {
            2
        } else if u < 0x10000 {
            3
        } else {
            4
        };
        n = n + w;
        i = i + 1;
    }
    assert(t@.subrange(0, t@.len() as int) =~= t@);
    n
}

// ---------------------------------------------------------------------
// Helpers shared by the sources
// ---------------------------------------------------------------------

/// A string made of the characters of `v`.
pub fn string_from(v: Vec<char>) -> (r: String)
    ensures
        r@ == v@,
{
    string_of(v.as_slice())
}

/// The texts of `ts` for which `keep` holds, each only the first time it comes.
pub open spec fn distinct_by(ts: Seq<Seq<char>>, keep: spec_fn(Seq<char>) -> bool) -> Seq<Seq<char>>
    decreases ts.len(),
{
    if ts.len() == 0 {
        Seq::empty()
    } else {
        let acc = distinct_by(ts.drop_last(), keep);
        if keep(ts.last()) && !acc.contains(ts.last()) {
            acc.push(ts.last())
        } else {
            acc
        }
    }
}

/// Keeping the texts that pass, each once, loses none of them and adds none:
/// the result has no repetition, and a text is in it exactly when it is in
/// `ts` and passes.
pub proof fn lemma_distinct_by(ts: Seq<Seq<char>>, keep: spec_fn(Seq<char>) -> bool)
    ensures
        distinct_by(ts, keep).no_duplicates(),
        forall|t: Seq<char>| #[trigger] distinct_by(ts, keep).contains(t) <==> (ts.contains(t) && keep(t)),
    decreases ts.len(),
{
    if ts.len() > 0 {
        let init = ts.drop_last();
        let x = ts.last();
        lemma_distinct_by(init, keep);
        let acc = distinct_by(init, keep);
        let d = distinct_by(ts, keep);
        assert(ts == init.push(x));
        assert forall|t: Seq<char>| #[trigger] ts.contains(t) <==> (init.contains(t) || t == x) by {
            if ts.contains(t) {
                let k = choose|k: int| 0 <= k < ts.len() && ts[k] == t;
                if k < ts.len() - 1 {
                    assert(init[k] == t);
                }
            }
            if init.contains(t) {
                let k = choose|k: int| 0 <= k < init.len() && init[k] == t;
                assert(ts[k] == t);
            }
            if t == x {
                assert(ts[ts.len() - 1] == t);
            }
        }
        if keep(x) && !acc.contains(x) {
            assert(d == acc.push(x));
            assert forall|t: Seq<char>| #[trigger] acc.push(x).contains(t) <==> (acc.contains(t) || t == x) by {
                if acc.push(x).contains(t) {
                    let k = choose|k: int| 0 <= k < acc.push(x).len() && acc.push(x)[k] == t;
                    if k < acc.len() {
                        assert(acc[k] == t);
                    }
                }
                if acc.contains(t) {
                    let k = choose|k: int| 0 <= k < acc.len() && acc[k] == t;
                    assert(acc.push(x)[k] == t);
                }
                if t == x {
                    assert(acc.push(x)[acc.len() as int] == t);
                }
            }
            assert forall|a: int, b: int| 0 <= a < d.len() && 0 <= b < d.len() && a != b implies d[a] != d[b] by {
                if a < acc.len() && b < acc.len() {
                } else if a < acc.len() {
                    assert(acc.contains(d[a]));
                } else {
                    assert(acc.contains(d[b]));
                }
            }
        } else {
            assert(d == acc);
        }
    }
}

/// Whether a list of strings holds a text.
pub fn contains_text(v: &Vec<String>, t: &String) -> (r: bool)
    ensures
        r == texts(v@).contains(t@),
{
    let mut i: usize = 0;
    while i < v.len()
        invariant
            i <= v@.len(),
            forall|k: int| 0 <= k < i ==> v@[k]@ != t@,
        decreases v.len() - i,
    {
        if v[i] == *t {
            assert(texts(v@)[i as int] == t@);
            return true;
        }
        i = i + 1;
    }
    assert forall|k: int| 0 <= k < texts(v@).len() implies texts(v@)[k] != t@ by {
        assert(v@[k]@ != t@);
    }
    false
}

/// The non-empty texts of `ts`, each only the first time it comes.
pub fn distinct_nonempty(ts: &Vec<String>) -> (r: Vec<String>)
    ensures
        texts(r@) == distinct_by(texts(ts@), |t: Seq<char>| t.len() > 0),
{
    let mut out: Vec<String> = Vec::new();
    let mut i: usize = 0;
    while i < ts.len()
        invariant
            i <= ts@.len(),
            texts(out@) == distinct_by(texts(ts@).subrange(0, i as int), |t: Seq<char>| t.len() > 0),
        decreases ts.len() - i,
    {
        let t = ts[i].clone();
        assert(texts(ts@).subrange(0, i + 1).drop_last() =~= texts(ts@).subrange(0, i as int));
        let ghost before_push = texts(out@);
        if !t.as_str().is_empty() && !contains_text(&out, &t) {
            out.push(t);
            assert(texts(out@) =~= before_push.push(ts@[i as int]@));
        }
        i = i + 1;
    }
    assert(texts(ts@).subrange(0, ts@.len() as int) =~= texts(ts@));
    out
}

// ---------------------------------------------------------------------
// Answers of the host's HTTP client
// ---------------------------------------------------------------------

/// The browser the sources present themselves as.
pub const BROWSER_AGENT: &'static str =
    "Mozilla/5.0 (Windows NT 10.0; Win64; x64) AppleWebKit/537.36 (KHTML, like Gecko) Chrome/149.0.0.0 Safari/537.36";

/// `h` is the header `name: value`.
pub open spec fn header_is(h: (String, String), name: Seq<char>, value: Seq<char>) -> bool {
    h.0@ == name && h.1@ == value
}

/// The header `name: value`.
pub fn header(name: &str, value: &str) -> (r: (String, String))
    ensures
        header_is(r, name@, value@),
{
    (String::from_str(name), String::from_str(value))
}

/// The headers of a request to the site at `base`: the site's address with
/// a trailing slash as referer, then the browser's user agent.
pub fn referer_and_agent(base: &str) -> (r: Vec<(String, String)>)
    ensures
        r@.len() == 2,
        header_is(r@[0], "Referer"@, base@ + "/"@),
        header_is(r@[1], "User-Agent"@, BROWSER_AGENT@),
{
    let mut referer = chars_of(base);
    push_str(&mut referer, "/");
    let referer = string_from(referer);
    let mut v: Vec<(String, String)> = Vec::new();
    v.push(header("Referer", referer.as_str()));
    v.push(header("User-Agent", BROWSER_AGENT));
    v
}

/// The headers of a request to the site at `base`: the browser's user
/// agent, then the site's address with a trailing slash as referer.
pub fn agent_and_referer(base: &str) -> (r: Vec<(String, String)>)
    ensures
        r@.len() == 2,
        header_is(r@[0], "User-Agent"@, BROWSER_AGENT@),
        header_is(r@[1], "Referer"@, base@ + "/"@),
{
    let mut referer = chars_of(base);
    push_str(&mut referer, "/");
    let referer = string_from(referer);
    let mut v: Vec<(String, String)> = Vec::new();
    v.push(header("User-Agent", BROWSER_AGENT));
    v.push(header("Referer", referer.as_str()));
    v
}

/// `r` is a network error with the message `msg`.
pub open spec fn is_network<T>(r: Result<T, SourceError>, msg: Seq<char>) -> bool {
    r matches Err(SourceError::Network(m)) && m@ == msg
}

/// `r` is a parse error with the message `msg`.
pub open spec fn is_parse<T>(r: Result<T, SourceError>, msg: Seq<char>) -> bool {
    r matches Err(SourceError::Parse(m)) && m@ == msg
}

/// `r` is the text `t`.
pub open spec fn is_text(r: Result<String, SourceError>, t: Seq<char>) -> bool {
    r matches Ok(x) && x@ == t
}

/// The message of a request that was answered with an unexpected status.
pub open spec fn status_message(status: u16, url: Seq<char>) -> Seq<char> {
    "HTTP "@ + decimal(status as nat) + " for "@ + url
}

/// `format!("HTTP {status} for {url}")`.
pub fn status_message_exec(status: u16, url: &str) -> (r: String)
    ensures
        r@ == status_message(status, url@),
{
    let a = chars_of("HTTP ");
    let b = decimal_exec(status as u64);
    let c = chars_of(" for ");
    let d = chars_of(url);
    let mut v = join3(a.as_slice(), b.as_slice(), c.as_slice());
    push_all(&mut v, d.as_slice());
    string_from(v)
}

/// What a GET request for `url` yields, given the host's answer
/// (`None` when it had none; otherwise its status and body) and, when the
/// host found the page behind an anti-bot challenge, the body that the
/// challenge solver fetched (if it fetched one).
pub fn http_outcome(url: &str, response: Option<(u16, String)>, solved: Option<String>) -> (r: Result<
    String,
    SourceError,
>)
    ensures
        response is None ==> is_network(r, "empty response"@),
        response matches Some((status, body)) ==> match solved {
            Some(b) => is_text(r, b@),
            None => if status == 200 {
                is_text(r, body@)
            } else if status == 404 {
                r matches Err(SourceError::NotFound)
            } else {
                is_network(r, status_message(status, url@))
            },
        },
{
    match response {
        None => Err(SourceError::Network(String::from_str("empty response"))),
        Some((status, body)) => match solved {
            Some(b) => Ok(b),
            None => {
                if status == 200 {
                    Ok(body)
                } else if status == 404 {
                    Err(SourceError::NotFound)
                } else {
                    Err(SourceError::Network(status_message_exec(status, url)))
                }
            },
        },
    }
}

// ---------------------------------------------------------------------
// Quoted fields in JSON text
// ---------------------------------------------------------------------

/// The text between `"field":"` and the next `"`, at the first occurrence of
/// `"field":"` in `text`.
pub open spec fn string_field(text: Seq<char>, field: Seq<char>) -> Option<Seq<char>> {
    match after(text, "\""@ + field + "\":\""@) {
        Some(rest) => match find(rest, "\""@) {
            Some(e) => Some(rest.subrange(0, e)),
            None => None,
        },
        None => None,
    }
}

/// The value of the quoted field `field` in a piece of JSON text, found by
/// looking for `"field":"` and reading up to the next quote.
pub fn extract_string_field(text: &str, field: &str) -> (r: Option<String>)
    ensures
        opt(r) == string_field(text@, field@),
{
    let t = chars_of(text);
    let mut key = chars_of("\"");
    push_str(&mut key, field);
    push_str(&mut key, "\":\"");
    match after_exec(t.as_slice(), key.as_slice()) {
        Some(rest) => {
            let q = chars_of("\"");
            match find_exec(rest.as_slice(), q.as_slice()) {
                Some(e) => {
                    proof {
                        lemma_find_from_some(rest@, q@, 0);
                    }
                    Some(string_from(slice_chars(rest.as_slice(), 0, e)))
                },
                None => None,
            }
        },
        None => None,
    }
}

/// The chapter name and slug of one object of a chapter list.
pub open spec fn name_slug(object: Seq<char>) -> Option<(Seq<char>, Seq<char>)> {
    match string_field(object, "chapter_name"@) {
        Some(n) => match string_field(object, "chapter_slug"@) {
            Some(s) => Some((n, s)),
            None => None,
        },
        None => None,
    }
}

/// The names and slugs of the objects that have both, in order.
pub open spec fn name_slugs(objects: Seq<Seq<char>>) -> Seq<(Seq<char>, Seq<char>)>
    decreases objects.len(),
{
    if objects.len() == 0 {
        Seq::empty()
    } else {
        let acc = name_slugs(objects.drop_last());
        match name_slug(objects.last()) {
            Some(p) => acc.push(p),
            None => acc,
        }
    }
}

/// The views of a list of pairs of strings.
pub open spec fn pair_texts(v: Seq<(String, String)>) -> Seq<(Seq<char>, Seq<char>)> {
    v.map_values(|p: (String, String)| (p.0@, p.1@))
}

/// The names and slugs of the objects of a chapter list, given as the text
/// between its brackets: the objects are the pieces between `},{`.
pub fn name_slugs_exec(array: &[char]) -> (r: Vec<(String, String)>)
    ensures
        pair_texts(r@) == name_slugs(pieces(array@, "},{"@)),
{
    let sep = chars_of("},{");
    proof {
        reveal_strlit("},{");
    }
    let objects = pieces_exec(array, sep.as_slice());
    let ghost objs = pieces(array@, sep@);
    let mut out: Vec<(String, String)> = Vec::new();
    let mut i: usize = 0;
    while i < objects.len()
        invariant
            i <= objects@.len(),
            objects@.len() == objs.len(),
            forall|k: int| 0 <= k < objects@.len() ==> #[trigger] objects@[k]@ == objs[k],
            pair_texts(out@) == name_slugs(objs.subrange(0, i as int)),
        decreases objects.len() - i,
    {
        assert(objs.subrange(0, i + 1).drop_last() =~= objs.subrange(0, i as int));
        let object = string_of(objects[i].as_slice());
        let ghost before_push = pair_texts(out@);
        match extract_string_field(object.as_str(), "chapter_name") {
            Some(name) => match extract_string_field(object.as_str(), "chapter_slug") {
                Some(slug) => {
                    out.push((name, slug));
                    assert(pair_texts(out@) =~= before_push.push((name@, slug@)));
                },
                None => {},
            },
            None => {},
        }
        i = i + 1;
    }
    assert(objs.subrange(0, objs.len() as int) =~= objs);
    out
}

// ---------------------------------------------------------------------
// Work pages
// ---------------------------------------------------------------------

/// Some text of `ts` contains `c`.
pub open spec fn mentions(ts: Seq<Seq<char>>, c: Seq<char>) -> bool {
    exists|i: int| 0 <= i < ts.len() && contains(#[trigger] ts[i], c)
}

/// Whether some text of `ts` contains `c`.
pub fn mentions_exec(ts: &Vec<String>, c: &str) -> (r: bool)
    ensures
        r == mentions(texts(ts@), c@),
{
    let p = chars_of(c);
    let mut i: usize = 0;
    while i < ts.len()
        invariant
            i <= ts@.len(),
            p@ == c@,
            forall|k: int| 0 <= k < i ==> !contains(#[trigger] texts(ts@)[k], c@),
        decreases ts.len() - i,
    {
        let si: &str = ts[i].as_str();
        assert(si@ == ts@[i as int]@);
        let t = chars_of(si);
        assert(texts(ts@)[i as int] == ts@[i as int]@);
        if contains_exec(t.as_slice(), p.as_slice()) {
            assert(contains(texts(ts@)[i as int], c@));
            return true;
        }
        i = i + 1;
    }
    false
}

/// The first of the publication states `Ongoing`, `Completed`, `Hiatus`,
/// `Dropped` that some text of `ts` mentions.
pub open spec fn mentioned_status(ts: Seq<Seq<char>>) -> Option<Seq<char>> {
    if mentions(ts, "Ongoing"@) {
        Some("Ongoing"@)
    } else if mentions(ts, "Completed"@) {
        Some("Completed"@)
    } else if mentions(ts, "Hiatus"@) {
        Some("Hiatus"@)
    } else if mentions(ts, "Dropped"@) {
        Some("Dropped"@)
    } else {
        None
    }
}

/// The first of the publication states that some text of `ts` mentions.
pub fn mentioned_status_exec(ts: &Vec<String>) -> (r: Option<String>)
    ensures
        opt(r) == mentioned_status(texts(ts@)),
{
    if mentions_exec(ts, "Ongoing") {
        Some(String::from_str("Ongoing"))
    } else if mentions_exec(ts, "Completed") {
        Some(String::from_str("Completed"))
    } else if mentions_exec(ts, "Hiatus") {
        Some(String::from_str("Hiatus"))
    } else if mentions_exec(ts, "Dropped") {
        Some(String::from_str("Dropped"))
    } else {
        None
    }
}

/// The position of the last of the longest texts (by bytes), as
/// `Iterator::max_by_key` picks it.
pub open spec fn longest_at(ts: Seq<Seq<char>>) -> int
    decreases ts.len(),
{
    if ts.len() <= 1 {
        0
    } else {
        let j = longest_at(ts.drop_last());
        if byte_len(ts.last()) >= byte_len(ts[j]) {
            ts.len() - 1
        } else {
            j
        }
    }
}

/// The text `longest_at` picks is one of the texts, no text has more
/// bytes, and every text after it has fewer.
pub proof fn lemma_longest_at(ts: Seq<Seq<char>>)
    requires
        ts.len() > 0,
    ensures
        0 <= longest_at(ts) < ts.len(),
        forall|j: int| 0 <= j < ts.len() ==> byte_len(#[trigger] ts[j]) <= byte_len(ts[longest_at(ts)]),
        forall|j: int|
            longest_at(ts) < j < ts.len() ==> byte_len(#[trigger] ts[j]) < byte_len(ts[longest_at(ts)]),
    decreases ts.len(),
{
    if ts.len() > 1 {
        let init = ts.drop_last();
        lemma_longest_at(init);
        let k = longest_at(init);
        assert forall|j: int| 0 <= j < init.len() implies #[trigger] ts[j] == init[j] by {}
        assert(ts[k] == init[k]);
    }
}

/// The longest text (the last of them when several are), unless it is empty.
pub open spec fn longest_nonempty(ts: Seq<Seq<char>>) -> Option<Seq<char>> {
    if ts.len() == 0 {
        None
    } else {
        let t = ts[longest_at(ts)];
        if t.len() > 0 {
            Some(t)
        } else {
            None
        }
    }
}

/// `ts.iter().max_by_key(|t| t.len()).filter(|t| !t.is_empty()).cloned()`.
pub fn longest_nonempty_exec(ts: &Vec<String>) -> (r: Option<String>)
    ensures
        opt(r) == longest_nonempty(texts(ts@)),
{
    if ts.len() == 0 {
        return None;
    }
    let mut best: usize = 0;
    let mut i: usize = 1;
    while i < ts.len()
        invariant
            1 <= i <= ts@.len(),
            best < i,
            best as int == longest_at(texts(ts@).subrange(0, i as int)),
        decreases ts.len() - i,
    {
        assert(texts(ts@).subrange(0, i + 1).drop_last() =~= texts(ts@).subrange(0, i as int));
        let li = byte_len_exec(&ts[i]);
        let lb = byte_len_exec(&ts[best]);
        assert(texts(ts@)[i as int] == ts@[i as int]@);
        assert(texts(ts@)[best as int] == ts@[best as int]@);
        assert(li == byte_len(texts(ts@)[i as int]));
        assert(lb == byte_len(texts(ts@)[best as int]));
        assert(texts(ts@).subrange(0, i + 1).last() == texts(ts@)[i as int]);
        assert(texts(ts@).subrange(0, i as int)[best as int] == texts(ts@)[best as int]);
        if li >= lb {
            best = i;
        }
        i = i + 1;
    }
    assert(texts(ts@).subrange(0, ts@.len() as int) =~= texts(ts@));
    assert(texts(ts@)[best as int] == ts@[best as int]@);
    if ts[best].as_str().is_empty() {
        None
    } else {
        Some(ts[best].clone())
    }
}

/// The chapters in reverse order.
pub fn reversed(v: Vec<Chapter>) -> (r: Vec<Chapter>)
    ensures
        r@ == v@.reverse(),
{
    let mut v = v;
    let ghost orig = v@;
    let mut out: Vec<Chapter> = Vec::new();
    while v.len() > 0
        invariant
            v@.len() <= orig.len(),
            v@ == orig.subrange(0, v@.len() as int),
            out@ == orig.subrange(v@.len() as int, orig.len() as int).reverse(),
        decreases v.len(),
    {
        let ghost n = v@.len();
        let ghost old_v = v@;
        let c = v.pop().unwrap();
        assert(v@ == old_v.drop_last());
        assert(c == orig[n - 1]);
        out.push(c);
        assert(out@ =~= orig.subrange(v@.len() as int, orig.len() as int).reverse());
        assert(v@ =~= orig.subrange(0, v@.len() as int));
    }
    assert(out@ =~= orig.reverse());
    out
}

/// `c` is the chapter with these fields.
pub open spec fn chapter_is(
    c: Chapter,
    title: Seq<char>,
    url: Seq<char>,
    date: Option<Seq<char>>,
    group: Option<Seq<char>>,
) -> bool {
    c.title@ == title && c.url@ == url && opt(c.date) == date && opt(c.scanlation_group) == group
}

/// `w` is the listing entry with these fields.
pub open spec fn summary_is(w: WorkSummary, title: Seq<char>, url: Seq<char>, cover: Option<Seq<char>>) -> bool {
    w.title@ == title && w.url@ == url && opt(w.cover_url) == cover
}

// ---------------------------------------------------------------------
// Listings and chapter lists
// ---------------------------------------------------------------------

/// A listing entry: title, address and cover.
pub type Entry = (Seq<char>, Seq<char>, Option<Seq<char>>);

/// The view of a listing entry.
pub open spec fn entry_of(w: WorkSummary) -> Entry {
    (w.title@, w.url@, opt(w.cover_url))
}

/// The views of listing entries.
pub open spec fn entries(v: Seq<WorkSummary>) -> Seq<Entry> {
    v.map_values(|w: WorkSummary| entry_of(w))
}

/// The addresses of listing entries.
pub open spec fn urls_of(works: Seq<Entry>) -> Seq<Seq<char>> {
    works.map_values(|w: Entry| w.1)
}

/// A candidate entry added to a listing: unless its title is empty or an
/// entry with its address is there already.
pub open spec fn add_new(works: Seq<Entry>, e: Entry) -> Seq<Entry> {
    if e.0.len() == 0 || urls_of(works).contains(e.1) {
        works
    } else {
        works.push(e)
    }
}

/// The listing that a sequence of items gives, each item giving a candidate
/// entry or none.
pub open spec fn collect_new<X>(items: Seq<X>, cand: spec_fn(X) -> Option<Entry>) -> Seq<Entry>
    decreases items.len(),
{
    if items.len() == 0 {
        Seq::empty()
    } else {
        let acc = collect_new(items.drop_last(), cand);
        match cand(items.last()) {
            Some(e) => add_new(acc, e),
            None => acc,
        }
    }
}

/// No address is listed twice.
pub open spec fn distinct_urls(works: Seq<Entry>) -> bool {
    forall|i: int, j: int| 0 <= i < j < works.len() ==> (#[trigger] works[i]).1 != (#[trigger] works[j]).1
}

/// A listing built from candidates lists no address twice and no entry
/// without a title, and lists only candidates of its items.
pub proof fn lemma_listing_distinct<X>(items: Seq<X>, cand: spec_fn(X) -> Option<Entry>)
    ensures
        distinct_urls(collect_new(items, cand)),
        forall|i: int|
            0 <= i < collect_new(items, cand).len() ==> (#[trigger] collect_new(items, cand)[i]).0.len()
                > 0,
        forall|i: int|
            0 <= i < collect_new(items, cand).len() ==> exists|k: int|
                0 <= k < items.len() && #[trigger] cand(items[k]) == Some(
                    #[trigger] collect_new(items, cand)[i],
                ),
    decreases items.len(),
{
    if items.len() > 0 {
        let init = items.drop_last();
        lemma_listing_distinct(init, cand);
        let acc = collect_new(init, cand);
        let out = collect_new(items, cand);
        assert forall|i: int| 0 <= i < acc.len() implies exists|k: int|
            0 <= k < items.len() && #[trigger] cand(items[k]) == Some(#[trigger] acc[i]) by {
            let k = choose|k: int| 0 <= k < init.len() && #[trigger] cand(init[k]) == Some(#[trigger] acc[i]);
            assert(items[k] == init[k]);
        }
        match cand(items.last()) {
            Some(e) => {
                if !(e.0.len() == 0 || urls_of(acc).contains(e.1)) {
                    assert(out == acc.push(e));
                    assert forall|i: int| 0 <= i < acc.len() implies acc[i].1 != e.1 by {
                        assert(urls_of(acc)[i] == acc[i].1);
                    }
                    assert(cand(items[items.len() - 1]) == Some(out[acc.len() as int]));
                }
            },
            None => {},
        }
    }
}

/// Adds a candidate entry to a listing unless its title is empty or its
/// address is listed already.
pub fn push_if_new(out: &mut Vec<WorkSummary>, w: WorkSummary)
    ensures
        entries(final(out)@) == add_new(entries(old(out)@), entry_of(w)),
{
    let ghost before = entries(out@);
    if w.title.as_str().is_empty() {
        return;
    }
    let mut i: usize = 0;
    while i < out.len()
        invariant
            i <= out@.len(),
            before == entries(out@),
            forall|k: int| 0 <= k < i ==> out@[k].url@ != w.url@,
        decreases out.len() - i,
    {
        if out[i].url == w.url {
            assert(urls_of(before)[i as int] == w.url@);
            return;
        }
        i = i + 1;
    }
    assert(!urls_of(before).contains(w.url@)) by {
        if urls_of(before).contains(w.url@) {
            let k = choose|k: int|
                0 <= k < before.len() && #[trigger] urls_of(before)[k] == w.url@;
            assert(out@[k].url@ == w.url@);
        }
    }
    out.push(w);
    assert(entries(out@) =~= before.push(entry_of(w)));
}

/// A chapter: title, address, date and group.
pub type ChapterView = (Seq<char>, Seq<char>, Option<Seq<char>>, Option<Seq<char>>);

/// The view of a chapter.
pub open spec fn chapter_of(c: Chapter) -> ChapterView {
    (c.title@, c.url@, opt(c.date), opt(c.scanlation_group))
}

/// The views of chapters.
pub open spec fn chapter_views(v: Seq<Chapter>) -> Seq<ChapterView> {
    v.map_values(|c: Chapter| chapter_of(c))
}

/// What a sequence of items gives, each item giving one value or none.
pub open spec fn collect_some<X, Y>(items: Seq<X>, f: spec_fn(X) -> Option<Y>) -> Seq<Y>
    decreases items.len(),
{
    if items.len() == 0 {
        Seq::empty()
    } else {
        let acc = collect_some(items.drop_last(), f);
        match f(items.last()) {
            Some(c) => acc.push(c),
            None => acc,
        }
    }
}

/// A chapter with neither date nor group.
pub fn plain_chapter(title: String, url: String) -> (r: Chapter)
    ensures
        chapter_of(r) == (title@, url@, None::<Seq<char>>, None::<Seq<char>>),
{
    Chapter { title, url, date: None, scanlation_group: None }
}

/// Appends a chapter to a chapter list.
pub fn push_chapter(out: &mut Vec<Chapter>, c: Chapter)
    ensures
        chapter_views(final(out)@) == chapter_views(old(out)@).push(chapter_of(c)),
{
    let ghost before = chapter_views(out@);
    out.push(c);
    assert(chapter_views(out@) =~= before.push(chapter_of(c)));
}

// ---------------------------------------------------------------------
// Addresses
// ---------------------------------------------------------------------

/// A link target made absolute on `base`: kept when it starts with `http`.
pub open spec fn absolute_on(base: Seq<char>, href: Seq<char>) -> Seq<char> {
    if starts_with(href, "http"@) {
        href
    } else {
        base + href
    }
}

/// A link target made absolute on `base`: kept when it starts with `http`.
pub fn absolute_on_exec(base: &str, href: &str) -> (r: String)
    ensures
        r@ == absolute_on(base@, href@),
{
    let h = chars_of(href);
    let http = chars_of("http");
    if starts_with_exec(h.as_slice(), http.as_slice()) {
        String::from_str(href)
    } else {
        let mut v = chars_of(base);
        push_all(&mut v, h.as_slice());
        string_from(v)
    }
}

/// An image address made absolute on `base`: an `http://` or `https://`
/// address is kept, `//host/..` gets `https:`, a path gets `base`, anything
/// else gets `base` and a slash.
pub open spec fn resolve_on(base: Seq<char>, url: Seq<char>) -> Seq<char> {
    if starts_with(url, "http://"@) || starts_with(url, "https://"@) {
        url
    } else if starts_with(url, "//"@) {
        "https:"@ + url
    } else if starts_with(url, "/"@) {
        base + url
    } else {
        base + "/"@ + url
    }
}

/// An image address made absolute on `base`.
pub fn resolve_on_exec(base: &str, url: &str) -> (r: String)
    ensures
        r@ == resolve_on(base@, url@),
{
    let u = chars_of(url);
    let a = chars_of("http://");
    let b = chars_of("https://");
    let c = chars_of("//");
    let d = chars_of("/");
    if starts_with_exec(u.as_slice(), a.as_slice()) || starts_with_exec(u.as_slice(), b.as_slice()) {
        String::from_str(url)
    } else if starts_with_exec(u.as_slice(), c.as_slice()) {
        let mut v = chars_of("https:");
        push_all(&mut v, u.as_slice());
        string_from(v)
    } else if starts_with_exec(u.as_slice(), d.as_slice()) {
        let mut v = chars_of(base);
        push_all(&mut v, u.as_slice());
        string_from(v)
    } else {
        let mut v = chars_of(base);
        push_str(&mut v, "/");
        push_all(&mut v, u.as_slice());
        string_from(v)
    }
}

/// The cover a novel page gives: the `content` of its `og:image` meta tag,
/// or else the lazy source of its cover image, made absolute on `base`.
pub open spec fn page_cover_on(base: Seq<char>, og: Option<Element>, image: Option<Element>) -> Option<
    Seq<char>,
> {
    let found = match og {
        Some(m) => m.attr_spec("content"@),
        None => None,
    };
    let found = match found {
        Some(u) => Some(u),
        None => match image {
            Some(i) => lazy_src(i),
            None => None,
        },
    };
    match found {
        Some(u) => Some(resolve_on(base, u)),
        None => None,
    }
}

/// The cover a novel page gives, made absolute on `base`.
pub fn page_cover_on_exec(base: &str, og: &Option<Element>, image: &Option<Element>) -> (r: Option<
    String,
>)
    ensures
        opt(r) == page_cover_on(base@, *og, *image),
{
    let found = match og {
        Some(m) => m.attr("content"),
        None => None,
    };
    let found = match found {
        Some(u) => Some(u),
        None => match image {
            Some(i) => lazy_src_exec(i),
            None => None,
        },
    };
    match found {
        Some(u) => Some(resolve_on_exec(base, u.as_str())),
        None => None,
    }
}

// ---------------------------------------------------------------------
// Texts
// ---------------------------------------------------------------------

/// The texts that are not blank.
pub open spec fn non_blank(ts: Seq<Seq<char>>) -> Seq<Seq<char>>
    decreases ts.len(),
{
    if ts.len() == 0 {
        Seq::empty()
    } else {
        let acc = non_blank(ts.drop_last());
        if trim(ts.last()).len() > 0 {
            acc.push(ts.last())
        } else {
            acc
        }
    }
}

/// The paragraphs kept are exactly those whose trimmed text is not empty,
/// in their order and each as often as it occurs: no line is dropped for
/// repeating an earlier one.
pub proof fn lemma_non_blank_keeps_every_filled_text(ts: Seq<Seq<char>>)
    ensures
        non_blank(ts) == ts.filter(|t: Seq<char>| trim(t).len() > 0),
    decreases ts.len(),
{
    reveal(Seq::filter);
    if ts.len() > 0 {
        lemma_non_blank_keeps_every_filled_text(ts.drop_last());
    }
}

/// The texts that are not blank (`!text.trim().is_empty()`), in order.
pub fn non_blank_exec(ts: &Vec<String>) -> (r: Vec<String>)
    ensures
        texts(r@) == non_blank(texts(ts@)),
{
    let mut out: Vec<String> = Vec::new();
    let mut i: usize = 0;
    while i < ts.len()
        invariant
            i <= ts@.len(),
            texts(out@) == non_blank(texts(ts@).subrange(0, i as int)),
        decreases ts.len() - i,
    {
        assert(texts(ts@).subrange(0, i + 1).drop_last() =~= texts(ts@).subrange(0, i as int));
        let c = chars_of(ts[i].as_str());
        let t = trim_exec(c.as_slice());
        let ghost before = texts(out@);
        if t.len() > 0 {
            out.push(ts[i].clone());
            assert(texts(out@) =~= before.push(ts@[i as int]@));
        }
        i = i + 1;
    }
    assert(texts(ts@).subrange(0, ts@.len() as int) =~= texts(ts@));
    out
}

/// The texts that are not empty.
pub open spec fn nonempty_texts(ts: Seq<Seq<char>>) -> Seq<Seq<char>>
    decreases ts.len(),
{
    if ts.len() == 0 {
        Seq::empty()
    } else {
        let acc = nonempty_texts(ts.drop_last());
        if ts.last().len() > 0 {
            acc.push(ts.last())
        } else {
            acc
        }
    }
}

/// The texts that are not empty, in order.
pub fn nonempty_texts_exec(ts: &Vec<String>) -> (r: Vec<String>)
    ensures
        texts(r@) == nonempty_texts(texts(ts@)),
{
    let mut out: Vec<String> = Vec::new();
    let mut i: usize = 0;
    while i < ts.len()
        invariant
            i <= ts@.len(),
            texts(out@) == nonempty_texts(texts(ts@).subrange(0, i as int)),
        decreases ts.len() - i,
    {
        assert(texts(ts@).subrange(0, i + 1).drop_last() =~= texts(ts@).subrange(0, i as int));
        let ghost before = texts(out@);
        if !ts[i].as_str().is_empty() {
            out.push(ts[i].clone());
            assert(texts(out@) =~= before.push(ts@[i as int]@));
        }
        i = i + 1;
    }
    assert(texts(ts@).subrange(0, ts@.len() as int) =~= texts(ts@));
    out
}

/// A string whose text is not empty.
pub open spec fn filled(o: Option<String>) -> Option<Seq<char>> {
    match o {
        Some(s) => if s@.len() > 0 {
            Some(s@)
        } else {
            None
        },
        None => None,
    }
}

/// `o.filter(|s| !s.is_empty())`.
pub fn filled_exec(o: Option<String>) -> (r: Option<String>)
    ensures
        opt(r) == filled(o),
{
    match o {
        Some(s) => if s.as_str().is_empty() {
            None
        } else {
            Some(s)
        },
        None => None,
    }
}

// ---------------------------------------------------------------------
// Numbers
// ---------------------------------------------------------------------

/// The value of a sequence of ASCII digits.
pub open spec fn digits_value(s: Seq<char>) -> nat
    decreases s.len(),
{
    if s.len() == 0 {
        0
    } else {
        digits_value(s.drop_last()) * 10 + ((s.last() as u32) - 48) as nat
    }
}

/// All characters are ASCII digits.
pub open spec fn all_digits(s: Seq<char>) -> bool {
    forall|i: int| 0 <= i < s.len() ==> '0' <= #[trigger] s[i] && s[i] <= '9'
}

/// An unsigned number as `str::parse` reads it, when it is at most `max`:
/// an optional `+`, then at least one ASCII digit and nothing else.
pub open spec fn parse_unsigned(s: Seq<char>, max: nat) -> Option<nat> {
    let d = if s.len() > 0 && s[0] == '+' {
        s.drop_first()
    } else {
        s
    };
    if d.len() > 0 && all_digits(d) && digits_value(d) <= max {
        Some(digits_value(d))
    } else {
        None
    }
}

proof fn lemma_digits_value_monotone(s: Seq<char>, i: int)
    requires
        all_digits(s),
        0 <= i <= s.len(),
    ensures
        digits_value(s.subrange(0, i)) <= digits_value(s),
    decreases s.len() - i,
{
    if i < s.len() {
        lemma_digits_value_monotone(s, i + 1);
        assert(s.subrange(0, i + 1).drop_last() =~= s.subrange(0, i));
        assert(digits_value(s.subrange(0, i + 1)) == digits_value(s.subrange(0, i)) * 10 + ((
        s[i] as u32) - 48) as nat);
    } else {
        assert(s.subrange(0, i) =~= s);
    }
}

/// `str::parse::<u64>` with a bound: the value, when the text is a number
/// of at most `max`.
pub fn parse_unsigned_exec(s: &str, max: u64) -> (r: Option<u64>)
    ensures
        r matches Some(v) ==> parse_unsigned(s@, max as nat) == Some(v as nat),
        r is None ==> parse_unsigned(s@, max as nat) is None,
{
    let t = chars_of(s);
    let start: usize = if t.len() > 0 && t[0] == '+' {
        1
    } else {
        0
    };
    let d = slice_chars(t.as_slice(), start, t.len());
    assert(d@ =~= if s@.len() > 0 && s@[0] == '+' {
        s@.drop_first()
    } else {
        s@
    });
    if d.len() == 0 {
        return None;
    }
    let ghost dspec = if s@.len() > 0 && s@[0] == '+' {
        s@.drop_first()
    } else {
        s@
    };
    let mut value: u64 = 0;
    let mut i: usize = 0;
    while i < d.len()
        invariant
            i <= d@.len(),
            d@ == dspec,
            dspec == (if s@.len() > 0 && s@[0] == '+' {
                s@.drop_first()
            } else {
                s@
            }),
            all_digits(d@.subrange(0, i as int)),
            value == digits_value(d@.subrange(0, i as int)),
            value <= max,
        decreases d.len() - i,
    {
        assert(d@.subrange(0, i + 1).drop_last() =~= d@.subrange(0, i as int));
        let c = d[i];
        if !('0' <= c && c <= '9') {
            assert(!('0' <= d@[i as int] && d@[i as int] <= '9'));
            assert(!all_digits(d@));
            return None;
        }
        let digit = (c as u32 - 48) as u64;
        let next: u128 = value as u128 * 10 + digit as u128;
        assert(all_digits(d@.subrange(0, i + 1)));
        assert(next == digits_value(d@.subrange(0, i + 1)));
        if next > max as u128 {
            proof {
                if all_digits(d@) {
                    lemma_digits_value_monotone(d@, i + 1);
                }
            }
            return None;
        }
        value = next as u64;
        i = i + 1;
    }
    assert(d@.subrange(0, d@.len() as int) =~= d@);
    Some(value)
}

} // verus!
