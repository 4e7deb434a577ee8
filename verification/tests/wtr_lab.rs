use aes_gcm::aead::{Aead, KeyInit};
use aes_gcm::aes::cipher::consts::U16;
use aes_gcm::aes::Aes256;
use aes_gcm::{AesGcm, Key, Nonce};
use base64::Engine;
use manga_vault_plugins::model::{Chapter, Element, SourceError, WorkKind, BROWSER_AGENT};
use manga_vault_plugins::wtr_lab::{
    absolute, chapter_cipher, chapter_list, chapter_text, chapters_url, decrypt, decrypt_checked,
    headers, info, latest_url, open_chapter, parse_items, post_outcome, reader_request, search_url,
    trending_url, work_details, ApiChapter, Card, ChapterData, SeriesData,
};

fn element(text: &str, attrs: &[(&str, &str)]) -> Element {
    Element {
        text: text.to_string(),
        attrs: attrs.iter().map(|(k, v)| (k.to_string(), v.to_string())).collect(),
    }
}

fn seal(iv: &[u8], plain: &[u8]) -> Vec<u8> {
    let key = Key::<AesGcm<Aes256, U16>>::from_slice(b"IJAFUUxjM25hyzL2AZrn0wl7cESED6Ru");
    AesGcm::<Aes256, U16>::new(key).encrypt(Nonce::from_slice(iv), plain).unwrap()
}

fn encrypted_body(prefix: &str, iv: &[u8], plain: &[u8]) -> String {
    let sealed = seal(iv, plain);
    let split = sealed.len() - 16;
    let engine = base64::engine::general_purpose::STANDARD;
    format!(
        "{prefix}{}:{}:{}",
        engine.encode(iv),
        engine.encode(&sealed[split..]),
        engine.encode(&sealed[..split])
    )
}

#[test]
fn describes_the_source() {
    let i = info();
    assert_eq!(i.id, "wtr_lab");
    assert_eq!(i.name, "WTR-LAB");
    assert_eq!(i.version, "1.0.0");
    assert_eq!(i.kind, WorkKind::Novel);
    assert_eq!(i.icon_url, None);
    assert_eq!(i.referer_url, Some("https://wtr-lab.com/".to_string()));
    assert_eq!(i.base_url, Some("https://wtr-lab.com".to_string()));
}

#[test]
fn sends_referer_agent_and_content_type() {
    let plain = headers(None);
    assert_eq!(plain.len(), 2);
    assert_eq!(plain[0], ("Referer".to_string(), "https://wtr-lab.com/".to_string()));
    assert_eq!(plain[1], ("User-Agent".to_string(), BROWSER_AGENT.to_string()));
    let json = headers(Some("application/json"));
    assert_eq!(json.len(), 3);
    assert_eq!(json[2], ("Content-Type".to_string(), "application/json".to_string()));
}

#[test]
fn answers_of_posts() {
    let url = "https://wtr-lab.com/api/reader/get";
    assert_eq!(post_outcome(url, None), Err(SourceError::Network("empty response".into())));
    assert_eq!(post_outcome(url, Some((200, "{}".into()))), Ok("{}".to_string()));
    assert_eq!(
        post_outcome(url, Some((404, String::new()))),
        Err(SourceError::Network("HTTP 404 for https://wtr-lab.com/api/reader/get".into()))
    );
}

#[test]
fn builds_listing_addresses() {
    assert_eq!(search_url("a b&c"), "https://wtr-lab.com/en/novel-finder?text=a%20b%26c");
    assert_eq!(search_url("é"), "https://wtr-lab.com/en/novel-finder?text=%C3%A9");
    assert_eq!(latest_url(2), "https://wtr-lab.com/en/novel-list?page=2&status=all&orderBy=date&genre=");
    assert_eq!(trending_url(1), "https://wtr-lab.com/en/novel-list?page=1&status=all&orderBy=view&genre=");
    assert_eq!(absolute("/en/novel/1/x"), "https://wtr-lab.com/en/novel/1/x");
    assert_eq!(absolute("https://cdn.test/a.jpg"), "https://cdn.test/a.jpg");
}

#[test]
fn lists_each_novel_once() {
    let cards = vec![
        Card {
            link: Some(element("", &[("href", "/en/novel/1/a"), ("title", "First")])),
            heading: None,
            framed_image: Some(element("", &[("src", "/img/1.jpg")])),
            image: Some(element("", &[("src", "/img/other.jpg")])),
        },
        Card {
            link: Some(element("", &[("href", "/en/novel/2/b")])),
            heading: Some("Second".into()),
            framed_image: None,
            image: Some(element("", &[("src", "https://cdn.test/2.jpg")])),
        },
        Card {
            link: Some(element("", &[("href", "/en/novel/1/a"), ("title", "Again")])),
            heading: None,
            framed_image: None,
            image: None,
        },
        Card {
            link: Some(element("", &[("href", "/en/novel/3/c"), ("title", "  ")])),
            heading: Some("ignored".into()),
            framed_image: None,
            image: None,
        },
        Card { link: None, heading: Some("No link".into()), framed_image: None, image: None },
        Card {
            link: Some(element("", &[("href", "/en/novel/4/d")])),
            heading: None,
            framed_image: Some(element("", &[("alt", "x")])),
            image: Some(element("", &[("src", "/img/4.jpg")])),
        },
    ];
    let works = parse_items(&cards);
    assert_eq!(works.len(), 2);
    assert_eq!(works[0].title, "First");
    assert_eq!(works[0].url, "https://wtr-lab.com/en/novel/1/a");
    assert_eq!(works[0].cover_url, Some("https://wtr-lab.com/img/1.jpg".to_string()));
    assert_eq!(works[1].title, "Second");
    assert_eq!(works[1].cover_url, Some("https://cdn.test/2.jpg".to_string()));
}

fn series(raw_id: Option<i64>, count: Option<i64>) -> SeriesData {
    SeriesData {
        raw_id,
        raw_chapter_count: count,
        raw_title: None,
        title: Some("Title".into()),
        image: Some("/cover.jpg".into()),
        description: Some("About".into()),
        author: Some("Writer".into()),
    }
}

#[test]
fn asks_for_the_whole_chapter_list() {
    assert_eq!(
        chapters_url(&series(Some(42), Some(10))),
        Some("https://wtr-lab.com/api/chapters/42?start=1&end=10".to_string())
    );
    assert_eq!(chapters_url(&series(None, Some(10))), None);
    assert_eq!(chapters_url(&series(Some(42), None)), None);
}

#[test]
fn numbers_chapters_after_the_novel() {
    let items = vec![
        ApiChapter { order: Some(1), title: Some("Start".into()), updated_at: Some("2024-01-01".into()) },
        ApiChapter { order: None, title: Some("No order".into()), updated_at: None },
        ApiChapter { order: Some(2), title: None, updated_at: None },
        ApiChapter { order: Some(3), title: Some("Three".into()), updated_at: None },
    ];
    let chapters = chapter_list("https://wtr-lab.com/en/novel/42/x//", &items);
    assert_eq!(
        chapters,
        vec![
            Chapter {
                title: "#1 Start".into(),
                url: "https://wtr-lab.com/en/novel/42/x/chapter-1".into(),
                date: Some("2024-01-01".into()),
                scanlation_group: None,
            },
            Chapter {
                title: "#3 Three".into(),
                url: "https://wtr-lab.com/en/novel/42/x/chapter-3".into(),
                date: None,
                scanlation_group: None,
            },
        ]
    );
}

#[test]
fn details_come_from_the_page_data() {
    let url = "https://wtr-lab.com/en/novel/42/x".to_string();
    assert_eq!(
        work_details(url.clone(), None, Vec::new()),
        Err(SourceError::Parse("missing WTR-LAB metadata".into()))
    );
    let mut data = series(Some(42), Some(1));
    data.raw_title = Some("Raw".into());
    let details = work_details(url.clone(), Some(data), Vec::new()).unwrap();
    assert_eq!(details.title, "Raw");
    assert_eq!(details.url, url);
    assert_eq!(details.cover_url, Some("https://wtr-lab.com/cover.jpg".to_string()));
    assert_eq!(details.authors, vec!["Writer".to_string()]);
    assert_eq!(details.description, Some("About".to_string()));
    let mut bare = series(None, None);
    bare.title = None;
    bare.author = None;
    bare.image = None;
    let details = work_details(url.clone(), Some(bare), Vec::new()).unwrap();
    assert_eq!(details.title, url);
    assert!(details.authors.is_empty());
    assert_eq!(details.cover_url, None);
}

#[test]
fn requests_chapter_texts() {
    assert_eq!(reader_request(None), Err(SourceError::Parse("missing chapter metadata".into())));
    let meta = |id: Option<i64>, raw: Option<i64>| ChapterData {
        chapter_id: id,
        slug: None,
        name: Some("Ch \"1\"".into()),
        raw_id: raw,
    };
    assert_eq!(reader_request(Some(meta(None, Some(5)))), Err(SourceError::Parse("missing chapter id".into())));
    assert_eq!(reader_request(Some(meta(Some(9), None))), Err(SourceError::Parse("missing series id".into())));
    let (address, body) = reader_request(Some(meta(Some(9), Some(-5)))).unwrap();
    assert_eq!(address, "https://wtr-lab.com/api/reader/get");
    assert_eq!(
        body,
        "{\"chapter_id\":9,\"chapter_no\":\"Ch \\\"1\\\"\",\"force_retry\":\"false\",\"language\":\"en\",\"raw_id\":-5,\"retry\":\"false\",\"translate\":\"web\"}"
    );
    let value: serde_json::Value = serde_json::from_str(&body).unwrap();
    assert_eq!(value["chapter_no"], "Ch \"1\"");
    let slugged = ChapterData { chapter_id: Some(1), slug: Some("s".into()), name: Some("n".into()), raw_id: Some(2) };
    assert!(reader_request(Some(slugged)).unwrap().1.contains("\"chapter_no\":\"s\""));
    let escaped = ChapterData {
        chapter_id: Some(1),
        slug: Some("a\\b\tc\nd\u{1}e\u{1f}/é\u{7f}".into()),
        name: None,
        raw_id: Some(2),
    };
    assert!(reader_request(Some(escaped))
        .unwrap()
        .1
        .contains("\"chapter_no\":\"a\\\\b\\tc\\nd\\u0001e\\u001f/é\u{7f}\","));
    assert_eq!(chapter_cipher(None), Err(SourceError::Parse("missing chapter body".into())));
    assert_eq!(chapter_cipher(Some("x".into())), Ok("x".to_string()));
}

#[test]
fn decrypts_single_texts() {
    let iv = [7u8; 16];
    let body = encrypted_body("str:", &iv, "<p>Hello</p>".as_bytes());
    assert_eq!(decrypt(&body), Ok(vec!["<p>Hello</p>".to_string()]));
    let bare = encrypted_body("", &iv, "plain".as_bytes());
    assert_eq!(decrypt(&bare), Ok(vec!["plain".to_string()]));
}

#[test]
fn decrypts_paragraph_arrays() {
    let iv = [1u8; 16];
    let body = encrypted_body("arr:", &iv, "[\"one\",\"two\"]".as_bytes());
    assert_eq!(decrypt(&body), Ok(vec!["one".to_string(), "two".to_string()]));
    let broken = encrypted_body("arr:", &iv, "not json".as_bytes());
    assert!(matches!(decrypt(&broken), Err(SourceError::Parse(_))));
}

#[test]
fn refuses_malformed_bodies() {
    assert_eq!(
        decrypt("str:abc:def"),
        Err(SourceError::Parse("invalid encrypted chapter format".into()))
    );
    assert_eq!(
        decrypt("a:b:c:d"),
        Err(SourceError::Parse("invalid encrypted chapter format".into()))
    );
    assert!(matches!(decrypt("str:!!!:AAAA:AAAA"), Err(SourceError::Parse(_))));
    let iv = [3u8; 16];
    let body = encrypted_body("str:", &iv, b"secret");
    let mut parts: Vec<String> = body.split(':').map(str::to_string).collect();
    parts[2] = base64::engine::general_purpose::STANDARD.encode([0u8; 16]);
    let forged = parts.join(":");
    assert_eq!(decrypt(&forged), Err(SourceError::Parse("aead::Error".into())));
}

#[test]
fn reports_nonces_of_the_wrong_length() {
    let engine = base64::engine::general_purpose::STANDARD;
    let raw = format!("str:{}:{}:{}", engine.encode([0u8; 12]), engine.encode([0u8; 16]), engine.encode([0u8; 4]));
    assert_eq!(decrypt_checked(&raw), None);
    assert!(decrypt_checked("str:x").is_some());
}

#[test]
fn opens_chapters_and_reads_their_text() {
    let iv = [9u8; 16];
    let sealed = seal(&iv, "text".as_bytes());
    assert_eq!(open_chapter(false, &iv, &sealed), Ok(vec!["text".to_string()]));
    assert_eq!(open_chapter(false, &iv, &sealed[..8]), Err(SourceError::Parse("aead::Error".into())));
    assert_eq!(chapter_text(false, "é".as_bytes().to_vec()), Ok(vec!["é".to_string()]));
    assert!(matches!(chapter_text(false, vec![0xff, 0xfe]), Err(SourceError::Parse(_))));
    assert_eq!(chapter_text(true, b"[\"a\"]".to_vec()), Ok(vec!["a".to_string()]));
}
