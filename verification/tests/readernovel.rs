use manga_vault_plugins::model::{Element, SourceError, WorkKind};
use manga_vault_plugins::readernovel::{
    browse_url, chapter_paragraphs, info, latest_url, parse_items, search_fallback_url,
    search_endpoint, search_headers, search_payload, search_results, trending_url, work_details,
    WorkPage,
};

fn element(text: &str, attrs: &[(&str, &str)]) -> Element {
    Element {
        text: text.to_string(),
        attrs: attrs.iter().map(|(k, v)| (k.to_string(), v.to_string())).collect(),
    }
}

#[test]
fn readernovel_describes_itself() {
    let i = info();
    assert_eq!(i.id, "readernovel");
    assert_eq!(i.name, "ReaderNovel");
    assert_eq!(i.kind, WorkKind::Novel);
    assert_eq!(i.referer_url, Some("https://www.readernovel.net/".to_string()));
}

#[test]
fn readernovel_browse_addresses() {
    assert_eq!(browse_url("date", 1), "https://www.readernovel.net/browse?sort=date&status=0&p=1");
    assert_eq!(search_fallback_url(1), Some("https://www.readernovel.net/browse?sort=name&status=0&p=1".to_string()));
    assert_eq!(search_fallback_url(2), None);
    assert_eq!(latest_url(500), Some("https://www.readernovel.net/browse?sort=date&status=0&p=500".to_string()));
    assert_eq!(latest_url(501), None);
    assert_eq!(trending_url(50), Some("https://www.readernovel.net/browse?sort=popular&status=0&p=50".to_string()));
    assert_eq!(trending_url(51), None);
}

#[test]
fn readernovel_search_request() {
    assert_eq!(search_endpoint(), "https://www.readernovel.net/search");
    let h = search_headers();
    assert_eq!(h[0], ("Content-Type".to_string(), "application/json".to_string()));
    assert_eq!(h[1], ("Accept".to_string(), "application/json".to_string()));
}

#[test]
fn readernovel_search_payload_escapes_the_query() {
    assert_eq!(
        search_payload("say \"hi\" \\o/", "tok"),
        "{\"query\":\"say \\\"hi\\\" \\\\o/\",\"_token\":\"tok\"}"
    );
}

#[test]
fn readernovel_search_answers() {
    assert!(search_results(None).is_none());
    assert!(search_results(Some((500, "{\"name\":\"x\"}".into()))).is_none());
    let plain = "[{\"name\":\"Lord\",\"slug\":\"lord\"}]";
    assert!(search_results(Some((200, plain.into()))).is_none());
    let nested = "{\"name\":1,\"data\":[{\"id\":1,\"name\":\"Lord\",\"slug\":\"lord\"}]}";
    let hits = search_results(Some((200, nested.into()))).unwrap();
    assert_eq!(hits.len(), 1);
    assert_eq!(hits[0].title, "Lord");
    assert_eq!(hits[0].url, "https://www.readernovel.net/novel/lord");
    assert_eq!(hits[0].cover_url, None);
    let empty_slug = "{\"name\":1,\"x\":{\"name\":\"Lord\",\"slug\":\"\"}}";
    assert!(search_results(Some((200, empty_slug.into()))).is_none());
}

#[test]
fn readernovel_lists_novels_once() {
    let links = vec![
        element("Text", &[("href", "/novel/a"), ("title", "A")]),
        element("A again", &[("href", "/novel/a")]),
        element("Elsewhere", &[("href", "https://www.readernovel.net/novel/b")]),
        element("B", &[("href", "/novel/b"), ("title", "")]),
    ];
    let works = parse_items(&links);
    let got: Vec<(String, String)> = works.iter().map(|w| (w.title.clone(), w.url.clone())).collect();
    assert_eq!(
        got,
        vec![
            ("A".to_string(), "https://www.readernovel.net/novel/a".to_string()),
            ("B".to_string(), "https://www.readernovel.net/novel/b".to_string()),
        ]
    );
}

#[test]
fn readernovel_work_details() {
    let page = WorkPage {
        heading: Some("A".into()),
        info_lines: vec![
            "Author: Someone".into(),
            "Authors : UNKNOWN".into(),
            "Author(s): Someone".into(),
            "Status: Ongoing".into(),
            "Status:  ".into(),
            "Genre: x".into(),
            "No colon".into(),
        ],
        description: Some("About".into()),
        genres: vec!["X".into(), "X".into()],
        og_image: None,
        cover_image: Some(element("", &[("src", "img/a.jpg")])),
        chapter_links: vec![
            element("Chapter 2", &[("href", "/novel/a/2"), ("title", "Two")]),
            element("Chapter 1", &[("href", "https://www.readernovel.net/novel/a/1")]),
            element("No link", &[]),
        ],
    };
    let d = work_details("https://www.readernovel.net/novel/a".into(), page);
    assert_eq!(d.title, "A");
    assert_eq!(d.authors, vec!["Someone".to_string()]);
    assert_eq!(d.status, Some("Ongoing".to_string()));
    assert_eq!(d.genres, vec!["X".to_string()]);
    assert_eq!(d.cover_url, Some("https://www.readernovel.net/img/a.jpg".to_string()));
    let got: Vec<(String, String)> = d.chapters.iter().map(|c| (c.title.clone(), c.url.clone())).collect();
    assert_eq!(
        got,
        vec![
            ("Chapter 1".to_string(), "https://www.readernovel.net/novel/a/1".to_string()),
            ("Two".to_string(), "https://www.readernovel.net/novel/a/2".to_string()),
        ]
    );
}

#[test]
fn readernovel_chapter_paragraphs() {
    assert_eq!(chapter_paragraphs(&vec!["P".into(), " ".into()]), Ok(vec!["P".to_string()]));
    assert_eq!(
        chapter_paragraphs(&vec![" ".into()]),
        Err(SourceError::Parse("no content found in chapter page".into()))
    );
}
