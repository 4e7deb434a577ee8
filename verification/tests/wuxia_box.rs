use manga_vault_plugins::model::{Element, SourceError, WorkKind, BROWSER_AGENT};
use manga_vault_plugins::wuxia_box::{
    absolute, chapter_content, request_headers, chapters_url, info, latest_url, parse_chapters, parse_grid, search_endpoint,
    search_headers, search_outcome, search_payload, trending_url, work_details, Card, ChapterItem,
    WorkPage,
};

fn element(text: &str, attrs: &[(&str, &str)]) -> Element {
    Element {
        text: text.to_string(),
        attrs: attrs.iter().map(|(k, v)| (k.to_string(), v.to_string())).collect(),
    }
}

#[test]
fn wuxia_box_describes_itself() {
    let h = request_headers();
    assert_eq!(h[0], ("User-Agent".to_string(), BROWSER_AGENT.to_string()));
    assert_eq!(h[1], ("Referer".to_string(), "https://www.wuxiabox.com/".to_string()));
    let i = info();
    assert_eq!(i.id, "wuxia_box");
    assert_eq!(i.name, "WuxiaBox");
    assert_eq!(i.kind, WorkKind::Novel);
}

#[test]
fn wuxia_box_search_request() {
    assert_eq!(search_endpoint(), "https://www.wuxiabox.com/e/search/index.php");
    assert_eq!(
        search_payload("martial peak", 1),
        Some("show=title&tempid=1&tbname=news&keyboard=martial%20peak".to_string())
    );
    assert_eq!(search_payload("x", 2), None);
    let h = search_headers();
    assert_eq!(h[0], ("User-Agent".to_string(), BROWSER_AGENT.to_string()));
    assert_eq!(h[1], ("Referer".to_string(), "https://www.wuxiabox.com/search.html".to_string()));
    assert_eq!(h[2].1, "application/x-www-form-urlencoded");
    assert_eq!(search_outcome(Some("<li>".into())), Ok("<li>".to_string()));
    assert_eq!(search_outcome(None), Err(SourceError::Network("empty response".into())));
}

#[test]
fn wuxia_box_listing_addresses() {
    assert_eq!(latest_url(10), Some("https://www.wuxiabox.com/list/all/all-newstime-10.html".to_string()));
    assert_eq!(latest_url(11), None);
    assert_eq!(trending_url(1), Some("https://www.wuxiabox.com/list/all/all-onclick-1.html".to_string()));
    assert_eq!(absolute("/novel/x.html"), "https://www.wuxiabox.com/novel/x.html");
}

#[test]
fn wuxia_box_grid() {
    let cards = vec![
        Card {
            link: Some(element("", &[("href", "/novel/mp.html"), ("title", "Martial Peak")])),
            heading: Some("ignored".into()),
            image: Some(element("", &[("data-src", "/img/mp.jpg"), ("src", "/lazy.gif")])),
        },
        Card {
            link: Some(element("", &[("href", "/novel/b.html"), ("title", "")])),
            heading: Some("From heading".into()),
            image: None,
        },
        Card { link: Some(element("", &[("href", "/novel/c.html")])), heading: None, image: None },
        Card { link: Some(element("", &[("title", "No target")])), heading: None, image: None },
    ];
    let works = parse_grid(&cards);
    assert_eq!(works.len(), 2);
    assert_eq!(works[0].title, "Martial Peak");
    assert_eq!(works[0].url, "https://www.wuxiabox.com/novel/mp.html");
    assert_eq!(works[0].cover_url, Some("https://www.wuxiabox.com/img/mp.jpg".to_string()));
    assert_eq!(works[1].title, "From heading");
}

#[test]
fn wuxia_box_chapters() {
    assert_eq!(
        chapters_url("https://www.wuxiabox.com/novel/martial-peak.html/"),
        "https://www.wuxiabox.com/e/extend/fy.php?page=0&wjm=martial-peak&X-Requested-With=XMLHttpRequest"
    );
    let items = vec![
        ChapterItem {
            link: Some(element("", &[("href", "/novel/mp_1.html")])),
            title: Some("Chapter 1".into()),
            time: Some("2024-01-01".into()),
        },
        ChapterItem { link: Some(element("", &[("href", "https://x.test/2")])), title: None, time: None },
        ChapterItem { link: None, title: Some("No link".into()), time: None },
    ];
    let chapters = parse_chapters(&items);
    assert_eq!(chapters.len(), 2);
    assert_eq!(chapters[0].url, "https://www.wuxiabox.com/novel/mp_1.html");
    assert_eq!(chapters[0].date, Some("2024-01-01".to_string()));
    assert_eq!(chapters[1].title, "");
    assert_eq!(chapters[1].url, "https://x.test/2");
}

#[test]
fn wuxia_box_work_details() {
    let page = WorkPage {
        heading: None,
        author: Some("Momo".into()),
        description: None,
        og_image: Some(element("", &[("content", "https://img.test/mp.jpg")])),
    };
    let d = work_details("https://www.wuxiabox.com/novel/mp.html".into(), page, Vec::new());
    assert_eq!(d.title, "https://www.wuxiabox.com/novel/mp.html");
    assert_eq!(d.authors, vec!["Momo".to_string()]);
    assert_eq!(d.cover_url, Some("https://img.test/mp.jpg".to_string()));
    assert!(d.genres.is_empty());
}

#[test]
fn wuxia_box_chapter_content() {
    assert_eq!(chapter_content(Some("<p>x</p>".into())), Ok(vec!["<p>x</p>".to_string()]));
    assert_eq!(chapter_content(None), Err(SourceError::Parse("no chapter content".into())));
}
