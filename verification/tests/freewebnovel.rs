use manga_vault_plugins::freewebnovel::{
    chapter_page_html, chapter_page_url, chapter_paragraphs, info, latest_url, parse_chapters,
    parse_grid, search_url, total_pages, trending_url, work_details, GridCard, WorkPage,
};
use manga_vault_plugins::model::{Chapter, Element, SourceError, WorkKind};

fn element(text: &str, attrs: &[(&str, &str)]) -> Element {
    Element {
        text: text.to_string(),
        attrs: attrs.iter().map(|(k, v)| (k.to_string(), v.to_string())).collect(),
    }
}

#[test]
fn freewebnovel_describes_itself() {
    let i = info();
    assert_eq!(i.id, "freewebnovel");
    assert_eq!(i.name, "FreeWebNovel");
    assert_eq!(i.version, "1.0.3");
    assert_eq!(i.kind, WorkKind::Novel);
    assert_eq!(i.referer_url, Some("https://freewebnovel.com".to_string()));
}

#[test]
fn freewebnovel_listing_addresses() {
    assert_eq!(
        search_url("the king", 1),
        Some("https://freewebnovel.com/search?keyword=the%20king".to_string())
    );
    assert_eq!(search_url("x", 2), None);
    assert_eq!(latest_url(10), Some("https://freewebnovel.com/sort/latest-release?p=10".to_string()));
    assert_eq!(latest_url(11), None);
    assert_eq!(trending_url(1), Some("https://freewebnovel.com/sort/most-popular?p=1".to_string()));
    assert_eq!(trending_url(2), None);
}

#[test]
fn freewebnovel_grid_keeps_novels_once() {
    let cards = vec![
        GridCard {
            link: Some(element("Text title", &[("href", "/novel/a"), ("title", "Attr title")])),
            image: Some(element("", &[("data-src", "//img.test/a.jpg"), ("src", "/x.jpg")])),
        },
        GridCard { link: Some(element("Chapter", &[("href", "/novel/a/chapter-1")])), image: None },
        GridCard { link: Some(element("Again", &[("href", "/novel/a")])), image: None },
        GridCard {
            link: Some(element("Second", &[("href", "/novel/b")])),
            image: Some(element("", &[("src", "covers/b.jpg")])),
        },
        GridCard { link: Some(element("", &[("href", "/novel/c")])), image: None },
        GridCard { link: None, image: None },
    ];
    let works = parse_grid(&cards);
    assert_eq!(works.len(), 2);
    assert_eq!(works[0].title, "Attr title");
    assert_eq!(works[0].url, "https://freewebnovel.com/novel/a");
    assert_eq!(works[0].cover_url, Some("https://img.test/a.jpg".to_string()));
    assert_eq!(works[1].title, "Second");
    assert_eq!(works[1].cover_url, Some("https://freewebnovel.com/covers/b.jpg".to_string()));
}

#[test]
fn freewebnovel_chapter_pages() {
    let links = vec![element("Chapter 1", &[("href", "/novel/a/chapter-1")]), element("Odd", &[])];
    assert_eq!(
        parse_chapters(&links),
        vec![
            Chapter {
                title: "Chapter 1".into(),
                url: "https://freewebnovel.com/novel/a/chapter-1".into(),
                date: None,
                scanlation_group: None,
            },
            Chapter { title: "Odd".into(), url: "https://freewebnovel.com".into(), date: None, scanlation_group: None },
        ]
    );
    assert_eq!(total_pages(&Some("7".into())), 7);
    assert_eq!(total_pages(&Some("seven".into())), 1);
    assert_eq!(total_pages(&Some("4294967296".into())), 1);
    assert_eq!(total_pages(&None), 1);
    assert_eq!(
        chapter_page_url("https://freewebnovel.com/novel/a", 2),
        "https://freewebnovel.com/novel/a?ajax=chapters&page=2&pageSize=40"
    );
    assert_eq!(
        chapter_page_url("https://freewebnovel.com/novel/a?x=1", 3),
        "https://freewebnovel.com/novel/a?x=1&ajax=chapters&page=3&pageSize=40"
    );
    assert_eq!(chapter_page_html(Ok(Some("<a>".into()))), Ok("<a>".to_string()));
    assert_eq!(
        chapter_page_html(Ok(None)),
        Err(SourceError::Parse("missing chapter page html".into()))
    );
    assert_eq!(chapter_page_html(Err("bad json".into())), Err(SourceError::Parse("bad json".into())));
}

#[test]
fn freewebnovel_work_details() {
    let page = WorkPage {
        heading: None,
        authors: vec!["A".into()],
        description: Some(String::new()),
        genres: vec!["Action".into()],
        status: Some("Ongoing".into()),
        og_image: None,
        cover_image: Some(element("", &[("src", "/c.jpg")])),
    };
    let url = "https://freewebnovel.com/novel/a".to_string();
    let d = work_details(url.clone(), page, Vec::new());
    assert_eq!(d.title, url);
    assert_eq!(d.description, None);
    assert_eq!(d.status, Some("Ongoing".to_string()));
    assert_eq!(d.cover_url, Some("https://freewebnovel.com/c.jpg".to_string()));
    assert_eq!(d.authors, vec!["A".to_string()]);
    assert_eq!(
        chapter_paragraphs(&vec!["One".into(), "  ".into(), "Two".into()]),
        vec!["One".to_string(), "Two".to_string()]
    );
}
