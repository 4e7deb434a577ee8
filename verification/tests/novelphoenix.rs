use manga_vault_plugins::model::{Chapter, Element, SourceError, WorkKind};
use manga_vault_plugins::novelphoenix::{
    chapter_links, chapter_page_step, chapter_paragraphs, chapters_page_url, info, latest_url, parse_items,
    search_url, trending_url, work_details, WorkPage, LAST_CHAPTER_PAGE,
};

fn element(text: &str, attrs: &[(&str, &str)]) -> Element {
    Element {
        text: text.to_string(),
        attrs: attrs.iter().map(|(k, v)| (k.to_string(), v.to_string())).collect(),
    }
}

#[test]
fn novelphoenix_describes_itself() {
    let i = info();
    assert_eq!(i.id, "novelphoenix");
    assert_eq!(i.version, "1.0.1");
    assert_eq!(i.kind, WorkKind::Novel);
    assert_eq!(i.base_url, Some("https://novelphoenix.com".to_string()));
}

#[test]
fn novelphoenix_listing_addresses() {
    assert_eq!(
        search_url("lord of mysteries", 100),
        Some("https://novelphoenix.com/search?keyword=lord%20of%20mysteries&page=100".to_string())
    );
    assert_eq!(search_url("x", 101), None);
    assert_eq!(latest_url(500), Some("https://novelphoenix.com/latest-release-novels?page=500".to_string()));
    assert_eq!(latest_url(501), None);
    assert_eq!(
        trending_url(50),
        Some("https://novelphoenix.com/genre-all/sort-popular/status-all/all-novel?page=50".to_string())
    );
    assert_eq!(trending_url(51), None);
}

#[test]
fn novelphoenix_lists_novels_once() {
    let links = vec![
        element("text", &[("href", "/novel/lotm"), ("title", "Lord of Mysteries | NovelFire")]),
        element("Chapter 1", &[("href", "/novel/lotm/chapter-1")]),
        element(" Shadow Slave ", &[("href", "/novel/shadow"), ("title", "")]),
        element("Lord of Mysteries", &[("href", "/novel/lotm")]),
        element(" | NovelFire", &[("href", "/novel/empty")]),
    ];
    let works = parse_items(&links);
    let got: Vec<(String, String)> = works.iter().map(|w| (w.title.clone(), w.url.clone())).collect();
    assert_eq!(
        got,
        vec![
            ("Lord of Mysteries".to_string(), "https://novelphoenix.com/novel/lotm".to_string()),
            ("Shadow Slave".to_string(), "https://novelphoenix.com/novel/shadow".to_string()),
        ]
    );
}

#[test]
fn novelphoenix_chapter_lists() {
    assert_eq!(
        chapters_page_url("https://novelphoenix.com/novel/lotm//", 3),
        "https://novelphoenix.com/novel/lotm/chapters?page=3"
    );
    let links = vec![
        element("Chapter 1", &[("href", "/novel/lotm/chapter-1")]),
        element("", &[("href", "/novel/lotm/chapter-x")]),
        element("Chapter 2", &[("href", "https://novelphoenix.com/novel/lotm/chapter-2")]),
        element("No link", &[]),
    ];
    assert_eq!(
        chapter_links(&links),
        vec![
            Chapter {
                title: "Chapter 1".into(),
                url: "https://novelphoenix.com/novel/lotm/chapter-1".into(),
                date: None,
                scanlation_group: None,
            },
            Chapter {
                title: "Chapter 2".into(),
                url: "https://novelphoenix.com/novel/lotm/chapter-2".into(),
                date: None,
                scanlation_group: None,
            },
        ]
    );
}

#[test]
fn novelphoenix_chapter_list_paging() {
    let links = vec![
        element("Chapter 1", &[("href", "/novel/lotm/chapter-1")]),
        element("", &[("href", "/novel/lotm/chapter-x")]),
    ];
    let mut acc: Vec<Chapter> = Vec::new();
    assert!(chapter_page_step(1, &links, &mut acc));
    assert_eq!(acc.len(), 1);
    assert_eq!(acc[0].url, "https://novelphoenix.com/novel/lotm/chapter-1");
    // A page without a readable chapter link ends the list.
    assert!(!chapter_page_step(2, &vec![element("", &[("href", "/x")])], &mut acc));
    assert_eq!(acc.len(), 1);
    // The last page that is read ends the list after adding its chapters.
    assert!(chapter_page_step(LAST_CHAPTER_PAGE - 1, &links, &mut acc));
    assert!(!chapter_page_step(LAST_CHAPTER_PAGE, &links, &mut acc));
    assert_eq!(acc.len(), 3);
}

fn page(ongoing: bool, completed: bool) -> WorkPage {
    WorkPage {
        title_heading: None,
        heading: Some("Lord of Mysteries".into()),
        authors: vec!["Cuttlefish".into(), "".into()],
        ongoing,
        completed,
        description: Some("A story".into()),
        genres: vec!["Fantasy".into(), "Fantasy".into(), "Mystery".into()],
        og_image: Some(element("", &[("content", "//img.test/lotm.jpg")])),
        cover_image: None,
        chapter_links: vec![element("Chapter 1", &[("href", "/novel/lotm/chapter-1")])],
    }
}

#[test]
fn novelphoenix_work_details() {
    let url = "https://novelphoenix.com/novel/lotm".to_string();
    let paged = || vec![Chapter { title: "P".into(), url: "p".into(), date: None, scanlation_group: None }];
    let d = work_details(url.clone(), page(true, true), paged());
    assert_eq!(d.title, "Lord of Mysteries");
    assert_eq!(d.authors, vec!["Cuttlefish".to_string()]);
    assert_eq!(d.status, Some("Ongoing".to_string()));
    assert_eq!(d.genres, vec!["Fantasy".to_string(), "Mystery".to_string()]);
    assert_eq!(d.cover_url, Some("https://img.test/lotm.jpg".to_string()));
    assert_eq!(d.chapters, paged());
    let d = work_details(url.clone(), page(false, true), Vec::new());
    assert_eq!(d.status, Some("Completed".to_string()));
    assert_eq!(d.chapters.len(), 1);
    assert_eq!(d.chapters[0].url, "https://novelphoenix.com/novel/lotm/chapter-1");
    assert_eq!(work_details(url, page(false, false), Vec::new()).status, None);
}

#[test]
fn novelphoenix_chapter_paragraphs() {
    let blank = vec!["  ".to_string()];
    assert_eq!(
        chapter_paragraphs(&vec!["One".into(), " ".into()], &vec!["Other".into()]),
        Ok(vec!["One".to_string()])
    );
    assert_eq!(chapter_paragraphs(&blank, &vec!["Other".into()]), Ok(vec!["Other".to_string()]));
    assert_eq!(
        chapter_paragraphs(&blank, &blank),
        Err(SourceError::Parse("no content found in chapter page".into()))
    );
}
