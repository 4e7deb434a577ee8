use manga_vault_plugins::mangaread_org::{
    chapter_images, info, is_work_href, latest_url, parse_items, search_url, trending_url,
    work_details, WorkPage,
};
use manga_vault_plugins::model::{Element, SourceError, WorkKind};

fn element(text: &str, attrs: &[(&str, &str)]) -> Element {
    Element {
        text: text.to_string(),
        attrs: attrs.iter().map(|(k, v)| (k.to_string(), v.to_string())).collect(),
    }
}

#[test]
fn mangaread_describes_itself() {
    let i = info();
    assert_eq!(i.id, "mangaread_org");
    assert_eq!(i.name, "MangaRead");
    assert_eq!(i.kind, WorkKind::Manga);
}

#[test]
fn mangaread_listing_addresses() {
    assert_eq!(
        search_url("naruto", 1),
        Some("https://www.mangaread.org/?s=naruto&post_type=wp-manga".to_string())
    );
    assert_eq!(search_url("naruto", 2), None);
    assert_eq!(
        latest_url(100),
        Some("https://www.mangaread.org/manga/?m_orderby=latest&paged=100".to_string())
    );
    assert_eq!(latest_url(101), None);
    assert_eq!(trending_url(20), Some("https://www.mangaread.org/manga/?m_orderby=views&paged=20".to_string()));
    assert_eq!(trending_url(21), None);
}

#[test]
fn mangaread_recognizes_work_links() {
    assert!(is_work_href("https://www.mangaread.org/manga/naruto/"));
    assert!(is_work_href("/manga/naruto?ref=home"));
    assert!(!is_work_href("/manga/naruto/chapter-1/"));
    assert!(!is_work_href("/manga/feed/"));
    assert!(!is_work_href("/manga/"));
    assert!(!is_work_href("/manga/a/b"));
    assert!(!is_work_href("/comics/naruto"));
}

#[test]
fn mangaread_lists_works_once() {
    let links = vec![
        element("Read Naruto Manga Online", &[("href", "/manga/naruto/"), ("title", "/manga/naruto/")]),
        element("ignored", &[("href", "https://www.mangaread.org/manga/bleach/"), ("alt", "Bleach on Hari Manga")]),
        element("Naruto again", &[("href", "https://www.mangaread.org/manga/naruto/")]),
        element("Chapter", &[("href", "/manga/naruto/chapter-1/")]),
        element("Read ", &[("href", "/manga/blank/")]),
    ];
    let works = parse_items(&links);
    let got: Vec<(String, String)> = works.iter().map(|w| (w.title.clone(), w.url.clone())).collect();
    assert_eq!(
        got,
        vec![
            ("Naruto".to_string(), "https://www.mangaread.org/manga/naruto/".to_string()),
            ("Bleach".to_string(), "https://www.mangaread.org/manga/bleach/".to_string()),
        ]
    );
}

#[test]
fn mangaread_work_details() {
    let page = WorkPage {
        heading: Some("Naruto".into()),
        authors: vec!["Kishimoto".into(), "Kishimoto".into(), "".into()],
        summaries: vec!["Completed".into(), "A long story about ninjas".into(), "Short".into()],
        genres: vec!["Action".into(), "".into()],
        cover: Some(element("", &[("data-src", "//img.test/c.jpg")])),
        chapter_links: vec![
            element("Chapter 2", &[("href", "/manga/naruto/chapter-2/")]),
            element("", &[("href", "/manga/naruto/chapter-x/")]),
            element("Chapter 1", &[("href", "https://www.mangaread.org/manga/naruto/chapter-1/")]),
        ],
    };
    let d = work_details("https://www.mangaread.org/manga/naruto/".into(), page);
    assert_eq!(d.title, "Naruto");
    assert_eq!(d.authors, vec!["Kishimoto".to_string()]);
    assert_eq!(d.status, Some("Completed".to_string()));
    assert_eq!(d.description, Some("A long story about ninjas".to_string()));
    assert_eq!(d.genres, vec!["Action".to_string()]);
    assert_eq!(d.cover_url, Some("https://img.test/c.jpg".to_string()));
    let got: Vec<(String, String)> = d.chapters.iter().map(|c| (c.title.clone(), c.url.clone())).collect();
    assert_eq!(
        got,
        vec![
            ("Chapter 1".to_string(), "https://www.mangaread.org/manga/naruto/chapter-1/".to_string()),
            ("Chapter 2".to_string(), "https://www.mangaread.org/manga/naruto/chapter-2/".to_string()),
        ]
    );
}

#[test]
fn mangaread_description_prefers_the_last_longest() {
    let page = WorkPage {
        heading: None,
        authors: Vec::new(),
        summaries: vec!["abcd".into(), "é€".into(), "".into()],
        genres: Vec::new(),
        cover: None,
        chapter_links: Vec::new(),
    };
    let d = work_details("u".into(), page);
    assert_eq!(d.description, Some("é€".to_string()));
    assert_eq!(d.status, None);
    assert_eq!(d.title, "u");
}

#[test]
fn mangaread_chapter_images() {
    let images = vec![
        element("", &[("src", " https://img.test/1.jpg ")]),
        element("", &[("data-src", "https://img.test/2.jpg")]),
        element("", &[("src", "https://img.test/1.jpg")]),
        element("", &[("src", "/local.jpg")]),
    ];
    assert_eq!(
        chapter_images(&images),
        Ok(vec!["https://img.test/1.jpg".to_string(), "https://img.test/2.jpg".to_string()])
    );
    assert_eq!(
        chapter_images(&vec![element("", &[])]),
        Err(SourceError::Parse("no images found in chapter page".into()))
    );
}
