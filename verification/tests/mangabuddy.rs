use manga_vault_plugins::mangabuddy::{
    absolute_url, chapter_images, info, latest_url, links_readable, next_data_chapters,
    parse_items, search_url, trending_url, work_details, work_path, NextChapter, WorkPage,
};
use manga_vault_plugins::model::{Element, SourceError, WorkKind};

fn element(text: &str, attrs: &[(&str, &str)]) -> Element {
    Element {
        text: text.to_string(),
        attrs: attrs.iter().map(|(k, v)| (k.to_string(), v.to_string())).collect(),
    }
}

#[test]
fn mangabuddy_describes_itself() {
    let i = info();
    assert_eq!(i.id, "mangabuddy");
    assert_eq!(i.version, "1.0.1");
    assert_eq!(i.kind, WorkKind::Manga);
    assert_eq!(i.referer_url, Some("https://comizy.io/".to_string()));
    assert_eq!(i.base_url, Some("https://comizy.io".to_string()));
}

#[test]
fn mangabuddy_listing_addresses() {
    assert_eq!(search_url("one piece", 3), Some("https://comizy.io/search?q=one%20piece&page=3".to_string()));
    assert_eq!(search_url("x", 21), None);
    assert_eq!(latest_url(10), Some("https://comizy.io/latest?page=10".to_string()));
    assert_eq!(latest_url(11), None);
    assert_eq!(trending_url(1), Some("https://comizy.io/ranking".to_string()));
    assert_eq!(trending_url(2), None);
}

#[test]
fn mangabuddy_lists_work_links_once() {
    let links = vec![
        element("Solo Leveling", &[("href", "/solo-leveling/")]),
        element("text", &[("href", "/blue-lock"), ("title", "Blue Lock")]),
        element("Again", &[("href", "/solo-leveling")]),
        element("Chapter", &[("href", "/solo-leveling/chapter-1")]),
        element("Genres", &[("href", "/genres")]),
        element("Logo", &[("href", "/logo.png")]),
        element("", &[("href", "/untitled")]),
        element("Empty title", &[("href", "/empty-title"), ("title", "")]),
        element("No target", &[]),
    ];
    assert!(links_readable(&links));
    let works = parse_items(&links);
    let got: Vec<(String, String)> = works.iter().map(|w| (w.title.clone(), w.url.clone())).collect();
    assert_eq!(
        got,
        vec![
            ("Solo Leveling".to_string(), "https://comizy.io/solo-leveling".to_string()),
            ("Blue Lock".to_string(), "https://comizy.io/blue-lock".to_string()),
            ("Empty title".to_string(), "https://comizy.io/empty-title".to_string()),
        ]
    );
    assert!(works.iter().all(|w| w.cover_url.is_none()));
    assert!(!links_readable(&vec![element("Home", &[("href", "/")])]));
    assert!(!links_readable(&vec![element("Home", &[("href", "///")])]));
}

#[test]
fn mangabuddy_paths_and_addresses() {
    assert_eq!(work_path("https://comizy.io/solo-leveling/chapter-1"), "solo-leveling");
    assert_eq!(work_path("/solo-leveling"), "solo-leveling");
    assert_eq!(work_path("https://other.test/x/y"), "https:");
    assert_eq!(absolute_url("/solo/chapter-2"), "https://comizy.io/solo/chapter-2");
    assert_eq!(absolute_url("http://cdn.test/a"), "http://cdn.test/a");
}

#[test]
fn mangabuddy_chapters_from_page_data() {
    let items = vec![
        NextChapter { name: Some("Chapter 2".into()), url: Some("/solo/chapter-2".into()), updated_at: Some("2024".into()) },
        NextChapter { name: None, url: Some("/solo/chapter-x".into()), updated_at: None },
        NextChapter { name: Some("Chapter 1".into()), url: Some("https://comizy.io/solo/chapter-1".into()), updated_at: None },
    ];
    let chapters = next_data_chapters(&items);
    assert_eq!(chapters.len(), 2);
    assert_eq!(chapters[0].title, "Chapter 2");
    assert_eq!(chapters[0].url, "https://comizy.io/solo/chapter-2");
    assert_eq!(chapters[0].date, Some("2024".to_string()));
    assert_eq!(chapters[1].url, "https://comizy.io/solo/chapter-1");
}

fn page(next: Vec<NextChapter>, links: Vec<Element>) -> WorkPage {
    WorkPage {
        body: "{\"status\":\"Completed\",\"x\":\"status\":\"Ongoing\"}".into(),
        heading: Some("Solo".into()),
        authors: vec!["Chugong".into(), "UPDATING".into(), "".into(), "Chugong".into()],
        description: Some("About".into()),
        genres: vec!["Action".into(), "Action".into(), "".into(), "Fantasy".into()],
        cover: Some("/covers/solo.jpg".into()),
        next_chapters: next,
        chapter_links: links,
    }
}

#[test]
fn mangabuddy_work_details() {
    let url = "https://comizy.io/solo".to_string();
    let links = vec![
        element("Chapter 1", &[("href", "/solo/chapter-1")]),
        element("  Chapter 2", &[("href", "https://comizy.io/solo/chapter-2")]),
        element("Other", &[("href", "/solo/chapter-3")]),
        element("Chapter 9", &[("href", "/other/chapter-9")]),
    ];
    let d = work_details(url.clone(), page(Vec::new(), links));
    assert_eq!(d.title, "Solo");
    assert_eq!(d.authors, vec!["Chugong".to_string()]);
    assert_eq!(d.genres, vec!["Action".to_string(), "Fantasy".to_string()]);
    assert_eq!(d.status, Some("Ongoing".to_string()));
    assert_eq!(d.cover_url, None);
    let titles: Vec<String> = d.chapters.iter().map(|c| c.title.clone()).collect();
    assert_eq!(titles, vec!["  Chapter 2".to_string(), "Chapter 1".to_string()]);
    let next = vec![
        NextChapter { name: Some("New".into()), url: Some("/solo/chapter-2".into()), updated_at: None },
        NextChapter { name: Some("Old".into()), url: Some("/solo/chapter-1".into()), updated_at: None },
    ];
    let d = work_details(url, page(next, Vec::new()));
    let titles: Vec<String> = d.chapters.iter().map(|c| c.title.clone()).collect();
    assert_eq!(titles, vec!["Old".to_string(), "New".to_string()]);
}

#[test]
fn mangabuddy_chapter_images() {
    assert_eq!(chapter_images(vec!["a".into()], &Vec::new()), Ok(vec!["a".to_string()]));
    let images = vec![
        element("", &[("src", "https://s1.cmzcdn.test/1.jpg")]),
        element("", &[("src", "/relative.jpg")]),
        element("", &[("src", "https://s1.cmzcdn.test/1.jpg")]),
        element("", &[("src", "https://s1.cmzcdn.test/2.jpg")]),
    ];
    assert_eq!(
        chapter_images(Vec::new(), &images),
        Ok(vec!["https://s1.cmzcdn.test/1.jpg".to_string(), "https://s1.cmzcdn.test/2.jpg".to_string()])
    );
    assert_eq!(
        chapter_images(Vec::new(), &Vec::new()),
        Err(SourceError::Parse("no images found in chapter page".into()))
    );
}
