use manga_vault_plugins::hari_manga::{
    chapter_images, chapters_api_url, chapters_from_api, clean_title, info, is_placeholder_title,
    latest_url, normalize_image_url, parse_items, search_url, trending_url, work_details,
    ListingLink, WorkPage,
};
use manga_vault_plugins::model::{Chapter, Element, SourceError, WorkKind};

fn element(text: &str, attrs: &[(&str, &str)]) -> Element {
    Element {
        text: text.to_string(),
        attrs: attrs.iter().map(|(k, v)| (k.to_string(), v.to_string())).collect(),
    }
}

#[test]
fn normalizes_image_urls() {
    assert_eq!(
        normalize_image_url("https://cdn.example.test//thumb/a.webp"),
        Some("https://cdn.example.test/thumb/a.webp".into())
    );
    assert_eq!(
        normalize_image_url("//cdn.example.test/thumb/a.webp"),
        Some("https://cdn.example.test/thumb/a.webp".into())
    );
}

#[test]
fn recognizes_read_overlay_text() {
    assert!(is_placeholder_title("Read"));
    assert!(!is_placeholder_title("My Dad Is Too Strong"));
}

#[test]
fn cleans_listing_titles() {
    assert_eq!(clean_title("Read My Dad Is Too Strong Manga Online"), "My Dad Is Too Strong");
}

#[test]
fn hari_normalizes_more_image_forms() {
    assert_eq!(
        normalize_image_url("  /wp-content/a.jpg "),
        Some("https://www.harimanga.co.uk/wp-content/a.jpg".into())
    );
    assert_eq!(normalize_image_url("   "), None);
    assert_eq!(normalize_image_url("no-scheme/a.jpg"), None);
    assert_eq!(normalize_image_url("https://host-only"), None);
    let once = normalize_image_url("https://cdn.test///a//b.jpg").unwrap();
    assert_eq!(once, "https://cdn.test/a//b.jpg");
    assert_eq!(normalize_image_url(&once), Some(once.clone()));
}

#[test]
fn hari_placeholders_and_titles() {
    assert!(is_placeholder_title("  READ MANGA "));
    assert!(is_placeholder_title("manga"));
    assert!(!is_placeholder_title("reading"));
    assert_eq!(clean_title("  Solo Leveling on Hari Manga "), "Solo Leveling");
    assert_eq!(clean_title("Read "), "Read");
}

#[test]
fn hari_describes_itself() {
    let i = info();
    assert_eq!(i.id, "hari_manga");
    assert_eq!(i.version, "1.0.1");
    assert_eq!(i.kind, WorkKind::Manga);
    assert_eq!(i.referer_url, Some("https://www.harimanga.co.uk/".to_string()));
}

#[test]
fn hari_listing_addresses() {
    assert_eq!(
        search_url("dad strong", 1),
        Some("https://www.harimanga.co.uk/?s=dad%20strong&post_type=wp-manga".to_string())
    );
    assert_eq!(search_url("x", 2), None);
    assert_eq!(
        latest_url(3),
        Some("https://www.harimanga.co.uk/home/page/3?orderby=latest&post_type=wp-manga".to_string())
    );
    assert_eq!(latest_url(101), None);
    assert_eq!(trending_url(21), None);
}

#[test]
fn hari_listing_merges_links() {
    let links = vec![
        ListingLink { link: element("Read", &[("href", "/manga/dad/")]), image: None },
        ListingLink {
            link: element("My Dad Is Too Strong", &[("href", "https://www.harimanga.co.uk/manga/dad/")]),
            image: Some(element("", &[("data-src", "//cdn.test/dad.jpg")])),
        },
        ListingLink { link: element("Read", &[("href", "/manga/only-overlay/")]), image: None },
        ListingLink { link: element("Chapter 1", &[("href", "/manga/dad/chapter-1/")]), image: None },
        ListingLink {
            link: element("Other", &[("href", "/manga/other/"), ("title", "Read Other Manga Online")]),
            image: None,
        },
    ];
    let works = parse_items(&links);
    let got: Vec<(String, String, Option<String>)> =
        works.iter().map(|w| (w.title.clone(), w.url.clone(), w.cover_url.clone())).collect();
    assert_eq!(
        got,
        vec![
            (
                "My Dad Is Too Strong".to_string(),
                "https://www.harimanga.co.uk/manga/dad/".to_string(),
                Some("https://cdn.test/dad.jpg".to_string())
            ),
            ("Other".to_string(), "https://www.harimanga.co.uk/manga/other/".to_string(), None),
        ]
    );
}

#[test]
fn hari_chapter_list() {
    let url = "https://www.harimanga.co.uk/manga/dad//";
    assert_eq!(chapters_api_url(url), "https://www.harimanga.co.uk/api/comics/dad/chapters");
    let body = "{\"chapters\":[{\"chapter_name\":\"Chapter 2\",\"chapter_slug\":\"chapter-2\"},{\"chapter_name\":\"Chapter 1\",\"chapter_slug\":\"chapter-1\"}]}";
    let chapters = chapters_from_api(Some(body), url);
    assert_eq!(
        chapters,
        vec![
            Chapter {
                title: "Chapter 2".into(),
                url: "https://www.harimanga.co.uk/manga/dad/chapter-2".into(),
                date: None,
                scanlation_group: None,
            },
            Chapter {
                title: "Chapter 1".into(),
                url: "https://www.harimanga.co.uk/manga/dad/chapter-1".into(),
                date: None,
                scanlation_group: None,
            },
        ]
    );
    assert!(chapters_from_api(None, url).is_empty());
    assert!(chapters_from_api(Some("{}"), url).is_empty());
    let details = work_details(
        url.to_string(),
        WorkPage {
            heading: Some("Dad".into()),
            authors: vec!["A".into(), "A".into()],
            summaries: vec!["OnGoing".into(), "Ongoing story".into()],
            genres: vec!["Action".into()],
            cover: Some(element("", &[("src", "/c.jpg")])),
        },
        chapters,
    );
    assert_eq!(details.chapters[0].title, "Chapter 1");
    assert_eq!(details.authors, vec!["A".to_string()]);
    assert_eq!(details.status, Some("Ongoing".to_string()));
    assert_eq!(details.description, Some("Ongoing story".to_string()));
    assert_eq!(details.cover_url, Some("https://www.harimanga.co.uk/c.jpg".to_string()));
}

#[test]
fn hari_chapter_images() {
    let images = vec![
        element("", &[("src", " //cdn.test//1.jpg ")]),
        element("", &[("data-src", "https://cdn.test/2.jpg")]),
        element("", &[("src", "https://cdn.test/1.jpg")]),
        element("", &[("src", "")]),
    ];
    assert_eq!(
        chapter_images(&images),
        Ok(vec!["https://cdn.test/1.jpg".to_string(), "https://cdn.test/2.jpg".to_string()])
    );
    assert_eq!(
        chapter_images(&Vec::new()),
        Err(SourceError::Parse("no images found in chapter page".into()))
    );
}
