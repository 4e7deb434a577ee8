use manga_vault_plugins::model::{Chapter, Element, SourceError, WorkKind};
use manga_vault_plugins::natomanga::{
    api_base, api_page_url, api_step, chapter_images, LAST_API_PAGE, extract_api_chapters, info, js_strings,
    latest_url, parse_items, search_url, trending_url, work_details, WorkPage,
};

fn element(text: &str, attrs: &[(&str, &str)]) -> Element {
    Element {
        text: text.to_string(),
        attrs: attrs.iter().map(|(k, v)| (k.to_string(), v.to_string())).collect(),
    }
}

#[test]
fn natomanga_describes_itself() {
    let i = info();
    assert_eq!(i.id, "natomanga");
    assert_eq!(i.name, "NatoManga");
    assert_eq!(i.version, "1.0.1");
    assert_eq!(i.kind, WorkKind::Manga);
}

#[test]
fn natomanga_listing_addresses() {
    assert_eq!(
        search_url("one piece", 2),
        Some("https://www.natomanga.com/search/story/one_piece?page=2".to_string())
    );
    assert_eq!(search_url("a&b", 1), Some("https://www.natomanga.com/search/story/a%26b?page=1".to_string()));
    assert_eq!(search_url("x", 51), None);
    assert_eq!(latest_url(100), Some("https://www.natomanga.com/manga-list/latest-manga?page=100".to_string()));
    assert_eq!(latest_url(101), None);
    assert_eq!(trending_url(20), Some("https://www.natomanga.com/manga-list/hot-manga?page=20".to_string()));
    assert_eq!(trending_url(21), None);
}

#[test]
fn natomanga_lists_works_once() {
    let links = vec![
        element("Text", &[("href", "/manga/one-piece"), ("title", "One Piece")]),
        element("One Piece", &[("href", "https://www.natomanga.com/manga/one-piece")]),
        element("Ch 1", &[("href", "/manga/one-piece/chapter-1")]),
        element("Action", &[("href", "/manga/genre-action")]),
        element("Naruto", &[("href", "/manga/naruto"), ("title", "")]),
        element("", &[("href", "/manga/blank")]),
    ];
    let works = parse_items(&links);
    let got: Vec<(String, String)> = works.iter().map(|w| (w.title.clone(), w.url.clone())).collect();
    assert_eq!(
        got,
        vec![
            ("One Piece".to_string(), "https://www.natomanga.com/manga/one-piece".to_string()),
            ("Naruto".to_string(), "https://www.natomanga.com/manga/naruto".to_string()),
        ]
    );
}

#[test]
fn natomanga_chapter_list_addresses() {
    let base = api_base("https://www.natomanga.com/manga/one-piece");
    assert_eq!(base, "https://www.natomanga.com/api/manga/one-piece/chapters");
    assert_eq!(api_page_url(&base, 0), format!("{base}?limit=50&offset=0"));
    assert_eq!(api_page_url(&base, 200), format!("{base}?limit=50&offset=10000"));
}

#[test]
fn natomanga_reads_chapter_list_answers() {
    let body = "{\"data\":{\"chapters\":[{\"chapter_name\":\"Chapter 2\",\"chapter_slug\":\"chapter-2\"},{\"chapter_name\":\"Broken\"},{\"chapter_name\":\"Chapter 1\",\"chapter_slug\":\"chapter-1\"}],\"has_more\":true}}";
    assert_eq!(
        extract_api_chapters(body),
        Some(vec![
            ("Chapter 2".to_string(), "chapter-2".to_string()),
            ("Chapter 1".to_string(), "chapter-1".to_string()),
        ])
    );
    assert_eq!(extract_api_chapters("{\"data\":{}}"), None);
    assert_eq!(extract_api_chapters("{\"chapters\":[]}"), Some(Vec::new()));
    let mut acc: Vec<Chapter> = Vec::new();
    assert!(api_step(0, body, "https://www.natomanga.com/manga/one-piece", &mut acc));
    assert_eq!(acc.len(), 2);
    assert_eq!(acc[0].url, "https://www.natomanga.com/manga/one-piece/chapter-2");
    assert_eq!(acc[1].title, "Chapter 1");
    let last = "{\"chapters\":[{\"chapter_name\":\"Chapter 0\",\"chapter_slug\":\"chapter-0\"}],\"has_more\":false}";
    assert!(!api_step(1, last, "p", &mut acc));
    assert_eq!(acc.len(), 3);
    assert!(!api_step(2, "{\"chapters\":[]}", "p", &mut acc));
    assert_eq!(acc.len(), 3);
    // The last page that is read ends the list even when the site has more.
    assert!(api_step(LAST_API_PAGE - 1, body, "p", &mut acc));
    assert_eq!(acc.len(), 5);
    assert!(!api_step(LAST_API_PAGE, body, "p", &mut acc));
    assert_eq!(acc.len(), 7);
    assert_eq!(acc[6].url, "p/chapter-1");
}

fn page() -> WorkPage {
    WorkPage {
        info_heading: None,
        heading: Some("One Piece".into()),
        info_lines: vec![
            "Author(s) : Oda".into(),
            "Author(s) : Unknown".into(),
            "Author(s) :: Oda".into(),
            "Status : Ongoing".into(),
            "Status : Completed : yes".into(),
        ],
        alternative: Some("Alternative : ワンピース ; OP, , One Piece ".into()),
        description: Some(String::new()),
        genres: vec!["Action".into(), "Action".into()],
        cover: Some("https://img.test/op.jpg".into()),
        chapter_links: vec![element("Chapter 1", &[("href", "https://www.natomanga.com/manga/op/chapter-1")])],
    }
}

#[test]
fn natomanga_work_details() {
    let url = "https://www.natomanga.com/manga/one-piece".to_string();
    let api = vec![
        Chapter { title: "Chapter 2".into(), url: "u2".into(), date: None, scanlation_group: None },
        Chapter { title: "Chapter 1".into(), url: "u1".into(), date: None, scanlation_group: None },
    ];
    let d = work_details(url.clone(), page(), api);
    assert_eq!(d.title, "One Piece");
    assert_eq!(d.authors, vec!["Oda".to_string()]);
    assert_eq!(d.status, Some("Completed".to_string()));
    assert_eq!(d.alternative_names, vec!["ワンピース ; OP".to_string(), "One Piece".to_string()]);
    assert_eq!(d.description, None);
    assert_eq!(d.genres, vec!["Action".to_string()]);
    assert_eq!(d.cover_url, Some("https://img.test/op.jpg".to_string()));
    let titles: Vec<String> = d.chapters.iter().map(|c| c.title.clone()).collect();
    assert_eq!(titles, vec!["Chapter 1".to_string(), "Chapter 2".to_string()]);
    let fallback = work_details(url, page(), Vec::new());
    assert_eq!(fallback.chapters.len(), 1);
    assert_eq!(fallback.chapters[0].url, "https://www.natomanga.com/manga/op/chapter-1");
}

#[test]
fn natomanga_script_arrays() {
    let body = "var cdns = [\"https:\\/\\/cdn.test\\/\"]; var chapterImages = [\"\\/a.jpg\",\"b.jpg\"];";
    assert_eq!(js_strings(body, "x"), None);
    let body = "{\"cdns\":[\"https://cdn.test//\"],\"chapterImages\":[\"/a.jpg\",\"b.jpg\"]}";
    assert_eq!(js_strings(body, "cdns"), Some(vec!["https://cdn.test//".to_string()]));
    assert_eq!(
        chapter_images(body, &Vec::new(), &Vec::new()),
        Ok(vec!["https://cdn.test/a.jpg".to_string(), "https://cdn.test/b.jpg".to_string()])
    );
}

#[test]
fn natomanga_reader_images() {
    let reader = vec![
        element("", &[("src", "https://img.test/1.jpg")]),
        element("", &[("data-src", "https://img.test/2.jpg")]),
        element("", &[("src", "https://img.test/1.jpg")]),
        element("", &[("src", "/3.jpg")]),
    ];
    let other = vec![element("", &[("src", "https://img.test/other.jpg")])];
    assert_eq!(
        chapter_images("no scripts", &reader, &other),
        Ok(vec!["https://img.test/1.jpg".to_string(), "https://img.test/2.jpg".to_string()])
    );
    assert_eq!(chapter_images("", &Vec::new(), &other), Ok(vec!["https://img.test/other.jpg".to_string()]));
    assert_eq!(
        chapter_images("{\"cdns\":[],\"chapterImages\":[\"a\"]}", &Vec::new(), &Vec::new()),
        Err(SourceError::Parse("no images found in chapter page".into()))
    );
}
