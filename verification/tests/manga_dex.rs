use manga_vault_plugins::manga_dex::{
    at_home_url, chapter_id, chapter_pages, chapter_title, cover_file_name, feed_continue, feed_finished,
    feed_page_url, info, latest_url, localized, manga_query, ordered_chapters, parse_summary,
    search_url, tag_name, trending_url, upload_of, urlencoding_encode, uuid_from_title_url,
    work_details, work_request_url, AtHome, FEED_PAGES, FeedEntry, ListedWork, MangaAttributes, Relationship,
    Upload,
};
use manga_vault_plugins::model::{Chapter, SourceError, WorkKind};

const ID: &str = "a96676e5-8ae2-425e-b549-7f15dd34a6d8";
const RATINGS: &str = "contentRating[]=safe&contentRating[]=suggestive";

fn pairs(items: &[(&str, &str)]) -> Vec<(String, String)> {
    items.iter().map(|(k, v)| (k.to_string(), v.to_string())).collect()
}

fn rel(kind: &str, has_id: bool, name: Option<&str>, file: Option<&str>) -> Relationship {
    Relationship {
        kind: Some(kind.to_string()),
        has_id,
        name: name.map(str::to_string),
        file_name: file.map(str::to_string),
    }
}

fn attributes() -> MangaAttributes {
    MangaAttributes {
        title: pairs(&[("ja", "Komi-san"), ("en", "Komi Can't Communicate")]),
        alt_titles: Vec::new(),
        description: pairs(&[("fr", "Fr"), ("en", "En")]),
        tags: vec![
            "423e2eae-a7f2-41a8-a77b-eccc094a00ff".to_string(),
            "0234a31e-a729-4e28-9d6a-3f87c4966b9e".to_string(),
            "unknown-tag".to_string(),
        ],
        status: Some("hiatus".to_string()),
        year: Some(2016),
    }
}

#[test]
fn manga_dex_describes_itself() {
    let i = info();
    assert_eq!(i.id, "manga_dex");
    assert_eq!(i.name, "MangaDex");
    assert_eq!(i.kind, WorkKind::Manga);
    assert_eq!(i.referer_url, Some("https://mangadex.org/".to_string()));
}

#[test]
fn manga_dex_listing_queries() {
    let first = manga_query("followedCount", 1);
    assert_eq!(
        first,
        format!("https://api.mangadex.org/manga?limit=20&offset=0&includes[]=cover_art&order[followedCount]=desc&availableTranslatedLanguage[]=en&{RATINGS}")
    );
    assert!(manga_query("x", 3).contains("&offset=40&"));
    assert!(manga_query("x", 0).contains("&offset=4294967276&"));
    assert_eq!(trending_url(1), Some(first));
    assert_eq!(latest_url(101), None);
    assert_eq!(
        search_url("komi san", 2),
        Some(format!("{}&title=komi%20san", manga_query("latestUploadedChapter", 2)))
    );
    assert_eq!(search_url("x", 101), None);
}

#[test]
fn manga_dex_percent_encoding() {
    assert_eq!(urlencoding_encode("a-b_c.d~e"), "a-b_c.d~e");
    assert_eq!(urlencoding_encode("a b/c?"), "a%20b%2Fc%3F");
    assert_eq!(urlencoding_encode("ü"), "%C3%BC");
    assert_eq!(urlencoding_encode(""), "");
}

#[test]
fn manga_dex_localized_texts() {
    assert_eq!(localized(&pairs(&[("ja", "J"), ("en", "E")])), Some("E".to_string()));
    assert_eq!(localized(&pairs(&[("ja", "J"), ("ko", "K")])), Some("J".to_string()));
    assert_eq!(localized(&Vec::new()), None);
}

#[test]
fn manga_dex_covers() {
    let rels = vec![
        rel("author", true, Some("Oda"), None),
        rel("cover_art", false, None, Some("bad.jpg")),
        rel("cover_art", true, None, Some("cover.jpg")),
    ];
    assert_eq!(
        cover_file_name(&rels, ID),
        Some(format!("https://uploads.mangadex.org/covers/{ID}/cover.jpg.512.jpg"))
    );
    assert_eq!(cover_file_name(&vec![rel("cover_art", true, None, None)], ID), None);
    assert_eq!(cover_file_name(&Vec::new(), ID), None);
}

#[test]
fn manga_dex_listing_answers() {
    let items = vec![
        ListedWork {
            id: Some(ID.to_string()),
            attributes: Some(attributes()),
            relationships: vec![rel("cover_art", true, None, Some("c.jpg"))],
        },
        ListedWork {
            id: Some("b".to_string()),
            attributes: Some(MangaAttributes {
                title: pairs(&[("ja", "J")]),
                alt_titles: vec![pairs(&[("ja", "J2")]), pairs(&[("en", "From alt")])],
                ..attributes()
            }),
            relationships: Vec::new(),
        },
        ListedWork {
            id: Some("c".to_string()),
            attributes: Some(MangaAttributes { title: pairs(&[("ja", "J")]), ..attributes() }),
            relationships: Vec::new(),
        },
        ListedWork { id: None, attributes: Some(attributes()), relationships: Vec::new() },
        ListedWork { id: Some("d".to_string()), attributes: None, relationships: Vec::new() },
    ];
    let works = parse_summary(&items);
    assert_eq!(works.len(), 2);
    assert_eq!(works[0].title, "Komi Can't Communicate");
    assert_eq!(works[0].url, format!("https://mangadex.org/title/{ID}"));
    assert!(works[0].cover_url.is_some());
    assert_eq!(works[1].title, "From alt");
    assert_eq!(works[1].cover_url, None);
}

#[test]
fn manga_dex_ids_from_addresses() {
    assert_eq!(uuid_from_title_url(&format!("https://mangadex.org/title/{ID}")), Ok(ID.to_string()));
    assert_eq!(uuid_from_title_url("https://mangadex.org/title/short-id"), Err(SourceError::NotFound));
    assert_eq!(
        uuid_from_title_url("https://mangadex.org/title/0123456789012345678901234567890123"),
        Err(SourceError::NotFound)
    );
    assert_eq!(chapter_id(&format!("https://mangadex.org/chapter/{ID} ")), Ok(ID.to_string()));
    assert_eq!(chapter_id("x"), Err(SourceError::NotFound));
    assert_eq!(
        work_request_url(ID),
        format!("https://api.mangadex.org/manga/{ID}?includes[]=cover_art&includes[]=author&includes[]=artist&{RATINGS}")
    );
    assert_eq!(at_home_url(ID), format!("https://api.mangadex.org/at-home/server/{ID}?forcePort443=true"));
}

#[test]
fn manga_dex_tag_names() {
    assert_eq!(tag_name("391b0423-d847-456f-aff0-8b0cfc03038b"), "Action");
    assert_eq!(tag_name("51dc5d9c-5739-4a94-a372-e9422e195a84"), "Harem");
    assert_eq!(tag_name("0234a31e-a729-4e28-9d6a-3f87c4966b9e"), "Oneshot");
    assert_eq!(tag_name("nope"), "");
}

#[test]
fn manga_dex_work_details() {
    let rels = vec![
        rel("author", true, Some("Tomohito Oda"), None),
        rel("artist", true, Some("Tomohito Oda"), None),
        rel("artist", true, Some(""), None),
        rel("artist", false, Some("Assistant"), None),
    ];
    let data_rels = vec![rel("cover_art", true, None, Some("c.jpg"))];
    let url = format!("https://mangadex.org/title/{ID}");
    let d = work_details(url.clone(), ID, &attributes(), &rels, &data_rels, Vec::new());
    assert_eq!(d.title, "Komi Can't Communicate");
    assert_eq!(d.authors, vec!["Tomohito Oda".to_string(), "Assistant".to_string()]);
    assert_eq!(d.status, Some("Hiatus".to_string()));
    assert_eq!(d.release_date, Some("2016".to_string()));
    assert_eq!(d.description, Some("En".to_string()));
    assert_eq!(d.genres, vec!["Romance".to_string(), "".to_string()]);
    assert_eq!(d.cover_url, Some(format!("https://uploads.mangadex.org/covers/{ID}/c.jpg.512.jpg")));
    let bare = MangaAttributes {
        title: Vec::new(),
        alt_titles: vec![Vec::new(), pairs(&[("de", "Deutsch")])],
        description: Vec::new(),
        tags: Vec::new(),
        status: Some("weird".to_string()),
        year: None,
    };
    let d = work_details(url.clone(), ID, &bare, &Vec::new(), &Vec::new(), Vec::new());
    assert_eq!(d.title, "Deutsch");
    assert_eq!(d.status, Some("Ongoing".to_string()));
    assert_eq!(d.description, None);
    let none = MangaAttributes { alt_titles: Vec::new(), ..bare };
    assert_eq!(work_details(url.clone(), ID, &none, &Vec::new(), &Vec::new(), Vec::new()).title, url);
}

#[test]
fn manga_dex_chapter_pages() {
    let at_home = AtHome {
        base_url: "https://node.test".to_string(),
        hash: "h".to_string(),
        data: vec!["1.png".to_string(), "2.png".to_string()],
    };
    assert_eq!(
        chapter_pages(&at_home),
        Ok(vec!["https://node.test/data/h/1.png".to_string(), "https://node.test/data/h/2.png".to_string()])
    );
    let empty = AtHome { base_url: String::new(), hash: "h".to_string(), data: Vec::new() };
    assert_eq!(chapter_pages(&empty), Err(SourceError::Network("at-home returned no host".into())));
}

#[test]
fn manga_dex_feed() {
    assert!(feed_page_url(ID, 2).contains("&limit=500&offset=1000&"));
    assert!(feed_page_url(ID, 0).ends_with("&includes[]=scanlation_group"));
    assert!(feed_finished(5, 5));
    assert!(feed_finished(0, 0));
    assert!(!feed_finished(4, 5));
    assert!(feed_continue(0, 500, 500, 1200));
    assert!(!feed_continue(0, 0, 0, 1200));
    assert!(!feed_continue(2, 200, 1200, 1200));
    assert!(!feed_continue(3, 10, 10, 0));
    assert!(feed_continue(FEED_PAGES - 2, 500, 500, 20000));
    assert!(!feed_continue(FEED_PAGES - 1, 500, 500, 20000));
    assert!(feed_page_url(ID, 25).contains("&offset=12500&"));
    let entry = |external: Option<&str>, pages: u32| FeedEntry {
        chapter: Some("1".to_string()),
        title: None,
        publish_at: "2020".to_string(),
        external_url: external.map(str::to_string),
        pages,
        id: Some("c1".to_string()),
        relationships: vec![rel("user", true, Some("u"), None), rel("scanlation_group", true, Some("G"), None)],
    };
    assert!(upload_of(entry(Some("https://x"), 5)).is_none());
    assert!(upload_of(entry(None, 0)).is_none());
    let u = upload_of(entry(None, 3)).unwrap();
    assert_eq!(u.id, "c1");
    assert_eq!(u.group, Some("G".to_string()));
    assert_eq!(u.number_rank, None);
}

#[test]
fn manga_dex_chapter_titles() {
    let s = |x: &str| Some(x.to_string());
    assert_eq!(chapter_title(&s("5"), &s("Fight")), "Ch. 5 - Fight");
    assert_eq!(chapter_title(&s("5"), &s("")), "Ch. 5");
    assert_eq!(chapter_title(&s("5"), &None), "Ch. 5");
    assert_eq!(chapter_title(&None, &s("Special")), "Special");
    assert_eq!(chapter_title(&None, &s("")), "Oneshot");
    assert_eq!(chapter_title(&None, &None), "Oneshot");
}

fn upload(number: Option<&str>, title: Option<&str>, at: &str, id: &str, rank: Option<u64>) -> Upload {
    Upload {
        number: number.map(str::to_string),
        title: title.map(str::to_string),
        publish_at: at.to_string(),
        id: id.to_string(),
        group: None,
        number_rank: rank,
    }
}

#[test]
fn manga_dex_orders_chapters() {
    let uploads = vec![
        upload(Some("2"), None, "2021-03", "b-late", Some(1)),
        upload(Some("10"), Some("Ten"), "2021-05", "ten", Some(2)),
        upload(Some("2"), None, "2021-02", "b-early", Some(1)),
        upload(Some("x"), None, "2021-01", "odd", None),
        upload(Some("1"), None, "2021-04", "a", Some(0)),
        upload(None, Some("Extra"), "2021-06", "extra", None),
    ];
    let chapters: Vec<Chapter> = ordered_chapters(uploads);
    let got: Vec<(String, String)> = chapters.iter().map(|c| (c.title.clone(), c.url.clone())).collect();
    assert_eq!(
        got,
        vec![
            ("Ch. 1".to_string(), "https://mangadex.org/chapter/a".to_string()),
            ("Ch. 2".to_string(), "https://mangadex.org/chapter/b-early".to_string()),
            ("Ch. 10 - Ten".to_string(), "https://mangadex.org/chapter/ten".to_string()),
            ("Ch. x".to_string(), "https://mangadex.org/chapter/odd".to_string()),
            ("Extra".to_string(), "https://mangadex.org/chapter/extra".to_string()),
        ]
    );
    assert_eq!(chapters[1].date, Some("2021-02".to_string()));
}

#[test]
fn manga_dex_encoded_queries_stay_one_parameter() {
    let encoded = urlencoding_encode("a&b=c#d e+f");
    assert_eq!(encoded, "a%26b%3Dc%23d%20e%2Bf");
    assert!(encoded.chars().all(|c| c.is_ascii_alphanumeric() || "-._~%".contains(c)));
}

#[test]
fn manga_dex_encoder_agrees_with_urlencoding() {
    for text in ["", "plain", "a b&c", "ü€😀", "~._-", "%2F/"] {
        assert_eq!(urlencoding_encode(text), urlencoding::encode(text).into_owned());
    }
}
