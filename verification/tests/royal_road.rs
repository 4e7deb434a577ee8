use manga_vault_plugins::model::{Element, SourceError, WorkKind};
use manga_vault_plugins::royal_road::{
    absolute, browse_url, chapter_content, info, latest_url, parse_grid, search_url, trending_url,
    work_details, Card, WorkPage,
};

fn element(text: &str, attrs: &[(&str, &str)]) -> Element {
    Element {
        text: text.to_string(),
        attrs: attrs.iter().map(|(k, v)| (k.to_string(), v.to_string())).collect(),
    }
}

#[test]
fn royal_road_describes_itself() {
    let i = info();
    assert_eq!(i.id, "royal_road");
    assert_eq!(i.name, "Royal Road");
    assert_eq!(i.kind, WorkKind::Novel);
    assert_eq!(i.referer_url, Some("https://www.royalroad.com".to_string()));
}

#[test]
fn royal_road_listing_addresses() {
    assert_eq!(
        search_url("mother of learning", 1),
        Some("https://www.royalroad.com/fictions/search?title=mother%20of%20learning".to_string())
    );
    assert_eq!(search_url("x", 2), None);
    assert_eq!(latest_url(7), Some("https://www.royalroad.com/fictions/latest-updates?page=7".to_string()));
    assert_eq!(trending_url(1), Some("https://www.royalroad.com/fictions/trending?page=1".to_string()));
    assert_eq!(trending_url(2), None);
    assert_eq!(browse_url("best-rated", 3), Some("https://www.royalroad.com/fictions/best-rated?page=3".to_string()));
    assert_eq!(absolute("/fiction/1"), "https://www.royalroad.com/fiction/1");
    assert_eq!(absolute("https://x.test/a"), "https://x.test/a");
}

#[test]
fn royal_road_grid_keeps_every_card() {
    let cards = vec![
        Card {
            link: Some(element("Mother of Learning", &[("href", "/fiction/21220")])),
            image: Some(element("", &[("src", "https://img.test/mol.jpg")])),
        },
        Card { link: Some(element("Mother of Learning", &[("href", "/fiction/21220")])), image: None },
        Card { link: Some(element("", &[("href", "/fiction/1")])), image: None },
        Card { link: Some(element("No target", &[])), image: None },
        Card { link: None, image: None },
    ];
    let works = parse_grid(&cards);
    assert_eq!(works.len(), 2);
    assert_eq!(works[0].url, "https://www.royalroad.com/fiction/21220");
    assert_eq!(works[0].cover_url, Some("https://img.test/mol.jpg".to_string()));
    assert_eq!(works[1].cover_url, None);
}

#[test]
fn royal_road_work_details() {
    let page = WorkPage {
        heading: Some("Mother of Learning".into()),
        chapter_links: vec![
            element("1. Good Morning", &[("href", "/fiction/21220/chapter/1")]),
            element("", &[("href", "/fiction/21220/chapter/x")]),
        ],
        author: Some("nobody103".into()),
        tags: vec!["Fantasy".into(), "".into()],
        og_image: Some(element("", &[("content", "https://img.test/mol.jpg")])),
        description: Some("Zorian...".into()),
    };
    let d = work_details("https://www.royalroad.com/fiction/21220".into(), page);
    assert_eq!(d.title, "Mother of Learning");
    assert_eq!(d.authors, vec!["nobody103".to_string()]);
    assert_eq!(d.genres, vec!["Fantasy".to_string()]);
    assert_eq!(d.cover_url, Some("https://img.test/mol.jpg".to_string()));
    assert_eq!(d.chapters.len(), 1);
    assert_eq!(d.chapters[0].url, "https://www.royalroad.com/fiction/21220/chapter/1");
    assert_eq!(d.description, Some("Zorian...".to_string()));
}

#[test]
fn royal_road_chapter_content() {
    assert_eq!(chapter_content(Some("<p>x</p>".into())), Ok(vec!["<p>x</p>".to_string()]));
    assert_eq!(chapter_content(None), Err(SourceError::Parse("no chapter content".into())));
}
