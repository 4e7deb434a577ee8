use manga_vault_plugins::model::BROWSER_AGENT;
use manga_vault_plugins::{
    freewebnovel, hari_manga, manga_dex, mangabuddy, mangaread_org, natomanga, novelphoenix,
    readernovel, royal_road,
};

fn pair(name: &str, value: &str) -> (String, String) {
    (name.to_string(), value.to_string())
}

#[test]
fn sources_send_referer_then_agent() {
    for (headers, base) in [
        (hari_manga::request_headers(), hari_manga::BASE),
        (mangabuddy::request_headers(), mangabuddy::BASE),
        (mangaread_org::request_headers(), mangaread_org::BASE),
        (natomanga::request_headers(), natomanga::BASE),
        (novelphoenix::request_headers(), novelphoenix::BASE),
        (readernovel::request_headers(), readernovel::BASE),
    ] {
        assert_eq!(headers, vec![pair("Referer", &format!("{base}/")), pair("User-Agent", BROWSER_AGENT)]);
    }
}

#[test]
fn royal_road_sends_agent_then_referer() {
    assert_eq!(
        royal_road::request_headers(),
        vec![pair("User-Agent", BROWSER_AGENT), pair("Referer", "https://www.royalroad.com/")]
    );
}

#[test]
fn freewebnovel_sends_form_headers() {
    assert_eq!(
        freewebnovel::request_headers(),
        vec![
            pair("Content-Type", "application/x-www-form-urlencoded"),
            pair("Referer", "https://freewebnovel.com/home"),
            pair("Origin", "https://freewebnovel.com"),
            pair("User-Agent", BROWSER_AGENT),
        ]
    );
}

#[test]
fn manga_dex_sends_referer_and_origin() {
    assert_eq!(
        manga_dex::request_headers(),
        vec![pair("Referer", "https://mangadex.org/"), pair("Origin", "https://mangadex.org")]
    );
}
