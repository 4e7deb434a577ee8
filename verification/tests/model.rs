use manga_vault_plugins::model::{
    distinct_nonempty, extract_string_field, http_outcome, longest_nonempty_exec,
    mentioned_status_exec, parse_unsigned_exec, push_if_new, reversed, Chapter, Element,
    SourceError, WorkSummary,
};
use manga_vault_plugins::sort::stable_sort;
use manga_vault_plugins::text::{
    decimal_exec, pieces_exec, replace_exec, signed_decimal_exec, trim_exec,
};

fn chars(s: &str) -> Vec<char> {
    s.chars().collect()
}

fn text(v: &[char]) -> String {
    v.iter().collect()
}

#[test]
fn outcomes_of_get_requests() {
    let url = "https://site.test/a";
    assert_eq!(http_outcome(url, None, None), Err(SourceError::Network("empty response".into())));
    assert_eq!(http_outcome(url, Some((200, "body".into())), None), Ok("body".to_string()));
    assert_eq!(http_outcome(url, Some((404, "x".into())), None), Err(SourceError::NotFound));
    assert_eq!(
        http_outcome(url, Some((503, "x".into())), None),
        Err(SourceError::Network("HTTP 503 for https://site.test/a".into()))
    );
    assert_eq!(http_outcome(url, Some((403, "challenge".into())), Some("solved".into())), Ok("solved".to_string()));
}

#[test]
fn quoted_fields_of_json_text() {
    assert_eq!(
        extract_string_field("{\"chapter_name\":\"Ch 1\",\"chapter_slug\":\"ch-1\"}", "chapter_slug"),
        Some("ch-1".to_string())
    );
    assert_eq!(extract_string_field("{\"a\":1}", "a"), None);
    assert_eq!(extract_string_field("{\"a\":\"open", "a"), None);
}

#[test]
fn distinct_texts_keep_first_occurrences() {
    let v = vec!["b".to_string(), "".to_string(), "a".to_string(), "b".to_string(), "a".to_string()];
    let d = distinct_nonempty(&v);
    assert_eq!(d, vec!["b".to_string(), "a".to_string()]);
    assert_eq!(distinct_nonempty(&d), d);
}

#[test]
fn listings_refuse_repeated_addresses_and_empty_titles() {
    let w = |t: &str, u: &str| WorkSummary { title: t.into(), url: u.into(), cover_url: None };
    let mut out = Vec::new();
    push_if_new(&mut out, w("A", "u1"));
    push_if_new(&mut out, w("B", "u1"));
    push_if_new(&mut out, w("", "u2"));
    push_if_new(&mut out, w("C", "u3"));
    let got: Vec<(String, String)> = out.iter().map(|x| (x.title.clone(), x.url.clone())).collect();
    assert_eq!(got, vec![("A".to_string(), "u1".to_string()), ("C".to_string(), "u3".to_string())]);
}

#[test]
fn statuses_and_descriptions_of_summaries() {
    let v = vec!["Status: Completed".to_string(), "Hiatus, then Ongoing".to_string()];
    assert_eq!(mentioned_status_exec(&v), Some("Ongoing".to_string()));
    assert_eq!(mentioned_status_exec(&vec!["nothing".to_string()]), None);
    assert_eq!(longest_nonempty_exec(&vec!["ab".into(), "cd".into()]), Some("cd".to_string()));
    assert_eq!(longest_nonempty_exec(&vec!["".into()]), None);
    assert_eq!(longest_nonempty_exec(&Vec::new()), None);
}

#[test]
fn reversing_chapters_twice_restores_them() {
    let c = |t: &str| Chapter { title: t.into(), url: t.into(), date: None, scanlation_group: None };
    let once = reversed(vec![c("1"), c("2"), c("3")]);
    assert_eq!(once, vec![c("3"), c("2"), c("1")]);
    assert_eq!(reversed(once), vec![c("1"), c("2"), c("3")]);
}

#[test]
fn numbers_read_and_written() {
    assert_eq!(parse_unsigned_exec("42", 100), Some(42));
    assert_eq!(parse_unsigned_exec("+7", 100), Some(7));
    assert_eq!(parse_unsigned_exec("101", 100), None);
    assert_eq!(parse_unsigned_exec("-1", 100), None);
    assert_eq!(parse_unsigned_exec("", 100), None);
    assert_eq!(parse_unsigned_exec("+", 100), None);
    assert_eq!(text(&decimal_exec(0)), "0");
    assert_eq!(text(&decimal_exec(u64::MAX)), u64::MAX.to_string());
    assert_eq!(text(&signed_decimal_exec(i64::MIN)), i64::MIN.to_string());
    assert_eq!(text(&signed_decimal_exec(-5)), "-5");
}

#[test]
fn text_helpers_follow_str() {
    let s = "  a\u{3000}b \u{2003}";
    assert_eq!(text(&trim_exec(&chars(s))), s.trim());
    let parts: Vec<String> = pieces_exec(&chars("a::b:"), &chars(":")).iter().map(|p| text(p)).collect();
    assert_eq!(parts, "a::b:".split(':').map(str::to_string).collect::<Vec<_>>());
    assert_eq!(text(&replace_exec(&chars("aXbXX"), &chars("X"), &chars("yy"))), "aXbXX".replace("X", "yy"));
}

#[test]
fn stable_sort_keeps_order_of_equal_keys() {
    let items = vec![
        ("b".to_string(), 1),
        ("a".to_string(), 2),
        ("b".to_string(), 3),
        ("a".to_string(), 4),
        ("B".to_string(), 5),
    ];
    let sorted: Vec<i32> = stable_sort(items).into_iter().map(|(_, v)| v).collect();
    assert_eq!(sorted, vec![5, 2, 4, 1, 3]);
    let ranks = vec![(None, 'x'), (Some(2u64), 'a'), (Some(1), 'b'), (None, 'y'), (Some(2), 'c')];
    let sorted: Vec<char> = stable_sort(ranks).into_iter().map(|(_, v)| v).collect();
    assert_eq!(sorted, vec!['b', 'a', 'c', 'x', 'y']);
}

#[test]
fn element_attributes() {
    let e = Element {
        text: "t".into(),
        attrs: vec![("src".into(), "1".into()), ("src".into(), "2".into())],
    };
    assert_eq!(e.attr("src"), Some("1".to_string()));
    assert_eq!(e.attr("alt"), None);
}

#[test]
fn sorting_sorted_items_changes_nothing() {
    let items = vec![("a".to_string(), 1), ("a".to_string(), 2), ("b".to_string(), 3)];
    let once = stable_sort(items);
    let twice = stable_sort(once.clone());
    assert_eq!(once, twice);
    assert_eq!(once, vec![("a".to_string(), 1), ("a".to_string(), 2), ("b".to_string(), 3)]);
}
