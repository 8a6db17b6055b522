use proxy::route::{normalize_host, Route, RouteTable};

fn table() -> RouteTable {
    let mut table = RouteTable::new();
    assert_eq!(table.insert("a.example".to_string(), "b.example".to_string()), None);
    table
}

#[test]
fn host_without_port_is_kept() {
    assert_eq!(normalize_host("a.example"), "a.example");
}

#[test]
fn port_suffix_is_stripped() {
    assert_eq!(normalize_host("a.example:8080"), "a.example");
}

#[test]
fn host_is_cut_at_the_first_colon() {
    assert_eq!(normalize_host("a:b:c"), "a");
    assert_eq!(normalize_host(":80"), "");
    assert_eq!(normalize_host("a.example:"), "a.example");
}

#[test]
fn empty_host_stays_empty() {
    assert_eq!(normalize_host(""), "");
}

#[test]
fn host_with_wide_characters_is_cut_by_character() {
    assert_eq!(normalize_host("é.example:1"), "é.example");
    assert_eq!(normalize_host("日本.example"), "日本.example");
}

#[test]
fn stripping_twice_changes_nothing() {
    let once = normalize_host("a.example:8080");
    assert_eq!(normalize_host(&once), once);
}

#[test]
fn resolve_finds_the_route() {
    let table = table();
    assert_eq!(
        table.resolve("a.example"),
        Some(Route { inbound_host: "a.example".to_string(), target_host: "b.example".to_string() })
    );
}

#[test]
fn resolve_disregards_the_port() {
    let table = table();
    let route = table.resolve("a.example:8080").unwrap();
    assert_eq!(route.inbound_host, "a.example");
    assert_eq!(route.target_host, "b.example");
}

#[test]
fn resolve_matches_exactly() {
    let table = table();
    assert_eq!(table.resolve("A.example"), None);
    assert_eq!(table.resolve("a.example.org"), None);
    assert_eq!(table.resolve("x.a.example"), None);
    assert_eq!(table.resolve("a.exampl"), None);
    assert_eq!(table.resolve(""), None);
}

#[test]
fn contains_agrees_with_resolve() {
    let table = table();
    assert!(table.contains("a.example"));
    assert!(table.contains("a.example:443"));
    assert!(!table.contains("unknown.example"));
}

#[test]
fn empty_table_resolves_nothing() {
    let table = RouteTable::new();
    assert_eq!(table.len(), 0);
    assert_eq!(table.resolve("a.example"), None);
}

#[test]
fn insert_replaces_and_returns_the_previous_target() {
    let mut table = table();
    assert_eq!(table.len(), 1);
    assert_eq!(
        table.insert("a.example".to_string(), "c.example".to_string()),
        Some("b.example".to_string())
    );
    assert_eq!(table.len(), 1);
    assert_eq!(table.resolve("a.example").unwrap().target_host, "c.example");
}

#[test]
fn insert_keeps_other_routes() {
    let mut table = table();
    assert_eq!(table.insert("d.example".to_string(), "e.example".to_string()), None);
    assert_eq!(table.len(), 2);
    assert_eq!(table.resolve("a.example").unwrap().target_host, "b.example");
    assert_eq!(table.resolve("d.example").unwrap().target_host, "e.example");
}
