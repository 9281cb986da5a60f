use launcher_core::manifest::{find_by_id, search_versions, MinecraftVersion};

fn entry(id: &str, type_: &str, url: &str) -> MinecraftVersion {
    MinecraftVersion {
        id: id.to_string(),
        type_: type_.to_string(),
        url: url.to_string(),
        time: "2024-06-13T08:32:38+00:00".to_string(),
        release_time: "2024-06-13T08:24:03+00:00".to_string(),
    }
}

fn catalog() -> Vec<MinecraftVersion> {
    vec![entry("1.21", "release", "U1"), entry("1.21-rc1", "snapshot", "U2")]
}

#[test]
fn search_release_without_filter() {
    let r = search_versions(catalog(), None, "release".to_string());
    assert_eq!(r.len(), 1);
    assert_eq!(r[0].id, "1.21");
    assert_eq!(r[0].url, "U1");
}

#[test]
fn search_snapshot_with_filter() {
    let r = search_versions(catalog(), Some("rc".to_string()), "snapshot".to_string());
    assert_eq!(r.len(), 1);
    assert_eq!(r[0].id, "1.21-rc1");
    assert_eq!(r[0].url, "U2");
}

#[test]
fn search_release_with_unmatched_filter() {
    let r = search_versions(catalog(), Some("zz".to_string()), "release".to_string());
    assert_eq!(r.len(), 0);
}

#[test]
fn search_keeps_catalog_order() {
    let vs = vec![
        entry("1.20", "release", "A"),
        entry("1.20.1", "release", "B"),
        entry("1.21-rc1", "snapshot", "C"),
        entry("1.21", "release", "D"),
    ];
    let r = search_versions(vs, None, "release".to_string());
    let ids: Vec<&str> = r.iter().map(|v| v.id.as_str()).collect();
    assert_eq!(ids, vec!["1.20", "1.20.1", "1.21"]);
}

#[test]
fn search_filter_is_case_sensitive() {
    let vs = vec![entry("1.21-RC1", "snapshot", "A")];
    let r = search_versions(vs, Some("rc".to_string()), "snapshot".to_string());
    assert_eq!(r.len(), 0);
}

#[test]
fn search_type_must_match_exactly() {
    let r = search_versions(catalog(), None, "Release".to_string());
    assert_eq!(r.len(), 0);
}

#[test]
fn find_by_id_matches_whole_id_only() {
    let vs = catalog();
    let found = find_by_id(&vs, "1.21").unwrap();
    assert_eq!(found.url, "U1");
    assert!(find_by_id(&vs, "1.2").is_none());
    assert!(find_by_id(&vs, "1.22").is_none());
}
