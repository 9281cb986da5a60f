use launcher_core::auth::User;
use launcher_core::text::{base_name, contains, eq_ignore_ascii_case, split_name, str_eq};

#[test]
fn contains_finds_substrings_case_sensitively() {
    assert!(contains("1.21-rc1", "rc"));
    assert!(contains("1.21-rc1", "1.21-rc1"));
    assert!(contains("anything", ""));
    assert!(!contains("1.21-rc1", "RC"));
    assert!(!contains("short", "longer than it"));
    assert!(contains("net.java.dev.jna:jna:5.13.0-natives", "natives"));
}

#[test]
fn base_name_takes_the_part_after_the_last_slash() {
    assert_eq!(base_name("a/b/c.so"), "c.so");
    assert_eq!(base_name("plain.so"), "plain.so");
    assert_eq!(base_name("dir/"), "");
    assert_eq!(base_name(""), "");
}

#[test]
fn split_name_follows_path_component_rules() {
    assert_eq!(split_name("mod.jar"), ("mod", Some("jar")));
    assert_eq!(split_name("archive.tar.gz"), ("archive.tar", Some("gz")));
    assert_eq!(split_name(".hidden"), (".hidden", None));
    assert_eq!(split_name("noext"), ("noext", None));
    assert_eq!(split_name("trailing."), ("trailing", Some("")));
}

#[test]
fn ascii_case_insensitive_comparison() {
    assert!(eq_ignore_ascii_case("JAR", "jar"));
    assert!(eq_ignore_ascii_case("JpEg", "jpeg"));
    assert!(!eq_ignore_ascii_case("jar", "jars"));
    assert!(!eq_ignore_ascii_case("jab", "jar"));
}

#[test]
fn str_eq_compares_exactly() {
    assert!(str_eq("release", "release"));
    assert!(!str_eq("release", "Release"));
    assert!(!str_eq("release", "releases"));
}

#[test]
fn default_user_is_the_offline_placeholder() {
    let u = User::default();
    assert_eq!(u.username, "Player");
    assert!(u.uuid.is_none());
    assert!(u.access_token.is_none());
}
