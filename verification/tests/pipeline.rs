use launcher_core::download::{
    acquire_plan, action_stage, jar_valid, sha1_hex, to_hex, Action, JarState,
};
use launcher_core::library::{Artifact, Download as LibraryDownload, Library, Os, Rule};
use launcher_core::version::{AssetIndex, Client, Download, Version};

const CLIENT_SHA1: &str = "d2c3b5a0f1e2d3c4b5a6978869504132231405f6";

fn lib(name: &str, path: &str, url: &str, rules: Option<Vec<Rule>>) -> Library {
    Library {
        downloads: LibraryDownload {
            artifact: Artifact {
                path: path.to_string(),
                sha1: "0123456789abcdef0123456789abcdef01234567".to_string(),
                size: 1024,
                url: url.to_string(),
            },
        },
        name: name.to_string(),
        rules,
    }
}

fn rule(action: &str, os: &str) -> Rule {
    Rule { action: action.to_string(), os: Os { name: os.to_string() } }
}

fn descriptor(id: &str, libraries: Vec<Library>) -> Version {
    Version {
        asset_index: AssetIndex {
            id: "17".to_string(),
            url: "https://example.invalid/assets/17.json".to_string(),
            sha1: "aaaabbbbccccddddeeeeffff0000111122223333".to_string(),
            size: 4096,
        },
        downloads: Download {
            client: Client {
                sha1: CLIENT_SHA1.to_string(),
                size: 1000,
                url: "https://example.invalid/client.jar".to_string(),
            },
        },
        id: id.to_string(),
        libraries,
        main_class: "net.minecraft.client.main.Main".to_string(),
        release_time: "2024-06-13T08:24:03+00:00".to_string(),
        time: "2024-06-13T08:32:38+00:00".to_string(),
        type_: "release".to_string(),
    }
}

#[test]
fn plan_matching_archive_fetches_nothing_unconditionally() {
    let desc = descriptor("1.21", vec![lib("org.lwjgl:lwjgl:3", "org/lwjgl/lwjgl.jar", "U", None)]);
    let jar = JarState::Present { sha1_hex: CLIENT_SHA1.to_string() };
    let plan = acquire_plan("1.21", &desc, &jar, true, "linux");
    let jar_path = "versions/1.21/1.21.jar";
    for a in &plan {
        match a {
            Action::Fetch { .. } => panic!("unconditional fetch in plan: {:?}", a),
            Action::EnsureDir { path } => assert_ne!(path, jar_path),
            Action::FetchIfAbsent { path, .. } => assert_ne!(path, jar_path),
            Action::DeleteFile { path } => assert_ne!(path, jar_path),
            Action::WriteDescriptor { path } => assert_ne!(path, jar_path),
        }
    }
}

#[test]
fn plan_stale_archive_is_deleted_and_refetched() {
    let desc = descriptor("1.21", vec![lib("a:b:1", "a/b-1.jar", "U", None)]);
    let jar = JarState::Present { sha1_hex: "0000000000000000000000000000000000000000".to_string() };
    let plan = acquire_plan("1.21", &desc, &jar, false, "linux");
    let n = plan.len();
    assert_eq!(
        plan[n - 2],
        Action::DeleteFile { path: "versions/1.21/1.21.jar".to_string() },
    );
    assert_eq!(
        plan[n - 1],
        Action::Fetch {
            url: "https://example.invalid/client.jar".to_string(),
            path: "versions/1.21/1.21.jar".to_string(),
        },
    );
    let deletes = plan.iter().filter(|a| matches!(a, Action::DeleteFile { .. })).count();
    assert_eq!(deletes, 1);
    let fetches = plan.iter().filter(|a| matches!(a, Action::Fetch { .. })).count();
    assert_eq!(fetches, 1);
}

#[test]
fn plan_absent_archive_is_fetched_without_delete() {
    let desc = descriptor("1.21", Vec::new());
    let plan = acquire_plan("1.21", &desc, &JarState::Absent, false, "linux");
    assert_eq!(
        plan,
        vec![
            Action::EnsureDir { path: "versions/1.21".to_string() },
            Action::FetchIfAbsent {
                url: "https://example.invalid/assets/17.json".to_string(),
                path: "assets/indexes/17.json".to_string(),
            },
            Action::WriteDescriptor { path: "versions/1.21/1.21.json".to_string() },
            Action::Fetch {
                url: "https://example.invalid/client.jar".to_string(),
                path: "versions/1.21/1.21.jar".to_string(),
            },
        ],
    );
}

#[test]
fn plan_alias_names_directory_after_descriptor_and_file_after_request() {
    let desc = descriptor("1.21-final", Vec::new());
    let plan = acquire_plan("1.21", &desc, &JarState::Absent, true, "linux");
    assert_eq!(
        plan,
        vec![
            Action::EnsureDir { path: "versions/1.21-final".to_string() },
            Action::FetchIfAbsent {
                url: "https://example.invalid/assets/17.json".to_string(),
                path: "assets/indexes/17.json".to_string(),
            },
            Action::DeleteFile { path: "versions/1.21-final/1.21.json".to_string() },
            Action::WriteDescriptor { path: "versions/1.21-final/1.21.json".to_string() },
            Action::Fetch {
                url: "https://example.invalid/client.jar".to_string(),
                path: "versions/1.21-final/1.21-final.jar".to_string(),
            },
        ],
    );
}

#[test]
fn plan_skips_disallowed_libraries() {
    let allowed = lib("a:allowed:1", "a/allowed.jar", "UA", None);
    let osx_only = lib(
        "b:osxonly:1",
        "b/osxonly.jar",
        "UB",
        Some(vec![rule("allow", "osx")]),
    );
    let desc = descriptor("1.21", vec![allowed, osx_only]);
    let plan = acquire_plan("1.21", &desc, &JarState::Absent, false, "linux");
    let fetched: Vec<&str> = plan
        .iter()
        .filter_map(|a| match a {
            Action::FetchIfAbsent { path, .. } => Some(path.as_str()),
            _ => None,
        })
        .collect();
    assert_eq!(fetched, vec!["libraries/a/allowed.jar", "assets/indexes/17.json"]);
}

#[test]
fn platform_filter_no_rules_allows_everywhere() {
    let l = lib("x:y:1", "x/y.jar", "U", None);
    assert!(l.allowed("linux"));
    assert!(l.allowed("osx"));
    assert!(l.allowed("windows"));
    assert!(l.allowed(""));
}

#[test]
fn platform_filter_allow_rule_matches_only_its_os() {
    let l = lib("x:y:1", "x/y.jar", "U", Some(vec![rule("allow", "osx")]));
    assert!(l.allowed("osx"));
    assert!(!l.allowed("linux"));
}

#[test]
fn platform_filter_last_matching_rule_wins() {
    let l = lib(
        "x:y:1",
        "x/y.jar",
        "U",
        Some(vec![rule("allow", "linux"), rule("disallow", "linux")]),
    );
    assert!(!l.allowed("linux"));
    let l2 = lib(
        "x:y:1",
        "x/y.jar",
        "U",
        Some(vec![rule("disallow", "linux"), rule("allow", "linux")]),
    );
    assert!(l2.allowed("linux"));
}

#[test]
fn platform_filter_unmatched_os_is_denied() {
    let l = lib("x:y:1", "x/y.jar", "U", Some(vec![rule("allow", "osx")]));
    assert!(!l.allowed("windows"));
}

#[test]
fn action_stages_name_each_pipeline_step() {
    let desc = descriptor("1.21", vec![lib("a:b:1", "a/b-1.jar", "U", None)]);
    let jar = JarState::Present { sha1_hex: "0000000000000000000000000000000000000000".to_string() };
    let plan = acquire_plan("1.21", &desc, &jar, true, "linux");
    let stages: Vec<&str> = plan.iter().map(action_stage).collect();
    assert_eq!(
        stages,
        vec![
            "create version directory",
            "fetch artifact",
            "fetch artifact",
            "delete stale file",
            "write descriptor",
            "delete stale file",
            "fetch primary archive",
        ],
    );
}

#[test]
fn native_libraries_are_recognized_by_name() {
    assert!(lib("org.lwjgl:lwjgl:3:natives-linux", "p", "U", None).is_native());
    assert!(!lib("org.lwjgl:lwjgl:3", "p", "U", None).is_native());
}

#[test]
fn sha1_hex_of_known_input() {
    let bytes: Vec<u8> = b"abc".to_vec();
    assert_eq!(sha1_hex(&bytes), "a9993e364706816aba3e25717850c26c9cd0d89d");
}

#[test]
fn sha1_hex_of_empty_input() {
    let bytes: Vec<u8> = Vec::new();
    assert_eq!(sha1_hex(&bytes), "da39a3ee5e6b4b0d3255bfef95601890afd80709");
}

#[test]
fn to_hex_writes_two_digits_per_byte() {
    let bytes: Vec<u8> = vec![0x00, 0x0f, 0xa5, 0xff];
    assert_eq!(to_hex(&bytes), "000fa5ff");
}

#[test]
fn jar_valid_compares_digest_with_declaration() {
    let bytes: Vec<u8> = b"abc".to_vec();
    assert!(jar_valid(&bytes, "a9993e364706816aba3e25717850c26c9cd0d89d"));
    assert!(!jar_valid(&bytes, "da39a3ee5e6b4b0d3255bfef95601890afd80709"));
}
