use launcher_core::minecraft_path::{
    FileEntry, IndexError, MinecraftPath, RootListing, VersionDirEntry,
};

fn file(path: &str, name: &str) -> FileEntry {
    FileEntry { path: path.to_string(), name: name.to_string(), is_file: true }
}

fn subdir_entry(path: &str, name: &str) -> FileEntry {
    FileEntry { path: path.to_string(), name: name.to_string(), is_file: false }
}

fn version_dir(path: &str, name: &str, mods: Option<Vec<FileEntry>>) -> VersionDirEntry {
    VersionDirEntry { path: path.to_string(), name: name.to_string(), is_dir: true, mods }
}

fn empty_listing() -> RootListing {
    RootListing { screenshots: None, mods: None, versions: None }
}

#[test]
fn missing_directories_yield_empty_facets() {
    let idx = MinecraftPath::new("/root", empty_listing());
    let (dir, shots) = idx.get_sceenshots();
    assert_eq!(dir, "/root/screenshots");
    assert_eq!(shots.len(), 0);
    assert_eq!(idx.get_versions().len(), 0);
    assert_eq!(idx.get_root_mods().len(), 0);
    assert_eq!(idx.get_all_mods().len(), 0);
}

#[test]
fn unknown_version_name_is_not_found() {
    let idx = MinecraftPath::new("/root", empty_listing());
    match idx.get_version_mods("missing") {
        Err(IndexError::NotFound) => (),
        Ok(_) => panic!("expected NotFound for an unknown version name"),
    }
}

#[test]
fn all_mods_orders_global_before_versions() {
    let listing = RootListing {
        screenshots: None,
        mods: Some(vec![file("/root/mods/b.jar", "b.jar")]),
        versions: Some(vec![
            version_dir(
                "/root/versions/1.21",
                "1.21",
                Some(vec![file("/root/versions/1.21/mods/a.jar", "a.jar")]),
            ),
            version_dir("/root/versions/1.20", "1.20", None),
        ]),
    };
    let idx = MinecraftPath::new("/root", listing);
    let all = idx.get_all_mods();
    assert_eq!(all.len(), 2);
    assert_eq!(all[0].name, "b");
    assert_eq!(all[0].location, "global");
    assert_eq!(all[0].path, "/root/mods/b.jar");
    assert_eq!(all[1].name, "a");
    assert_eq!(all[1].location, "1.21");
    assert_eq!(all[1].path, "/root/versions/1.21/mods/a.jar");
}

#[test]
fn version_mods_found_by_exact_name() {
    let listing = RootListing {
        screenshots: None,
        mods: None,
        versions: Some(vec![
            version_dir(
                "/root/versions/1.21",
                "1.21",
                Some(vec![file("/root/versions/1.21/mods/a.jar", "a.jar")]),
            ),
            version_dir("/root/versions/1.20", "1.20", None),
        ]),
    };
    let idx = MinecraftPath::new("/root", listing);
    let mods = idx.get_version_mods("1.21").unwrap();
    assert_eq!(mods.len(), 1);
    assert_eq!(mods[0].name, "a");
    let empty = idx.get_version_mods("1.20").unwrap();
    assert_eq!(empty.len(), 0);
    assert!(idx.get_version_mods("1.19").is_err());
}

#[test]
fn screenshots_filter_by_extension_case_insensitively() {
    let listing = RootListing {
        screenshots: Some(vec![
            file("/r/screenshots/a.png", "a.png"),
            file("/r/screenshots/b.PNG", "b.PNG"),
            file("/r/screenshots/c.Jpeg", "c.Jpeg"),
            file("/r/screenshots/d.txt", "d.txt"),
            file("/r/screenshots/noext", "noext"),
            subdir_entry("/r/screenshots/sub", "sub"),
            file("/r/screenshots/e.gif", "e.gif"),
            file("/r/screenshots/f.bmp", "f.bmp"),
            file("/r/screenshots/g.jpg", "g.jpg"),
        ]),
        mods: None,
        versions: None,
    };
    let idx = MinecraftPath::new("/r", listing);
    let (_, shots) = idx.get_sceenshots();
    assert_eq!(
        shots,
        vec![
            "/r/screenshots/a.png",
            "/r/screenshots/b.PNG",
            "/r/screenshots/c.Jpeg",
            "/r/screenshots/e.gif",
            "/r/screenshots/f.bmp",
            "/r/screenshots/g.jpg",
        ],
    );
}

#[test]
fn mods_keep_only_jar_files_and_drop_extension_for_name() {
    let listing = RootListing {
        screenshots: None,
        mods: Some(vec![
            file("/r/mods/optifine-1.21.jar", "optifine-1.21.jar"),
            file("/r/mods/readme.txt", "readme.txt"),
            file("/r/mods/UPPER.JAR", "UPPER.JAR"),
            subdir_entry("/r/mods/folder.jar", "folder.jar"),
            file("/r/mods/noext", "noext"),
        ]),
        versions: None,
    };
    let idx = MinecraftPath::new("/r", listing);
    let mods = idx.get_root_mods();
    assert_eq!(mods.len(), 2);
    assert_eq!(mods[0].name, "optifine-1.21");
    assert_eq!(mods[0].location, "global");
    assert_eq!(mods[1].name, "UPPER");
}

#[test]
fn non_directory_entries_under_versions_are_skipped() {
    let listing = RootListing {
        screenshots: None,
        mods: None,
        versions: Some(vec![
            VersionDirEntry {
                path: "/r/versions/stray.txt".to_string(),
                name: "stray.txt".to_string(),
                is_dir: false,
                mods: None,
            },
            version_dir("/r/versions/1.21", "1.21", None),
        ]),
    };
    let idx = MinecraftPath::new("/r", listing);
    let versions = idx.get_versions();
    assert_eq!(versions.len(), 1);
    assert_eq!(versions[0].name, "1.21");
    assert_eq!(versions[0].root, "/r/versions/1.21");
}

#[test]
fn display_name_falls_back_to_path() {
    let named = MinecraftPath::new_with_name("/r", "Main install", empty_listing());
    assert_eq!(named.get_display_name(), "Main install");
    assert_eq!(named.get_path(), "/r");
    let unnamed = MinecraftPath::new("/r2", empty_listing());
    assert_eq!(unnamed.get_display_name(), "/r2");
}
