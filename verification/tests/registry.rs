use launcher_core::minecraft_path::RootListing;
use launcher_core::registry::MinecraftPaths;

fn empty_listing() -> RootListing {
    RootListing { screenshots: None, mods: None, versions: None }
}

#[test]
fn adding_same_path_twice_stores_one_index() {
    let mut reg = MinecraftPaths::new();
    reg.add("/games/minecraft", empty_listing());
    reg.add("/games/minecraft", empty_listing());
    assert_eq!(reg.all().len(), 1);
    assert_eq!(reg.all()[0].get_path(), "/games/minecraft");
}

#[test]
fn adding_same_path_with_name_is_still_a_duplicate() {
    let mut reg = MinecraftPaths::new();
    reg.add("/games/minecraft", empty_listing());
    reg.add_with_name("/games/minecraft", "Second", empty_listing());
    assert_eq!(reg.all().len(), 1);
    assert_eq!(reg.all()[0].get_display_name(), "/games/minecraft");
}

#[test]
fn different_path_strings_are_distinct_roots() {
    let mut reg = MinecraftPaths::new();
    reg.add("/games/minecraft", empty_listing());
    reg.add("/games/minecraft/", empty_listing());
    reg.add("/Games/Minecraft", empty_listing());
    assert_eq!(reg.all().len(), 3);
}

#[test]
fn by_path_matches_exactly() {
    let mut reg = MinecraftPaths::new();
    reg.add_with_name("/a", "First", empty_listing());
    reg.add("/b", empty_listing());
    let found = reg.by_path("/a").unwrap();
    assert_eq!(found.get_display_name(), "First");
    assert!(reg.by_path("/A").is_none());
    assert!(reg.by_path("/c").is_none());
}

#[test]
fn registry_starts_empty() {
    let reg = MinecraftPaths::new();
    assert_eq!(reg.all().len(), 0);
    assert!(reg.by_path("/anything").is_none());
}
