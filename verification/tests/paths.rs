use syntax_installer::install::{is_installed, prepare_client};
use syntax_installer::layout::{target_path, InstallLayout};
use syntax_installer::manifest::Manifest;
use syntax_installer::planner::create_manifest_dirs;
use syntax_installer::segments::split_segments;
use syntax_installer::tree::{directory_chain, PathIndex};

fn strings(items: &[&str]) -> Vec<String> {
    items.iter().map(|s| s.to_string()).collect()
}

#[test]
fn segments_of_a_plain_path() {
    assert_eq!(split_segments("a/b/c"), strings(&["a", "b", "c"]));
    assert_eq!(split_segments("content"), strings(&["content"]));
}

#[test]
fn empty_segments_are_skipped() {
    assert_eq!(split_segments("/a//b/"), strings(&["a", "b"]));
    assert_eq!(split_segments(""), Vec::<String>::new());
    assert_eq!(split_segments("///"), Vec::<String>::new());
}

#[test]
fn segments_keep_characters_outside_ascii() {
    assert_eq!(split_segments("über/日本/x"), strings(&["über", "日本", "x"]));
}

#[test]
fn chain_lists_every_directory_on_the_way_down() {
    assert_eq!(
        directory_chain("/root", "a/b/c"),
        strings(&["/root/a", "/root/a/b", "/root/a/b/c"])
    );
    assert_eq!(directory_chain("/root", ""), Vec::<String>::new());
    assert_eq!(directory_chain("/root", "//x//"), strings(&["/root/x"]));
}

#[test]
fn target_is_the_last_of_the_chain_or_the_base() {
    assert_eq!(target_path("/root", "a/b"), "/root/a/b");
    assert_eq!(target_path("/root", ""), "/root");
}

#[test]
fn new_index_knows_nothing() {
    let index = PathIndex::new();
    assert!(!index.contains("/"));
    assert!(!index.contains(""));
    assert!(!index.contains("/data"));
}

#[test]
fn record_adds_the_path_and_its_ancestors() {
    let mut index = PathIndex::new();
    index.record("/data/Syntax/Versions");
    assert!(index.contains("/data/Syntax/Versions"));
    assert!(index.contains("/data/Syntax"));
    assert!(index.contains("/data"));
    assert!(!index.contains("/data/Syntax/Versions/v1"));
    assert!(!index.contains("/data/Syntax/"));
    assert!(!index.contains("/dat"));
    assert!(!index.contains(""));
}

#[test]
fn record_twice_changes_nothing() {
    let mut index = PathIndex::new();
    index.record("/a/b");
    index.record("/a/b");
    assert!(index.contains("/a"));
    assert!(index.contains("/a/b"));
    assert!(!index.contains("/a/b/c"));
}

#[test]
fn preparing_a_path_creates_each_prefix() {
    let mut index = PathIndex::new();
    index.record("/v");
    let created = index.ensure_path("/v", "a/b/c");
    assert_eq!(created, strings(&["/v/a", "/v/a/b", "/v/a/b/c"]));
    assert!(index.contains("/v/a"));
    assert!(index.contains("/v/a/b"));
    assert!(index.contains("/v/a/b/c"));
}

#[test]
fn preparing_a_path_skips_what_exists() {
    let mut index = PathIndex::new();
    index.record("/v/a");
    let created = index.ensure_path("/v", "a/b/c");
    assert_eq!(created, strings(&["/v/a/b", "/v/a/b/c"]));
}

#[test]
fn existing_target_is_not_recreated() {
    let mut index = PathIndex::new();
    index.record("/v/a/b/c");
    let created = index.ensure_path("/v", "a/b/c");
    assert!(created.is_empty());
    assert!(index.contains("/v/a/b/c"));
}

#[test]
fn preparing_twice_creates_nothing_the_second_time() {
    let mut index = PathIndex::new();
    let first = index.ensure_path("/v", "x/y");
    assert_eq!(first, strings(&["/v/x", "/v/x/y"]));
    let second = index.ensure_path("/v", "x/y");
    assert!(second.is_empty());
}

#[test]
fn path_without_segments_creates_nothing() {
    let mut index = PathIndex::new();
    assert!(index.ensure_path("/v", "").is_empty());
    assert!(index.ensure_path("/v", "/").is_empty());
    assert!(!index.contains("/v"));
}

#[test]
fn later_paths_find_what_earlier_ones_created() {
    let mut index = PathIndex::new();
    index.record("/v");
    let paths = strings(&["content/fonts", "content/sky", "shaders"]);
    let created = create_manifest_dirs(&mut index, "/v", &paths);
    assert_eq!(
        created,
        strings(&["/v/content", "/v/content/fonts", "/v/content/sky", "/v/shaders"])
    );
    let again = create_manifest_dirs(&mut index, "/v", &paths);
    assert!(again.is_empty());
}

#[test]
fn layout_names_the_directories() {
    let layout = InstallLayout::new("/data");
    let mut index = PathIndex::new();
    index.record("/data");
    let root = layout.get_root_folder(&mut index);
    assert_eq!(root.path, "/data/Syntax");
    assert_eq!(root.created, strings(&["/data/Syntax"]));
    let downloads = layout.get_downloads_folder(&mut index);
    assert_eq!(downloads.path, "/data/Syntax/Downloads");
    assert_eq!(downloads.created, strings(&["/data/Syntax/Downloads"]));
    let versions = layout.get_versions_folder(&mut index);
    assert_eq!(versions.path, "/data/Syntax/Versions");
    assert_eq!(versions.created, strings(&["/data/Syntax/Versions"]));
    let clients = layout.get_clients_folder(&mut index);
    assert_eq!(clients.path, "/data/Syntax/Clients");
    let year = layout.get_client_year_folder(&mut index, "2016");
    assert_eq!(year.path, "/data/Syntax/Clients/2016");
    assert_eq!(year.created, strings(&["/data/Syntax/Clients/2016"]));
    let client = layout.get_client_folder(&mut index, "2016", "v7");
    assert_eq!(client.path, "/data/Syntax/Clients/2016/v7");
    assert_eq!(client.created, strings(&["/data/Syntax/Clients/2016/v7"]));
}

#[test]
fn version_folder_twice_same_path_no_second_creation() {
    let layout = InstallLayout::new("/data");
    let mut index = PathIndex::new();
    index.record("/data");
    let first = layout.get_version_folder(&mut index, "v1");
    assert_eq!(first.path, "/data/Syntax/Versions/v1");
    assert_eq!(
        first.created,
        strings(&["/data/Syntax", "/data/Syntax/Versions", "/data/Syntax/Versions/v1"])
    );
    let second = layout.get_version_folder(&mut index, "v1");
    assert_eq!(second.path, first.path);
    assert!(second.created.is_empty());
}

#[test]
fn version_with_several_segments_is_created_one_by_one() {
    let layout = InstallLayout::new("/data");
    let mut index = PathIndex::new();
    index.record("/data/Syntax/Versions");
    let folder = layout.get_version_folder(&mut index, "2023/build-5");
    assert_eq!(folder.path, "/data/Syntax/Versions/2023/build-5");
    assert_eq!(
        folder.created,
        strings(&["/data/Syntax/Versions/2023", "/data/Syntax/Versions/2023/build-5"])
    );
}

#[test]
fn layout_from_lookup() {
    let found = InstallLayout::from_lookup(Some("/home/u/.local/share".to_string()));
    assert_eq!(found.ok().map(|l| l.local_data), Some("/home/u/.local/share".to_string()));
    let missing = InstallLayout::from_lookup(None);
    assert_eq!(
        missing.err(),
        Some(syntax_installer::error::InstallError::NoLocalDataDirectory)
    );
}

#[test]
fn locate_fails_only_without_a_local_data_directory() {
    match InstallLayout::locate() {
        Ok(layout) => assert!(!layout.local_data.is_empty()),
        Err(e) => assert_eq!(e, syntax_installer::error::InstallError::NoLocalDataDirectory),
    }
}

#[test]
fn install_of_font_manifest_for_v1() {
    let layout = InstallLayout::new("/root");
    let mut index = PathIndex::new();
    index.record("/root");
    let manifest =
        Manifest::from_entries(vec![("font.zip".to_string(), "content/fonts".to_string())])
            .unwrap();
    let version = layout.get_version_folder(&mut index, "v1");
    let created = create_manifest_dirs(&mut index, &version.path, &manifest.paths());
    assert_eq!(
        created,
        strings(&["/root/Syntax/Versions/v1/content", "/root/Syntax/Versions/v1/content/fonts"])
    );
    assert!(index.contains("/root/Syntax/Versions/v1/content/fonts"));
    let version = layout.get_version_folder(&mut index, "v1");
    assert!(version.created.is_empty());
    let created = create_manifest_dirs(&mut index, &version.path, &manifest.paths());
    assert!(created.is_empty());
}

#[test]
fn studio_is_installed_where_its_directory_exists() {
    let layout = InstallLayout::new("/data");
    let mut index = PathIndex::new();
    assert!(!is_installed(&index, Some(&layout), "2021"));
    index.record("/data/Syntax/Versions/2021");
    assert!(is_installed(&index, Some(&layout), "2021"));
    assert!(!is_installed(&index, Some(&layout), "2020"));
    assert!(!is_installed(&index, None, "2021"));
}

#[test]
fn prepare_client_creates_the_version_folder_and_the_manifest_paths() {
    let layout = InstallLayout::new("/data");
    let mut index = PathIndex::new();
    index.record("/data/Syntax/Versions");
    let manifest = Manifest::from_entries(vec![
        ("a.zip".to_string(), "content/textures".to_string()),
        ("b.zip".to_string(), "content".to_string()),
    ])
    .unwrap();
    let prepared = prepare_client(&mut index, &layout, "2018", "v3", &manifest);
    assert_eq!(prepared.path, "/data/Syntax/Versions/v3");
    assert_eq!(
        prepared.created,
        strings(&[
            "/data/Syntax/Versions/v3",
            "/data/Syntax/Versions/v3/content",
            "/data/Syntax/Versions/v3/content/textures",
        ])
    );
    assert!(!index.contains("/data/Syntax/Clients"));
    let again = prepare_client(&mut index, &layout, "2018", "v3", &manifest);
    assert_eq!(again.path, prepared.path);
    assert!(again.created.is_empty());
}

#[test]
fn prepare_client_on_a_fresh_root_for_v1() {
    let layout = InstallLayout::new("/data");
    let mut index = PathIndex::new();
    index.record("/data/Syntax");
    let manifest =
        Manifest::from_entries(vec![("font.zip".to_string(), "content/fonts".to_string())])
            .unwrap();
    let prepared = prepare_client(&mut index, &layout, "2016", "v1", &manifest);
    assert_eq!(prepared.path, "/data/Syntax/Versions/v1");
    assert_eq!(
        prepared.created,
        strings(&[
            "/data/Syntax/Versions",
            "/data/Syntax/Versions/v1",
            "/data/Syntax/Versions/v1/content",
            "/data/Syntax/Versions/v1/content/fonts",
        ])
    );
    assert!(index.contains("/data/Syntax/Versions/v1/content"));
    assert!(index.contains("/data/Syntax/Versions/v1/content/fonts"));
    let other_year = prepare_client(&mut index, &layout, "2020", "v1", &manifest);
    assert_eq!(other_year.path, prepared.path);
    assert!(other_year.created.is_empty());
}
