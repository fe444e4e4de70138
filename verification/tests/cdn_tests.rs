use cdn_mirror::cdn::{
    download_url, join_url, output_path, resources_base_url, resources_url,
    strip_leading_separator, CDNEntry, DefaultIndex, IndexResponse,
};

fn index(cdn: &str, resources: &str, base_path: &str) -> IndexResponse {
    IndexResponse {
        default: DefaultIndex {
            cdnList: vec![CDNEntry { url: cdn.to_string() }],
            resources: resources.to_string(),
            resourcesBasePath: base_path.to_string(),
            version: "1.0".to_string(),
        },
    }
}

#[test]
fn join_inserts_a_single_separator() {
    assert_eq!(join_url("a", "b"), "a/b");
    assert_eq!(join_url("", ""), "/");
}

#[test]
fn join_preserves_existing_separators() {
    assert_eq!(join_url("base/", "/f"), "base///f");
    assert_eq!(
        download_url("https://cdn.example", "/file.bin"),
        "https://cdn.example//file.bin"
    );
}

#[test]
fn index_urls_are_derived_by_concatenation() {
    let idx = index("https://cdn.example", "res.json", "base");
    assert_eq!(resources_url(&idx), "https://cdn.example/res.json");
    assert_eq!(resources_base_url(&idx), "https://cdn.example/base");
}

#[test]
fn strip_removes_exactly_the_first_character() {
    assert_eq!(strip_leading_separator("/x/y.bin"), "x/y.bin");
    assert_eq!(strip_leading_separator("/"), "");
}

#[test]
fn output_path_joins_root_with_stripped_destination() {
    assert_eq!(output_path("root", "/data/a.bin"), "root/data/a.bin");
    assert_eq!(output_path("out", "/file.bin"), "out/file.bin");
}
