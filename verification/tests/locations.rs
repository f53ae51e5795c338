use asset_pipelines::location::SourceLocation;
use asset_pipelines::out_asset::asset_id_from_url;
use asset_pipelines::text::ellipsis_text;

fn at(path: &str) -> SourceLocation {
    SourceLocation::parse(path).expect("a path without a backslash")
}

#[test]
fn parse_keeps_the_path_and_has_no_fragment() {
    let location = at("project/a.png");
    assert_eq!(location.path(), "project/a.png");
    assert_eq!(location.fragment(), None);
}

#[test]
fn parse_refuses_a_backslash() {
    assert!(SourceLocation::parse("project\\a.png").is_none());
    assert!(SourceLocation::parse("\\").is_none());
    assert!(SourceLocation::parse("").is_some());
}

#[test]
fn with_fragment_sets_and_replaces_the_fragment() {
    let manifest = at("project/pipeline.json");
    let first = manifest.with_fragment(0);
    assert_eq!(first.path(), "project/pipeline.json");
    assert_eq!(first.fragment(), Some(0));
    let again = first.with_fragment(7);
    assert_eq!(again.fragment(), Some(7));
    assert_eq!(manifest.fragment(), None);
}

#[test]
fn same_as_compares_path_and_fragment() {
    let a = at("project/a.png");
    assert!(a.same_as(&at("project/a.png")));
    assert!(!a.same_as(&at("project/b.png")));
    assert!(!a.same_as(&a.with_fragment(0)));
    assert!(a.with_fragment(1).same_as(&a.with_fragment(1)));
    assert!(!a.with_fragment(1).same_as(&a.with_fragment(2)));
    assert!(a.clone().same_as(&a));
}

#[test]
fn file_name_is_the_last_segment() {
    assert_eq!(at("project/sub/foo.script_bundle").file_name(), "foo.script_bundle");
    assert_eq!(at("foo.txt").file_name(), "foo.txt");
    assert_eq!(at("project/").file_name(), "");
    assert_eq!(at("").file_name(), "");
}

#[test]
fn directory_ends_with_the_last_slash() {
    assert_eq!(at("project/sub/pipeline.json").directory(), "project/sub/");
    assert_eq!(at("pipeline.json").directory(), "");
    assert_eq!(at("/pipeline.json").directory(), "/");
    assert_eq!(at("project/").directory(), "project/");
}

#[test]
fn extension_follows_the_last_dot_of_the_file_name() {
    assert_eq!(at("project/a.png").extension(), Some("png".to_string()));
    assert_eq!(at("project/a.tar.gz").extension(), Some("gz".to_string()));
    assert_eq!(at("project.d/readme").extension(), None);
    assert_eq!(at("project/a.").extension(), Some(String::new()));
    assert_eq!(at("project/.hidden").extension(), Some("hidden".to_string()));
    assert_eq!(at("").extension(), None);
}

#[test]
fn path_ends_with_tests_the_tail() {
    let manifest = at("project/pipeline.json");
    assert!(manifest.path_ends_with("pipeline.json"));
    assert!(manifest.path_ends_with(""));
    assert!(manifest.path_ends_with("project/pipeline.json"));
    assert!(!manifest.path_ends_with("a/project/pipeline.json"));
    assert!(!manifest.path_ends_with("pipeline.jso"));
}

#[test]
fn relative_path_strips_the_root() {
    assert_eq!(at("project").relative_path("project/sub/a.png"), "sub/a.png");
    assert_eq!(at("project/").relative_path("project/sub/a.png"), "sub/a.png");
    assert_eq!(at("project/").relative_path("project/"), "");
    assert_eq!(at("").relative_path("project/a.png"), "project/a.png");
}

#[test]
fn relative_path_keeps_what_lies_outside_the_root() {
    assert_eq!(at("proj").relative_path("project/a.png"), "project/a.png");
    assert_eq!(at("project/").relative_path("other/a.png"), "other/a.png");
    assert_eq!(at("project").relative_path("project"), "project");
}

#[test]
fn asset_ids_tell_locations_apart() {
    let a = at("project/a.glb");
    let id = asset_id_from_url(&a);
    assert!(id.location.same_as(&a));
    let derived = asset_id_from_url(&a.with_fragment(3));
    assert!(!derived.location.same_as(&id.location));
    assert_eq!(derived.location.fragment(), Some(3));
}

#[test]
fn ellipsis_text_keeps_a_short_text() {
    assert_eq!(ellipsis_text("short".to_string()), "short");
    assert_eq!(ellipsis_text(String::new()), "");
    let thirty = "a".repeat(30);
    assert_eq!(ellipsis_text(thirty.clone()), thirty);
}

#[test]
fn ellipsis_text_cuts_after_thirty_bytes() {
    let long = "0123456789012345678901234567890123456789".to_string();
    assert_eq!(ellipsis_text(long), "012345678901234567890123456789...");
    assert_eq!(ellipsis_text("b".repeat(31)), format!("{}...", "b".repeat(30)));
}

#[test]
fn ellipsis_text_counts_bytes_not_characters() {
    // Fifteen two-byte characters fill the thirty bytes.
    let text = format!("{}tail", "é".repeat(15));
    assert_eq!(ellipsis_text(text), format!("{}...", "é".repeat(15)));
    // Twenty of them are forty bytes: the cut falls after the fifteenth.
    assert_eq!(ellipsis_text("é".repeat(20)), format!("{}...", "é".repeat(15)));
}
