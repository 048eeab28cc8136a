//! Tests of the video file resolver: base-name matching with a single
//! trailing-extension strip.

use yt_backup::resolve::{extensions_for_title, split_file_name};

fn names(v: &[&str]) -> Vec<String> {
    v.iter().map(|s| s.to_string()).collect()
}

#[test]
fn split_plain_name() {
    let (stem, ext) = split_file_name("Foo.mp4");
    assert_eq!(stem, "Foo");
    assert_eq!(ext.as_deref(), Some("mp4"));
}

#[test]
fn split_strips_one_trailing_extension_only() {
    let (stem, ext) = split_file_name("Foo.info.json");
    assert_eq!(stem, "Foo.info");
    assert_eq!(ext.as_deref(), Some("json"));
}

#[test]
fn split_name_without_extension() {
    let (stem, ext) = split_file_name("Foo");
    assert_eq!(stem, "Foo");
    assert_eq!(ext, None);
}

#[test]
fn split_leading_dot_name_has_no_extension() {
    let (stem, ext) = split_file_name(".config");
    assert_eq!(stem, ".config");
    assert_eq!(ext, None);
}

#[test]
fn resolve_flat_directory_by_base_name() {
    // the sidecar's base name is "Foo.info", not "Foo", so the single
    // trailing-extension rule matches only the video file itself
    let files = names(&["Foo.mp4", "Foo.info.json"]);
    assert_eq!(extensions_for_title(&files, "Foo"), names(&["mp4"]));
    assert_eq!(extensions_for_title(&files, "Foo.info"), names(&["json"]));
}

#[test]
fn title_with_literal_dot_matches() {
    let files = names(&["Ep.1.mp4"]);
    assert_eq!(extensions_for_title(&files, "Ep.1"), names(&["mp4"]));
    assert_eq!(extensions_for_title(&files, "Ep"), names(&[]));
}

#[test]
fn missing_video_yields_empty_set_not_error() {
    let files = names(&["Other.mp4"]);
    assert_eq!(extensions_for_title(&files, "Foo"), names(&[]));
    assert_eq!(extensions_for_title(&names(&[]), "Foo"), names(&[]));
}

#[test]
fn multiple_extensions_for_one_title() {
    let files = names(&["Foo.mp4", "Foo.webm", "Bar.mp4"]);
    assert_eq!(extensions_for_title(&files, "Foo"), names(&["mp4", "webm"]));
}

#[test]
fn extensionless_file_does_not_match() {
    let files = names(&["Foo"]);
    assert_eq!(extensions_for_title(&files, "Foo"), names(&[]));
}

#[test]
fn unicode_title_matches_exactly() {
    let files = names(&["動画タイトル.mp4"]);
    assert_eq!(extensions_for_title(&files, "動画タイトル"), names(&["mp4"]));
}
