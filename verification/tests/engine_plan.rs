//! Tests of the link engine: title filtering, link numbering, plan
//! construction, idempotence, and the channel listing URL.

use yt_backup::config::Channel;
use yt_backup::engine::{
    channel_listing_url, filter_video_titles, link_file_name, plan_from_listing,
    plan_playlist_links, playlist_dir_path, source_file_name, video_dir_path, LinkError,
};

fn names(v: &[&str]) -> Vec<String> {
    v.iter().map(|s| s.to_string()).collect()
}

#[test]
fn filter_drops_empty_lines_and_sentinels() {
    let raw = "First\n[Private video]\nSecond\n\n[Deleted video]\nThird\n";
    assert_eq!(
        filter_video_titles(raw),
        names(&["First", "Second", "Third"])
    );
}

#[test]
fn filter_keeps_listing_order() {
    let raw = "b\na\nc";
    assert_eq!(filter_video_titles(raw), names(&["b", "a", "c"]));
}

#[test]
fn link_names_are_one_based_and_zero_padded() {
    assert_eq!(link_file_name(0, "T", "mp4"), "001 - T.mp4");
    assert_eq!(link_file_name(9, "T", "mp4"), "010 - T.mp4");
    assert_eq!(link_file_name(41, "Ep.1", "webm"), "042 - Ep.1.webm");
    assert_eq!(link_file_name(999, "T", "mp4"), "1000 - T.mp4");
}

#[test]
fn source_name_joins_title_and_extension() {
    assert_eq!(source_file_name("Ep.1", "mp4"), "Ep.1.mp4");
}

#[test]
fn private_video_renumbers_the_survivors() {
    // five raw titles, the second one unavailable: four links remain and the
    // numbering follows the filtered positions, not the raw ones
    let raw = "v1\n[Private video]\nv2\nv3\nv4\n";
    let files = names(&["v1.mp4", "v2.mp4", "v3.mp4", "v4.mp4"]);
    let plan = plan_from_listing(raw, &files);
    let got: Vec<(String, String)> = plan
        .iter()
        .map(|e| (e.link_name.clone(), e.source_name.clone()))
        .collect();
    assert_eq!(
        got,
        vec![
            ("001 - v1.mp4".to_string(), "v1.mp4".to_string()),
            ("002 - v2.mp4".to_string(), "v2.mp4".to_string()),
            ("003 - v3.mp4".to_string(), "v3.mp4".to_string()),
            ("004 - v4.mp4".to_string(), "v4.mp4".to_string()),
        ]
    );
}

#[test]
fn one_link_per_extension_present() {
    let titles = names(&["Foo", "Bar"]);
    let files = names(&["Foo.mp4", "Foo.webm", "Bar.mkv"]);
    let plan = plan_playlist_links(&titles, &files);
    let got: Vec<(String, String)> = plan
        .iter()
        .map(|e| (e.link_name.clone(), e.source_name.clone()))
        .collect();
    assert_eq!(
        got,
        vec![
            ("001 - Foo.mp4".to_string(), "Foo.mp4".to_string()),
            ("001 - Foo.webm".to_string(), "Foo.webm".to_string()),
            ("002 - Bar.mkv".to_string(), "Bar.mkv".to_string()),
        ]
    );
}

#[test]
fn missing_video_is_skipped_without_renumbering_gap() {
    // the missing title keeps its position: its links are absent but the
    // numbering of the others is unchanged
    let titles = names(&["Here", "Missing", "AlsoHere"]);
    let files = names(&["Here.mp4", "AlsoHere.mp4"]);
    let plan = plan_playlist_links(&titles, &files);
    let got: Vec<String> = plan.iter().map(|e| e.link_name.clone()).collect();
    assert_eq!(got, names(&["001 - Here.mp4", "003 - AlsoHere.mp4"]));
}

#[test]
fn duplicate_titles_each_keep_their_numbered_link() {
    let titles = names(&["Same", "Same"]);
    let files = names(&["Same.mp4"]);
    let plan = plan_playlist_links(&titles, &files);
    let got: Vec<String> = plan.iter().map(|e| e.link_name.clone()).collect();
    assert_eq!(got, names(&["001 - Same.mp4", "002 - Same.mp4"]));
}

#[test]
fn planning_twice_yields_identical_link_sets() {
    let raw = "v1\nv2\n";
    let files = names(&["v1.mp4", "v2.mp4", "v2.webm"]);
    let first: Vec<(String, String)> = plan_from_listing(raw, &files)
        .iter()
        .map(|e| (e.link_name.clone(), e.source_name.clone()))
        .collect();
    let second: Vec<(String, String)> = plan_from_listing(raw, &files)
        .iter()
        .map(|e| (e.link_name.clone(), e.source_name.clone()))
        .collect();
    assert_eq!(first, second);
}

#[test]
fn listing_url_appends_created_playlists_query() {
    let chan = Channel {
        name: "c1".to_string(),
        url: Some("https://example.invalid/chan".to_string()),
    };
    let url = channel_listing_url(&chan).expect("channel has a URL");
    assert_eq!(url, "https://example.invalid/chan/playlists?view=1");
}

#[test]
fn listing_url_fails_without_channel_url() {
    let chan = Channel { name: "c1".to_string(), url: None };
    assert_eq!(channel_listing_url(&chan), Err(LinkError::NoChannelUrl));
}

#[test]
fn error_messages_name_the_failure() {
    assert_eq!(LinkError::NoChannelUrl.message(), "no channel url");
    assert_eq!(
        LinkError::ListingUnavailable.message(),
        "playlist listing unavailable"
    );
    assert_eq!(
        LinkError::FilesystemError.message(),
        "filesystem operation failed"
    );
}

#[test]
fn directory_paths_follow_the_layout() {
    assert_eq!(video_dir_path("root", "chan", "_videos"), "root/chan/_videos");
    assert_eq!(
        playlist_dir_path("root", "chan", "My Playlist"),
        "root/chan/My Playlist"
    );
}
