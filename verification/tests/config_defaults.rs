//! Tests of the configuration defaults and channel URL derivation.

use yt_backup::config::{
    config_path_candidates, default_channel_url, default_link_type, default_video_dir_name,
    with_default_urls, Channel, LinkType,
};

#[test]
fn defaults_match_the_documented_values() {
    assert_eq!(default_video_dir_name(), "_videos");
    assert_eq!(default_link_type(), LinkType::Hard);
}

#[test]
fn channel_url_follows_the_template() {
    assert_eq!(default_channel_url("foo"), "https://youtube.com/c/foo");
}

#[test]
fn missing_urls_are_filled_and_existing_ones_kept() {
    let channels = vec![
        Channel { name: "a".to_string(), url: None },
        Channel {
            name: "b".to_string(),
            url: Some("https://example.invalid/b".to_string()),
        },
    ];
    let filled = with_default_urls(channels);
    assert_eq!(filled.len(), 2);
    assert_eq!(filled[0].name, "a");
    assert_eq!(filled[0].url.as_deref(), Some("https://youtube.com/c/a"));
    assert_eq!(filled[1].name, "b");
    assert_eq!(filled[1].url.as_deref(), Some("https://example.invalid/b"));
}

#[test]
fn config_candidates_are_probed_in_order() {
    let all = config_path_candidates(
        Some("given.toml".to_string()),
        Some("/home/u/.config".to_string()),
    );
    assert_eq!(
        all,
        vec![
            "given.toml".to_string(),
            "./config.toml".to_string(),
            "/home/u/.config/yt-backup/config.toml".to_string(),
        ]
    );

    let no_cli = config_path_candidates(None, Some("/cfg".to_string()));
    assert_eq!(
        no_cli,
        vec![
            "./config.toml".to_string(),
            "/cfg/yt-backup/config.toml".to_string(),
        ]
    );

    let bare = config_path_candidates(None, None);
    assert_eq!(bare, vec!["./config.toml".to_string()]);
}
