//! Configuration data consumed by the link engine: the root directory, the
//! flat video directory's name, the link policy, and the channels to process.
//! Loading the configuration file itself is left to the surrounding program;
//! this module owns the defaults and the derivation of a channel URL from a
//! channel name.

use vstd::prelude::*;

verus! {

use vstd::string::StringExecFns;
use crate::text::spec_join;

/// Link policy for a whole run: hard links or symbolic links.
#[derive(Clone, Copy, Debug, PartialEq, Eq, Structural)]
pub enum LinkType {
    Hard,
    Soft,
}

/// A content source: its display name and, optionally, the URL it is
/// enumerated from.
#[derive(Clone, Debug)]
pub struct Channel {
    pub name: String,
    pub url: Option<String>,
}

/// The characters of a channel: its name and optional URL.
pub ghost struct ChannelView {
    pub name: Seq<char>,
    pub url: Option<Seq<char>>,
}

impl View for Channel {
    type V = ChannelView;

    open spec fn view(&self) -> ChannelView {
        ChannelView { name: self.name@, url: self.url.deep_view() }
    }
}

impl DeepView for Channel {
    type V = ChannelView;

    open spec fn deep_view(&self) -> ChannelView {
        self@
    }
}

/// Everything a run needs: where the channel directories live, the name of
/// each channel's flat video directory, the link policy, the path of the
/// configuration handed to the external downloader, and the channels.
#[derive(Debug)]
pub struct Config {
    pub root_dir_path: String,
    pub video_dir_name: String,
    pub link_type: LinkType,
    pub ytdlp_config_path: String,
    pub channels: Vec<Channel>,
}

/// The default name of the flat video directory inside a channel directory.
pub fn default_video_dir_name() -> (r: String)
    ensures
        r@ == "_videos"@,
{
    "_videos".to_owned()
}

/// The default link policy.
pub fn default_link_type() -> (r: LinkType)
    ensures
        r == LinkType::Hard,
{
    LinkType::Hard
}

/// The URL a channel is assumed to live at when none is configured.
pub open spec fn spec_default_channel_url(name: Seq<char>) -> Seq<char> {
    "https://youtube.com/c/"@ + name
}

/// Derives a channel URL from the channel's name by the fixed URL template.
pub fn default_channel_url(name: &str) -> (r: String)
    ensures
        r@ == spec_default_channel_url(name@),
{
    let mut s = String::from_str("https://youtube.com/c/");
    s.append(name);
    s
}

/// `c` with its URL filled in from the channel name when it has none.
pub open spec fn spec_with_default_url(c: ChannelView) -> ChannelView {
    if c.url is Some {
        c
    } else {
        ChannelView { name: c.name, url: Some(spec_default_channel_url(c.name)) }
    }
}

/// Fills every missing channel URL from the channel's name; configured URLs
/// and all names are kept as they are.
pub fn with_default_urls(channels: Vec<Channel>) -> (r: Vec<Channel>)
    ensures
        r.deep_view() == channels.deep_view().map_values(
            |c: ChannelView| spec_with_default_url(c),
        ),
{
    let ghost goal = channels.deep_view().map_values(|c: ChannelView| spec_with_default_url(c));
    let mut out: Vec<Channel> = Vec::new();
    let mut i: usize = 0;
    while i < channels.len()
        invariant
            0 <= i <= channels@.len(),
            goal == channels.deep_view().map_values(|c: ChannelView| spec_with_default_url(c)),
            goal.len() == channels@.len(),
            out.deep_view() =~= goal.take(i as int),
        decreases channels@.len() - i,
    {
        let c = &channels[i];
        let filled = match &c.url {
            Some(u) => Channel { name: c.name.clone(), url: Some(u.clone()) },
            None => Channel { name: c.name.clone(), url: Some(default_channel_url(c.name.as_str())) },
        };
        proof {
            assert(filled@ == spec_with_default_url(channels@[i as int]@));
            assert(goal[i as int] == spec_with_default_url(channels@[i as int]@));
        }
        let ghost prev = out.deep_view();
        out.push(filled);
        proof {
            assert(out.deep_view() =~= prev.push(filled@));
            assert(goal.take(i as int + 1) =~= goal.take(i as int).push(goal[i as int]));
        }
        i += 1;
    }
    proof {
        assert(goal.take(goal.len() as int) =~= goal);
    }
    out
}

/// The configuration file paths to try, in order: the path given on the
/// command line, then `./config.toml`, then `config.toml` under the
/// per-installation configuration directory.
pub open spec fn spec_config_path_candidates(
    cli_path: Option<Seq<char>>,
    config_dir: Option<Seq<char>>,
) -> Seq<Seq<char>> {
    let head = if cli_path is Some {
        seq![cli_path->0]
    } else {
        Seq::<Seq<char>>::empty()
    };
    let tail = if config_dir is Some {
        seq![spec_join(spec_join(config_dir->0, "yt-backup"@), "config.toml"@)]
    } else {
        Seq::<Seq<char>>::empty()
    };
    head + seq!["./config.toml"@] + tail
}

/// Lists the configuration file paths to probe, most specific first.
pub fn config_path_candidates(cli_path: Option<String>, config_dir: Option<String>) -> (r: Vec<
    String,
>)
    ensures
        r.deep_view() == spec_config_path_candidates(cli_path.deep_view(), config_dir.deep_view()),
{
    let ghost goal = spec_config_path_candidates(cli_path.deep_view(), config_dir.deep_view());
    let mut out: Vec<String> = Vec::new();
    if let Some(p) = cli_path {
        out.push(p);
    }
    out.push("./config.toml".to_owned());
    if let Some(d) = config_dir {
        let joined = crate::text::join_path(crate::text::join_path(d.as_str(), "yt-backup").as_str(), "config.toml");
        out.push(joined);
    }
    proof {
        assert(out.deep_view() =~= goal);
    }
    out
}

} // verus!
