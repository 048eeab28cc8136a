//! The link engine: turns a channel's playlists and the files of its flat
//! video directory into a plan of numbered links, one playlist directory per
//! playlist. Link names are `NNN - <title>.<ext>` with a dense, 1-based,
//! zero-padded index that follows the order of the filtered title listing.
//! The engine only plans; the surrounding program creates the links,
//! treating an entry that already exists as success, and on a relink run
//! empties the playlist directory first. The flat video directory is never
//! written to by a linking pass.

use vstd::prelude::*;

verus! {

use vstd::string::StrSliceExecFns;
use vstd::string::StringExecFns;
use crate::config::Channel;
use crate::resolve::{extensions_for_title, spec_extensions};
use crate::text::{padded_decimal, spec_decimal, spec_join, spec_lines, spec_zero_pad, split_lines,
    str_eq, join_path};

/// Why a channel's linking pass failed. A missing video file is not here: it
/// is a warning, and the pass continues.
#[derive(Clone, Copy, Debug, PartialEq, Eq, Structural)]
pub enum LinkError {
    /// The channel has no URL to query for its playlist listing.
    NoChannelUrl,
    /// The listing collaborator failed or returned text that could not be
    /// decoded.
    ListingUnavailable,
    /// A directory or link operation failed for a reason other than the
    /// entry already existing.
    FilesystemError,
}

impl LinkError {
    /// A fixed description of the failure.
    pub fn message(&self) -> (r: &'static str)
        ensures
            *self == LinkError::NoChannelUrl ==> r@ == "no channel url"@,
            *self == LinkError::ListingUnavailable ==> r@ == "playlist listing unavailable"@,
            *self == LinkError::FilesystemError ==> r@ == "filesystem operation failed"@,
    {
        match self {
            LinkError::NoChannelUrl => "no channel url",
            LinkError::ListingUnavailable => "playlist listing unavailable",
            LinkError::FilesystemError => "filesystem operation failed",
        }
    }
}

/// The URL a channel's created-playlists listing is fetched from.
pub open spec fn spec_listing_url(url: Seq<char>) -> Seq<char> {
    url + "/playlists?view=1"@
}

/// The listing URL of a channel: its URL with the created-playlists query
/// appended. Fails with `NoChannelUrl` exactly when the channel has no URL.
pub fn channel_listing_url(chan: &Channel) -> (r: Result<String, LinkError>)
    ensures
        chan.url is Some ==> r is Ok && r->Ok_0@ == spec_listing_url(chan.url->0@),
        chan.url is None ==> r == Err::<String, LinkError>(LinkError::NoChannelUrl),
{
    match &chan.url {
        Some(u) => {
            let mut s = u.clone();
            s.append("/playlists?view=1");
            Ok(s)
        },
        None => Err(LinkError::NoChannelUrl),
    }
}

/// Whether a listing line names an available video: not empty, and not one
/// of the unavailable-video sentinels.
pub open spec fn spec_keep_title(t: Seq<char>) -> bool {
    &&& t.len() > 0
    &&& t != "[Private video]"@
    &&& t != "[Deleted video]"@
}

/// The available titles among `lines`, in listing order.
pub open spec fn spec_kept_titles(lines: Seq<Seq<char>>) -> Seq<Seq<char>>
    decreases lines.len(),
{
    if lines.len() == 0 {
        Seq::empty()
    } else {
        spec_kept_titles(lines.drop_last()) + if spec_keep_title(lines.last()) {
            seq![lines.last()]
        } else {
            Seq::<Seq<char>>::empty()
        }
    }
}

/// The video titles of a raw per-playlist listing: its lines, minus empty
/// lines and the unavailable-video sentinels, in listing order.
pub open spec fn spec_video_titles(raw: Seq<char>) -> Seq<Seq<char>> {
    spec_kept_titles(spec_lines(raw))
}

proof fn lemma_kept_titles_take_succ(lines: Seq<Seq<char>>, i: int)
    requires
        0 <= i < lines.len(),
    ensures
        spec_kept_titles(lines.take(i + 1)) == spec_kept_titles(lines.take(i)) + if spec_keep_title(
            lines[i],
        ) {
            seq![lines[i]]
        } else {
            Seq::<Seq<char>>::empty()
        },
{
    assert(lines.take(i + 1).drop_last() =~= lines.take(i));
    assert(lines.take(i + 1).last() == lines[i]);
}

/// Splits a raw video-title listing into lines and drops empty lines and the
/// sentinels `[Private video]` and `[Deleted video]`; the surviving titles
/// keep their listing order.
pub fn filter_video_titles(raw: &str) -> (r: Vec<String>)
    ensures
        r.deep_view() == spec_video_titles(raw@),
{
    let lines = split_lines(raw);
    let ghost ls = lines.deep_view();
    let mut out: Vec<String> = Vec::new();
    let mut i: usize = 0;
    proof {
        assert(ls.take(0) =~= Seq::<Seq<char>>::empty());
        assert(out.deep_view() =~= Seq::<Seq<char>>::empty());
    }
    while i < lines.len()
        invariant
            ls == lines.deep_view(),
            lines@.len() == ls.len(),
            0 <= i <= ls.len(),
            out.deep_view() == spec_kept_titles(ls.take(i as int)),
        decreases ls.len() - i,
    {
        proof {
            lemma_kept_titles_take_succ(ls, i as int);
            assert(lines@[i as int]@ == ls[i as int]);
        }
        let t = &lines[i];
        if !t.as_str().is_empty() && !str_eq(t.as_str(), "[Private video]") && !str_eq(
            t.as_str(),
            "[Deleted video]",
        ) {
            let ghost prev = out.deep_view();
            out.push(t.clone());
            proof {
                assert(out.deep_view() =~= prev.push(ls[i as int]));
            }
        } else {
            proof {
                assert(spec_kept_titles(ls.take(i as int + 1)) =~= out.deep_view());
            }
        }
        i += 1;
    }
    proof {
        assert(ls.take(ls.len() as int) =~= ls);
    }
    out
}

/// The name of the link at zero-based position `pos` of a playlist view:
/// the 1-based index, zero-padded to at least three digits, then
/// `" - <title>.<ext>"`.
pub open spec fn spec_link_name(pos: nat, title: Seq<char>, ext: Seq<char>) -> Seq<char> {
    spec_zero_pad(spec_decimal(pos + 1), 3) + " - "@ + title + "."@ + ext
}

/// The name a flat video file has: `<title>.<ext>`.
pub open spec fn spec_source_name(title: Seq<char>, ext: Seq<char>) -> Seq<char> {
    title + "."@ + ext
}

/// Builds the link name for position `pos` (zero-based) of a playlist view.
pub fn link_file_name(pos: usize, title: &str, ext: &str) -> (r: String)
    requires
        pos < usize::MAX,
    ensures
        r@ == spec_link_name(pos as nat, title@, ext@),
{
    let mut s = padded_decimal((pos as u64) + 1, 3);
    s.append(" - ");
    s.append(title);
    s.append(".");
    s.append(ext);
    s
}

/// Builds the file name a title has in the flat video directory.
pub fn source_file_name(title: &str, ext: &str) -> (r: String)
    ensures
        r@ == spec_source_name(title@, ext@),
{
    let mut s = String::from_str(title);
    s.append(".");
    s.append(ext);
    s
}

/// One link to create: the numbered name inside the playlist directory and
/// the name of the flat file it points at.
#[derive(Clone, Debug)]
pub struct LinkEntry {
    pub link_name: String,
    pub source_name: String,
}

/// The characters of a planned link.
pub ghost struct LinkEntryView {
    pub link_name: Seq<char>,
    pub source_name: Seq<char>,
}

impl View for LinkEntry {
    type V = LinkEntryView;

    open spec fn view(&self) -> LinkEntryView {
        LinkEntryView { link_name: self.link_name@, source_name: self.source_name@ }
    }
}

impl DeepView for LinkEntry {
    type V = LinkEntryView;

    open spec fn deep_view(&self) -> LinkEntryView {
        self@
    }
}

/// The links planned for the title at zero-based position `pos`: one per
/// extension present for it, in extension listing order.
pub open spec fn spec_title_entries(pos: nat, title: Seq<char>, exts: Seq<Seq<char>>) -> Seq<
    LinkEntryView,
> {
    Seq::new(
        exts.len(),
        |j: int|
            LinkEntryView {
                link_name: spec_link_name(pos, title, exts[j]),
                source_name: spec_source_name(title, exts[j]),
            },
    )
}

/// The whole plan for a playlist: for every title, in listing order, one
/// link per matching flat file. A title with no matching file contributes
/// nothing; duplicate titles each keep their own numbered links.
pub open spec fn spec_plan(titles: Seq<Seq<char>>, files: Seq<Seq<char>>) -> Seq<LinkEntryView>
    decreases titles.len(),
{
    if titles.len() == 0 {
        Seq::empty()
    } else {
        spec_plan(titles.drop_last(), files) + spec_title_entries(
            (titles.len() - 1) as nat,
            titles.last(),
            spec_extensions(files, titles.last()),
        )
    }
}

proof fn lemma_plan_take_succ(titles: Seq<Seq<char>>, files: Seq<Seq<char>>, i: int)
    requires
        0 <= i < titles.len(),
    ensures
        spec_plan(titles.take(i + 1), files) == spec_plan(titles.take(i), files)
            + spec_title_entries(i as nat, titles[i], spec_extensions(files, titles[i])),
{
    assert(titles.take(i + 1).drop_last() =~= titles.take(i));
    assert(titles.take(i + 1).last() == titles[i]);
}

/// Plans the links of one playlist: for each title at zero-based position
/// `i` of `titles`, and for each extension a flat file with that base name
/// has, the numbered link name and the flat file name it points at. Titles
/// with no matching file are skipped (the caller reports them as warnings).
pub fn plan_playlist_links(titles: &Vec<String>, file_names: &Vec<String>) -> (r: Vec<LinkEntry>)
    ensures
        r.deep_view() == spec_plan(titles.deep_view(), file_names.deep_view()),
{
    let ghost ts = titles.deep_view();
    let ghost fs = file_names.deep_view();
    let n_titles = titles.len();
    let mut out: Vec<LinkEntry> = Vec::new();
    let mut i: usize = 0;
    proof {
        assert(ts.take(0) =~= Seq::<Seq<char>>::empty());
        assert(out.deep_view() =~= Seq::<LinkEntryView>::empty());
    }
    while i < n_titles
        invariant
            ts == titles.deep_view(),
            fs == file_names.deep_view(),
            n_titles == titles@.len(),
            titles@.len() == ts.len(),
            0 <= i <= ts.len(),
            out.deep_view() == spec_plan(ts.take(i as int), fs),
        decreases ts.len() - i,
    {
        proof {
            lemma_plan_take_succ(ts, fs, i as int);
            assert(titles@[i as int]@ == ts[i as int]);
        }
        let title = &titles[i];
        let exts = extensions_for_title(file_names, title.as_str());
        let ghost evs = exts.deep_view();
        let ghost entries = spec_title_entries(i as nat, ts[i as int], evs);
        let mut j: usize = 0;
        proof {
            assert(entries.take(0) =~= Seq::<LinkEntryView>::empty());
            assert(out.deep_view() + entries.take(0) =~= out.deep_view());
        }
        let ghost base = out.deep_view();
        while j < exts.len()
            invariant
                evs == exts.deep_view(),
                exts@.len() == evs.len(),
                0 <= j <= evs.len(),
                i < n_titles,
                n_titles == ts.len(),
                entries == spec_title_entries(i as nat, ts[i as int], evs),
                entries.len() == evs.len(),
                title@ == ts[i as int],
                out.deep_view() == base + entries.take(j as int),
            decreases evs.len() - j,
        {
            proof {
                assert(exts@[j as int]@ == evs[j as int]);
            }
            let ext = &exts[j];
            let entry = LinkEntry {
                link_name: link_file_name(i, title.as_str(), ext.as_str()),
                source_name: source_file_name(title.as_str(), ext.as_str()),
            };
            proof {
                assert(entry@ == entries[j as int]);
            }
            let ghost prev = out.deep_view();
            let ghost ev = entry@;
            out.push(entry);
            proof {
                assert(out.deep_view() =~= prev.push(ev));
                assert(entries.take(j as int + 1) =~= entries.take(j as int).push(
                    entries[j as int],
                ));
                assert(out.deep_view() =~= base + entries.take(j as int + 1));
            }
            j += 1;
        }
        proof {
            assert(entries.take(evs.len() as int) =~= entries);
        }
        i += 1;
    }
    proof {
        assert(ts.take(ts.len() as int) =~= ts);
    }
    out
}

/// The plan a raw per-playlist title listing produces against the given flat
/// files: the listing is filtered of empty lines and unavailable-video
/// sentinels first, and the numbering follows positions in the filtered
/// list, not the raw one.
pub open spec fn spec_plan_of_listing(raw: Seq<char>, files: Seq<Seq<char>>) -> Seq<LinkEntryView> {
    spec_plan(spec_video_titles(raw), files)
}

/// Plans a playlist's links straight from its raw title listing.
pub fn plan_from_listing(raw: &str, file_names: &Vec<String>) -> (r: Vec<LinkEntry>)
    ensures
        r.deep_view() == spec_plan_of_listing(raw@, file_names.deep_view()),
{
    let titles = filter_video_titles(raw);
    plan_playlist_links(&titles, file_names)
}

/// The flat video directory of a channel: `root/<channel>/<video dir name>`.
pub fn video_dir_path(root: &str, channel_name: &str, video_dir_name: &str) -> (r: String)
    ensures
        r@ == spec_join(spec_join(root@, channel_name@), video_dir_name@),
{
    let base = join_path(root, channel_name);
    join_path(base.as_str(), video_dir_name)
}

/// The directory of one playlist view: `root/<channel>/<playlist name>`.
pub fn playlist_dir_path(root: &str, channel_name: &str, playlist_name: &str) -> (r: String)
    ensures
        r@ == spec_join(spec_join(root@, channel_name@), playlist_name@),
{
    let base = join_path(root, channel_name);
    join_path(base.as_str(), playlist_name)
}

/// The set of link names a plan creates.
pub open spec fn spec_plan_link_names(plan: Seq<LinkEntryView>) -> Set<Seq<char>> {
    plan.map_values(|e: LinkEntryView| e.link_name).to_set()
}

/// A playlist directory after a non-destructive linking pass: every link of
/// the plan is present, and an entry that already existed is left in place —
/// "already exists" counts as success.
pub open spec fn spec_apply_plan(dir: Set<Seq<char>>, plan: Seq<LinkEntryView>) -> Set<Seq<char>> {
    dir + spec_plan_link_names(plan)
}

/// A playlist directory after a relink pass: it is emptied first, so exactly
/// the plan's link names remain, whatever `dir` held before.
pub open spec fn spec_rebuild_plan(dir: Set<Seq<char>>, plan: Seq<LinkEntryView>) -> Set<
    Seq<char>,
> {
    spec_plan_link_names(plan)
}

/// Linking the same plan twice without relink leaves the same directory as
/// linking it once: the second pass only meets entries that already exist.
pub proof fn lemma_linking_idempotent(dir: Set<Seq<char>>, plan: Seq<LinkEntryView>)
    ensures
        spec_apply_plan(spec_apply_plan(dir, plan), plan) == spec_apply_plan(dir, plan),
{
    assert(spec_apply_plan(spec_apply_plan(dir, plan), plan) =~= spec_apply_plan(dir, plan));
}

/// A relink pass yields the same directory whatever was present before, and
/// no pre-existing entry survives it unless the plan recreates it.
pub proof fn lemma_relink_resets(
    before1: Set<Seq<char>>,
    before2: Set<Seq<char>>,
    plan: Seq<LinkEntryView>,
)
    ensures
        spec_rebuild_plan(before1, plan) == spec_rebuild_plan(before2, plan),
        forall|n: Seq<char>|
            before1.contains(n) && !spec_plan_link_names(plan).contains(n) ==> !spec_rebuild_plan(
                before1,
                plan,
            ).contains(n),
{
}

/// The directories of one channel that a linking pass touches: its flat
/// video directory and one playlist directory view.
pub ghost struct ChannelDirs {
    pub flat: Set<Seq<char>>,
    pub playlist_dir: Set<Seq<char>>,
}

/// One linking pass over a channel's directories: only the playlist
/// directory changes — rebuilt from scratch on a relink run, extended by the
/// plan's links otherwise.
pub open spec fn spec_link_pass(s: ChannelDirs, plan: Seq<LinkEntryView>, relink: bool) -> ChannelDirs {
    ChannelDirs {
        flat: s.flat,
        playlist_dir: if relink {
            spec_rebuild_plan(s.playlist_dir, plan)
        } else {
            spec_apply_plan(s.playlist_dir, plan)
        },
    }
}

/// A linking pass, relink or not, never touches the flat video directory.
pub proof fn lemma_link_pass_preserves_flat(s: ChannelDirs, plan: Seq<LinkEntryView>, relink: bool)
    ensures
        spec_link_pass(s, plan, relink).flat == s.flat,
{
}

/// After a relink pass the playlist directory holds exactly the plan's link
/// names.
pub proof fn lemma_relink_rebuilds(s: ChannelDirs, plan: Seq<LinkEntryView>)
    ensures
        spec_link_pass(s, plan, true).playlist_dir == spec_plan_link_names(plan),
{
}

} // verus!
