//! Parsing playlist identifiers out of free-form listing lines.
//!
//! A listing line has the shape `<name> [<34-char id>].<2-char suffix>`. The
//! parser works on Unicode scalar values, so multi-byte names count the same
//! way as ASCII ones. A line that does not have the shape yields no playlist
//! and is skipped; a whole listing is therefore a lossy, filtering map from
//! lines to playlists, never a hard error.

use vstd::prelude::*;

verus! {

use vstd::string::StrSliceExecFns;
use crate::text::{spec_lines, split_lines};

/// One playlist of a channel: an opaque 34-character identifier and a
/// human-readable display name, used as a directory name.
#[derive(Clone, Debug)]
pub struct Playlist {
    pub id: String,
    pub name: String,
}

/// The characters of a playlist: its identifier and display name.
pub ghost struct PlaylistView {
    pub id: Seq<char>,
    pub name: Seq<char>,
}

impl View for Playlist {
    type V = PlaylistView;

    open spec fn view(&self) -> PlaylistView {
        PlaylistView { id: self.id@, name: self.name@ }
    }
}

impl DeepView for Playlist {
    type V = PlaylistView;

    open spec fn deep_view(&self) -> PlaylistView {
        self@
    }
}

/// Whether a line has the listing shape `<name> [<34-char id>].<suffix>`:
/// at least 41 characters (a non-empty name, the bracketed 34-character
/// identifier, and the 2-character suffix), with the separating space, the
/// bracket pair and the dot at their fixed distances from the end.
pub open spec fn line_parses(s: Seq<char>) -> bool {
    &&& s.len() >= 41
    &&& s[s.len() - 40] == ' '
    &&& s[s.len() - 39] == '['
    &&& s[s.len() - 4] == ']'
    &&& s[s.len() - 3] == '.'
}

/// The display name of a parsing line: everything before the separating
/// space and opening bracket.
pub open spec fn parsed_name(s: Seq<char>) -> Seq<char> {
    s.take(s.len() - 40)
}

/// The identifier of a parsing line: the 34 characters between the brackets.
pub open spec fn parsed_id(s: Seq<char>) -> Seq<char> {
    s.subrange(s.len() - 38, s.len() - 4)
}

/// The playlist a listing line yields: its identifier and name when the line
/// has the listing shape, nothing otherwise.
pub open spec fn spec_playlist_of_line(l: Seq<char>) -> Option<PlaylistView> {
    if line_parses(l) {
        Some(PlaylistView { id: parsed_id(l), name: parsed_name(l) })
    } else {
        None
    }
}

/// Parses one listing line. Returns the playlist exactly when the line has
/// the listing shape; a short line or one without the bracket pair yields
/// `None`.
pub fn parse_playlist_line(line: &str) -> (r: Option<Playlist>)
    ensures
        r.deep_view() == spec_playlist_of_line(line@),
{
    let n = line.unicode_len();
    if n < 41 {
        return None;
    }
    if line.get_char(n - 40) != ' ' {
        return None;
    }
    if line.get_char(n - 39) != '[' {
        return None;
    }
    if line.get_char(n - 4) != ']' {
        return None;
    }
    if line.get_char(n - 3) != '.' {
        return None;
    }
    let name = line.substring_char(0, n - 40).to_owned();
    let id = line.substring_char(n - 38, n - 4).to_owned();
    proof {
        assert(name@ =~= parsed_name(line@));
    }
    Some(Playlist { id, name })
}

/// The playlists of a listing's lines, in listing order: each line that has
/// the listing shape contributes one playlist, every other line is skipped.
pub open spec fn spec_playlists(lines: Seq<Seq<char>>) -> Seq<PlaylistView>
    decreases lines.len(),
{
    if lines.len() == 0 {
        Seq::empty()
    } else {
        spec_playlists(lines.drop_last()) + match spec_playlist_of_line(lines.last()) {
            Some(p) => seq![p],
            None => Seq::<PlaylistView>::empty(),
        }
    }
}

proof fn lemma_playlists_take_succ(lines: Seq<Seq<char>>, i: int)
    requires
        0 <= i < lines.len(),
    ensures
        spec_playlists(lines.take(i + 1)) == spec_playlists(lines.take(i)) + match spec_playlist_of_line(
            lines[i],
        ) {
            Some(p) => seq![p],
            None => Seq::<PlaylistView>::empty(),
        },
{
    assert(lines.take(i + 1).drop_last() =~= lines.take(i));
    assert(lines.take(i + 1).last() == lines[i]);
}

/// Parses a raw newline-delimited playlist listing, keeping each line that
/// has the listing shape and silently dropping every other line.
pub fn parse_playlists(listing: &str) -> (r: Vec<Playlist>)
    ensures
        r.deep_view() == spec_playlists(spec_lines(listing@)),
{
    let lines = split_lines(listing);
    let ghost ls = lines.deep_view();
    let mut out: Vec<Playlist> = Vec::new();
    let mut i: usize = 0;
    proof {
        assert(ls.take(0) =~= Seq::<Seq<char>>::empty());
        assert(out.deep_view() =~= Seq::<PlaylistView>::empty());
    }
    while i < lines.len()
        invariant
            ls == lines.deep_view(),
            lines@.len() == ls.len(),
            0 <= i <= ls.len(),
            out.deep_view() == spec_playlists(ls.take(i as int)),
        decreases ls.len() - i,
    {
        proof {
            lemma_playlists_take_succ(ls, i as int);
            assert(lines@[i as int]@ == ls[i as int]);
        }
        match parse_playlist_line(lines[i].as_str()) {
            Some(p) => {
                let ghost prev = out.deep_view();
                out.push(p);
                proof {
                    assert(out.deep_view() =~= prev.push(p@));
                }
            },
            None => {
                proof {
                    assert(spec_playlists(ls.take(i as int + 1)) =~= out.deep_view());
                }
            },
        }
        i += 1;
    }
    proof {
        assert(ls.take(ls.len() as int) =~= ls);
    }
    out
}

/// Whether a line parses, and where its identifier lies, depend only on
/// character counts and on the characters at fixed distances from the end —
/// never on byte lengths. Two lines of equal character count whose last 40
/// characters agree parse alike and yield the same identifier and equally
/// long names, whatever characters (multi-byte included) their names hold.
pub proof fn lemma_parse_char_count_semantics(s: Seq<char>, t: Seq<char>)
    requires
        s.len() == t.len(),
        s.len() >= 41 ==> s.skip(s.len() - 40) == t.skip(t.len() - 40),
    ensures
        line_parses(s) == line_parses(t),
        line_parses(s) ==> parsed_id(s) == parsed_id(t),
        line_parses(s) ==> parsed_name(s).len() == parsed_name(t).len(),
{
    if s.len() >= 41 {
        let n = s.len() as int;
        assert(s.skip(n - 40)[0] == s[n - 40] && t.skip(n - 40)[0] == t[n - 40]);
        assert(s.skip(n - 40)[1] == s[n - 39] && t.skip(n - 40)[1] == t[n - 39]);
        assert(s.skip(n - 40)[36] == s[n - 4] && t.skip(n - 40)[36] == t[n - 4]);
        assert(s.skip(n - 40)[37] == s[n - 3] && t.skip(n - 40)[37] == t[n - 3]);
        if line_parses(s) || line_parses(t) {
            assert forall|k: int| 0 <= k < 34 implies #[trigger] parsed_id(s)[k] == parsed_id(
                t,
            )[k] by {
                assert(parsed_id(s)[k] == s[n - 38 + k]);
                assert(s.skip(n - 40)[k + 2] == s[n - 38 + k]);
                assert(t.skip(n - 40)[k + 2] == t[n - 38 + k]);
                assert(parsed_id(t)[k] == t[n - 38 + k]);
            }
            assert(parsed_id(s) =~= parsed_id(t));
        }
    }
}

/// Round trip: any string assembled as `name + " [" + id + "]." + suffix`
/// from a non-empty name, a 34-character identifier and a 2-character suffix
/// has the listing shape, and parses back to exactly that name and that
/// identifier.
pub proof fn lemma_parse_round_trip(name: Seq<char>, id: Seq<char>, suffix: Seq<char>)
    requires
        name.len() >= 1,
        id.len() == 34,
        suffix.len() == 2,
    ensures
        line_parses(name + " ["@ + id + "]."@ + suffix),
        parsed_name(name + " ["@ + id + "]."@ + suffix) == name,
        parsed_id(name + " ["@ + id + "]."@ + suffix) == id,
{
    reveal_strlit(" [");
    reveal_strlit("].");
    let s = name + " ["@ + id + "]."@ + suffix;
    assert(s.len() == name.len() + 40);
    assert(s[s.len() - 40] == ' ');
    assert(s[s.len() - 39] == '[');
    assert(s[s.len() - 4] == ']');
    assert(s[s.len() - 3] == '.');
    assert(parsed_name(s) =~= name);
    assert(parsed_id(s) =~= id);
}

} // verus!
