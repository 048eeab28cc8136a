//! Matching a logical video title against the files of a flat video
//! directory. A file represents a title when its base name — the file name
//! minus its single trailing extension — equals the title character for
//! character, so a title containing a literal dot (`Ep.1` with file
//! `Ep.1.mp4`) still matches. A missing file is an expected condition and
//! shows up as an empty result, never as an error.

use vstd::prelude::*;

verus! {

use vstd::string::StrSliceExecFns;
use crate::text::str_eq;

/// The position of the last `'.'` in `s`, or `-1` when there is none.
pub open spec fn spec_last_dot(s: Seq<char>) -> int
    decreases s.len(),
{
    if s.len() == 0 {
        -1
    } else if s[s.len() - 1] == '.' {
        s.len() - 1
    } else {
        spec_last_dot(s.drop_last())
    }
}

/// The base name of a file name: everything before the last `'.'`, or the
/// whole name when it has no extension. A dot in first position alone (a
/// leading-dot name such as `.config`) starts no extension.
pub open spec fn spec_file_stem(s: Seq<char>) -> Seq<char> {
    let d = spec_last_dot(s);
    if d <= 0 {
        s
    } else {
        s.take(d)
    }
}

/// The single trailing extension of a file name: everything after the last
/// `'.'`, or nothing when the name has no extension.
pub open spec fn spec_file_ext(s: Seq<char>) -> Option<Seq<char>> {
    let d = spec_last_dot(s);
    if d <= 0 {
        None
    } else {
        Some(s.skip(d + 1))
    }
}

/// Splits a file name into its base name and its single trailing extension.
pub fn split_file_name(name: &str) -> (r: (String, Option<String>))
    ensures
        r.0@ == spec_file_stem(name@),
        r.1.deep_view() == spec_file_ext(name@),
{
    let n = name.unicode_len();
    let mut i = n;
    proof {
        assert(name@.take(n as int) =~= name@);
    }
    while i > 0
        invariant
            n == name@.len(),
            0 <= i <= n,
            spec_last_dot(name@) == spec_last_dot(name@.take(i as int)),
        ensures
            n == name@.len(),
            0 <= i <= n,
            i == 0 ==> spec_last_dot(name@) == -1,
            i > 0 ==> spec_last_dot(name@) == i - 1,
        decreases i,
    {
        proof {
            assert(name@.take(i as int).len() == i);
            assert(name@.take(i as int).last() == name@[i as int - 1]);
            assert(name@.take(i as int).drop_last() =~= name@.take(i as int - 1));
        }
        if name.get_char(i - 1) == '.' {
            break;
        }
        i -= 1;
        proof {
            if i == 0 {
                assert(name@.take(0) =~= Seq::<char>::empty());
            }
        }
    }
    if i <= 1 {
        // no dot at all, or only a leading dot: the whole name is the stem
        (name.to_owned(), None)
    } else {
        let stem = name.substring_char(0, i - 1).to_owned();
        let ext = name.substring_char(i, n).to_owned();
        proof {
            assert(stem@ =~= spec_file_stem(name@));
            assert(ext@ =~= name@.skip(i as int));
        }
        (stem, Some(ext))
    }
}

/// The extension `f` contributes for `title`: its trailing extension when its
/// base name equals the title and it has an extension, nothing otherwise.
pub open spec fn spec_ext_for_title(f: Seq<char>, title: Seq<char>) -> Option<Seq<char>> {
    if spec_file_stem(f) == title {
        spec_file_ext(f)
    } else {
        None
    }
}

/// The extensions present for `title` among `files`, in listing order: one
/// entry for each file whose base name equals the title and which has a
/// trailing extension.
pub open spec fn spec_extensions(files: Seq<Seq<char>>, title: Seq<char>) -> Seq<Seq<char>>
    decreases files.len(),
{
    if files.len() == 0 {
        Seq::empty()
    } else {
        spec_extensions(files.drop_last(), title) + match spec_ext_for_title(files.last(), title) {
            Some(e) => seq![e],
            None => Seq::<Seq<char>>::empty(),
        }
    }
}

proof fn lemma_extensions_take_succ(files: Seq<Seq<char>>, title: Seq<char>, i: int)
    requires
        0 <= i < files.len(),
    ensures
        spec_extensions(files.take(i + 1), title) == spec_extensions(files.take(i), title)
            + match spec_ext_for_title(files[i], title) {
            Some(e) => seq![e],
            None => Seq::<Seq<char>>::empty(),
        },
{
    assert(files.take(i + 1).drop_last() =~= files.take(i));
    assert(files.take(i + 1).last() == files[i]);
}

/// Returns the extensions of every file in `file_names` that represents
/// `title`: same base name, any single trailing extension. The result is
/// empty — not an error — when no file matches.
pub fn extensions_for_title(file_names: &Vec<String>, title: &str) -> (r: Vec<String>)
    ensures
        r.deep_view() == spec_extensions(file_names.deep_view(), title@),
{
    let ghost fs = file_names.deep_view();
    let mut out: Vec<String> = Vec::new();
    let mut i: usize = 0;
    proof {
        assert(fs.take(0) =~= Seq::<Seq<char>>::empty());
        assert(out.deep_view() =~= Seq::<Seq<char>>::empty());
    }
    while i < file_names.len()
        invariant
            fs == file_names.deep_view(),
            file_names@.len() == fs.len(),
            0 <= i <= fs.len(),
            out.deep_view() == spec_extensions(fs.take(i as int), title@),
        decreases fs.len() - i,
    {
        proof {
            lemma_extensions_take_succ(fs, title@, i as int);
            assert(file_names@[i as int]@ == fs[i as int]);
        }
        let (stem, ext) = split_file_name(file_names[i].as_str());
        if str_eq(stem.as_str(), title) {
            match ext {
                Some(e) => {
                    let ghost prev = out.deep_view();
                    let ghost ev = e@;
                    out.push(e);
                    proof {
                        assert(out.deep_view() =~= prev.push(ev));
                    }
                },
                None => {
                    proof {
                        assert(spec_extensions(fs.take(i as int + 1), title@) =~= out.deep_view());
                    }
                },
            }
        } else {
            proof {
                assert(spec_extensions(fs.take(i as int + 1), title@) =~= out.deep_view());
            }
        }
        i += 1;
    }
    proof {
        assert(fs.take(fs.len() as int) =~= fs);
    }
    out
}

} // verus!
