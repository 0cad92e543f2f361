//! File stems of parcel paths, and the names under which captures are written.
use vstd::prelude::*;
use crate::bins::{bin_stem, lemma_stem_names_its_bin, lemma_stems_distinct, stem_bin, Bin};

verus! {

/// The file stem that `std::path::Path::file_stem` finds in `path`, as text: the final
/// component without its extension; `None` where the path has no file name. It depends
/// on the path's text alone, under the path rules of the target the crate is built for.
pub uninterp spec fn path_file_stem(path: Seq<char>) -> Option<Seq<char>>;

/// Calls `std::path::Path::file_stem` on `path` and turns the stem into a `String`.
/// Trusted to return exactly [`path_file_stem`] of the path's text: the stem of a
/// `&str` path is always valid UTF-8, so the conversion never drops it.
#[verifier::external_body]
pub(crate) fn file_stem(path: &str) -> (r: Option<String>)
    ensures
        match r {
            Some(s) => path_file_stem(path@) == Some(s@),
            None => path_file_stem(path@) is None,
        },
{
    let stem = std::path::Path::new(path).file_stem()?;
    Some(stem.to_str()?.to_string())
}

/// `s` without a trailing `_edges`, if it has one.
pub open spec fn strip_edges_suffix(s: Seq<char>) -> Seq<char> {
    if s.len() >= 6 && s.subrange(s.len() - 6, s.len() as int) == "_edges"@ {
        s.subrange(0, s.len() - 6)
    } else {
        s
    }
}

/// The capture name of a theta parcel whose file stem is `stem`: the stem (or `theta`
/// where there is none) without a trailing `_edges`.
pub open spec fn capture_stem_of(stem: Option<Seq<char>>) -> Seq<char> {
    strip_edges_suffix(
        match stem {
            Some(s) => s,
            None => "theta"@,
        },
    )
}

fn strip_edges(s: &str) -> (r: String)
    ensures
        r@ == strip_edges_suffix(s@),
{
    let suffix = "_edges";
    proof {
        reveal_strlit("_edges");
    }
    let n = s.unicode_len();
    if n < 6 {
        return String::from_str(s);
    }
    let base = n - 6;
    let mut j: usize = 0;
    while j < 6
        invariant
            n == s@.len(),
            base == n - 6,
            suffix@ == "_edges"@,
            suffix@.len() == 6,
            j <= 6,
            forall|k: int| 0 <= k < j ==> s@[base + k] == suffix@[k],
        decreases 6 - j,
    {
        if s.get_char(base + j) != suffix.get_char(j) {
            assert(s@.subrange(base as int, n as int)[j as int] != suffix@[j as int]);
            return String::from_str(s);
        }
        j = j + 1;
    }
    assert(s@.subrange(base as int, n as int) =~= "_edges"@);
    String::from_str(s.substring_char(0, base))
}

/// The capture name of a theta parcel, from the file stem of its path.
pub fn capture_stem(stem: Option<&str>) -> (r: String)
    ensures
        r@ == capture_stem_of(
            match stem {
                Some(s) => Some(s@),
                None => None,
            },
        ),
{
    match stem {
        Some(s) => strip_edges(s),
        None => strip_edges("theta"),
    }
}

/// The capture name of a theta parcel read from `path`.
pub fn theta_capture_stem(path: &str) -> (r: String)
    ensures
        r@ == capture_stem_of(path_file_stem(path@)),
{
    match file_stem(path) {
        Some(s) => capture_stem(Some(s.as_str())),
        None => capture_stem(None),
    }
}

/// The name under which the still of a parcel is captured: `last` when only one parcel
/// is drawn; otherwise the theta capture name for a theta parcel and the bin's stem
/// for any other.
pub open spec fn capture_name_of(multi: bool, bin: Bin, path: Seq<char>) -> Seq<char> {
    if !multi {
        "last"@
    } else if bin is Theta {
        capture_stem_of(path_file_stem(path))
    } else {
        bin_stem(bin)
    }
}

/// The name under which the still of the parcel at `path` in `bin` is captured.
pub fn capture_name(multi: bool, bin: Bin, path: &str) -> (r: String)
    ensures
        r@ == capture_name_of(multi, bin, path@),
{
    if !multi {
        String::from_str("last")
    } else if let Bin::Theta = bin {
        theta_capture_stem(path)
    } else {
        String::from_str(bin.stem())
    }
}

/// Capture names of stills: a lone parcel is captured as `last`; among several, a
/// parcel in any bin but theta is captured under its own bin's stem, whatever its path,
/// so the name reads back as that bin and two such bins never share a file.
pub proof fn lemma_still_capture_names(multi: bool, b: Bin, c: Bin, p: Seq<char>, q: Seq<char>)
    ensures
        !multi ==> capture_name_of(multi, b, p) == "last"@,
        multi && b != Bin::Theta ==> capture_name_of(multi, b, p) == bin_stem(b),
        multi && b != Bin::Theta ==> stem_bin(capture_name_of(multi, b, p)) == Some(b),
        multi && b != Bin::Theta && c != Bin::Theta && b != c ==> capture_name_of(multi, b, p)
            != capture_name_of(multi, c, q),
{
    lemma_stem_names_its_bin(b);
    lemma_stems_distinct(b, c);
}

} // verus!
