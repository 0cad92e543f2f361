//! The parcel bins of the preview: which generator or surface a parcel draws.
use vstd::prelude::*;

verus! {

/// The kind of wire a parcel holds; it decides the parcel's colour, its capture name
/// and its place in the drawing order.
#[derive(Clone, Copy, Debug, PartialEq, Eq, Structural)]
pub enum Bin {
    S2,
    T2,
    K2,
    P2,
    Helicoid,
    Catenoid,
    Theta,
    Hyperboloid,
}

/// The stem of a bin: the name of its capture file and of its command-line flag.
pub open spec fn bin_stem(b: Bin) -> Seq<char> {
    match b {
        Bin::S2 => "s2"@,
        Bin::T2 => "t2"@,
        Bin::K2 => "k2"@,
        Bin::P2 => "p2"@,
        Bin::Helicoid => "helicoid"@,
        Bin::Catenoid => "catenoid"@,
        Bin::Theta => "theta"@,
        Bin::Hyperboloid => "hyperboloid"@,
    }
}

/// `c` with an ASCII capital letter turned into its small letter; other characters stay.
pub open spec fn ascii_lower(c: char) -> char {
    if 'A' <= c && c <= 'Z' {
        ((c as u32) + 32) as char
    } else {
        c
    }
}

/// `s` with every ASCII capital letter turned into its small letter.
pub open spec fn ascii_lowercase(s: Seq<char>) -> Seq<char> {
    s.map_values(|c: char| ascii_lower(c))
}

/// Whether `s` begins with `p`.
pub open spec fn starts_with(s: Seq<char>, p: Seq<char>) -> bool {
    p.len() <= s.len() && s.subrange(0, p.len() as int) == p
}

/// The bin that a file stem names, whatever the case of its ASCII letters: the first
/// of theta, helicoid, catenoid, hyperboloid, s2, t2, k2, p2 that the stem begins with.
pub open spec fn stem_bin(name: Seq<char>) -> Option<Bin> {
    let s = ascii_lowercase(name);
    if starts_with(s, "theta"@) {
        Some(Bin::Theta)
    } else if starts_with(s, "helicoid"@) {
        Some(Bin::Helicoid)
    } else if starts_with(s, "catenoid"@) {
        Some(Bin::Catenoid)
    } else if starts_with(s, "hyperboloid"@) {
        Some(Bin::Hyperboloid)
    } else if starts_with(s, "s2"@) {
        Some(Bin::S2)
    } else if starts_with(s, "t2"@) {
        Some(Bin::T2)
    } else if starts_with(s, "k2"@) {
        Some(Bin::K2)
    } else if starts_with(s, "p2"@) {
        Some(Bin::P2)
    } else {
        None
    }
}

/// Place of a bin in the drawing order: S2, T2, K2, P2, helicoid, catenoid,
/// hyperboloid, theta.
pub open spec fn bin_rank(b: Bin) -> nat {
    match b {
        Bin::S2 => 0,
        Bin::T2 => 1,
        Bin::K2 => 2,
        Bin::P2 => 3,
        Bin::Helicoid => 4,
        Bin::Catenoid => 5,
        Bin::Hyperboloid => 6,
        Bin::Theta => 7,
    }
}

/// Whether `s` with its ASCII letters lowered begins with `p`.
fn lowered_starts_with(s: &str, p: &str) -> (r: bool)
    ensures
        r == starts_with(ascii_lowercase(s@), p@),
{
    let n = p.unicode_len();
    let m = s.unicode_len();
    if n > m {
        return false;
    }
    let ghost low = ascii_lowercase(s@);
    let mut i: usize = 0;
    while i < n
        invariant
            n == p@.len(),
            m == s@.len(),
            n <= m,
            i <= n,
            low == ascii_lowercase(s@),
            forall|j: int| 0 <= j < i ==> low[j] == p@[j],
        decreases n - i,
    {
        let c = s.get_char(i);
        let t = p.get_char(i);
        let same = if 'A' <= c && c <= 'Z' {
            (c as u32) + 32 == t as u32
        } else {
            c == t
        };
        assert(low[i as int] == ascii_lower(c));
        if !same {
            assert(low.subrange(0, n as int)[i as int] != p@[i as int]);
            return false;
        }
        i = i + 1;
    }
    assert(low.subrange(0, n as int) =~= p@);
    true
}

impl Bin {
    /// The bin's stem.
    pub fn stem(self) -> (s: &'static str)
        ensures
            s@ == bin_stem(self),
    {
        match self {
            Bin::S2 => "s2",
            Bin::T2 => "t2",
            Bin::K2 => "k2",
            Bin::P2 => "p2",
            Bin::Helicoid => "helicoid",
            Bin::Catenoid => "catenoid",
            Bin::Theta => "theta",
            Bin::Hyperboloid => "hyperboloid",
        }
    }

    /// The bin that a file stem names, if any (see [`stem_bin`]).
    pub fn from_stem(name: &str) -> (r: Option<Self>)
        ensures
            r == stem_bin(name@),
    {
        if lowered_starts_with(name, "theta") {
            Some(Bin::Theta)
        } else if lowered_starts_with(name, "helicoid") {
            Some(Bin::Helicoid)
        } else if lowered_starts_with(name, "catenoid") {
            Some(Bin::Catenoid)
        } else if lowered_starts_with(name, "hyperboloid") {
            Some(Bin::Hyperboloid)
        } else if lowered_starts_with(name, "s2") {
            Some(Bin::S2)
        } else if lowered_starts_with(name, "t2") {
            Some(Bin::T2)
        } else if lowered_starts_with(name, "k2") {
            Some(Bin::K2)
        } else if lowered_starts_with(name, "p2") {
            Some(Bin::P2)
        } else {
            None
        }
    }

    /// The bin's place in the drawing order (see [`bin_rank`]).
    pub fn rank(self) -> (r: u8)
        ensures
            r == bin_rank(self),
    {
        match self {
            Bin::S2 => 0,
            Bin::T2 => 1,
            Bin::K2 => 2,
            Bin::P2 => 3,
            Bin::Helicoid => 4,
            Bin::Catenoid => 5,
            Bin::Hyperboloid => 6,
            Bin::Theta => 7,
        }
    }
}

proof fn lemma_differs_at(s: Seq<char>, p: Seq<char>, j: int)
    requires
        0 <= j < p.len(),
        j < s.len(),
        s[j] != p[j],
    ensures
        !starts_with(s, p),
{
    if p.len() <= s.len() {
        assert(s.subrange(0, p.len() as int)[j] != p[j]);
    }
}

proof fn lemma_is_prefix(s: Seq<char>, p: Seq<char>)
    requires
        s == p,
    ensures
        starts_with(s, p),
{
    assert(s.subrange(0, p.len() as int) =~= p);
}

/// A stem names a bin by its prefix: a bin's stem followed by anything (such as
/// `_edges`) names that bin.
pub proof fn lemma_stem_prefix_names_its_bin(b: Bin, t: Seq<char>)
    ensures
        stem_bin(bin_stem(b) + t) == Some(b),
{
    reveal_strlit("s2");
    reveal_strlit("t2");
    reveal_strlit("k2");
    reveal_strlit("p2");
    reveal_strlit("helicoid");
    reveal_strlit("catenoid");
    reveal_strlit("theta");
    reveal_strlit("hyperboloid");
    let stem = bin_stem(b);
    let s = ascii_lowercase(stem + t);
    assert forall|j: int| 0 <= j < stem.len() implies s[j] == stem[j] by {
        assert((stem + t)[j] == stem[j]);
    }
    assert(s.subrange(0, stem.len() as int) =~= stem);
    assert(starts_with(s, stem));
    match b {
        Bin::Theta => {},
        Bin::Helicoid => {
            lemma_differs_at(s, "theta"@, 0);
        },
        Bin::Catenoid => {
            lemma_differs_at(s, "theta"@, 0);
            lemma_differs_at(s, "helicoid"@, 0);
        },
        Bin::Hyperboloid => {
            lemma_differs_at(s, "theta"@, 0);
            lemma_differs_at(s, "helicoid"@, 1);
            lemma_differs_at(s, "catenoid"@, 0);
        },
        Bin::S2 => {
            lemma_differs_at(s, "theta"@, 0);
            lemma_differs_at(s, "helicoid"@, 0);
            lemma_differs_at(s, "catenoid"@, 0);
            lemma_differs_at(s, "hyperboloid"@, 0);
        },
        Bin::T2 => {
            lemma_differs_at(s, "theta"@, 1);
            lemma_differs_at(s, "helicoid"@, 0);
            lemma_differs_at(s, "catenoid"@, 0);
            lemma_differs_at(s, "hyperboloid"@, 0);
            lemma_differs_at(s, "s2"@, 0);
        },
        Bin::K2 => {
            lemma_differs_at(s, "theta"@, 0);
            lemma_differs_at(s, "helicoid"@, 0);
            lemma_differs_at(s, "catenoid"@, 0);
            lemma_differs_at(s, "hyperboloid"@, 0);
            lemma_differs_at(s, "s2"@, 0);
            lemma_differs_at(s, "t2"@, 0);
        },
        Bin::P2 => {
            lemma_differs_at(s, "theta"@, 0);
            lemma_differs_at(s, "helicoid"@, 0);
            lemma_differs_at(s, "catenoid"@, 0);
            lemma_differs_at(s, "hyperboloid"@, 0);
            lemma_differs_at(s, "s2"@, 0);
            lemma_differs_at(s, "t2"@, 0);
            lemma_differs_at(s, "k2"@, 0);
        },
    }
}

/// Reading back the stem of a bin names that bin.
pub proof fn lemma_stem_names_its_bin(b: Bin)
    ensures
        stem_bin(bin_stem(b)) == Some(b),
{
    lemma_stem_prefix_names_its_bin(b, Seq::empty());
    assert(bin_stem(b) + Seq::<char>::empty() =~= bin_stem(b));
}

/// Distinct bins have distinct stems.
pub proof fn lemma_stems_distinct(a: Bin, b: Bin)
    ensures
        a != b ==> bin_stem(a) != bin_stem(b),
{
    lemma_stem_names_its_bin(a);
    lemma_stem_names_its_bin(b);
}

/// The case of ASCII letters in a stem does not change the bin it names.
pub proof fn lemma_stem_case_blind(name: Seq<char>)
    ensures
        stem_bin(ascii_lowercase(name)) == stem_bin(name),
{
    assert(ascii_lowercase(ascii_lowercase(name)) =~= ascii_lowercase(name));
}

} // verus!
