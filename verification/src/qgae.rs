//! QGAE edge files turned into wire parcels.
//!
//! A QGAE file is a 12-byte header followed by packed edges:
//! the magic `QGAE`, the format version (little-endian `u32`), the edge count `n`
//! (little-endian `u32`), then `n` edges of two endpoints of three little-endian
//! IEEE-754 binary32 coordinates each (24 bytes per edge).
//!
//! Coordinates are kept as their binary32 bit patterns: a coordinate read from the
//! file is exactly the `u32` that `f32::from_bits` turns back into the stored float.
use vstd::prelude::*;
use crate::text::{decimal, push_decimal};

verus! {

/// The four bytes that open every QGAE file: `b"QGAE"`.
pub const MAGIC: [u8; 4] = [0x51, 0x47, 0x41, 0x45];

/// The only format version this reader accepts.
pub const VERSION: u32 = 1;

/// Size of the header: magic, version and edge count.
pub const HEADER_LEN: usize = 12;

/// A hub orb: its centre and radius, each coordinate as a binary32 bit pattern.
#[derive(Clone, Copy, Debug, Default, PartialEq)]
pub struct Hub {
    pub pos: [u32; 3],
    pub radius: u32,
}

/// What one QGAE file carries: line segments, and hubs (a QGAE file brings none).
///
/// `edges[i][end][k]` is coordinate `k` of endpoint `end` of edge `i`, as a binary32
/// bit pattern.
#[derive(Clone, Debug, Default, PartialEq)]
pub struct WireParcel {
    pub edges: Vec<[[u32; 3]; 2]>,
    pub hubs: Vec<Hub>,
}

#[verifier::external_type_specification]
#[verifier::external_body]
pub struct ExIoError(std::io::Error);

/// Why a QGAE file was refused.
#[derive(Debug)]
pub enum ConvertError {
    /// The file could not be read.
    Io(std::io::Error),
    /// The file does not open with `QGAE`; `got` holds its first four bytes.
    NotQgae { got: [u8; 4] },
    /// A 32-byte file without the magic: a pixel record, never read as edges.
    PixelAlias,
    /// The header names a version other than [`VERSION`].
    BadVersion(u32),
    /// The file ends before its header or before its last edge.
    Truncated,
}

impl From<std::io::Error> for ConvertError {
    fn from(e: std::io::Error) -> (r: Self) {
        ConvertError::Io(e)
    }
}

impl vstd::std_specs::convert::FromSpecImpl<std::io::Error> for ConvertError {
    open spec fn obeys_from_spec() -> bool {
        true
    }

    open spec fn from_spec(e: std::io::Error) -> Self {
        ConvertError::Io(e)
    }
}

// ---------------------------------------------------------------------------
// The format, as a function on bytes
// ---------------------------------------------------------------------------

/// The little-endian `u32` stored at `off`.
pub open spec fn le_u32(b: Seq<u8>, off: int) -> u32 {
    (b[off] + 256 * b[off + 1] + 65536 * b[off + 2] + 16777216 * b[off + 3]) as u32
}

/// Whether `b` opens with the magic.
pub open spec fn has_magic(b: Seq<u8>) -> bool {
    b.len() >= 4 && b.subrange(0, 4) == MAGIC@
}

/// Byte offset of coordinate `k` of endpoint `end` of edge `i`.
pub open spec fn coord_offset(i: int, end: int, k: int) -> int {
    12 + 24 * i + 12 * end + 4 * k
}

/// Edge `i` as stored in `b`.
pub open spec fn edge_at(b: Seq<u8>, i: int) -> [[u32; 3]; 2] {
    [
        [
            le_u32(b, coord_offset(i, 0, 0)),
            le_u32(b, coord_offset(i, 0, 1)),
            le_u32(b, coord_offset(i, 0, 2)),
        ],
        [
            le_u32(b, coord_offset(i, 1, 0)),
            le_u32(b, coord_offset(i, 1, 1)),
            le_u32(b, coord_offset(i, 1, 2)),
        ],
    ]
}

/// The first `n` edges stored in `b`.
pub open spec fn edges_of(b: Seq<u8>, n: nat) -> Seq<[[u32; 3]; 2]> {
    Seq::new(n, |i: int| edge_at(b, i))
}

/// The edge count that the header of `b` declares.
pub open spec fn declared_count(b: Seq<u8>) -> u32 {
    le_u32(b, 8)
}

/// What reading `b` as a QGAE file gives: the edges it stores, or why it is refused.
/// The checks come in this order: pixel record, short header, magic, version, length.
pub open spec fn qgae_edges(b: Seq<u8>) -> Result<Seq<[[u32; 3]; 2]>, ConvertError> {
    if b.len() == 32 && !has_magic(b) {
        Err(ConvertError::PixelAlias)
    } else if b.len() < 12 {
        Err(ConvertError::Truncated)
    } else if !has_magic(b) {
        Err(ConvertError::NotQgae { got: [b[0], b[1], b[2], b[3]] })
    } else if le_u32(b, 4) != VERSION {
        Err(ConvertError::BadVersion(le_u32(b, 4)))
    } else if b.len() < 12 + 24 * declared_count(b) {
        Err(ConvertError::Truncated)
    } else {
        Ok(edges_of(b, declared_count(b) as nat))
    }
}

// ---------------------------------------------------------------------------
// Reading
// ---------------------------------------------------------------------------

fn read_le_u32(b: &[u8], off: usize) -> (r: u32)
    requires
        off + 4 <= b@.len(),
    ensures
        r == le_u32(b@, off as int),
{
    b[off] as u32 + 256 * (b[off + 1] as u32) + 65536 * (b[off + 2] as u32) + 16777216 * (
    b[off + 3] as u32)
}

fn starts_with_magic(b: &[u8]) -> (r: bool)
    requires
        b@.len() >= 4,
    ensures
        r == has_magic(b@),
{
    let r = b[0] == MAGIC[0] && b[1] == MAGIC[1] && b[2] == MAGIC[2] && b[3] == MAGIC[3];
    assert(r ==> b@.subrange(0, 4) =~= MAGIC@);
    r
}

fn read_edge(b: &[u8], i: usize) -> (r: [[u32; 3]; 2])
    requires
        12 + 24 * i + 24 <= b@.len(),
    ensures
        r == edge_at(b@, i as int),
{
    let _len = b.len();
    let off = 12 + 24 * i;
    [
        [read_le_u32(b, off), read_le_u32(b, off + 4), read_le_u32(b, off + 8)],
        [read_le_u32(b, off + 12), read_le_u32(b, off + 16), read_le_u32(b, off + 20)],
    ]
}

/// Reads a QGAE file held in memory.
///
/// The result is exactly [`qgae_edges`]: the parcel holds the declared number of edges,
/// read in file order (bytes past the last edge are ignored), and no hubs; or the error
/// of the first check that the bytes fail.
pub fn parse_qgae(bytes: &[u8]) -> (res: Result<WireParcel, ConvertError>)
    ensures
        match res {
            Ok(p) => qgae_edges(bytes@) == Ok::<Seq<[[u32; 3]; 2]>, ConvertError>(p.edges@)
                && p.hubs@.len() == 0,
            Err(e) => qgae_edges(bytes@) == Err::<Seq<[[u32; 3]; 2]>, ConvertError>(e),
        },
{
    let len = bytes.len();
    if len == 32 && !starts_with_magic(bytes) {
        return Err(ConvertError::PixelAlias);
    }
    if len < HEADER_LEN {
        return Err(ConvertError::Truncated);
    }
    if !starts_with_magic(bytes) {
        return Err(ConvertError::NotQgae { got: [bytes[0], bytes[1], bytes[2], bytes[3]] });
    }
    let version = read_le_u32(bytes, 4);
    if version != VERSION {
        return Err(ConvertError::BadVersion(version));
    }
    let n = read_le_u32(bytes, 8);
    let need: u64 = 12 + (n as u64) * 24;
    if (len as u64) < need {
        return Err(ConvertError::Truncated);
    }
    let n = n as usize;
    let mut edges: Vec<[[u32; 3]; 2]> = Vec::new();
    let mut i: usize = 0;
    while i < n
        invariant
            n == declared_count(bytes@),
            12 + 24 * n <= bytes@.len(),
            i <= n,
            edges@ == edges_of(bytes@, i as nat),
        decreases n - i,
    {
        let e = read_edge(bytes, i);
        edges.push(e);
        i = i + 1;
        assert(edges@ =~= edges_of(bytes@, i as nat));
    }
    Ok(WireParcel { edges, hubs: Vec::new() })
}

// ---------------------------------------------------------------------------
// Messages
// ---------------------------------------------------------------------------

/// Four bytes as a bracketed, comma-separated list of decimals: `[81, 71, 65, 69]`.
pub open spec fn byte_list(g: Seq<u8>) -> Seq<char> {
    "["@ + decimal(g[0] as nat) + ", "@ + decimal(g[1] as nat) + ", "@ + decimal(g[2] as nat)
        + ", "@ + decimal(g[3] as nat) + "]"@
}

/// The message that tells a reader what went wrong (for all but a read failure,
/// whose message is the one the operating system gave).
pub open spec fn convert_message(e: ConvertError) -> Seq<char> {
    match e {
        ConvertError::Io(_) => Seq::empty(),
        ConvertError::NotQgae { got } => "not QGAE magic: "@ + byte_list(got@),
        ConvertError::PixelAlias =>
            "32-byte file without QGAE; will not alias qga_pixel onto GpuParticle"@,
        ConvertError::BadVersion(v) => "unsupported QGAE version "@ + decimal(v as nat),
        ConvertError::Truncated => "truncated QGAE file"@,
    }
}

fn push_byte_list(out: &mut String, g: &[u8; 4])
    ensures
        final(out)@ == old(out)@ + byte_list(g@),
{
    out.append("[");
    push_decimal(out, g[0] as u32);
    out.append(", ");
    push_decimal(out, g[1] as u32);
    out.append(", ");
    push_decimal(out, g[2] as u32);
    out.append(", ");
    push_decimal(out, g[3] as u32);
    out.append("]");
    assert(out@ =~= old(out)@ + byte_list(g@));
}

impl ConvertError {
    /// The error's message, as its display shows it.
    pub fn message(&self) -> (s: String)
        ensures
            !(self is Io) ==> s@ == convert_message(*self),
            self matches ConvertError::Io(e) ==> vstd::string::to_string_from_display_ensures::<
                std::io::Error,
            >(&e, s),
    {
        match self {
            ConvertError::Io(e) => e.to_string(),
            ConvertError::NotQgae { got } => {
                let mut s = String::from_str("not QGAE magic: ");
                push_byte_list(&mut s, got);
                s
            },
            ConvertError::PixelAlias => String::from_str(
                "32-byte file without QGAE; will not alias qga_pixel onto GpuParticle",
            ),
            ConvertError::BadVersion(v) => {
                let mut s = String::from_str("unsupported QGAE version ");
                push_decimal(&mut s, *v);
                s
            },
            ConvertError::Truncated => String::from_str("truncated QGAE file"),
        }
    }
}

} // verus!
