//! What a QGAE writer puts down, and what reading it back gives.
use vstd::prelude::*;
use crate::qgae::{coord_offset, declared_count, edge_at, edges_of, le_u32, qgae_edges, ConvertError, MAGIC, VERSION};

verus! {

/// The four little-endian bytes of `x`.
pub open spec fn le_bytes(x: u32) -> Seq<u8> {
    seq![(x % 256) as u8, ((x / 256) % 256) as u8, ((x / 65536) % 256) as u8, (x / 16777216) as u8]
}

/// The 24 bytes of one edge: endpoint 0 then endpoint 1, each x, y, z.
pub open spec fn edge_bytes(e: [[u32; 3]; 2]) -> Seq<u8> {
    le_bytes(e[0][0]) + le_bytes(e[0][1]) + le_bytes(e[0][2]) + le_bytes(e[1][0]) + le_bytes(
        e[1][1],
    ) + le_bytes(e[1][2])
}

/// The packed edges, in order.
pub open spec fn edges_bytes(s: Seq<[[u32; 3]; 2]>) -> Seq<u8>
    decreases s.len(),
{
    if s.len() == 0 {
        Seq::empty()
    } else {
        edges_bytes(s.drop_last()) + edge_bytes(s.last())
    }
}

/// A whole QGAE file holding `edges`, as a writer lays it out.
pub open spec fn qgae_file(edges: Seq<[[u32; 3]; 2]>) -> Seq<u8> {
    MAGIC@ + le_bytes(VERSION) + le_bytes(edges.len() as u32) + edges_bytes(edges)
}

proof fn lemma_le_bytes(x: u32, b: Seq<u8>, off: int)
    requires
        0 <= off,
        off + 4 <= b.len(),
        b.subrange(off, off + 4) == le_bytes(x),
    ensures
        le_u32(b, off) == x,
{
    assert(b[off] == le_bytes(x)[0]);
    assert(b[off + 1] == le_bytes(x)[1]);
    assert(b[off + 2] == le_bytes(x)[2]);
    assert(b[off + 3] == le_bytes(x)[3]);
}

proof fn lemma_edges_bytes(s: Seq<[[u32; 3]; 2]>)
    ensures
        edges_bytes(s).len() == 24 * s.len(),
        forall|i: int|
            0 <= i < s.len() ==> #[trigger] edges_bytes(s).subrange(24 * i, 24 * i + 24)
                == edge_bytes(s[i]),
    decreases s.len(),
{
    if s.len() > 0 {
        let t = s.drop_last();
        lemma_edges_bytes(t);
        let whole = edges_bytes(s);
        assert(whole == edges_bytes(t) + edge_bytes(s.last()));
        assert forall|i: int| 0 <= i < s.len() implies #[trigger] whole.subrange(24 * i, 24 * i + 24)
            == edge_bytes(s[i]) by {
            if i < t.len() {
                assert(whole.subrange(24 * i, 24 * i + 24) =~= edges_bytes(t).subrange(
                    24 * i,
                    24 * i + 24,
                ));
                assert(t[i] == s[i]);
            } else {
                assert(whole.subrange(24 * i, 24 * i + 24) =~= edge_bytes(s.last()));
            }
        }
    }
}

proof fn lemma_coord(f: Seq<u8>, o: int, eb: Seq<u8>, j: int, x: u32)
    requires
        0 <= o,
        o + 24 <= f.len(),
        f.subrange(o, o + 24) == eb,
        0 <= j <= 20,
        eb.subrange(j, j + 4) == le_bytes(x),
    ensures
        le_u32(f, o + j) == x,
{
    assert(f.subrange(o + j, o + j + 4) =~= eb.subrange(j, j + 4));
    lemma_le_bytes(x, f, o + j);
}

proof fn lemma_edge_at(f: Seq<u8>, i: int, e: [[u32; 3]; 2])
    requires
        0 <= i,
        12 + 24 * i + 24 <= f.len(),
        f.subrange(12 + 24 * i, 12 + 24 * i + 24) == edge_bytes(e),
    ensures
        edge_at(f, i) == e,
{
    let o = 12 + 24 * i;
    let eb = edge_bytes(e);
    assert(eb.subrange(0, 4) =~= le_bytes(e[0][0]));
    assert(eb.subrange(4, 8) =~= le_bytes(e[0][1]));
    assert(eb.subrange(8, 12) =~= le_bytes(e[0][2]));
    assert(eb.subrange(12, 16) =~= le_bytes(e[1][0]));
    assert(eb.subrange(16, 20) =~= le_bytes(e[1][1]));
    assert(eb.subrange(20, 24) =~= le_bytes(e[1][2]));
    lemma_coord(f, o, eb, 0, e[0][0]);
    lemma_coord(f, o, eb, 4, e[0][1]);
    lemma_coord(f, o, eb, 8, e[0][2]);
    lemma_coord(f, o, eb, 12, e[1][0]);
    lemma_coord(f, o, eb, 16, e[1][1]);
    lemma_coord(f, o, eb, 20, e[1][2]);
    let got = edge_at(f, i);
    assert(got[0] =~= e[0]);
    assert(got[1] =~= e[1]);
    assert(got =~= e);
}

/// Reading a file that a writer laid out gives back exactly the edges it was given.
pub proof fn lemma_read_what_was_written(edges: Seq<[[u32; 3]; 2]>)
    requires
        edges.len() <= u32::MAX,
    ensures
        qgae_edges(qgae_file(edges)) == Ok::<Seq<[[u32; 3]; 2]>, ConvertError>(edges),
{
    let f = qgae_file(edges);
    let body = edges_bytes(edges);
    lemma_edges_bytes(edges);
    assert(f.len() == 12 + 24 * edges.len());
    assert(f.subrange(0, 4) =~= MAGIC@);
    assert(f.subrange(4, 8) =~= le_bytes(VERSION));
    lemma_le_bytes(VERSION, f, 4);
    assert(f.subrange(8, 12) =~= le_bytes(edges.len() as u32));
    lemma_le_bytes(edges.len() as u32, f, 8);
    assert forall|i: int| 0 <= i < edges.len() implies #[trigger] edge_at(f, i) == edges[i] by {
        assert(body.subrange(24 * i, 24 * i + 24) == edge_bytes(edges[i]));
        assert(f.subrange(12 + 24 * i, 12 + 24 * i + 24) =~= body.subrange(24 * i, 24 * i + 24));
        lemma_edge_at(f, i, edges[i]);
    }
    assert(edges_of(f, edges.len()) =~= edges);
}

/// Bytes after the last declared edge do not change what a readable file gives.
pub proof fn lemma_trailing_bytes_ignored(b: Seq<u8>, extra: Seq<u8>)
    requires
        qgae_edges(b) is Ok,
    ensures
        qgae_edges(b + extra) == qgae_edges(b),
{
    let c = b + extra;
    assert(c.subrange(0, 4) =~= b.subrange(0, 4));
    assert(le_u32(c, 4) == le_u32(b, 4));
    assert(le_u32(c, 8) == le_u32(b, 8));
    let n = declared_count(b) as nat;
    assert forall|i: int| 0 <= i < n implies #[trigger] edge_at(c, i) == edge_at(b, i) by {
        assert(c[coord_offset(i, 0, 0)] == b[coord_offset(i, 0, 0)]);
    }
    assert(edges_of(c, n) =~= edges_of(b, n));
}

proof fn lemma_bytes_of_le(b: Seq<u8>, off: int)
    requires
        0 <= off,
        off + 4 <= b.len(),
    ensures
        le_bytes(le_u32(b, off)) == b.subrange(off, off + 4),
{
    let b0 = b[off];
    let b1 = b[off + 1];
    let b2 = b[off + 2];
    let b3 = b[off + 3];
    let x = le_u32(b, off);
    assert(x == b0 + 256 * b1 + 65536 * b2 + 16777216 * b3);
    assert(x % 256 == b0 && (x / 256) % 256 == b1 && (x / 65536) % 256 == b2 && x / 16777216
        == b3) by (nonlinear_arith)
        requires
            x == b0 + 256 * b1 + 65536 * b2 + 16777216 * b3,
            b0 < 256,
            b1 < 256,
            b2 < 256,
            b3 < 256,
    {}
    assert(le_bytes(x) =~= b.subrange(off, off + 4));
}

proof fn lemma_edge_bytes_of(b: Seq<u8>, i: int)
    requires
        0 <= i,
        12 + 24 * i + 24 <= b.len(),
    ensures
        edge_bytes(edge_at(b, i)) == b.subrange(12 + 24 * i, 12 + 24 * i + 24),
{
    let o = 12 + 24 * i;
    lemma_bytes_of_le(b, o);
    lemma_bytes_of_le(b, o + 4);
    lemma_bytes_of_le(b, o + 8);
    lemma_bytes_of_le(b, o + 12);
    lemma_bytes_of_le(b, o + 16);
    lemma_bytes_of_le(b, o + 20);
    assert(edge_bytes(edge_at(b, i)) =~= b.subrange(o, o + 24));
}

proof fn lemma_edges_bytes_of(b: Seq<u8>, n: nat)
    requires
        12 + 24 * (n as int) <= b.len(),
    ensures
        edges_bytes(edges_of(b, n)) == b.subrange(12, 12 + 24 * (n as int)),
    decreases n,
{
    if n > 0 {
        let m = (n - 1) as nat;
        lemma_edges_bytes_of(b, m);
        assert(edges_of(b, n).drop_last() =~= edges_of(b, m));
        lemma_edge_bytes_of(b, m as int);
        assert(b.subrange(12, 12 + 24 * (n as int)) =~= b.subrange(12, 12 + 24 * (m as int)) + b.subrange(
            12 + 24 * (m as int),
            12 + 24 * (n as int),
        ));
    } else {
        assert(b.subrange(12, 12) =~= Seq::<u8>::empty());
    }
}

/// Writing back the edges read from a file reproduces the file up to its last edge:
/// reading loses nothing of what it reads.
pub proof fn lemma_written_back_is_what_was_read(b: Seq<u8>)
    requires
        qgae_edges(b) is Ok,
    ensures
        qgae_file(qgae_edges(b)->Ok_0) == b.subrange(
            0,
            12 + 24 * declared_count(b),
        ),
{
    let n = declared_count(b) as nat;
    let s = edges_of(b, n);
    assert(qgae_edges(b)->Ok_0 == s);
    lemma_edges_bytes_of(b, n);
    lemma_bytes_of_le(b, 4);
    lemma_bytes_of_le(b, 8);
    assert(s.len() as u32 == declared_count(b));
    assert(b.subrange(0, 12 + 24 * (n as int)) =~= b.subrange(0, 4) + b.subrange(4, 8) + b.subrange(8, 12)
        + b.subrange(12, 12 + 24 * (n as int)));
    assert(qgae_file(s) =~= b.subrange(0, 12 + 24 * (n as int)));
}

} // verus!
