//! Splitting a buffer at each occurrence of a marker.

use vstd::prelude::*;
use vstd::slice::slice_subrange;

verus! {

/// Whether `mark` stands in `bytes` at offset `i`.
pub open spec fn marker_at(bytes: Seq<u8>, mark: Seq<u8>, i: int) -> bool {
    0 <= i && i + mark.len() <= bytes.len() && bytes.subrange(i, i + mark.len()) == mark
}

/// The start of the piece that is open once the offsets below `k` have
/// been looked at: the last of them at which the marker stands, or 0.
pub open spec fn open_start(bytes: Seq<u8>, mark: Seq<u8>, k: int) -> int
    decreases k,
{
    if k <= 0 {
        0
    } else if marker_at(bytes, mark, k - 1) {
        k - 1
    } else {
        open_start(bytes, mark, k - 1)
    }
}

/// The pieces closed by the markers at the offsets below `k`. A marker at
/// offset 0 closes nothing.
pub open spec fn closed_pieces(bytes: Seq<u8>, mark: Seq<u8>, k: int) -> Seq<Seq<u8>>
    decreases k,
{
    if k <= 0 {
        Seq::empty()
    } else if k - 1 != 0 && marker_at(bytes, mark, k - 1) {
        closed_pieces(bytes, mark, k - 1).push(
            bytes.subrange(open_start(bytes, mark, k - 1), k - 1),
        )
    } else {
        closed_pieces(bytes, mark, k - 1)
    }
}

/// The pieces of `bytes` cut before each marker. The marker is looked for
/// at every offset that leaves at least one byte after it, so one that
/// ends the buffer cuts nothing. The last piece runs to the end.
pub open spec fn pieces(bytes: Seq<u8>, mark: Seq<u8>) -> Seq<Seq<u8>> {
    let limit = bytes.len() - mark.len();
    closed_pieces(bytes, mark, limit).push(
        bytes.subrange(open_start(bytes, mark, limit), bytes.len() as int),
    )
}

/// The contents of a sequence of slices, one for one.
pub open spec fn piece_views(segments: Seq<&[u8]>) -> Seq<Seq<u8>> {
    segments.map_values(|piece: &[u8]| piece@)
}

/// The pieces closed by the offsets below `k`, joined, are the buffer up
/// to the start of the open piece.
proof fn lemma_closed_pieces_join(bytes: Seq<u8>, mark: Seq<u8>, k: int)
    requires
        0 < mark.len(),
        k <= bytes.len() - mark.len(),
    ensures
        0 <= open_start(bytes, mark, k) <= bytes.len(),
        k >= 0 ==> open_start(bytes, mark, k) <= k,
        closed_pieces(bytes, mark, k).flatten() == bytes.subrange(
            0,
            open_start(bytes, mark, k),
        ),
    decreases k,
{
    if k > 0 {
        lemma_closed_pieces_join(bytes, mark, k - 1);
        let start = open_start(bytes, mark, k - 1);
        if k - 1 != 0 && marker_at(bytes, mark, k - 1) {
            closed_pieces(bytes, mark, k - 1).lemma_flatten_push(bytes.subrange(start, k - 1));
            assert(bytes.subrange(0, start) + bytes.subrange(start, k - 1) == bytes.subrange(
                0,
                k - 1,
            ));
        }
    } else {
        assert(bytes.subrange(0, 0) == Seq::<u8>::empty());
    }
}

/// Nothing is lost and nothing added: the pieces, joined in their order,
/// are the buffer.
pub proof fn lemma_pieces_join(bytes: Seq<u8>, mark: Seq<u8>)
    requires
        0 < mark.len() <= bytes.len(),
    ensures
        pieces(bytes, mark).flatten() == bytes,
{
    let limit = bytes.len() - mark.len();
    let start = open_start(bytes, mark, limit);
    lemma_closed_pieces_join(bytes, mark, limit);
    closed_pieces(bytes, mark, limit).lemma_flatten_push(
        bytes.subrange(start, bytes.len() as int),
    );
    assert(bytes.subrange(0, start) + bytes.subrange(start, bytes.len() as int) == bytes);
}

/// Whether `mark` stands in `bytes` at offset `i`.
fn matches_at(bytes: &[u8], mark: &[u8], i: usize) -> (r: bool)
    requires
        i + mark@.len() <= bytes@.len(),
    ensures
        r == marker_at(bytes@, mark@, i as int),
{
    let m = mark.len();
    let n = bytes.len();
    let mut j: usize = 0;
    while j < m
        invariant
            j <= m,
            m == mark@.len(),
            n == bytes@.len(),
            i + m <= n,
            forall|k: int| 0 <= k < j ==> bytes@[i + k] == mark@[k],
        decreases m - j,
    {
        if bytes[i + j] != mark[j] {
            assert(bytes@.subrange(i as int, i + m)[j as int] != mark@[j as int]);
            return false;
        }
        j += 1;
    }
    assert(bytes@.subrange(i as int, i + m) =~= mark@);
    true
}

/// Splits `bytes` before each occurrence of `segmark`, so that every piece
/// but the first begins where a marker stands. The marker must not be
/// empty nor longer than the buffer.
pub fn segment_on<'a>(bytes: &'a [u8], segmark: &[u8]) -> (segments: Vec<&'a [u8]>)
    requires
        0 < segmark@.len() <= bytes@.len(),
    ensures
        piece_views(segments@) == pieces(bytes@, segmark@),
        segments@.len() >= 1,
{
    let split_len = segmark.len();
    let bytes_len = bytes.len();
    let limit = bytes_len - split_len;
    let mut segments: Vec<&'a [u8]> = Vec::new();
    let mut seg_start: usize = 0;
    let mut i: usize = 0;
    while i < limit
        invariant
            i <= limit,
            split_len == segmark@.len(),
            bytes_len == bytes@.len(),
            limit == bytes_len - split_len,
            seg_start == open_start(bytes@, segmark@, i as int),
            seg_start <= i,
            piece_views(segments@) == closed_pieces(bytes@, segmark@, i as int),
        decreases limit - i,
    {
        let ghost before = piece_views(segments@);
        if matches_at(bytes, segmark, i) {
            if i != 0 {
                let piece = slice_subrange(bytes, seg_start, i);
                segments.push(piece);
                assert(piece_views(segments@) == before.push(piece@));
            }
            seg_start = i;
        }
        i += 1;
    }
    let ghost before = piece_views(segments@);
    let last = slice_subrange(bytes, seg_start, bytes_len);
    segments.push(last);
    assert(piece_views(segments@) == before.push(last@));
    segments
}

} // verus!
