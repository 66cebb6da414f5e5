//! The round-trip law: a decoded document re-encodes, byte for byte, to
//! exactly the bytes it was decoded from.
//!
//! The one stream the law leaves out is a negative declared layer count:
//! the decoder keeps declared line and point counts in the document, so
//! those re-encode as read, but the document stores no declared layer
//! count — its layers stand for themselves — and the encoder writes the
//! number of layers held, which cannot reproduce a negative count field.

use vstd::prelude::*;
use vstd::bytes::lemma_auto_spec_u32_to_from_le_bytes;
use vstd::bytes::spec_u32_to_le_bytes;
use crate::doc::{
    DocumentModel, document_counts_consistent, layer_counts_consistent, line_counts_consistent,
    lemma_brush_color_from_code_round, lemma_brush_type_from_code_round,
};
use crate::decode::{
    DecodeErrorModel, HEADER_LEN, le_i32_at, le_u32_at, spec_header, spec_parse, spec_parse_layer,
    spec_parse_layers, spec_parse_line, spec_parse_lines, spec_parse_points,
    spec_presented_header, spec_point_at,
};
use crate::encode::{
    lemma_encode_layers_concat, lemma_encode_layers_singleton, lemma_encode_lines_concat,
    lemma_encode_lines_singleton, lemma_encode_points_concat, lemma_encode_points_singleton,
    spec_encode, spec_encode_layer, spec_encode_layers, spec_encode_line, spec_encode_lines,
    spec_encode_point, spec_encode_points,
};

verus! {

/// Casting a `u32` to `i32` and back restores the value, and the cast is
/// non-negative exactly when the value is below `0x8000_0000`.
proof fn lemma_u32_i32_cast(x: u32)
    ensures
        ((x as i32) as u32) == x,
        (x as i32) >= 0 <==> x < 0x8000_0000,
        x < 0x8000_0000 ==> (x as i32) as int == x as int,
{
    assert(((x as i32) as u32) == x) by (bit_vector);
    assert((x as i32) >= 0 <==> x < 0x8000_0000) by (bit_vector);
    assert(x < 0x8000_0000 ==> (x as i32) as int == x as int) by (bit_vector);
}

/// The four bytes a 32-bit field was read from are what writing it back
/// produces.
proof fn lemma_le_u32_bytes_round(b: Seq<u8>, pos: int)
    requires
        0 <= pos,
        pos + 4 <= b.len(),
    ensures
        spec_u32_to_le_bytes(le_u32_at(b, pos)) == b.subrange(pos, pos + 4),
{
    lemma_auto_spec_u32_to_from_le_bytes();
}

/// The same, for a field read as a signed 32-bit value and written back
/// through the unsigned cast.
proof fn lemma_le_i32_bytes_round(b: Seq<u8>, pos: int)
    requires
        0 <= pos,
        pos + 4 <= b.len(),
    ensures
        spec_u32_to_le_bytes(le_i32_at(b, pos) as u32) == b.subrange(pos, pos + 4),
{
    lemma_u32_i32_cast(le_u32_at(b, pos));
    lemma_le_u32_bytes_round(b, pos);
}

/// Re-encoding the points parsed from a stream reproduces exactly the
/// bytes they occupied; a successful parse also yields one point per
/// count demanded (none for a non-positive count).
proof fn lemma_parse_points_round(b: Seq<u8>, pos: int, n: int)
    requires
        0 <= pos <= b.len(),
        spec_parse_points(b, pos, n) matches Ok(_),
    ensures
        ({
            let r = spec_parse_points(b, pos, n)->Ok_0;
            &&& pos <= r.1 <= b.len()
            &&& r.0.len() == if n <= 0 { 0int } else { n }
            &&& spec_encode_points(r.0) == b.subrange(pos, r.1)
        }),
    decreases n,
{
    let r = spec_parse_points(b, pos, n)->Ok_0;
    if n <= 0 {
        assert(spec_encode_points(r.0) =~= b.subrange(pos, pos));
    } else {
        let p = spec_point_at(b, pos);
        let rest = spec_parse_points(b, pos + 24, n - 1)->Ok_0;
        lemma_parse_points_round(b, pos + 24, n - 1);
        lemma_encode_points_concat(seq![p], rest.0);
        lemma_encode_points_singleton(p);
        lemma_le_u32_bytes_round(b, pos);
        lemma_le_u32_bytes_round(b, pos + 4);
        lemma_le_u32_bytes_round(b, pos + 8);
        lemma_le_u32_bytes_round(b, pos + 12);
        lemma_le_u32_bytes_round(b, pos + 16);
        lemma_le_u32_bytes_round(b, pos + 20);
        assert(spec_encode_point(p) =~= b.subrange(pos, pos + 24));
        assert(r.0 == seq![p] + rest.0);
        assert(spec_encode_points(r.0) =~= b.subrange(pos, r.1));
    }
}

/// Re-encoding a parsed line reproduces exactly the bytes it occupied,
/// and its stored point count agrees with the points it holds.
proof fn lemma_parse_line_round(b: Seq<u8>, pos: int)
    requires
        0 <= pos <= b.len(),
        spec_parse_line(b, pos) matches Ok(_),
    ensures
        ({
            let r = spec_parse_line(b, pos)->Ok_0;
            &&& pos <= r.1 <= b.len()
            &&& line_counts_consistent(r.0)
            &&& spec_encode_line(r.0) == b.subrange(pos, r.1)
        }),
{
    let r = spec_parse_line(b, pos)->Ok_0;
    let l = r.0;
    lemma_brush_type_from_code_round(le_i32_at(b, pos));
    lemma_brush_color_from_code_round(le_i32_at(b, pos + 4));
    lemma_le_i32_bytes_round(b, pos);
    lemma_le_i32_bytes_round(b, pos + 4);
    lemma_le_u32_bytes_round(b, pos + 8);
    lemma_le_u32_bytes_round(b, pos + 12);
    lemma_le_u32_bytes_round(b, pos + 16);
    lemma_le_i32_bytes_round(b, pos + 20);
    lemma_parse_points_round(b, pos + 24, l.num_points as int);
    assert(spec_encode_line(l) =~= b.subrange(pos, r.1));
}

/// Re-encoding the lines parsed from a stream reproduces exactly the
/// bytes they occupied, with one line per count demanded.
proof fn lemma_parse_lines_round(b: Seq<u8>, pos: int, n: int)
    requires
        0 <= pos <= b.len(),
        spec_parse_lines(b, pos, n) matches Ok(_),
    ensures
        ({
            let r = spec_parse_lines(b, pos, n)->Ok_0;
            &&& pos <= r.1 <= b.len()
            &&& r.0.len() == if n <= 0 { 0int } else { n }
            &&& (forall|i: int| 0 <= i < r.0.len() ==> line_counts_consistent(#[trigger] r.0[i]))
            &&& spec_encode_lines(r.0) == b.subrange(pos, r.1)
        }),
    decreases n,
{
    let r = spec_parse_lines(b, pos, n)->Ok_0;
    if n <= 0 {
        assert(spec_encode_lines(r.0) =~= b.subrange(pos, pos));
    } else {
        let first = spec_parse_line(b, pos)->Ok_0;
        let rest = spec_parse_lines(b, first.1, n - 1)->Ok_0;
        lemma_parse_line_round(b, pos);
        lemma_parse_lines_round(b, first.1, n - 1);
        lemma_encode_lines_concat(seq![first.0], rest.0);
        lemma_encode_lines_singleton(first.0);
        assert(r.0 == seq![first.0] + rest.0);
        assert(spec_encode_lines(r.0) =~= b.subrange(pos, r.1));
    }
}

/// Re-encoding a parsed layer reproduces exactly the bytes it occupied,
/// and every count stored beneath it agrees with the records held.
proof fn lemma_parse_layer_round(b: Seq<u8>, pos: int)
    requires
        0 <= pos <= b.len(),
        spec_parse_layer(b, pos) matches Ok(_),
    ensures
        ({
            let r = spec_parse_layer(b, pos)->Ok_0;
            &&& pos <= r.1 <= b.len()
            &&& layer_counts_consistent(r.0)
            &&& spec_encode_layer(r.0) == b.subrange(pos, r.1)
        }),
{
    let r = spec_parse_layer(b, pos)->Ok_0;
    lemma_le_i32_bytes_round(b, pos);
    lemma_parse_lines_round(b, pos + 4, le_i32_at(b, pos) as int);
    assert(spec_encode_layer(r.0) =~= b.subrange(pos, r.1));
}

/// Re-encoding the layers parsed from a stream reproduces exactly the
/// bytes they occupied, with one layer per count demanded.
proof fn lemma_parse_layers_round(b: Seq<u8>, pos: int, n: int)
    requires
        0 <= pos <= b.len(),
        spec_parse_layers(b, pos, n) matches Ok(_),
    ensures
        ({
            let r = spec_parse_layers(b, pos, n)->Ok_0;
            &&& pos <= r.1 <= b.len()
            &&& r.0.len() == if n <= 0 { 0int } else { n }
            &&& (forall|i: int| 0 <= i < r.0.len() ==> layer_counts_consistent(#[trigger] r.0[i]))
            &&& spec_encode_layers(r.0) == b.subrange(pos, r.1)
        }),
    decreases n,
{
    let r = spec_parse_layers(b, pos, n)->Ok_0;
    if n <= 0 {
        assert(spec_encode_layers(r.0) =~= b.subrange(pos, pos));
    } else {
        let first = spec_parse_layer(b, pos)->Ok_0;
        let rest = spec_parse_layers(b, first.1, n - 1)->Ok_0;
        lemma_parse_layer_round(b, pos);
        lemma_parse_layers_round(b, first.1, n - 1);
        lemma_encode_layers_concat(seq![first.0], rest.0);
        lemma_encode_layers_singleton(first.0);
        assert(r.0 == seq![first.0] + rest.0);
        assert(spec_encode_layers(r.0) =~= b.subrange(pos, r.1));
    }
}

/// Round trip: decoding a stream and re-encoding the document it yields
/// reproduces, byte for byte, the bytes the decode consumed (the whole
/// stream, when nothing trails the final record).
///
/// The declared layer count must be non-negative: the document does not
/// store it, so the one count the encoder reconstructs is the number of
/// layers held, and a negative count field — which decodes to zero
/// layers — could not be written back.
pub proof fn lemma_decode_encode_round_trip(b: Seq<u8>, d: DocumentModel, end: int)
    requires
        spec_parse(b) == Ok::<(DocumentModel, int), DecodeErrorModel>((d, end)),
        le_i32_at(b, HEADER_LEN as int) >= 0,
    ensures
        0 <= end <= b.len(),
        spec_encode(d) == b.subrange(0, end),
{
    let count = le_u32_at(b, HEADER_LEN as int);
    let n = le_i32_at(b, HEADER_LEN as int);
    lemma_u32_i32_cast(count);
    lemma_parse_layers_round(b, HEADER_LEN as int + 4, n as int);
    let r = spec_parse_layers(b, HEADER_LEN as int + 4, n as int)->Ok_0;
    assert(d.layers.len() == n as int);
    assert(d.layers.len() as u32 == count);
    lemma_le_u32_bytes_round(b, HEADER_LEN as int);
    assert(spec_header() == spec_presented_header(b));
    assert(spec_presented_header(b) =~= b.subrange(0, HEADER_LEN as int));
    assert(spec_encode(d) =~= b.subrange(0, end));
}

/// Every declared count a decoded document stores agrees with the
/// records decoded under it: decoding is driven by the counts, and a
/// negative count governs zero records.
pub proof fn lemma_decode_counts_consistent(b: Seq<u8>, d: DocumentModel, end: int)
    requires
        spec_parse(b) == Ok::<(DocumentModel, int), DecodeErrorModel>((d, end)),
    ensures
        document_counts_consistent(d),
{
    lemma_parse_layers_round(
        b,
        HEADER_LEN as int + 4,
        le_i32_at(b, HEADER_LEN as int) as int,
    );
}

} // verus!
