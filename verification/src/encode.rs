//! The binary encoder: writes a document back in the exact grammar the
//! decoder reads — magic header, counts and records, every multi-byte
//! field as a 32-bit little-endian quantity.
//!
//! `spec_encode` is the mathematical definition of the byte image;
//! `encode` is proved to produce exactly that sequence.

use vstd::prelude::*;
use vstd::bytes::spec_u32_to_le_bytes;
use vstd::bytes::u32_to_le_bytes;
use crate::doc::{
    Document, DocumentModel, Layer, LayerModel, Line, LineModel, Point, brush_color_code,
    brush_color_to_code, brush_type_code, brush_type_to_code,
};
use crate::decode::spec_header;
use crate::decode::header_bytes;

verus! {

/// The 24-byte image of one point record.
pub open spec fn spec_encode_point(p: Point) -> Seq<u8> {
    spec_u32_to_le_bytes(p.x) + spec_u32_to_le_bytes(p.y) + spec_u32_to_le_bytes(p.speed)
        + spec_u32_to_le_bytes(p.direction) + spec_u32_to_le_bytes(p.width) + spec_u32_to_le_bytes(
        p.pressure,
    )
}

/// The image of a sequence of point records, in order.
pub open spec fn spec_encode_points(ps: Seq<Point>) -> Seq<u8>
    decreases ps.len(),
{
    if ps.len() == 0 {
        Seq::<u8>::empty()
    } else {
        spec_encode_point(ps[0]) + spec_encode_points(ps.skip(1))
    }
}

/// The image of one line record: the six 32-bit header fields, then the
/// points. The declared point count is written back as stored, so a
/// decoded line re-encodes to its original bytes even when the declared
/// count was negative.
pub open spec fn spec_encode_line(l: LineModel) -> Seq<u8> {
    spec_u32_to_le_bytes(brush_type_code(l.brush_type) as u32) + spec_u32_to_le_bytes(
        brush_color_code(l.brush_color) as u32,
    ) + spec_u32_to_le_bytes(l.padding) + spec_u32_to_le_bytes(l.unknown) + spec_u32_to_le_bytes(
        l.brush_size,
    ) + spec_u32_to_le_bytes(l.num_points as u32) + spec_encode_points(l.points)
}

/// The image of a sequence of line records, in order.
pub open spec fn spec_encode_lines(ls: Seq<LineModel>) -> Seq<u8>
    decreases ls.len(),
{
    if ls.len() == 0 {
        Seq::<u8>::empty()
    } else {
        spec_encode_line(ls[0]) + spec_encode_lines(ls.skip(1))
    }
}

/// The image of one layer: its declared line count, then its lines.
pub open spec fn spec_encode_layer(y: LayerModel) -> Seq<u8> {
    spec_u32_to_le_bytes(y.num_lines as u32) + spec_encode_lines(y.lines)
}

/// The image of a sequence of layers, in order.
pub open spec fn spec_encode_layers(ys: Seq<LayerModel>) -> Seq<u8>
    decreases ys.len(),
{
    if ys.len() == 0 {
        Seq::<u8>::empty()
    } else {
        spec_encode_layer(ys[0]) + spec_encode_layers(ys.skip(1))
    }
}

/// The full byte image of a document: magic header, the number of layers
/// held, then the layers.
pub open spec fn spec_encode(d: DocumentModel) -> Seq<u8> {
    spec_header() + spec_u32_to_le_bytes(d.layers.len() as u32) + spec_encode_layers(d.layers)
}

/// Encoding distributes over concatenation of point sequences.
pub proof fn lemma_encode_points_concat(a: Seq<Point>, b: Seq<Point>)
    ensures
        spec_encode_points(a + b) == spec_encode_points(a) + spec_encode_points(b),
    decreases a.len(),
{
    if a.len() == 0 {
        assert(a + b =~= b);
        assert(spec_encode_points(a) + spec_encode_points(b) =~= spec_encode_points(b));
    } else {
        assert((a + b)[0] == a[0]);
        assert((a + b).skip(1) =~= a.skip(1) + b);
        lemma_encode_points_concat(a.skip(1), b);
        assert(spec_encode_point(a[0]) + (spec_encode_points(a.skip(1)) + spec_encode_points(b))
            =~= (spec_encode_point(a[0]) + spec_encode_points(a.skip(1))) + spec_encode_points(b));
    }
}

/// The image of a single point sequence element.
pub proof fn lemma_encode_points_singleton(p: Point)
    ensures
        spec_encode_points(seq![p]) == spec_encode_point(p),
{
    reveal_with_fuel(spec_encode_points, 2);
    assert(seq![p].skip(1) =~= Seq::<Point>::empty());
    assert(spec_encode_point(p) + Seq::<u8>::empty() =~= spec_encode_point(p));
}

/// Encoding distributes over concatenation of line sequences.
pub proof fn lemma_encode_lines_concat(a: Seq<LineModel>, b: Seq<LineModel>)
    ensures
        spec_encode_lines(a + b) == spec_encode_lines(a) + spec_encode_lines(b),
    decreases a.len(),
{
    if a.len() == 0 {
        assert(a + b =~= b);
        assert(spec_encode_lines(a) + spec_encode_lines(b) =~= spec_encode_lines(b));
    } else {
        assert((a + b)[0] == a[0]);
        assert((a + b).skip(1) =~= a.skip(1) + b);
        lemma_encode_lines_concat(a.skip(1), b);
        assert(spec_encode_line(a[0]) + (spec_encode_lines(a.skip(1)) + spec_encode_lines(b)) =~= (
        spec_encode_line(a[0]) + spec_encode_lines(a.skip(1))) + spec_encode_lines(b));
    }
}

/// The image of a single line sequence element.
pub proof fn lemma_encode_lines_singleton(l: LineModel)
    ensures
        spec_encode_lines(seq![l]) == spec_encode_line(l),
{
    reveal_with_fuel(spec_encode_lines, 2);
    assert(seq![l].skip(1) =~= Seq::<LineModel>::empty());
    assert(spec_encode_line(l) + Seq::<u8>::empty() =~= spec_encode_line(l));
}

/// Encoding distributes over concatenation of layer sequences.
pub proof fn lemma_encode_layers_concat(a: Seq<LayerModel>, b: Seq<LayerModel>)
    ensures
        spec_encode_layers(a + b) == spec_encode_layers(a) + spec_encode_layers(b),
    decreases a.len(),
{
    if a.len() == 0 {
        assert(a + b =~= b);
        assert(spec_encode_layers(a) + spec_encode_layers(b) =~= spec_encode_layers(b));
    } else {
        assert((a + b)[0] == a[0]);
        assert((a + b).skip(1) =~= a.skip(1) + b);
        lemma_encode_layers_concat(a.skip(1), b);
        assert(spec_encode_layer(a[0]) + (spec_encode_layers(a.skip(1)) + spec_encode_layers(b))
            =~= (spec_encode_layer(a[0]) + spec_encode_layers(a.skip(1))) + spec_encode_layers(b));
    }
}

/// The image of a single layer sequence element.
pub proof fn lemma_encode_layers_singleton(y: LayerModel)
    ensures
        spec_encode_layers(seq![y]) == spec_encode_layer(y),
{
    reveal_with_fuel(spec_encode_layers, 2);
    assert(seq![y].skip(1) =~= Seq::<LayerModel>::empty());
    assert(spec_encode_layer(y) + Seq::<u8>::empty() =~= spec_encode_layer(y));
}

/// Append the little-endian image of one 32-bit field.
fn push_u32_le(out: &mut Vec<u8>, x: u32)
    ensures
        final(out)@ == old(out)@ + spec_u32_to_le_bytes(x),
{
    let mut b = u32_to_le_bytes(x);
    out.append(&mut b);
}

/// Append the image of one point record.
fn encode_point_into(out: &mut Vec<u8>, p: &Point)
    ensures
        final(out)@ == old(out)@ + spec_encode_point(*p),
{
    push_u32_le(out, p.x);
    push_u32_le(out, p.y);
    push_u32_le(out, p.speed);
    push_u32_le(out, p.direction);
    push_u32_le(out, p.width);
    push_u32_le(out, p.pressure);
    proof {
        assert(out@ =~= old(out)@ + spec_encode_point(*p));
    }
}

/// Append the image of one line record.
fn encode_line_into(out: &mut Vec<u8>, l: &Line)
    ensures
        final(out)@ == old(out)@ + spec_encode_line(l.deep_view()),
{
    push_u32_le(out, brush_type_to_code(l.brush_type) as u32);
    push_u32_le(out, brush_color_to_code(l.brush_color) as u32);
    push_u32_le(out, l.padding);
    push_u32_le(out, l.unknown);
    push_u32_le(out, l.brush_size);
    push_u32_le(out, l.num_points as u32);
    let ghost header_image = old(out)@ + spec_u32_to_le_bytes(
        brush_type_code(l.brush_type) as u32,
    ) + spec_u32_to_le_bytes(brush_color_code(l.brush_color) as u32) + spec_u32_to_le_bytes(
        l.padding,
    ) + spec_u32_to_le_bytes(l.unknown) + spec_u32_to_le_bytes(l.brush_size) + spec_u32_to_le_bytes(
        l.num_points as u32,
    );
    proof {
        assert(out@ =~= header_image + spec_encode_points(l.points@.take(0)));
    }
    let mut i: usize = 0;
    while i < l.points.len()
        invariant
            i <= l.points@.len(),
            out@ == header_image + spec_encode_points(l.points@.take(i as int)),
        decreases l.points@.len() - i as int,
    {
        encode_point_into(out, &l.points[i]);
        proof {
            let ps = l.points@;
            assert(ps.take(i as int + 1) =~= ps.take(i as int) + seq![ps[i as int]]);
            lemma_encode_points_concat(ps.take(i as int), seq![ps[i as int]]);
            lemma_encode_points_singleton(ps[i as int]);
            assert(out@ =~= header_image + spec_encode_points(ps.take(i as int + 1)));
        }
        i = i + 1;
    }
    proof {
        assert(l.points@.take(l.points@.len() as int) =~= l.points@);
        assert(out@ =~= old(out)@ + spec_encode_line(l.deep_view()));
    }
}

/// Append the image of one layer.
fn encode_layer_into(out: &mut Vec<u8>, y: &Layer)
    ensures
        final(out)@ == old(out)@ + spec_encode_layer(y.deep_view()),
{
    push_u32_le(out, y.num_lines as u32);
    let ghost count_image = old(out)@ + spec_u32_to_le_bytes(y.num_lines as u32);
    proof {
        assert(out@ =~= count_image + spec_encode_lines(y.lines.deep_view().take(0)));
    }
    let mut i: usize = 0;
    while i < y.lines.len()
        invariant
            i <= y.lines@.len(),
            out@ == count_image + spec_encode_lines(y.lines.deep_view().take(i as int)),
        decreases y.lines@.len() - i as int,
    {
        encode_line_into(out, &y.lines[i]);
        proof {
            let ls = y.lines.deep_view();
            assert(ls.take(i as int + 1) =~= ls.take(i as int) + seq![ls[i as int]]);
            lemma_encode_lines_concat(ls.take(i as int), seq![ls[i as int]]);
            lemma_encode_lines_singleton(ls[i as int]);
            assert(out@ =~= count_image + spec_encode_lines(ls.take(i as int + 1)));
        }
        i = i + 1;
    }
    proof {
        let ls = y.lines.deep_view();
        assert(ls.take(ls.len() as int) =~= ls);
        assert(out@ =~= old(out)@ + spec_encode_layer(y.deep_view()));
    }
}

/// Write a document as one byte stream in the decoder's grammar.
///
/// The layer count written is the number of layers the document holds;
/// line and point counts are written from the stored declared counts.
/// The count field of the format is a signed 32-bit integer, so the
/// document cannot hold more layers than that field can express.
pub fn encode(d: &Document) -> (r: Vec<u8>)
    requires
        d.layers@.len() <= 0x7fff_ffff,
    ensures
        r@ == spec_encode(d.deep_view()),
{
    let mut out = header_bytes();
    push_u32_le(&mut out, d.layers.len() as u32);
    let ghost prefix_image = spec_header() + spec_u32_to_le_bytes(
        d.deep_view().layers.len() as u32,
    );
    proof {
        assert(out@ =~= prefix_image + spec_encode_layers(d.layers.deep_view().take(0)));
    }
    let mut i: usize = 0;
    while i < d.layers.len()
        invariant
            i <= d.layers@.len(),
            out@ == prefix_image + spec_encode_layers(d.layers.deep_view().take(i as int)),
        decreases d.layers@.len() - i as int,
    {
        encode_layer_into(&mut out, &d.layers[i]);
        proof {
            let ys = d.layers.deep_view();
            assert(ys.take(i as int + 1) =~= ys.take(i as int) + seq![ys[i as int]]);
            lemma_encode_layers_concat(ys.take(i as int), seq![ys[i as int]]);
            lemma_encode_layers_singleton(ys[i as int]);
            assert(out@ =~= prefix_image + spec_encode_layers(ys.take(i as int + 1)));
        }
        i = i + 1;
    }
    proof {
        let ys = d.layers.deep_view();
        assert(ys.take(ys.len() as int) =~= ys);
        assert(out@ =~= spec_encode(d.deep_view()));
    }
    out
}

} // verus!
