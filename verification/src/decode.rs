//! The binary decoder: validates the fixed magic header, then decodes the
//! nested layer / line / point grammar, every multi-byte field read as a
//! 32-bit little-endian quantity.
//!
//! `spec_parse` is the mathematical definition of the grammar; `decode` is
//! proved to return exactly what `spec_parse` says, document and error
//! alike.

use vstd::prelude::*;
use vstd::bytes::spec_u32_from_le_bytes;
use vstd::bytes::u32_from_le_bytes;
use vstd::slice::slice_subrange;
use vstd::slice::slice_to_vec;
use crate::doc::{
    BrushColor, BrushType, Document, DocumentModel, Layer, LayerModel, Line, LineModel, Point,
    brush_color_from_code, brush_type_from_code, spec_brush_color_from_code,
    spec_brush_type_from_code,
};

verus! {

/// Length in bytes of the magic header that opens every stream.
pub const HEADER_LEN: usize = 43;

/// The magic header: the ASCII text
/// `reMarkable .lines file, version=5` followed by ten spaces.
pub open spec fn spec_header() -> Seq<u8> {
    seq![114u8, 101u8, 77u8, 97u8, 114u8, 107u8, 97u8, 98u8, 108u8, 101u8, 32u8, 46u8, 108u8,
        105u8, 110u8, 101u8, 115u8, 32u8, 102u8, 105u8, 108u8, 101u8, 44u8, 32u8, 118u8, 101u8,
        114u8, 115u8, 105u8, 111u8, 110u8, 61u8, 53u8, 32u8, 32u8, 32u8, 32u8, 32u8, 32u8, 32u8,
        32u8, 32u8, 32u8]
}

/// The magic header as bytes, for building or checking streams.
pub fn header_bytes() -> (r: Vec<u8>)
    ensures
        r@ == spec_header(),
{
    let mut v: Vec<u8> = Vec::new();
    v.push(114);
    v.push(101);
    v.push(77);
    v.push(97);
    v.push(114);
    v.push(107);
    v.push(97);
    v.push(98);
    v.push(108);
    v.push(101);
    v.push(32);
    v.push(46);
    v.push(108);
    v.push(105);
    v.push(110);
    v.push(101);
    v.push(115);
    v.push(32);
    v.push(102);
    v.push(105);
    v.push(108);
    v.push(101);
    v.push(44);
    v.push(32);
    v.push(118);
    v.push(101);
    v.push(114);
    v.push(115);
    v.push(105);
    v.push(111);
    v.push(110);
    v.push(61);
    v.push(53);
    v.push(32);
    v.push(32);
    v.push(32);
    v.push(32);
    v.push(32);
    v.push(32);
    v.push(32);
    v.push(32);
    v.push(32);
    v.push(32);
    proof {
        assert(v@ =~= spec_header());
    }
    v
}

/// The nesting level of the record whose field was being read when the
/// stream ran out.
#[derive(Clone, Copy, PartialEq, Eq, Structural, Debug)]
pub enum Level {
    Layer,
    Line,
    Point,
}

/// The field that was being read when decoding failed.
#[derive(Clone, Copy, PartialEq, Eq, Structural, Debug)]
pub enum Field {
    LayerCount,
    LineCount,
    BrushType,
    BrushColor,
    Padding,
    Unknown,
    BrushSize,
    PointCount,
    X,
    Y,
    Speed,
    Direction,
    Width,
    Pressure,
}

/// Why a decode failed. No partial document accompanies an error.
#[derive(Clone, PartialEq, Eq, Debug)]
pub enum DecodeError {
    /// The stream did not open with the expected magic header; `actual`
    /// holds the header bytes the stream presented (fewer than
    /// `HEADER_LEN` if the stream was shorter than the header).
    HeaderMismatch { actual: Vec<u8> },
    /// An enumerated field held a value outside its closed set.
    UnknownEnumValue { field: Field, value: i32 },
    /// The stream ran out, mid-record, while reading the named field.
    TruncatedInput { level: Level, field: Field },
}

/// The mathematical model of a `DecodeError`.
pub enum DecodeErrorModel {
    HeaderMismatch { actual: Seq<u8> },
    UnknownEnumValue { field: Field, value: i32 },
    TruncatedInput { level: Level, field: Field },
}

impl DeepView for DecodeError {
    type V = DecodeErrorModel;

    open spec fn deep_view(&self) -> DecodeErrorModel {
        match self {
            DecodeError::HeaderMismatch { actual } => DecodeErrorModel::HeaderMismatch {
                actual: actual@,
            },
            DecodeError::UnknownEnumValue { field, value } => DecodeErrorModel::UnknownEnumValue {
                field: *field,
                value: *value,
            },
            DecodeError::TruncatedInput { level, field } => DecodeErrorModel::TruncatedInput {
                level: *level,
                field: *field,
            },
        }
    }
}

/// The unsigned 32-bit little-endian field at byte offset `pos`.
pub open spec fn le_u32_at(b: Seq<u8>, pos: int) -> u32
    recommends
        0 <= pos,
        pos + 4 <= b.len(),
{
    spec_u32_from_le_bytes(b.subrange(pos, pos + 4))
}

/// The signed 32-bit little-endian field at byte offset `pos`.
pub open spec fn le_i32_at(b: Seq<u8>, pos: int) -> i32
    recommends
        0 <= pos,
        pos + 4 <= b.len(),
{
    le_u32_at(b, pos) as i32
}

/// The point record at byte offset `pos`: six little-endian 32-bit fields
/// in the fixed order x, y, speed, direction, width, pressure.
pub open spec fn spec_point_at(b: Seq<u8>, pos: int) -> Point {
    Point {
        x: le_u32_at(b, pos),
        y: le_u32_at(b, pos + 4),
        speed: le_u32_at(b, pos + 8),
        direction: le_u32_at(b, pos + 12),
        width: le_u32_at(b, pos + 16),
        pressure: le_u32_at(b, pos + 20),
    }
}

/// Which point field a truncation hits when `rem` bytes remain before the
/// point record's end.
pub open spec fn spec_point_trunc_field(rem: int) -> Field {
    if rem < 4 {
        Field::X
    } else if rem < 8 {
        Field::Y
    } else if rem < 12 {
        Field::Speed
    } else if rem < 16 {
        Field::Direction
    } else if rem < 20 {
        Field::Width
    } else {
        Field::Pressure
    }
}

/// Parse `n` consecutive point records starting at `pos`. A negative or
/// zero count yields no records. Returns the points and the offset just
/// past them.
pub open spec fn spec_parse_points(b: Seq<u8>, pos: int, n: int) -> Result<
    (Seq<Point>, int),
    DecodeErrorModel,
>
    decreases n,
{
    if n <= 0 {
        Ok((Seq::<Point>::empty(), pos))
    } else if pos + 24 <= b.len() {
        match spec_parse_points(b, pos + 24, n - 1) {
            Ok(rest) => Ok((seq![spec_point_at(b, pos)] + rest.0, rest.1)),
            Err(e) => Err(e),
        }
    } else {
        Err(DecodeErrorModel::TruncatedInput {
            level: Level::Point,
            field: spec_point_trunc_field(b.len() - pos),
        })
    }
}

/// Parse one line record at `pos`: brush type, brush color, padding,
/// unknown, brush size, point count, then that many points. Enum fields
/// are validated as soon as they are read.
pub open spec fn spec_parse_line(b: Seq<u8>, pos: int) -> Result<
    (LineModel, int),
    DecodeErrorModel,
> {
    if pos + 4 > b.len() {
        Err(DecodeErrorModel::TruncatedInput { level: Level::Line, field: Field::BrushType })
    } else {
        match spec_brush_type_from_code(le_i32_at(b, pos)) {
            None => Err(DecodeErrorModel::UnknownEnumValue {
                field: Field::BrushType,
                value: le_i32_at(b, pos),
            }),
            Some(bt) => if pos + 8 > b.len() {
                Err(DecodeErrorModel::TruncatedInput {
                    level: Level::Line,
                    field: Field::BrushColor,
                })
            } else {
                match spec_brush_color_from_code(le_i32_at(b, pos + 4)) {
                    None => Err(DecodeErrorModel::UnknownEnumValue {
                        field: Field::BrushColor,
                        value: le_i32_at(b, pos + 4),
                    }),
                    Some(bc) => if pos + 12 > b.len() {
                        Err(DecodeErrorModel::TruncatedInput {
                            level: Level::Line,
                            field: Field::Padding,
                        })
                    } else if pos + 16 > b.len() {
                        Err(DecodeErrorModel::TruncatedInput {
                            level: Level::Line,
                            field: Field::Unknown,
                        })
                    } else if pos + 20 > b.len() {
                        Err(DecodeErrorModel::TruncatedInput {
                            level: Level::Line,
                            field: Field::BrushSize,
                        })
                    } else if pos + 24 > b.len() {
                        Err(DecodeErrorModel::TruncatedInput {
                            level: Level::Line,
                            field: Field::PointCount,
                        })
                    } else {
                        match spec_parse_points(b, pos + 24, le_i32_at(b, pos + 20) as int) {
                            Ok(rest) => Ok((
                                LineModel {
                                    brush_type: bt,
                                    brush_color: bc,
                                    padding: le_u32_at(b, pos + 8),
                                    unknown: le_u32_at(b, pos + 12),
                                    brush_size: le_u32_at(b, pos + 16),
                                    num_points: le_i32_at(b, pos + 20),
                                    points: rest.0,
                                },
                                rest.1,
                            )),
                            Err(e) => Err(e),
                        }
                    },
                }
            },
        }
    }
}

/// Parse `n` consecutive line records starting at `pos`.
pub open spec fn spec_parse_lines(b: Seq<u8>, pos: int, n: int) -> Result<
    (Seq<LineModel>, int),
    DecodeErrorModel,
>
    decreases n,
{
    if n <= 0 {
        Ok((Seq::<LineModel>::empty(), pos))
    } else {
        match spec_parse_line(b, pos) {
            Ok(first) => match spec_parse_lines(b, first.1, n - 1) {
                Ok(rest) => Ok((seq![first.0] + rest.0, rest.1)),
                Err(e) => Err(e),
            },
            Err(e) => Err(e),
        }
    }
}

/// Parse one layer at `pos`: its line count, then that many lines.
pub open spec fn spec_parse_layer(b: Seq<u8>, pos: int) -> Result<
    (LayerModel, int),
    DecodeErrorModel,
> {
    if pos + 4 > b.len() {
        Err(DecodeErrorModel::TruncatedInput { level: Level::Layer, field: Field::LineCount })
    } else {
        match spec_parse_lines(b, pos + 4, le_i32_at(b, pos) as int) {
            Ok(rest) => Ok((LayerModel { num_lines: le_i32_at(b, pos), lines: rest.0 }, rest.1)),
            Err(e) => Err(e),
        }
    }
}

/// Parse `n` consecutive layers starting at `pos`.
pub open spec fn spec_parse_layers(b: Seq<u8>, pos: int, n: int) -> Result<
    (Seq<LayerModel>, int),
    DecodeErrorModel,
>
    decreases n,
{
    if n <= 0 {
        Ok((Seq::<LayerModel>::empty(), pos))
    } else {
        match spec_parse_layer(b, pos) {
            Ok(first) => match spec_parse_layers(b, first.1, n - 1) {
                Ok(rest) => Ok((seq![first.0] + rest.0, rest.1)),
                Err(e) => Err(e),
            },
            Err(e) => Err(e),
        }
    }
}

/// The header bytes a stream presents: its first `HEADER_LEN` bytes, or
/// all of it if it is shorter.
pub open spec fn spec_presented_header(b: Seq<u8>) -> Seq<u8> {
    if b.len() < HEADER_LEN {
        b
    } else {
        b.subrange(0, HEADER_LEN as int)
    }
}

/// The whole grammar: magic header, layer count, then the layers. Returns
/// the document and the offset just past the bytes it occupied; trailing
/// bytes are ignored.
pub open spec fn spec_parse(b: Seq<u8>) -> Result<(DocumentModel, int), DecodeErrorModel> {
    if spec_presented_header(b) != spec_header() {
        Err(DecodeErrorModel::HeaderMismatch { actual: spec_presented_header(b) })
    } else if b.len() < HEADER_LEN + 4 {
        Err(DecodeErrorModel::TruncatedInput { level: Level::Layer, field: Field::LayerCount })
    } else {
        match spec_parse_layers(b, HEADER_LEN as int + 4, le_i32_at(b, HEADER_LEN as int) as int) {
            Ok(rest) => Ok((DocumentModel { layers: rest.0 }, rest.1)),
            Err(e) => Err(e),
        }
    }
}

/// Read the unsigned 32-bit little-endian field at `pos`.
fn read_u32_at(b: &[u8], pos: usize) -> (r: u32)
    requires
        pos + 4 <= b@.len(),
    ensures
        r == le_u32_at(b@, pos as int),
{
    let n = b.len();
    proof {
        assert(pos + 4 <= n);
    }
    u32_from_le_bytes(slice_subrange(b, pos, pos + 4))
}

/// Read the signed 32-bit little-endian field at `pos`.
fn read_i32_at(b: &[u8], pos: usize) -> (r: i32)
    requires
        pos + 4 <= b@.len(),
    ensures
        r == le_i32_at(b@, pos as int),
{
    read_u32_at(b, pos) as i32
}

/// Prefix the point sequence of a parse result with already-parsed points.
pub open spec fn points_with_prefix(
    prefix: Seq<Point>,
    r: Result<(Seq<Point>, int), DecodeErrorModel>,
) -> Result<(Seq<Point>, int), DecodeErrorModel> {
    match r {
        Ok(rest) => Ok((prefix + rest.0, rest.1)),
        Err(e) => Err(e),
    }
}

/// Decode `n` point records starting at `start`.
fn decode_points(b: &[u8], start: usize, n: i32) -> (r: Result<(Vec<Point>, usize), DecodeError>)
    requires
        start <= b@.len(),
    ensures
        ({
            let s = spec_parse_points(b@, start as int, n as int);
            match r {
                Ok(v) => s matches Ok(p) && v.0@ == p.0 && v.1 as int == p.1 && start <= v.1
                    <= b@.len(),
                Err(err) => s matches Err(e) && err.deep_view() == e,
            }
        }),
{
    let mut pts: Vec<Point> = Vec::new();
    let mut pos: usize = start;
    let mut i: i32 = 0;
    if n <= 0 {
        return Ok((pts, pos));
    }
    while i < n
        invariant
            0 <= i <= n,
            start <= pos <= b@.len(),
            spec_parse_points(b@, start as int, n as int) == points_with_prefix(
                pts@,
                spec_parse_points(b@, pos as int, n as int - i as int),
            ),
        decreases n as int - i as int,
    {
        if b.len() - pos < 24 {
            let rem: usize = b.len() - pos;
            let field = if rem < 4 {
                Field::X
            } else if rem < 8 {
                Field::Y
            } else if rem < 12 {
                Field::Speed
            } else if rem < 16 {
                Field::Direction
            } else if rem < 20 {
                Field::Width
            } else {
                Field::Pressure
            };
            return Err(DecodeError::TruncatedInput { level: Level::Point, field });
        }
        let p = Point {
            x: read_u32_at(b, pos),
            y: read_u32_at(b, pos + 4),
            speed: read_u32_at(b, pos + 8),
            direction: read_u32_at(b, pos + 12),
            width: read_u32_at(b, pos + 16),
            pressure: read_u32_at(b, pos + 20),
        };
        proof {
            assert(p == spec_point_at(b@, pos as int));
            let rest = spec_parse_points(b@, pos as int + 24, n as int - i as int - 1);
            match rest {
                Ok(q) => {
                    assert(pts@ + (seq![p] + q.0) =~= pts@.push(p) + q.0);
                },
                Err(_) => {},
            }
        }
        pts.push(p);
        pos = pos + 24;
        i = i + 1;
    }
    proof {
        assert(pts@ + Seq::<Point>::empty() =~= pts@);
    }
    Ok((pts, pos))
}

/// Decode one line record starting at `start`.
fn decode_line(b: &[u8], start: usize) -> (r: Result<(Line, usize), DecodeError>)
    requires
        start <= b@.len(),
    ensures
        ({
            let s = spec_parse_line(b@, start as int);
            match r {
                Ok(v) => s matches Ok(p) && v.0.deep_view() == p.0 && v.1 as int == p.1 && start
                    <= v.1 <= b@.len(),
                Err(err) => s matches Err(e) && err.deep_view() == e,
            }
        }),
{
    if b.len() - start < 4 {
        return Err(DecodeError::TruncatedInput { level: Level::Line, field: Field::BrushType });
    }
    let bt_code = read_i32_at(b, start);
    let bt = match brush_type_from_code(bt_code) {
        Some(t) => t,
        None => {
            return Err(DecodeError::UnknownEnumValue { field: Field::BrushType, value: bt_code });
        },
    };
    if b.len() - start < 8 {
        return Err(DecodeError::TruncatedInput { level: Level::Line, field: Field::BrushColor });
    }
    let bc_code = read_i32_at(b, start + 4);
    let bc = match brush_color_from_code(bc_code) {
        Some(c) => c,
        None => {
            return Err(DecodeError::UnknownEnumValue { field: Field::BrushColor, value: bc_code });
        },
    };
    if b.len() - start < 12 {
        return Err(DecodeError::TruncatedInput { level: Level::Line, field: Field::Padding });
    }
    if b.len() - start < 16 {
        return Err(DecodeError::TruncatedInput { level: Level::Line, field: Field::Unknown });
    }
    if b.len() - start < 20 {
        return Err(DecodeError::TruncatedInput { level: Level::Line, field: Field::BrushSize });
    }
    if b.len() - start < 24 {
        return Err(DecodeError::TruncatedInput { level: Level::Line, field: Field::PointCount });
    }
    let padding = read_u32_at(b, start + 8);
    let unknown = read_u32_at(b, start + 12);
    let brush_size = read_u32_at(b, start + 16);
    let num_points = read_i32_at(b, start + 20);
    match decode_points(b, start + 24, num_points) {
        Ok((points, end)) => Ok((
            Line { brush_type: bt, brush_color: bc, padding, unknown, brush_size, num_points, points },
            end,
        )),
        Err(e) => Err(e),
    }
}

/// Prefix the line sequence of a parse result with already-parsed lines.
pub open spec fn lines_with_prefix(
    prefix: Seq<LineModel>,
    r: Result<(Seq<LineModel>, int), DecodeErrorModel>,
) -> Result<(Seq<LineModel>, int), DecodeErrorModel> {
    match r {
        Ok(rest) => Ok((prefix + rest.0, rest.1)),
        Err(e) => Err(e),
    }
}

/// Decode `n` line records starting at `start`.
fn decode_lines(b: &[u8], start: usize, n: i32) -> (r: Result<(Vec<Line>, usize), DecodeError>)
    requires
        start <= b@.len(),
    ensures
        ({
            let s = spec_parse_lines(b@, start as int, n as int);
            match r {
                Ok(v) => s matches Ok(p) && v.0.deep_view() == p.0 && v.1 as int == p.1 && start
                    <= v.1 <= b@.len(),
                Err(err) => s matches Err(e) && err.deep_view() == e,
            }
        }),
{
    let mut lines: Vec<Line> = Vec::new();
    let mut pos: usize = start;
    let mut i: i32 = 0;
    if n <= 0 {
        proof {
            assert(lines.deep_view() =~= Seq::<LineModel>::empty());
        }
        return Ok((lines, pos));
    }
    while i < n
        invariant
            0 <= i <= n,
            start <= pos <= b@.len(),
            spec_parse_lines(b@, start as int, n as int) == lines_with_prefix(
                lines.deep_view(),
                spec_parse_lines(b@, pos as int, n as int - i as int),
            ),
        decreases n as int - i as int,
    {
        match decode_line(b, pos) {
            Ok((line, end)) => {
                proof {
                    let first = spec_parse_line(b@, pos as int)->Ok_0;
                    let rest = spec_parse_lines(b@, first.1, n as int - i as int - 1);
                    match rest {
                        Ok(q) => {
                            assert(lines.deep_view() + (seq![first.0] + q.0) =~= lines.deep_view().push(
                                first.0,
                            ) + q.0);
                            assert((lines.deep_view().push(line.deep_view())) =~= lines.deep_view().push(
                                first.0,
                            ));
                        },
                        Err(_) => {},
                    }
                }
                let ghost old_lines = lines.deep_view();
                lines.push(line);
                proof {
                    assert(lines.deep_view() =~= old_lines.push(lines@[lines@.len() - 1].deep_view()));
                }
                pos = end;
                i = i + 1;
            },
            Err(e) => {
                return Err(e);
            },
        }
    }
    proof {
        assert(lines.deep_view() + Seq::<LineModel>::empty() =~= lines.deep_view());
    }
    Ok((lines, pos))
}

/// Decode one layer starting at `start`: its line count, then its lines.
fn decode_layer(b: &[u8], start: usize) -> (r: Result<(Layer, usize), DecodeError>)
    requires
        start <= b@.len(),
    ensures
        ({
            let s = spec_parse_layer(b@, start as int);
            match r {
                Ok(v) => s matches Ok(p) && v.0.deep_view() == p.0 && v.1 as int == p.1 && start
                    <= v.1 <= b@.len(),
                Err(err) => s matches Err(e) && err.deep_view() == e,
            }
        }),
{
    if b.len() - start < 4 {
        return Err(DecodeError::TruncatedInput { level: Level::Layer, field: Field::LineCount });
    }
    let num_lines = read_i32_at(b, start);
    match decode_lines(b, start + 4, num_lines) {
        Ok((lines, end)) => Ok((Layer { num_lines, lines }, end)),
        Err(e) => Err(e),
    }
}

/// Prefix the layer sequence of a parse result with already-parsed layers.
pub open spec fn layers_with_prefix(
    prefix: Seq<LayerModel>,
    r: Result<(Seq<LayerModel>, int), DecodeErrorModel>,
) -> Result<(Seq<LayerModel>, int), DecodeErrorModel> {
    match r {
        Ok(rest) => Ok((prefix + rest.0, rest.1)),
        Err(e) => Err(e),
    }
}

/// Decode `n` layers starting at `start`.
fn decode_layers(b: &[u8], start: usize, n: i32) -> (r: Result<(Vec<Layer>, usize), DecodeError>)
    requires
        start <= b@.len(),
    ensures
        ({
            let s = spec_parse_layers(b@, start as int, n as int);
            match r {
                Ok(v) => s matches Ok(p) && v.0.deep_view() == p.0 && v.1 as int == p.1 && start
                    <= v.1 <= b@.len(),
                Err(err) => s matches Err(e) && err.deep_view() == e,
            }
        }),
{
    let mut layers: Vec<Layer> = Vec::new();
    let mut pos: usize = start;
    let mut i: i32 = 0;
    if n <= 0 {
        proof {
            assert(layers.deep_view() =~= Seq::<LayerModel>::empty());
        }
        return Ok((layers, pos));
    }
    while i < n
        invariant
            0 <= i <= n,
            start <= pos <= b@.len(),
            spec_parse_layers(b@, start as int, n as int) == layers_with_prefix(
                layers.deep_view(),
                spec_parse_layers(b@, pos as int, n as int - i as int),
            ),
        decreases n as int - i as int,
    {
        match decode_layer(b, pos) {
            Ok((layer, end)) => {
                proof {
                    let first = spec_parse_layer(b@, pos as int)->Ok_0;
                    let rest = spec_parse_layers(b@, first.1, n as int - i as int - 1);
                    match rest {
                        Ok(q) => {
                            assert(layers.deep_view() + (seq![first.0] + q.0) =~= layers.deep_view().push(
                                first.0,
                            ) + q.0);
                            assert((layers.deep_view().push(layer.deep_view())) =~= layers.deep_view().push(
                                first.0,
                            ));
                        },
                        Err(_) => {},
                    }
                }
                let ghost old_layers = layers.deep_view();
                layers.push(layer);
                proof {
                    assert(layers.deep_view() =~= old_layers.push(
                        layers@[layers@.len() - 1].deep_view(),
                    ));
                }
                pos = end;
                i = i + 1;
            },
            Err(e) => {
                return Err(e);
            },
        }
    }
    proof {
        assert(layers.deep_view() + Seq::<LayerModel>::empty() =~= layers.deep_view());
    }
    Ok((layers, pos))
}

/// Equality of two byte vectors' contents.
fn bytes_eq(a: &Vec<u8>, b: &Vec<u8>) -> (r: bool)
    ensures
        r == (a@ == b@),
{
    if a.len() != b.len() {
        return false;
    }
    let mut i: usize = 0;
    while i < a.len()
        invariant
            i <= a@.len(),
            a@.len() == b@.len(),
            forall|j: int| 0 <= j < i ==> a@[j] == b@[j],
        decreases a@.len() - i as int,
    {
        if a[i] != b[i] {
            proof {
                assert(a@ == b@ ==> a@[i as int] == b@[i as int]);
            }
            return false;
        }
        i = i + 1;
    }
    proof {
        assert(a@ =~= b@);
    }
    true
}

/// Decode one stream into a document.
///
/// The result is exactly what `spec_parse` assigns to the bytes: the
/// document whose layers, lines and points the grammar describes, or the
/// first failure — a wrong or short magic header, an out-of-set
/// enumerated value, or a truncated field. No partial document is ever
/// returned, and trailing bytes after the final record are ignored.
pub fn decode(bytes: &[u8]) -> (r: Result<Document, DecodeError>)
    ensures
        ({
            let s = spec_parse(bytes@);
            match r {
                Ok(d) => s matches Ok(p) && d.deep_view() == p.0,
                Err(err) => s matches Err(e) && err.deep_view() == e,
            }
        }),
{
    let take: usize = if bytes.len() < HEADER_LEN {
        bytes.len()
    } else {
        HEADER_LEN
    };
    let presented = slice_to_vec(slice_subrange(bytes, 0, take));
    let expected = header_bytes();
    proof {
        if bytes@.len() < HEADER_LEN {
            assert(presented@ =~= spec_presented_header(bytes@));
        } else {
            assert(presented@ =~= spec_presented_header(bytes@));
        }
    }
    if !bytes_eq(&presented, &expected) {
        return Err(DecodeError::HeaderMismatch { actual: presented });
    }
    if bytes.len() < HEADER_LEN + 4 {
        return Err(DecodeError::TruncatedInput { level: Level::Layer, field: Field::LayerCount });
    }
    let num_layers = read_i32_at(bytes, HEADER_LEN);
    match decode_layers(bytes, HEADER_LEN + 4, num_layers) {
        Ok((layers, _end)) => {
            let d = Document { layers };
            proof {
                assert(d.deep_view().layers =~= layers.deep_view());
            }
            Ok(d)
        },
        Err(e) => Err(e),
    }
}

} // verus!
