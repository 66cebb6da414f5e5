//! The in-memory document model: layers, lines and points, together with
//! the closed brush enumerations and their numeric codes.

use vstd::prelude::*;

verus! {

/// The drawing tool recorded for a stroke. The numeric codes span two
/// revisions of the brush taxonomy: 0 through 18, and 21.
#[derive(Clone, Copy, PartialEq, Eq, Structural, Debug)]
pub enum BrushType {
    Paintbrush,
    PencilTilt,
    Pen,
    Marker,
    Fineliner,
    Highlighter,
    Eraser,
    PencilSharp,
    RubberArea,
    EraseAll,
    SelectionBrush1,
    SelectionBrush2,
    Paintbrush2,
    MechanicalPencil,
    Pencil2,
    BallpointPen2,
    Marker2,
    Fineliner2,
    Highlighter2,
    Calligraphy,
}

/// The ink color recorded for a stroke; codes 0, 1 and 2.
#[derive(Clone, Copy, PartialEq, Eq, Structural, Debug)]
pub enum BrushColor {
    Black,
    Grey,
    White,
}

/// The numeric code that the format writes for a brush type.
pub open spec fn brush_type_code(t: BrushType) -> i32 {
    match t {
        BrushType::Paintbrush => 0,
        BrushType::PencilTilt => 1,
        BrushType::Pen => 2,
        BrushType::Marker => 3,
        BrushType::Fineliner => 4,
        BrushType::Highlighter => 5,
        BrushType::Eraser => 6,
        BrushType::PencilSharp => 7,
        BrushType::RubberArea => 8,
        BrushType::EraseAll => 9,
        BrushType::SelectionBrush1 => 10,
        BrushType::SelectionBrush2 => 11,
        BrushType::Paintbrush2 => 12,
        BrushType::MechanicalPencil => 13,
        BrushType::Pencil2 => 14,
        BrushType::BallpointPen2 => 15,
        BrushType::Marker2 => 16,
        BrushType::Fineliner2 => 17,
        BrushType::Highlighter2 => 18,
        BrushType::Calligraphy => 21,
    }
}

/// The brush type a numeric code stands for, or `None` outside the
/// closed set {0, ..., 18, 21}.
pub open spec fn spec_brush_type_from_code(v: i32) -> Option<BrushType> {
    if v == 0 {
        Some(BrushType::Paintbrush)
    } else if v == 1 {
        Some(BrushType::PencilTilt)
    } else if v == 2 {
        Some(BrushType::Pen)
    } else if v == 3 {
        Some(BrushType::Marker)
    } else if v == 4 {
        Some(BrushType::Fineliner)
    } else if v == 5 {
        Some(BrushType::Highlighter)
    } else if v == 6 {
        Some(BrushType::Eraser)
    } else if v == 7 {
        Some(BrushType::PencilSharp)
    } else if v == 8 {
        Some(BrushType::RubberArea)
    } else if v == 9 {
        Some(BrushType::EraseAll)
    } else if v == 10 {
        Some(BrushType::SelectionBrush1)
    } else if v == 11 {
        Some(BrushType::SelectionBrush2)
    } else if v == 12 {
        Some(BrushType::Paintbrush2)
    } else if v == 13 {
        Some(BrushType::MechanicalPencil)
    } else if v == 14 {
        Some(BrushType::Pencil2)
    } else if v == 15 {
        Some(BrushType::BallpointPen2)
    } else if v == 16 {
        Some(BrushType::Marker2)
    } else if v == 17 {
        Some(BrushType::Fineliner2)
    } else if v == 18 {
        Some(BrushType::Highlighter2)
    } else if v == 21 {
        Some(BrushType::Calligraphy)
    } else {
        None
    }
}

/// Validating conversion from the raw code read off the stream.
pub fn brush_type_from_code(v: i32) -> (r: Option<BrushType>)
    ensures
        r == spec_brush_type_from_code(v),
{
    if v == 0 {
        Some(BrushType::Paintbrush)
    } else if v == 1 {
        Some(BrushType::PencilTilt)
    } else if v == 2 {
        Some(BrushType::Pen)
    } else if v == 3 {
        Some(BrushType::Marker)
    } else if v == 4 {
        Some(BrushType::Fineliner)
    } else if v == 5 {
        Some(BrushType::Highlighter)
    } else if v == 6 {
        Some(BrushType::Eraser)
    } else if v == 7 {
        Some(BrushType::PencilSharp)
    } else if v == 8 {
        Some(BrushType::RubberArea)
    } else if v == 9 {
        Some(BrushType::EraseAll)
    } else if v == 10 {
        Some(BrushType::SelectionBrush1)
    } else if v == 11 {
        Some(BrushType::SelectionBrush2)
    } else if v == 12 {
        Some(BrushType::Paintbrush2)
    } else if v == 13 {
        Some(BrushType::MechanicalPencil)
    } else if v == 14 {
        Some(BrushType::Pencil2)
    } else if v == 15 {
        Some(BrushType::BallpointPen2)
    } else if v == 16 {
        Some(BrushType::Marker2)
    } else if v == 17 {
        Some(BrushType::Fineliner2)
    } else if v == 18 {
        Some(BrushType::Highlighter2)
    } else if v == 21 {
        Some(BrushType::Calligraphy)
    } else {
        None
    }
}

/// The code written back when a brush type is re-encoded.
pub fn brush_type_to_code(t: BrushType) -> (r: i32)
    ensures
        r == brush_type_code(t),
{
    match t {
        BrushType::Paintbrush => 0,
        BrushType::PencilTilt => 1,
        BrushType::Pen => 2,
        BrushType::Marker => 3,
        BrushType::Fineliner => 4,
        BrushType::Highlighter => 5,
        BrushType::Eraser => 6,
        BrushType::PencilSharp => 7,
        BrushType::RubberArea => 8,
        BrushType::EraseAll => 9,
        BrushType::SelectionBrush1 => 10,
        BrushType::SelectionBrush2 => 11,
        BrushType::Paintbrush2 => 12,
        BrushType::MechanicalPencil => 13,
        BrushType::Pencil2 => 14,
        BrushType::BallpointPen2 => 15,
        BrushType::Marker2 => 16,
        BrushType::Fineliner2 => 17,
        BrushType::Highlighter2 => 18,
        BrushType::Calligraphy => 21,
    }
}

/// A code accepted by the conversion is reproduced by `brush_type_code`.
pub proof fn lemma_brush_type_from_code_round(v: i32)
    ensures
        spec_brush_type_from_code(v) matches Some(t) ==> brush_type_code(t) == v,
{
}

/// The numeric code that the format writes for a brush color.
pub open spec fn brush_color_code(c: BrushColor) -> i32 {
    match c {
        BrushColor::Black => 0,
        BrushColor::Grey => 1,
        BrushColor::White => 2,
    }
}

/// The brush color a numeric code stands for, or `None` outside {0, 1, 2}.
pub open spec fn spec_brush_color_from_code(v: i32) -> Option<BrushColor> {
    if v == 0 {
        Some(BrushColor::Black)
    } else if v == 1 {
        Some(BrushColor::Grey)
    } else if v == 2 {
        Some(BrushColor::White)
    } else {
        None
    }
}

/// Validating conversion from the raw code read off the stream.
pub fn brush_color_from_code(v: i32) -> (r: Option<BrushColor>)
    ensures
        r == spec_brush_color_from_code(v),
{
    if v == 0 {
        Some(BrushColor::Black)
    } else if v == 1 {
        Some(BrushColor::Grey)
    } else if v == 2 {
        Some(BrushColor::White)
    } else {
        None
    }
}

/// The code written back when a brush color is re-encoded.
pub fn brush_color_to_code(c: BrushColor) -> (r: i32)
    ensures
        r == brush_color_code(c),
{
    match c {
        BrushColor::Black => 0,
        BrushColor::Grey => 1,
        BrushColor::White => 2,
    }
}

/// A code accepted by the conversion is reproduced by `brush_color_code`.
pub proof fn lemma_brush_color_from_code_round(v: i32)
    ensures
        spec_brush_color_from_code(v) matches Some(c) ==> brush_color_code(c) == v,
{
}

/// One sampled stroke location. Each field is the raw bit pattern of the
/// 32-bit little-endian float stored in the file: position (`x`, `y`) and
/// four stroke-dynamics scalars that are carried through untouched.
#[derive(Clone, Copy, PartialEq, Eq, Structural, Debug)]
pub struct Point {
    pub x: u32,
    pub y: u32,
    pub speed: u32,
    pub direction: u32,
    pub width: u32,
    pub pressure: u32,
}

impl DeepView for Point {
    type V = Point;

    open spec fn deep_view(&self) -> Point {
        *self
    }
}

/// One continuous stroke: brush metadata, the declared point count, and
/// the points themselves. `padding` and `unknown` are preserved but never
/// interpreted; `unknown` and `brush_size` are raw float bit patterns.
#[derive(Clone, PartialEq, Eq, Debug)]
pub struct Line {
    pub brush_type: BrushType,
    pub brush_color: BrushColor,
    pub padding: u32,
    pub unknown: u32,
    pub brush_size: u32,
    pub num_points: i32,
    pub points: Vec<Point>,
}

/// The mathematical model of a `Line`: the same fields with the points as
/// a sequence.
pub struct LineModel {
    pub brush_type: BrushType,
    pub brush_color: BrushColor,
    pub padding: u32,
    pub unknown: u32,
    pub brush_size: u32,
    pub num_points: i32,
    pub points: Seq<Point>,
}

impl DeepView for Line {
    type V = LineModel;

    open spec fn deep_view(&self) -> LineModel {
        LineModel {
            brush_type: self.brush_type,
            brush_color: self.brush_color,
            padding: self.padding,
            unknown: self.unknown,
            brush_size: self.brush_size,
            num_points: self.num_points,
            points: self.points@,
        }
    }
}

/// One layer: its declared line count and the lines decoded for it, in
/// stream order.
#[derive(Clone, PartialEq, Eq, Debug)]
pub struct Layer {
    pub num_lines: i32,
    pub lines: Vec<Line>,
}

/// The mathematical model of a `Layer`.
pub struct LayerModel {
    pub num_lines: i32,
    pub lines: Seq<LineModel>,
}

impl DeepView for Layer {
    type V = LayerModel;

    open spec fn deep_view(&self) -> LayerModel {
        LayerModel { num_lines: self.num_lines, lines: self.lines.deep_view() }
    }
}

/// One parsed file: the ordered sequence of its layers.
#[derive(Clone, PartialEq, Eq, Debug)]
pub struct Document {
    pub layers: Vec<Layer>,
}

/// The mathematical model of a `Document`.
pub struct DocumentModel {
    pub layers: Seq<LayerModel>,
}

impl DeepView for Document {
    type V = DocumentModel;

    open spec fn deep_view(&self) -> DocumentModel {
        DocumentModel { layers: self.layers.deep_view() }
    }
}

/// A line whose declared point count agrees with the points it holds.
pub open spec fn line_counts_consistent(l: LineModel) -> bool {
    if l.num_points >= 0 {
        l.points.len() == l.num_points
    } else {
        l.points.len() == 0
    }
}

/// A layer whose declared line count agrees with the lines it holds, each
/// of which is itself consistent.
pub open spec fn layer_counts_consistent(y: LayerModel) -> bool {
    &&& if y.num_lines >= 0 {
        y.lines.len() == y.num_lines
    } else {
        y.lines.len() == 0
    }
    &&& forall|i: int| 0 <= i < y.lines.len() ==> line_counts_consistent(#[trigger] y.lines[i])
}

/// Every declared count in the document agrees with the records actually
/// held. Decoding establishes this; a negative declared count is kept but
/// governs zero records.
pub open spec fn document_counts_consistent(d: DocumentModel) -> bool {
    forall|i: int| 0 <= i < d.layers.len() ==> layer_counts_consistent(#[trigger] d.layers[i])
}

} // verus!
