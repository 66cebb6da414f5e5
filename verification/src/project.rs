//! The path projector: turns a decoded document into a vector document —
//! one drawable group per layer, one path per line, each line's points
//! rendered as a move-then-line command sequence in point order.
//!
//! Coordinates are carried as the raw bit patterns of the 32-bit floats
//! stored in the file; the projector copies them without transformation.
//! Styling (no fill, black stroke of width 3, round joins and caps) is a
//! fixed presentation constant of every path, not derived from brush
//! metadata, so it is not part of the projected data.

use vstd::prelude::*;
use crate::doc::{Document, Layer, Line, Point};

verus! {

/// Width of the fixed output viewport, in device units.
pub const CANVAS_WIDTH: u32 = 1404;

/// Height of the fixed output viewport, in device units.
pub const CANVAS_HEIGHT: u32 = 1872;

/// Stroke width applied uniformly to every projected path.
pub const STROKE_WIDTH: u32 = 3;

/// One drawing command of a path. Coordinates are raw float bit patterns.
#[derive(Clone, Copy, PartialEq, Eq, Structural, Debug)]
pub enum PathCommand {
    MoveTo { x: u32, y: u32 },
    LineTo { x: u32, y: u32 },
}

/// One drawable path: the projected image of one line.
#[derive(Clone, PartialEq, Eq, Debug)]
pub struct VectorPath {
    pub commands: Vec<PathCommand>,
}

/// One drawable group: the projected image of one layer.
#[derive(Clone, PartialEq, Eq, Debug)]
pub struct VectorGroup {
    pub paths: Vec<VectorPath>,
}

/// The projected output: a canvas-bounded tree of groups and paths. The
/// viewport is always `[0, 0, width, height]` with the fixed canvas
/// bounds; it is not derived from the input.
#[derive(Clone, PartialEq, Eq, Debug)]
pub struct VectorDocument {
    pub width: u32,
    pub height: u32,
    pub groups: Vec<VectorGroup>,
}

/// The command sequence drawn for one line's points: a move to the first
/// point, then a line to each following point, in order — one command
/// per point, so an empty point sequence draws nothing.
pub open spec fn spec_path_commands(ps: Seq<Point>) -> Seq<PathCommand> {
    Seq::new(
        ps.len(),
        |i: int|
            if i == 0 {
                PathCommand::MoveTo { x: ps[0].x, y: ps[0].y }
            } else {
                PathCommand::LineTo { x: ps[i].x, y: ps[i].y }
            },
    )
}

/// A line with no points projects to a path that draws nothing; it is
/// never an error.
pub proof fn lemma_empty_line_draws_nothing(ps: Seq<Point>)
    requires
        ps.len() == 0,
    ensures
        spec_path_commands(ps).len() == 0,
{
}

/// With at least one point, the path opens with a move to the first
/// point's exact coordinates and continues with a line to each following
/// point's exact coordinates, in order, one command per point.
pub proof fn lemma_commands_trace_points(ps: Seq<Point>)
    requires
        ps.len() >= 1,
    ensures
        spec_path_commands(ps).len() == ps.len(),
        spec_path_commands(ps)[0] == (PathCommand::MoveTo { x: ps[0].x, y: ps[0].y }),
        forall|k: int|
            1 <= k < ps.len() ==> spec_path_commands(ps)[k] == (PathCommand::LineTo {
                x: ps[k].x,
                y: ps[k].y,
            }),
{
}

/// Project one line to its path.
fn project_line(l: &Line) -> (r: VectorPath)
    ensures
        r.commands@ == spec_path_commands(l.points@),
{
    let mut commands: Vec<PathCommand> = Vec::new();
    let mut k: usize = 0;
    while k < l.points.len()
        invariant
            k <= l.points@.len(),
            commands@.len() == k,
            forall|t: int| 0 <= t < k ==> commands@[t] == spec_path_commands(l.points@)[t],
        decreases l.points@.len() - k as int,
    {
        let p = l.points[k];
        if k == 0 {
            commands.push(PathCommand::MoveTo { x: p.x, y: p.y });
        } else {
            commands.push(PathCommand::LineTo { x: p.x, y: p.y });
        }
        k = k + 1;
    }
    proof {
        assert(commands@ =~= spec_path_commands(l.points@));
    }
    VectorPath { commands }
}

/// Project one layer to its group.
fn project_layer(y: &Layer) -> (r: VectorGroup)
    ensures
        r.paths@.len() == y.lines@.len(),
        forall|j: int|
            0 <= j < y.lines@.len() ==> (#[trigger] r.paths@[j]).commands@ == spec_path_commands(
                y.lines@[j].points@,
            ),
{
    let mut paths: Vec<VectorPath> = Vec::new();
    let mut j: usize = 0;
    while j < y.lines.len()
        invariant
            j <= y.lines@.len(),
            paths@.len() == j,
            forall|t: int|
                0 <= t < j ==> (#[trigger] paths@[t]).commands@ == spec_path_commands(
                    y.lines@[t].points@,
                ),
        decreases y.lines@.len() - j as int,
    {
        paths.push(project_line(&y.lines[j]));
        j = j + 1;
    }
    VectorGroup { paths }
}

/// Project a document to its vector image.
///
/// The result is sized to the fixed canvas bounds and holds exactly one
/// group per layer and one path per line, in original order; each path's
/// commands trace its line's points exactly, a move to the first point
/// then a line to each following one. Pure: projection never fails, for
/// any document the decoder can produce, zero counts included.
pub fn project(doc: &Document) -> (r: VectorDocument)
    ensures
        r.width == CANVAS_WIDTH,
        r.height == CANVAS_HEIGHT,
        r.groups@.len() == doc.layers@.len(),
        forall|i: int|
            0 <= i < doc.layers@.len() ==> (#[trigger] r.groups@[i]).paths@.len()
                == doc.layers@[i].lines@.len(),
        forall|i: int, j: int|
            0 <= i < doc.layers@.len() && 0 <= j < doc.layers@[i].lines@.len()
                ==> (#[trigger] r.groups@[i].paths@[j]).commands@ == spec_path_commands(
                doc.layers@[i].lines@[j].points@,
            ),
{
    let mut groups: Vec<VectorGroup> = Vec::new();
    let mut i: usize = 0;
    while i < doc.layers.len()
        invariant
            i <= doc.layers@.len(),
            groups@.len() == i,
            forall|t: int|
                0 <= t < i ==> (#[trigger] groups@[t]).paths@.len()
                    == doc.layers@[t].lines@.len(),
            forall|t: int, j: int|
                0 <= t < i && 0 <= j < doc.layers@[t].lines@.len()
                    ==> (#[trigger] groups@[t].paths@[j]).commands@ == spec_path_commands(
                    doc.layers@[t].lines@[j].points@,
                ),
        decreases doc.layers@.len() - i as int,
    {
        groups.push(project_layer(&doc.layers[i]));
        i = i + 1;
    }
    VectorDocument { width: CANVAS_WIDTH, height: CANVAS_HEIGHT, groups }
}

} // verus!
