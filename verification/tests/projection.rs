use rm2svg::decode::{decode, header_bytes};
use rm2svg::doc::{BrushColor, BrushType, Document, Layer, Line, Point};
use rm2svg::project::{project, PathCommand, CANVAS_HEIGHT, CANVAS_WIDTH, STROKE_WIDTH};

fn push_u32(v: &mut Vec<u8>, x: u32) {
    for b in x.to_le_bytes() {
        v.push(b);
    }
}

fn push_i32(v: &mut Vec<u8>, x: i32) {
    for b in x.to_le_bytes() {
        v.push(b);
    }
}

fn push_f32(v: &mut Vec<u8>, x: f32) {
    push_u32(v, x.to_bits());
}

fn point(x: f32, y: f32) -> Point {
    Point {
        x: x.to_bits(),
        y: y.to_bits(),
        speed: 0f32.to_bits(),
        direction: 0f32.to_bits(),
        width: 0f32.to_bits(),
        pressure: 0f32.to_bits(),
    }
}

fn line_with(points: Vec<Point>) -> Line {
    let n = points.len() as i32;
    Line {
        brush_type: BrushType::Pen,
        brush_color: BrushColor::Black,
        padding: 0,
        unknown: 0f32.to_bits(),
        brush_size: 2.0f32.to_bits(),
        num_points: n,
        points,
    }
}

#[test]
fn canvas_constants_are_the_fixed_bounds() {
    assert_eq!(CANVAS_WIDTH, 1404);
    assert_eq!(CANVAS_HEIGHT, 1872);
    assert_eq!(STROKE_WIDTH, 3);
}

#[test]
fn one_group_per_layer_one_path_per_line_in_order() {
    let d = Document {
        layers: vec![
            Layer { num_lines: 2, lines: vec![line_with(vec![]), line_with(vec![point(1.0, 2.0)])] },
            Layer { num_lines: 0, lines: vec![] },
            Layer { num_lines: 3, lines: vec![line_with(vec![]), line_with(vec![]), line_with(vec![])] },
        ],
    };
    let v = project(&d);
    assert_eq!(v.width, CANVAS_WIDTH);
    assert_eq!(v.height, CANVAS_HEIGHT);
    assert_eq!(v.groups.len(), 3);
    assert_eq!(v.groups[0].paths.len(), 2);
    assert_eq!(v.groups[1].paths.len(), 0);
    assert_eq!(v.groups[2].paths.len(), 3);
}

#[test]
fn zero_point_line_projects_to_an_empty_path() {
    let d = Document { layers: vec![Layer { num_lines: 1, lines: vec![line_with(vec![])] }] };
    let v = project(&d);
    assert_eq!(v.groups.len(), 1);
    assert_eq!(v.groups[0].paths.len(), 1);
    assert!(v.groups[0].paths[0].commands.is_empty());
}

#[test]
fn commands_are_move_then_lines_at_exact_coordinates() {
    let pts = vec![point(10.0, 20.0), point(15.0, 25.0), point(-3.5, 0.25)];
    let d = Document { layers: vec![Layer { num_lines: 1, lines: vec![line_with(pts)] }] };
    let v = project(&d);
    let commands = &v.groups[0].paths[0].commands;
    assert_eq!(
        commands,
        &vec![
            PathCommand::MoveTo { x: 10.0f32.to_bits(), y: 20.0f32.to_bits() },
            PathCommand::LineTo { x: 15.0f32.to_bits(), y: 25.0f32.to_bits() },
            PathCommand::LineTo { x: (-3.5f32).to_bits(), y: 0.25f32.to_bits() },
        ]
    );
}

#[test]
fn single_point_line_projects_to_a_single_move() {
    let d = Document {
        layers: vec![Layer { num_lines: 1, lines: vec![line_with(vec![point(7.0, 8.0)])] }],
    };
    let v = project(&d);
    assert_eq!(
        v.groups[0].paths[0].commands,
        vec![PathCommand::MoveTo { x: 7.0f32.to_bits(), y: 8.0f32.to_bits() }]
    );
}

#[test]
fn end_to_end_pen_stroke_decodes_and_projects() {
    let mut v = header_bytes();
    push_i32(&mut v, 1);
    push_i32(&mut v, 1);
    push_i32(&mut v, 2); // Pen
    push_i32(&mut v, 0); // Black
    push_u32(&mut v, 0); // reserved
    push_f32(&mut v, 0.0); // unknown
    push_f32(&mut v, 2.0); // brush size
    push_i32(&mut v, 2);
    for (x, y) in [(10.0f32, 20.0f32), (15.0, 25.0)] {
        push_f32(&mut v, x);
        push_f32(&mut v, y);
        push_f32(&mut v, 0.0);
        push_f32(&mut v, 0.0);
        push_f32(&mut v, 0.0);
        push_f32(&mut v, 0.0);
    }
    let d = decode(&v).unwrap();
    assert_eq!(d.layers.len(), 1);
    assert_eq!(d.layers[0].lines.len(), 1);
    let line = &d.layers[0].lines[0];
    assert_eq!(line.brush_type, BrushType::Pen);
    assert_eq!(line.brush_color, BrushColor::Black);
    assert_eq!(line.points, vec![point(10.0, 20.0), point(15.0, 25.0)]);
    let out = project(&d);
    assert_eq!(out.groups.len(), 1);
    assert_eq!(out.groups[0].paths.len(), 1);
    assert_eq!(
        out.groups[0].paths[0].commands,
        vec![
            PathCommand::MoveTo { x: 10.0f32.to_bits(), y: 20.0f32.to_bits() },
            PathCommand::LineTo { x: 15.0f32.to_bits(), y: 25.0f32.to_bits() },
        ]
    );
}
