use rm2svg::decode::{decode, header_bytes, DecodeError, Field, Level};
use rm2svg::doc::{BrushColor, BrushType, Document, Layer, Line, Point};
use rm2svg::encode::encode;

fn push_u32(v: &mut Vec<u8>, x: u32) {
    for b in x.to_le_bytes() {
        v.push(b);
    }
}

fn push_i32(v: &mut Vec<u8>, x: i32) {
    for b in x.to_le_bytes() {
        v.push(b);
    }
}

fn push_f32(v: &mut Vec<u8>, x: f32) {
    push_u32(v, x.to_bits());
}

fn point(x: f32, y: f32) -> Point {
    Point {
        x: x.to_bits(),
        y: y.to_bits(),
        speed: 0f32.to_bits(),
        direction: 0f32.to_bits(),
        width: 0f32.to_bits(),
        pressure: 0f32.to_bits(),
    }
}

/// A stream with one layer holding one pen line with the given points.
fn one_line_stream(brush_type: i32, brush_color: i32, points: &[(f32, f32)]) -> Vec<u8> {
    let mut v = header_bytes();
    push_i32(&mut v, 1);
    push_i32(&mut v, 1);
    push_i32(&mut v, brush_type);
    push_i32(&mut v, brush_color);
    push_u32(&mut v, 0);
    push_f32(&mut v, 0.0);
    push_f32(&mut v, 2.0);
    push_i32(&mut v, points.len() as i32);
    for (x, y) in points {
        push_f32(&mut v, *x);
        push_f32(&mut v, *y);
        push_f32(&mut v, 0.0);
        push_f32(&mut v, 0.0);
        push_f32(&mut v, 0.0);
        push_f32(&mut v, 0.0);
    }
    v
}

#[test]
fn header_bytes_are_the_magic_text() {
    let h = header_bytes();
    let expected: &[u8] = b"reMarkable .lines file, version=5          ";
    assert_eq!(h.len(), 43);
    assert_eq!(&h[..], expected);
}

#[test]
fn wrong_header_of_full_length_is_rejected() {
    let mut v = one_line_stream(2, 0, &[(1.0, 2.0)]);
    v[0] = b'x';
    let presented = v[..43].to_vec();
    let r = decode(&v);
    match r {
        Err(DecodeError::HeaderMismatch { actual }) => {
            assert_eq!(actual.len(), 43);
            assert_eq!(actual, presented);
        }
        other => panic!("expected HeaderMismatch, got {:?}", other),
    }
}

#[test]
fn short_stream_is_a_header_mismatch() {
    let v: Vec<u8> = b"reMark".to_vec();
    let r = decode(&v);
    match r {
        Err(DecodeError::HeaderMismatch { actual }) => {
            assert_eq!(actual, v);
        }
        other => panic!("expected HeaderMismatch, got {:?}", other),
    }
}

#[test]
fn header_alone_truncates_at_layer_count() {
    let v = header_bytes();
    assert_eq!(
        decode(&v),
        Err(DecodeError::TruncatedInput { level: Level::Layer, field: Field::LayerCount })
    );
}

#[test]
fn missing_line_count_truncates_at_layer_level() {
    let mut v = header_bytes();
    push_i32(&mut v, 1);
    assert_eq!(
        decode(&v),
        Err(DecodeError::TruncatedInput { level: Level::Layer, field: Field::LineCount })
    );
}

#[test]
fn missing_line_fields_truncate_at_line_level() {
    let mut v = header_bytes();
    push_i32(&mut v, 1);
    push_i32(&mut v, 1);
    push_i32(&mut v, 2);
    push_i32(&mut v, 0);
    assert_eq!(
        decode(&v),
        Err(DecodeError::TruncatedInput { level: Level::Line, field: Field::Padding })
    );
}

#[test]
fn brush_type_99_is_an_unknown_enum_value() {
    let v = one_line_stream(99, 0, &[]);
    assert_eq!(
        decode(&v),
        Err(DecodeError::UnknownEnumValue { field: Field::BrushType, value: 99 })
    );
}

#[test]
fn brush_type_gap_values_are_rejected() {
    for bad in [19, 20, -1, 22] {
        let v = one_line_stream(bad, 0, &[]);
        assert_eq!(
            decode(&v),
            Err(DecodeError::UnknownEnumValue { field: Field::BrushType, value: bad })
        );
    }
}

#[test]
fn brush_type_21_is_calligraphy() {
    let v = one_line_stream(21, 1, &[]);
    let d = decode(&v).unwrap();
    assert_eq!(d.layers[0].lines[0].brush_type, BrushType::Calligraphy);
    assert_eq!(d.layers[0].lines[0].brush_color, BrushColor::Grey);
}

#[test]
fn brush_color_3_is_an_unknown_enum_value() {
    let v = one_line_stream(2, 3, &[]);
    assert_eq!(
        decode(&v),
        Err(DecodeError::UnknownEnumValue { field: Field::BrushColor, value: 3 })
    );
}

#[test]
fn stream_ending_after_x_y_truncates_at_point_speed() {
    let mut v = one_line_stream(2, 0, &[]);
    // declared one point, but only x and y follow
    let count_at = v.len() - 4;
    v[count_at..].copy_from_slice(&1i32.to_le_bytes());
    push_f32(&mut v, 10.0);
    push_f32(&mut v, 20.0);
    assert_eq!(
        decode(&v),
        Err(DecodeError::TruncatedInput { level: Level::Point, field: Field::Speed })
    );
}

#[test]
fn decoded_document_matches_the_stream() {
    let v = one_line_stream(2, 0, &[(10.0, 20.0), (15.0, 25.0)]);
    let d = decode(&v).unwrap();
    assert_eq!(d.layers.len(), 1);
    let layer = &d.layers[0];
    assert_eq!(layer.num_lines, 1);
    assert_eq!(layer.lines.len(), 1);
    let line = &layer.lines[0];
    assert_eq!(line.brush_type, BrushType::Pen);
    assert_eq!(line.brush_color, BrushColor::Black);
    assert_eq!(line.padding, 0);
    assert_eq!(line.unknown, 0f32.to_bits());
    assert_eq!(line.brush_size, 2.0f32.to_bits());
    assert_eq!(line.num_points, 2);
    assert_eq!(line.points, vec![point(10.0, 20.0), point(15.0, 25.0)]);
}

#[test]
fn trailing_bytes_are_ignored() {
    let mut v = one_line_stream(2, 0, &[(1.0, 1.0)]);
    let d_plain = decode(&v).unwrap();
    v.push(0xAB);
    v.push(0xCD);
    let d = decode(&v).unwrap();
    assert_eq!(d, d_plain);
}

#[test]
fn decode_then_encode_round_trips() {
    let mut v = header_bytes();
    push_i32(&mut v, 2);
    // first layer: two lines
    push_i32(&mut v, 2);
    for (bt, np) in [(0, 3), (18, 0)] {
        push_i32(&mut v, bt);
        push_i32(&mut v, 2);
        push_u32(&mut v, 7);
        push_f32(&mut v, 1.5);
        push_f32(&mut v, 3.25);
        push_i32(&mut v, np);
        for k in 0..np {
            for field in 0..6 {
                push_f32(&mut v, (k * 6 + field) as f32);
            }
        }
    }
    // second layer: no lines
    push_i32(&mut v, 0);
    let d = decode(&v).unwrap();
    assert_eq!(encode(&d), v);
}

#[test]
fn negative_point_count_round_trips() {
    let mut v = one_line_stream(2, 0, &[]);
    let count_at = v.len() - 4;
    v[count_at..].copy_from_slice(&(-3i32).to_le_bytes());
    let d = decode(&v).unwrap();
    assert_eq!(d.layers[0].lines[0].num_points, -3);
    assert_eq!(d.layers[0].lines[0].points.len(), 0);
    assert_eq!(encode(&d), v);
}

#[test]
fn negative_layer_count_decodes_to_no_layers() {
    let mut v = header_bytes();
    push_i32(&mut v, -1);
    let d = decode(&v).unwrap();
    assert_eq!(d.layers.len(), 0);
    // the declared layer count is not stored, so this stream is the one
    // shape the byte round trip does not cover
    let mut expected = header_bytes();
    push_i32(&mut expected, 0);
    assert_eq!(encode(&d), expected);
}

#[test]
fn encode_writes_the_exact_grammar() {
    let d = Document {
        layers: vec![Layer {
            num_lines: 1,
            lines: vec![Line {
                brush_type: BrushType::Fineliner,
                brush_color: BrushColor::White,
                padding: 9,
                unknown: 1.0f32.to_bits(),
                brush_size: 2.0f32.to_bits(),
                num_points: 1,
                points: vec![point(3.0, 4.0)],
            }],
        }],
    };
    let mut expected = header_bytes();
    push_i32(&mut expected, 1);
    push_i32(&mut expected, 1);
    push_i32(&mut expected, 4);
    push_i32(&mut expected, 2);
    push_u32(&mut expected, 9);
    push_f32(&mut expected, 1.0);
    push_f32(&mut expected, 2.0);
    push_i32(&mut expected, 1);
    push_f32(&mut expected, 3.0);
    push_f32(&mut expected, 4.0);
    push_f32(&mut expected, 0.0);
    push_f32(&mut expected, 0.0);
    push_f32(&mut expected, 0.0);
    push_f32(&mut expected, 0.0);
    assert_eq!(encode(&d), expected);
}
