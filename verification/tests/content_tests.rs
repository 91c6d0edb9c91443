use rook_core::content_parser::{parse_page_content, to_layer_objects, Operator, ParseContext};
use rook_core::fixed::Fixed;
use rook_core::graphics_state::{cmyk_to_rgb, normalize_font_name, rgba_to_hex, GraphicsState};
use rook_core::models::{LayerType, PathCommand, TransformMatrix};
use rook_core::operand::{decode_utf16be, extract_text_from_object, Operand, Operation};
use rook_core::path_ops::transform_path;
use rook_core::text_ops::{calculate_text_width, create_text};

fn fx(v: f64) -> Fixed {
    Fixed::from_micros((v * 1_000_000.0).round() as i64)
}

fn num(v: f64) -> Operand {
    Operand::Real(fx(v))
}

fn whole(v: i64) -> Operand {
    Operand::Integer(v)
}

fn text(s: &str) -> Operand {
    Operand::Text(s.as_bytes().to_vec())
}

fn op(name: &str, operands: Vec<Operand>) -> Operation {
    Operation { operator: name.to_string(), operands }
}

fn white() -> [Fixed; 4] {
    [fx(1.0), fx(1.0), fx(1.0), fx(1.0)]
}

fn black() -> [Fixed; 4] {
    [fx(0.0), fx(0.0), fx(0.0), fx(1.0)]
}

#[test]
fn end_to_end_scaled_square() {
    let stream = vec![
        op("q", vec![]),
        op("cm", vec![whole(2), whole(0), whole(0), whole(2), whole(0), whole(0)]),
        op("re", vec![whole(0), whole(0), whole(10), whole(10)]),
        op("f", vec![]),
        op("Q", vec![]),
    ];
    let (texts, paths) = parse_page_content(&stream, fx(100.0));
    assert!(texts.is_empty());
    assert_eq!(paths.len(), 1);
    let path = &paths[0];
    assert_eq!(path.fill_color, Some(black()));
    assert_eq!(path.stroke_color, None);
    assert_eq!(path.bounds.x, fx(0.0));
    assert_eq!(path.bounds.y, fx(80.0));
    assert_eq!(path.bounds.width, fx(20.0));
    assert_eq!(path.bounds.height, fx(20.0));
    assert_eq!(path.line_width, fx(2.0));
    assert_eq!(path.transform, TransformMatrix::scale(fx(2.0), fx(2.0)));
    assert_eq!(
        path.commands,
        vec![
            PathCommand::MoveTo { x: fx(0.0), y: fx(100.0) },
            PathCommand::LineTo { x: fx(20.0), y: fx(100.0) },
            PathCommand::LineTo { x: fx(20.0), y: fx(80.0) },
            PathCommand::LineTo { x: fx(0.0), y: fx(80.0) },
            PathCommand::ClosePath,
        ]
    );
}

#[test]
fn stack_depth_never_below_one() {
    let mut ctx = ParseContext::new(fx(100.0));
    assert_eq!(ctx.depth(), 1);
    for _ in 0..5 {
        ctx.process_operator("Q", &[]);
        assert_eq!(ctx.depth(), 1);
    }
    ctx.process_operator("q", &[]);
    ctx.process_operator("q", &[]);
    assert_eq!(ctx.depth(), 3);
    for _ in 0..7 {
        ctx.process_operator("Q", &[]);
    }
    assert_eq!(ctx.depth(), 1);
}

#[test]
fn unbalanced_restore_keeps_default_state() {
    let mut ctx = ParseContext::new(fx(792.0));
    ctx.process_operator("Q", &[]);
    let state = ctx.state();
    assert_eq!(state.ctm, TransformMatrix::identity());
    assert_eq!(state.fill_color, black());
    assert_eq!(state.stroke_color, black());
    assert_eq!(state.line_width, fx(1.0));
    assert_eq!(state.font_name, None);
    assert_eq!(state.font_size, fx(12.0));
    assert_eq!(state.leading, fx(0.0));
}

#[test]
fn save_and_restore_bring_the_state_back() {
    let mut ctx = ParseContext::new(fx(792.0));
    ctx.process_operator("w", &[num(3.0)]);
    ctx.process_operator("q", &[]);
    ctx.process_operator("w", &[num(9.0)]);
    ctx.process_operator("rg", &[num(1.0), num(0.0), num(0.0)]);
    assert_eq!(ctx.state().line_width, fx(9.0));
    ctx.process_operator("Q", &[]);
    assert_eq!(ctx.state().line_width, fx(3.0));
    assert_eq!(ctx.state().fill_color, black());
}

#[test]
fn concat_composes_in_stream_order() {
    let m1 = [num(1.0), num(1.0), num(0.0), num(1.0), num(0.0), num(0.0)];
    let m2 = [num(1.0), num(0.0), num(0.0), num(1.0), num(10.0), num(0.0)];
    let skew = TransformMatrix {
        a: fx(1.0),
        b: fx(1.0),
        c: fx(0.0),
        d: fx(1.0),
        e: fx(0.0),
        f: fx(0.0),
    };
    let shift = TransformMatrix::translate(fx(10.0), fx(0.0));
    let mut ctx = ParseContext::new(fx(100.0));
    ctx.process_operator("cm", &m1);
    ctx.process_operator("cm", &m2);
    let expected = TransformMatrix::identity().multiply(&skew).multiply(&shift);
    assert_eq!(ctx.state().ctm, expected);
    let mut other = ParseContext::new(fx(100.0));
    other.process_operator("cm", &m2);
    other.process_operator("cm", &m1);
    assert_ne!(other.state().ctm, expected);
}

#[test]
fn rectangle_then_stroke_gives_five_commands() {
    let mut ctx = ParseContext::new(fx(200.0));
    ctx.process_operator("re", &[num(10.0), num(20.0), num(30.0), num(40.0)]);
    ctx.process_operator("S", &[]);
    assert_eq!(ctx.paths.len(), 1);
    let path = &ctx.paths[0];
    assert_eq!(path.stroke_color, Some(black()));
    assert_eq!(path.fill_color, None);
    assert_eq!(
        path.commands,
        vec![
            PathCommand::MoveTo { x: fx(10.0), y: fx(180.0) },
            PathCommand::LineTo { x: fx(40.0), y: fx(180.0) },
            PathCommand::LineTo { x: fx(40.0), y: fx(140.0) },
            PathCommand::LineTo { x: fx(10.0), y: fx(140.0) },
            PathCommand::ClosePath,
        ]
    );
    assert!(ctx.current_path.is_empty());
}

#[test]
fn path_y_is_flipped_once() {
    let commands = vec![PathCommand::MoveTo { x: fx(5.0), y: fx(30.0) }];
    let path =
        transform_path(&commands, None, None, fx(1.0), &TransformMatrix::identity(), fx(100.0));
    assert_eq!(path.commands, vec![PathCommand::MoveTo { x: fx(5.0), y: fx(70.0) }]);
    assert_eq!(path.bounds.x, fx(5.0));
    assert_eq!(path.bounds.y, fx(70.0));
    assert_eq!(path.bounds.width, fx(1.0));
    assert_eq!(path.bounds.height, fx(1.0));
}

#[test]
fn text_y_uses_the_ascent_offset() {
    let mut ctx = ParseContext::new(fx(100.0));
    ctx.process_operator("BT", &[]);
    ctx.process_operator("Tf", &[Operand::Name(b"F1".to_vec()), num(10.0)]);
    ctx.process_operator("Td", &[num(15.0), num(30.0)]);
    ctx.process_operator("Tj", &[text("Hi")]);
    assert_eq!(ctx.texts.len(), 1);
    let t = &ctx.texts[0];
    assert_eq!(t.text, "Hi");
    assert_eq!(t.x, fx(15.0));
    assert_eq!(t.y, fx(100.0 - 30.0 - 8.0));
    assert_eq!(t.font_size, fx(10.0));
    assert_eq!(t.font_name, "F1");
    assert_eq!(t.width, fx(2.0 * 10.0 * 0.52));
    assert_eq!(t.height, fx(11.5));
    assert_eq!(t.color, black());
}

#[test]
fn tj_array_inserts_space_below_threshold() {
    let mut ctx = ParseContext::new(fx(100.0));
    ctx.process_operator(
        "TJ",
        &[Operand::Array(vec![text("Hello"), whole(-250), text("World")])],
    );
    assert_eq!(ctx.texts.len(), 1);
    assert_eq!(ctx.texts[0].text, "Hello World");
}

#[test]
fn tj_array_keeps_small_adjustments_tight() {
    let mut ctx = ParseContext::new(fx(100.0));
    ctx.process_operator(
        "TJ",
        &[Operand::Array(vec![text("Hello"), whole(-50), text("World")])],
    );
    assert_eq!(ctx.texts[0].text, "HelloWorld");
    let mut edge = ParseContext::new(fx(100.0));
    edge.process_operator(
        "TJ",
        &[Operand::Array(vec![text("a"), whole(-100), text("b"), num(-100.000001), text("c")])],
    );
    assert_eq!(edge.texts[0].text, "ab c");
}

#[test]
fn cmyk_black_and_white() {
    assert_eq!(cmyk_to_rgb(fx(0.0), fx(0.0), fx(0.0), fx(1.0)), (fx(0.0), fx(0.0), fx(0.0)));
    assert_eq!(cmyk_to_rgb(fx(0.0), fx(0.0), fx(0.0), fx(0.0)), (fx(1.0), fx(1.0), fx(1.0)));
    assert_eq!(cmyk_to_rgb(fx(0.5), fx(0.0), fx(1.0), fx(0.5)), (fx(0.25), fx(0.5), fx(0.0)));
    let mut ctx = ParseContext::new(fx(100.0));
    ctx.process_operator("k", &[whole(0), whole(0), whole(0), whole(1)]);
    assert_eq!(ctx.state().fill_color, black());
    ctx.process_operator("k", &[whole(0), whole(0), whole(0), whole(0)]);
    assert_eq!(ctx.state().fill_color, white());
    ctx.process_operator("K", &[whole(0), whole(0), whole(0), whole(0)]);
    assert_eq!(ctx.state().stroke_color, white());
}

#[test]
fn blank_text_emits_nothing() {
    let mut ctx = ParseContext::new(fx(100.0));
    ctx.process_operator("Tj", &[text("")]);
    ctx.process_operator("Tj", &[text("   \t\n")]);
    ctx.process_operator("TJ", &[Operand::Array(vec![text(" "), whole(-500), text("")])]);
    ctx.process_operator("TJ", &[Operand::Array(vec![])]);
    ctx.process_operator("'", &[text(" ")]);
    ctx.process_operator("\"", &[whole(1), whole(2), text("\u{00a0}")]);
    assert!(ctx.texts.is_empty());
}

#[test]
fn malformed_operands_are_skipped() {
    let mut ctx = ParseContext::new(fx(100.0));
    ctx.process_operator("cm", &[whole(2), whole(0), whole(0)]);
    assert_eq!(ctx.state().ctm, TransformMatrix::identity());
    ctx.process_operator("w", &[]);
    assert_eq!(ctx.state().line_width, fx(1.0));
    ctx.process_operator("m", &[whole(1)]);
    ctx.process_operator("l", &[whole(1)]);
    ctx.process_operator("l", &[]);
    ctx.process_operator("re", &[whole(1), whole(2), whole(3)]);
    ctx.process_operator("c", &[whole(1), whole(2), whole(3), whole(4), whole(5)]);
    ctx.process_operator("v", &[whole(1), whole(2), whole(3)]);
    ctx.process_operator("y", &[whole(1), whole(2), whole(3)]);
    assert!(ctx.current_path.is_empty());
    assert_eq!(ctx.path_start, (fx(0.0), fx(0.0)));
    assert_eq!(ctx.current_point, (fx(0.0), fx(0.0)));
    ctx.process_operator("rg", &[whole(1), whole(1)]);
    ctx.process_operator("g", &[]);
    ctx.process_operator("k", &[whole(1), whole(1), whole(1)]);
    assert_eq!(ctx.state().fill_color, black());
    ctx.process_operator("G", &[]);
    assert_eq!(ctx.state().stroke_color, black());
    let before = ctx.state().clone();
    ctx.process_operator("Tc", &[]);
    ctx.process_operator("Tw", &[]);
    ctx.process_operator("TL", &[]);
    ctx.process_operator("Ts", &[]);
    ctx.process_operator("Tf", &[text("F1")]);
    ctx.process_operator("Tm", &[whole(1), whole(0), whole(0), whole(1), whole(5)]);
    ctx.process_operator("Td", &[whole(4)]);
    ctx.process_operator("TD", &[whole(4)]);
    ctx.process_operator("\"", &[whole(1), whole(2)]);
    assert_eq!(format!("{:?}", ctx.state()), format!("{:?}", before));
    ctx.process_operator("Tj", &[whole(5)]);
    ctx.process_operator("TJ", &[text("not an array")]);
    ctx.process_operator("Tj", &[]);
    assert!(ctx.texts.is_empty());
    ctx.process_operator("BX", &[]);
    ctx.process_operator("", &[]);
    assert_eq!(ctx.depth(), 1);
    assert!(ctx.paths.is_empty());
}

#[test]
fn operands_of_another_type_count_as_zero() {
    let mut ctx = ParseContext::new(fx(100.0));
    ctx.process_operator("m", &[Operand::Name(b"x".to_vec()), whole(5)]);
    assert_eq!(ctx.current_path, vec![PathCommand::MoveTo { x: fx(0.0), y: fx(5.0) }]);
    assert_eq!(ctx.path_start, (fx(0.0), fx(5.0)));
    assert_eq!(ctx.current_point, (fx(0.0), fx(5.0)));
    ctx.process_operator("l", &[whole(1), Operand::Other]);
    assert_eq!(ctx.current_path.len(), 2);
    assert_eq!(ctx.current_path[1], PathCommand::LineTo { x: fx(1.0), y: fx(0.0) });
    assert_eq!(ctx.current_point, (fx(1.0), fx(0.0)));
    assert_eq!(ctx.path_start, (fx(0.0), fx(5.0)));
    ctx.process_operator("w", &[text("wide")]);
    assert_eq!(ctx.state().line_width, fx(0.0));
    ctx.process_operator("w", &[num(2.5), text("more")]);
    assert_eq!(ctx.state().line_width, fx(2.5));
    ctx.process_operator("g", &[num(0.5)]);
    assert_eq!(ctx.state().fill_color, [fx(0.5), fx(0.5), fx(0.5), fx(1.0)]);
    ctx.process_operator("G", &[Operand::Array(vec![])]);
    assert_eq!(ctx.state().stroke_color, black());
    ctx.process_operator("G", &[num(1.0)]);
    ctx.process_operator("G", &[text("dark")]);
    assert_eq!(ctx.state().stroke_color, black());
    ctx.process_operator("cm", &[whole(2), text("x"), whole(0), whole(2), whole(0), whole(0)]);
    assert_eq!(ctx.state().ctm, TransformMatrix::scale(fx(2.0), fx(2.0)));
    ctx.process_operator("Tc", &[whole(3)]);
    ctx.process_operator("Tc", &[Operand::Other]);
    assert_eq!(ctx.state().char_spacing, fx(0.0));
    ctx.process_operator("Tw", &[whole(3)]);
    ctx.process_operator("Tw", &[text("w")]);
    assert_eq!(ctx.state().word_spacing, fx(0.0));
    ctx.process_operator("TL", &[whole(3)]);
    ctx.process_operator("TL", &[text("l")]);
    assert_eq!(ctx.state().leading, fx(0.0));
    ctx.process_operator("Ts", &[whole(3)]);
    ctx.process_operator("Ts", &[text("s")]);
    assert_eq!(ctx.state().text_rise, fx(0.0));
    ctx.process_operator("BT", &[]);
    ctx.process_operator("Td", &[text("far"), whole(7)]);
    assert_eq!(ctx.state().text_matrix, TransformMatrix::translate(fx(0.0), fx(7.0)));
    assert_eq!(ctx.state().line_matrix, TransformMatrix::translate(fx(0.0), fx(7.0)));
    ctx.process_operator("TL", &[whole(9)]);
    ctx.process_operator("TD", &[whole(2), Operand::Other]);
    assert_eq!(ctx.state().line_matrix, TransformMatrix::translate(fx(2.0), fx(7.0)));
    assert_eq!(ctx.state().leading, fx(0.0));
    ctx.process_operator("TD", &[Operand::Other, whole(-4)]);
    assert_eq!(ctx.state().line_matrix, TransformMatrix::translate(fx(2.0), fx(3.0)));
    assert_eq!(ctx.state().leading, fx(4.0));
    assert!(ctx.texts.is_empty() && ctx.paths.is_empty());
}

#[test]
fn operator_names_are_told_apart() {
    assert_eq!(Operator::parse("q"), Operator::Save);
    assert_eq!(Operator::parse("Q"), Operator::Restore);
    assert_eq!(Operator::parse("f"), Operator::Fill);
    assert_eq!(Operator::parse("F"), Operator::Fill);
    assert_eq!(Operator::parse("f*"), Operator::Fill);
    assert_eq!(Operator::parse("B*"), Operator::FillStroke);
    assert_eq!(Operator::parse("b*"), Operator::CloseFillStroke);
    assert_eq!(Operator::parse("T*"), Operator::NextLine);
    assert_eq!(Operator::parse("TD"), Operator::MoveTextSetLeading);
    assert_eq!(Operator::parse("Td"), Operator::MoveText);
    assert_eq!(Operator::parse("'"), Operator::NextLineShow);
    assert_eq!(Operator::parse("\""), Operator::SpacingShow);
    assert_eq!(Operator::parse("Do"), Operator::Unknown);
    assert_eq!(Operator::parse("qq"), Operator::Unknown);
}

#[test]
fn path_building_operators() {
    let mut ctx = ParseContext::new(fx(100.0));
    ctx.process_operator("m", &[whole(1), whole(2)]);
    ctx.process_operator("l", &[whole(3), whole(4)]);
    ctx.process_operator("v", &[whole(5), whole(6), whole(7), whole(8)]);
    ctx.process_operator("y", &[whole(9), whole(10), whole(11), whole(12)]);
    ctx.process_operator("c", &[whole(1), whole(1), whole(2), whole(2), whole(3), whole(3)]);
    ctx.process_operator("h", &[]);
    assert_eq!(
        ctx.current_path,
        vec![
            PathCommand::MoveTo { x: fx(1.0), y: fx(2.0) },
            PathCommand::LineTo { x: fx(3.0), y: fx(4.0) },
            PathCommand::CurveTo {
                x1: fx(3.0),
                y1: fx(4.0),
                x2: fx(5.0),
                y2: fx(6.0),
                x: fx(7.0),
                y: fx(8.0)
            },
            PathCommand::CurveTo {
                x1: fx(9.0),
                y1: fx(10.0),
                x2: fx(11.0),
                y2: fx(12.0),
                x: fx(11.0),
                y: fx(12.0)
            },
            PathCommand::CurveTo {
                x1: fx(1.0),
                y1: fx(1.0),
                x2: fx(2.0),
                y2: fx(2.0),
                x: fx(3.0),
                y: fx(3.0)
            },
            PathCommand::ClosePath,
        ]
    );
    assert_eq!(ctx.current_point, (fx(1.0), fx(2.0)));
    ctx.process_operator("n", &[]);
    assert!(ctx.current_path.is_empty());
    assert!(ctx.paths.is_empty());
}

#[test]
fn paint_variants_pick_their_colours() {
    let mut ctx = ParseContext::new(fx(100.0));
    ctx.process_operator("RG", &[whole(1), whole(0), whole(0)]);
    ctx.process_operator("g", &[num(0.5)]);
    let red = [fx(1.0), fx(0.0), fx(0.0), fx(1.0)];
    let gray = [fx(0.5), fx(0.5), fx(0.5), fx(1.0)];
    for name in ["S", "s", "f", "F", "f*", "B", "B*", "b", "b*"] {
        ctx.process_operator("m", &[whole(0), whole(0)]);
        ctx.process_operator("l", &[whole(5), whole(5)]);
        ctx.process_operator(name, &[]);
    }
    assert_eq!(ctx.paths.len(), 9);
    let strokes: Vec<bool> = ctx.paths.iter().map(|p| p.stroke_color == Some(red)).collect();
    let fills: Vec<bool> = ctx.paths.iter().map(|p| p.fill_color == Some(gray)).collect();
    let lens: Vec<usize> = ctx.paths.iter().map(|p| p.commands.len()).collect();
    assert_eq!(strokes, vec![true, true, false, false, false, true, true, true, true]);
    assert_eq!(fills, vec![false, false, true, true, true, true, true, true, true]);
    assert_eq!(lens, vec![2, 3, 2, 2, 2, 2, 2, 3, 3]);
    for p in &ctx.paths {
        if p.stroke_color.is_none() {
            assert_eq!(p.stroke_color, None);
        }
        if p.fill_color.is_none() {
            assert_eq!(p.fill_color, None);
        }
    }
}

#[test]
fn painting_an_empty_path_emits_nothing() {
    let mut ctx = ParseContext::new(fx(100.0));
    for name in ["S", "s", "f", "F", "f*", "B", "B*", "b", "b*", "n"] {
        ctx.process_operator(name, &[]);
    }
    assert!(ctx.paths.is_empty());
    assert!(ctx.current_path.is_empty());
}

#[test]
fn text_positioning_operators() {
    let mut ctx = ParseContext::new(fx(100.0));
    ctx.process_operator("Tm", &[whole(1), whole(0), whole(0), whole(1), whole(50), whole(60)]);
    assert_eq!(ctx.state().text_matrix, TransformMatrix::translate(fx(50.0), fx(60.0)));
    assert_eq!(ctx.state().line_matrix, TransformMatrix::translate(fx(50.0), fx(60.0)));
    ctx.process_operator("TD", &[whole(0), whole(-14)]);
    assert_eq!(ctx.state().leading, fx(14.0));
    assert_eq!(ctx.state().text_matrix, TransformMatrix::translate(fx(50.0), fx(46.0)));
    ctx.process_operator("T*", &[]);
    assert_eq!(ctx.state().text_matrix, TransformMatrix::translate(fx(50.0), fx(32.0)));
    ctx.process_operator("Td", &[whole(5), whole(0)]);
    assert_eq!(ctx.state().line_matrix, TransformMatrix::translate(fx(55.0), fx(32.0)));
    ctx.process_operator("TL", &[whole(20)]);
    ctx.process_operator("Tc", &[num(0.5)]);
    ctx.process_operator("Tw", &[num(1.5)]);
    ctx.process_operator("Ts", &[num(2.0)]);
    assert_eq!(ctx.state().leading, fx(20.0));
    assert_eq!(ctx.state().char_spacing, fx(0.5));
    assert_eq!(ctx.state().word_spacing, fx(1.5));
    assert_eq!(ctx.state().text_rise, fx(2.0));
    ctx.process_operator("'", &[text("x")]);
    assert_eq!(ctx.texts.len(), 1);
    assert_eq!(ctx.texts[0].x, fx(55.0));
    assert_eq!(ctx.state().line_matrix, TransformMatrix::translate(fx(55.0), fx(12.0)));
    ctx.process_operator("\"", &[whole(3), whole(4), text("y")]);
    assert_eq!(ctx.state().word_spacing, fx(3.0));
    assert_eq!(ctx.state().char_spacing, fx(4.0));
    assert_eq!(ctx.texts.len(), 2);
    ctx.process_operator("BT", &[]);
    assert_eq!(ctx.state().text_matrix, TransformMatrix::identity());
    assert_eq!(ctx.state().line_matrix, TransformMatrix::identity());
}

#[test]
fn text_width_factors() {
    assert_eq!(calculate_text_width("abcd", fx(10.0), "Courier"), fx(24.0));
    assert_eq!(calculate_text_width("abcd", fx(10.0), "DejaVuSansMono"), fx(24.0));
    assert_eq!(calculate_text_width("abcd", fx(10.0), "Times-Roman"), fx(18.0));
    assert_eq!(calculate_text_width("abcd", fx(10.0), "Helvetica"), fx(20.8));
    assert_eq!(calculate_text_width("", fx(10.0), "Helvetica"), fx(0.0));
    assert_eq!(calculate_text_width("äö", fx(10.0), "Helvetica"), fx(10.4));
}

#[test]
fn create_text_scales_the_font_size() {
    let mut state = GraphicsState::default();
    state.ctm = TransformMatrix::scale(fx(2.0), fx(3.0));
    state.text_matrix = TransformMatrix::translate(fx(10.0), fx(20.0));
    state.text_rise = fx(1.0);
    state.font_size = fx(10.0);
    let t = create_text("ab", &state, fx(500.0));
    assert_eq!(t.font_name, "Helvetica");
    assert_eq!(t.font_size, fx(30.0));
    assert_eq!(t.x, fx(10.0));
    assert_eq!(t.y, fx(500.0 - 21.0 - 24.0));
    assert_eq!(t.width, fx(2.0 * 30.0 * 0.52));
    assert_eq!(t.height, fx(34.5));
    assert_eq!(t.transform, state.ctm.multiply(&state.text_matrix));
    state.ctm = TransformMatrix::scale(fx(0.0), fx(0.0));
    let tiny = create_text("ab", &state, fx(500.0));
    assert_eq!(tiny.font_size, fx(1.0));
    assert_eq!(tiny.width, fx(1.04));
    assert_eq!(tiny.height, fx(1.15));
}

#[test]
fn small_text_keeps_its_small_box() {
    let mut state = GraphicsState::default();
    state.font_size = fx(0.5);
    let t = create_text("a", &state, fx(100.0));
    assert_eq!(t.font_size, fx(0.5));
    assert_eq!(t.height, fx(0.575));
    assert_eq!(t.width, fx(0.26));
    assert_eq!(t.y, fx(100.0 - 0.4));
    state.font_name = Some("Courier".to_string());
    assert_eq!(create_text("abc", &state, fx(100.0)).width, fx(0.9));
    state.font_name = Some("Times-Roman".to_string());
    assert_eq!(create_text("abcd", &state, fx(100.0)).width, fx(0.9));
    state.font_size = fx(0.0);
    let flat = create_text("a", &state, fx(100.0));
    assert_eq!(flat.width, fx(0.0));
    assert_eq!(flat.height, fx(0.0));
    let mut ctx = ParseContext::new(fx(100.0));
    ctx.process_operator("Tf", &[Operand::Name(b"F1".to_vec()), num(0.5)]);
    ctx.process_operator("Tj", &[text("a")]);
    assert_eq!(ctx.texts[0].height, fx(0.575));
    assert_eq!(ctx.texts[0].width, fx(0.26));
}

#[test]
fn string_operands_are_decoded() {
    let utf8 = Operand::Text("Grüße".as_bytes().to_vec());
    assert_eq!(extract_text_from_object(&utf8), Some("Grüße".to_string()));
    let utf16 = Operand::Text(vec![0xFE, 0xFF, 0x00, 0x48, 0x00, 0x69]);
    assert_eq!(extract_text_from_object(&utf16), Some("Hi".to_string()));
    let odd = Operand::Text(vec![0xFE, 0xFF, 0x00, 0x48, 0x00]);
    assert_eq!(extract_text_from_object(&odd), Some("\u{FFFD}\u{FFFD}\0H\0".to_string()));
    let lone = Operand::Text(vec![0xFE, 0xFF, 0xD8, 0x00]);
    assert_eq!(extract_text_from_object(&lone), Some("\u{FFFD}\u{FFFD}\u{FFFD}\0".to_string()));
    let short = Operand::Text(vec![0xFE, 0xFF, 0x00]);
    assert_eq!(extract_text_from_object(&short), Some("\u{FFFD}\u{FFFD}\0".to_string()));
    assert_eq!(
        rook_core::operand::decode_bytes(&[0xFE, 0xFF, 0x00]),
        Some("\u{FFFD}\u{FFFD}\0".to_string())
    );
    assert_eq!(rook_core::operand::decode_bytes(&[0xFE, 0xFF]), Some(String::new()));
    assert_eq!(rook_core::operand::decode_bytes(&[0xFE]), Some("\u{FFFD}".to_string()));
    assert_eq!(rook_core::operand::decode_bytes(&[]), Some(String::new()));
    let lossy = Operand::Text(vec![0x41, 0xFF, 0x42]);
    assert_eq!(extract_text_from_object(&lossy), Some("A\u{FFFD}B".to_string()));
    let name = Operand::Name(b"F1".to_vec());
    assert_eq!(extract_text_from_object(&name), Some("F1".to_string()));
    assert_eq!(extract_text_from_object(&Operand::Integer(1)), None);
    assert_eq!(decode_utf16be(&[0x00, 0x41, 0x26, 0x3A]), Some("A\u{263A}".to_string()));
    assert_eq!(decode_utf16be(&[]), Some(String::new()));
}

#[test]
fn font_names_are_normalized() {
    assert_eq!(normalize_font_name("ABCDEF+Arial-BoldMT"), "Arial");
    assert_eq!(normalize_font_name("Helvetica"), "Arial");
    assert_eq!(normalize_font_name("TimesNewRomanPSMT"), "Times New Roman");
    assert_eq!(normalize_font_name("CourierNew"), "Courier New");
    assert_eq!(normalize_font_name("GEORGIA"), "Georgia");
    assert_eq!(normalize_font_name("ABCDEF+Calibri"), "Calibri");
    assert_eq!(normalize_font_name("A+B+C"), "B+C");
    assert_eq!(normalize_font_name("Calibri"), "Calibri");
    assert_eq!(normalize_font_name("Calibri+"), "");
}

#[test]
fn colours_as_hex() {
    assert_eq!(rgba_to_hex(&black()), "#000000");
    assert_eq!(rgba_to_hex(&white()), "#ffffff");
    assert_eq!(rgba_to_hex(&[fx(0.5), fx(0.25), fx(1.0), fx(0.0)]), "#7f3fff");
    assert_eq!(rgba_to_hex(&[fx(-1.0), fx(2.0), fx(0.004), fx(1.0)]), "#00ff01");
}

#[test]
fn layers_put_paths_under_texts() {
    let stream = vec![
        op("BT", vec![]),
        op("Tf", vec![Operand::Name(b"ABCDEF+Foo-BoldItalic".to_vec()), whole(12)]),
        op("Td", vec![whole(10), whole(700)]),
        op("Tj", vec![text("first")]),
        op("re", vec![whole(0), whole(0), whole(10), whole(10)]),
        op("B", vec![]),
        op("Tj", vec![text("second")]),
        op("m", vec![whole(0), whole(0)]),
        op("l", vec![whole(5), whole(5)]),
        op("S", vec![]),
    ];
    let (texts, paths) = parse_page_content(&stream, fx(792.0));
    assert_eq!(texts.len(), 2);
    assert_eq!(paths.len(), 2);
    let layers = to_layer_objects(texts, paths, 3);
    assert_eq!(layers.len(), 4);
    let ids: Vec<&str> = layers.iter().map(|l| l.id.as_str()).collect();
    assert_eq!(ids, vec!["vector-3-0", "vector-3-1", "text-3-0", "text-3-1"]);
    let zs: Vec<i32> = layers.iter().map(|l| l.z_index).collect();
    assert_eq!(zs, vec![0, 1, 2, 3]);
    assert_eq!(layers[0].layer_type, LayerType::Vector);
    assert_eq!(layers[0].stroke_color.as_deref(), Some("#000000"));
    assert_eq!(layers[0].fill_color.as_deref(), Some("#000000"));
    assert_eq!(layers[0].color.as_deref(), Some("#000000"));
    assert_eq!(layers[0].stroke_width, Some(fx(1.0)));
    assert_eq!(layers[0].path_data.as_ref().map(|d| d.commands.len()), Some(5));
    assert_eq!(layers[1].fill_color, None);
    assert_eq!(layers[1].color, None);
    assert_eq!(layers[2].layer_type, LayerType::Text);
    assert_eq!(layers[2].content.as_deref(), Some("first"));
    assert_eq!(layers[2].font_family.as_deref(), Some("Foo-BoldItalic"));
    assert_eq!(layers[2].font_weight, Some(700));
    assert_eq!(layers[2].font_style.as_deref(), Some("italic"));
    assert_eq!(layers[2].font_size, Some(fx(12.0)));
    assert_eq!(layers[2].color.as_deref(), Some("#000000"));
    assert_eq!(layers[3].content.as_deref(), Some("second"));
    assert!(layers.iter().all(|l| l.visible && !l.locked && l.opacity == fx(1.0)));
}

#[test]
fn layers_of_nothing() {
    assert!(to_layer_objects(Vec::new(), Vec::new(), 0).is_empty());
}

#[test]
fn plain_font_gets_regular_weight() {
    let stream = vec![
        op("Tf", vec![Operand::Name(b"Verdana".to_vec()), whole(10)]),
        op("Tj", vec![text("x")]),
    ];
    let (texts, paths) = parse_page_content(&stream, fx(100.0));
    let layers = to_layer_objects(texts, paths, 12);
    assert_eq!(layers[0].id, "text-12-0");
    assert_eq!(layers[0].font_weight, Some(400));
    assert_eq!(layers[0].font_style, None);
    assert_eq!(layers[0].font_family.as_deref(), Some("Verdana"));
}

#[test]
fn no_string_is_dropped_for_its_encoding() {
    let mut ctx = ParseContext::new(fx(100.0));
    ctx.process_operator("Tj", &[Operand::Text(vec![0xFE, 0xFF, 0x00])]);
    assert_eq!(ctx.texts.len(), 1);
    assert_eq!(ctx.texts[0].text, "\u{FFFD}\u{FFFD}\0");
    ctx.process_operator("'", &[Operand::Text(vec![0xFE, 0xFF, 0xD8, 0x00])]);
    assert_eq!(ctx.texts.len(), 2);
    assert_eq!(ctx.texts[1].text, "\u{FFFD}\u{FFFD}\u{FFFD}\0");
    ctx.process_operator(
        "TJ",
        &[Operand::Array(vec![
            text("a"),
            Operand::Text(vec![0xFE, 0xFF, 0x00, 0x42, 0x00]),
            text("c"),
        ])],
    );
    assert_eq!(ctx.texts.len(), 3);
    assert_eq!(ctx.texts[2].text, "a\u{FFFD}\u{FFFD}\0B\0c");
    ctx.process_operator("Tj", &[Operand::Text(vec![0xFF, 0x41])]);
    assert_eq!(ctx.texts[3].text, "\u{FFFD}A");
}

#[test]
fn operators_can_be_applied_one_by_one() {
    let mut ctx = ParseContext::new(fx(100.0));
    ctx.op_save();
    assert_eq!(ctx.depth(), 2);
    let before = ctx.state().clone();
    let m1 = TransformMatrix::translate(fx(5.0), fx(7.0));
    let m2 = TransformMatrix::scale(fx(2.0), fx(3.0));
    ctx.op_cm(&[whole(1), whole(0), whole(0), whole(1), whole(5), whole(7)]);
    ctx.op_cm(&[whole(2), whole(0), whole(0), whole(3), whole(0), whole(0)]);
    assert_eq!(ctx.state().ctm, TransformMatrix::identity().multiply(&m1).multiply(&m2));
    assert_ne!(ctx.state().ctm, TransformMatrix::identity().multiply(&m2).multiply(&m1));
    assert_eq!(ctx.state().fill_color, before.fill_color);
    assert_eq!(ctx.state().line_width, before.line_width);
    assert_eq!(ctx.state().font_size, before.font_size);
    assert_eq!(ctx.depth(), 2);
    assert!(ctx.current_path.is_empty() && ctx.texts.is_empty() && ctx.paths.is_empty());
    ctx.op_m(&[whole(9), whole(9)]);
    ctx.op_re(&[whole(1), whole(2), whole(10), whole(20)]);
    assert_eq!(
        ctx.current_path,
        vec![
            PathCommand::MoveTo { x: fx(9.0), y: fx(9.0) },
            PathCommand::MoveTo { x: fx(1.0), y: fx(2.0) },
            PathCommand::LineTo { x: fx(11.0), y: fx(2.0) },
            PathCommand::LineTo { x: fx(11.0), y: fx(22.0) },
            PathCommand::LineTo { x: fx(1.0), y: fx(22.0) },
            PathCommand::ClosePath,
        ]
    );
    assert_eq!(ctx.path_start, (fx(1.0), fx(2.0)));
    assert_eq!(ctx.current_point, (fx(1.0), fx(2.0)));
    assert!(ctx.texts.is_empty() && ctx.paths.is_empty());
    ctx.op_Tj(&[text("")]);
    ctx.op_Tj(&[text("   ")]);
    ctx.op_TJ(&[Operand::Array(vec![text(" "), whole(-250), text("")])]);
    ctx.op_TJ(&[Operand::Array(vec![])]);
    assert!(ctx.texts.is_empty() && ctx.paths.is_empty());
    assert_eq!(ctx.current_path.len(), 6);
    assert_eq!(ctx.depth(), 2);
    ctx.op_TJ(&[Operand::Array(vec![text("Hello"), whole(-250), text("World")])]);
    assert_eq!(ctx.texts.len(), 1);
    assert_eq!(ctx.texts[0].text, "Hello World");
    ctx.op_restore();
    ctx.op_restore();
    assert_eq!(ctx.depth(), 1);
    assert_eq!(ctx.state().ctm, TransformMatrix::identity());
}
