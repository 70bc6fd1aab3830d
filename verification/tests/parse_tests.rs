//! Document-level tests of `ObjParser::parse`.

use objparse::parser::{ArgBounds, ObjArgType};
use objparse::state::ObjDataType;
use objparse::{ObjParseError, ObjParseOptions, ObjParseResult, ObjParser};

fn lenient() -> Option<ObjParseOptions> {
    None
}

fn strict_refs() -> Option<ObjParseOptions> {
    Some(ObjParseOptions {
        error_on_unsupported_data_types: false,
        error_on_invalid_reference_number: true,
    })
}

fn strict_commands() -> Option<ObjParseOptions> {
    Some(ObjParseOptions {
        error_on_unsupported_data_types: true,
        error_on_invalid_reference_number: false,
    })
}

fn parse_ok(text: &str, options: Option<ObjParseOptions>) -> ObjParseResult {
    match ObjParser::parse(text, options) {
        Ok(r) => r,
        Err(e) => panic!("expected success, got {:?}", e),
    }
}

fn tokens(v: &[&str]) -> Vec<String> {
    v.iter().map(|s| s.to_string()).collect()
}

#[test]
fn empty_document() {
    let r = parse_ok("", lenient());
    assert_eq!(r.objects.len(), 0);
    assert_eq!(r.default_uvs.len(), 0);
    assert_eq!(r.default_normals.len(), 0);
}

#[test]
fn vertex_lines_only_yield_no_objects() {
    let r = parse_ok("v 0 0 0\nv 1 0 0\nv 1 1 0\n", lenient());
    assert_eq!(r.objects.len(), 0);
}

#[test]
fn fan_triangulation_quad() {
    // A quad fans into two triangles (1, 2, 3) and (1, 3, 4); every corner
    // duplicates its own components, so positions hold 18 of them.
    let text = "v 0 0 0\nv 1 0 0\nv 1 1 0\nv 0 1 0\nvn 0 0 1\nf 1//1 2//1 3//1 4//1\n";
    let r = parse_ok(text, lenient());
    assert_eq!(r.objects.len(), 1);
    let g = &r.objects[0].geometry;
    assert_eq!(g.position.len(), 18);
    let expect = tokens(&[
        "0", "0", "0", "1", "0", "0", "1", "1", "0", // triangle (1, 2, 3)
        "0", "0", "0", "1", "1", "0", "0", "1", "0", // triangle (1, 3, 4)
    ]);
    assert_eq!(g.position, expect);
    assert_eq!(g.normal.len(), 18);
    for k in 0..6 {
        assert_eq!(g.normal[3 * k], "0");
        assert_eq!(g.normal[3 * k + 1], "0");
        assert_eq!(g.normal[3 * k + 2], "1");
    }
    // No corner supplied texture coordinates: all defaulted, nothing
    // recorded.
    assert_eq!(g.uv, tokens(&["0"; 12]));
    assert_eq!(r.default_uvs.len(), 0);
}

#[test]
fn positions_parse_to_floats() {
    let text = "v 0.5 -1.25 1e2\nv 2 3 4\nv 5 6 7\nvn 0 0 1\nf 1//1 2//1 3//1\n";
    let r = parse_ok(text, lenient());
    let g = &r.objects[0].geometry;
    let floats: Vec<f32> = g.position.iter().map(|t| t.parse::<f32>().unwrap()).collect();
    assert_eq!(floats, vec![0.5, -1.25, 100.0, 2.0, 3.0, 4.0, 5.0, 6.0, 7.0]);
}

#[test]
fn negative_reference_resolves_from_end() {
    // The corner referencing -1 resolves to the third (most recently added)
    // vertex at the time of the reference.
    let text = "v 10 0 0\nv 20 0 0\nv 30 0 0\nvn 0 0 1\nf -1//1 1//1 2//1\n";
    let r = parse_ok(text, lenient());
    let g = &r.objects[0].geometry;
    assert_eq!(g.position[0..3], tokens(&["30", "0", "0"])[..]);
    assert_eq!(g.position[3..6], tokens(&["10", "0", "0"])[..]);
    assert_eq!(g.position[6..9], tokens(&["20", "0", "0"])[..]);
}

#[test]
fn uv_default_without_vt_is_not_recorded() {
    let text = "v 0 0 0\nv 1 0 0\nv 0 1 0\nvn 0 0 1\nf 1//1 2//1 3//1\n";
    let r = parse_ok(text, lenient());
    let g = &r.objects[0].geometry;
    assert_eq!(g.uv, tokens(&["0", "0", "0", "0", "0", "0"]));
    assert_eq!(r.default_uvs.len(), 0);
}

#[test]
fn uv_out_of_range_lenient_defaults_and_records() {
    let text = "v 0 0 0\nv 1 0 0\nv 0 1 0\nvt 0.5 0.5\nvn 0 0 1\nf 1/5/1 2/5/1 3/5/1\n";
    let r = parse_ok(text, lenient());
    let g = &r.objects[0].geometry;
    assert_eq!(g.uv, tokens(&["0", "0", "0", "0", "0", "0"]));
    assert_eq!(r.default_uvs.len(), 1);
    assert!(r.default_uvs.contains(&5));
    assert_eq!(r.default_normals.len(), 0);
}

#[test]
fn uv_out_of_range_strict_is_fatal() {
    let text = "v 0 0 0\nv 1 0 0\nv 0 1 0\nvt 0.5 0.5\nvn 0 0 1\nf 1/5/1 2/5/1 3/5/1\n";
    match ObjParser::parse(text, strict_refs()) {
        Err(ObjParseError::InvalidReferenceNumber { line_num, data_type, reference_number }) => {
            assert_eq!(line_num, 6);
            assert_eq!(data_type, ObjDataType::Vt);
            assert_eq!(reference_number, 5);
        }
        other => panic!("expected an invalid reference error, got {:?}", other.is_ok()),
    }
}

#[test]
fn uv_in_range_is_used() {
    let text = "v 0 0 0\nv 1 0 0\nv 0 1 0\nvt 0.25 0.75\nvn 0 0 1\nf 1/1/1 2/1/1 3/1/1\n";
    let r = parse_ok(text, lenient());
    let g = &r.objects[0].geometry;
    assert_eq!(g.uv, tokens(&["0.25", "0.75", "0.25", "0.75", "0.25", "0.75"]));
}

#[test]
fn vertex_reference_out_of_range_always_fatal() {
    // Invalid vertex references abort even under the lenient configuration.
    let text = "v 0 0 0\nvn 0 0 1\nf 1//1 2//1 3//1\n";
    match ObjParser::parse(text, lenient()) {
        Err(ObjParseError::InvalidReferenceNumber { line_num, data_type, reference_number }) => {
            assert_eq!(line_num, 3);
            assert_eq!(data_type, ObjDataType::V);
            assert_eq!(reference_number, 2);
        }
        other => panic!("expected an invalid reference error, got {:?}", other.is_ok()),
    }
}

#[test]
fn missing_normals_are_fatal() {
    // No face normal is synthesized: a corner without a normal reference is
    // reported as an invalid normal reference with number zero.
    let text = "v 0 0 0\nv 1 0 0\nv 0 1 0\nf 1 2 3\n";
    match ObjParser::parse(text, lenient()) {
        Err(ObjParseError::InvalidReferenceNumber { line_num, data_type, reference_number }) => {
            assert_eq!(line_num, 4);
            assert_eq!(data_type, ObjDataType::Vn);
            assert_eq!(reference_number, 0);
        }
        other => panic!("expected an invalid reference error, got {:?}", other.is_ok()),
    }
}

#[test]
fn normal_out_of_range_fatal_even_lenient() {
    let text = "v 0 0 0\nv 1 0 0\nv 0 1 0\nvn 0 0 1\nf 1//7 2//7 3//7\n";
    match ObjParser::parse(text, lenient()) {
        Err(ObjParseError::InvalidReferenceNumber { line_num, data_type, reference_number }) => {
            assert_eq!(line_num, 5);
            assert_eq!(data_type, ObjDataType::Vn);
            assert_eq!(reference_number, 7);
        }
        other => panic!("expected an invalid reference error, got {:?}", other.is_ok()),
    }
}

#[test]
fn unsupported_command_lenient_is_skipped() {
    let text = "s 1\nv 0 0 0\nv 1 0 0\nv 0 1 0\nvn 0 0 1\nf 1//1 2//1 3//1\n";
    let r = parse_ok(text, lenient());
    assert_eq!(r.objects.len(), 1);
}

#[test]
fn unsupported_command_strict_is_fatal() {
    let text = "s 1\nv 0 0 0\n";
    match ObjParser::parse(text, strict_commands()) {
        Err(ObjParseError::UnsupportedCommand { line_num, command }) => {
            assert_eq!(line_num, 1);
            assert_eq!(command, "s");
        }
        other => panic!("expected an unsupported command error, got {:?}", other.is_ok()),
    }
}

#[test]
fn missing_vertex_argument_is_invalid_syntax() {
    let text = "v 1 2\n";
    match ObjParser::parse(text, lenient()) {
        Err(ObjParseError::InvalidSyntax { line_num, expected_num_args, expected_type }) => {
            assert_eq!(line_num, 1);
            assert_eq!(expected_num_args, ArgBounds { min: 3, max: 4 });
            assert_eq!(expected_type, ObjArgType::Float);
        }
        other => panic!("expected a syntax error, got {:?}", other.is_ok()),
    }
}

#[test]
fn non_numeric_vertex_argument_is_invalid_syntax() {
    let text = "v 0 0 0\nv 1 x 0\n";
    match ObjParser::parse(text, lenient()) {
        Err(ObjParseError::InvalidSyntax { line_num, expected_num_args, .. }) => {
            assert_eq!(line_num, 2);
            assert_eq!(expected_num_args, ArgBounds { min: 3, max: 4 });
        }
        other => panic!("expected a syntax error, got {:?}", other.is_ok()),
    }
}

#[test]
fn missing_normal_argument_is_invalid_syntax() {
    match ObjParser::parse("vn 1 2\n", lenient()) {
        Err(ObjParseError::InvalidSyntax { line_num, expected_num_args, .. }) => {
            assert_eq!(line_num, 1);
            assert_eq!(expected_num_args, ArgBounds { min: 3, max: 3 });
        }
        other => panic!("expected a syntax error, got {:?}", other.is_ok()),
    }
}

#[test]
fn missing_uv_argument_is_invalid_syntax() {
    match ObjParser::parse("vt 1\n", lenient()) {
        Err(ObjParseError::InvalidSyntax { line_num, expected_num_args, .. }) => {
            assert_eq!(line_num, 1);
            assert_eq!(expected_num_args, ArgBounds { min: 2, max: 3 });
        }
        other => panic!("expected a syntax error, got {:?}", other.is_ok()),
    }
}

#[test]
fn extra_arguments_are_ignored() {
    let text = "v 0 0 0 nonsense more\nv 1 0 0\nv 0 1 0\nvn 0 0 1 extra\nf 1//1 2//1 3//1 \n";
    let r = parse_ok(text, lenient());
    assert_eq!(r.objects.len(), 1);
}

#[test]
fn float_token_grammar() {
    // Tokens the standard grammar accepts.
    let ok = "v 1e3 .5 -inf\nv nan INFINITY 1.\nv +0.5e-3 3E+4 -.25\n";
    assert!(ObjParser::parse(ok, lenient()).is_ok());
    // Tokens it rejects.
    assert!(ObjParser::parse("v 1..2 0 0\n", lenient()).is_err());
    assert!(ObjParser::parse("v . 0 0\n", lenient()).is_err());
    assert!(ObjParser::parse("v e3 0 0\n", lenient()).is_err());
    assert!(ObjParser::parse("v 1e 0 0\n", lenient()).is_err());
    assert!(ObjParser::parse("v 0x1 0 0\n", lenient()).is_err());
}

#[test]
fn degenerate_face_is_skipped() {
    let text = "v 0 0 0\nv 1 0 0\nvn 0 0 1\nf 1//1 2//1\nf 1//1\nf\n";
    let r = parse_ok(text, lenient());
    assert_eq!(r.objects.len(), 0);
}

#[test]
fn unparseable_vertex_field_skips_triangle() {
    let text = "v 0 0 0\nv 1 0 0\nv 0 1 0\nvn 0 0 1\nf x//1 2//1 3//1\n";
    let r = parse_ok(text, lenient());
    assert_eq!(r.objects.len(), 0);
}

#[test]
fn bad_corner_skips_each_touched_triangle() {
    // Corners: 1 2 x 3 — both fan triangles touch the bad corner's window
    // or not: (1, 2, x) is skipped, (1, x, 3) is skipped.
    let text = "v 0 0 0\nv 1 0 0\nv 0 1 0\nvn 0 0 1\nf 1//1 2//1 x//1 3//1\n";
    let r = parse_ok(text, lenient());
    assert_eq!(r.objects.len(), 0);
}

#[test]
fn object_named_before_faces() {
    let text = "o A\nv 0 0 0\nv 1 0 0\nv 0 1 0\nvn 0 0 1\nf 1//1 2//1 3//1\n";
    let r = parse_ok(text, lenient());
    assert_eq!(r.objects.len(), 1);
    assert_eq!(r.objects[0].name, Some("A".to_string()));
    assert!(r.objects[0].from_declaration);
}

#[test]
fn first_name_renames_default_object() {
    // Faces declared before any o/g live in the implicit default object;
    // the first o/g renames that object in place, so everything ends up in
    // one object named A.
    let text = "v 0 0 0\nv 1 0 0\nv 0 1 0\nvn 0 0 1\nf 1//1 2//1 3//1\no A\nf 1//1 2//1 3//1\n";
    let r = parse_ok(text, lenient());
    assert_eq!(r.objects.len(), 1);
    assert_eq!(r.objects[0].name, Some("A".to_string()));
    assert_eq!(r.objects[0].geometry.position.len(), 18);
}

#[test]
fn second_name_starts_new_object() {
    let text = "o A\nv 0 0 0\nv 1 0 0\nv 0 1 0\nvn 0 0 1\nf 1//1 2//1 3//1\ng B\nf 1//1 2//1 3//1\n";
    let r = parse_ok(text, lenient());
    assert_eq!(r.objects.len(), 2);
    assert_eq!(r.objects[0].name, Some("A".to_string()));
    assert_eq!(r.objects[1].name, Some("B".to_string()));
}

#[test]
fn empty_objects_are_dropped() {
    let text = "o A\no B\nv 0 0 0\nv 1 0 0\nv 0 1 0\nvn 0 0 1\nf 1//1 2//1 3//1\n";
    let r = parse_ok(text, lenient());
    // `o A` names the default object; `o B` starts a new one since A was
    // declared.  A never receives a face and is dropped.
    assert_eq!(r.objects.len(), 1);
    assert_eq!(r.objects[0].name, Some("B".to_string()));
}

#[test]
fn unnamed_object_command() {
    let text = "o\nv 0 0 0\nv 1 0 0\nv 0 1 0\nvn 0 0 1\nf 1//1 2//1 3//1\n";
    let r = parse_ok(text, lenient());
    assert_eq!(r.objects.len(), 1);
    assert_eq!(r.objects[0].name, None);
    assert!(r.objects[0].from_declaration);
}

#[test]
fn crlf_lines_parse() {
    let text = "v 0 0 0\r\nv 1 0 0\r\nv 0 1 0\r\nvn 0 0 1\r\nf 1//1 2//1 3//1\r\n";
    let r = parse_ok(text, lenient());
    assert_eq!(r.objects.len(), 1);
    assert_eq!(r.objects[0].geometry.position.len(), 9);
}

#[test]
fn negative_uv_and_normal_references() {
    let text = "v 0 0 0\nv 1 0 0\nv 0 1 0\nvt 0.1 0.2\nvt 0.3 0.4\nvn 0 0 1\nf 1/-2/-1 2/-1/-1 3/-2/-1\n";
    let r = parse_ok(text, lenient());
    let g = &r.objects[0].geometry;
    assert_eq!(g.uv, tokens(&["0.1", "0.2", "0.3", "0.4", "0.1", "0.2"]));
    assert_eq!(g.normal.len(), 9);
}

#[test]
fn strict_mode_accepts_valid_references() {
    let text = "v 0 0 0\nv 1 0 0\nv 0 1 0\nvt 0.5 0.5\nvn 0 0 1\nf 1/1/1 2/1/1 3/1/1\n";
    let opts = Some(ObjParseOptions {
        error_on_unsupported_data_types: true,
        error_on_invalid_reference_number: true,
    });
    let r = parse_ok(text, opts);
    assert_eq!(r.objects.len(), 1);
    assert_eq!(r.default_uvs.len(), 0);
}

#[test]
fn parse_i32_grammar() {
    assert_eq!(ObjParser::parse_i32("42"), Some(42));
    assert_eq!(ObjParser::parse_i32("-42"), Some(-42));
    assert_eq!(ObjParser::parse_i32("+7"), Some(7));
    assert_eq!(ObjParser::parse_i32("2147483647"), Some(2147483647));
    assert_eq!(ObjParser::parse_i32("-2147483648"), Some(-2147483648));
    assert_eq!(ObjParser::parse_i32("2147483648"), None);
    assert_eq!(ObjParser::parse_i32("-2147483649"), None);
    assert_eq!(ObjParser::parse_i32(""), None);
    assert_eq!(ObjParser::parse_i32("+"), None);
    assert_eq!(ObjParser::parse_i32("4x"), None);
    assert_eq!(ObjParser::parse_i32("1.5"), None);
    assert_eq!(ObjParser::parse_i32("007"), Some(7));
}
