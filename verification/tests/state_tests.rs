//! Tests of the parse state, pools, tokenizer and number parsing.

use objparse::numbers::{is_float_token_chars, parse_i32_chars};
use objparse::parser::handle_line;
use objparse::state::ObjParseState;
use objparse::text::{chars_of, tokens_of};
use objparse::ObjParseOptions;

fn chars(s: &str) -> Vec<char> {
    s.chars().collect()
}

fn feed(state: &mut ObjParseState, line: &str, line_num: usize) {
    let cs = chars(line);
    let opts = ObjParseOptions::default();
    match handle_line(state, &cs, line_num, &opts) {
        Ok(()) => {}
        Err(e) => panic!("line {:?} failed: {:?}", line, e),
    }
}

#[test]
fn pool_grows_one_entry_per_vertex_line() {
    let mut state = ObjParseState::new();
    let lines = ["v 0 0 0", "v 1 2 3", "", "v 4 5 6.5"];
    let mut line_num: usize = 1;
    for line in lines {
        feed(&mut state, line, line_num);
        line_num += 1;
    }
    // One entry (three components) per syntactically valid v line, in
    // document order; the blank line contributes nothing.
    assert_eq!(state.vertices.len(), 9);
    let expect: Vec<String> =
        ["0", "0", "0", "1", "2", "3", "4", "5", "6.5"].iter().map(|s| s.to_string()).collect();
    assert_eq!(state.vertices, expect);
    assert_eq!(state.normals.len(), 0);
    assert_eq!(state.uvs.len(), 0);
}

#[test]
fn pools_are_independent() {
    let mut state = ObjParseState::new();
    feed(&mut state, "v 1 2 3", 1);
    feed(&mut state, "vn 0 0 1", 2);
    feed(&mut state, "vt 0.5 0.25", 3);
    assert_eq!(state.vertices.len(), 3);
    assert_eq!(state.normals.len(), 3);
    assert_eq!(state.uvs.len(), 2);
}

#[test]
fn reference_resolution_at_time_of_use() {
    let mut state = ObjParseState::new();
    feed(&mut state, "v 10 0 0", 1);
    feed(&mut state, "v 20 0 0", 2);
    feed(&mut state, "v 30 0 0", 3);
    // Positive references are one-based; nonpositive ones count back from
    // the pool's current end.
    assert_eq!(state.vertex_reference_to_index(1), Some(0));
    assert_eq!(state.vertex_reference_to_index(3), Some(6));
    assert_eq!(state.vertex_reference_to_index(-1), Some(6));
    assert_eq!(state.vertex_reference_to_index(-3), Some(0));
    // Out of range on either side, including zero.
    assert_eq!(state.vertex_reference_to_index(4), None);
    assert_eq!(state.vertex_reference_to_index(0), None);
    assert_eq!(state.vertex_reference_to_index(-4), None);
    // The same reference means something else once the pool has grown.
    feed(&mut state, "v 40 0 0", 4);
    assert_eq!(state.vertex_reference_to_index(-1), Some(9));
}

#[test]
fn uv_and_normal_resolution_strides() {
    let mut state = ObjParseState::new();
    feed(&mut state, "vt 0 0", 1);
    feed(&mut state, "vt 1 1", 2);
    feed(&mut state, "vn 0 0 1", 3);
    assert_eq!(state.uv_reference_to_index(2), Some(2));
    assert_eq!(state.uv_reference_to_index(-2), Some(0));
    assert_eq!(state.normal_reference_to_index(1), Some(0));
    assert_eq!(state.normal_reference_to_index(2), None);
}

#[test]
fn degenerate_face_leaves_state_unchanged() {
    let mut state = ObjParseState::new();
    feed(&mut state, "v 0 0 0", 1);
    feed(&mut state, "v 1 0 0", 2);
    feed(&mut state, "f 1 2", 3);
    assert_eq!(state.objects.len(), 1);
    assert_eq!(state.objects[0].geometry.position.len(), 0);
    assert_eq!(state.vertices.len(), 6);
}

#[test]
fn tokenizer_splits_on_whitespace_runs() {
    let toks = tokens_of(&chars("  f  1/2/3\t4//6  "));
    let views: Vec<String> = toks.iter().map(|t| t.iter().collect()).collect();
    assert_eq!(views, vec!["f".to_string(), "1/2/3".to_string(), "4//6".to_string()]);
}

#[test]
fn tokenizer_empty_line() {
    assert_eq!(tokens_of(&chars("")).len(), 0);
    assert_eq!(tokens_of(&chars("   \t ")).len(), 0);
}

#[test]
fn chars_round_trip() {
    let cs = chars_of("v 1/2
x");
    assert_eq!(cs, chars("v 1/2\nx"));
}

#[test]
fn integer_token_parsing() {
    assert_eq!(parse_i32_chars(&chars("123")), Some(123));
    assert_eq!(parse_i32_chars(&chars("-00123")), Some(-123));
    assert_eq!(parse_i32_chars(&chars("--1")), None);
    assert_eq!(parse_i32_chars(&chars(" 1")), None);
    assert_eq!(parse_i32_chars(&chars("99999999999999999999")), None);
}

#[test]
fn float_token_recognizer_matches_std() {
    let cases = [
        "1", "1.", "1.5", ".5", "-0.5", "+.5", "1e3", "1E-3", "1.e3", "2.5e+07", "inf", "-inf",
        "Infinity", "nan", "NaN", "-NAN", "", ".", "e3", "1e", "1e+", "0x1", "1.2.3", "1 ", " 1",
        "infx", "nana", "+-1", "--1", "1_000", "1f32",
    ];
    for c in cases {
        let expected = c.parse::<f32>().is_ok();
        assert_eq!(is_float_token_chars(&chars(c)), expected, "token {:?}", c);
    }
}
