//! The OBJ document parser: line dispatch, face triangulation, and result
//! assembly.
//!
//! A document is parsed line by line, top to bottom, in a single pass.
//! Supported commands are `v`, `vn`, `vt` (pool appends), `f` (fan
//! triangulation into the current object), and `o`/`g` (object
//! segmentation); anything else is unsupported and either skipped or fatal
//! per the configuration.  The first error aborts the parse.
//!
//! The whole parse is specified by [`spec_parse`], a fold of
//! [`spec_handle_line`] over the document's lines; [`ObjParser::parse`] is
//! verified to return exactly what the specification says, for every input
//! and configuration.

use crate::numbers::{is_float_token, is_float_token_chars, parse_i32_chars, spec_parse_i32,
    string_from_chars};
use crate::state::{obj_views, spec_add_face, spec_append_normal, spec_append_position,
    spec_append_uv, spec_start_object, ObjDataType, ObjObject, ObjObjectView, ObjParseState,
    StateView};
use crate::text::{chars_of, seq_views, spec_lines, spec_slash_fields, spec_tokens, split,
    tokens_of, Sep};
use std::collections::HashSet;
use vstd::prelude::*;

verus! {

broadcast use vstd::std_specs::hash::group_hash_axioms;

/// Configures the parser's leniency.
#[derive(Clone, Copy, PartialEq, Eq, Structural, Debug)]
pub struct ObjParseOptions {
    /// If `true`, an unrecognized command aborts the parse; if `false`,
    /// unrecognized commands are skipped.
    pub error_on_unsupported_data_types: bool,
    /// If `true`, a texture or normal reference number that is out of range
    /// aborts the parse; if `false`, the default value is used instead and
    /// the reference number is recorded.  A vertex reference number that is
    /// out of range always aborts, whatever this says.
    pub error_on_invalid_reference_number: bool,
}

impl Default for ObjParseOptions {
    /// The lenient configuration: skip unsupported commands, default
    /// out-of-range texture and normal references.
    fn default() -> (r: Self)
        ensures
            !r.error_on_unsupported_data_types,
            !r.error_on_invalid_reference_number,
    {
        ObjParseOptions {
            error_on_unsupported_data_types: false,
            error_on_invalid_reference_number: false,
        }
    }
}

/// How many arguments a command expected, as an inclusive range.
#[derive(Clone, Copy, PartialEq, Eq, Structural, Debug)]
pub struct ArgBounds {
    /// The fewest arguments accepted.
    pub min: u32,
    /// The most arguments read.
    pub max: u32,
}

/// The kind of argument a command expected.
#[derive(Clone, Copy, PartialEq, Eq, Structural, Debug)]
pub enum ObjArgType {
    /// A floating-point number.
    Float,
}

/// A parse error; the first one encountered aborts the whole parse.
#[derive(Debug)]
pub enum ObjParseError {
    /// A required numeric argument of `v`, `vn` or `vt` was missing or not
    /// parseable.
    InvalidSyntax {
        /// Line number, starting at one.
        line_num: usize,
        /// Expected number of arguments, not counting the command.
        expected_num_args: ArgBounds,
        /// Expected type of the arguments.
        expected_type: ObjArgType,
    },
    /// The command is not in the supported subset, and the configuration
    /// asks for an error.
    UnsupportedCommand {
        /// Line number, starting at one.
        line_num: usize,
        /// The command token.
        command: String,
    },
    /// A reference number resolved outside its pool.
    InvalidReferenceNumber {
        /// Line number, starting at one.
        line_num: usize,
        /// Which pool the reference was for.
        data_type: ObjDataType,
        /// The offending reference number.
        reference_number: i32,
    },
}

/// The mathematical content of an [`ObjParseError`].
#[verifier::ext_equal]
pub ghost enum ParseErrorView {
    InvalidSyntax { line_num: int, min_args: int, max_args: int, expected_type: ObjArgType },
    UnsupportedCommand { line_num: int, command: Seq<char> },
    InvalidReferenceNumber { line_num: int, data_type: ObjDataType, reference_number: int },
}

impl View for ObjParseError {
    type V = ParseErrorView;

    open spec fn view(&self) -> ParseErrorView {
        match self {
            ObjParseError::InvalidSyntax { line_num, expected_num_args, expected_type } => {
                ParseErrorView::InvalidSyntax {
                    line_num: *line_num as int,
                    min_args: expected_num_args.min as int,
                    max_args: expected_num_args.max as int,
                    expected_type: *expected_type,
                }
            },
            ObjParseError::UnsupportedCommand { line_num, command } => {
                ParseErrorView::UnsupportedCommand {
                    line_num: *line_num as int,
                    command: command@,
                }
            },
            ObjParseError::InvalidReferenceNumber { line_num, data_type, reference_number } => {
                ParseErrorView::InvalidReferenceNumber {
                    line_num: *line_num as int,
                    data_type: *data_type,
                    reference_number: *reference_number as int,
                }
            },
        }
    }
}

/// A successful parse: the objects that received at least one face, in
/// creation order, and the reference numbers that were defaulted.
pub struct ObjParseResult {
    /// The surviving objects with their attribute streams.
    pub objects: Vec<ObjObject>,
    /// Texture reference numbers that were out of range and defaulted.
    pub default_uvs: HashSet<i32>,
    /// Normal reference numbers that were out of range and defaulted.
    pub default_normals: HashSet<i32>,
}

/// The mathematical content of an [`ObjParseResult`].
#[verifier::ext_equal]
pub ghost struct ResultView {
    pub objects: Seq<ObjObjectView>,
    pub default_uvs: Set<i32>,
    pub default_normals: Set<i32>,
}

impl View for ObjParseResult {
    type V = ResultView;

    open spec fn view(&self) -> ResultView {
        ResultView {
            objects: obj_views(self.objects@),
            default_uvs: self.default_uvs@,
            default_normals: self.default_normals@,
        }
    }
}

/// The configuration used when none is given.
pub open spec fn spec_options_or_default(options: Option<ObjParseOptions>) -> ObjParseOptions {
    match options {
        Some(o) => o,
        None => ObjParseOptions {
            error_on_unsupported_data_types: false,
            error_on_invalid_reference_number: false,
        },
    }
}

/// What a `v` line does: the first three arguments must be floating-point
/// tokens and become one position entry; a fourth argument, the homogeneous
/// coordinate, is read but has no effect on the result.
pub open spec fn spec_line_v(s: StateView, toks: Seq<Seq<char>>, line_num: int) -> Result<
    StateView,
    ParseErrorView,
> {
    if toks.len() >= 4 && is_float_token(toks[1]) && is_float_token(toks[2]) && is_float_token(
        toks[3],
    ) {
        Ok(spec_append_position(s, toks[1], toks[2], toks[3]))
    } else {
        Err(
            ParseErrorView::InvalidSyntax {
                line_num,
                min_args: 3,
                max_args: 4,
                expected_type: ObjArgType::Float,
            },
        )
    }
}

/// What a `vn` line does: exactly three floating-point arguments become one
/// normal entry.
pub open spec fn spec_line_vn(s: StateView, toks: Seq<Seq<char>>, line_num: int) -> Result<
    StateView,
    ParseErrorView,
> {
    if toks.len() >= 4 && is_float_token(toks[1]) && is_float_token(toks[2]) && is_float_token(
        toks[3],
    ) {
        Ok(spec_append_normal(s, toks[1], toks[2], toks[3]))
    } else {
        Err(
            ParseErrorView::InvalidSyntax {
                line_num,
                min_args: 3,
                max_args: 3,
                expected_type: ObjArgType::Float,
            },
        )
    }
}

/// What a `vt` line does: the first two arguments must be floating-point
/// tokens and become one texture coordinate entry; a third argument is read
/// but has no effect on the result.
pub open spec fn spec_line_vt(s: StateView, toks: Seq<Seq<char>>, line_num: int) -> Result<
    StateView,
    ParseErrorView,
> {
    if toks.len() >= 3 && is_float_token(toks[1]) && is_float_token(toks[2]) {
        Ok(spec_append_uv(s, toks[1], toks[2]))
    } else {
        Err(
            ParseErrorView::InvalidSyntax {
                line_num,
                min_args: 2,
                max_args: 3,
                expected_type: ObjArgType::Float,
            },
        )
    }
}

/// The closed set of commands the parser handles, plus the catch-all for
/// everything else: the supported-command table in one place.
#[derive(Clone, Copy, PartialEq, Eq, Structural, Debug)]
pub enum ObjCommand {
    /// `v`: append one position entry.
    V,
    /// `vn`: append one normal entry.
    Vn,
    /// `vt`: append one texture coordinate entry.
    Vt,
    /// `f`: triangulate a face into the current object.
    F,
    /// `o`: name the current object or start a new one.
    O,
    /// `g`: as `o`, for group names.
    G,
    /// Any other directive of the format.
    Unsupported,
}

/// Classifies a command token.
pub open spec fn spec_command_of(tok: Seq<char>) -> ObjCommand {
    if tok == seq!['v'] {
        ObjCommand::V
    } else if tok == seq!['v', 'n'] {
        ObjCommand::Vn
    } else if tok == seq!['v', 't'] {
        ObjCommand::Vt
    } else if tok == seq!['f'] {
        ObjCommand::F
    } else if tok == seq!['o'] {
        ObjCommand::O
    } else if tok == seq!['g'] {
        ObjCommand::G
    } else {
        ObjCommand::Unsupported
    }
}

/// Classifies a command token, per [`spec_command_of`].
fn command_of(tok: &Vec<char>) -> (r: ObjCommand)
    ensures
        r == spec_command_of(tok@),
{
    let n = tok.len();
    if n == 1 {
        let c = tok[0];
        proof {
            if c == 'v' {
                assert(tok@ =~= seq!['v']);
            } else if c == 'f' {
                assert(tok@ =~= seq!['f']);
            } else if c == 'o' {
                assert(tok@ =~= seq!['o']);
            } else if c == 'g' {
                assert(tok@ =~= seq!['g']);
            }
        }
        if c == 'v' {
            ObjCommand::V
        } else if c == 'f' {
            ObjCommand::F
        } else if c == 'o' {
            ObjCommand::O
        } else if c == 'g' {
            ObjCommand::G
        } else {
            ObjCommand::Unsupported
        }
    } else if n == 2 && tok[0] == 'v' {
        let c = tok[1];
        proof {
            if c == 'n' {
                assert(tok@ =~= seq!['v', 'n']);
            } else if c == 't' {
                assert(tok@ =~= seq!['v', 't']);
            }
        }
        if c == 'n' {
            ObjCommand::Vn
        } else if c == 't' {
            ObjCommand::Vt
        } else {
            ObjCommand::Unsupported
        }
    } else {
        ObjCommand::Unsupported
    }
}

/// The three reference numbers of a face corner `v[/vt][/vn]`: the
/// `/`-separated fields parsed as integers, `None` for a field that is
/// absent, empty, or not an integer.
pub open spec fn spec_corner(t: Seq<char>) -> (Option<i32>, Option<i32>, Option<i32>) {
    let fs = spec_slash_fields(t);
    (
        if fs.len() >= 1 {
            spec_parse_i32(fs[0])
        } else {
            None
        },
        if fs.len() >= 2 {
            spec_parse_i32(fs[1])
        } else {
            None
        },
        if fs.len() >= 3 {
            spec_parse_i32(fs[2])
        } else {
            None
        },
    )
}

/// The state with defaulted reference numbers recorded in the diagnostic
/// sets.
pub open spec fn record_diags(s: StateView, diag_vt: Option<i32>, diag_vn: Option<i32>) -> StateView {
    let s1 = match diag_vt {
        Some(r) => StateView { default_uvs: s.default_uvs.insert(r), ..s },
        None => s,
    };
    match diag_vn {
        Some(r) => StateView { default_normals: s1.default_normals.insert(r), ..s1 },
        None => s1,
    }
}

/// What one triangle of a face does.  A corner whose vertex field does not
/// parse as an integer makes the triangle silently skipped; the texture and
/// normal triplets are passed jointly (all three corners or none) to the
/// face assembly of [`spec_add_face`].
pub open spec fn spec_triangle(
    s: StateView,
    a: Seq<char>,
    b: Seq<char>,
    c: Seq<char>,
    opts: ObjParseOptions,
    line_num: int,
) -> Result<StateView, ParseErrorView> {
    let ca = spec_corner(a);
    let cb = spec_corner(b);
    let cc = spec_corner(c);
    match (ca.0, cb.0, cc.0) {
        (Some(v1), Some(v2), Some(v3)) => {
            let vt = match (ca.1, cb.1, cc.1) {
                (Some(t1), Some(t2), Some(t3)) => Some((t1, t2, t3)),
                _ => None,
            };
            let vn = match (ca.2, cb.2, cc.2) {
                (Some(n1), Some(n2), Some(n3)) => Some((n1, n2, n3)),
                _ => None,
            };
            match spec_add_face(s, (v1, v2, v3), vt, vn, opts.error_on_invalid_reference_number) {
                Ok((s2, diag_vt, diag_vn)) => Ok(record_diags(s2, diag_vt, diag_vn)),
                Err((dt, rn)) => Err(
                    ParseErrorView::InvalidReferenceNumber {
                        line_num,
                        data_type: dt,
                        reference_number: rn as int,
                    },
                ),
            }
        },
        _ => Ok(s),
    }
}

/// Fan triangulation: the triangles of a face with corners
/// `corners[0..n]` are `(corners[0], corners[i], corners[i + 1])` for
/// `i = 1 .. n - 2`, processed in document order.  A face with fewer than
/// three corners yields no triangle.
pub open spec fn spec_face_fold(
    s: StateView,
    corners: Seq<Seq<char>>,
    i: int,
    opts: ObjParseOptions,
    line_num: int,
) -> Result<StateView, ParseErrorView>
    decreases corners.len() - i,
{
    if i < 1 || i + 1 >= corners.len() {
        Ok(s)
    } else {
        match spec_triangle(s, corners[0], corners[i], corners[i + 1], opts, line_num) {
            Ok(s2) => spec_face_fold(s2, corners, i + 1, opts, line_num),
            Err(e) => Err(e),
        }
    }
}

/// The only error a face can raise is an invalid reference number.
proof fn lemma_face_fold_err_kind(
    s: StateView,
    corners: Seq<Seq<char>>,
    i: int,
    opts: ObjParseOptions,
    line_num: int,
)
    ensures
        spec_face_fold(s, corners, i, opts, line_num) matches Err(e) ==> e
            is InvalidReferenceNumber,
    decreases corners.len() - i,
{
    if i < 1 || i + 1 >= corners.len() {
    } else {
        match spec_triangle(s, corners[0], corners[i], corners[i + 1], opts, line_num) {
            Ok(s2) => {
                lemma_face_fold_err_kind(s2, corners, i + 1, opts, line_num);
            },
            Err(_) => {},
        }
    }
}

/// What an `f` line does: fan triangulation over its corner tokens.
pub open spec fn spec_line_f(
    s: StateView,
    toks: Seq<Seq<char>>,
    line_num: int,
    opts: ObjParseOptions,
) -> Result<StateView, ParseErrorView> {
    spec_face_fold(s, toks.drop_first(), 1, opts, line_num)
}

/// What one line does to the parse state.  A blank line is skipped; the
/// command token dispatches to the handlers above; `o` and `g` apply the
/// segmentation rule with the line's first argument (if any) as the name;
/// an unrecognized command is skipped or fatal per the configuration.
pub open spec fn spec_handle_line(
    s: StateView,
    line: Seq<char>,
    line_num: int,
    opts: ObjParseOptions,
) -> Result<StateView, ParseErrorView> {
    let toks = spec_tokens(line);
    if toks.len() == 0 {
        Ok(s)
    } else {
        match spec_command_of(toks[0]) {
            ObjCommand::V => spec_line_v(s, toks, line_num),
            ObjCommand::Vn => spec_line_vn(s, toks, line_num),
            ObjCommand::Vt => spec_line_vt(s, toks, line_num),
            ObjCommand::F => spec_line_f(s, toks, line_num, opts),
            ObjCommand::O | ObjCommand::G => Ok(
                spec_start_object(
                    s,
                    if toks.len() >= 2 {
                        Some(toks[1])
                    } else {
                        None
                    },
                    true,
                ),
            ),
            ObjCommand::Unsupported => if opts.error_on_unsupported_data_types {
                Err(ParseErrorView::UnsupportedCommand { line_num, command: toks[0] })
            } else {
                Ok(s)
            },
        }
    }
}

/// Folds [`spec_handle_line`] over the document's remaining lines,
/// numbering them from `line_num`; the first error aborts.
pub open spec fn spec_parse_lines(
    s: StateView,
    lines: Seq<Seq<char>>,
    line_num: int,
    opts: ObjParseOptions,
) -> Result<StateView, ParseErrorView>
    decreases lines.len(),
{
    if lines.len() == 0 {
        Ok(s)
    } else {
        match spec_handle_line(s, lines[0], line_num, opts) {
            Ok(s2) => spec_parse_lines(s2, lines.drop_first(), line_num + 1, opts),
            Err(e) => Err(e),
        }
    }
}

/// Holds exactly of the objects that received at least one face.
pub open spec fn nonempty_object_pred() -> spec_fn(ObjObjectView) -> bool {
    |o: ObjObjectView| o.geometry.position.len() != 0
}

/// Result assembly: objects that never received a face are dropped; the
/// rest survive in creation order, with the diagnostic sets.
pub open spec fn spec_finalize(s: StateView) -> ResultView {
    ResultView {
        objects: s.objects.filter(nonempty_object_pred()),
        default_uvs: s.default_uvs,
        default_normals: s.default_normals,
    }
}

/// What parsing a whole document returns: the fold of the line handler over
/// the lines of the text, starting from the initial state, finalized on
/// success.
pub open spec fn spec_parse(text: Seq<char>, opts: ObjParseOptions) -> Result<
    ResultView,
    ParseErrorView,
> {
    match spec_parse_lines(StateView::init(), spec_lines(text), 1, opts) {
        Ok(s) => Ok(spec_finalize(s)),
        Err(e) => Err(e),
    }
}

/// Parses one face corner token, per [`spec_corner`].
fn parse_corner(t: &Vec<char>) -> (r: (Option<i32>, Option<i32>, Option<i32>))
    ensures
        r == spec_corner(t@),
{
    let fs = split(t, Sep::Slash);
    proof {
        assert(seq_views(fs@) == spec_slash_fields(t@));
    }
    let v = if fs.len() >= 1 {
        parse_i32_chars(&fs[0])
    } else {
        None
    };
    let vt = if fs.len() >= 2 {
        parse_i32_chars(&fs[1])
    } else {
        None
    };
    let vn = if fs.len() >= 3 {
        parse_i32_chars(&fs[2])
    } else {
        None
    };
    (v, vt, vn)
}

/// Applies a `v` line, per [`spec_line_v`].
fn line_v(state: &mut ObjParseState, toks: &Vec<Vec<char>>, line_num: usize) -> (r: Result<
    (),
    ObjParseError,
>)
    requires
        old(state)@.wf(),
        toks@.len() >= 1,
    ensures
        final(state)@.wf(),
        ({
            match spec_line_v(old(state)@, seq_views(toks@), line_num as int) {
                Ok(post) => r is Ok && final(state)@ == post,
                Err(e) => r matches Err(err) && err@ == e && final(state)@ == old(state)@,
            }
        }),
{
    if toks.len() >= 4 && is_float_token_chars(&toks[1]) && is_float_token_chars(&toks[2])
        && is_float_token_chars(&toks[3]) {
        let x = string_from_chars(&toks[1]);
        let y = string_from_chars(&toks[2]);
        let z = string_from_chars(&toks[3]);
        state.append_position(x, y, z);
        Ok(())
    } else {
        Err(
            ObjParseError::InvalidSyntax {
                line_num,
                expected_num_args: ArgBounds { min: 3, max: 4 },
                expected_type: ObjArgType::Float,
            },
        )
    }
}

/// Applies a `vn` line, per [`spec_line_vn`].
fn line_vn(state: &mut ObjParseState, toks: &Vec<Vec<char>>, line_num: usize) -> (r: Result<
    (),
    ObjParseError,
>)
    requires
        old(state)@.wf(),
        toks@.len() >= 1,
    ensures
        final(state)@.wf(),
        ({
            match spec_line_vn(old(state)@, seq_views(toks@), line_num as int) {
                Ok(post) => r is Ok && final(state)@ == post,
                Err(e) => r matches Err(err) && err@ == e && final(state)@ == old(state)@,
            }
        }),
{
    if toks.len() >= 4 && is_float_token_chars(&toks[1]) && is_float_token_chars(&toks[2])
        && is_float_token_chars(&toks[3]) {
        let x = string_from_chars(&toks[1]);
        let y = string_from_chars(&toks[2]);
        let z = string_from_chars(&toks[3]);
        state.append_normal(x, y, z);
        Ok(())
    } else {
        Err(
            ObjParseError::InvalidSyntax {
                line_num,
                expected_num_args: ArgBounds { min: 3, max: 3 },
                expected_type: ObjArgType::Float,
            },
        )
    }
}

/// Applies a `vt` line, per [`spec_line_vt`].
fn line_vt(state: &mut ObjParseState, toks: &Vec<Vec<char>>, line_num: usize) -> (r: Result<
    (),
    ObjParseError,
>)
    requires
        old(state)@.wf(),
        toks@.len() >= 1,
    ensures
        final(state)@.wf(),
        ({
            match spec_line_vt(old(state)@, seq_views(toks@), line_num as int) {
                Ok(post) => r is Ok && final(state)@ == post,
                Err(e) => r matches Err(err) && err@ == e && final(state)@ == old(state)@,
            }
        }),
{
    if toks.len() >= 3 && is_float_token_chars(&toks[1]) && is_float_token_chars(&toks[2]) {
        let u = string_from_chars(&toks[1]);
        let v = string_from_chars(&toks[2]);
        state.append_uv(u, v);
        Ok(())
    } else {
        Err(
            ObjParseError::InvalidSyntax {
                line_num,
                expected_num_args: ArgBounds { min: 2, max: 3 },
                expected_type: ObjArgType::Float,
            },
        )
    }
}

/// Applies an `f` line, per [`spec_line_f`]: fan triangulation around the
/// first corner, each triangle checked and committed atomically.  On an
/// error the state keeps the triangles committed before the failure; the
/// parse as a whole discards it.
fn line_f(
    state: &mut ObjParseState,
    toks: &Vec<Vec<char>>,
    line_num: usize,
    options: &ObjParseOptions,
) -> (r: Result<(), ObjParseError>)
    requires
        old(state)@.wf(),
        toks@.len() >= 1,
    ensures
        final(state)@.wf(),
        ({
            match spec_line_f(old(state)@, seq_views(toks@), line_num as int, *options) {
                Ok(post) => r is Ok && final(state)@ == post,
                Err(e) => r matches Err(err) && err@ == e,
            }
        }),
{
    let ghost entry = state@;
    let ghost gt = seq_views(toks@);
    let ghost corners = gt.drop_first();
    let ghost ln = line_num as int;
    let n_toks = toks.len();
    if n_toks < 3 {
        proof {
            assert(corners.len() < 2);
            assert(spec_face_fold(entry, corners, 1, *options, ln)
                == Ok::<StateView, ParseErrorView>(entry));
        }
        return Ok(());
    }
    let mut i: usize = 1;
    while i < n_toks - 2
        invariant
            1 <= i <= n_toks - 2,
            n_toks >= 3,
            n_toks == toks.len(),
            gt == seq_views(toks@),
            corners == gt.drop_first(),
            ln == line_num as int,
            entry == old(state)@,
            state@.wf(),
            spec_face_fold(entry, corners, 1, *options, ln) == spec_face_fold(
                state@,
                corners,
                i as int,
                *options,
                ln,
            ),
        decreases n_toks - i,
    {
        proof {
            assert(corners[0] == gt[1]);
            assert(corners[i as int] == gt[i + 1]);
            assert(corners[i + 1] == gt[i + 2]);
        }
        let ca = parse_corner(&toks[1]);
        let cb = parse_corner(&toks[i + 1]);
        let cc = parse_corner(&toks[i + 2]);
        let ghost pre = state@;
        match (ca.0, cb.0, cc.0) {
            (Some(v1), Some(v2), Some(v3)) => {
                let vt = match (ca.1, cb.1, cc.1) {
                    (Some(t1), Some(t2), Some(t3)) => Some((t1, t2, t3)),
                    _ => None,
                };
                let vn = match (ca.2, cb.2, cc.2) {
                    (Some(n1), Some(n2), Some(n3)) => Some((n1, n2, n3)),
                    _ => None,
                };
                match state.add_face(
                    (v1, v2, v3),
                    vt,
                    vn,
                    options.error_on_invalid_reference_number,
                ) {
                    Ok((diag_vt, diag_vn)) => {
                        let ghost mid = state@;
                        match diag_vt {
                            Some(rn) => {
                                state.default_uvs.insert(rn);
                            },
                            None => {},
                        }
                        let ghost mid2 = state@;
                        proof {
                            assert(mid2 =~~= (match diag_vt {
                                Some(rn) => StateView {
                                    default_uvs: mid.default_uvs.insert(rn),
                                    ..mid
                                },
                                None => mid,
                            }));
                        }
                        match diag_vn {
                            Some(rn) => {
                                state.default_normals.insert(rn);
                            },
                            None => {},
                        }
                        proof {
                            assert(state@ =~~= record_diags(mid, diag_vt, diag_vn));
                            assert(spec_triangle(
                                pre,
                                corners[0],
                                corners[i as int],
                                corners[i + 1],
                                *options,
                                ln,
                            ) == Ok::<StateView, ParseErrorView>(state@));
                        }
                    },
                    Err((dt, rn)) => {
                        proof {
                            assert(spec_triangle(
                                pre,
                                corners[0],
                                corners[i as int],
                                corners[i + 1],
                                *options,
                                ln,
                            ) == Err::<StateView, ParseErrorView>(
                                ParseErrorView::InvalidReferenceNumber {
                                    line_num: ln,
                                    data_type: dt,
                                    reference_number: rn as int,
                                },
                            ));
                            assert(spec_face_fold(entry, corners, 1, *options, ln)
                                == spec_face_fold(pre, corners, i as int, *options, ln));
                        }
                        return Err(
                            ObjParseError::InvalidReferenceNumber {
                                line_num,
                                data_type: dt,
                                reference_number: rn,
                            },
                        );
                    },
                }
            },
            _ => {
                proof {
                    assert(spec_triangle(
                        pre,
                        corners[0],
                        corners[i as int],
                        corners[i + 1],
                        *options,
                        ln,
                    ) == Ok::<StateView, ParseErrorView>(pre));
                }
            },
        }
        i = i + 1;
    }
    proof {
        assert(i + 1 >= corners.len());
        assert(spec_face_fold(state@, corners, i as int, *options, ln)
            == Ok::<StateView, ParseErrorView>(state@));
    }
    Ok(())
}

/// Applies one line to the parse state, per [`spec_handle_line`].  On an
/// invalid-reference error the state may hold triangles of the erroneous
/// face that were committed before the failure (the parse as a whole
/// discards it); any other error leaves the state untouched.
pub fn handle_line(
    state: &mut ObjParseState,
    line: &Vec<char>,
    line_num: usize,
    options: &ObjParseOptions,
) -> (r: Result<(), ObjParseError>)
    requires
        old(state)@.wf(),
    ensures
        final(state)@.wf(),
        ({
            match spec_handle_line(old(state)@, line@, line_num as int, *options) {
                Ok(post) => r is Ok && final(state)@ == post,
                Err(e) => r matches Err(err) && err@ == e && (!(e is InvalidReferenceNumber)
                    ==> final(state)@ == old(state)@),
            }
        }),
{
    let toks = tokens_of(line);
    let n_toks = toks.len();
    if n_toks == 0 {
        return Ok(());
    }
    match command_of(&toks[0]) {
        ObjCommand::V => line_v(state, &toks, line_num),
        ObjCommand::Vn => line_vn(state, &toks, line_num),
        ObjCommand::Vt => line_vt(state, &toks, line_num),
        ObjCommand::F => {
            proof {
                lemma_face_fold_err_kind(
                    state@,
                    spec_tokens(line@).drop_first(),
                    1,
                    *options,
                    line_num as int,
                );
            }
            line_f(state, &toks, line_num, options)
        },
        ObjCommand::O | ObjCommand::G => {
            let name = if n_toks >= 2 {
                Some(string_from_chars(&toks[1]))
            } else {
                None
            };
            state.start_object(name, true);
            Ok(())
        },
        ObjCommand::Unsupported => {
            if options.error_on_unsupported_data_types {
                let command = string_from_chars(&toks[0]);
                Err(ObjParseError::UnsupportedCommand { line_num, command })
            } else {
                Ok(())
            }
        },
    }
}

/// Keeps the objects that received at least one face, in order, consuming
/// the list from the front.
fn keep_nonempty_objects(mut v: Vec<ObjObject>) -> (r: Vec<ObjObject>)
    ensures
        obj_views(r@) == obj_views(v@).filter(nonempty_object_pred()),
{
    let ghost orig = v@;
    let mut r: Vec<ObjObject> = Vec::new();
    proof {
        assert(obj_views(r@) =~= Seq::<ObjObjectView>::empty());
        assert(Seq::<ObjObjectView>::empty() + obj_views(v@).filter(nonempty_object_pred())
            =~= obj_views(v@).filter(nonempty_object_pred()));
    }
    while v.len() > 0
        invariant
            obj_views(orig).filter(nonempty_object_pred()) == obj_views(r@) + obj_views(
                v@,
            ).filter(nonempty_object_pred()),
        decreases v.len(),
    {
        let ghost pre = v@;
        let o = v.remove(0);
        proof {
            assert(obj_views(pre) =~= seq![o@] + obj_views(v@));
            Seq::<ObjObjectView>::filter_distributes_over_add(
                seq![o@],
                obj_views(v@),
                nonempty_object_pred(),
            );
            reveal(Seq::filter);
            assert(seq![o@].drop_last() =~= Seq::<ObjObjectView>::empty());
            assert(seq![o@].last() == o@);
            assert(Seq::<ObjObjectView>::empty().filter(nonempty_object_pred())
                =~= Seq::<ObjObjectView>::empty());
            if o@.geometry.position.len() != 0 {
                assert(seq![o@].filter(nonempty_object_pred()) =~= seq![o@]);
            } else {
                assert(seq![o@].filter(nonempty_object_pred()) =~= Seq::<ObjObjectView>::empty());
            }
        }
        if o.geometry.position.len() > 0 {
            proof {
                assert(obj_views(r@.push(o)) =~= obj_views(r@) + seq![o@]);
                assert(obj_views(r@.push(o)) + obj_views(v@).filter(nonempty_object_pred())
                    =~= obj_views(r@) + (seq![o@] + obj_views(v@).filter(nonempty_object_pred())));
            }
            r.push(o);
        } else {
            proof {
                assert(obj_views(r@) + (Seq::<ObjObjectView>::empty() + obj_views(v@).filter(
                    nonempty_object_pred(),
                )) =~= obj_views(r@) + obj_views(v@).filter(nonempty_object_pred()));
            }
        }
    }
    proof {
        assert(obj_views(v@) =~= Seq::<ObjObjectView>::empty());
        reveal(Seq::filter);
        assert(obj_views(v@).filter(nonempty_object_pred()) =~= Seq::<ObjObjectView>::empty());
        assert(obj_views(r@) + Seq::<ObjObjectView>::empty() =~= obj_views(r@));
    }
    r
}

/// Parser for ASCII OBJ documents.
///
/// Supported commands: geometric vertices (`v`), texture vertices (`vt`),
/// vertex normals (`vn`), faces (`f`), group names (`g`) and object names
/// (`o`).  Every other directive of the format is unsupported and is
/// skipped or rejected per [`ObjParseOptions`].
///
/// Parsing is optimistic: extra arguments beyond what a command reads are
/// ignored, and a face with too few corners, or a corner whose vertex field
/// does not parse, is skipped.  Arguments that the format requires must
/// parse, and reference numbers must resolve, per the error taxonomy of
/// [`ObjParseError`].
pub struct ObjParser {}

impl ObjParser {
    /// Parses a string slice into a 32-bit signed integer, as used for
    /// reference numbers.
    pub fn parse_i32(s: &str) -> (r: Option<i32>)
        ensures
            r == spec_parse_i32(s@),
    {
        let cs = chars_of(s);
        parse_i32_chars(&cs)
    }

    /// Parses the content of an OBJ document, per [`spec_parse`]: returns
    /// the surviving objects and the defaulted-reference diagnostics, or
    /// the first error.
    pub fn parse(text: &str, options: Option<ObjParseOptions>) -> (r: Result<
        ObjParseResult,
        ObjParseError,
    >)
        ensures
            ({
                let opts = spec_options_or_default(options);
                match spec_parse(text@, opts) {
                    Ok(m) => r matches Ok(res) && res@ == m,
                    Err(e) => r matches Err(err) && err@ == e,
                }
            }),
    {
        let opts = match options {
            Some(o) => o,
            None => ObjParseOptions::default(),
        };
        let cs = chars_of(text);
        let lines = split(&cs, Sep::Newline);
        let ghost gl = spec_lines(text@);
        proof {
            assert(seq_views(lines@) == gl);
        }
        let mut state = ObjParseState::new();
        let n = lines.len();
        proof {
            assert(gl.skip(0) =~= gl);
        }
        let mut i: usize = 0;
        while i < n
            invariant
                i <= n,
                n == lines.len(),
                seq_views(lines@) == gl,
                gl == spec_lines(text@),
                opts == spec_options_or_default(options),
                state@.wf(),
                spec_parse_lines(StateView::init(), gl, 1, opts) == spec_parse_lines(
                    state@,
                    gl.skip(i as int),
                    i + 1,
                    opts,
                ),
            decreases n - i,
        {
            let ghost pre = state@;
            let line_num = i + 1;
            match handle_line(&mut state, &lines[i], line_num, &opts) {
                Ok(()) => {
                    proof {
                        assert(gl.skip(i as int)[0] == gl[i as int]);
                        assert(gl.skip(i as int).drop_first() =~= gl.skip(i + 1));
                        assert(gl.skip(i as int).len() > 0);
                    }
                },
                Err(e) => {
                    proof {
                        assert(gl.skip(i as int)[0] == gl[i as int]);
                        assert(gl.skip(i as int).len() > 0);
                        assert(spec_parse_lines(pre, gl.skip(i as int), i + 1, opts)
                            == Err::<StateView, ParseErrorView>(e@));
                    }
                    return Err(e);
                },
            }
            i = i + 1;
        }
        proof {
            assert(gl.skip(n as int) =~= Seq::<Seq<char>>::empty());
            assert(spec_parse_lines(state@, gl.skip(n as int), n + 1, opts)
                == Ok::<StateView, ParseErrorView>(state@));
        }
        state.finalize();
        let ObjParseState {
            objects,
            vertices: _,
            normals: _,
            uvs: _,
            default_uvs,
            default_normals,
        } = state;
        let surviving = keep_nonempty_objects(objects);
        let result = ObjParseResult { objects: surviving, default_uvs, default_normals };
        proof {
            assert(result@ =~~= spec_finalize(spec_parse_lines(
                StateView::init(),
                gl,
                1,
                opts,
            )->Ok_0));
        }
        Ok(result)
    }
}

} // verus!
