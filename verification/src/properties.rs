//! Library-wide laws, stated over the parsing specification and proved once
//! and for all.

use crate::numbers::is_float_token;
use crate::parser::{nonempty_object_pred, record_diags, spec_corner, spec_finalize, spec_handle_line,
    spec_line_f, spec_line_v, spec_parse, spec_parse_lines, spec_triangle, ObjParseOptions,
    ObjCommand, ParseErrorView, ResultView};
use crate::state::{default_uv_comps, entry_comps, ref_ok, spec_add_face, spec_append_position,
    spec_first_invalid, spec_resolve, spec_start_object, spec_vn_check, spec_uv_plan,
    triple_comps, GeometryView, ObjObjectView, StateView, UvPlan};
use crate::text::{spec_lines, spec_tokens};
use crate::parser::{spec_command_of, spec_face_fold};
use vstd::prelude::*;

verus! {

/// A line whose tokens are `v` followed by at least three floating-point
/// tokens: a syntactically valid vertex line.
pub open spec fn valid_v_line(line: Seq<char>) -> bool {
    let toks = spec_tokens(line);
    &&& toks.len() >= 4
    &&& toks[0] == seq!['v']
    &&& is_float_token(toks[1])
    &&& is_float_token(toks[2])
    &&& is_float_token(toks[3])
}

/// A line with no tokens, which the parser skips.
pub open spec fn blank_line(line: Seq<char>) -> bool {
    spec_tokens(line).len() == 0
}

/// The position components contributed by a sequence of vertex and blank
/// lines, in document order.
pub open spec fn all_v_comps(lines: Seq<Seq<char>>) -> Seq<Seq<char>>
    decreases lines.len(),
{
    if lines.len() == 0 {
        Seq::empty()
    } else {
        let toks = spec_tokens(lines[0]);
        let head: Seq<Seq<char>> = if toks.len() == 0 {
            Seq::empty()
        } else {
            seq![toks[1], toks[2], toks[3]]
        };
        head + all_v_comps(lines.drop_first())
    }
}

/// The number of non-blank lines among vertex and blank lines.
pub open spec fn num_v_lines(lines: Seq<Seq<char>>) -> int
    decreases lines.len(),
{
    if lines.len() == 0 {
        0
    } else {
        (if spec_tokens(lines[0]).len() == 0 {
            0int
        } else {
            1int
        }) + num_v_lines(lines.drop_first())
    }
}

/// Pool growth law: feeding any sequence of syntactically valid vertex
/// lines (and blank lines) to the parser succeeds and appends exactly one
/// position entry per vertex line to the pool, in document order, leaving
/// everything else in the state untouched.
pub proof fn lemma_pool_growth(
    s: StateView,
    lines: Seq<Seq<char>>,
    line_num: int,
    opts: ObjParseOptions,
)
    requires
        forall|i: int| 0 <= i < lines.len() ==> valid_v_line(#[trigger] lines[i]) || blank_line(
            lines[i],
        ),
    ensures
        spec_parse_lines(s, lines, line_num, opts) == Ok::<StateView, ParseErrorView>(
            StateView { vertices: s.vertices + all_v_comps(lines), ..s },
        ),
        all_v_comps(lines).len() == 3 * num_v_lines(lines),
    decreases lines.len(),
{
    if lines.len() == 0 {
        assert(s.vertices + all_v_comps(lines) =~= s.vertices);
        assert(StateView { vertices: s.vertices + all_v_comps(lines), ..s } =~~= s);
    } else {
        let line = lines[0];
        let rest = lines.drop_first();
        assert(valid_v_line(line) || blank_line(line));
        assert(forall|i: int|
            0 <= i < rest.len() ==> rest[i] == lines[i + 1] && (valid_v_line(lines[i + 1])
                || blank_line(lines[i + 1])));
        if blank_line(line) {
            assert(spec_handle_line(s, line, line_num, opts) == Ok::<
                StateView,
                ParseErrorView,
            >(s));
            lemma_pool_growth(s, rest, line_num + 1, opts);
            assert(all_v_comps(lines) =~= all_v_comps(rest));
        } else {
            let toks = spec_tokens(line);
            assert(spec_handle_line(s, line, line_num, opts) == spec_line_v(s, toks, line_num));
            let s2 = spec_append_position(s, toks[1], toks[2], toks[3]);
            assert(spec_line_v(s, toks, line_num) == Ok::<StateView, ParseErrorView>(s2));
            lemma_pool_growth(s2, rest, line_num + 1, opts);
            assert(s2.vertices + all_v_comps(rest) =~= s.vertices + all_v_comps(lines));
            assert(StateView { vertices: s2.vertices + all_v_comps(rest), ..s2 } =~~= (StateView {
                vertices: s.vertices + all_v_comps(lines),
                ..s
            }));
        }
    }
}

/// Pool growth law at the document level: a document made of valid vertex
/// lines and blank lines parses successfully, its position pool (counted in
/// entries) grows to the number of vertex lines, and no object survives
/// (none received a face) and no diagnostic is recorded.
pub proof fn lemma_v_document(text: Seq<char>, opts: ObjParseOptions)
    requires
        forall|i: int|
            0 <= i < spec_lines(text).len() ==> valid_v_line(#[trigger] spec_lines(text)[i])
                || blank_line(spec_lines(text)[i]),
    ensures
        spec_parse(text, opts) == Ok::<ResultView, ParseErrorView>(
            ResultView {
                objects: Seq::empty(),
                default_uvs: Set::empty(),
                default_normals: Set::empty(),
            },
        ),
        ({
            let end = spec_parse_lines(StateView::init(), spec_lines(text), 1, opts);
            end matches Ok(s) && s.vertices.len() == 3 * num_v_lines(spec_lines(text))
        }),
{
    let lines = spec_lines(text);
    lemma_pool_growth(StateView::init(), lines, 1, opts);
    let s = StateView { vertices: StateView::init().vertices + all_v_comps(lines), ..StateView::init() };
    assert(s.vertices =~= all_v_comps(lines));
    reveal(Seq::filter);
    assert(s.objects.drop_last() =~= Seq::<crate::state::ObjObjectView>::empty());
    assert(s.objects.last().geometry.position.len() == 0);
    assert(!nonempty_object_pred()(s.objects.last()));
    assert(Seq::<crate::state::ObjObjectView>::empty().filter(nonempty_object_pred())
        =~= Seq::<crate::state::ObjObjectView>::empty());
    assert(spec_finalize(s).objects =~= Seq::empty());
    assert(spec_finalize(s) =~~= (ResultView {
        objects: Seq::empty(),
        default_uvs: Set::empty(),
        default_normals: Set::empty(),
    }));
}

/// Relative reference law: right after a position entry is appended, the
/// reference number `-1` resolves, against the pool as it then stands, to
/// exactly that entry.
pub proof fn lemma_negative_ref_most_recent(
    s: StateView,
    x: Seq<char>,
    y: Seq<char>,
    z: Seq<char>,
)
    requires
        s.wf(),
    ensures
        ({
            let s2 = spec_append_position(s, x, y, z);
            let count = s2.vertices.len() as int / 3;
            ref_ok(count, -1) && entry_comps(s2.vertices, 3, spec_resolve(count, -1)) == seq![
                x,
                y,
                z,
            ]
        }),
{
    let s2 = spec_append_position(s, x, y, z);
    let count = s2.vertices.len() as int / 3;
    assert(s2.vertices.len() == s.vertices.len() + 3);
    assert(count == s.vertices.len() as int / 3 + 1);
    assert(entry_comps(s2.vertices, 3, count - 1) =~= seq![x, y, z]);
}

/// Per-object stream shape: position and normal streams have the same
/// length, a multiple of nine (one triangle contributes three corners of
/// three components each), and the texture stream holds two components for
/// every three position components.
pub open spec fn triangle_aligned(o: ObjObjectView) -> bool {
    &&& o.geometry.normal.len() == o.geometry.position.len()
    &&& 2 * o.geometry.position.len() == 3 * o.geometry.uv.len()
    &&& o.geometry.position.len() % 9 == 0
}

/// Every object's streams are triangle-aligned.
pub open spec fn all_triangle_aligned(objs: Seq<ObjObjectView>) -> bool {
    forall|i: int| 0 <= i < objs.len() ==> triangle_aligned(#[trigger] objs[i])
}

/// Whole-triangle commit law: a successful face assembly grows the current
/// object's three attribute streams together — positions and normals by
/// nine components, texture coordinates by six — and touches neither the
/// other objects nor the pools.  (That a failed one extends nothing is part
/// of `add_face`'s contract.)
pub proof fn lemma_add_face_growth(
    s: StateView,
    v: (i32, i32, i32),
    vt: Option<(i32, i32, i32)>,
    vn: Option<(i32, i32, i32)>,
    strict: bool,
)
    requires
        s.wf(),
    ensures
        spec_add_face(s, v, vt, vn, strict) matches Ok(r) ==> ({
            let s2 = r.0;
            &&& s2.objects.len() == s.objects.len()
            &&& s2.current().geometry.position.len() == s.current().geometry.position.len() + 9
            &&& s2.current().geometry.normal.len() == s.current().geometry.normal.len() + 9
            &&& s2.current().geometry.uv.len() == s.current().geometry.uv.len() + 6
            &&& forall|i: int| 0 <= i < s.objects.len() - 1 ==> s2.objects[i] == s.objects[i]
            &&& s2.vertices == s.vertices
            &&& s2.normals == s.normals
            &&& s2.uvs == s.uvs
        }),
{
    let vcount = s.vertices.len() as int / 3;
    let tcount = s.uvs.len() as int / 2;
    let ncount = s.normals.len() as int / 3;
    assert(3 * vcount == s.vertices.len());
    assert(2 * tcount == s.uvs.len());
    assert(3 * ncount == s.normals.len());
    if spec_add_face(s, v, vt, vn, strict) is Ok {
        assert(spec_first_invalid(vcount, v.0, v.1, v.2) is None);
        assert(triple_comps(s.vertices, 3, vcount, v.0, v.1, v.2).len() == 9);
        assert(spec_vn_check(ncount, vn) is None);
        match vn {
            Some(t) => {
                assert(triple_comps(s.normals, 3, ncount, t.0, t.1, t.2).len() == 9);
            },
            None => {},
        }
        match (spec_uv_plan(tcount, vt, strict), vt) {
            (UvPlan::Real, Some(t)) => {
                assert(triple_comps(s.uvs, 2, tcount, t.0, t.1, t.2).len() == 6);
            },
            _ => {
                assert(default_uv_comps().len() == 6);
            },
        }
    }
}

/// All elements of a filtered sequence come from the unfiltered one, so a
/// property of every element survives filtering.
proof fn lemma_filter_keeps_property(
    objs: Seq<ObjObjectView>,
    q: spec_fn(ObjObjectView) -> bool,
    p: spec_fn(ObjObjectView) -> bool,
)
    requires
        forall|i: int| 0 <= i < objs.len() ==> p(#[trigger] objs[i]),
    ensures
        forall|i: int| 0 <= i < objs.filter(q).len() ==> p(#[trigger] objs.filter(q)[i]),
    decreases objs.len(),
{
    reveal(Seq::filter);
    if objs.len() > 0 {
        let d = objs.drop_last();
        assert(forall|i: int| 0 <= i < d.len() ==> d[i] == objs[i] && p(objs[i]));
        lemma_filter_keeps_property(d, q, p);
        assert(p(objs.last()));
        assert forall|i: int| 0 <= i < objs.filter(q).len() implies p(objs.filter(q)[i]) by {
            if q(objs.last()) {
                assert(objs.filter(q) == d.filter(q).push(objs.last()));
                if i < d.filter(q).len() {
                    assert(objs.filter(q)[i] == d.filter(q)[i]);
                } else {
                    assert(objs.filter(q)[i] == objs.last());
                }
            } else {
                assert(objs.filter(q) == d.filter(q));
            }
        }
    }
}

/// One face line keeps every object triangle-aligned.
proof fn lemma_face_fold_alignment(
    s: StateView,
    corners: Seq<Seq<char>>,
    i: int,
    opts: ObjParseOptions,
    line_num: int,
)
    requires
        s.wf(),
        all_triangle_aligned(s.objects),
    ensures
        spec_face_fold(s, corners, i, opts, line_num) matches Ok(s2) ==> s2.wf()
            && all_triangle_aligned(s2.objects),
    decreases corners.len() - i,
{
    if i < 1 || i + 1 >= corners.len() {
    } else {
        match spec_triangle(s, corners[0], corners[i], corners[i + 1], opts, line_num) {
            Ok(s2) => {
                assert(s2.wf() && all_triangle_aligned(s2.objects)) by {
                    let ca = spec_corner(corners[0]);
                    let cb = spec_corner(corners[i]);
                    let cc = spec_corner(corners[i + 1]);
                    if ca.0 is Some && cb.0 is Some && cc.0 is Some {
                        let vv = (ca.0->0, cb.0->0, cc.0->0);
                        let vt = match (ca.1, cb.1, cc.1) {
                            (Some(t1), Some(t2), Some(t3)) => Some((t1, t2, t3)),
                            _ => None,
                        };
                        let vn = match (ca.2, cb.2, cc.2) {
                            (Some(n1), Some(n2), Some(n3)) => Some((n1, n2, n3)),
                            _ => None,
                        };
                        lemma_add_face_growth(s, vv, vt, vn, opts.error_on_invalid_reference_number);
                    }
                }
                lemma_face_fold_alignment(s2, corners, i + 1, opts, line_num);
            },
            Err(_) => {},
        }
    }
}

/// One line keeps the state well-formed and every object triangle-aligned.
proof fn lemma_line_alignment(s: StateView, line: Seq<char>, line_num: int, opts: ObjParseOptions)
    requires
        s.wf(),
        all_triangle_aligned(s.objects),
    ensures
        spec_handle_line(s, line, line_num, opts) matches Ok(s2) ==> s2.wf()
            && all_triangle_aligned(s2.objects),
{
    let toks = spec_tokens(line);
    if toks.len() == 0 {
    } else if toks[0] == seq!['f'] {
        lemma_face_fold_alignment(s, toks.drop_first(), 1, opts, line_num);
    } else if toks[0] == seq!['o'] || toks[0] == seq!['g'] {
        let name = if toks.len() >= 2 {
            Some(toks[1])
        } else {
            None
        };
        let s2 = spec_start_object(s, name, true);
        if !s.current().from_declaration {
            assert(all_triangle_aligned(s2.objects)) by {
                assert(forall|i: int|
                    0 <= i < s2.objects.len() ==> #[trigger] s2.objects[i].geometry
                        == s.objects[i].geometry && triangle_aligned(s.objects[i]));
            }
        } else {
            assert(all_triangle_aligned(s2.objects)) by {
                assert(forall|i: int|
                    0 <= i < s.objects.len() ==> #[trigger] s2.objects[i] == s.objects[i]
                        && triangle_aligned(s.objects[i]));
                assert(triangle_aligned(s2.objects.last()));
            }
        }
    } else {
    }
}

/// Folding the lines keeps the state well-formed and aligned.
proof fn lemma_lines_alignment(
    s: StateView,
    lines: Seq<Seq<char>>,
    line_num: int,
    opts: ObjParseOptions,
)
    requires
        s.wf(),
        all_triangle_aligned(s.objects),
    ensures
        spec_parse_lines(s, lines, line_num, opts) matches Ok(s2) ==> s2.wf()
            && all_triangle_aligned(s2.objects),
    decreases lines.len(),
{
    if lines.len() == 0 {
    } else {
        match spec_handle_line(s, lines[0], line_num, opts) {
            Ok(s2) => {
                lemma_line_alignment(s, lines[0], line_num, opts);
                lemma_lines_alignment(s2, lines.drop_first(), line_num + 1, opts);
            },
            Err(_) => {},
        }
    }
}

/// Stream shape law: in every successful parse, every surviving object's
/// streams are triangle-aligned — positions and normals of equal length and
/// a multiple of nine, two texture components for every three position
/// components.  Streams only ever grow in whole-triangle increments.
pub proof fn lemma_result_triangle_aligned(text: Seq<char>, opts: ObjParseOptions)
    ensures
        spec_parse(text, opts) matches Ok(m) ==> all_triangle_aligned(m.objects),
{
    lemma_lines_alignment(StateView::init(), spec_lines(text), 1, opts);
    match spec_parse_lines(StateView::init(), spec_lines(text), 1, opts) {
        Ok(s) => {
            lemma_filter_keeps_property(
                s.objects,
                nonempty_object_pred(),
                |o: ObjObjectView| triangle_aligned(o),
            );
        },
        Err(_) => {},
    }
}

/// A corner all three of whose fields parse and resolve against the pools
/// of `s`.
pub open spec fn corner_fully_valid(s: StateView, c: Seq<char>) -> bool {
    let f = spec_corner(c);
    &&& f.0 matches Some(r) && ref_ok(s.vertices.len() as int / 3, r as int)
    &&& f.1 matches Some(r) && ref_ok(s.uvs.len() as int / 2, r as int)
    &&& f.2 matches Some(r) && ref_ok(s.normals.len() as int / 3, r as int)
}

/// A triangle of fully valid corners always commits: it grows the current
/// object's position stream by nine components and leaves the pools alone.
proof fn lemma_valid_triangle_commits(
    s: StateView,
    a: Seq<char>,
    b: Seq<char>,
    c: Seq<char>,
    opts: ObjParseOptions,
    line_num: int,
)
    requires
        s.wf(),
        corner_fully_valid(s, a),
        corner_fully_valid(s, b),
        corner_fully_valid(s, c),
    ensures
        spec_triangle(s, a, b, c, opts, line_num) matches Ok(s2) && ({
            &&& s2.wf()
            &&& s2.objects.len() == s.objects.len()
            &&& s2.current().geometry.position.len() == s.current().geometry.position.len() + 9
            &&& s2.vertices == s.vertices
            &&& s2.normals == s.normals
            &&& s2.uvs == s.uvs
        }),
{
    let ca = spec_corner(a);
    let cb = spec_corner(b);
    let cc = spec_corner(c);
    let vv = (ca.0->0, cb.0->0, cc.0->0);
    let vt = Some((ca.1->0, cb.1->0, cc.1->0));
    let vn = Some((ca.2->0, cb.2->0, cc.2->0));
    assert(spec_first_invalid(s.vertices.len() as int / 3, vv.0, vv.1, vv.2) is None);
    assert(spec_uv_plan(s.uvs.len() as int / 2, vt, opts.error_on_invalid_reference_number)
        == UvPlan::Real);
    assert(spec_vn_check(s.normals.len() as int / 3, vn) is None);
    assert(spec_add_face(s, vv, vt, vn, opts.error_on_invalid_reference_number) is Ok);
    lemma_add_face_growth(s, vv, vt, vn, opts.error_on_invalid_reference_number);
    match spec_add_face(s, vv, vt, vn, opts.error_on_invalid_reference_number) {
        Ok(r) => {
            assert(r.1 is None && r.2 is None);
            assert(record_diags(r.0, r.1, r.2) == r.0);
        },
        Err(_) => {},
    }
}

/// Fan triangulation law, fold form: from triangle `i` on, a face whose
/// corners are all fully valid commits one triangle per remaining adjacent
/// corner pair.
proof fn lemma_fan_fold_count(
    s: StateView,
    corners: Seq<Seq<char>>,
    i: int,
    opts: ObjParseOptions,
    line_num: int,
)
    requires
        s.wf(),
        1 <= i <= corners.len() - 1 || (1 <= i && corners.len() <= 1),
        forall|j: int| 0 <= j < corners.len() ==> corner_fully_valid(s, #[trigger] corners[j]),
    ensures
        spec_face_fold(s, corners, i, opts, line_num) matches Ok(s2) && ({
            &&& s2.current().geometry.position.len() == s.current().geometry.position.len() + 9 * (
            if corners.len() >= i + 2 {
                corners.len() - 1 - i
            } else {
                0
            })
            &&& s2.vertices == s.vertices
            &&& s2.normals == s.normals
            &&& s2.uvs == s.uvs
        }),
    decreases corners.len() - i,
{
    if i < 1 || i + 1 >= corners.len() {
    } else {
        lemma_valid_triangle_commits(s, corners[0], corners[i], corners[i + 1], opts, line_num);
        match spec_triangle(s, corners[0], corners[i], corners[i + 1], opts, line_num) {
            Ok(s2) => {
                assert(forall|j: int|
                    0 <= j < corners.len() ==> corner_fully_valid(s2, #[trigger] corners[j]));
                lemma_fan_fold_count(s2, corners, i + 1, opts, line_num);
            },
            Err(_) => {},
        }
    }
}

/// Fan triangulation law: a face line of `n >= 3` corners, all of whose
/// corners carry valid vertex, texture and normal references, succeeds and
/// commits exactly `n - 2` triangles to the current object: its position
/// stream grows by `9 * (n - 2)` components, three corners of three
/// components per triangle.
pub proof fn lemma_fan_triangulation(
    s: StateView,
    toks: Seq<Seq<char>>,
    line_num: int,
    opts: ObjParseOptions,
)
    requires
        s.wf(),
        toks.len() >= 4,
        forall|j: int| 1 <= j < toks.len() ==> corner_fully_valid(s, #[trigger] toks[j]),
    ensures
        spec_line_f(s, toks, line_num, opts) matches Ok(s2) && s2.current().geometry.position.len()
            == s.current().geometry.position.len() + 9 * (toks.len() - 3),
{
    let corners = toks.drop_first();
    assert(forall|j: int|
        0 <= j < corners.len() ==> corners[j] == toks[j + 1] && corner_fully_valid(
            s,
            toks[j + 1],
        ));
    lemma_fan_fold_count(s, corners, 1, opts, line_num);
}

/// Unsupported command law: a line whose command is outside the supported
/// set is skipped (and changes nothing) under the lenient configuration,
/// and rejected with its command token and line number under the strict
/// one.
pub proof fn lemma_unsupported_command(
    s: StateView,
    line: Seq<char>,
    line_num: int,
    opts: ObjParseOptions,
)
    requires
        spec_tokens(line).len() > 0,
        spec_command_of(spec_tokens(line)[0]) == ObjCommand::Unsupported,
    ensures
        spec_handle_line(s, line, line_num, opts) == (if opts.error_on_unsupported_data_types {
            Err::<StateView, ParseErrorView>(
                ParseErrorView::UnsupportedCommand { line_num, command: spec_tokens(line)[0] },
            )
        } else {
            Ok::<StateView, ParseErrorView>(s)
        }),
{
}

/// Segmentation law, first half: a naming command that reaches a current
/// object never yet declared (in particular, the first `o`/`g` of a
/// document) renames that object in place, keeping its streams and starting
/// no second object.
pub proof fn lemma_first_name_renames(s: StateView, name: Option<Seq<char>>)
    requires
        s.wf(),
        !s.current().from_declaration,
    ensures
        spec_start_object(s, name, true).objects.len() == s.objects.len(),
        spec_start_object(s, name, true).current().name == name,
        spec_start_object(s, name, true).current().from_declaration,
        spec_start_object(s, name, true).current().geometry == s.current().geometry,
{
}

/// Segmentation law, second half: a naming command that reaches a declared
/// current object leaves it as it is and starts a new empty object.
pub proof fn lemma_next_name_starts_object(s: StateView, name: Option<Seq<char>>)
    requires
        s.wf(),
        s.current().from_declaration,
    ensures
        spec_start_object(s, name, true).objects.len() == s.objects.len() + 1,
        spec_start_object(s, name, true).objects.drop_last() == s.objects,
        spec_start_object(s, name, true).current().name == name,
        spec_start_object(s, name, true).current().geometry == GeometryView::empty(),
{
    assert(spec_start_object(s, name, true).objects.drop_last() =~= s.objects);
}

/// Degenerate face law: a face line with fewer than three corners changes
/// nothing and raises no error.
pub proof fn lemma_short_face_skipped(
    s: StateView,
    toks: Seq<Seq<char>>,
    line_num: int,
    opts: ObjParseOptions,
)
    requires
        1 <= toks.len() <= 3,
    ensures
        spec_line_f(s, toks, line_num, opts) == Ok::<StateView, ParseErrorView>(s),
{
    assert(toks.drop_first().len() <= 2);
}

} // verus!
