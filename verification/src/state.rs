//! Parse state: reference pools, pending objects, and object segmentation.
//!
//! The state holds three append-only pools of raw components (positions,
//! normals, texture coordinates, populated in document order) and the list
//! of pending objects; the last object in the list is the one currently
//! receiving faces.  Components are kept as their source tokens; a consumer
//! turns them into machine numbers after parsing.

use std::collections::HashSet;
use vstd::prelude::*;

verus! {

broadcast use vstd::std_specs::hash::group_hash_axioms;

/// The pool a reference number points into, used to report which kind of
/// data an invalid reference was for.
#[derive(Clone, Copy, PartialEq, Eq, Structural, Debug)]
pub enum ObjDataType {
    /// Geometric vertices (positions).
    V,
    /// Texture vertices.
    Vt,
    /// Vertex normals.
    Vn,
}

/// The views of a sequence of strings.
pub open spec fn str_views(vs: Seq<String>) -> Seq<Seq<char>> {
    Seq::new(vs.len(), |i: int| vs[i]@)
}

/// The attribute streams of one object: flat, per-corner-duplicated
/// component tokens.  Positions and normals hold three components per
/// corner, texture coordinates two; streams grow three corners (one
/// triangle) at a time.
pub struct ObjGeometry {
    /// Position components, three per corner.
    pub position: Vec<String>,
    /// Normal components, three per corner.
    pub normal: Vec<String>,
    /// Texture coordinate components, two per corner.
    pub uv: Vec<String>,
}

/// The mathematical content of an [`ObjGeometry`].
#[verifier::ext_equal]
pub ghost struct GeometryView {
    pub position: Seq<Seq<char>>,
    pub normal: Seq<Seq<char>>,
    pub uv: Seq<Seq<char>>,
}

impl View for ObjGeometry {
    type V = GeometryView;

    open spec fn view(&self) -> GeometryView {
        GeometryView {
            position: str_views(self.position@),
            normal: str_views(self.normal@),
            uv: str_views(self.uv@),
        }
    }
}

impl GeometryView {
    /// An empty geometry.
    pub open spec fn empty() -> GeometryView {
        GeometryView { position: Seq::empty(), normal: Seq::empty(), uv: Seq::empty() }
    }
}

impl ObjGeometry {
    /// Creates an empty geometry.
    pub fn new() -> (r: Self)
        ensures
            r@ == GeometryView::empty(),
    {
        let r = ObjGeometry { position: Vec::new(), normal: Vec::new(), uv: Vec::new() };
        proof {
            assert(r@.position =~= Seq::<Seq<char>>::empty());
            assert(r@.normal =~= Seq::<Seq<char>>::empty());
            assert(r@.uv =~= Seq::<Seq<char>>::empty());
        }
        r
    }
}

/// One sub-object being assembled: an optional name, whether the object was
/// declared by an `o`/`g` command, and its attribute streams.
pub struct ObjObject {
    /// The object's name, if any.
    pub name: Option<String>,
    /// `true` once the object has been named by an `o` or `g` command.  The
    /// implicit default object that receives faces declared before any such
    /// command has this `false`.
    pub from_declaration: bool,
    /// The object's attribute streams.
    pub geometry: ObjGeometry,
}

/// The mathematical content of an [`ObjObject`].
#[verifier::ext_equal]
pub ghost struct ObjObjectView {
    pub name: Option<Seq<char>>,
    pub from_declaration: bool,
    pub geometry: GeometryView,
}

/// The view of an optional string.
pub open spec fn opt_str_view(name: Option<String>) -> Option<Seq<char>> {
    match name {
        Some(s) => Some(s@),
        None => None,
    }
}

impl View for ObjObject {
    type V = ObjObjectView;

    open spec fn view(&self) -> ObjObjectView {
        ObjObjectView {
            name: opt_str_view(self.name),
            from_declaration: self.from_declaration,
            geometry: self.geometry@,
        }
    }
}

impl ObjObject {
    /// Creates an object with empty streams.
    pub fn new(name: Option<String>, from_declaration: bool) -> (r: Self)
        ensures
            r@ == (ObjObjectView {
                name: opt_str_view(name),
                from_declaration: from_declaration,
                geometry: GeometryView::empty(),
            }),
    {
        ObjObject { name, from_declaration, geometry: ObjGeometry::new() }
    }
}

impl Default for ObjObject {
    /// The implicit default object: unnamed, not declared, empty.
    fn default() -> (r: Self)
        ensures
            r@ == (ObjObjectView {
                name: None,
                from_declaration: false,
                geometry: GeometryView::empty(),
            }),
    {
        ObjObject { name: None, from_declaration: false, geometry: ObjGeometry::new() }
    }
}

/// The views of a sequence of objects.
pub open spec fn obj_views(vs: Seq<ObjObject>) -> Seq<ObjObjectView> {
    Seq::new(vs.len(), |i: int| vs[i]@)
}

/// The whole parse state: pending objects (the last one is current), the
/// three reference pools, and the two diagnostic sets of reference numbers
/// that were defaulted under the lenient policy.
pub struct ObjParseState {
    /// Objects in creation order; the last is the one faces are added to.
    pub objects: Vec<ObjObject>,
    /// Components from `v` commands, three per entry, in document order.
    pub vertices: Vec<String>,
    /// Components from `vn` commands, three per entry, in document order.
    pub normals: Vec<String>,
    /// Components from `vt` commands, two per entry, in document order.
    pub uvs: Vec<String>,
    /// Texture reference numbers that were out of range and defaulted.
    pub default_uvs: HashSet<i32>,
    /// Normal reference numbers that were out of range and defaulted.
    pub default_normals: HashSet<i32>,
}

/// The mathematical content of an [`ObjParseState`].
#[verifier::ext_equal]
pub ghost struct StateView {
    pub objects: Seq<ObjObjectView>,
    pub vertices: Seq<Seq<char>>,
    pub normals: Seq<Seq<char>>,
    pub uvs: Seq<Seq<char>>,
    pub default_uvs: Set<i32>,
    pub default_normals: Set<i32>,
}

impl View for ObjParseState {
    type V = StateView;

    open spec fn view(&self) -> StateView {
        StateView {
            objects: obj_views(self.objects@),
            vertices: str_views(self.vertices@),
            normals: str_views(self.normals@),
            uvs: str_views(self.uvs@),
            default_uvs: self.default_uvs@,
            default_normals: self.default_normals@,
        }
    }
}

impl StateView {
    /// There is always a current object, and each pool holds whole entries.
    pub open spec fn wf(self) -> bool {
        &&& self.objects.len() >= 1
        &&& self.vertices.len() % 3 == 0
        &&& self.normals.len() % 3 == 0
        &&& self.uvs.len() % 2 == 0
    }

    /// The state at the start of a parse: one implicit default object,
    /// empty pools, empty diagnostic sets.
    pub open spec fn init() -> StateView {
        StateView {
            objects: seq![
                ObjObjectView {
                    name: None,
                    from_declaration: false,
                    geometry: GeometryView::empty(),
                },
            ],
            vertices: Seq::empty(),
            normals: Seq::empty(),
            uvs: Seq::empty(),
            default_uvs: Set::empty(),
            default_normals: Set::empty(),
        }
    }

    /// The state with `comps` appended to the current object's position
    /// stream.
    pub open spec fn with_position(self, comps: Seq<Seq<char>>) -> StateView {
        let cur = self.current();
        self.with_current(
            ObjObjectView {
                geometry: GeometryView {
                    position: cur.geometry.position + comps,
                    ..cur.geometry
                },
                ..cur
            },
        )
    }

    /// The state with `comps` appended to the current object's normal
    /// stream.
    pub open spec fn with_normal(self, comps: Seq<Seq<char>>) -> StateView {
        let cur = self.current();
        self.with_current(
            ObjObjectView {
                geometry: GeometryView { normal: cur.geometry.normal + comps, ..cur.geometry },
                ..cur
            },
        )
    }

    /// The state with `comps` appended to the current object's texture
    /// coordinate stream.
    pub open spec fn with_uv(self, comps: Seq<Seq<char>>) -> StateView {
        let cur = self.current();
        self.with_current(
            ObjObjectView {
                geometry: GeometryView { uv: cur.geometry.uv + comps, ..cur.geometry },
                ..cur
            },
        )
    }

    /// The current object: the last in creation order.
    pub open spec fn current(self) -> ObjObjectView {
        self.objects.last()
    }

    /// The state with the current object replaced by `o`.
    pub open spec fn with_current(self, o: ObjObjectView) -> StateView {
        StateView { objects: self.objects.update(self.objects.len() - 1, o), ..self }
    }
}

/// Applies the naming rule of the `o`/`g` commands: a current object that
/// was never declared is renamed in place (so the first such command names
/// the implicit default object); a declared one is left as it is and a new
/// empty object is started.
pub open spec fn spec_start_object(
    s: StateView,
    name: Option<Seq<char>>,
    from_declaration: bool,
) -> StateView {
    let cur = s.current();
    if !cur.from_declaration {
        s.with_current(
            ObjObjectView { name: name, from_declaration: from_declaration, ..cur },
        )
    } else {
        StateView {
            objects: s.objects.push(
                ObjObjectView {
                    name: name,
                    from_declaration: from_declaration,
                    geometry: GeometryView::empty(),
                },
            ),
            ..s
        }
    }
}

/// Resolves a reference number against a pool of `count` entries: a positive
/// `r` names entry `r - 1`, while `r <= 0` counts back from the end of the
/// pool as it is at the moment of resolution.
pub open spec fn spec_resolve(count: int, r: int) -> int {
    if r > 0 {
        r - 1
    } else {
        count + r
    }
}

/// The reference resolves to an entry that exists.
pub open spec fn ref_ok(count: int, r: int) -> bool {
    0 <= spec_resolve(count, r) < count
}

/// The first of the three reference numbers that does not resolve, if any.
pub open spec fn spec_first_invalid(count: int, r1: i32, r2: i32, r3: i32) -> Option<i32> {
    if !ref_ok(count, r1 as int) {
        Some(r1)
    } else if !ref_ok(count, r2 as int) {
        Some(r2)
    } else if !ref_ok(count, r3 as int) {
        Some(r3)
    } else {
        None
    }
}

/// The components of entry `e` of a pool with `stride` components per entry.
pub open spec fn entry_comps(pool: Seq<Seq<char>>, stride: int, e: int) -> Seq<Seq<char>> {
    pool.subrange(stride * e, stride * e + stride)
}

/// Resolves `reference_number` against a pool of `len` components in entries
/// of `stride`; returns the component offset of the entry's first component,
/// or `None` where the reference is out of range.
fn resolve_in_pool(len: usize, stride: usize, reference_number: i32) -> (r: Option<usize>)
    requires
        stride == 2 || stride == 3,
        len % stride == 0,
    ensures
        ({
            let count = len as int / stride as int;
            match r {
                Some(off) => ref_ok(count, reference_number as int) && off == stride as int
                    * spec_resolve(count, reference_number as int),
                None => !ref_ok(count, reference_number as int),
            }
        }),
{
    let count = len / stride;
    if reference_number > 0 {
        let e = (reference_number - 1) as usize;
        if e < count {
            Some(stride * e)
        } else {
            None
        }
    } else {
        let e = count as i64 + reference_number as i64;
        if 0 <= e && e < count as i64 {
            Some(stride * (e as usize))
        } else {
            None
        }
    }
}

impl ObjParseState {
    /// Creates the state for one parse: the implicit default object and
    /// empty pools.
    pub fn new() -> (r: Self)
        ensures
            r@ == StateView::init(),
            r@.wf(),
    {
        let mut objects: Vec<ObjObject> = Vec::new();
        objects.push(ObjObject::default());
        let r = ObjParseState {
            objects,
            vertices: Vec::new(),
            normals: Vec::new(),
            uvs: Vec::new(),
            default_uvs: HashSet::new(),
            default_normals: HashSet::new(),
        };
        proof {
            assert(r@.objects =~= StateView::init().objects);
            assert(r@.vertices =~= Seq::<Seq<char>>::empty());
            assert(r@.normals =~= Seq::<Seq<char>>::empty());
            assert(r@.uvs =~= Seq::<Seq<char>>::empty());
            assert(r@ =~= StateView::init());
        }
        r
    }

    /// Applies an `o`/`g` command, per [`spec_start_object`].
    pub fn start_object(&mut self, name: Option<String>, from_declaration: bool)
        requires
            old(self)@.wf(),
        ensures
            final(self)@ == spec_start_object(old(self)@, opt_str_view(name), from_declaration),
            final(self)@.wf(),
    {
        let last = self.objects.len() - 1;
        if !self.objects[last].from_declaration {
            let mut cur = self.objects.pop().unwrap();
            cur.name = name;
            cur.from_declaration = from_declaration;
            self.objects.push(cur);
            proof {
                assert(obj_views(self.objects@) =~= spec_start_object(
                    old(self)@,
                    opt_str_view(name),
                    from_declaration,
                ).objects);
                assert(final(self)@ =~= spec_start_object(
                    old(self)@,
                    opt_str_view(name),
                    from_declaration,
                ));
            }
        } else {
            self.objects.push(ObjObject::new(name, from_declaration));
            proof {
                assert(obj_views(self.objects@) =~= spec_start_object(
                    old(self)@,
                    opt_str_view(name),
                    from_declaration,
                ).objects);
                assert(final(self)@ =~= spec_start_object(
                    old(self)@,
                    opt_str_view(name),
                    from_declaration,
                ));
            }
        }
    }

    /// A hook run when the current object stops receiving data; nothing to
    /// do for the data kept here.
    pub fn finalize(&self) {
    }

    /// Converts a vertex reference number to the component offset of its
    /// entry in the position pool, or `None` where it is out of range.
    pub fn vertex_reference_to_index(&self, reference_number: i32) -> (r: Option<usize>)
        requires
            self@.wf(),
        ensures
            ({
                let count = self@.vertices.len() as int / 3;
                match r {
                    Some(off) => ref_ok(count, reference_number as int) && off == 3 * spec_resolve(
                        count,
                        reference_number as int,
                    ),
                    None => !ref_ok(count, reference_number as int),
                }
            }),
    {
        resolve_in_pool(self.vertices.len(), 3, reference_number)
    }

    /// Converts a normal reference number to the component offset of its
    /// entry in the normal pool, or `None` where it is out of range.
    pub fn normal_reference_to_index(&self, reference_number: i32) -> (r: Option<usize>)
        requires
            self@.wf(),
        ensures
            ({
                let count = self@.normals.len() as int / 3;
                match r {
                    Some(off) => ref_ok(count, reference_number as int) && off == 3 * spec_resolve(
                        count,
                        reference_number as int,
                    ),
                    None => !ref_ok(count, reference_number as int),
                }
            }),
    {
        resolve_in_pool(self.normals.len(), 3, reference_number)
    }

    /// Converts a texture reference number to the component offset of its
    /// entry in the texture coordinate pool, or `None` where it is out of
    /// range.
    pub fn uv_reference_to_index(&self, reference_number: i32) -> (r: Option<usize>)
        requires
            self@.wf(),
        ensures
            ({
                let count = self@.uvs.len() as int / 2;
                match r {
                    Some(off) => ref_ok(count, reference_number as int) && off == 2 * spec_resolve(
                        count,
                        reference_number as int,
                    ),
                    None => !ref_ok(count, reference_number as int),
                }
            }),
    {
        resolve_in_pool(self.uvs.len(), 2, reference_number)
    }
}

/// The token of the default texture coordinate component (the number zero).
pub open spec fn zero_comp() -> Seq<char> {
    seq!['0']
}

/// The six texture coordinate components of a triangle whose corners all
/// fall back to the default coordinate pair.
pub open spec fn default_uv_comps() -> Seq<Seq<char>> {
    seq![zero_comp(), zero_comp(), zero_comp(), zero_comp(), zero_comp(), zero_comp()]
}

/// The components of three resolved entries of a pool, in corner order.
pub open spec fn triple_comps(
    pool: Seq<Seq<char>>,
    stride: int,
    count: int,
    r1: i32,
    r2: i32,
    r3: i32,
) -> Seq<Seq<char>> {
    entry_comps(pool, stride, spec_resolve(count, r1 as int)) + entry_comps(
        pool,
        stride,
        spec_resolve(count, r2 as int),
    ) + entry_comps(pool, stride, spec_resolve(count, r3 as int))
}

/// Appending three position components to the pool.
pub open spec fn spec_append_position(s: StateView, x: Seq<char>, y: Seq<char>, z: Seq<char>) -> StateView {
    StateView { vertices: s.vertices + seq![x, y, z], ..s }
}

/// Appending three normal components to the pool.
pub open spec fn spec_append_normal(s: StateView, x: Seq<char>, y: Seq<char>, z: Seq<char>) -> StateView {
    StateView { normals: s.normals + seq![x, y, z], ..s }
}

/// Appending two texture coordinate components to the pool.
pub open spec fn spec_append_uv(s: StateView, u: Seq<char>, v: Seq<char>) -> StateView {
    StateView { uvs: s.uvs + seq![u, v], ..s }
}

/// What adding three vertices by reference number does: the first reference
/// that does not resolve is the error; otherwise the nine components of the
/// three entries extend the current object's position stream.
pub open spec fn spec_add_vertex(s: StateView, v1: i32, v2: i32, v3: i32) -> Result<StateView, i32> {
    let count = s.vertices.len() as int / 3;
    match spec_first_invalid(count, v1, v2, v3) {
        Some(bad) => Err(bad),
        None => Ok(s.with_position(triple_comps(s.vertices, 3, count, v1, v2, v3))),
    }
}

/// What adding three normals by reference number does, as for vertices.
pub open spec fn spec_add_normal(s: StateView, n1: i32, n2: i32, n3: i32) -> Result<StateView, i32> {
    let count = s.normals.len() as int / 3;
    match spec_first_invalid(count, n1, n2, n3) {
        Some(bad) => Err(bad),
        None => Ok(s.with_normal(triple_comps(s.normals, 3, count, n1, n2, n3))),
    }
}

/// What adding three texture coordinate pairs by reference number does, as
/// for vertices but with two components per entry.
pub open spec fn spec_add_uv(s: StateView, t1: i32, t2: i32, t3: i32) -> Result<StateView, i32> {
    let count = s.uvs.len() as int / 2;
    match spec_first_invalid(count, t1, t2, t3) {
        Some(bad) => Err(bad),
        None => Ok(s.with_uv(triple_comps(s.uvs, 2, count, t1, t2, t3))),
    }
}

/// How a triangle's texture coordinates are settled.
pub ghost enum UvPlan {
    /// All three corners supplied a reference that resolves: use the pool
    /// entries.
    Real,
    /// Fall back to the default pair for all three corners, recording the
    /// offending reference number if the fallback was caused by one.
    Default { diag: Option<i32> },
    /// Abort with the offending reference number (strict configuration).
    Fail { bad: i32 },
}

/// Settles a triangle's texture coordinates: corners that did not all
/// supply a reference fall back to the default silently; a reference out of
/// range is fatal under the strict configuration and defaulted-and-recorded
/// otherwise.
pub open spec fn spec_uv_plan(count: int, vt: Option<(i32, i32, i32)>, strict: bool) -> UvPlan {
    match vt {
        None => UvPlan::Default { diag: None },
        Some(t) => match spec_first_invalid(count, t.0, t.1, t.2) {
            None => UvPlan::Real,
            Some(bad) => if strict {
                UvPlan::Fail { bad }
            } else {
                UvPlan::Default { diag: Some(bad) }
            },
        },
    }
}

/// Settles a triangle's normals: `Some` is the reference number to fail
/// with.  No face normal is synthesized, so corners that did not all supply
/// a normal reference are fatal (reported with reference number zero, which
/// no corner can carry), and a reference out of range is fatal under either
/// configuration.
pub open spec fn spec_vn_check(count: int, vn: Option<(i32, i32, i32)>) -> Option<i32> {
    match vn {
        None => Some(0),
        Some(t) => spec_first_invalid(count, t.0, t.1, t.2),
    }
}

/// What adding one triangle to the current object does.  The vertex
/// references are checked first (an unresolvable one is always fatal), then
/// the texture plan, then the normals; only when nothing is fatal are the
/// three streams extended, together.  Returns the new state and the
/// texture/normal reference numbers that were defaulted, or the data type
/// and reference number of the failure.
pub open spec fn spec_add_face(
    s: StateView,
    v: (i32, i32, i32),
    vt: Option<(i32, i32, i32)>,
    vn: Option<(i32, i32, i32)>,
    error_on_invalid_reference_number: bool,
) -> Result<(StateView, Option<i32>, Option<i32>), (ObjDataType, i32)> {
    let vcount = s.vertices.len() as int / 3;
    let tcount = s.uvs.len() as int / 2;
    let ncount = s.normals.len() as int / 3;
    match spec_first_invalid(vcount, v.0, v.1, v.2) {
        Some(bad) => Err((ObjDataType::V, bad)),
        None => match spec_uv_plan(tcount, vt, error_on_invalid_reference_number) {
            UvPlan::Fail { bad } => Err((ObjDataType::Vt, bad)),
            uv_plan => match spec_vn_check(ncount, vn) {
                Some(bad) => Err((ObjDataType::Vn, bad)),
                None => {
                    let s1 = s.with_position(triple_comps(s.vertices, 3, vcount, v.0, v.1, v.2));
                    let s2 = match (uv_plan, vt) {
                        (UvPlan::Real, Some(t)) => s1.with_uv(
                            triple_comps(s.uvs, 2, tcount, t.0, t.1, t.2),
                        ),
                        _ => s1.with_uv(default_uv_comps()),
                    };
                    let s3 = match vn {
                        Some(t) => s2.with_normal(
                            triple_comps(s.normals, 3, ncount, t.0, t.1, t.2),
                        ),
                        None => s2,
                    };
                    let diag = match uv_plan {
                        UvPlan::Default { diag } => diag,
                        _ => None,
                    };
                    Ok((s3, diag, None))
                },
            },
        },
    }
}

proof fn lemma_str_views_push(vs: Seq<String>, x: String)
    ensures
        str_views(vs.push(x)) =~= str_views(vs) + seq![x@],
{
}

proof fn lemma_obj_views_set_last(vs: Seq<ObjObject>, o: ObjObject)
    requires
        vs.len() >= 1,
    ensures
        obj_views(vs.drop_last().push(o)) =~= obj_views(vs).update(vs.len() as int - 1, o@),
{
}

/// The token of the default texture coordinate component.
fn zero_token() -> (r: String)
    ensures
        r@ == zero_comp(),
{
    proof {
        reveal_strlit("0");
    }
    "0".to_owned()
}

/// Appends the `stride` components of the pool entry starting at `off` to
/// `dst`.
fn append_entry(dst: &mut Vec<String>, pool: &Vec<String>, off: usize, stride: usize)
    requires
        off + stride <= pool.len(),
    ensures
        str_views(final(dst)@) == str_views(old(dst)@) + str_views(pool@).subrange(
            off as int,
            off as int + stride as int,
        ),
{
    let mut j: usize = 0;
    while j < stride
        invariant
            j <= stride,
            off + stride <= pool.len(),
            str_views(dst@) =~= str_views(old(dst)@) + str_views(pool@).subrange(
                off as int,
                off + j,
            ),
        decreases stride - j,
    {
        let s = pool[off + j].clone();
        proof {
            lemma_str_views_push(dst@, s);
            assert(str_views(pool@).subrange(off as int, off + j + 1) =~= str_views(
                pool@,
            ).subrange(off as int, off + j) + seq![s@]);
        }
        dst.push(s);
        j = j + 1;
    }
    proof {
        assert(str_views(dst@) =~= str_views(old(dst)@) + str_views(pool@).subrange(
            off as int,
            off as int + stride as int,
        ));
    }
}

impl ObjParseState {
    /// Appends one entry (three components) to the position pool, per a `v`
    /// command.
    pub fn append_position(&mut self, x: String, y: String, z: String)
        requires
            old(self)@.wf(),
        ensures
            final(self)@ == spec_append_position(old(self)@, x@, y@, z@),
            final(self)@.wf(),
    {
        let ghost pre = self.vertices@;
        proof {
            lemma_str_views_push(pre, x);
            lemma_str_views_push(pre.push(x), y);
            lemma_str_views_push(pre.push(x).push(y), z);
        }
        self.vertices.push(x);
        self.vertices.push(y);
        self.vertices.push(z);
        proof {
            assert(str_views(self.vertices@) =~= str_views(pre) + seq![x@, y@, z@]);
            assert(final(self)@ =~~= spec_append_position(old(self)@, x@, y@, z@));
        }
    }

    /// Appends one entry (three components) to the normal pool, per a `vn`
    /// command.
    pub fn append_normal(&mut self, x: String, y: String, z: String)
        requires
            old(self)@.wf(),
        ensures
            final(self)@ == spec_append_normal(old(self)@, x@, y@, z@),
            final(self)@.wf(),
    {
        let ghost pre = self.normals@;
        proof {
            lemma_str_views_push(pre, x);
            lemma_str_views_push(pre.push(x), y);
            lemma_str_views_push(pre.push(x).push(y), z);
        }
        self.normals.push(x);
        self.normals.push(y);
        self.normals.push(z);
        proof {
            assert(str_views(self.normals@) =~= str_views(pre) + seq![x@, y@, z@]);
            assert(final(self)@ =~~= spec_append_normal(old(self)@, x@, y@, z@));
        }
    }

    /// Appends one entry (two components) to the texture coordinate pool,
    /// per a `vt` command.
    pub fn append_uv(&mut self, u: String, v: String)
        requires
            old(self)@.wf(),
        ensures
            final(self)@ == spec_append_uv(old(self)@, u@, v@),
            final(self)@.wf(),
    {
        let ghost pre = self.uvs@;
        proof {
            lemma_str_views_push(pre, u);
            lemma_str_views_push(pre.push(u), v);
        }
        self.uvs.push(u);
        self.uvs.push(v);
        proof {
            assert(str_views(self.uvs@) =~= str_views(pre) + seq![u@, v@]);
            assert(final(self)@ =~~= spec_append_uv(old(self)@, u@, v@));
        }
    }

    /// Adds three vertices to the current object by reference number, per
    /// [`spec_add_vertex`]: all three are checked before any component is
    /// appended.
    pub fn add_vertex(&mut self, v1: i32, v2: i32, v3: i32) -> (r: Result<(), i32>)
        requires
            old(self)@.wf(),
        ensures
            final(self)@.wf(),
            ({
                match spec_add_vertex(old(self)@, v1, v2, v3) {
                    Ok(post) => r is Ok && final(self)@ == post,
                    Err(bad) => r == Err::<(), i32>(bad) && final(self)@ == old(self)@,
                }
            }),
    {
        let o1 = self.vertex_reference_to_index(v1);
        let o2 = self.vertex_reference_to_index(v2);
        let o3 = self.vertex_reference_to_index(v3);
        match (o1, o2, o3) {
            (Some(a), Some(b), Some(c)) => {
                let mut obj = self.objects.pop().unwrap();
                let ghost pre_pos = obj.geometry.position@;
                append_entry(&mut obj.geometry.position, &self.vertices, a, 3);
                append_entry(&mut obj.geometry.position, &self.vertices, b, 3);
                append_entry(&mut obj.geometry.position, &self.vertices, c, 3);
                proof {
                    let count = old(self)@.vertices.len() as int / 3;
                    assert(str_views(obj.geometry.position@) =~= str_views(pre_pos)
                        + triple_comps(old(self)@.vertices, 3, count, v1, v2, v3));
                    lemma_obj_views_set_last(old(self).objects@, obj);
                }
                self.objects.push(obj);
                proof {
                    let spec_post = spec_add_vertex(old(self)@, v1, v2, v3)->Ok_0;
                    assert(final(self)@.objects =~~= spec_post.objects);
                    assert(final(self)@ =~~= spec_post);
                }
                Ok(())
            },
            _ => {
                if o1.is_none() {
                    Err(v1)
                } else if o2.is_none() {
                    Err(v2)
                } else {
                    Err(v3)
                }
            },
        }
    }

    /// Adds three normals to the current object by reference number, per
    /// [`spec_add_normal`].
    pub fn add_normal(&mut self, n1: i32, n2: i32, n3: i32) -> (r: Result<(), i32>)
        requires
            old(self)@.wf(),
        ensures
            final(self)@.wf(),
            ({
                match spec_add_normal(old(self)@, n1, n2, n3) {
                    Ok(post) => r is Ok && final(self)@ == post,
                    Err(bad) => r == Err::<(), i32>(bad) && final(self)@ == old(self)@,
                }
            }),
    {
        let o1 = self.normal_reference_to_index(n1);
        let o2 = self.normal_reference_to_index(n2);
        let o3 = self.normal_reference_to_index(n3);
        match (o1, o2, o3) {
            (Some(a), Some(b), Some(c)) => {
                let mut obj = self.objects.pop().unwrap();
                let ghost pre = obj.geometry.normal@;
                append_entry(&mut obj.geometry.normal, &self.normals, a, 3);
                append_entry(&mut obj.geometry.normal, &self.normals, b, 3);
                append_entry(&mut obj.geometry.normal, &self.normals, c, 3);
                proof {
                    let count = old(self)@.normals.len() as int / 3;
                    assert(str_views(obj.geometry.normal@) =~= str_views(pre) + triple_comps(
                        old(self)@.normals,
                        3,
                        count,
                        n1,
                        n2,
                        n3,
                    ));
                    lemma_obj_views_set_last(old(self).objects@, obj);
                }
                self.objects.push(obj);
                proof {
                    let spec_post = spec_add_normal(old(self)@, n1, n2, n3)->Ok_0;
                    assert(final(self)@.objects =~~= spec_post.objects);
                    assert(final(self)@ =~~= spec_post);
                }
                Ok(())
            },
            _ => {
                if o1.is_none() {
                    Err(n1)
                } else if o2.is_none() {
                    Err(n2)
                } else {
                    Err(n3)
                }
            },
        }
    }

    /// Adds three texture coordinate pairs to the current object by
    /// reference number, per [`spec_add_uv`].
    pub fn add_uv(&mut self, t1: i32, t2: i32, t3: i32) -> (r: Result<(), i32>)
        requires
            old(self)@.wf(),
        ensures
            final(self)@.wf(),
            ({
                match spec_add_uv(old(self)@, t1, t2, t3) {
                    Ok(post) => r is Ok && final(self)@ == post,
                    Err(bad) => r == Err::<(), i32>(bad) && final(self)@ == old(self)@,
                }
            }),
    {
        let o1 = self.uv_reference_to_index(t1);
        let o2 = self.uv_reference_to_index(t2);
        let o3 = self.uv_reference_to_index(t3);
        match (o1, o2, o3) {
            (Some(a), Some(b), Some(c)) => {
                let mut obj = self.objects.pop().unwrap();
                let ghost pre = obj.geometry.uv@;
                append_entry(&mut obj.geometry.uv, &self.uvs, a, 2);
                append_entry(&mut obj.geometry.uv, &self.uvs, b, 2);
                append_entry(&mut obj.geometry.uv, &self.uvs, c, 2);
                proof {
                    let count = old(self)@.uvs.len() as int / 2;
                    assert(str_views(obj.geometry.uv@) =~= str_views(pre) + triple_comps(
                        old(self)@.uvs,
                        2,
                        count,
                        t1,
                        t2,
                        t3,
                    ));
                    lemma_obj_views_set_last(old(self).objects@, obj);
                }
                self.objects.push(obj);
                proof {
                    let spec_post = spec_add_uv(old(self)@, t1, t2, t3)->Ok_0;
                    assert(final(self)@.objects =~~= spec_post.objects);
                    assert(final(self)@ =~~= spec_post);
                }
                Ok(())
            },
            _ => {
                if o1.is_none() {
                    Err(t1)
                } else if o2.is_none() {
                    Err(t2)
                } else {
                    Err(t3)
                }
            },
        }
    }

    /// Adds the default texture coordinate pair for all three corners of a
    /// triangle to the current object.
    pub fn add_default_uv(&mut self)
        requires
            old(self)@.wf(),
        ensures
            final(self)@.wf(),
            final(self)@ == old(self)@.with_uv(default_uv_comps()),
    {
        let mut obj = self.objects.pop().unwrap();
        let ghost pre = obj.geometry.uv@;
        obj.geometry.uv.push(zero_token());
        obj.geometry.uv.push(zero_token());
        obj.geometry.uv.push(zero_token());
        obj.geometry.uv.push(zero_token());
        obj.geometry.uv.push(zero_token());
        obj.geometry.uv.push(zero_token());
        proof {
            assert(str_views(obj.geometry.uv@) =~= str_views(pre) + default_uv_comps());
            lemma_obj_views_set_last(old(self).objects@, obj);
        }
        self.objects.push(obj);
        proof {
            assert(final(self)@.objects =~~= old(self)@.with_uv(default_uv_comps()).objects);
            assert(final(self)@ =~~= old(self)@.with_uv(default_uv_comps()));
        }
    }

    /// Adds a triangle to the current object, per [`spec_add_face`]: checks
    /// everything first and extends the three attribute streams together, so
    /// that a fatal reference leaves the state untouched.
    pub fn add_face(
        &mut self,
        v: (i32, i32, i32),
        vt: Option<(i32, i32, i32)>,
        vn: Option<(i32, i32, i32)>,
        error_on_invalid_reference_number: bool,
    ) -> (r: Result<(Option<i32>, Option<i32>), (ObjDataType, i32)>)
        requires
            old(self)@.wf(),
        ensures
            final(self)@.wf(),
            ({
                match spec_add_face(old(self)@, v, vt, vn, error_on_invalid_reference_number) {
                    Ok((post, diag_vt, diag_vn)) => r == Ok::<_, (ObjDataType, i32)>(
                        (diag_vt, diag_vn),
                    ) && final(self)@ == post,
                    Err(e) => r == Err::<(Option<i32>, Option<i32>), _>(e) && final(self)@ == old(
                        self,
                    )@,
                }
            }),
    {
        // Vertex component: an unresolvable reference is always fatal.
        if self.vertex_reference_to_index(v.0).is_none() {
            return Err((ObjDataType::V, v.0));
        }
        if self.vertex_reference_to_index(v.1).is_none() {
            return Err((ObjDataType::V, v.1));
        }
        if self.vertex_reference_to_index(v.2).is_none() {
            return Err((ObjDataType::V, v.2));
        }
        // Texture component: settle the plan without touching the streams.
        let mut uv_diag: Option<i32> = None;
        let mut uv_from: Option<(i32, i32, i32)> = None;
        match vt {
            Some(t) => {
                let bad = if self.uv_reference_to_index(t.0).is_none() {
                    Some(t.0)
                } else if self.uv_reference_to_index(t.1).is_none() {
                    Some(t.1)
                } else if self.uv_reference_to_index(t.2).is_none() {
                    Some(t.2)
                } else {
                    None
                };
                match bad {
                    Some(b) => {
                        if error_on_invalid_reference_number {
                            return Err((ObjDataType::Vt, b));
                        }
                        uv_diag = Some(b);
                    },
                    None => {
                        uv_from = Some(t);
                    },
                }
            },
            None => {},
        }
        // Normal component: no face normal is synthesized, so a missing or
        // unresolvable normal triplet is fatal under either configuration.
        let n = match vn {
            None => {
                return Err((ObjDataType::Vn, 0));
            },
            Some(t) => {
                if self.normal_reference_to_index(t.0).is_none() {
                    return Err((ObjDataType::Vn, t.0));
                }
                if self.normal_reference_to_index(t.1).is_none() {
                    return Err((ObjDataType::Vn, t.1));
                }
                if self.normal_reference_to_index(t.2).is_none() {
                    return Err((ObjDataType::Vn, t.2));
                }
                t
            },
        };
        // Commit: nothing below can fail, so the three streams are extended
        // together.
        let rv = self.add_vertex(v.0, v.1, v.2);
        proof {
            assert(rv is Ok);
        }
        match uv_from {
            Some(t) => {
                let rt = self.add_uv(t.0, t.1, t.2);
                proof {
                    assert(rt is Ok);
                }
            },
            None => {
                self.add_default_uv();
            },
        }
        let rn = self.add_normal(n.0, n.1, n.2);
        proof {
            assert(rn is Ok);
        }
        Ok((uv_diag, None))
    }
}

} // verus!
