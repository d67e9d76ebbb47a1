//! A plain-value model of Rust type expressions, the textual classifier over
//! it, and substitution of generic parameters.
use vstd::prelude::*;
use crate::text::{append_str, copy_opt, opt_view, owned, push_char, texts, text_eq};

verus! {

/// A type expression as written in source text.
pub enum TypeExpr {
    /// A path such as `Vec<T>` or `std::vec::Vec<T>`.
    Path { leading_colon: bool, segments: Vec<PathSegment> },
    /// `&T`, `&'a mut T`.
    Reference { lifetime: Option<String>, mutable: bool, elem: Box<TypeExpr> },
    /// `[T]`.
    Slice { elem: Box<TypeExpr> },
    /// `[T; N]`, with the length kept as written.
    Array { elem: Box<TypeExpr>, len: String },
    /// `(A, B, ...)`.
    Tuple { elems: Vec<TypeExpr> },
    /// Any other form (function pointers, trait objects, qualified paths),
    /// kept as written.
    Verbatim { text: String },
}

/// One segment of a path: an identifier and its arguments.
pub struct PathSegment {
    pub ident: String,
    pub args: PathArgs,
}

/// The arguments of a path segment.
pub enum PathArgs {
    Bare,
    /// `<A, B>`; a lifetime or a constant argument stands as `Verbatim`.
    Angle { args: Vec<TypeExpr> },
    /// `(A, B) -> C`, kept as written.
    Parenthesized { text: String },
}

/// The mathematical value of a `TypeExpr`.
pub enum TypeModel {
    Path(bool, Seq<SegmentModel>),
    Reference(Option<Seq<char>>, bool, Box<TypeModel>),
    Slice(Box<TypeModel>),
    Array(Box<TypeModel>, Seq<char>),
    Tuple(Seq<TypeModel>),
    Verbatim(Seq<char>),
}

pub struct SegmentModel {
    pub ident: Seq<char>,
    pub args: ArgsModel,
}

pub enum ArgsModel {
    Bare,
    Angle(Seq<TypeModel>),
    Parenthesized(Seq<char>),
}

impl TypeExpr {
    pub open spec fn model(self) -> TypeModel
        decreases self,
    {
        match self {
            TypeExpr::Path { leading_colon, segments } => TypeModel::Path(
                leading_colon,
                segment_models(segments@),
            ),
            TypeExpr::Reference { lifetime, mutable, elem } => TypeModel::Reference(
                opt_view(lifetime),
                mutable,
                Box::new((*elem).model()),
            ),
            TypeExpr::Slice { elem } => TypeModel::Slice(Box::new((*elem).model())),
            TypeExpr::Array { elem, len } => TypeModel::Array(Box::new((*elem).model()), len@),
            TypeExpr::Tuple { elems } => TypeModel::Tuple(
                type_models(elems@),
            ),
            TypeExpr::Verbatim { text } => TypeModel::Verbatim(text@),
        }
    }
}

/// The models of a list of type expressions.
pub open spec fn type_models(v: Seq<TypeExpr>) -> Seq<TypeModel>
    decreases v,
{
    Seq::new(v.len(), |i: int| if 0 <= i < v.len() { v[i].model() } else { arbitrary() })
}

/// The models of a list of path segments.
pub open spec fn segment_models(v: Seq<PathSegment>) -> Seq<SegmentModel>
    decreases v,
{
    Seq::new(v.len(), |i: int| if 0 <= i < v.len() { v[i].model() } else { arbitrary() })
}

impl PathSegment {
    pub open spec fn model(self) -> SegmentModel
        decreases self,
    {
        SegmentModel { ident: self.ident@, args: self.args.model() }
    }
}

impl PathArgs {
    pub open spec fn model(self) -> ArgsModel
        decreases self,
    {
        match self {
            PathArgs::Bare => ArgsModel::Bare,
            PathArgs::Angle { args } => ArgsModel::Angle(
                type_models(args@),
            ),
            PathArgs::Parenthesized { text } => ArgsModel::Parenthesized(text@),
        }
    }
}


/// The first position of `x` in `s`, or -1.
pub open spec fn position_of(s: Seq<Seq<char>>, x: Seq<char>) -> int
    decreases s.len(),
{
    if s.len() == 0 {
        -1
    } else {
        let r = position_of(s.drop_last(), x);
        if r >= 0 {
            r
        } else if s.last() == x {
            s.len() - 1
        } else {
            -1
        }
    }
}

pub proof fn lemma_position_of_bounds(s: Seq<Seq<char>>, x: Seq<char>)
    ensures
        -1 <= position_of(s, x) < s.len(),
        position_of(s, x) >= 0 ==> s[position_of(s, x)] == x,
        position_of(s, x) < 0 ==> forall|k: int| 0 <= k < s.len() ==> s[k] != x,
    decreases s.len(),
{
    if s.len() > 0 {
        lemma_position_of_bounds(s.drop_last(), x);
        assert(forall|k: int| 0 <= k < s.len() - 1 ==> s.drop_last()[k] == s[k]);
    }
}

/// Substitution of the generic parameters `params` by `concretes` in `t`:
/// a bare one-segment path naming a parameter that has a concrete type is
/// replaced; every other form is rebuilt around its substituted parts, and
/// function types, trait objects and the like are kept as they are.
pub open spec fn subst(t: TypeModel, params: Seq<Seq<char>>, concretes: Seq<TypeModel>) -> TypeModel
    decreases t,
{
    match t {
        TypeModel::Path(lc, segs) => {
            let k = if segs.len() == 1 && segs[0].args is Bare {
                position_of(params, segs[0].ident)
            } else {
                -1
            };
            if 0 <= k < concretes.len() {
                concretes[k]
            } else {
                TypeModel::Path(lc, subst_segments(segs, params, concretes))
            }
        },
        TypeModel::Reference(lt, m, e) => TypeModel::Reference(
            lt,
            m,
            Box::new(subst(*e, params, concretes)),
        ),
        TypeModel::Slice(e) => TypeModel::Slice(Box::new(subst(*e, params, concretes))),
        TypeModel::Array(e, n) => TypeModel::Array(Box::new(subst(*e, params, concretes)), n),
        TypeModel::Tuple(es) => TypeModel::Tuple(subst_all(es, params, concretes)),
        TypeModel::Verbatim(x) => TypeModel::Verbatim(x),
    }
}

/// Substitution in each type of a list.
pub open spec fn subst_all(ts: Seq<TypeModel>, params: Seq<Seq<char>>, concretes: Seq<TypeModel>) -> Seq<TypeModel>
    decreases ts,
{
    Seq::new(
        ts.len(),
        |i: int| if 0 <= i < ts.len() { subst(ts[i], params, concretes) } else { arbitrary() },
    )
}

/// Substitution in the angle-bracketed arguments of one segment.
pub open spec fn subst_segment(sg: SegmentModel, params: Seq<Seq<char>>, concretes: Seq<TypeModel>) -> SegmentModel
    decreases sg,
{
    SegmentModel {
        ident: sg.ident,
        args: match sg.args {
            ArgsModel::Angle(a) => ArgsModel::Angle(subst_all(a, params, concretes)),
            other => other,
        },
    }
}

/// Substitution in each segment of a path.
pub open spec fn subst_segments(segs: Seq<SegmentModel>, params: Seq<Seq<char>>, concretes: Seq<TypeModel>) -> Seq<SegmentModel>
    decreases segs,
{
    Seq::new(
        segs.len(),
        |i: int| if 0 <= i < segs.len() { subst_segment(segs[i], params, concretes) } else { arbitrary() },
    )
}

/// The position of `x` among `params`.
fn find_param(params: &[String], x: &String) -> (r: Option<usize>)
    ensures
        match r {
            Some(k) => k == position_of(texts(params@), x@),
            None => position_of(texts(params@), x@) < 0,
        },
{
    let ghost ps = texts(params@);
    let mut pos: Option<usize> = None;
    let mut i: usize = 0;
    while i < params.len()
        invariant
            i <= params.len(),
            ps == texts(params@),
            match pos {
                Some(k) => k == position_of(ps.subrange(0, i as int), x@),
                None => position_of(ps.subrange(0, i as int), x@) < 0,
            },
        decreases params.len() - i,
    {
        proof {
            assert(ps.subrange(0, i + 1).drop_last() =~= ps.subrange(0, i as int));
        }
        if pos.is_none() && text_eq(params[i].as_str(), x.as_str()) {
            pos = Some(i);
        }
        i = i + 1;
    }
    proof {
        assert(ps.subrange(0, params.len() as int) =~= ps);
    }
    pos
}

/// Replaces the generic parameters named in `generic_params` by the type at
/// the same position of `concrete_types`, throughout `ty`.
pub fn substitute_type(ty: &TypeExpr, generic_params: &[String], concrete_types: &[TypeExpr]) -> (r: TypeExpr)
    ensures
        r.model() == subst(ty.model(), texts(generic_params@), type_models(concrete_types@)),
    decreases ty,
{
    let ghost ps = texts(generic_params@);
    let ghost cs = type_models(concrete_types@);
    match ty {
        TypeExpr::Path { leading_colon, segments } => {
            if segments.len() == 1 {
                if let PathArgs::Bare = &segments[0].args {
                    let found = find_param(generic_params, &segments[0].ident);
                    if let Some(k) = found {
                    if k < concrete_types.len() {
                        proof {
                            assert(segment_models(segments@)[0] == segments@[0].model());
                            assert(cs[k as int] == concrete_types@[k as int].model());
                        }
                        return concrete_types[k].copy();
                    }
                    }
                }
            }
            let mut out: Vec<PathSegment> = Vec::new();
            let mut i: usize = 0;
            while i < segments.len()
                invariant
                    *ty == (TypeExpr::Path { leading_colon: *leading_colon, segments: *segments }),
                    ps == texts(generic_params@),
                    cs == type_models(concrete_types@),
                    i <= segments.len(),
                    out.len() == i,
                    forall|k: int| 0 <= k < i ==> #[trigger] out@[k].model() == subst_segment(segments@[k].model(), ps, cs),
                decreases segments.len() - i,
            {
                let seg = &segments[i];
                let args = match &seg.args {
                    PathArgs::Angle { args } => {
                        proof {
                            let segs = ty->segments;
                            assert(decreases_to!(*ty => ty->segments));
                            assert(decreases_to!(segs => segs@));
                            assert(decreases_to!(segs@ => segs@[i as int]));
                            let sg = segs@[i as int];
                            assert(decreases_to!(sg => sg.args));
                            assert(decreases_to!(sg.args => sg.args->args));
                        }
                        let na = substitute_list(args, generic_params, concrete_types);
                        proof {
                            assert forall|j: int| 0 <= j < na.len() implies type_models(na@)[j] == subst_all(type_models(args@), ps, cs)[j] by {
                                assert(type_models(na@)[j] == na@[j].model());
                                assert(type_models(args@)[j] == args@[j].model());
                            }
                            assert(type_models(na@) =~= subst_all(type_models(args@), ps, cs));
                        }
                        PathArgs::Angle { args: na }
                    },
                    other => other.copy(),
                };
                out.push(PathSegment { ident: owned(seg.ident.as_str()), args });
                i = i + 1;
            }
            proof {
                assert forall|j: int| 0 <= j < out.len() implies segment_models(out@)[j] == subst_segments(segment_models(segments@), ps, cs)[j] by {
                    assert(segment_models(out@)[j] == out@[j].model());
                    assert(segment_models(segments@)[j] == segments@[j].model());
                }
                assert(segment_models(out@) =~= subst_segments(segment_models(segments@), ps, cs));
                let m = ty.model();
                if segments.len() == 1 && segments@[0].args is Bare {
                    let k = position_of(ps, segments@[0].ident@);
                    assert(segment_models(segments@)[0] == segments@[0].model());
                    assert(!(0 <= k < cs.len()));
                }
            }
            TypeExpr::Path { leading_colon: *leading_colon, segments: out }
        },
        TypeExpr::Reference { lifetime, mutable, elem } => TypeExpr::Reference {
            lifetime: copy_opt(lifetime),
            mutable: *mutable,
            elem: Box::new(substitute_type(elem, generic_params, concrete_types)),
        },
        TypeExpr::Slice { elem } => TypeExpr::Slice {
            elem: Box::new(substitute_type(elem, generic_params, concrete_types)),
        },
        TypeExpr::Array { elem, len } => TypeExpr::Array {
            elem: Box::new(substitute_type(elem, generic_params, concrete_types)),
            len: owned(len.as_str()),
        },
        TypeExpr::Tuple { elems } => {
            let out = substitute_list(elems, generic_params, concrete_types);
            proof {
                assert forall|j: int| 0 <= j < out.len() implies type_models(out@)[j] == subst_all(type_models(elems@), ps, cs)[j] by {
                    assert(type_models(out@)[j] == out@[j].model());
                    assert(type_models(elems@)[j] == elems@[j].model());
                }
                assert(type_models(out@) =~= subst_all(type_models(elems@), ps, cs));
            }
            TypeExpr::Tuple { elems: out }
        },
        TypeExpr::Verbatim { text } => TypeExpr::Verbatim { text: owned(text.as_str()) },
    }
}

/// Substitution in each type of a list.
pub fn substitute_list(v: &Vec<TypeExpr>, generic_params: &[String], concrete_types: &[TypeExpr]) -> (r: Vec<TypeExpr>)
    ensures
        r.len() == v.len(),
        forall|k: int| 0 <= k < v.len() ==> #[trigger] r@[k].model() == subst(v@[k].model(), texts(generic_params@), type_models(concrete_types@)),
    decreases v,
{
    let mut out: Vec<TypeExpr> = Vec::new();
    let mut i: usize = 0;
    while i < v.len()
        invariant
            i <= v.len(),
            out.len() == i,
            forall|k: int| 0 <= k < i ==> #[trigger] out@[k].model() == subst(v@[k].model(), texts(generic_params@), type_models(concrete_types@)),
        decreases v.len() - i,
    {
        out.push(substitute_type(&v[i], generic_params, concrete_types));
        i = i + 1;
    }
    out
}

impl TypeExpr {
    /// A copy of the type expression.
    pub fn copy(&self) -> (r: TypeExpr)
        ensures
            r.model() == self.model(),
        decreases self,
    {
        match self {
            TypeExpr::Path { leading_colon, segments } => {
                let out = copy_segments(segments);
                proof {
                    assert(segment_models(out@) =~= segment_models(segments@));
                }
                TypeExpr::Path { leading_colon: *leading_colon, segments: out }
            },
            TypeExpr::Reference { lifetime, mutable, elem } => TypeExpr::Reference {
                lifetime: copy_opt(lifetime),
                mutable: *mutable,
                elem: Box::new(elem.copy()),
            },
            TypeExpr::Slice { elem } => TypeExpr::Slice { elem: Box::new(elem.copy()) },
            TypeExpr::Array { elem, len } => TypeExpr::Array {
                elem: Box::new(elem.copy()),
                len: owned(len.as_str()),
            },
            TypeExpr::Tuple { elems } => {
                let out = copy_list(elems);
                proof {
                    assert(type_models(out@) =~= type_models(elems@));
                }
                TypeExpr::Tuple { elems: out }
            },
            TypeExpr::Verbatim { text } => TypeExpr::Verbatim { text: owned(text.as_str()) },
        }
    }
}

impl PathSegment {
    /// A copy of the segment.
    pub fn copy(&self) -> (r: PathSegment)
        ensures
            r.model() == self.model(),
        decreases self,
    {
        PathSegment { ident: owned(self.ident.as_str()), args: self.args.copy() }
    }
}

impl PathArgs {
    /// A copy of the arguments.
    pub fn copy(&self) -> (r: PathArgs)
        ensures
            r.model() == self.model(),
        decreases self,
    {
        match self {
            PathArgs::Bare => PathArgs::Bare,
            PathArgs::Angle { args } => {
                let out = copy_list(args);
                proof {
                    assert(type_models(out@) =~= type_models(args@));
                }
                PathArgs::Angle { args: out }
            },
            PathArgs::Parenthesized { text } => PathArgs::Parenthesized { text: owned(text.as_str()) },
        }
    }
}

/// A copy of each segment of a path.
pub fn copy_segments(v: &Vec<PathSegment>) -> (r: Vec<PathSegment>)
    ensures
        r.len() == v.len(),
        forall|k: int| 0 <= k < v.len() ==> r@[k].model() == v@[k].model(),
    decreases v,
{
    let mut out: Vec<PathSegment> = Vec::new();
    let mut i: usize = 0;
    while i < v.len()
        invariant
            i <= v.len(),
            out.len() == i,
            forall|k: int| 0 <= k < i ==> out@[k].model() == v@[k].model(),
        decreases v.len() - i,
    {
        out.push(v[i].copy());
        i = i + 1;
    }
    out
}

/// A copy of each type expression of a list.
pub fn copy_list(v: &Vec<TypeExpr>) -> (r: Vec<TypeExpr>)
    ensures
        r.len() == v.len(),
        forall|k: int| 0 <= k < v.len() ==> r@[k].model() == v@[k].model(),
    decreases v,
{
    let mut out: Vec<TypeExpr> = Vec::new();
    let mut i: usize = 0;
    while i < v.len()
        invariant
            i <= v.len(),
            out.len() == i,
            forall|k: int| 0 <= k < i ==> out@[k].model() == v@[k].model(),
        decreases v.len() - i,
    {
        out.push(v[i].copy());
        i = i + 1;
    }
    out
}

/// The segments of a path type; empty for any other form.
pub open spec fn segs_of(t: TypeModel) -> Seq<SegmentModel> {
    match t {
        TypeModel::Path(_, s) => s,
        _ => seq![],
    }
}

/// The identifier of the last segment of a path type.
pub open spec fn last_ident(t: TypeModel) -> Option<Seq<char>> {
    if segs_of(t).len() > 0 { Some(segs_of(t).last().ident) } else { None }
}

/// The identifier of the first segment of a path type.
pub open spec fn first_ident(t: TypeModel) -> Option<Seq<char>> {
    if segs_of(t).len() > 0 { Some(segs_of(t)[0].ident) } else { None }
}

/// The first angle-bracketed argument of a segment.
pub open spec fn first_arg(sg: SegmentModel) -> Option<TypeModel> {
    match sg.args {
        ArgsModel::Angle(a) => if a.len() > 0 { Some(a[0]) } else { None },
        _ => None,
    }
}

/// The first argument of the last segment of a path type (`T` of `Path<T>`).
pub open spec fn last_arg(t: TypeModel) -> Option<TypeModel> {
    if segs_of(t).len() > 0 { first_arg(segs_of(t).last()) } else { None }
}

/// The first argument of the first segment of a path type (`T` of `Option<T>`).
pub open spec fn head_arg(t: TypeModel) -> Option<TypeModel> {
    if segs_of(t).len() > 0 { first_arg(segs_of(t)[0]) } else { None }
}

/// `Option<T>`, recognised by its first segment.
pub open spec fn is_option(t: TypeModel) -> bool {
    first_ident(t) == Some("Option"@)
}

/// The two map types, recognised by the last segment.
pub open spec fn is_map(t: TypeModel) -> bool {
    last_ident(t) == Some("HashMap"@) || last_ident(t) == Some("BTreeMap"@)
}

pub open spec fn integer_names() -> Seq<Seq<char>> {
    seq!["i8"@, "i16"@, "i32"@, "i64"@, "i128"@, "isize"@, "u8"@, "u16"@, "u32"@, "u64"@, "u128"@, "usize"@]
}

pub open spec fn number_names() -> Seq<Seq<char>> {
    seq!["f32"@, "f64"@]
}

pub open spec fn string_names() -> Seq<Seq<char>> {
    seq!["String"@, "str"@, "char"@]
}

/// Recognised primitives: the integer, floating-point, boolean and string
/// families, by the last segment of a path.
pub open spec fn is_primitive(t: TypeModel) -> bool {
    match last_ident(t) {
        Some(n) => integer_names().contains(n) || number_names().contains(n)
            || n == "bool"@ || string_names().contains(n),
        None => false,
    }
}

impl TypeExpr {
    /// The last segment of a path type.
    pub fn last_segment(&self) -> (r: Option<&PathSegment>)
        ensures
            match r {
                Some(sg) => segs_of(self.model()).len() > 0 && sg.model() == segs_of(self.model()).last(),
                None => segs_of(self.model()).len() == 0,
            },
    {
        match self {
            TypeExpr::Path { segments, .. } => {
                if segments.len() == 0 {
                    None
                } else {
                    proof {
                        assert(segment_models(segments@)[segments.len() - 1] == segments@[segments.len() - 1].model());
                    }
                    Some(&segments[segments.len() - 1])
                }
            },
            _ => None,
        }
    }

    /// The first segment of a path type.
    pub fn first_segment(&self) -> (r: Option<&PathSegment>)
        ensures
            match r {
                Some(sg) => segs_of(self.model()).len() > 0 && sg.model() == segs_of(self.model())[0],
                None => segs_of(self.model()).len() == 0,
            },
    {
        match self {
            TypeExpr::Path { segments, .. } => {
                if segments.len() == 0 {
                    None
                } else {
                    proof {
                        assert(segment_models(segments@)[0] == segments@[0].model());
                    }
                    Some(&segments[0])
                }
            },
            _ => None,
        }
    }
}

impl PathSegment {
    /// The first angle-bracketed argument.
    pub fn first_arg(&self) -> (r: Option<&TypeExpr>)
        ensures
            match r {
                Some(t) => first_arg(self.model()) == Some(t.model()),
                None => first_arg(self.model()) is None,
            },
    {
        match &self.args {
            PathArgs::Angle { args } => {
                if args.len() == 0 {
                    None
                } else {
                    proof {
                        assert(type_models(args@)[0] == args@[0].model());
                    }
                    Some(&args[0])
                }
            },
            _ => None,
        }
    }
}

/// The first argument of the last segment of a path type.
pub fn last_arg_of(ty: &TypeExpr) -> (r: Option<&TypeExpr>)
    ensures
        match r {
            Some(t) => last_arg(ty.model()) == Some(t.model()),
            None => last_arg(ty.model()) is None,
        },
{
    match ty.last_segment() {
        Some(sg) => sg.first_arg(),
        None => None,
    }
}

/// The first argument of the first segment of a path type.
pub fn head_arg_of(ty: &TypeExpr) -> (r: Option<&TypeExpr>)
    ensures
        match r {
            Some(t) => head_arg(ty.model()) == Some(t.model()),
            None => head_arg(ty.model()) is None,
        },
{
    match ty.first_segment() {
        Some(sg) => sg.first_arg(),
        None => None,
    }
}

/// Whether the last segment of a path type is `name`.
pub fn last_ident_is(ty: &TypeExpr, name: &str) -> (r: bool)
    ensures
        r == (last_ident(ty.model()) == Some(name@)),
{
    match ty.last_segment() {
        Some(sg) => text_eq(sg.ident.as_str(), name),
        None => false,
    }
}

/// Whether the type is `Option<T>`, judged by its first segment.
pub fn is_option_type(ty: &TypeExpr) -> (r: bool)
    ensures
        r == is_option(ty.model()),
{
    match ty.first_segment() {
        Some(sg) => text_eq(sg.ident.as_str(), "Option"),
        None => false,
    }
}

/// Whether the type is one of the two map types.
pub fn is_map_type(ty: &TypeExpr) -> (r: bool)
    ensures
        r == is_map(ty.model()),
{
    last_ident_is(ty, "HashMap") || last_ident_is(ty, "BTreeMap")
}

/// Whether `name` is one of `names`.
fn among(name: &str, names: &[&str]) -> (r: bool)
    ensures
        r == exists|k: int| 0 <= k < names@.len() && names@[k]@ == name@,
{
    let mut i: usize = 0;
    while i < names.len()
        invariant
            i <= names.len(),
            forall|k: int| 0 <= k < i ==> names@[k]@ != name@,
        decreases names.len() - i,
    {
        if text_eq(names[i], name) {
            return true;
        }
        i = i + 1;
    }
    false
}

/// The primitive family that a type belongs to, by the last segment.
pub fn primitive_kind(ty: &TypeExpr) -> (r: Option<Primitive>)
    ensures
        r == primitive_of(ty.model()),
{
    match ty.last_segment() {
        Some(sg) => {
            let n = sg.ident.as_str();
            let ints = ["i8", "i16", "i32", "i64", "i128", "isize", "u8", "u16", "u32", "u64", "u128", "usize"];
            let nums = ["f32", "f64"];
            let strs = ["String", "str", "char"];
            proof {
                reveal_strlit("i8"); reveal_strlit("i16"); reveal_strlit("i32"); reveal_strlit("i64");
                reveal_strlit("i128"); reveal_strlit("isize"); reveal_strlit("u8"); reveal_strlit("u16");
                reveal_strlit("u32"); reveal_strlit("u64"); reveal_strlit("u128"); reveal_strlit("usize");
                assert(ints@.len() == 12);
                assert(integer_names() =~= seq![ints@[0]@, ints@[1]@, ints@[2]@, ints@[3]@, ints@[4]@, ints@[5]@, ints@[6]@, ints@[7]@, ints@[8]@, ints@[9]@, ints@[10]@, ints@[11]@]);
            }
            if among(n, &ints) {
                proof {
                    let k = choose|k: int| 0 <= k < ints@.len() && ints@[k]@ == n@;
                    assert(integer_names()[k] == n@);
                }
                Some(Primitive::Integer)
            } else if among(n, &nums) {
                proof {
                    let k = choose|k: int| 0 <= k < nums@.len() && nums@[k]@ == n@;
                    assert(number_names()[k] == n@);
                    assert(!integer_names().contains(n@));
                }
                Some(Primitive::Number)
            } else if text_eq(n, "bool") {
                Some(Primitive::Boolean)
            } else if among(n, &strs) {
                proof {
                    let k = choose|k: int| 0 <= k < strs@.len() && strs@[k]@ == n@;
                    assert(string_names()[k] == n@);
                }
                Some(Primitive::Text)
            } else {
                None
            }
        },
        None => None,
    }
}

/// The families of primitive types.
#[derive(Clone, Copy, Debug, PartialEq, Eq, Structural)]
pub enum Primitive {
    Integer,
    Number,
    Boolean,
    Text,
}

/// The primitive family of a type, judged by its last segment.
pub open spec fn primitive_of(t: TypeModel) -> Option<Primitive> {
    match last_ident(t) {
        Some(n) => if integer_names().contains(n) {
            Some(Primitive::Integer)
        } else if number_names().contains(n) {
            Some(Primitive::Number)
        } else if n == "bool"@ {
            Some(Primitive::Boolean)
        } else if string_names().contains(n) {
            Some(Primitive::Text)
        } else {
            None
        },
        None => None,
    }
}

/// Whether a type is a recognised primitive.
pub fn is_primitive_type(ty: &TypeExpr) -> (r: bool)
    ensures
        r == is_primitive(ty.model()),
{
    primitive_kind(ty).is_some()
}

/// Whether some bare one-segment path inside `t` is named `x`.
pub open spec fn mentions(t: TypeModel, x: Seq<char>) -> bool
    decreases t,
{
    match t {
        TypeModel::Path(_, segs) => {
            ||| (segs.len() == 1 && segs[0].args is Bare && segs[0].ident == x)
            ||| exists|i: int, j: int| 0 <= i < segs.len() && segs[i].args is Angle
                && 0 <= j < segs[i].args->Angle_0.len() && mentions(#[trigger] segs[i].args->Angle_0[j], x)
        },
        TypeModel::Reference(_, _, e) => mentions(*e, x),
        TypeModel::Slice(e) => mentions(*e, x),
        TypeModel::Array(e, _) => mentions(*e, x),
        TypeModel::Tuple(es) => exists|i: int| 0 <= i < es.len() && mentions(#[trigger] es[i], x),
        TypeModel::Verbatim(_) => false,
    }
}

/// Substitution changes nothing in a type that mentions none of the
/// parameters that have a concrete type; applying it again therefore
/// changes nothing either.
pub proof fn law_subst_without_match_is_identity(t: TypeModel, params: Seq<Seq<char>>, concretes: Seq<TypeModel>)
    requires
        forall|k: int| 0 <= k < params.len() && k < concretes.len() ==> !mentions(t, #[trigger] params[k]),
    ensures
        subst(t, params, concretes) == t,
    decreases t,
{
    match t {
        TypeModel::Path(lc, segs) => {
            if segs.len() == 1 && segs[0].args is Bare {
                lemma_position_of_bounds(params, segs[0].ident);
                let k = position_of(params, segs[0].ident);
                if k >= 0 {
                    assert(mentions(t, params[k]));
                }
            }
            let out = subst_segments(segs, params, concretes);
            assert forall|i: int| 0 <= i < segs.len() implies out[i] == segs[i] by {
                let sg = segs[i];
                if let ArgsModel::Angle(a) = sg.args {
                    let sa = subst_all(a, params, concretes);
                    assert forall|j: int| 0 <= j < a.len() implies sa[j] == a[j] by {
                        assert forall|k: int| 0 <= k < params.len() && k < concretes.len() implies !mentions(a[j], #[trigger] params[k]) by {
                            if mentions(a[j], params[k]) {
                                assert(segs[i].args->Angle_0[j] == a[j]);
                                assert(mentions(t, params[k]));
                            }
                        }
                        law_subst_without_match_is_identity(a[j], params, concretes);
                    }
                    assert(sa =~= a);
                }
            }
            assert(out =~= segs);
        },
        TypeModel::Reference(_, _, e) => {
            law_subst_without_match_is_identity(*e, params, concretes);
        },
        TypeModel::Slice(e) => {
            law_subst_without_match_is_identity(*e, params, concretes);
        },
        TypeModel::Array(e, _) => {
            law_subst_without_match_is_identity(*e, params, concretes);
        },
        TypeModel::Tuple(es) => {
            let out = subst_all(es, params, concretes);
            assert forall|i: int| 0 <= i < es.len() implies out[i] == es[i] by {
                assert forall|k: int| 0 <= k < params.len() && k < concretes.len() implies !mentions(es[i], #[trigger] params[k]) by {
                    if mentions(es[i], params[k]) {
                        assert(mentions(t, params[k]));
                    }
                }
                law_subst_without_match_is_identity(es[i], params, concretes);
            }
            assert(out =~= es);
        },
        TypeModel::Verbatim(_) => {},
    }
}

/// A one-segment path `name<args>`.
pub open spec fn generic(name: Seq<char>, args: Seq<TypeModel>) -> TypeModel {
    TypeModel::Path(false, seq![SegmentModel { ident: name, args: ArgsModel::Angle(args) }])
}

/// A bare one-segment path `name`.
pub open spec fn bare(name: Seq<char>) -> TypeModel {
    TypeModel::Path(false, seq![SegmentModel { ident: name, args: ArgsModel::Bare }])
}

/// Substituting `T` by any type `x` in `Vec<Option<T>>` gives
/// `Vec<Option<x>>`.
pub proof fn law_subst_nested_generic(x: TypeModel)
    ensures
        subst(
            generic("Vec"@, seq![generic("Option"@, seq![bare("T"@)])]),
            seq!["T"@],
            seq![x],
        ) == generic("Vec"@, seq![generic("Option"@, seq![x])]),
{
    let ps = seq!["T"@];
    let cs = seq![x];
    reveal_strlit("T");
    reveal_strlit("Vec");
    reveal_strlit("Option");
    assert(ps.drop_last() =~= Seq::<Seq<char>>::empty());
    assert(position_of(ps.drop_last(), "T"@) == -1);
    assert(ps.last() == "T"@);
    assert(position_of(ps, "T"@) == 0);
    assert("T"@.len() == 1);
    assert("Vec"@.len() == 3);
    assert("Option"@.len() == 6);
    let inner = generic("Option"@, seq![bare("T"@)]);
    assert(subst_all(seq![bare("T"@)], ps, cs) =~= seq![x]);
    assert(subst_segments(seq![SegmentModel { ident: "Option"@, args: ArgsModel::Angle(seq![bare("T"@)]) }], ps, cs)
        =~= seq![SegmentModel { ident: "Option"@, args: ArgsModel::Angle(seq![x]) }]);
    assert(subst(inner, ps, cs) == generic("Option"@, seq![x]));
    assert(subst_all(seq![inner], ps, cs) =~= seq![generic("Option"@, seq![x])]);
    assert(subst_segments(seq![SegmentModel { ident: "Vec"@, args: ArgsModel::Angle(seq![inner]) }], ps, cs)
        =~= seq![SegmentModel { ident: "Vec"@, args: ArgsModel::Angle(seq![generic("Option"@, seq![x])]) }]);
}

/// The text of a type, with tokens separated by single spaces as a token
/// printer writes them: `Vec < Option < String > >`, `& mut i32`,
/// `[u8 ; 5]`, `(String , i32)`.
pub open spec fn rendered(t: TypeModel) -> Seq<char>
    decreases t, 0nat,
{
    match t {
        TypeModel::Path(lc, segs) => (if lc { ":: "@ } else { seq![] }) + rendered_segments(segs, segs.len() as int),
        TypeModel::Reference(lt, m, e) => "& "@ + (match lt {
            Some(l) => l + seq![' '],
            None => seq![],
        }) + (if m { "mut "@ } else { seq![] }) + rendered(*e),
        TypeModel::Slice(e) => seq!['['] + rendered(*e) + seq![']'],
        TypeModel::Array(e, n) => seq!['['] + rendered(*e) + " ; "@ + n + seq![']'],
        TypeModel::Tuple(es) => if es.len() == 1 {
            seq!['('] + rendered(es[0]) + " ,)"@
        } else {
            seq!['('] + rendered_list(es, es.len() as int) + seq![')']
        },
        TypeModel::Verbatim(x) => x,
    }
}

/// The first `n` types of `es`, rendered and separated by ` , `.
pub open spec fn rendered_list(es: Seq<TypeModel>, n: int) -> Seq<char>
    decreases es, n,
{
    if n <= 0 || n > es.len() {
        seq![]
    } else if n == 1 {
        rendered(es[0])
    } else {
        rendered_list(es, n - 1) + " , "@ + rendered(es[n - 1])
    }
}

/// The first `n` segments, rendered and separated by ` :: `.
pub open spec fn rendered_segments(segs: Seq<SegmentModel>, n: int) -> Seq<char>
    decreases segs, n,
{
    if n <= 0 || n > segs.len() {
        seq![]
    } else if n == 1 {
        rendered_segment(segs[0])
    } else {
        rendered_segments(segs, n - 1) + " :: "@ + rendered_segment(segs[n - 1])
    }
}

pub open spec fn rendered_segment(sg: SegmentModel) -> Seq<char>
    decreases sg,
{
    sg.ident + match sg.args {
        ArgsModel::Bare => seq![],
        ArgsModel::Angle(a) => " < "@ + rendered_list(a, a.len() as int) + " >"@,
        ArgsModel::Parenthesized(x) => x,
    }
}

impl TypeExpr {
    /// The text of the type, tokens separated by single spaces.
    pub fn render(&self) -> (r: String)
        ensures
            r@ == rendered(self.model()),
        decreases self,
    {
        match self {
            TypeExpr::Path { leading_colon, segments } => {
                let mut out = String::new();
                if *leading_colon {
                    append_str(&mut out, ":: ");
                }
                let ghost head = out@;
                let ghost sm = segment_models(segments@);
                let mut i: usize = 0;
                while i < segments.len()
                    invariant
                        *self == (TypeExpr::Path { leading_colon: *leading_colon, segments: *segments }),
                        sm == segment_models(segments@),
                        i <= segments.len(),
                        out@ == head + rendered_segments(sm, i as int),
                    decreases segments.len() - i,
                {
                    proof {
                        assert(sm[i as int] == segments@[i as int].model());
                    }
                    let ghost before = out@;
                    if i > 0 {
                        append_str(&mut out, " :: ");
                    }
                    let ghost sep = out@;
                    let seg = &segments[i];
                    append_str(&mut out, seg.ident.as_str());
                    match &seg.args {
                        PathArgs::Bare => {},
                        PathArgs::Angle { args } => {
                            proof {
                                lemma_seg_arg_decreases(*self, i as int);
                            }
                            append_str(&mut out, " < ");
                            let inner = render_list(args);
                            append_str(&mut out, inner.as_str());
                            append_str(&mut out, " >");
                            proof {
                                assert(sm[i as int].args == ArgsModel::Angle(type_models(args@)));
                                assert(out@ =~= sep + rendered_segment(sm[i as int]));
                            }
                        },
                        PathArgs::Parenthesized { text } => {
                            append_str(&mut out, text.as_str());
                        },
                    }
                    proof {
                        assert(out@ =~= sep + rendered_segment(sm[i as int]));
                        if i > 0 {
                            assert(sep =~= before + " :: "@);
                        }
                        assert(out@ =~= head + rendered_segments(sm, i + 1));
                    }
                    i = i + 1;
                }
                proof {
                    assert(out@ =~= rendered(self.model()));
                }
                out
            },
            TypeExpr::Reference { lifetime, mutable, elem } => {
                let mut out = owned("& ");
                if let Some(l) = lifetime {
                    append_str(&mut out, l.as_str());
                    push_char(&mut out, ' ');
                }
                if *mutable {
                    append_str(&mut out, "mut ");
                }
                let inner = elem.render();
                append_str(&mut out, inner.as_str());
                proof {
                    assert(out@ =~= rendered(self.model()));
                }
                out
            },
            TypeExpr::Slice { elem } => {
                let mut out = String::new();
                push_char(&mut out, '[');
                let inner = elem.render();
                append_str(&mut out, inner.as_str());
                push_char(&mut out, ']');
                proof {
                    assert(out@ =~= rendered(self.model()));
                }
                out
            },
            TypeExpr::Array { elem, len } => {
                let mut out = String::new();
                push_char(&mut out, '[');
                let inner = elem.render();
                append_str(&mut out, inner.as_str());
                append_str(&mut out, " ; ");
                append_str(&mut out, len.as_str());
                push_char(&mut out, ']');
                proof {
                    assert(out@ =~= rendered(self.model()));
                }
                out
            },
            TypeExpr::Tuple { elems } => {
                let mut out = String::new();
                push_char(&mut out, '(');
                proof {
                    assert(decreases_to!(*self => self->elems));
                }
                if elems.len() == 1 {
                    proof {
                        assert(decreases_to!(self->elems => self->elems@));
                        assert(decreases_to!(self->elems@ => self->elems@[0]));
                        assert(type_models(elems@)[0] == elems@[0].model());
                    }
                    let inner = elems[0].render();
                    append_str(&mut out, inner.as_str());
                    append_str(&mut out, " ,)");
                } else {
                    let inner = render_list(elems);
                    append_str(&mut out, inner.as_str());
                    push_char(&mut out, ')');
                }
                proof {
                    assert(out@ =~= rendered(self.model()));
                }
                out
            },
            TypeExpr::Verbatim { text } => owned(text.as_str()),
        }
    }
}

pub proof fn lemma_seg_arg_decreases(ty: TypeExpr, i: int)
    requires
        ty is Path,
        0 <= i < ty->segments.len(),
        ty->segments@[i].args is Angle,
    ensures
        decreases_to!(ty => ty->segments@[i].args->args),
{
    let segs = ty->segments;
    assert(decreases_to!(ty => segs));
    assert(decreases_to!(segs => segs@));
    assert(decreases_to!(segs@ => segs@[i]));
    let sg = segs@[i];
    assert(decreases_to!(sg => sg.args));
    assert(decreases_to!(sg.args => sg.args->args));
}

/// The types of a list, rendered and separated by ` , `.
pub fn render_list(v: &Vec<TypeExpr>) -> (r: String)
    ensures
        r@ == rendered_list(type_models(v@), v.len() as int),
    decreases v,
{
    let ghost tm = type_models(v@);
    let mut out = String::new();
    let mut i: usize = 0;
    while i < v.len()
        invariant
            tm == type_models(v@),
            i <= v.len(),
            out@ == rendered_list(tm, i as int),
        decreases v.len() - i,
    {
        proof {
            assert(tm[i as int] == v@[i as int].model());
        }
        if i > 0 {
            append_str(&mut out, " , ");
        }
        let s = v[i].render();
        append_str(&mut out, s.as_str());
        proof {
            assert(out@ =~= rendered_list(tm, i + 1));
        }
        i = i + 1;
    }
    out
}

} // verus!
