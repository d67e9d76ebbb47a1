//! Relation fields of data models: their kind, the absolute path of their
//! target, whether they are optional, and the detection of two-hop cycles.
use vstd::prelude::*;
use vstd::string::*;
use crate::schema::lemma_arg_decreases;
use crate::text::{append_str, opt_view, owned, push_char, text_eq, texts, to_upper, upper};
use crate::types::{
    is_option, is_option_type, last_arg, last_arg_of, last_ident, segment_models, segs_of,
    type_models, PathArgs, PathSegment, SegmentModel, TypeExpr, TypeModel, ArgsModel,
};

verus! {

/// The kind of a relation field.
#[derive(Clone, Copy, Debug, PartialEq, Eq, Structural)]
pub enum RelationKind {
    HasOne,
    HasMany,
    BelongsTo,
}

/// A field of a data model.
pub struct ModelField {
    pub name: String,
    pub ty: TypeExpr,
    /// The foreign-key field named by the relation attribute (`from = ".."`).
    pub fk_from: Option<String>,
    /// Marked to be skipped in serialization.
    pub skip: bool,
}

/// A data model: a struct with named fields.
pub struct ModelDef {
    pub name: String,
    pub fields: Vec<ModelField>,
}

/// The relation kind that a field type names by its last segment.
pub open spec fn relation_kind_of(t: TypeModel) -> Option<RelationKind> {
    if last_ident(t) == Some("HasOne"@) {
        Some(RelationKind::HasOne)
    } else if last_ident(t) == Some("HasMany"@) {
        Some(RelationKind::HasMany)
    } else if last_ident(t) == Some("BelongsTo"@) {
        Some(RelationKind::BelongsTo)
    } else {
        None
    }
}

/// The relation kind of a field type.
pub fn relation_kind(ty: &TypeExpr) -> (r: Option<RelationKind>)
    ensures
        r == relation_kind_of(ty.model()),
{
    if crate::types::last_ident_is(ty, "HasOne") {
        Some(RelationKind::HasOne)
    } else if crate::types::last_ident_is(ty, "HasMany") {
        Some(RelationKind::HasMany)
    } else if crate::types::last_ident_is(ty, "BelongsTo") {
        Some(RelationKind::BelongsTo)
    } else {
        None
    }
}

/// The number of leading `super` segments.
pub open spec fn leading_supers(s: Seq<Seq<char>>) -> nat
    decreases s.len(),
{
    if s.len() > 0 && s[0] == "super"@ {
        1 + leading_supers(s.drop_first())
    } else {
        0
    }
}

/// A segment of an entity path as it stands in the schema path.
pub open spec fn schema_segment(s: Seq<char>) -> Seq<char> {
    if s == "Entity"@ { "Schema"@ } else { s }
}

pub open spec fn schema_segments(s: Seq<Seq<char>>) -> Seq<Seq<char>> {
    Seq::new(s.len(), |i: int| schema_segment(s[i]))
}

/// The absolute schema path of an entity path written in module `module`:
/// a crate-rooted path stays as it is, each leading `super` drops one
/// trailing segment of the module path, and any other path is taken
/// relative to the parent of the module; `Entity` becomes `Schema`.
pub open spec fn resolve_path(segs: Seq<Seq<char>>, module: Seq<Seq<char>>) -> Seq<Seq<char>> {
    if segs.len() > 0 && segs[0] == "super"@ {
        let sc = leading_supers(segs);
        let keep = if module.len() >= sc { module.len() - sc } else { 0 };
        module.subrange(0, keep as int) + schema_segments(segs.subrange(sc as int, segs.len() as int))
    } else if segs.len() > 0 && segs[0] == "crate"@ {
        schema_segments(segs)
    } else {
        let keep = if module.len() >= 1 { module.len() - 1 } else { 0 };
        module.subrange(0, keep as int) + schema_segments(segs)
    }
}

pub proof fn lemma_leading_supers_bound(s: Seq<Seq<char>>)
    ensures
        leading_supers(s) <= s.len(),
        forall|i: int| 0 <= i < leading_supers(s) ==> s[i] == "super"@,
        leading_supers(s) < s.len() ==> s[leading_supers(s) as int] != "super"@,
    decreases s.len(),
{
    if s.len() > 0 && s[0] == "super"@ {
        lemma_leading_supers_bound(s.drop_first());
        assert forall|i: int| 0 <= i < leading_supers(s) implies s[i] == "super"@ by {
            if i > 0 {
                assert(s[i] == s.drop_first()[i - 1]);
            }
        }
    }
}

fn push_schema_segment(out: &mut Vec<String>, s: &String)
    ensures
        texts(final(out)@) == texts(old(out)@).push(schema_segment(s@)),
{
    let ghost before = out@;
    if text_eq(s.as_str(), "Entity") {
        out.push(owned("Schema"));
    } else {
        out.push(owned(s.as_str()));
    }
    proof {
        assert(texts(out@) =~= texts(before).push(schema_segment(s@)));
    }
}

/// The absolute schema path of an entity path written in module
/// `module_segs`.
pub fn resolve_entity_path(segs: &[String], module_segs: &[String]) -> (r: Vec<String>)
    ensures
        texts(r@) == resolve_path(texts(segs@), texts(module_segs@)),
{
    let ghost ss = texts(segs@);
    let ghost ms = texts(module_segs@);
    let mut out: Vec<String> = Vec::new();
    let mut start: usize = 0;
    let mut keep: usize;
    if segs.len() > 0 && text_eq(segs[0].as_str(), "super") {
        let mut sc: usize = 0;
        while sc < segs.len() && text_eq(segs[sc].as_str(), "super")
            invariant
                ss == texts(segs@),
                sc <= segs.len(),
                forall|i: int| 0 <= i < sc ==> ss[i] == "super"@,
            decreases segs.len() - sc,
        {
            sc = sc + 1;
        }
        proof {
            lemma_leading_supers_bound(ss);
            let l = leading_supers(ss);
            assert(sc == l) by {
                if sc < l {
                    assert(ss[sc as int] == "super"@);
                } else if l < sc {
                    assert(ss[l as int] == "super"@);
                }
            }
        }
        start = sc;
        keep = if module_segs.len() >= sc { module_segs.len() - sc } else { 0 };
    } else if segs.len() > 0 && text_eq(segs[0].as_str(), "crate") {
        keep = 0;
    } else {
        keep = if module_segs.len() >= 1 { module_segs.len() - 1 } else { 0 };
    }
    let mut i: usize = 0;
    while i < keep
        invariant
            keep <= module_segs.len(),
            ms == texts(module_segs@),
            i <= keep,
            texts(out@) == ms.subrange(0, i as int),
        decreases keep - i,
    {
        let ghost before = out@;
        out.push(owned(module_segs[i].as_str()));
        proof {
            assert(texts(out@) =~= texts(before).push(module_segs@[i as int]@));
            assert(texts(out@) =~= ms.subrange(0, i + 1));
        }
        i = i + 1;
    }
    let mut j: usize = start;
    while j < segs.len()
        invariant
            start <= j <= segs.len(),
            ss == texts(segs@),
            ms == texts(module_segs@),
            keep <= module_segs.len(),
            texts(out@) == ms.subrange(0, keep as int) + schema_segments(ss.subrange(start as int, j as int)),
        decreases segs.len() - j,
    {
        push_schema_segment(&mut out, &segs[j]);
        proof {
            assert(schema_segments(ss.subrange(start as int, j + 1)) =~= schema_segments(ss.subrange(start as int, j as int)).push(schema_segment(ss[j as int])));
            assert(texts(out@) =~= ms.subrange(0, keep as int) + schema_segments(ss.subrange(start as int, j + 1)));
        }
        j = j + 1;
    }
    proof {
        if segs.len() > 0 && ss[0] == "super"@ {
        } else if segs.len() > 0 && ss[0] == "crate"@ {
            assert(ms.subrange(0, 0) + schema_segments(ss.subrange(0, ss.len() as int)) =~= schema_segments(ss));
        } else {
            assert(ss.subrange(0, ss.len() as int) =~= ss);
        }
    }
    out
}

pub open spec fn field_names(fs: Seq<ModelField>) -> Seq<Seq<char>> {
    Seq::new(fs.len(), |i: int| fs[i].name@)
}

/// The position of the first field named `n`, or -1.
pub open spec fn field_index(fs: Seq<ModelField>, n: Seq<char>) -> int {
    crate::types::position_of(field_names(fs), n)
}

/// Whether a foreign-key field leaves its relation optional: it does when it
/// is `Option<T>`, and when no field of that name is found.
pub open spec fn fk_optional(fs: Seq<ModelField>, fk: Seq<char>) -> bool {
    let k = field_index(fs, fk);
    if k >= 0 { is_option(fs[k].ty.model()) } else { true }
}

/// Whether a relation is optional: a has-many never is (an empty list
/// models absence); a single relation is unless its foreign key is found
/// and is not optional.
pub open spec fn relation_optional(kind: RelationKind, fk: Option<Seq<char>>, fs: Seq<ModelField>) -> bool {
    match kind {
        RelationKind::HasMany => false,
        _ => match fk {
            None => true,
            Some(f) => fk_optional(fs, f),
        },
    }
}

/// The position of the first field named `n`.
pub fn find_field(fs: &[ModelField], n: &str) -> (r: Option<usize>)
    ensures
        match r {
            Some(k) => k == field_index(fs@, n@) && k < fs.len(),
            None => field_index(fs@, n@) < 0,
        },
{
    let ghost ns = field_names(fs@);
    let mut pos: Option<usize> = None;
    let mut i: usize = 0;
    while i < fs.len()
        invariant
            i <= fs.len(),
            ns == field_names(fs@),
            match pos {
                Some(k) => k == crate::types::position_of(ns.subrange(0, i as int), n@) && k < fs.len(),
                None => crate::types::position_of(ns.subrange(0, i as int), n@) < 0,
            },
        decreases fs.len() - i,
    {
        proof {
            assert(ns.subrange(0, i + 1).drop_last() =~= ns.subrange(0, i as int));
        }
        if pos.is_none() && text_eq(fs[i].name.as_str(), n) {
            pos = Some(i);
        }
        i = i + 1;
    }
    proof {
        assert(ns.subrange(0, fs.len() as int) =~= ns);
    }
    pos
}

/// Whether the foreign key `fk` leaves its relation optional.
pub fn is_fk_optional(fs: &[ModelField], fk: &str) -> (r: bool)
    ensures
        r == fk_optional(fs@, fk@),
{
    match find_field(fs, fk) {
        Some(k) => is_option_type(&fs[k].ty),
        None => true,
    }
}

/// Whether field `field_name` of `fs` is found and is `Option<T>`.
pub fn is_field_optional_in_struct(fs: &[ModelField], field_name: &str) -> (r: bool)
    ensures
        r == (field_index(fs@, field_name@) >= 0 && is_option(fs@[field_index(fs@, field_name@)].ty.model())),
{
    match find_field(fs, field_name) {
        Some(k) => is_option_type(&fs[k].ty),
        None => false,
    }
}

/// Whether a relation is optional.
pub fn is_relation_optional(kind: RelationKind, fk_from: &Option<String>, fs: &[ModelField]) -> (r: bool)
    ensures
        r == relation_optional(kind, opt_view(*fk_from), fs@),
{
    match kind {
        RelationKind::HasMany => false,
        _ => match fk_from {
            None => true,
            Some(f) => is_fk_optional(fs, f.as_str()),
        },
    }
}

/// The plain path `a::b::c`.
pub open spec fn plain_path(s: Seq<Seq<char>>) -> TypeModel {
    TypeModel::Path(false, bare_segments(s))
}

pub open spec fn bare_segments(s: Seq<Seq<char>>) -> Seq<SegmentModel> {
    Seq::new(s.len(), |i: int| SegmentModel { ident: s[i], args: ArgsModel::Bare })
}

/// The type that a relation field takes in a schema: a list of the target
/// for a has-many, else the boxed target, optional when the relation is.
pub open spec fn relation_schema_type(kind: RelationKind, optional: bool, target: Seq<Seq<char>>) -> TypeModel {
    let p = plain_path(target);
    match kind {
        RelationKind::HasMany => crate::types::generic("Vec"@, seq![p]),
        _ => if optional {
            crate::types::generic("Option"@, seq![crate::types::generic("Box"@, seq![p])])
        } else {
            crate::types::generic("Box"@, seq![p])
        },
    }
}

/// The identifiers of the segments of a path type.
pub open spec fn idents_of(t: TypeModel) -> Seq<Seq<char>> {
    Seq::new(segs_of(t).len(), |i: int| segs_of(t)[i].ident)
}

/// What is recorded of a relation field for the bridging code.
pub struct RelationFieldInfo {
    pub field_name: String,
    pub kind: RelationKind,
    /// The absolute path of the target schema.
    pub schema_path: Vec<String>,
    pub is_optional: bool,
    /// Set when the relation was rewritten to a cycle-breaking projection.
    pub inline_type: Option<InlineType>,
}

/// A cycle-breaking projection type: its name and the fields it keeps.
pub struct InlineType {
    pub name: String,
    pub fields: Vec<String>,
}

/// The plain path of a list of identifiers.
pub fn path_type(s: &Vec<String>) -> (r: TypeExpr)
    ensures
        r.model() == plain_path(texts(s@)),
{
    let mut out: Vec<PathSegment> = Vec::new();
    let mut i: usize = 0;
    while i < s.len()
        invariant
            i <= s.len(),
            out.len() == i,
            forall|k: int| 0 <= k < i ==> (#[trigger] out@[k]).model() == (SegmentModel { ident: s@[k]@, args: ArgsModel::Bare }),
        decreases s.len() - i,
    {
        out.push(PathSegment { ident: owned(s[i].as_str()), args: PathArgs::Bare });
        i = i + 1;
    }
    proof {
        assert(segment_models(out@) =~= bare_segments(texts(s@)));
    }
    TypeExpr::Path { leading_colon: false, segments: out }
}

/// `name<inner>`.
pub fn generic_of(name: &str, inner: TypeExpr) -> (r: TypeExpr)
    ensures
        r.model() == crate::types::generic(name@, seq![inner.model()]),
{
    let ghost im = inner.model();
    let mut args: Vec<TypeExpr> = Vec::new();
    args.push(inner);
    let seg = PathSegment { ident: owned(name), args: PathArgs::Angle { args } };
    proof {
        assert(type_models(args@) =~= seq![im]);
    }
    let mut segs: Vec<PathSegment> = Vec::new();
    segs.push(seg);
    proof {
        assert(segment_models(segs@) =~= seq![SegmentModel { ident: name@, args: ArgsModel::Angle(seq![im]) }]);
    }
    TypeExpr::Path { leading_colon: false, segments: segs }
}

/// What a relation field of type `t` becomes, if `t` is a relation type
/// over an entity path: the schema type, the kind, the absolute target path
/// and the optionality.
pub open spec fn relation_of(
    t: TypeModel,
    fk: Option<Seq<char>>,
    fs: Seq<ModelField>,
    module: Seq<Seq<char>>,
) -> Option<(TypeModel, RelationKind, Seq<Seq<char>>, bool)> {
    match relation_kind_of(t) {
        None => None,
        Some(kind) => match last_arg(t) {
            Some(a) => if a is Path {
                let target = resolve_path(idents_of(a), module);
                let opt = relation_optional(kind, fk, fs);
                Some((relation_schema_type(kind, opt, target), kind, target, opt))
            } else {
                None
            },
            None => None,
        },
    }
}

/// The identifiers of the segments of a path type.
fn idents(ty: &TypeExpr) -> (r: Vec<String>)
    ensures
        texts(r@) == idents_of(ty.model()),
{
    let mut out: Vec<String> = Vec::new();
    match ty {
        TypeExpr::Path { segments, .. } => {
            let mut i: usize = 0;
            while i < segments.len()
                invariant
                    *ty == (TypeExpr::Path { leading_colon: ty->leading_colon, segments: *segments }),
                    i <= segments.len(),
                    out.len() == i,
                    forall|k: int| 0 <= k < i ==> (#[trigger] out@[k])@ == segments@[k].ident@,
                decreases segments.len() - i,
            {
                out.push(owned(segments[i].ident.as_str()));
                i = i + 1;
            }
            proof {
                assert forall|k: int| 0 <= k < out.len() implies texts(out@)[k] == idents_of(ty.model())[k] by {
                    assert(segment_models(segments@)[k] == segments@[k].model());
                }
                assert(texts(out@) =~= idents_of(ty.model()));
            }
        },
        _ => {
            proof {
                assert(texts(out@) =~= idents_of(ty.model()));
            }
        },
    }
    out
}

/// Converts a relation field to its schema type and records what the
/// bridging code needs; `None` where the type is no relation over an entity
/// path. `module_segs` is the module of the model that holds the field.
pub fn convert_relation_type_to_schema_with_info(
    ty: &TypeExpr,
    fk_from: &Option<String>,
    model_fields: &[ModelField],
    module_segs: &[String],
    field_name: &String,
) -> (r: Option<(TypeExpr, RelationFieldInfo)>)
    ensures
        match (r, relation_of(ty.model(), opt_view(*fk_from), model_fields@, texts(module_segs@))) {
            (None, None) => true,
            (Some((t, info)), Some((tm, kind, target, opt))) => {
                &&& t.model() == tm
                &&& info.field_name@ == field_name@
                &&& info.kind == kind
                &&& texts(info.schema_path@) == target
                &&& info.is_optional == opt
                &&& info.inline_type is None
            },
            _ => false,
        },
{
    let kind = match relation_kind(ty) {
        Some(k) => k,
        None => {
            return None;
        },
    };
    let a = match last_arg_of(ty) {
        Some(a) => a,
        None => {
            return None;
        },
    };
    match a {
        TypeExpr::Path { .. } => {},
        _ => {
            return None;
        },
    }
    let segs = idents(a);
    let target = resolve_entity_path(segs.as_slice(), module_segs);
    let optional = is_relation_optional(kind, fk_from, model_fields);
    let p = path_type(&target);
    let converted = match kind {
        RelationKind::HasMany => generic_of("Vec", p),
        _ => if optional {
            generic_of("Option", generic_of("Box", p))
        } else {
            generic_of("Box", p)
        },
    };
    let info = RelationFieldInfo {
        field_name: owned(field_name.as_str()),
        kind,
        schema_path: target,
        is_optional: optional,
        inline_type: None,
    };
    Some((converted, info))
}

/// What is looked for in the paths of a type.
pub enum Probe {
    /// A segment with this name that takes angle-bracketed arguments.
    Generic { name: String },
    /// A reference to the module of this name: `name::Schema`,
    /// `name::Entity`, or a segment `NameSchema`.
    Module { name: String },
}

pub enum ProbeModel {
    Generic(Seq<char>),
    Module(Seq<char>),
}

impl Probe {
    pub open spec fn view(self) -> ProbeModel {
        match self {
            Probe::Generic { name } => ProbeModel::Generic(name@),
            Probe::Module { name } => ProbeModel::Module(name@),
        }
    }
}

/// `name` with its first character in upper case, followed by `Schema`.
pub open spec fn schema_type_name(m: Seq<char>) -> Seq<char> {
    if m.len() > 0 {
        seq![upper(m[0])] + m.subrange(1, m.len() as int) + "Schema"@
    } else {
        "Schema"@
    }
}

/// Whether the probe holds at segment `i` of a path.
pub open spec fn window_holds(segs: Seq<SegmentModel>, i: int, p: ProbeModel) -> bool {
    match p {
        ProbeModel::Generic(n) => segs[i].ident == n && segs[i].args is Angle,
        ProbeModel::Module(m) => {
            ||| (i + 1 < segs.len() && segs[i].ident == m
                && (segs[i + 1].ident == "Schema"@ || segs[i + 1].ident == "Entity"@))
            ||| segs[i].ident == schema_type_name(m)
        },
    }
}

/// Whether the probe holds in some path anywhere inside `t`.
pub open spec fn any_path(t: TypeModel, p: ProbeModel) -> bool
    decreases t,
{
    match t {
        TypeModel::Path(_, segs) => {
            ||| exists|i: int| 0 <= i < segs.len() && #[trigger] window_holds(segs, i, p)
            ||| exists|i: int, j: int| 0 <= i < segs.len() && segs[i].args is Angle
                && 0 <= j < segs[i].args->Angle_0.len() && any_path(#[trigger] segs[i].args->Angle_0[j], p)
        },
        TypeModel::Reference(_, _, e) => any_path(*e, p),
        TypeModel::Slice(e) => any_path(*e, p),
        TypeModel::Array(e, _) => any_path(*e, p),
        TypeModel::Tuple(es) => exists|i: int| 0 <= i < es.len() && any_path(#[trigger] es[i], p),
        TypeModel::Verbatim(_) => false,
    }
}

/// `name` with its first character in upper case, followed by `Schema`.
fn schema_type_name_of(m: &str) -> (r: String)
    ensures
        r@ == schema_type_name(m@),
{
    let n = m.unicode_len();
    let mut out = String::new();
    if n > 0 {
        push_char(&mut out, to_upper(m.get_char(0)));
        append_str(&mut out, m.substring_char(1, n));
    }
    append_str(&mut out, "Schema");
    proof {
        if n > 0 {
            assert(out@ =~= schema_type_name(m@));
        } else {
            assert(out@ =~= schema_type_name(m@));
        }
    }
    out
}

fn window(segments: &Vec<PathSegment>, i: usize, p: &Probe) -> (r: bool)
    requires
        i < segments.len(),
    ensures
        r == window_holds(segment_models(segments@), i as int, p.view()),
{
    let ghost sm = segment_models(segments@);
    proof {
        assert(sm[i as int] == segments@[i as int].model());
        if i + 1 < segments.len() {
            assert(sm[i + 1] == segments@[i + 1].model());
        }
    }
    let seg = &segments[i];
    match p {
        Probe::Generic { name } => {
            text_eq(seg.ident.as_str(), name.as_str()) && match &seg.args {
                PathArgs::Angle { .. } => true,
                _ => false,
            }
        },
        Probe::Module { name } => {
            let next = i + 1 < segments.len() && text_eq(seg.ident.as_str(), name.as_str()) && (
                text_eq(segments[i + 1].ident.as_str(), "Schema") || text_eq(segments[i + 1].ident.as_str(), "Entity"));
            let joined = schema_type_name_of(name.as_str());
            next || text_eq(seg.ident.as_str(), joined.as_str())
        },
    }
}

/// Whether the probe holds in some path anywhere inside `ty`.
pub fn path_probe(ty: &TypeExpr, p: &Probe) -> (r: bool)
    ensures
        r == any_path(ty.model(), p.view()),
    decreases ty,
{
    let ghost pm = p.view();
    match ty {
        TypeExpr::Path { segments, .. } => {
            let ghost sm = segment_models(segments@);
            let n = segments.len();
            let mut i: usize = 0;
            while i < n
                invariant
                    *ty == (TypeExpr::Path { leading_colon: ty->leading_colon, segments: *segments }),
                    n == segments.len(),
                    sm == segment_models(segments@),
                    pm == p.view(),
                    i <= n,
                    forall|k: int| 0 <= k < i ==> !window_holds(sm, k, pm),
                decreases n - i,
            {
                if window(segments, i, p) {
                    proof {
                        assert(ty.model() == TypeModel::Path(ty->leading_colon, sm));
                        assert(window_holds(sm, i as int, pm));
                    }
                    return true;
                }
                i = i + 1;
            }
            let mut i: usize = 0;
            while i < n
                invariant
                    *ty == (TypeExpr::Path { leading_colon: ty->leading_colon, segments: *segments }),
                    n == segments.len(),
                    sm == segment_models(segments@),
                    pm == p.view(),
                    i <= n,
                    forall|k: int| 0 <= k < n ==> !#[trigger] window_holds(sm, k, pm),
                    forall|k: int, j: int| 0 <= k < i && sm[k].args is Angle && 0 <= j < sm[k].args->Angle_0.len()
                        ==> !any_path(#[trigger] sm[k].args->Angle_0[j], pm),
                decreases n - i,
            {
                proof {
                    assert(sm[i as int] == segments@[i as int].model());
                }
                if let PathArgs::Angle { args } = &segments[i].args {
                    let mut j: usize = 0;
                    while j < args.len()
                        invariant
                            *ty == (TypeExpr::Path { leading_colon: ty->leading_colon, segments: *segments }),
                            segments@[i as int].args == (PathArgs::Angle { args: *args }),
                            i < n,
                            n == segments.len(),
                            sm == segment_models(segments@),
                            sm[i as int] == segments@[i as int].model(),
                            pm == p.view(),
                            j <= args.len(),
                            forall|k: int| 0 <= k < n ==> !#[trigger] window_holds(sm, k, pm),
                            forall|k: int, jj: int| 0 <= k < i && sm[k].args is Angle && 0 <= jj < sm[k].args->Angle_0.len()
                                ==> !any_path(#[trigger] sm[k].args->Angle_0[jj], pm),
                            forall|jj: int| 0 <= jj < j ==> !any_path(#[trigger] sm[i as int].args->Angle_0[jj], pm),
                        decreases args.len() - j,
                    {
                        proof {
                            lemma_arg_decreases(*ty, i as int, j as int);
                            assert(type_models(args@)[j as int] == args@[j as int].model());
                        }
                        if path_probe(&args[j], p) {
                            proof {
                                assert(ty.model() == TypeModel::Path(ty->leading_colon, sm));
                                assert(sm[i as int].args == ArgsModel::Angle(type_models(args@)));
                                assert(any_path(sm[i as int].args->Angle_0[j as int], pm));
                            }
                            return true;
                        }
                        j = j + 1;
                    }
                }
                proof {
                    if !(sm[i as int].args is Angle) {
                    } else {
                        assert(sm[i as int].args == ArgsModel::Angle(type_models(segments@[i as int].args->args@)));
                    }
                }
                i = i + 1;
            }
            proof {
                assert(ty.model() == TypeModel::Path(ty->leading_colon, sm));
                assert(!(exists|k: int| 0 <= k < sm.len() && #[trigger] window_holds(sm, k, pm)));
                assert(!(exists|k: int, j: int| 0 <= k < sm.len() && sm[k].args is Angle
                    && 0 <= j < sm[k].args->Angle_0.len() && any_path(#[trigger] sm[k].args->Angle_0[j], pm)));
                assert(!any_path(ty.model(), pm));
            }
            false
        },
        TypeExpr::Reference { elem, .. } => path_probe(elem, p),
        TypeExpr::Slice { elem } => path_probe(elem, p),
        TypeExpr::Array { elem, .. } => path_probe(elem, p),
        TypeExpr::Tuple { elems } => {
            let mut i: usize = 0;
            while i < elems.len()
                invariant
                    *ty == (TypeExpr::Tuple { elems: *elems }),
                    pm == p.view(),
                    i <= elems.len(),
                    forall|k: int| 0 <= k < i ==> !any_path(#[trigger] type_models(elems@)[k], pm),
                decreases elems.len() - i,
            {
                proof {
                    assert(decreases_to!(*ty => ty->elems));
                    assert(decreases_to!(ty->elems => ty->elems@));
                    assert(decreases_to!(ty->elems@ => ty->elems@[i as int]));
                    assert(type_models(elems@)[i as int] == elems@[i as int].model());
                }
                if path_probe(&elems[i], p) {
                    proof {
                        assert(ty.model() == TypeModel::Tuple(type_models(elems@)));
                        let es = type_models(elems@);
                        assert(ty.model() == TypeModel::Tuple(es));
                        assert(es.len() == elems.len());
                        assert(any_path(es[i as int], pm));
                        assert(exists|k: int| 0 <= k < es.len() && any_path(#[trigger] es[k], pm));
                        let tm = TypeModel::Tuple(es);
                        assert(decreases_to!(tm => tm->Tuple_0));
                        assert(decreases_to!(es => es[i as int]));
                        assert(any_path(tm, pm));
                    }
                    return true;
                }
                i = i + 1;
            }
            proof {
                let es = type_models(elems@);
                assert(ty.model() == TypeModel::Tuple(es));
                assert(es.len() == elems.len());
            }
            false
        },
        TypeExpr::Verbatim { .. } => false,
    }
}

pub open spec fn generic_probe(n: Seq<char>) -> ProbeModel {
    ProbeModel::Generic(n)
}

/// A field type that holds a has-many relation.
pub open spec fn holds_has_many(t: TypeModel) -> bool {
    any_path(t, generic_probe("HasMany"@))
}

/// A field type that holds a foreign-key relation (has-one or belongs-to).
pub open spec fn holds_fk_relation(t: TypeModel) -> bool {
    any_path(t, generic_probe("HasOne"@)) || any_path(t, generic_probe("BelongsTo"@))
}

/// Whether field `f` of a related model points back at module `m` through a
/// single relation or a boxed schema; has-many fields never count, as they
/// are left out of generated schemas.
pub open spec fn is_circular_field(f: ModelField, m: Seq<char>) -> bool {
    let t = f.ty.model();
    &&& !holds_has_many(t)
    &&& (holds_fk_relation(t) || any_path(t, generic_probe("Box"@)))
    &&& any_path(t, ProbeModel::Module(m))
}

/// The names of the fields of `fs` that point back at module `m`, in order.
pub open spec fn circular_names(fs: Seq<ModelField>, m: Seq<char>) -> Seq<Seq<char>>
    decreases fs.len(),
{
    if fs.len() == 0 {
        seq![]
    } else if is_circular_field(fs.last(), m) {
        circular_names(fs.drop_last(), m).push(fs.last().name@)
    } else {
        circular_names(fs.drop_last(), m)
    }
}

/// The last segment of a module path, or the empty name.
pub open spec fn module_name(module: Seq<Seq<char>>) -> Seq<char> {
    if module.len() > 0 { module.last() } else { seq![] }
}

fn probe_generic(ty: &TypeExpr, name: &str) -> (r: bool)
    ensures
        r == any_path(ty.model(), generic_probe(name@)),
{
    path_probe(ty, &Probe::Generic { name: owned(name) })
}

fn holds_fk(ty: &TypeExpr) -> (r: bool)
    ensures
        r == holds_fk_relation(ty.model()),
{
    probe_generic(ty, "HasOne") || probe_generic(ty, "BelongsTo")
}

/// The fields of a related model that point back at the module
/// `source_module` (the module of the structure being bridged), so that
/// they are left out when the related model is built inline.
pub fn detect_circular_fields(source_module: &[String], related: &ModelDef) -> (r: Vec<String>)
    ensures
        texts(r@) == circular_names(related.fields@, module_name(texts(source_module@))),
{
    let ghost m = module_name(texts(source_module@));
    let name = if source_module.len() > 0 {
        owned(source_module[source_module.len() - 1].as_str())
    } else {
        String::new()
    };
    proof {
        assert(name@ == m);
    }
    let back = Probe::Module { name };
    let fs = &related.fields;
    let mut out: Vec<String> = Vec::new();
    let mut i: usize = 0;
    while i < fs.len()
        invariant
            i <= fs.len(),
            back.view() == ProbeModel::Module(m),
            texts(out@) == circular_names(fs@.subrange(0, i as int), m),
        decreases fs.len() - i,
    {
        let f = &fs[i];
        proof {
            assert(fs@.subrange(0, i + 1).drop_last() =~= fs@.subrange(0, i as int));
            assert(fs@.subrange(0, i + 1).last() == *f);
        }
        let circular = !probe_generic(&f.ty, "HasMany")
            && (holds_fk(&f.ty) || probe_generic(&f.ty, "Box"))
            && path_probe(&f.ty, &back);
        if circular {
            let ghost before = out@;
            out.push(owned(f.name.as_str()));
            proof {
                assert(texts(out@) =~= texts(before).push(f.name@));
            }
        }
        i = i + 1;
    }
    proof {
        assert(fs@.subrange(0, fs.len() as int) =~= fs@);
    }
    out
}

/// Whether field `f` points back at one of the modules `ms` already on the
/// current relation path.
pub open spec fn points_back_to_path(f: ModelField, ms: Seq<Seq<char>>) -> bool {
    let t = f.ty.model();
    &&& !holds_has_many(t)
    &&& (holds_fk_relation(t) || any_path(t, generic_probe("Box"@)))
    &&& exists|j: int| 0 <= j < ms.len() && any_path(t, ProbeModel::Module(#[trigger] ms[j]))
}

/// The names of the fields of `fs` that point back at a module of `ms`.
pub open spec fn names_back_to_path(fs: Seq<ModelField>, ms: Seq<Seq<char>>) -> Seq<Seq<char>>
    decreases fs.len(),
{
    if fs.len() == 0 {
        seq![]
    } else if points_back_to_path(fs.last(), ms) {
        names_back_to_path(fs.drop_last(), ms).push(fs.last().name@)
    } else {
        names_back_to_path(fs.drop_last(), ms)
    }
}

/// The fields of a related model that point back at any of the modules
/// `path_modules` already on the current relation path, so that a chain of
/// relations of any length is cut where it would revisit a module.
pub fn detect_fields_back_to_path(path_modules: &[String], related: &ModelDef) -> (r: Vec<String>)
    ensures
        texts(r@) == names_back_to_path(related.fields@, texts(path_modules@)),
{
    let ghost ms = texts(path_modules@);
    let fs = &related.fields;
    let mut out: Vec<String> = Vec::new();
    let mut i: usize = 0;
    while i < fs.len()
        invariant
            i <= fs.len(),
            ms == texts(path_modules@),
            texts(out@) == names_back_to_path(fs@.subrange(0, i as int), ms),
        decreases fs.len() - i,
    {
        let f = &fs[i];
        proof {
            assert(fs@.subrange(0, i + 1).drop_last() =~= fs@.subrange(0, i as int));
            assert(fs@.subrange(0, i + 1).last() == *f);
        }
        let mut back = false;
        if !probe_generic(&f.ty, "HasMany") && (holds_fk(&f.ty) || probe_generic(&f.ty, "Box")) {
            let mut j: usize = 0;
            while j < path_modules.len() && !back
                invariant
                    j <= path_modules.len(),
                    ms == texts(path_modules@),
                    back ==> exists|q: int| 0 <= q < ms.len() && any_path(f.ty.model(), ProbeModel::Module(#[trigger] ms[q])),
                    !back ==> forall|q: int| 0 <= q < j ==> !any_path(f.ty.model(), ProbeModel::Module(#[trigger] ms[q])),
                decreases path_modules.len() - j,
            {
                let probe = Probe::Module { name: owned(path_modules[j].as_str()) };
                if path_probe(&f.ty, &probe) {
                    proof {
                        assert(ms[j as int] == path_modules@[j as int]@);
                    }
                    back = true;
                }
                j = j + 1;
            }
        }
        if back {
            let ghost before = out@;
            out.push(owned(f.name.as_str()));
            proof {
                assert(texts(out@) =~= texts(before).push(f.name@));
            }
        }
        i = i + 1;
    }
    proof {
        assert(fs@.subrange(0, fs.len() as int) =~= fs@);
    }
    out
}

/// With a single module on the path, the fields found are those that point
/// back at it, as in the two-hop detection.
pub proof fn law_path_detection_generalizes_two_hop(fs: Seq<ModelField>, m: Seq<char>)
    ensures
        names_back_to_path(fs, seq![m]) == circular_names(fs, m),
    decreases fs.len(),
{
    if fs.len() > 0 {
        law_path_detection_generalizes_two_hop(fs.drop_last(), m);
        let t = fs.last().ty.model();
        let ms = seq![m];
        if any_path(t, ProbeModel::Module(m)) {
            assert(any_path(t, ProbeModel::Module(ms[0])));
        }
    }
}

/// Whether some field of the model holds a foreign-key relation; such a
/// model is bridged asynchronously.
pub fn has_fk_relations(model: &ModelDef) -> (r: bool)
    ensures
        r == exists|k: int| 0 <= k < model.fields.len() && holds_fk_relation(#[trigger] model.fields@[k].ty.model()),
{
    let mut i: usize = 0;
    while i < model.fields.len()
        invariant
            i <= model.fields.len(),
            forall|k: int| 0 <= k < i ==> !holds_fk_relation(#[trigger] model.fields@[k].ty.model()),
        decreases model.fields.len() - i,
    {
        if holds_fk(&model.fields[i].ty) {
            return true;
        }
        i = i + 1;
    }
    false
}

/// Whether the field named `n` is a single relation whose foreign key is
/// found and required, so that building it needs a parent stub.
pub open spec fn circular_required(fs: Seq<ModelField>, n: Seq<char>) -> bool {
    let k = field_index(fs, n);
    &&& k >= 0
    &&& holds_fk_relation(fs[k].ty.model())
    &&& fs[k].fk_from is Some
    &&& field_index(fs, fs[k].fk_from->0@) >= 0
    &&& !is_option(fs[field_index(fs, fs[k].fk_from->0@)].ty.model())
}

/// Whether the circular field `circular_field_name` of a related model is a
/// required single relation.
pub fn is_circular_relation_required(related: &ModelDef, circular_field_name: &str) -> (r: bool)
    ensures
        r == circular_required(related.fields@, circular_field_name@),
{
    let fs = related.fields.as_slice();
    match find_field(fs, circular_field_name) {
        None => false,
        Some(k) => {
            let f = &fs[k];
            if !holds_fk(&f.ty) {
                return false;
            }
            match &f.fk_from {
                None => false,
                Some(fk) => match find_field(fs, fk.as_str()) {
                    Some(j) => !is_option_type(&fs[j].ty),
                    None => false,
                },
            }
        },
    }
}

/// How a field is filled when a related model is built inline.
pub enum InitValue {
    /// Copied from the field of the same name of the source value.
    Copy { field: String },
    /// An empty list.
    EmptyList,
    /// `None`.
    Nothing,
    /// The parent stub, boxed.
    ParentStub,
    /// The type's default value.
    DefaultValue,
}

/// One field of a construction.
pub struct FieldInit {
    pub name: String,
    pub value: InitValue,
}

/// What an `InitValue` is, with its text.
pub enum InitModel {
    Copy(Seq<char>),
    EmptyList,
    Nothing,
    ParentStub,
    DefaultValue,
}

impl InitValue {
    pub open spec fn view(self) -> InitModel {
        match self {
            InitValue::Copy { field } => InitModel::Copy(field@),
            InitValue::EmptyList => InitModel::EmptyList,
            InitValue::Nothing => InitModel::Nothing,
            InitValue::ParentStub => InitModel::ParentStub,
            InitValue::DefaultValue => InitModel::DefaultValue,
        }
    }
}

/// The value of a relation field that is left out of an inline
/// construction: an empty list for a has-many, `None` for an optional single
/// relation, the parent stub for a required one, else the default.
pub open spec fn relation_default(f: ModelField, fs: Seq<ModelField>) -> InitModel {
    let t = f.ty.model();
    if holds_has_many(t) {
        InitModel::EmptyList
    } else if holds_fk_relation(t) {
        let optional = match f.fk_from {
            None => true,
            Some(fk) => fk_optional(fs, fk@),
        };
        if optional { InitModel::Nothing } else { InitModel::ParentStub }
    } else {
        InitModel::DefaultValue
    }
}

/// The value of a relation field left out of an inline construction.
pub fn generate_default_for_relation_field(f: &ModelField, all_fields: &[ModelField]) -> (r: InitValue)
    ensures
        r.view() == relation_default(*f, all_fields@),
{
    if probe_generic(&f.ty, "HasMany") {
        InitValue::EmptyList
    } else if holds_fk(&f.ty) {
        let optional = match &f.fk_from {
            None => true,
            Some(fk) => is_fk_optional(all_fields, fk.as_str()),
        };
        if optional {
            InitValue::Nothing
        } else {
            InitValue::ParentStub
        }
    } else {
        InitValue::DefaultValue
    }
}

/// Whether a field type is a relation type.
pub open spec fn is_relation(t: TypeModel) -> bool {
    relation_kind_of(t) is Some
}

/// The fields of an inline construction of the related model `fs` that
/// leaves out `circular`: every field that is not skipped, copied, except
/// circular and relation fields, which take their default.
pub open spec fn struct_inits(pre: Seq<ModelField>, fs: Seq<ModelField>, circular: Seq<Seq<char>>) -> Seq<(Seq<char>, InitModel)>
    decreases pre.len(),
{
    if pre.len() == 0 {
        seq![]
    } else {
        let f = pre.last();
        let rest = struct_inits(pre.drop_last(), fs, circular);
        if f.skip {
            rest
        } else if circular.contains(f.name@) || is_relation(f.ty.model()) {
            rest.push((f.name@, relation_default(f, fs)))
        } else {
            rest.push((f.name@, InitModel::Copy(f.name@)))
        }
    }
}

pub open spec fn inits_view(v: Seq<FieldInit>) -> Seq<(Seq<char>, InitModel)> {
    Seq::new(v.len(), |i: int| (v[i].name@, v[i].value.view()))
}

/// The fields of the inline construction of a related model that breaks a
/// cycle by leaving out `circular_fields`.
pub fn generate_inline_struct_construction(related: &ModelDef, circular_fields: &[String]) -> (r: Vec<FieldInit>)
    ensures
        inits_view(r@) == struct_inits(related.fields@, related.fields@, texts(circular_fields@)),
{
    let fs = &related.fields;
    let ghost cs = texts(circular_fields@);
    let mut out: Vec<FieldInit> = Vec::new();
    let mut i: usize = 0;
    while i < fs.len()
        invariant
            i <= fs.len(),
            cs == texts(circular_fields@),
            inits_view(out@) == struct_inits(fs@.subrange(0, i as int), fs@, cs),
        decreases fs.len() - i,
    {
        let f = &fs[i];
        proof {
            assert(fs@.subrange(0, i + 1).drop_last() =~= fs@.subrange(0, i as int));
            assert(fs@.subrange(0, i + 1).last() == *f);
        }
        if !f.skip {
            let ghost before = out@;
            let value = if crate::text::contains_text(circular_fields, f.name.as_str()) || relation_kind(&f.ty).is_some() {
                generate_default_for_relation_field(f, fs.as_slice())
            } else {
                InitValue::Copy { field: owned(f.name.as_str()) }
            };
            out.push(FieldInit { name: owned(f.name.as_str()), value });
            proof {
                assert(inits_view(out@) =~= inits_view(before).push((f.name@, value.view())));
            }
        }
        i = i + 1;
    }
    proof {
        assert(fs@.subrange(0, fs.len() as int) =~= fs@);
    }
    out
}

/// The fields of a construction of a projection type that keeps `included`:
/// the fields of the related model that are not skipped, not relations, and
/// included, each copied.
pub open spec fn projection_inits(pre: Seq<ModelField>, included: Seq<Seq<char>>) -> Seq<(Seq<char>, InitModel)>
    decreases pre.len(),
{
    if pre.len() == 0 {
        seq![]
    } else {
        let f = pre.last();
        let rest = projection_inits(pre.drop_last(), included);
        if !f.skip && !is_relation(f.ty.model()) && included.contains(f.name@) {
            rest.push((f.name@, InitModel::Copy(f.name@)))
        } else {
            rest
        }
    }
}

/// The fields of the construction of a projection type.
pub fn generate_inline_type_construction(included_fields: &[String], related: &ModelDef) -> (r: Vec<FieldInit>)
    ensures
        inits_view(r@) == projection_inits(related.fields@, texts(included_fields@)),
{
    let fs = &related.fields;
    let ghost inc = texts(included_fields@);
    let mut out: Vec<FieldInit> = Vec::new();
    let mut i: usize = 0;
    while i < fs.len()
        invariant
            i <= fs.len(),
            inc == texts(included_fields@),
            inits_view(out@) == projection_inits(fs@.subrange(0, i as int), inc),
        decreases fs.len() - i,
    {
        let f = &fs[i];
        proof {
            assert(fs@.subrange(0, i + 1).drop_last() =~= fs@.subrange(0, i as int));
            assert(fs@.subrange(0, i + 1).last() == *f);
        }
        if !f.skip && relation_kind(&f.ty).is_none() && crate::text::contains_text(included_fields, f.name.as_str()) {
            let ghost before = out@;
            let value = InitValue::Copy { field: owned(f.name.as_str()) };
            out.push(FieldInit { name: owned(f.name.as_str()), value });
            proof {
                assert(inits_view(out@) =~= inits_view(before).push((f.name@, value.view())));
            }
        }
        i = i + 1;
    }
    proof {
        assert(fs@.subrange(0, fs.len() as int) =~= fs@);
    }
    out
}

} // verus!
