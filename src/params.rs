//! Classification of handler parameters into path, query and header
//! parameters.
use vstd::prelude::*;
use vstd::string::*;
use crate::items::StructDef;
use crate::rename::emit_name;
use crate::schema::{
    components_prefix, inline_node, lemma_arg_decreases, ref_fits, schema_fits, shape_of,
    type_to_schema_ref, Schema, SchemaRef, SchemaType, Shape,
};
use crate::struct_schema::{field_name, parse_struct_to_schema, struct_fits};
use crate::text::{contains_text, opt_view, owned, push_char, text_eq, texts};
use crate::types::{
    first_ident, head_arg, head_arg_of, is_map, is_map_type, is_option, is_option_type,
    is_primitive, is_primitive_type, last_arg, last_arg_of, last_ident, last_ident_is,
    position_of, segment_models, type_models, PathArgs, TypeExpr, TypeModel,
};

verus! {

/// Where a parameter is read from.
#[derive(Clone, Copy, Debug, PartialEq, Eq, Structural)]
pub enum ParameterLocation {
    Path,
    Query,
    Header,
}

/// An operation parameter.
pub struct Parameter {
    pub name: String,
    pub location: ParameterLocation,
    pub required: bool,
    pub schema: SchemaRef,
}

/// The binding pattern of a handler parameter.
pub enum ParamPattern {
    /// `id`.
    Ident { name: String },
    /// `Path(id)`: a tuple-struct pattern around one identifier.
    Wrapped { name: String },
    /// Any other pattern.
    Unsupported,
}

/// One parameter of a handler's signature.
pub enum FnArg {
    /// `self`, in any form.
    Receiver,
    Typed { pat: ParamPattern, ty: TypeExpr },
}

/// What a parameter's schema is to be.
pub enum SchemaSpec {
    /// A plain string.
    Text,
    /// The schema of the type.
    OfType(TypeModel),
    /// A field of a query struct, of the given type and optionality.
    QueryField(TypeModel, bool),
}

/// What one produced parameter is to be.
pub struct ParamSpec {
    pub name: Seq<char>,
    pub location: ParameterLocation,
    pub required: bool,
    pub schema: SchemaSpec,
}

/// The binding name of a pattern.
pub open spec fn pattern_name(p: ParamPattern) -> Option<Seq<char>> {
    match p {
        ParamPattern::Ident { name } => Some(name@),
        ParamPattern::Wrapped { name } => Some(name@),
        ParamPattern::Unsupported => None,
    }
}

/// A name with each underscore turned into a hyphen.
pub open spec fn hyphenated(s: Seq<char>) -> Seq<char> {
    Seq::new(s.len(), |i: int| if s[i] == '_' { '-' } else { s[i] })
}

pub open spec fn struct_names(structs: Seq<StructDef>) -> Seq<Seq<char>> {
    Seq::new(structs.len(), |i: int| structs[i].name@)
}

/// The position of the first struct named `n`, or -1.
pub open spec fn struct_index(structs: Seq<StructDef>, n: Seq<char>) -> int {
    position_of(struct_names(structs), n)
}

/// A type whose schema can stand for a single query parameter: a
/// primitive, a known or registered type, or `Vec`/`Option` of such a type.
pub open spec fn is_known(t: TypeModel, known: Seq<Seq<char>>, structs: Seq<StructDef>) -> bool
    decreases t,
{
    if is_primitive(t) {
        true
    } else {
        match t {
            TypeModel::Path(_, segs) => {
                if segs.len() == 0 {
                    false
                } else {
                    let last = segs[segs.len() - 1];
                    if struct_names(structs).contains(last.ident) || known.contains(last.ident) {
                        true
                    } else if (last.ident == "Vec"@ || last.ident == "Option"@) && last.args is Angle
                        && last.args->Angle_0.len() > 0 {
                        is_known(last.args->Angle_0[0], known, structs)
                    } else {
                        false
                    }
                }
            },
            _ => false,
        }
    }
}

pub open spec fn one(p: ParamSpec) -> Seq<ParamSpec> {
    seq![p]
}

/// The query parameters of the fields of a query struct.
pub open spec fn query_fields(d: StructDef) -> Seq<ParamSpec> {
    Seq::new(
        d.fields.len() as nat,
        |i: int| {
            let f = d.fields@[i];
            let opt = is_option(f.ty.model());
            ParamSpec {
                name: field_name(f, opt_view(d.rename_all)),
                location: ParameterLocation::Query,
                required: !opt,
                schema: SchemaSpec::QueryField(f.ty.model(), opt),
            }
        },
    )
}

/// The path parameters of a tuple extractor: element `i` pairs with
/// placeholder `i`, and elements past the placeholders are dropped.
pub open spec fn tuple_path_params(es: Seq<TypeModel>, pp: Seq<Seq<char>>) -> Seq<ParamSpec> {
    let n = if es.len() < pp.len() { es.len() } else { pp.len() };
    Seq::new(
        n,
        |i: int| ParamSpec {
            name: pp[i],
            location: ParameterLocation::Path,
            required: true,
            schema: SchemaSpec::OfType(es[i]),
        },
    )
}

/// The outcome of the extractor that a type names: `None` where the type
/// names none, or names one whose argument is missing, so that the
/// placeholder fallback decides.
pub open spec fn extractor_outcome(
    name: Seq<char>,
    t: TypeModel,
    pp: Seq<Seq<char>>,
    known: Seq<Seq<char>>,
    structs: Seq<StructDef>,
) -> Option<Option<Seq<ParamSpec>>> {
    let li = last_ident(t);
    let arg = last_arg(t);
    if li == Some("Path"@) && arg is Some {
        let a = arg->0;
        match a {
            TypeModel::Tuple(es) => {
                let ps = tuple_path_params(es, pp);
                if ps.len() > 0 { Some(Some(ps)) } else { None }
            },
            _ => Some(Some(one(ParamSpec {
                name: if pp.len() == 1 { pp[0] } else { name },
                location: ParameterLocation::Path,
                required: true,
                schema: SchemaSpec::OfType(a),
            }))),
        }
    } else if li == Some("Query"@) && arg is Some {
        let a = arg->0;
        if is_map(a) {
            Some(None)
        } else if last_ident(a) is Some && struct_index(structs, last_ident(a)->0) >= 0
            && structs[struct_index(structs, last_ident(a)->0)].fields.len() > 0 {
            Some(Some(query_fields(structs[struct_index(structs, last_ident(a)->0)])))
        } else if !is_known(a, known, structs) {
            Some(None)
        } else {
            Some(Some(one(ParamSpec {
                name: name,
                location: ParameterLocation::Query,
                required: true,
                schema: SchemaSpec::OfType(a),
            })))
        }
    } else if li == Some("Header"@) && arg is Some {
        Some(Some(one(ParamSpec {
            name: name,
            location: ParameterLocation::Header,
            required: true,
            schema: SchemaSpec::OfType(arg->0),
        })))
    } else if li == Some("TypedHeader"@) {
        Some(Some(one(ParamSpec {
            name: hyphenated(name),
            location: ParameterLocation::Header,
            required: true,
            schema: SchemaSpec::Text,
        })))
    } else if li == Some("Json"@) {
        Some(None)
    } else {
        None
    }
}

/// Whether the type is `Option<TypedHeader<T>>`.
pub open spec fn is_optional_typed_header(t: TypeModel) -> bool {
    &&& first_ident(t) == Some("Option"@)
    &&& head_arg(t) is Some
    &&& last_ident(head_arg(t)->0) == Some("TypedHeader"@)
}

/// The parameters that a typed handler parameter named `name` yields, or
/// `None` where it yields none.
pub open spec fn classify_typed(
    name: Seq<char>,
    t: TypeModel,
    pp: Seq<Seq<char>>,
    known: Seq<Seq<char>>,
    structs: Seq<StructDef>,
) -> Option<Seq<ParamSpec>> {
    if is_optional_typed_header(t) {
        Some(one(ParamSpec {
            name: hyphenated(name),
            location: ParameterLocation::Header,
            required: false,
            schema: SchemaSpec::Text,
        }))
    } else {
        match extractor_outcome(name, t, pp, known, structs) {
            Some(o) => o,
            None => if pp.contains(name) {
                Some(one(ParamSpec {
                    name: name,
                    location: ParameterLocation::Path,
                    required: true,
                    schema: SchemaSpec::OfType(t),
                }))
            } else {
                None
            },
        }
    }
}

/// The parameters that a handler parameter yields.
pub open spec fn classify(
    arg: FnArg,
    pp: Seq<Seq<char>>,
    known: Seq<Seq<char>>,
    structs: Seq<StructDef>,
) -> Option<Seq<ParamSpec>> {
    match arg {
        FnArg::Receiver => None,
        FnArg::Typed { pat, ty } => match pattern_name(pat) {
            None => None,
            Some(name) => classify_typed(name, ty.model(), pp, known, structs),
        },
    }
}

/// Whether `r` is the schema of a query-struct field of type `t`: a pointer
/// to a registered struct is replaced by that struct's schema, any other
/// pointer by a bare object, and an optional field admits `null`.
pub open spec fn query_field_fits(
    r: SchemaRef,
    t: TypeModel,
    opt: bool,
    known: Seq<Seq<char>>,
    structs: Seq<StructDef>,
) -> bool {
    let sh = shape_of(t, known);
    let nul = if opt { Some(true) } else { None };
    match sh {
        Shape::Ref(n) => {
            let k = struct_index(structs, n);
            &&& r is Inline
            &&& r->schema.nullable == nul
            &&& if k >= 0 {
                struct_fits(Schema { nullable: None, ..*r->schema }, structs[k], known)
            } else {
                &&& r->schema.is_bare(Some(SchemaType::Object))
                &&& r->schema.description is None
            }
        },
        _ => if opt {
            &&& r is Inline
            &&& r->schema.nullable == Some(true)
            &&& schema_fits(*r->schema, sh)
        } else {
            ref_fits(r, sh)
        },
    }
}

/// Whether parameter `p` is what `s` describes.
pub open spec fn param_fits(p: Parameter, s: ParamSpec, known: Seq<Seq<char>>, structs: Seq<StructDef>) -> bool {
    &&& p.name@ == s.name
    &&& p.location == s.location
    &&& p.required == s.required
    &&& match s.schema {
        SchemaSpec::Text => p.schema is Inline && p.schema->schema.is_empty_with(Some(SchemaType::String)),
        SchemaSpec::OfType(t) => ref_fits(p.schema, shape_of(t, known)),
        SchemaSpec::QueryField(t, opt) => query_field_fits(p.schema, t, opt, known, structs),
    }
}

pub open spec fn params_fit(ps: Seq<Parameter>, ss: Seq<ParamSpec>, known: Seq<Seq<char>>, structs: Seq<StructDef>) -> bool {
    &&& ps.len() == ss.len()
    &&& forall|i: int| 0 <= i < ps.len() ==> param_fits(#[trigger] ps[i], ss[i], known, structs)
}

/// A name with each underscore turned into a hyphen.
pub fn hyphenate(name: &str) -> (r: String)
    ensures
        r@ == hyphenated(name@),
{
    let n = name.unicode_len();
    let mut out = String::new();
    let mut i: usize = 0;
    while i < n
        invariant
            n == name@.len(),
            i <= n,
            out@ == hyphenated(name@).subrange(0, i as int),
        decreases n - i,
    {
        let c = name.get_char(i);
        if c == '_' {
            push_char(&mut out, '-');
        } else {
            push_char(&mut out, c);
        }
        proof {
            assert(out@ =~= hyphenated(name@).subrange(0, i + 1));
        }
        i = i + 1;
    }
    proof {
        assert(hyphenated(name@).subrange(0, n as int) =~= hyphenated(name@));
    }
    out
}

/// The position of the first struct named `n`.
pub fn find_struct(structs: &[StructDef], n: &str) -> (r: Option<usize>)
    ensures
        match r {
            Some(k) => k == struct_index(structs@, n@),
            None => struct_index(structs@, n@) < 0,
        },
{
    let ghost ns = struct_names(structs@);
    let mut pos: Option<usize> = None;
    let mut i: usize = 0;
    while i < structs.len()
        invariant
            i <= structs.len(),
            ns == struct_names(structs@),
            match pos {
                Some(k) => k == position_of(ns.subrange(0, i as int), n@),
                None => position_of(ns.subrange(0, i as int), n@) < 0,
            },
        decreases structs.len() - i,
    {
        proof {
            assert(ns.subrange(0, i + 1).drop_last() =~= ns.subrange(0, i as int));
        }
        if pos.is_none() && text_eq(structs[i].name.as_str(), n) {
            pos = Some(i);
        }
        i = i + 1;
    }
    proof {
        assert(ns.subrange(0, structs.len() as int) =~= ns);
    }
    pos
}

/// Whether a type can stand for a single query parameter.
pub fn is_known_type(ty: &TypeExpr, known: &[String], structs: &[StructDef]) -> (r: bool)
    ensures
        r == is_known(ty.model(), texts(known@), structs@),
    decreases ty,
{
    if is_primitive_type(ty) {
        return true;
    }
    match ty {
        TypeExpr::Path { segments, .. } => {
            let n = segments.len();
            if n == 0 {
                return false;
            }
            let last = &segments[n - 1];
            proof {
                assert(segment_models(segments@)[n - 1] == last.model());
            }
            let registered = find_struct(structs, last.ident.as_str()).is_some();
            proof {
                if struct_names(structs@).contains(last.ident@) {
                    crate::types::lemma_position_of_bounds(struct_names(structs@), last.ident@);
                }
                if struct_index(structs@, last.ident@) >= 0 {
                    crate::types::lemma_position_of_bounds(struct_names(structs@), last.ident@);
                }
            }
            if registered || contains_text(known, last.ident.as_str()) {
                return true;
            }
            if text_eq(last.ident.as_str(), "Vec") || text_eq(last.ident.as_str(), "Option") {
                if let PathArgs::Angle { args } = &last.args {
                    if args.len() > 0 {
                        proof {
                            lemma_arg_decreases(*ty, n - 1, 0);
                            assert(type_models(args@)[0] == args@[0].model());
                        }
                        return is_known_type(&args[0], known, structs);
                    }
                }
            }
            false
        },
        _ => false,
    }
}

/// The rest of `p` after the prefix of component paths.
fn strip_components_prefix(p: &str) -> (r: Option<String>)
    ensures
        forall|n: Seq<char>| p@ == components_prefix() + n ==> r is Some && r->0@ == n,
{
    let pre = "#/components/schemas/";
    let m = pre.unicode_len();
    let n = p.unicode_len();
    if n < m {
        return None;
    }
    let head = p.substring_char(0, m);
    if !text_eq(head, pre) {
        proof {
            assert forall|x: Seq<char>| p@ != components_prefix() + x by {
                if p@ == components_prefix() + x {
                    assert(p@.subrange(0, m as int) =~= components_prefix());
                }
            }
        }
        return None;
    }
    let rest = p.substring_char(m, n);
    proof {
        assert forall|x: Seq<char>| p@ == components_prefix() + x implies rest@ == x by {
            assert(p@.subrange(m as int, n as int) =~= x);
        }
    }
    Some(owned(rest))
}

/// The schema of one field of a query struct.
fn query_field_schema(ty: &TypeExpr, known: &[String], structs: &[StructDef]) -> (r: SchemaRef)
    ensures
        query_field_fits(r, ty.model(), is_option(ty.model()), texts(known@), structs@),
{
    let ghost kn = texts(known@);
    let ghost sh = shape_of(ty.model(), kn);
    let opt = is_option_type(ty);
    let fs = type_to_schema_ref(ty, known);
    let fs = match fs {
        SchemaRef::Ref { ref_path } => {
            let ghost rp = ref_path;
            proof {
                assert(sh is Ref);
                assert(rp@ == components_prefix() + sh->Ref_0);
            }
            match strip_components_prefix(ref_path.as_str()) {
                Some(n) => match find_struct(structs, n.as_str()) {
                    Some(k) => {
                        proof {
                            crate::types::lemma_position_of_bounds(struct_names(structs@), n@);
                        }
                        inline_node(parse_struct_to_schema(&structs[k], known))
                    },
                    None => SchemaRef::Ref { ref_path },
                },
                None => SchemaRef::Ref { ref_path },
            }
        },
        other => other,
    };
    proof {
        if sh is Ref {
            let k = struct_index(structs@, sh->Ref_0);
            if k >= 0 {
                assert(fs is Inline && struct_fits(*fs->schema, structs@[k], kn));
            } else {
                assert(fs is Ref);
            }
        } else {
            assert(ref_fits(fs, sh));
        }
    }
    if opt {
        match fs {
            SchemaRef::Inline { schema } => {
                let ghost s0 = *schema;
                let mut s = *schema;
                s.nullable = Some(true);
                proof {
                    if sh is Ref {
                        assert(Schema { nullable: None, ..s } == s0);
                    } else {
                        crate::schema::lemma_fits_ignores_nullable(s0, s, sh);
                    }
                }
                inline_node(s)
            },
            SchemaRef::Ref { .. } => {
                let mut s = Schema::object();
                s.nullable = Some(true);
                inline_node(s)
            },
        }
    } else {
        match fs {
            SchemaRef::Ref { .. } => inline_node(Schema::object()),
            other => {
                proof {
                    if sh is Ref {
                        assert(Schema { nullable: None, ..*other->schema } == *other->schema);
                    }
                }
                other
            },
        }
    }
}

/// One query parameter per field of a registered query struct.
fn parse_query_struct_to_parameters(d: &StructDef, known: &[String], structs: &[StructDef]) -> (r: Vec<Parameter>)
    ensures
        params_fit(r@, query_fields(*d), texts(known@), structs@),
{
    let ghost ss = query_fields(*d);
    let mut out: Vec<Parameter> = Vec::new();
    let mut i: usize = 0;
    while i < d.fields.len()
        invariant
            ss == query_fields(*d),
            i <= d.fields.len(),
            out.len() == i,
            forall|k: int| 0 <= k < i ==> param_fits(#[trigger] out@[k], ss[k], texts(known@), structs@),
        decreases d.fields.len() - i,
    {
        let f = &d.fields[i];
        let name = emit_name(&f.name, &f.rename, &d.rename_all);
        let opt = is_option_type(&f.ty);
        let schema = query_field_schema(&f.ty, known, structs);
        out.push(Parameter { name, location: ParameterLocation::Query, required: !opt, schema });
        i = i + 1;
    }
    out
}

fn one_param(p: Parameter) -> (r: Vec<Parameter>)
    ensures
        r@ == seq![p],
{
    let mut v: Vec<Parameter> = Vec::new();
    v.push(p);
    proof {
        assert(v@ =~= seq![p]);
    }
    v
}

/// What the extractor named by the type yields; `None` where the
/// placeholder fallback decides.
fn extractor_parameters(
    name: &String,
    ty: &TypeExpr,
    path_params: &[String],
    known: &[String],
    structs: &[StructDef],
) -> (r: Option<Option<Vec<Parameter>>>)
    ensures
        match (r, extractor_outcome(name@, ty.model(), texts(path_params@), texts(known@), structs@)) {
            (None, None) => true,
            (Some(None), Some(None)) => true,
            (Some(Some(v)), Some(Some(ss))) => params_fit(v@, ss, texts(known@), structs@),
            _ => false,
        },
{
    let ghost pp = texts(path_params@);
    let ghost kn = texts(known@);
    let arg = last_arg_of(ty);
    if last_ident_is(ty, "Path") {
        if let Some(a) = arg {
            match a {
                TypeExpr::Tuple { elems } => {
                    let n = if elems.len() < path_params.len() { elems.len() } else { path_params.len() };
                    let ghost ss = tuple_path_params(type_models(elems@), pp);
                    let mut out: Vec<Parameter> = Vec::new();
                    let mut i: usize = 0;
                    while i < n
                        invariant
                            n <= elems.len(),
                            n <= path_params.len(),
                            ss == tuple_path_params(type_models(elems@), pp),
                            pp == texts(path_params@),
                            kn == texts(known@),
                            ss.len() == n,
                            i <= n,
                            out.len() == i,
                            forall|k: int| 0 <= k < i ==> param_fits(#[trigger] out@[k], ss[k], kn, structs@),
                        decreases n - i,
                    {
                        proof {
                            assert(type_models(elems@)[i as int] == elems@[i as int].model());
                        }
                        let schema = type_to_schema_ref(&elems[i], known);
                        out.push(Parameter {
                            name: owned(path_params[i].as_str()),
                            location: ParameterLocation::Path,
                            required: true,
                            schema,
                        });
                        i = i + 1;
                    }
                    if out.len() > 0 {
                        return Some(Some(out));
                    }
                    return None;
                },
                _ => {
                    let pname = if path_params.len() == 1 {
                        owned(path_params[0].as_str())
                    } else {
                        owned(name.as_str())
                    };
                    let schema = type_to_schema_ref(a, known);
                    return Some(Some(one_param(Parameter {
                        name: pname,
                        location: ParameterLocation::Path,
                        required: true,
                        schema,
                    })));
                },
            }
        }
    }
    if last_ident_is(ty, "Query") {
        if let Some(a) = arg {
            if is_map_type(a) {
                return Some(None);
            }
            let la = a.last_segment();
            if let Some(sg) = la {
                if let Some(k) = find_struct(structs, sg.ident.as_str()) {
                    proof {
                        crate::types::lemma_position_of_bounds(struct_names(structs@), sg.ident@);
                    }
                    if structs[k].fields.len() > 0 {
                        return Some(Some(parse_query_struct_to_parameters(&structs[k], known, structs)));
                    }
                }
            }
            if !is_known_type(a, known, structs) {
                return Some(None);
            }
            let schema = type_to_schema_ref(a, known);
            return Some(Some(one_param(Parameter {
                name: owned(name.as_str()),
                location: ParameterLocation::Query,
                required: true,
                schema,
            })));
        }
    }
    if last_ident_is(ty, "Header") {
        if let Some(a) = arg {
            let schema = type_to_schema_ref(a, known);
            return Some(Some(one_param(Parameter {
                name: owned(name.as_str()),
                location: ParameterLocation::Header,
                required: true,
                schema,
            })));
        }
    }
    if last_ident_is(ty, "TypedHeader") {
        return Some(Some(one_param(Parameter {
            name: hyphenate(name.as_str()),
            location: ParameterLocation::Header,
            required: true,
            schema: inline_node(Schema::string()),
        })));
    }
    if last_ident_is(ty, "Json") {
        return Some(None);
    }
    None
}

/// The parameters that one handler parameter yields, given the route's
/// placeholders `path_params`, the names of types with a component of their
/// own, and the registered structs; `None` where it yields none.
pub fn parse_function_parameter(
    arg: &FnArg,
    path_params: &[String],
    known: &[String],
    structs: &[StructDef],
) -> (r: Option<Vec<Parameter>>)
    ensures
        match (r, classify(*arg, texts(path_params@), texts(known@), structs@)) {
            (None, None) => true,
            (Some(v), Some(ss)) => params_fit(v@, ss, texts(known@), structs@),
            _ => false,
        },
{
    match arg {
        FnArg::Receiver => None,
        FnArg::Typed { pat, ty } => {
            let name = match pat {
                ParamPattern::Ident { name } => name,
                ParamPattern::Wrapped { name } => name,
                ParamPattern::Unsupported => {
                    return None;
                },
            };
            if is_option_type(ty) {
                if let Some(inner) = head_arg_of(ty) {
                    if last_ident_is(inner, "TypedHeader") {
                        return Some(one_param(Parameter {
                            name: hyphenate(name.as_str()),
                            location: ParameterLocation::Header,
                            required: false,
                            schema: inline_node(Schema::string()),
                        }));
                    }
                }
            }
            match extractor_parameters(name, ty, path_params, known, structs) {
                Some(o) => o,
                None => {
                    if contains_text(path_params, name.as_str()) {
                        let schema = type_to_schema_ref(ty, known);
                        Some(one_param(Parameter {
                            name: owned(name.as_str()),
                            location: ParameterLocation::Path,
                            required: true,
                            schema,
                        }))
                    } else {
                        None
                    }
                },
            }
        },
    }
}

/// A tuple path extractor with `N` route placeholders yields exactly
/// `min(N, arity)` path parameters, element `i` named after placeholder `i`,
/// all required; this holds whenever that number is positive.
pub proof fn law_tuple_path_extractor(
    pat: ParamPattern,
    ty: TypeExpr,
    pp: Seq<Seq<char>>,
    known: Seq<Seq<char>>,
    structs: Seq<StructDef>,
)
    requires
        pattern_name(pat) is Some,
        last_ident(ty.model()) == Some("Path"@),
        last_arg(ty.model()) is Some,
        last_arg(ty.model())->0 is Tuple,
        !is_optional_typed_header(ty.model()),
        last_arg(ty.model())->0->Tuple_0.len() > 0,
        pp.len() > 0,
    ensures
        ({
            let es = last_arg(ty.model())->0->Tuple_0;
            let n = if es.len() < pp.len() { es.len() } else { pp.len() };
            let r = classify(FnArg::Typed { pat, ty }, pp, known, structs);
            &&& r is Some
            &&& r->0.len() == n
            &&& forall|i: int| 0 <= i < n ==> {
                &&& (#[trigger] r->0[i]).name == pp[i]
                &&& r->0[i].location == ParameterLocation::Path
                &&& r->0[i].required
                &&& r->0[i].schema == SchemaSpec::OfType(es[i])
            }
        }),
{
}

} // verus!
