//! JSON-Schema-shaped values and the schema of a single type expression.
use vstd::prelude::*;
use crate::text::{append_str, contains_text, owned, text_eq, texts};
use crate::types::{primitive_kind, primitive_of, type_models, segment_models, PathArgs, Primitive, TypeExpr, TypeModel};

verus! {

/// The `type` keyword of a schema.
#[derive(Clone, Copy, Debug, PartialEq, Eq, Structural)]
pub enum SchemaType {
    String,
    Number,
    Integer,
    Boolean,
    Array,
    Object,
    Null,
}

/// A schema node: either a pointer to a named component or an inline
/// definition that it owns.
pub enum SchemaRef {
    Ref { ref_path: String },
    Inline { schema: Box<Schema> },
}

/// One named property of an object schema.
pub struct Property {
    pub name: String,
    pub schema: SchemaRef,
}

/// A JSON-Schema-like node.
pub struct Schema {
    pub schema_type: Option<SchemaType>,
    pub format: Option<String>,
    pub nullable: Option<bool>,
    pub description: Option<String>,
    /// The literal values of `enum`; every value here is a string.
    pub enum_values: Option<Vec<String>>,
    /// The properties, in declaration order.
    pub properties: Option<Vec<Property>>,
    pub required: Option<Vec<String>>,
    pub items: Option<Box<SchemaRef>>,
    pub prefix_items: Option<Vec<SchemaRef>>,
    pub min_items: Option<usize>,
    pub max_items: Option<usize>,
    pub one_of: Option<Vec<SchemaRef>>,
    pub all_of: Option<Vec<SchemaRef>>,
}

/// The prefix of the path of a named component.
pub open spec fn components_prefix() -> Seq<char> {
    "#/components/schemas/"@
}

impl Schema {
    /// An empty schema with the given type.
    pub fn new(t: Option<SchemaType>) -> (r: Schema)
        ensures
            r.is_empty_with(t),
    {
        Schema {
            schema_type: t,
            format: None,
            nullable: None,
            description: None,
            enum_values: None,
            properties: None,
            required: None,
            items: None,
            prefix_items: None,
            min_items: None,
            max_items: None,
            one_of: None,
            all_of: None,
        }
    }

    /// A string schema.
    pub fn string() -> (r: Schema)
        ensures
            r.is_empty_with(Some(SchemaType::String)),
    {
        Schema::new(Some(SchemaType::String))
    }

    /// An object schema.
    pub fn object() -> (r: Schema)
        ensures
            r.is_empty_with(Some(SchemaType::Object)),
    {
        Schema::new(Some(SchemaType::Object))
    }

    /// Every keyword absent but `type`, which is `t`.
    pub open spec fn is_empty_with(self, t: Option<SchemaType>) -> bool {
        &&& self.is_bare(t)
        &&& self.nullable is None
        &&& self.description is None
    }

    /// No array keywords: `items`, `prefixItems`, `minItems`, `maxItems`.
    pub open spec fn no_array_keywords(self) -> bool {
        &&& self.items is None
        &&& self.prefix_items is None
        &&& self.min_items is None
        &&& self.max_items is None
    }

    /// No `format`, `description`, `enum`, `properties`, `required` or
    /// `oneOf`.
    pub open spec fn unannotated(self) -> bool {
        &&& self.format is None
        &&& self.description is None
        &&& self.enum_values is None
        &&& self.properties is None
        &&& self.required is None
        &&& self.one_of is None
    }

    /// Every keyword absent but `type`, which is `t`, `nullable` and
    /// `description`.
    pub open spec fn is_bare(self, t: Option<SchemaType>) -> bool {
        &&& self.schema_type == t
        &&& self.format is None
        &&& self.enum_values is None
        &&& self.properties is None
        &&& self.required is None
        &&& self.items is None
        &&& self.prefix_items is None
        &&& self.min_items is None
        &&& self.max_items is None
        &&& self.one_of is None
        &&& self.all_of is None
    }
}

/// The schema that a type expression is given, as a shape.
pub enum Shape {
    /// A pointer to the component of that name.
    Ref(Seq<char>),
    /// A primitive of that type.
    Prim(SchemaType),
    /// An array whose items have the inner shape.
    Array(Box<Shape>),
    /// A fixed-length array with one shape per position.
    Tuple(Seq<Shape>),
    /// The inner shape, also admitting `null`.
    Nullable(Box<Shape>),
    /// An object with nothing more known.
    Object,
}

pub open spec fn schema_type_of(p: Primitive) -> SchemaType {
    match p {
        Primitive::Integer => SchemaType::Integer,
        Primitive::Number => SchemaType::Number,
        Primitive::Boolean => SchemaType::Boolean,
        Primitive::Text => SchemaType::String,
    }
}

/// Collections whose items become an array schema.
pub open spec fn is_sequence_name(n: Seq<char>) -> bool {
    n == "Vec"@ || n == "HashSet"@ || n == "BTreeSet"@ || n == "VecDeque"@
}

/// The shape of the schema of type `t`, where `known` names the types that
/// have a component of their own: `Option<T>` admits null, `Box<T>` and
/// references are transparent, sequences and slices become arrays, tuples
/// fixed-length arrays, primitives their type, known types a pointer, and
/// anything else an object.
pub open spec fn shape_of(t: TypeModel, known: Seq<Seq<char>>) -> Shape
    decreases t,
{
    match t {
        TypeModel::Path(_, segs) => {
            if segs.len() == 0 {
                Shape::Object
            } else {
                let first = segs[0];
                let last = segs[segs.len() - 1];
                if first.ident == "Option"@ && first.args is Angle && first.args->Angle_0.len() > 0 {
                    Shape::Nullable(Box::new(shape_of(first.args->Angle_0[0], known)))
                } else if last.ident == "Box"@ && last.args is Angle && last.args->Angle_0.len() > 0 {
                    shape_of(last.args->Angle_0[0], known)
                } else if is_sequence_name(last.ident) && last.args is Angle && last.args->Angle_0.len() > 0 {
                    Shape::Array(Box::new(shape_of(last.args->Angle_0[0], known)))
                } else if primitive_of(t) is Some {
                    Shape::Prim(schema_type_of(primitive_of(t)->0))
                } else if known.contains(last.ident) {
                    Shape::Ref(last.ident)
                } else {
                    Shape::Object
                }
            }
        },
        TypeModel::Reference(_, _, e) => shape_of(*e, known),
        TypeModel::Slice(e) => Shape::Array(Box::new(shape_of(*e, known))),
        TypeModel::Array(e, _) => Shape::Array(Box::new(shape_of(*e, known))),
        TypeModel::Tuple(es) => Shape::Tuple(shapes_of(es, known)),
        TypeModel::Verbatim(_) => Shape::Object,
    }
}

pub open spec fn shapes_of(es: Seq<TypeModel>, known: Seq<Seq<char>>) -> Seq<Shape>
    decreases es,
{
    Seq::new(es.len(), |i: int| if 0 <= i < es.len() { shape_of(es[i], known) } else { arbitrary() })
}

/// Whether an inline schema has the given shape, `nullable` aside.
pub open spec fn schema_fits(s: Schema, sh: Shape) -> bool
    decreases sh, 0nat,
{
    match sh {
        Shape::Ref(n) => false,
        Shape::Prim(t) => s.is_bare(Some(t)) && s.description is None,
        Shape::Object => s.is_bare(Some(SchemaType::Object)) && s.description is None,
        Shape::Array(e) => {
            &&& s.unannotated()
            &&& s.schema_type == Some(SchemaType::Array)
            &&& s.items is Some
            &&& ref_fits(*s.items->0, *e)
            &&& s.prefix_items is None
            &&& s.min_items is None
            &&& s.max_items is None
            &&& s.all_of is None
        },
        Shape::Tuple(es) => {
            &&& s.unannotated()
            &&& s.schema_type == Some(SchemaType::Array)
            &&& s.items is None
            &&& s.prefix_items is Some
            &&& s.prefix_items->0.len() == es.len()
            &&& forall|i: int| 0 <= i < es.len() ==> ref_fits(#[trigger] s.prefix_items->0@[i], es[i])
            &&& s.min_items == Some(es.len() as usize)
            &&& s.max_items == Some(es.len() as usize)
            &&& s.all_of is None
        },
        Shape::Nullable(e) => match *e {
            Shape::Ref(_) => {
                &&& s.unannotated()
                &&& s.schema_type is None
                &&& s.items is None
                &&& s.prefix_items is None
                &&& s.min_items is None
                &&& s.max_items is None
                &&& s.all_of is Some
                &&& s.all_of->0.len() == 1
                &&& ref_fits(s.all_of->0@[0], *e)
            },
            other => schema_fits(s, other),
        },
    }
}

/// Whether a schema node has the given shape.
pub open spec fn ref_fits(r: SchemaRef, sh: Shape) -> bool
    decreases sh, 1nat,
{
    match sh {
        Shape::Ref(n) => r is Ref && r->ref_path@ == components_prefix() + n,
        Shape::Nullable(_) => r is Inline && r->schema.nullable == Some(true) && schema_fits(*r->schema, sh),
        _ => r is Inline && r->schema.nullable is None && schema_fits(*r->schema, sh),
    }
}

pub proof fn lemma_arg_decreases(ty: TypeExpr, i: int, j: int)
    requires
        ty is Path,
        0 <= i < ty->segments.len(),
        ty->segments@[i].args is Angle,
        0 <= j < ty->segments@[i].args->args.len(),
    ensures
        decreases_to!(ty => ty->segments@[i].args->args@[j]),
{
    let segs = ty->segments;
    assert(decreases_to!(ty => segs));
    assert(decreases_to!(segs => segs@));
    assert(decreases_to!(segs@ => segs@[i]));
    let sg = segs@[i];
    assert(decreases_to!(sg => sg.args));
    let a = sg.args->args;
    assert(decreases_to!(sg.args => a));
    assert(decreases_to!(a => a@));
    assert(decreases_to!(a@ => a@[j]));
}

/// A schema that fits a shape has no `description`.
pub proof fn lemma_fits_without_description(s: Schema, sh: Shape)
    requires
        schema_fits(s, sh),
    ensures
        s.description is None,
    decreases sh,
{
    if let Shape::Nullable(e) = sh {
        if !(*e is Ref) {
            lemma_fits_without_description(s, *e);
        }
    }
}

/// Whether a schema fits a shape does not depend on its `nullable`.
pub proof fn lemma_fits_ignores_nullable(s1: Schema, s2: Schema, sh: Shape)
    requires
        schema_fits(s1, sh),
        s2 == (Schema { nullable: s2.nullable, ..s1 }),
    ensures
        schema_fits(s2, sh),
    decreases sh,
{
    if let Shape::Nullable(e) = sh {
        if !(*e is Ref) {
            lemma_fits_ignores_nullable(s1, s2, *e);
        }
    }
}

pub fn inline_node(s: Schema) -> (r: SchemaRef)
    ensures
        r == (SchemaRef::Inline { schema: Box::new(s) }),
{
    SchemaRef::Inline { schema: Box::new(s) }
}

/// The pointer to the component named `name`.
pub fn component_ref(name: &str) -> (r: SchemaRef)
    ensures
        r is Ref,
        r->ref_path@ == components_prefix() + name@,
{
    let mut p = owned("#/components/schemas/");
    append_str(&mut p, name);
    SchemaRef::Ref { ref_path: p }
}

/// The node admitting `null` besides what `inner` admits: an inline node is
/// marked `nullable`, a pointer is wrapped in `allOf`.
pub fn make_nullable(inner: SchemaRef, Ghost(sh): Ghost<Shape>) -> (r: SchemaRef)
    requires
        ref_fits(inner, sh),
    ensures
        ref_fits(r, Shape::Nullable(Box::new(sh))),
{
    match inner {
        SchemaRef::Ref { ref_path } => {
            let ghost old_inner = SchemaRef::Ref { ref_path };
            proof {
                assert(sh is Ref);
            }
            let mut v: Vec<SchemaRef> = Vec::new();
            v.push(SchemaRef::Ref { ref_path });
            let mut s = Schema::new(None);
            s.nullable = Some(true);
            s.all_of = Some(v);
            proof {
                assert(s.all_of->0@.len() == 1);
                assert(s.all_of->0@[0] == old_inner);
                assert(ref_fits(s.all_of->0@[0], sh));
                assert(schema_fits(s, Shape::Nullable(Box::new(sh))));
            }
            inline_node(s)
        },
        SchemaRef::Inline { schema } => {
            let ghost s0 = *schema;
            let mut s = *schema;
            s.nullable = Some(true);
            proof {
                assert(schema_fits(s0, sh));
                lemma_fits_ignores_nullable(s0, s, sh);
                assert(schema_fits(s, Shape::Nullable(Box::new(sh))));
            }
            inline_node(s)
        },
    }
}

fn is_sequence(n: &str) -> (r: bool)
    ensures
        r == is_sequence_name(n@),
{
    text_eq(n, "Vec") || text_eq(n, "HashSet") || text_eq(n, "BTreeSet") || text_eq(n, "VecDeque")
}

/// An array node whose items are `item`.
fn array_of(item: SchemaRef, Ghost(sh): Ghost<Shape>) -> (r: SchemaRef)
    requires
        ref_fits(item, sh),
    ensures
        ref_fits(r, Shape::Array(Box::new(sh))),
{
    let mut s = Schema::new(Some(SchemaType::Array));
    s.items = Some(Box::new(item));
    inline_node(s)
}

fn primitive_schema_type(p: Primitive) -> (r: SchemaType)
    ensures
        r == schema_type_of(p),
{
    match p {
        Primitive::Integer => SchemaType::Integer,
        Primitive::Number => SchemaType::Number,
        Primitive::Boolean => SchemaType::Boolean,
        Primitive::Text => SchemaType::String,
    }
}

/// The schema node of a type expression; `known` names the types that have
/// a component of their own.
pub fn type_to_schema_ref(ty: &TypeExpr, known: &[String]) -> (r: SchemaRef)
    ensures
        ref_fits(r, shape_of(ty.model(), texts(known@))),
    decreases ty,
{
    let ghost kn = texts(known@);
    match ty {
        TypeExpr::Path { segments, .. } => {
            let n = segments.len();
            if n == 0 {
                return inline_node(Schema::object());
            }
            let first = &segments[0];
            let last = &segments[n - 1];
            proof {
                assert(segment_models(segments@)[0] == first.model());
                assert(segment_models(segments@)[n - 1] == last.model());
            }
            if text_eq(first.ident.as_str(), "Option") {
                if let PathArgs::Angle { args } = &first.args {
                    if args.len() > 0 {
                        proof {
                            lemma_arg_decreases(*ty, 0, 0);
                            assert(type_models(args@)[0] == args@[0].model());
                        }
                        let inner = type_to_schema_ref(&args[0], known);
                        return make_nullable(inner, Ghost(shape_of(args@[0].model(), kn)));
                    }
                }
            }
            if text_eq(last.ident.as_str(), "Box") {
                if let PathArgs::Angle { args } = &last.args {
                    if args.len() > 0 {
                        proof {
                            lemma_arg_decreases(*ty, n - 1, 0);
                            assert(type_models(args@)[0] == args@[0].model());
                        }
                        return type_to_schema_ref(&args[0], known);
                    }
                }
            }
            if is_sequence(last.ident.as_str()) {
                if let PathArgs::Angle { args } = &last.args {
                    if args.len() > 0 {
                        proof {
                            lemma_arg_decreases(*ty, n - 1, 0);
                            assert(type_models(args@)[0] == args@[0].model());
                        }
                        let inner = type_to_schema_ref(&args[0], known);
                        return array_of(inner, Ghost(shape_of(args@[0].model(), kn)));
                    }
                }
            }
            match primitive_kind(ty) {
                Some(p) => {
                    return inline_node(Schema::new(Some(primitive_schema_type(p))));
                },
                None => {},
            }
            if contains_text(known, last.ident.as_str()) {
                return component_ref(last.ident.as_str());
            }
            inline_node(Schema::object())
        },
        TypeExpr::Reference { elem, .. } => type_to_schema_ref(elem, known),
        TypeExpr::Slice { elem } => {
            let inner = type_to_schema_ref(elem, known);
            array_of(inner, Ghost(shape_of(elem.model(), kn)))
        },
        TypeExpr::Array { elem, .. } => {
            let inner = type_to_schema_ref(elem, known);
            array_of(inner, Ghost(shape_of(elem.model(), kn)))
        },
        TypeExpr::Tuple { elems } => {
            let ghost shs = shapes_of(type_models(elems@), kn);
            let mut items: Vec<SchemaRef> = Vec::new();
            let mut i: usize = 0;
            while i < elems.len()
                invariant
                    *ty == (TypeExpr::Tuple { elems: *elems }),
                    kn == texts(known@),
                    shs == shapes_of(type_models(elems@), kn),
                    i <= elems.len(),
                    items.len() == i,
                    forall|k: int| 0 <= k < i ==> ref_fits(#[trigger] items@[k], shs[k]),
                decreases elems.len() - i,
            {
                proof {
                    assert(decreases_to!(*ty => ty->elems));
                    assert(decreases_to!(ty->elems => ty->elems@));
                    assert(decreases_to!(ty->elems@ => ty->elems@[i as int]));
                    assert(type_models(elems@)[i as int] == elems@[i as int].model());
                }
                let it = type_to_schema_ref(&elems[i], known);
                items.push(it);
                i = i + 1;
            }
            let len = elems.len();
            let mut s = Schema::new(Some(SchemaType::Array));
            s.prefix_items = Some(items);
            s.min_items = Some(len);
            s.max_items = Some(len);
            inline_node(s)
        },
        TypeExpr::Verbatim { .. } => inline_node(Schema::object()),
    }
}

} // verus!
