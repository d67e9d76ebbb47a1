//! Enum schemas: a string enumeration when every variant is a unit, else one
//! alternative per variant under `oneOf`.
use vstd::prelude::*;
use crate::items::{EnumDef, VariantDef, VariantFields};
use crate::rename::{emit_name, emitted_name};
use crate::schema::{
    inline_node, ref_fits, shape_of, type_to_schema_ref, Property, Schema, SchemaRef, SchemaType,
};
use crate::struct_schema::{
    build_properties, every_field, field_name, kept, lemma_optional_not_required, props_fit, required_names,
};
use crate::text::{copy_opt, opt_view, owned, texts};
use crate::types::is_option;

verus! {

/// The key of a variant: its explicit rename, else its name under the
/// enum-level policy.
pub open spec fn variant_key(v: VariantDef, rule: Option<Seq<char>>) -> Seq<char> {
    emitted_name(v.name@, opt_view(v.rename), rule)
}

/// The policy for the fields of a variant: its own, else the enum's.
pub open spec fn field_rule(v: VariantDef, rule: Option<Seq<char>>) -> Option<Seq<char>> {
    match v.rename_all {
        Some(x) => Some(x@),
        None => rule,
    }
}

pub open spec fn all_unit(vs: Seq<VariantDef>) -> bool {
    forall|i: int| 0 <= i < vs.len() ==> (#[trigger] vs[i]).fields is Unit
}

/// Whether `r` is the schema of the payload of a variant with data.
pub open spec fn payload_fits(r: SchemaRef, v: VariantDef, rule: Option<Seq<char>>, known: Seq<Seq<char>>) -> bool {
    match v.fields {
        VariantFields::Unit => false,
        VariantFields::Unnamed { types } => if types.len() == 1 {
            ref_fits(r, shape_of(types@[0].model(), known))
        } else {
            &&& r is Inline
            &&& r->schema.unannotated()
            &&& r->schema.nullable is None
            &&& r->schema.all_of is None
            &&& r->schema.schema_type == Some(SchemaType::Array)
            &&& r->schema.items is None
            &&& r->schema.prefix_items is Some
            &&& r->schema.prefix_items->0.len() == types.len()
            &&& forall|i: int| 0 <= i < types.len() ==> ref_fits(
                #[trigger] r->schema.prefix_items->0@[i],
                shape_of(types@[i].model(), known),
            )
            &&& r->schema.min_items == Some(types.len())
            &&& r->schema.max_items == Some(types.len())
        },
        VariantFields::Named { fields } => {
            let fr = field_rule(v, rule);
            &&& r is Inline
            &&& r->schema.schema_type == Some(SchemaType::Object)
            &&& r->schema.format is None
            &&& r->schema.description is None
            &&& r->schema.nullable is None
            &&& r->schema.enum_values is None
            &&& r->schema.one_of is None
            &&& r->schema.all_of is None
            &&& r->schema.no_array_keywords()
            &&& (kept(fields@, fr, every_field()).len() == 0 <==> r->schema.properties is None)
            &&& (r->schema.properties is Some ==> props_fit(r->schema.properties->0@, fields@, fr, known, every_field()))
            &&& (required_names(fields@, fr, every_field()).len() == 0 <==> r->schema.required is None)
            &&& (r->schema.required is Some ==> texts(r->schema.required->0@) == required_names(fields@, fr, every_field()))
        },
    }
}

/// Whether `s` is the alternative of variant `v` inside `oneOf`: a unit
/// variant is a one-value string enumeration, any other an object with the
/// key as its single, required property.
pub open spec fn variant_fits(s: Schema, v: VariantDef, rule: Option<Seq<char>>, known: Seq<Seq<char>>) -> bool {
    let key = variant_key(v, rule);
    &&& opt_view(s.description) == opt_view(v.description)
    &&& s.one_of is None
    &&& s.format is None
    &&& s.nullable is None
    &&& s.all_of is None
    &&& s.no_array_keywords()
    &&& if v.fields is Unit {
        &&& s.schema_type == Some(SchemaType::String)
        &&& s.enum_values is Some
        &&& texts(s.enum_values->0@) == seq![key]
        &&& s.properties is None
        &&& s.required is None
    } else {
        &&& s.schema_type == Some(SchemaType::Object)
        &&& s.enum_values is None
        &&& s.properties is Some
        &&& s.properties->0.len() == 1
        &&& s.properties->0@[0].name@ == key
        &&& payload_fits(s.properties->0@[0].schema, v, rule, known)
        &&& s.required is Some
        &&& texts(s.required->0@) == seq![key]
    }
}

/// Whether `s` is the schema of enum `e`.
pub open spec fn enum_fits(s: Schema, e: EnumDef, known: Seq<Seq<char>>) -> bool {
    let vs = e.variants@;
    let rule = opt_view(e.rename_all);
    &&& opt_view(s.description) == opt_view(e.description)
    &&& s.format is None
    &&& s.nullable is None
    &&& s.all_of is None
    &&& s.no_array_keywords()
    &&& s.properties is None
    &&& s.required is None
    &&& if all_unit(vs) {
        &&& s.schema_type == Some(SchemaType::String)
        &&& s.one_of is None
        &&& (vs.len() == 0 <==> s.enum_values is None)
        &&& (s.enum_values is Some ==> {
            &&& s.enum_values->0.len() == vs.len()
            &&& forall|i: int| 0 <= i < vs.len() ==> (#[trigger] s.enum_values->0@[i])@ == variant_key(vs[i], rule)
        })
    } else {
        &&& s.schema_type is None
        &&& s.enum_values is None
        &&& s.one_of is Some
        &&& s.one_of->0.len() == vs.len()
        &&& forall|i: int| 0 <= i < vs.len() ==> {
            &&& (#[trigger] s.one_of->0@[i]) is Inline
            &&& variant_fits(*s.one_of->0@[i]->schema, vs[i], rule, known)
        }
    }
}

fn single_text(s: String) -> (r: Vec<String>)
    ensures
        texts(r@) == seq![s@],
{
    let mut v: Vec<String> = Vec::new();
    v.push(s);
    proof {
        assert(texts(v@) =~= seq![s@]);
    }
    v
}

/// The schema of the payload of a variant with data.
fn payload_schema(v: &VariantDef, rule: &Option<String>, known: &[String]) -> (r: SchemaRef)
    requires
        !(v.fields is Unit),
    ensures
        payload_fits(r, *v, opt_view(*rule), texts(known@)),
{
    match &v.fields {
        VariantFields::Unit => inline_node(Schema::object()),
        VariantFields::Unnamed { types } => {
            if types.len() == 1 {
                type_to_schema_ref(&types[0], known)
            } else {
                let mut items: Vec<SchemaRef> = Vec::new();
                let mut i: usize = 0;
                while i < types.len()
                    invariant
                        i <= types.len(),
                        items.len() == i,
                        forall|k: int| 0 <= k < i ==> ref_fits(#[trigger] items@[k], shape_of(types@[k].model(), texts(known@))),
                    decreases types.len() - i,
                {
                    items.push(type_to_schema_ref(&types[i], known));
                    i = i + 1;
                }
                let n = types.len();
                let mut s = Schema::new(Some(SchemaType::Array));
                s.prefix_items = Some(items);
                s.min_items = Some(n);
                s.max_items = Some(n);
                inline_node(s)
            }
        },
        VariantFields::Named { fields } => {
            let fr = match &v.rename_all {
                Some(x) => Some(owned(x.as_str())),
                None => copy_opt(rule),
            };
            let none: Vec<String> = Vec::new();
            proof {
                assert(texts(none@) =~= Seq::<Seq<char>>::empty());
            }
            let (props, req) = build_properties(fields, &fr, known, none.as_slice(), none.as_slice());
            let mut s = Schema::object();
            if props.len() > 0 {
                s.properties = Some(props);
            }
            if req.len() > 0 {
                s.required = Some(req);
            }
            inline_node(s)
        },
    }
}

/// The alternative of one variant.
fn variant_schema(v: &VariantDef, rule: &Option<String>, known: &[String]) -> (r: Schema)
    ensures
        variant_fits(r, *v, opt_view(*rule), texts(known@)),
{
    let key = emit_name(&v.name, &v.rename, rule);
    match &v.fields {
        VariantFields::Unit => {
            let mut s = Schema::string();
            s.description = copy_opt(&v.description);
            s.enum_values = Some(single_text(key));
            s
        },
        _ => {
            let payload = payload_schema(v, rule, known);
            let mut props: Vec<Property> = Vec::new();
            let req = single_text(owned(key.as_str()));
            props.push(Property { name: key, schema: payload });
            let mut s = Schema::object();
            s.description = copy_opt(&v.description);
            s.properties = Some(props);
            s.required = Some(req);
            s
        },
    }
}

/// The schema of an enum. When every variant is a unit, a string schema
/// whose `enum` lists each variant's key; otherwise a `oneOf` with one
/// alternative per variant, in declaration order.
pub fn parse_enum_to_schema(e: &EnumDef, known: &[String]) -> (r: Schema)
    ensures
        enum_fits(r, *e, texts(known@)),
{
    let ghost vs = e.variants@;
    let ghost rule = opt_view(e.rename_all);
    let mut unit = true;
    let mut i: usize = 0;
    while i < e.variants.len()
        invariant
            vs == e.variants@,
            i <= vs.len(),
            unit == forall|k: int| 0 <= k < i ==> (#[trigger] vs[k]).fields is Unit,
        decreases vs.len() - i,
    {
        match &e.variants[i].fields {
            VariantFields::Unit => {},
            _ => {
                unit = false;
            },
        }
        i = i + 1;
    }
    if unit {
        let mut values: Vec<String> = Vec::new();
        let mut j: usize = 0;
        while j < e.variants.len()
            invariant
                vs == e.variants@,
                rule == opt_view(e.rename_all),
                j <= vs.len(),
                values.len() == j,
                forall|k: int| 0 <= k < j ==> (#[trigger] values@[k])@ == variant_key(vs[k], rule),
            decreases vs.len() - j,
        {
            let v = &e.variants[j];
            values.push(emit_name(&v.name, &v.rename, &e.rename_all));
            j = j + 1;
        }
        let mut s = Schema::string();
        s.description = copy_opt(&e.description);
        if values.len() > 0 {
            s.enum_values = Some(values);
        }
        s
    } else {
        let mut alts: Vec<SchemaRef> = Vec::new();
        let mut j: usize = 0;
        while j < e.variants.len()
            invariant
                vs == e.variants@,
                rule == opt_view(e.rename_all),
                j <= vs.len(),
                alts.len() == j,
                forall|k: int| 0 <= k < j ==> {
                    &&& (#[trigger] alts@[k]) is Inline
                    &&& variant_fits(*alts@[k]->schema, vs[k], rule, texts(known@))
                },
            decreases vs.len() - j,
        {
            let alt = variant_schema(&e.variants[j], &e.rename_all, known);
            alts.push(inline_node(alt));
            j = j + 1;
        }
        let mut s = Schema::new(None);
        s.description = copy_opt(&e.description);
        s.one_of = Some(alts);
        s
    }
}

/// The schema of an enum whose variants are all units is a string schema
/// whose `enum` holds one value per variant, in order, each the variant's
/// explicit rename or else its name under the enum-level policy.
pub proof fn law_unit_enum_is_string_enumeration(s: Schema, e: EnumDef, known: Seq<Seq<char>>)
    requires
        enum_fits(s, e, known),
        all_unit(e.variants@),
        e.variants.len() > 0,
    ensures
        s.schema_type == Some(SchemaType::String),
        s.enum_values is Some,
        s.enum_values->0.len() == e.variants.len(),
        forall|i: int| 0 <= i < e.variants.len() ==>
            (#[trigger] s.enum_values->0@[i])@ == variant_key(e.variants@[i], opt_view(e.rename_all)),
{
}

/// The schema of an enum with at least one variant that carries data has no
/// top-level `type` and one `oneOf` alternative per variant, in order.
pub proof fn law_data_enum_is_one_of(s: Schema, e: EnumDef, known: Seq<Seq<char>>, j: int)
    requires
        enum_fits(s, e, known),
        0 <= j < e.variants.len(),
        !(e.variants@[j].fields is Unit),
    ensures
        s.schema_type is None,
        s.one_of is Some,
        s.one_of->0.len() == e.variants.len(),
        forall|i: int| 0 <= i < e.variants.len() ==> {
            &&& (#[trigger] s.one_of->0@[i]) is Inline
            &&& variant_fits(*s.one_of->0@[i]->schema, e.variants@[i], opt_view(e.rename_all), known)
        },
{
    assert(!all_unit(e.variants@));
}

/// Inside the alternative of a struct-like variant, a field typed
/// `Option<T>` is never listed in `required`, provided no other field of
/// the variant is emitted under the same name.
pub proof fn law_optional_variant_field_not_required(s: Schema, e: EnumDef, known: Seq<Seq<char>>, i: int, q: int)
    requires
        enum_fits(s, e, known),
        0 <= i < e.variants.len(),
        e.variants@[i].fields is Named,
        0 <= q < e.variants@[i].fields->fields.len(),
        is_option(e.variants@[i].fields->fields@[q].ty.model()),
        forall|k: int| 0 <= k < e.variants@[i].fields->fields.len() && k != q ==>
            field_name(#[trigger] e.variants@[i].fields->fields@[k], field_rule(e.variants@[i], opt_view(e.rename_all)))
                != field_name(e.variants@[i].fields->fields@[q], field_rule(e.variants@[i], opt_view(e.rename_all))),
    ensures
        s.one_of is Some,
        s.one_of->0@[i] is Inline,
        ({
            let alt = *s.one_of->0@[i]->schema;
            let inner = alt.properties->0@[0].schema;
            let fs = e.variants@[i].fields->fields;
            let fr = field_rule(e.variants@[i], opt_view(e.rename_all));
            &&& alt.properties is Some
            &&& inner is Inline
            &&& (inner->schema.required is Some ==> !texts(inner->schema.required->0@).contains(field_name(fs@[q], fr)))
        }),
{
    law_data_enum_is_one_of(s, e, known, i);
    let fs = e.variants@[i].fields->fields;
    let fr = field_rule(e.variants@[i], opt_view(e.rename_all));
    lemma_optional_not_required(fs@, fr, every_field(), q);
}

} // verus!
