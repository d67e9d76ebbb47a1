//! Struct and field schemas.
use vstd::prelude::*;
use crate::items::{FieldDef, StructDef};
use crate::rename::{emit_name, emitted_name};
use crate::schema::{
    inline_node, lemma_fits_without_description, ref_fits, shape_of, type_to_schema_ref, Property,
    Schema, SchemaRef, SchemaType,
};
use crate::text::{contains_text, opt_view, owned, texts};
use crate::types::{is_option, is_option_type};

verus! {

/// A field is required unless it is optional, has a default or is skipped
/// on a condition.
pub open spec fn field_required(f: FieldDef) -> bool {
    !is_option(f.ty.model()) && !f.has_default && !f.skip_if
}

/// A choice of fields by name: those named in `omit` are left out, and
/// where `pick` is not empty only those named in it are kept; a field
/// matches by its own name or by its emitted one.
pub struct Selection {
    pub omit: Seq<Seq<char>>,
    pub pick: Seq<Seq<char>>,
}

/// The selection that keeps every field.
pub open spec fn every_field() -> Selection {
    Selection { omit: seq![], pick: seq![] }
}

pub open spec fn selected(f: FieldDef, rule: Option<Seq<char>>, sel: Selection) -> bool {
    let own = f.name@;
    let emitted = field_name(f, rule);
    &&& !(sel.omit.len() > 0 && (sel.omit.contains(own) || sel.omit.contains(emitted)))
    &&& !(sel.pick.len() > 0 && !sel.pick.contains(own) && !sel.pick.contains(emitted))
}

/// Whether a field stands in the schema: not skipped, and selected.
pub open spec fn stands(f: FieldDef, rule: Option<Seq<char>>, sel: Selection) -> bool {
    !f.skip && selected(f, rule, sel)
}

/// The fields that stand in the schema, in order.
pub open spec fn kept(fs: Seq<FieldDef>, rule: Option<Seq<char>>, sel: Selection) -> Seq<FieldDef>
    decreases fs.len(),
{
    if fs.len() == 0 {
        seq![]
    } else if !stands(fs.last(), rule, sel) {
        kept(fs.drop_last(), rule, sel)
    } else {
        kept(fs.drop_last(), rule, sel).push(fs.last())
    }
}

/// The emitted name of a field under the policy `rule`.
pub open spec fn field_name(f: FieldDef, rule: Option<Seq<char>>) -> Seq<char> {
    emitted_name(f.name@, opt_view(f.rename), rule)
}

/// The emitted names of the required fields that stand in the schema, in
/// order.
pub open spec fn required_names(fs: Seq<FieldDef>, rule: Option<Seq<char>>, sel: Selection) -> Seq<Seq<char>>
    decreases fs.len(),
{
    if fs.len() == 0 {
        seq![]
    } else if stands(fs.last(), rule, sel) && field_required(fs.last()) {
        required_names(fs.drop_last(), rule, sel).push(field_name(fs.last(), rule))
    } else {
        required_names(fs.drop_last(), rule, sel)
    }
}

/// Whether `r` is the schema of field `f`: the schema of its type, with the
/// doc comment as `description`; a pointer that carries a doc comment is
/// wrapped in `allOf`.
pub open spec fn field_fits(r: SchemaRef, f: FieldDef, known: Seq<Seq<char>>) -> bool {
    let sh = shape_of(f.ty.model(), known);
    match f.description {
        None => ref_fits(r, sh),
        Some(d) => if sh is Ref {
            &&& r is Inline
            &&& r->schema.schema_type is None
            &&& opt_view(r->schema.description) == Some(d@)
            &&& r->schema.all_of is Some
            &&& r->schema.all_of->0.len() == 1
            &&& ref_fits(r->schema.all_of->0@[0], sh)
        } else {
            &&& r is Inline
            &&& r->schema.description is Some
            &&& r->schema.description->0@ == d@
            &&& ref_fits(SchemaRef::Inline { schema: Box::new(Schema { description: None, ..*r->schema }) }, sh)
        },
    }
}

/// Whether `props` are the properties of the fields `fs` under `rule`.
pub open spec fn props_fit(props: Seq<Property>, fs: Seq<FieldDef>, rule: Option<Seq<char>>, known: Seq<Seq<char>>, sel: Selection) -> bool {
    &&& props.len() == kept(fs, rule, sel).len()
    &&& forall|k: int| 0 <= k < props.len() ==> {
        &&& (#[trigger] props[k]).name@ == field_name(kept(fs, rule, sel)[k], rule)
        &&& field_fits(props[k].schema, kept(fs, rule, sel)[k], known)
    }
}

/// The schema of one field.
pub fn field_schema(f: &FieldDef, known: &[String]) -> (r: SchemaRef)
    ensures
        field_fits(r, *f, texts(known@)),
{
    let sr = type_to_schema_ref(&f.ty, known);
    let ghost sh = shape_of(f.ty.model(), texts(known@));
    match &f.description {
        None => sr,
        Some(d) => match sr {
            SchemaRef::Inline { schema } => {
                let ghost s0 = *schema;
                let mut s = *schema;
                s.description = Some(owned(d.as_str()));
                proof {
                    assert(ref_fits(SchemaRef::Inline { schema: Box::new(s0) }, sh));
                    assert(!(sh is Ref));
                    let s1 = Schema { description: None, ..s };
                    lemma_fits_without_description(s0, sh);
                    assert(s1 == s0);
                    assert(ref_fits(SchemaRef::Inline { schema: Box::new(s1) }, sh));
                }
                inline_node(s)
            },
            SchemaRef::Ref { ref_path } => {
                let ghost r0 = SchemaRef::Ref { ref_path };
                let mut v: Vec<SchemaRef> = Vec::new();
                v.push(SchemaRef::Ref { ref_path });
                let mut s = Schema::new(None);
                s.description = Some(owned(d.as_str()));
                s.all_of = Some(v);
                proof {
                    assert(sh is Ref);
                    assert(s.all_of->0@[0] == r0);
                }
                inline_node(s)
            },
        },
    }
}

/// The properties and the required names of the fields `fields` under the
/// policy `rule`.
pub fn build_properties(
    fields: &Vec<FieldDef>,
    rule: &Option<String>,
    known: &[String],
    omit: &[String],
    pick: &[String],
) -> (r: (Vec<Property>, Vec<String>))
    ensures
        props_fit(r.0@, fields@, opt_view(*rule), texts(known@), Selection { omit: texts(omit@), pick: texts(pick@) }),
        texts(r.1@) == required_names(fields@, opt_view(*rule), Selection { omit: texts(omit@), pick: texts(pick@) }),
{
    let ghost sel = Selection { omit: texts(omit@), pick: texts(pick@) };
    let ghost rl = opt_view(*rule);
    let ghost kn = texts(known@);
    let mut props: Vec<Property> = Vec::new();
    let mut req: Vec<String> = Vec::new();
    let mut i: usize = 0;
    while i < fields.len()
        invariant
            i <= fields.len(),
            rl == opt_view(*rule),
            kn == texts(known@),
            sel == (Selection { omit: texts(omit@), pick: texts(pick@) }),
            props_fit(props@, fields@.subrange(0, i as int), rl, kn, sel),
            texts(req@) == required_names(fields@.subrange(0, i as int), rl, sel),
        decreases fields.len() - i,
    {
        let f = &fields[i];
        let ghost pre = fields@.subrange(0, i as int);
        let ghost cur = fields@.subrange(0, i + 1);
        proof {
            assert(cur.drop_last() =~= pre);
            assert(cur.last() == *f);
        }
        let name = emit_name(&f.name, &f.rename, rule);
        let own_out = contains_text(omit, f.name.as_str()) || contains_text(omit, name.as_str());
        let own_in = contains_text(pick, f.name.as_str()) || contains_text(pick, name.as_str());
        let chosen = !(omit.len() > 0 && own_out) && !(pick.len() > 0 && !own_in);
        if !f.skip && chosen {
            let sch = field_schema(f, known);
            if !is_option_type(&f.ty) && !f.has_default && !f.skip_if {
                let ghost before = req@;
                req.push(owned(name.as_str()));
                proof {
                    assert(texts(req@) =~= texts(before).push(name@));
                }
            }
            let ghost before = props@;
            props.push(Property { name, schema: sch });
            proof {
                assert(kept(cur, rl, sel) == kept(pre, rl, sel).push(*f));
                assert forall|k: int| 0 <= k < props@.len() implies {
                    &&& (#[trigger] props@[k]).name@ == field_name(kept(cur, rl, sel)[k], rl)
                    &&& field_fits(props@[k].schema, kept(cur, rl, sel)[k], kn)
                } by {
                    if k < before.len() {
                        assert(props@[k] == before[k]);
                    }
                }
            }
        } else {
            proof {
                assert(kept(cur, rl, sel) == kept(pre, rl, sel));
            }
        }
        i = i + 1;
    }
    proof {
        assert(fields@.subrange(0, fields.len() as int) =~= fields@);
    }
    (props, req)
}

/// Whether `s` is the schema of struct `d`: an object with its doc comment
/// as `description`, one property per field that is not skipped, and the
/// names of the required ones; empty lists are left out.
pub open spec fn struct_fits(s: Schema, d: StructDef, known: Seq<Seq<char>>) -> bool {
    let rule = opt_view(d.rename_all);
    &&& s.schema_type == Some(SchemaType::Object)
    &&& s.nullable is None
    &&& opt_view(s.description) == opt_view(d.description)
    &&& (kept(d.fields@, rule, every_field()).len() == 0 <==> s.properties is None)
    &&& (s.properties is Some ==> props_fit(s.properties->0@, d.fields@, rule, known, every_field()))
    &&& (required_names(d.fields@, rule, every_field()).len() == 0 <==> s.required is None)
    &&& (s.required is Some ==> texts(s.required->0@) == required_names(d.fields@, rule, every_field()))
    &&& s.one_of is None
    &&& s.enum_values is None
    &&& s.format is None
    &&& s.no_array_keywords()
    &&& s.all_of is None
}

/// The schema of a struct.
pub fn parse_struct_to_schema(def: &StructDef, known: &[String]) -> (r: Schema)
    ensures
        struct_fits(r, *def, texts(known@)),
{
    let none: Vec<String> = Vec::new();
    proof {
        assert(texts(none@) =~= Seq::<Seq<char>>::empty());
    }
    let (props, req) = build_properties(&def.fields, &def.rename_all, known, none.as_slice(), none.as_slice());
    let mut s = Schema::object();
    s.description = crate::text::copy_opt(&def.description);
    if props.len() > 0 {
        s.properties = Some(props);
    }
    if req.len() > 0 {
        s.required = Some(req);
    }
    s
}

/// Whether `s` is the schema of struct `d` restricted to the fields that
/// `sel` chooses: an object with one property per chosen field and the names
/// of the required ones; empty lists are left out.
pub open spec fn filtered_fits(s: Schema, d: StructDef, sel: Selection, known: Seq<Seq<char>>) -> bool {
    let rule = opt_view(d.rename_all);
    &&& s.schema_type == Some(SchemaType::Object)
    &&& s.nullable is None
    &&& s.description is None
    &&& (kept(d.fields@, rule, sel).len() == 0 <==> s.properties is None)
    &&& (s.properties is Some ==> props_fit(s.properties->0@, d.fields@, rule, known, sel))
    &&& (required_names(d.fields@, rule, sel).len() == 0 <==> s.required is None)
    &&& (s.required is Some ==> texts(s.required->0@) == required_names(d.fields@, rule, sel))
    &&& s.one_of is None
    &&& s.enum_values is None
    &&& s.format is None
    &&& s.no_array_keywords()
    &&& s.all_of is None
}

/// The schema of a struct restricted by name: fields in `omit_set` are left
/// out, and where `pick_set` is not empty only the fields in it are kept.
pub fn generate_filtered_schema(def: &StructDef, omit_set: &[String], pick_set: &[String], known: &[String]) -> (r: Schema)
    ensures
        filtered_fits(r, *def, Selection { omit: texts(omit_set@), pick: texts(pick_set@) }, texts(known@)),
{
    let (props, req) = build_properties(&def.fields, &def.rename_all, known, omit_set, pick_set);
    let mut s = Schema::object();
    if props.len() > 0 {
        s.properties = Some(props);
    }
    if req.len() > 0 {
        s.required = Some(req);
    }
    s
}

/// Every name in `required_names` is the name of a kept, required field.
pub proof fn lemma_required_names_come_from_required(fs: Seq<FieldDef>, rule: Option<Seq<char>>, sel: Selection)
    ensures
        forall|j: int| 0 <= j < required_names(fs, rule, sel).len() ==> exists|k: int| {
            &&& 0 <= k < fs.len()
            &&& stands(fs[k], rule, sel)
            &&& field_required(fs[k])
            &&& field_name(fs[k], rule) == #[trigger] required_names(fs, rule, sel)[j]
        },
    decreases fs.len(),
{
    if fs.len() > 0 {
        let pre = fs.drop_last();
        lemma_required_names_come_from_required(pre, rule, sel);
        assert forall|j: int| 0 <= j < required_names(fs, rule, sel).len() implies exists|k: int| {
            &&& 0 <= k < fs.len()
            &&& stands(fs[k], rule, sel)
            &&& field_required(fs[k])
            &&& field_name(fs[k], rule) == #[trigger] required_names(fs, rule, sel)[j]
        } by {
            if j < required_names(pre, rule, sel).len() {
                assert(required_names(fs, rule, sel)[j] == required_names(pre, rule, sel)[j]);
                let k = choose|k: int| {
                    &&& 0 <= k < pre.len()
                    &&& stands(pre[k], rule, sel)
                    &&& field_required(pre[k])
                    &&& field_name(pre[k], rule) == #[trigger] required_names(pre, rule, sel)[j]
                };
                assert(fs[k] == pre[k]);
            } else {
                assert(fs[fs.len() - 1] == fs.last());
            }
        }
    }
}

/// An optional field's name is not among the required names, provided no
/// other field is emitted under the same name.
pub proof fn lemma_optional_not_required(fs: Seq<FieldDef>, rule: Option<Seq<char>>, sel: Selection, i: int)
    requires
        0 <= i < fs.len(),
        is_option(fs[i].ty.model()),
        forall|k: int| 0 <= k < fs.len() && k != i ==> field_name(#[trigger] fs[k], rule) != field_name(fs[i], rule),
    ensures
        !required_names(fs, rule, sel).contains(field_name(fs[i], rule)),
{
    lemma_required_names_come_from_required(fs, rule, sel);
    let names = required_names(fs, rule, sel);
    if names.contains(field_name(fs[i], rule)) {
        let j = choose|j: int| 0 <= j < names.len() && names[j] == field_name(fs[i], rule);
        assert(names[j] == field_name(fs[i], rule));
    }
}

/// A field typed `Option<T>` is never listed in `required`, provided no
/// other field is emitted under the same name.
pub proof fn law_optional_field_not_required(s: Schema, d: StructDef, known: Seq<Seq<char>>, i: int)
    requires
        struct_fits(s, d, known),
        0 <= i < d.fields.len(),
        is_option(d.fields@[i].ty.model()),
        forall|k: int| 0 <= k < d.fields.len() && k != i ==>
            field_name(#[trigger] d.fields@[k], opt_view(d.rename_all)) != field_name(d.fields@[i], opt_view(d.rename_all)),
    ensures
        s.required is Some ==> !texts(s.required->0@).contains(field_name(d.fields@[i], opt_view(d.rename_all))),
{
    lemma_optional_not_required(d.fields@, opt_view(d.rename_all), every_field(), i);
}

/// In a schema restricted by name, a field typed `Option<T>` is never
/// listed in `required`, provided no other field is emitted under the same
/// name.
pub proof fn law_optional_field_not_required_when_filtered(
    s: Schema,
    d: StructDef,
    sel: Selection,
    known: Seq<Seq<char>>,
    i: int,
)
    requires
        filtered_fits(s, d, sel, known),
        0 <= i < d.fields.len(),
        is_option(d.fields@[i].ty.model()),
        forall|k: int| 0 <= k < d.fields.len() && k != i ==>
            field_name(#[trigger] d.fields@[k], opt_view(d.rename_all)) != field_name(d.fields@[i], opt_view(d.rename_all)),
    ensures
        s.required is Some ==> !texts(s.required->0@).contains(field_name(d.fields@[i], opt_view(d.rename_all))),
{
    lemma_optional_not_required(d.fields@, opt_view(d.rename_all), sel, i);
}

} // verus!
