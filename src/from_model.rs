//! The plan of the bridge from a data model to its schema type: which
//! relations to load, whether a parent stub is needed, and how each field
//! of the schema type is built.
use vstd::prelude::*;
use crate::relation::{
    any_path, bare_segments, circular_required, detect_fields_back_to_path, field_index,
    generate_inline_struct_construction, generate_inline_type_construction, generic_probe,
    has_fk_relations, holds_fk_relation, holds_has_many, inits_view, is_circular_relation_required,
    module_name, names_back_to_path, plain_path, points_back_to_path, projection_inits,
    relation_default, struct_inits, window_holds, FieldInit, InitModel, InitValue, ModelDef,
    ModelField, ProbeModel, RelationFieldInfo, RelationKind,
};
use crate::types::{is_option, ArgsModel, SegmentModel, TypeModel};
use crate::text::{copy_texts, owned, text_eq, texts};

verus! {

/// One field of the schema type and the model field it comes from.
pub struct FieldMapping {
    pub new_name: String,
    pub source_name: String,
    /// The schema field is an `Option` around a plain model field.
    pub wrapped: bool,
    pub is_relation: bool,
}

/// A model that a relation targets, found under its schema path.
pub struct RelatedModel {
    pub schema_path: Vec<String>,
    pub model: ModelDef,
}

/// The load of one relation, before the schema value is built.
pub struct RelationLoad {
    pub field: String,
    pub entity_path: Vec<String>,
    /// All related rows (has-many), else at most one.
    pub many: bool,
}

/// How many related values a relation field holds.
#[derive(Clone, Copy, Debug, PartialEq, Eq, Structural)]
pub enum Multiplicity {
    /// At most one; absence is `None`.
    Optional,
    /// Exactly one; absence is a "record not found" error.
    Required,
    /// A list.
    Many,
}

/// How one field of the schema type is built.
pub enum Strategy {
    /// Copied from the model field.
    Copy,
    /// The model field wrapped in `Some`.
    WrapSome,
    /// The type's default value.
    DefaultValue,
    /// A cycle-breaking projection type, built from the kept fields only.
    Project { projection: String, fields: Vec<FieldInit> },
    /// The target schema built inline, leaving out its circular fields.
    Inline { target: Vec<String>, fields: Vec<FieldInit> },
    /// The target's own asynchronous bridge, with the data-access handle.
    FromModel { target: Vec<String> },
    /// The target's direct conversion.
    Convert { target: Vec<String> },
}

/// The plan of one field.
pub struct FieldPlan {
    pub name: String,
    pub source: String,
    pub strategy: Strategy,
    pub multiplicity: Multiplicity,
}

/// The plan of the whole bridge.
pub struct FromModelPlan {
    pub loads: Vec<RelationLoad>,
    /// The fields of the parent stub, when one is needed.
    pub parent_stub: Option<Vec<FieldInit>>,
    pub fields: Vec<FieldPlan>,
}

pub enum StrategyModel {
    Copy,
    WrapSome,
    DefaultValue,
    Project(Seq<char>, Seq<(Seq<char>, InitModel)>),
    Inline(Seq<Seq<char>>, Seq<(Seq<char>, InitModel)>),
    FromModel(Seq<Seq<char>>),
    Convert(Seq<Seq<char>>),
}

impl Strategy {
    pub open spec fn view(self) -> StrategyModel {
        match self {
            Strategy::Copy => StrategyModel::Copy,
            Strategy::WrapSome => StrategyModel::WrapSome,
            Strategy::DefaultValue => StrategyModel::DefaultValue,
            Strategy::Project { projection, fields } => StrategyModel::Project(projection@, inits_view(fields@)),
            Strategy::Inline { target, fields } => StrategyModel::Inline(texts(target@), inits_view(fields@)),
            Strategy::FromModel { target } => StrategyModel::FromModel(texts(target@)),
            Strategy::Convert { target } => StrategyModel::Convert(texts(target@)),
        }
    }
}

pub open spec fn rel_names(rels: Seq<RelationFieldInfo>) -> Seq<Seq<char>> {
    Seq::new(rels.len(), |i: int| rels[i].field_name@)
}

/// The relation recorded for the model field `n`, or -1.
pub open spec fn rel_index(rels: Seq<RelationFieldInfo>, n: Seq<char>) -> int {
    crate::types::position_of(rel_names(rels), n)
}

pub open spec fn related_paths(related: Seq<RelatedModel>) -> Seq<Seq<Seq<char>>> {
    Seq::new(related.len(), |i: int| texts(related[i].schema_path@))
}

/// The position of the first related model found under `path`, or -1.
pub open spec fn related_index(related: Seq<RelatedModel>, path: Seq<Seq<char>>) -> int {
    first_path(related_paths(related), path)
}

pub open spec fn first_path(s: Seq<Seq<Seq<char>>>, x: Seq<Seq<char>>) -> int
    decreases s.len(),
{
    if s.len() == 0 {
        -1
    } else {
        let r = first_path(s.drop_last(), x);
        if r >= 0 {
            r
        } else if s.last() == x {
            s.len() - 1
        } else {
            -1
        }
    }
}

pub proof fn lemma_first_path_bounds(s: Seq<Seq<Seq<char>>>, x: Seq<Seq<char>>)
    ensures
        -1 <= first_path(s, x) < s.len(),
        first_path(s, x) >= 0 ==> s[first_path(s, x)] == x,
    decreases s.len(),
{
    if s.len() > 0 {
        lemma_first_path_bounds(s.drop_last(), x);
    }
}

/// The entity path of a schema path: `Schema` becomes `Entity`.
pub open spec fn entity_path(p: Seq<Seq<char>>) -> Seq<Seq<char>> {
    Seq::new(p.len(), |i: int| if p[i] == "Schema"@ { "Entity"@ } else { p[i] })
}

pub open spec fn multiplicity_of(r: RelationFieldInfo) -> Multiplicity {
    if r.kind == RelationKind::HasMany {
        Multiplicity::Many
    } else if r.is_optional {
        Multiplicity::Optional
    } else {
        Multiplicity::Required
    }
}

/// How a relation field is built, given the related model (if found) and
/// the modules on the current relation path, which end with the module of
/// the structure being bridged. A projection type, where one
/// was made, is built from its kept fields (or takes its default value when
/// the related model is not found); a cycle is broken by building
/// the target inline without its circular fields; otherwise a single
/// relation uses the target's asynchronous bridge when the target has
/// foreign-key relations of its own and its direct conversion when not,
/// and a list is built inline (flat) or converted directly in the same way.
pub open spec fn relation_strategy(r: RelationFieldInfo, related: Option<ModelDef>, path: Seq<Seq<char>>) -> StrategyModel {
    let target = texts(r.schema_path@);
    let circular = match related {
        Some(m) => names_back_to_path(m.fields@, path),
        None => seq![],
    };
    let has_fk = match related {
        Some(m) => exists|k: int| 0 <= k < m.fields.len() && holds_fk_relation(#[trigger] m.fields@[k].ty.model()),
        None => false,
    };
    match r.inline_type {
        Some(it) => match related {
            Some(m) => StrategyModel::Project(it.name@, projection_inits(m.fields@, texts(it.fields@))),
            None => StrategyModel::DefaultValue,
        },
        None => if circular.len() > 0 {
            StrategyModel::Inline(target, struct_inits(related->0.fields@, related->0.fields@, circular))
        } else if r.kind == RelationKind::HasMany {
            if has_fk {
                StrategyModel::Inline(target, struct_inits(related->0.fields@, related->0.fields@, seq![]))
            } else {
                StrategyModel::Convert(target)
            }
        } else if has_fk {
            StrategyModel::FromModel(target)
        } else {
            StrategyModel::Convert(target)
        },
    }
}

/// The related model of a relation, if found.
pub open spec fn related_of(r: RelationFieldInfo, related: Seq<RelatedModel>) -> Option<ModelDef> {
    let k = related_index(related, texts(r.schema_path@));
    if k >= 0 { Some(related[k].model) } else { None }
}

/// How a field of the schema type is built.
pub open spec fn field_strategy(
    m: FieldMapping,
    rels: Seq<RelationFieldInfo>,
    related: Seq<RelatedModel>,
    path: Seq<Seq<char>>,
) -> (StrategyModel, Multiplicity) {
    if !m.is_relation {
        (if m.wrapped { StrategyModel::WrapSome } else { StrategyModel::Copy }, Multiplicity::Required)
    } else {
        let k = rel_index(rels, m.source_name@);
        if k < 0 {
            (StrategyModel::DefaultValue, Multiplicity::Required)
        } else {
            (relation_strategy(rels[k], related_of(rels[k], related), path), multiplicity_of(rels[k]))
        }
    }
}

/// Whether a has-many relation without a projection targets a model whose
/// back-reference to a structure on the path is a required single relation.
pub open spec fn needs_stub_for(r: RelationFieldInfo, related: Seq<RelatedModel>, path: Seq<Seq<char>>) -> bool {
    &&& r.kind == RelationKind::HasMany
    &&& r.inline_type is None
    &&& related_of(r, related) is Some
    &&& back_reference_required(related_of(r, related)->0.fields@, path)
}

/// Whether some field of `fs` that points back at a module of `path` is a
/// required single relation.
pub open spec fn back_reference_required(fs: Seq<ModelField>, path: Seq<Seq<char>>) -> bool {
    exists|j: int| 0 <= j < names_back_to_path(fs, path).len() && circular_required(fs, #[trigger] names_back_to_path(fs, path)[j])
}

/// The modules on the relation path of a bridge: those of the enclosing
/// structures, then the last segment of this structure's module path.
pub open spec fn relation_path(outer: Seq<Seq<char>>, module: Seq<Seq<char>>) -> Seq<Seq<char>> {
    outer.push(module_name(module))
}

/// The value of a field of the parent stub: model fields are copied,
/// relations left empty.
pub open spec fn stub_init(m: FieldMapping, rels: Seq<RelationFieldInfo>) -> (Seq<char>, InitModel) {
    if m.is_relation {
        let k = rel_index(rels, m.source_name@);
        if k < 0 {
            (m.new_name@, InitModel::DefaultValue)
        } else if rels[k].kind == RelationKind::HasMany {
            (m.new_name@, InitModel::EmptyList)
        } else {
            (m.new_name@, InitModel::Nothing)
        }
    } else {
        (m.new_name@, InitModel::Copy(m.source_name@))
    }
}

/// Whether `p` is the plan of the bridge.
pub open spec fn plan_fits(
    p: FromModelPlan,
    mappings: Seq<FieldMapping>,
    rels: Seq<RelationFieldInfo>,
    related: Seq<RelatedModel>,
    path: Seq<Seq<char>>,
) -> bool {
    &&& p.loads.len() == rels.len()
    &&& forall|i: int| 0 <= i < rels.len() ==> {
        &&& (#[trigger] p.loads@[i]).field@ == rels[i].field_name@
        &&& texts(p.loads@[i].entity_path@) == entity_path(texts(rels[i].schema_path@))
        &&& p.loads@[i].many == (rels[i].kind == RelationKind::HasMany)
    }
    &&& (p.parent_stub is Some <==> exists|i: int| 0 <= i < rels.len() && needs_stub_for(#[trigger] rels[i], related, path))
    &&& (p.parent_stub is Some ==> {
        &&& p.parent_stub->0.len() == mappings.len()
        &&& forall|i: int| 0 <= i < mappings.len() ==>
            inits_view(p.parent_stub->0@)[i] == stub_init(#[trigger] mappings[i], rels)
    })
    &&& p.fields.len() == mappings.len()
    &&& forall|i: int| 0 <= i < mappings.len() ==> {
        &&& (#[trigger] p.fields@[i]).name@ == mappings[i].new_name@
        &&& p.fields@[i].source@ == mappings[i].source_name@
        &&& (p.fields@[i].strategy.view(), p.fields@[i].multiplicity) == field_strategy(mappings[i], rels, related, path)
    }
}

/// Whether two lists of strings hold the same texts.
fn texts_eq(a: &[String], b: &[String]) -> (r: bool)
    ensures
        r == (texts(a@) == texts(b@)),
{
    if a.len() != b.len() {
        proof {
            assert(texts(a@).len() != texts(b@).len());
        }
        return false;
    }
    let mut i: usize = 0;
    while i < a.len()
        invariant
            a.len() == b.len(),
            i <= a.len(),
            forall|k: int| 0 <= k < i ==> a@[k]@ == b@[k]@,
        decreases a.len() - i,
    {
        if !text_eq(a[i].as_str(), b[i].as_str()) {
            proof {
                assert(texts(a@)[i as int] != texts(b@)[i as int]);
            }
            return false;
        }
        i = i + 1;
    }
    proof {
        assert(texts(a@) =~= texts(b@));
    }
    true
}

/// The relation recorded for the model field `n`.
fn find_rel(rels: &[RelationFieldInfo], n: &str) -> (r: Option<usize>)
    ensures
        match r {
            Some(k) => k == rel_index(rels@, n@) && k < rels.len(),
            None => rel_index(rels@, n@) < 0,
        },
{
    let ghost ns = rel_names(rels@);
    let mut pos: Option<usize> = None;
    let mut i: usize = 0;
    while i < rels.len()
        invariant
            i <= rels.len(),
            ns == rel_names(rels@),
            match pos {
                Some(k) => k == crate::types::position_of(ns.subrange(0, i as int), n@) && k < rels.len(),
                None => crate::types::position_of(ns.subrange(0, i as int), n@) < 0,
            },
        decreases rels.len() - i,
    {
        proof {
            assert(ns.subrange(0, i + 1).drop_last() =~= ns.subrange(0, i as int));
        }
        if pos.is_none() && text_eq(rels[i].field_name.as_str(), n) {
            pos = Some(i);
        }
        i = i + 1;
    }
    proof {
        assert(ns.subrange(0, rels.len() as int) =~= ns);
    }
    pos
}

/// The related model found under `path`.
fn find_related(related: &[RelatedModel], path: &[String]) -> (r: Option<usize>)
    ensures
        match r {
            Some(k) => k == related_index(related@, texts(path@)) && k < related.len(),
            None => related_index(related@, texts(path@)) < 0,
        },
{
    let ghost ps = related_paths(related@);
    let mut pos: Option<usize> = None;
    let mut i: usize = 0;
    while i < related.len()
        invariant
            i <= related.len(),
            ps == related_paths(related@),
            match pos {
                Some(k) => k == first_path(ps.subrange(0, i as int), texts(path@)) && k < related.len(),
                None => first_path(ps.subrange(0, i as int), texts(path@)) < 0,
            },
        decreases related.len() - i,
    {
        proof {
            assert(ps.subrange(0, i + 1).drop_last() =~= ps.subrange(0, i as int));
        }
        if pos.is_none() && texts_eq(related[i].schema_path.as_slice(), path) {
            pos = Some(i);
        }
        i = i + 1;
    }
    proof {
        assert(ps.subrange(0, related.len() as int) =~= ps);
    }
    pos
}

/// The entity path of a schema path.
pub fn build_entity_path_from_schema_path(schema_path: &[String]) -> (r: Vec<String>)
    ensures
        texts(r@) == entity_path(texts(schema_path@)),
{
    let mut out: Vec<String> = Vec::new();
    let mut i: usize = 0;
    while i < schema_path.len()
        invariant
            i <= schema_path.len(),
            out.len() == i,
            forall|k: int| 0 <= k < i ==> (#[trigger] out@[k])@ == entity_path(texts(schema_path@))[k],
        decreases schema_path.len() - i,
    {
        if text_eq(schema_path[i].as_str(), "Schema") {
            out.push(owned("Entity"));
        } else {
            out.push(owned(schema_path[i].as_str()));
        }
        i = i + 1;
    }
    proof {
        assert(texts(out@) =~= entity_path(texts(schema_path@)));
    }
    out
}

/// How a relation field is built.
fn relation_plan(rel: &RelationFieldInfo, related: &[RelatedModel], path_modules: &[String]) -> (r: Strategy)
    ensures
        r.view() == relation_strategy(*rel, related_of(*rel, related@), texts(path_modules@)),
{
    let found = find_related(related, rel.schema_path.as_slice());
    let model: Option<&ModelDef> = match found {
        Some(k) => Some(&related[k].model),
        None => None,
    };
    proof {
        lemma_first_path_bounds(related_paths(related@), texts(rel.schema_path@));
    }
    if let Some(it) = &rel.inline_type {
        return match model {
            Some(m) => Strategy::Project {
                projection: owned(it.name.as_str()),
                fields: generate_inline_type_construction(it.fields.as_slice(), m),
            },
            None => Strategy::DefaultValue,
        };
    }
    let circular = match model {
        Some(m) => detect_fields_back_to_path(path_modules, m),
        None => Vec::new(),
    };
    proof {
        if model is None {
            assert(texts(circular@) =~= Seq::<Seq<char>>::empty());
        }
    }
    let has_fk = match model {
        Some(m) => has_fk_relations(m),
        None => false,
    };
    if circular.len() > 0 {
        match model {
            Some(m) => {
                return Strategy::Inline {
                    target: copy_texts(rel.schema_path.as_slice()),
                    fields: generate_inline_struct_construction(m, circular.as_slice()),
                };
            },
            None => {
                return Strategy::DefaultValue;
            },
        }
    }
    match rel.kind {
        RelationKind::HasMany => {
            if has_fk {
                match model {
                    Some(m) => {
                        let none: Vec<String> = Vec::new();
                        proof {
                            assert(texts(none@) =~= Seq::<Seq<char>>::empty());
                        }
                        Strategy::Inline {
                            target: copy_texts(rel.schema_path.as_slice()),
                            fields: generate_inline_struct_construction(m, none.as_slice()),
                        }
                    },
                    None => Strategy::DefaultValue,
                }
            } else {
                Strategy::Convert { target: copy_texts(rel.schema_path.as_slice()) }
            }
        },
        _ => {
            if has_fk {
                Strategy::FromModel { target: copy_texts(rel.schema_path.as_slice()) }
            } else {
                Strategy::Convert { target: copy_texts(rel.schema_path.as_slice()) }
            }
        },
    }
}

/// Whether a relation needs the parent stub.
fn needs_stub(rel: &RelationFieldInfo, related: &[RelatedModel], path_modules: &[String]) -> (r: bool)
    ensures
        r == needs_stub_for(*rel, related@, texts(path_modules@)),
{
    match rel.kind {
        RelationKind::HasMany => {},
        _ => {
            return false;
        },
    }
    if rel.inline_type.is_some() {
        return false;
    }
    let found = find_related(related, rel.schema_path.as_slice());
    proof {
        lemma_first_path_bounds(related_paths(related@), texts(rel.schema_path@));
    }
    match found {
        None => false,
        Some(k) => {
            let m = &related[k].model;
            let ghost mn = texts(path_modules@);
            let circular = detect_fields_back_to_path(path_modules, m);
            let mut j: usize = 0;
            while j < circular.len()
                invariant
                    k < related.len(),
                    k == related_index(related@, texts(rel.schema_path@)),
                    *m == related@[k as int].model,
                    rel.kind == RelationKind::HasMany,
                    rel.inline_type is None,
                    mn == texts(path_modules@),
                    j <= circular.len(),
                    texts(circular@) == names_back_to_path(m.fields@, mn),
                    forall|q: int| 0 <= q < j ==> !circular_required(m.fields@, #[trigger] names_back_to_path(m.fields@, mn)[q]),
                decreases circular.len() - j,
            {
                proof {
                    assert(texts(circular@)[j as int] == circular@[j as int]@);
                }
                if is_circular_relation_required(m, circular[j].as_str()) {
                    proof {
                        assert(related_of(*rel, related@) == Some(related@[k as int].model));
                        assert(circular_required(m.fields@, names_back_to_path(m.fields@, mn)[j as int]));
                        assert(back_reference_required(m.fields@, mn));
                    }
                    return true;
                }
                j = j + 1;
            }
            false
        },
    }
}

/// Plans the asynchronous bridge from a data model to the schema type whose
/// fields are `mappings`, with the relation fields `rels` of the model in
/// module `module_segs`, and the models that the relations target.
/// `outer_modules` names the modules of the structures that enclose this
/// bridge on the current relation path (none at the top level); a relation
/// field of a target that points back at any of them, or at this module, is
/// left out when the target is built.
pub fn generate_from_model_with_relations(
    mappings: &[FieldMapping],
    rels: &[RelationFieldInfo],
    module_segs: &[String],
    outer_modules: &[String],
    related: &[RelatedModel],
) -> (r: FromModelPlan)
    ensures
        plan_fits(r, mappings@, rels@, related@, relation_path(texts(outer_modules@), texts(module_segs@))),
{
    let ghost module = relation_path(texts(outer_modules@), texts(module_segs@));
    let mut path_vec = copy_texts(outer_modules);
    let own = if module_segs.len() > 0 {
        owned(module_segs[module_segs.len() - 1].as_str())
    } else {
        String::new()
    };
    let ghost before = path_vec@;
    path_vec.push(own);
    proof {
        assert(texts(path_vec@) =~= texts(before).push(own@));
    }
    let path_modules = path_vec.as_slice();
    let mut loads: Vec<RelationLoad> = Vec::new();
    let mut stub = false;
    let mut i: usize = 0;
    while i < rels.len()
        invariant
            i <= rels.len(),
            module == texts(path_modules@),
            loads.len() == i,
            forall|k: int| 0 <= k < i ==> {
                &&& (#[trigger] loads@[k]).field@ == rels@[k].field_name@
                &&& texts(loads@[k].entity_path@) == entity_path(texts(rels@[k].schema_path@))
                &&& loads@[k].many == (rels@[k].kind == RelationKind::HasMany)
            },
            stub == exists|k: int| 0 <= k < i && needs_stub_for(#[trigger] rels@[k], related@, module),
        decreases rels.len() - i,
    {
        let rel = &rels[i];
        let many = match rel.kind {
            RelationKind::HasMany => true,
            _ => false,
        };
        loads.push(RelationLoad {
            field: owned(rel.field_name.as_str()),
            entity_path: build_entity_path_from_schema_path(rel.schema_path.as_slice()),
            many,
        });
        if needs_stub(rel, related, path_modules) {
            stub = true;
        }
        i = i + 1;
    }
    let parent_stub = if stub {
        let mut inits: Vec<FieldInit> = Vec::new();
        let mut j: usize = 0;
        while j < mappings.len()
            invariant
                j <= mappings.len(),
                inits.len() == j,
                forall|k: int| 0 <= k < j ==> inits_view(inits@)[k] == stub_init(#[trigger] mappings@[k], rels@),
            decreases mappings.len() - j,
        {
            let m = &mappings[j];
            let value = if m.is_relation {
                match find_rel(rels, m.source_name.as_str()) {
                    None => InitValue::DefaultValue,
                    Some(k) => match rels[k].kind {
                        RelationKind::HasMany => InitValue::EmptyList,
                        _ => InitValue::Nothing,
                    },
                }
            } else {
                InitValue::Copy { field: owned(m.source_name.as_str()) }
            };
            let ghost before = inits@;
            inits.push(FieldInit { name: owned(m.new_name.as_str()), value });
            proof {
                assert forall|k: int| 0 <= k < j + 1 implies inits_view(inits@)[k] == stub_init(#[trigger] mappings@[k], rels@) by {
                    if k < j {
                        assert(inits_view(inits@)[k] == inits_view(before)[k]);
                    }
                }
            }
            j = j + 1;
        }
        Some(inits)
    } else {
        None
    };
    let mut fields: Vec<FieldPlan> = Vec::new();
    let mut j: usize = 0;
    while j < mappings.len()
        invariant
            j <= mappings.len(),
            module == texts(path_modules@),
            fields.len() == j,
            forall|k: int| 0 <= k < j ==> {
                &&& (#[trigger] fields@[k]).name@ == mappings@[k].new_name@
                &&& fields@[k].source@ == mappings@[k].source_name@
                &&& (fields@[k].strategy.view(), fields@[k].multiplicity) == field_strategy(mappings@[k], rels@, related@, module)
            },
        decreases mappings.len() - j,
    {
        let m = &mappings[j];
        let (strategy, multiplicity) = if !m.is_relation {
            (if m.wrapped { Strategy::WrapSome } else { Strategy::Copy }, Multiplicity::Required)
        } else {
            match find_rel(rels, m.source_name.as_str()) {
                None => (Strategy::DefaultValue, Multiplicity::Required),
                Some(k) => {
                    let rel = &rels[k];
                    let mult = match rel.kind {
                        RelationKind::HasMany => Multiplicity::Many,
                        _ => if rel.is_optional { Multiplicity::Optional } else { Multiplicity::Required },
                    };
                    (relation_plan(rel, related, path_modules), mult)
                },
            }
        };
        fields.push(FieldPlan {
            name: owned(m.new_name.as_str()),
            source: owned(m.source_name.as_str()),
            strategy,
            multiplicity,
        });
        j = j + 1;
    }
    FromModelPlan { loads, parent_stub, fields }
}

/// In an inline construction, no field named among the circular ones is
/// copied from the source: each takes a default instead.
pub proof fn lemma_circular_fields_not_copied(pre: Seq<ModelField>, fs: Seq<ModelField>, circular: Seq<Seq<char>>)
    ensures
        forall|k: int| 0 <= k < struct_inits(pre, fs, circular).len() && circular.contains(
            #[trigger] struct_inits(pre, fs, circular)[k].0,
        ) ==> !(struct_inits(pre, fs, circular)[k].1 is Copy),
    decreases pre.len(),
{
    if pre.len() > 0 {
        lemma_circular_fields_not_copied(pre.drop_last(), fs, circular);
        let rest = struct_inits(pre.drop_last(), fs, circular);
        let f = pre.last();
        if !f.skip && circular.contains(f.name@) {
            let d = relation_default(f, fs);
            assert(!(d is Copy));
        }
        assert forall|k: int| 0 <= k < struct_inits(pre, fs, circular).len() && circular.contains(
            #[trigger] struct_inits(pre, fs, circular)[k].0,
        ) implies !(struct_inits(pre, fs, circular)[k].1 is Copy) by {
            if k < rest.len() {
                assert(struct_inits(pre, fs, circular)[k] == rest[k]);
            }
        }
    }
}

/// For a two-hop cycle (this structure has many of a target whose
/// back-reference to it is a required single relation), the bridge
/// terminates: the target is built inline and its back-reference is never
/// built by a nested bridge, and a parent stub stands for this structure,
/// with every relation field of its own left empty, so that the recursion
/// ends after one level.
pub proof fn law_two_hop_cycle_is_broken(
    p: FromModelPlan,
    mappings: Seq<FieldMapping>,
    rels: Seq<RelationFieldInfo>,
    related: Seq<RelatedModel>,
    path: Seq<Seq<char>>,
    i: int,
)
    requires
        plan_fits(p, mappings, rels, related, path),
        0 <= i < rels.len(),
        needs_stub_for(rels[i], related, path),
    ensures
        p.parent_stub is Some,
        forall|k: int| 0 <= k < mappings.len() && (#[trigger] mappings[k]).is_relation ==> {
            let v = inits_view(p.parent_stub->0@)[k].1;
            v is EmptyList || v is Nothing || v is DefaultValue
        },
        forall|k: int| 0 <= k < mappings.len() && (#[trigger] mappings[k]).is_relation
            && rel_index(rels, mappings[k].source_name@) == i ==> {
            &&& p.fields@[k].strategy.view() is Inline
            &&& forall|q: int| 0 <= q < p.fields@[k].strategy.view()->Inline_1.len()
                && names_back_to_path(related_of(rels[i], related)->0.fields@, path).contains(
                    #[trigger] p.fields@[k].strategy.view()->Inline_1[q].0,
                ) ==> !(p.fields@[k].strategy.view()->Inline_1[q].1 is Copy)
        },
{
    let m = related_of(rels[i], related)->0;
    let cs = names_back_to_path(m.fields@, path);
    lemma_circular_fields_not_copied(m.fields@, m.fields@, cs);
    assert forall|k: int| 0 <= k < mappings.len() && (#[trigger] mappings[k]).is_relation
        && rel_index(rels, mappings[k].source_name@) == i implies {
        &&& p.fields@[k].strategy.view() is Inline
        &&& forall|q: int| 0 <= q < p.fields@[k].strategy.view()->Inline_1.len()
            && cs.contains(#[trigger] p.fields@[k].strategy.view()->Inline_1[q].0)
            ==> !(p.fields@[k].strategy.view()->Inline_1[q].1 is Copy)
    } by {
        let j = choose|j: int| 0 <= j < cs.len() && circular_required(m.fields@, #[trigger] cs[j]);
        assert(cs.len() > 0);
    }
}

/// Every field that points back at the path is named among
/// `names_back_to_path`.
pub proof fn lemma_back_field_is_named(fs: Seq<ModelField>, path: Seq<Seq<char>>, c: int)
    requires
        0 <= c < fs.len(),
        points_back_to_path(fs[c], path),
    ensures
        names_back_to_path(fs, path).contains(fs[c].name@),
    decreases fs.len(),
{
    let pre = fs.drop_last();
    if c < fs.len() - 1 {
        assert(pre[c] == fs[c]);
        lemma_back_field_is_named(pre, path, c);
        let names = names_back_to_path(pre, path);
        let j = choose|j: int| 0 <= j < names.len() && names[j] == fs[c].name@;
        assert(names_back_to_path(fs, path)[j] == fs[c].name@);
    } else {
        assert(fs.last() == fs[c]);
        assert(names_back_to_path(fs, path).last() == fs[c].name@);
    }
}

/// The type `BelongsTo<super::a::Entity>`.
pub open spec fn belongs_to_module(a: Seq<char>) -> TypeModel {
    crate::types::generic("BelongsTo"@, seq![plain_path(seq!["super"@, a, "Entity"@])])
}

/// A field of type `BelongsTo<super::a::Entity>` points back at module `a`.
pub proof fn lemma_belongs_to_points_back(f: ModelField, path: Seq<Seq<char>>)
    requires
        path.len() > 0,
        f.ty.model() == belongs_to_module(path.last()),
    ensures
        points_back_to_path(f, path),
        holds_fk_relation(f.ty.model()),
{
    let a = path.last();
    let t = f.ty.model();
    let p = plain_path(seq!["super"@, a, "Entity"@]);
    let psegs = bare_segments(seq!["super"@, a, "Entity"@]);
    let tsegs = seq![SegmentModel { ident: "BelongsTo"@, args: ArgsModel::Angle(seq![p]) }];
    reveal_strlit("BelongsTo");
    reveal_strlit("HasMany");
    reveal_strlit("Entity");
    assert("BelongsTo"@.len() == 9 && "HasMany"@.len() == 7);
    assert(t == TypeModel::Path(false, tsegs));
    assert(psegs[1].ident == a && psegs[2].ident == "Entity"@);
    assert(t->Path_1 == tsegs);
    assert(decreases_to!(t => t->Path_1));
    assert(decreases_to!(tsegs => tsegs[0]));
    assert(decreases_to!(tsegs[0] => tsegs[0].args));
    assert(decreases_to!(tsegs[0].args => tsegs[0].args->Angle_0));
    assert(decreases_to!(tsegs[0].args->Angle_0 => tsegs[0].args->Angle_0[0]));
    assert(tsegs[0].args->Angle_0[0] == p);
    // the probe for the back-reference holds inside the argument
    assert(window_holds(psegs, 1, ProbeModel::Module(a)));
    assert(any_path(p, ProbeModel::Module(a)));
    assert(any_path(t, ProbeModel::Module(path[path.len() - 1])));
    // it is a belongs-to relation
    assert(window_holds(tsegs, 0, generic_probe("BelongsTo"@)));
    assert(holds_fk_relation(t));
    // and no has-many relation
    assert forall|k: int| 0 <= k < psegs.len() implies !window_holds(psegs, k, generic_probe("HasMany"@)) by {}
    assert(!any_path(p, generic_probe("HasMany"@)));
    assert(!window_holds(tsegs, 0, generic_probe("HasMany"@)));
    assert(!holds_has_many(t));
}

/// For a structure that has many of a target whose model has a field
/// `BelongsTo<super::a::Entity>` back to this structure's module `a`, with a
/// required foreign key, the bridge builds a parent stub, and the target is
/// built inline with that back-reference never copied.
pub proof fn law_required_back_reference_needs_stub(
    p: FromModelPlan,
    mappings: Seq<FieldMapping>,
    rels: Seq<RelationFieldInfo>,
    related: Seq<RelatedModel>,
    path: Seq<Seq<char>>,
    i: int,
    c: int,
)
    requires
        plan_fits(p, mappings, rels, related, path),
        path.len() > 0,
        0 <= i < rels.len(),
        rels[i].kind == RelationKind::HasMany,
        rels[i].inline_type is None,
        related_of(rels[i], related) is Some,
        0 <= c < related_of(rels[i], related)->0.fields.len(),
        ({
            let fs = related_of(rels[i], related)->0.fields@;
            &&& fs[c].ty.model() == belongs_to_module(path.last())
            &&& field_index(fs, fs[c].name@) == c
            &&& fs[c].fk_from is Some
            &&& 0 <= field_index(fs, fs[c].fk_from->0@) < fs.len()
            &&& !is_option(fs[field_index(fs, fs[c].fk_from->0@)].ty.model())
        }),
    ensures
        needs_stub_for(rels[i], related, path),
        p.parent_stub is Some,
{
    let fs = related_of(rels[i], related)->0.fields@;
    lemma_belongs_to_points_back(fs[c], path);
    lemma_back_field_is_named(fs, path, c);
    let names = names_back_to_path(fs, path);
    let j = choose|j: int| 0 <= j < names.len() && names[j] == fs[c].name@;
    assert(circular_required(fs, names[j]));
    assert(back_reference_required(fs, path));
    law_two_hop_cycle_is_broken(p, mappings, rels, related, path, i);
}

} // verus!
