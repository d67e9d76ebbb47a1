use vespera::from_model::{
    generate_from_model_with_relations, FieldMapping, Multiplicity, RelatedModel, Strategy,
};
use vespera::relation::{InitValue, InlineType, ModelDef, ModelField, RelationFieldInfo, RelationKind};
use vespera::types::{PathArgs, PathSegment, TypeExpr};

fn strs(v: &[&str]) -> Vec<String> {
    v.iter().map(|s| s.to_string()).collect()
}

fn mapping(new_name: &str, source: &str, wrapped: bool, is_relation: bool) -> FieldMapping {
    FieldMapping { new_name: new_name.to_string(), source_name: source.to_string(), wrapped, is_relation }
}

fn rel(field: &str, kind: RelationKind, path: &[&str], optional: bool) -> RelationFieldInfo {
    RelationFieldInfo { field_name: field.to_string(), kind, schema_path: strs(path), is_optional: optional, inline_type: None }
}

fn seg(name: &str) -> PathSegment {
    PathSegment { ident: name.to_string(), args: PathArgs::Bare }
}

fn ty(name: &str) -> TypeExpr {
    TypeExpr::Path { leading_colon: false, segments: vec![seg(name)] }
}

fn relation_ty(kind: &str, path: &[&str]) -> TypeExpr {
    let target = TypeExpr::Path { leading_colon: false, segments: path.iter().map(|s| seg(s)).collect() };
    TypeExpr::Path { leading_colon: false, segments: vec![PathSegment { ident: kind.to_string(), args: PathArgs::Angle { args: vec![target] } }] }
}

fn mf(name: &str, t: TypeExpr, fk: Option<&str>) -> ModelField {
    ModelField { name: name.to_string(), ty: t, fk_from: fk.map(|s| s.to_string()), skip: false }
}

#[test]
fn test_generate_from_model_with_required_relation() {
    let mappings = vec![mapping("id", "id", false, false), mapping("user", "user", false, true)];
    let rels = vec![rel("user", RelationKind::HasOne, &["user", "Schema"], false)];
    let plan = generate_from_model_with_relations(&mappings, &rels, &strs(&["crate", "models", "memo"]), &[], &[]);
    assert_eq!(plan.fields.len(), 2);
    assert_eq!(plan.fields[1].multiplicity, Multiplicity::Required);
}

#[test]
fn test_generate_from_model_with_wrapped_fields() {
    let mappings = vec![mapping("id", "id", true, false)];
    let plan = generate_from_model_with_relations(&mappings, &[], &strs(&["crate"]), &[], &[]);
    assert!(matches!(plan.fields[0].strategy, Strategy::WrapSome));
    assert_eq!(plan.fields[0].source, "id");
}

#[test]
fn test_generate_from_model_with_has_one_optional() {
    let mappings = vec![mapping("id", "id", false, false), mapping("user", "user", false, true)];
    let rels = vec![rel("user", RelationKind::HasOne, &["user", "Schema"], true)];
    let plan = generate_from_model_with_relations(&mappings, &rels, &strs(&["crate", "models", "memo"]), &[], &[]);
    assert_eq!(plan.loads.len(), 1);
    assert_eq!(plan.loads[0].field, "user");
    assert!(!plan.loads[0].many);
    assert_eq!(plan.loads[0].entity_path, strs(&["user", "Entity"]));
    assert_eq!(plan.fields[1].multiplicity, Multiplicity::Optional);
    assert!(matches!(&plan.fields[1].strategy, Strategy::Convert { target } if *target == strs(&["user", "Schema"])));
}

#[test]
fn test_generate_from_model_with_has_many() {
    let mappings = vec![mapping("id", "id", false, false), mapping("memos", "memos", false, true)];
    let rels = vec![rel("memos", RelationKind::HasMany, &["memo", "Schema"], false)];
    let plan = generate_from_model_with_relations(&mappings, &rels, &strs(&["crate", "models", "user"]), &[], &[]);
    assert!(plan.loads[0].many);
    assert_eq!(plan.fields[1].multiplicity, Multiplicity::Many);
}

#[test]
fn test_generate_from_model_with_belongs_to() {
    let mappings = vec![mapping("id", "id", false, false), mapping("user", "user", false, true)];
    let rels = vec![rel("user", RelationKind::BelongsTo, &["user", "Schema"], true)];
    let plan = generate_from_model_with_relations(&mappings, &rels, &strs(&["crate", "models", "memo"]), &[], &[]);
    assert_eq!(plan.loads.len(), 1);
    assert!(!plan.loads[0].many);
}

#[test]
fn test_generate_from_model_no_relations() {
    let mappings = vec![mapping("id", "id", false, false), mapping("name", "name", false, false)];
    let plan = generate_from_model_with_relations(&mappings, &[], &strs(&["crate"]), &[], &[]);
    assert!(plan.loads.is_empty());
    assert!(plan.parent_stub.is_none());
    assert!(matches!(plan.fields[0].strategy, Strategy::Copy));
    assert_eq!(plan.fields[0].name, "id");
    assert_eq!(plan.fields[0].source, "id");
    assert!(matches!(plan.fields[1].strategy, Strategy::Copy));
    assert_eq!(plan.fields[1].source, "name");
}

#[test]
fn test_generate_from_model_with_inline_type() {
    let mappings = vec![mapping("id", "id", false, false), mapping("user", "user", false, true)];
    let mut r = rel("user", RelationKind::HasOne, &["user", "Schema"], true);
    r.inline_type = Some(InlineType { name: "MemoSchema_User".to_string(), fields: strs(&["id", "name"]) });
    let plan = generate_from_model_with_relations(&mappings, &[r], &strs(&["crate", "models", "memo"]), &[], &[]);
    assert_eq!(plan.loads.len(), 1);
    assert_eq!(plan.loads[0].field, "user");
}

#[test]
fn test_generate_from_model_unknown_relation_type() {
    let mappings = vec![mapping("id", "id", false, false), mapping("unknown", "unknown", false, true)];
    let plan = generate_from_model_with_relations(&mappings, &[], &strs(&["crate"]), &[], &[]);
    assert!(plan.loads.is_empty());
    assert!(matches!(plan.fields[1].strategy, Strategy::DefaultValue));
}

#[test]
fn test_generate_from_model_relation_field_not_in_mappings() {
    let mappings = vec![mapping("id", "id", false, false), mapping("owner", "different_name", false, true)];
    let rels = vec![rel("user", RelationKind::HasOne, &["user", "Schema"], true)];
    let plan = generate_from_model_with_relations(&mappings, &rels, &strs(&["crate"]), &[], &[]);
    assert_eq!(plan.fields.len(), 2);
    assert!(matches!(plan.fields[1].strategy, Strategy::DefaultValue));
}

#[test]
fn test_generate_from_model_with_has_many_inline() {
    let mappings = vec![mapping("id", "id", false, false), mapping("memos", "memos", false, true)];
    let mut r = rel("memos", RelationKind::HasMany, &["memo", "Schema"], false);
    r.inline_type = Some(InlineType { name: "UserSchema_Memos".to_string(), fields: strs(&["id", "title"]) });
    let plan = generate_from_model_with_relations(&mappings, &[r], &strs(&["crate", "models", "user"]), &[], &[]);
    assert!(plan.loads[0].many);
    assert_eq!(plan.fields[1].multiplicity, Multiplicity::Many);
}

fn memo_model() -> ModelDef {
    ModelDef {
        name: "Model".to_string(),
        fields: vec![
            mf("id", ty("i32"), None),
            mf("title", ty("String"), None),
            mf("user_id", ty("i32"), None),
            mf("user", relation_ty("BelongsTo", &["super", "user", "Entity"]), Some("user_id")),
        ],
    }
}

#[test]
fn two_hop_cycle_uses_parent_stub_and_inline_target() {
    let mappings = vec![
        mapping("id", "id", false, false),
        mapping("name", "name", false, false),
        mapping("memos", "memos", false, true),
    ];
    let rels = vec![rel("memos", RelationKind::HasMany, &["crate", "models", "memo", "Schema"], false)];
    let related = vec![RelatedModel { schema_path: strs(&["crate", "models", "memo", "Schema"]), model: memo_model() }];
    let plan = generate_from_model_with_relations(&mappings, &rels, &strs(&["crate", "models", "user"]), &[], &related);
    let stub = plan.parent_stub.expect("parent stub expected");
    assert_eq!(stub.len(), 3);
    assert!(matches!(&stub[0].value, InitValue::Copy { field } if field == "id"));
    assert!(matches!(stub[2].value, InitValue::EmptyList));
    match &plan.fields[2].strategy {
        Strategy::Inline { target, fields } => {
            assert_eq!(*target, strs(&["crate", "models", "memo", "Schema"]));
            let user = fields.iter().find(|f| f.name == "user").unwrap();
            assert!(matches!(user.value, InitValue::ParentStub));
            let title = fields.iter().find(|f| f.name == "title").unwrap();
            assert!(matches!(&title.value, InitValue::Copy { field } if field == "title"));
        },
        _ => panic!("expected inline construction"),
    }
}

#[test]
fn target_with_foreign_keys_uses_async_bridge() {
    let mappings = vec![mapping("memo", "memo", false, true)];
    let rels = vec![rel("memo", RelationKind::HasOne, &["crate", "models", "memo", "Schema"], false)];
    let related = vec![RelatedModel { schema_path: strs(&["crate", "models", "memo", "Schema"]), model: memo_model() }];
    let plan = generate_from_model_with_relations(&mappings, &rels, &strs(&["crate", "models", "note"]), &[], &related);
    assert!(plan.parent_stub.is_none());
    assert!(matches!(&plan.fields[0].strategy, Strategy::FromModel { target } if target.len() == 4));
    assert_eq!(plan.fields[0].multiplicity, Multiplicity::Required);
}

#[test]
fn projection_keeps_only_included_plain_fields() {
    let mappings = vec![mapping("memo", "memo", false, true)];
    let mut r = rel("memo", RelationKind::HasOne, &["crate", "models", "memo", "Schema"], true);
    r.inline_type = Some(InlineType { name: "NoteSchema_Memo".to_string(), fields: strs(&["id", "title", "user"]) });
    let related = vec![RelatedModel { schema_path: strs(&["crate", "models", "memo", "Schema"]), model: memo_model() }];
    let plan = generate_from_model_with_relations(&mappings, &[r], &strs(&["crate", "models", "note"]), &[], &related);
    match &plan.fields[0].strategy {
        Strategy::Project { projection, fields } => {
            assert_eq!(projection, "NoteSchema_Memo");
            let names: Vec<&str> = fields.iter().map(|f| f.name.as_str()).collect();
            assert_eq!(names, vec!["id", "title"]);
        },
        _ => panic!("expected projection"),
    }
}

#[test]
fn cycle_through_an_enclosing_module_is_cut() {
    let mappings = vec![mapping("memos", "memos", false, true)];
    let rels = vec![rel("memos", RelationKind::HasMany, &["crate", "models", "memo", "Schema"], false)];
    let related = vec![RelatedModel { schema_path: strs(&["crate", "models", "memo", "Schema"]), model: memo_model() }];
    let outer = strs(&["user"]);
    let plan = generate_from_model_with_relations(&mappings, &rels, &strs(&["crate", "models", "tag"]), &outer, &related);
    assert!(plan.parent_stub.is_some());
    match &plan.fields[0].strategy {
        Strategy::Inline { fields, .. } => {
            let user = fields.iter().find(|f| f.name == "user").unwrap();
            assert!(matches!(user.value, InitValue::ParentStub));
        },
        _ => panic!("expected inline construction"),
    }
    let top = generate_from_model_with_relations(&mappings, &rels, &strs(&["crate", "models", "tag"]), &[], &related);
    assert!(top.parent_stub.is_none());
}
