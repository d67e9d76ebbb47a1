use vespera::from_model::build_entity_path_from_schema_path;
use vespera::relation::{
    convert_relation_type_to_schema_with_info, detect_circular_fields, detect_fields_back_to_path, generate_default_for_relation_field,
    generate_inline_struct_construction, generate_inline_type_construction, has_fk_relations,
    is_circular_relation_required, is_field_optional_in_struct, resolve_entity_path, InitValue, ModelDef,
    ModelField, RelationKind,
};
use vespera::types::{PathArgs, PathSegment, TypeExpr};

fn seg(name: &str) -> PathSegment {
    PathSegment { ident: name.to_string(), args: PathArgs::Bare }
}

fn ty(name: &str) -> TypeExpr {
    TypeExpr::Path { leading_colon: false, segments: vec![seg(name)] }
}

fn gen(name: &str, args: Vec<TypeExpr>) -> TypeExpr {
    TypeExpr::Path { leading_colon: false, segments: vec![PathSegment { ident: name.to_string(), args: PathArgs::Angle { args } }] }
}

fn entity(path: &[&str]) -> TypeExpr {
    TypeExpr::Path { leading_colon: false, segments: path.iter().map(|s| seg(s)).collect() }
}

fn strs(v: &[&str]) -> Vec<String> {
    v.iter().map(|s| s.to_string()).collect()
}

fn mf(name: &str, t: TypeExpr, fk: Option<&str>) -> ModelField {
    ModelField { name: name.to_string(), ty: t, fk_from: fk.map(|s| s.to_string()), skip: false }
}

fn joined(v: &[String]) -> String {
    v.join("::")
}

fn user_model() -> ModelDef {
    ModelDef {
        name: "Model".to_string(),
        fields: vec![
            mf("id", ty("i32"), None),
            mf("name", ty("String"), None),
            mf("memos", gen("HasMany", vec![entity(&["super", "memo", "Entity"])]), None),
        ],
    }
}

fn memo_model() -> ModelDef {
    ModelDef {
        name: "Model".to_string(),
        fields: vec![
            mf("id", ty("i32"), None),
            mf("title", ty("String"), None),
            mf("user_id", ty("i32"), None),
            mf("user", gen("BelongsTo", vec![entity(&["super", "user", "Entity"])]), Some("user_id")),
        ],
    }
}

#[test]
fn test_build_entity_path_from_schema_path() {
    let output = joined(&build_entity_path_from_schema_path(&strs(&["crate", "models", "user", "Schema"])));
    assert!(output.contains("crate"));
    assert!(output.contains("models"));
    assert!(output.contains("user"));
    assert!(output.contains("Entity"));
    assert!(!output.contains("Schema"));
}

#[test]
fn test_build_entity_path_simple() {
    let output = joined(&build_entity_path_from_schema_path(&strs(&["user", "Schema"])));
    assert!(output.contains("user"));
    assert!(output.contains("Entity"));
}

#[test]
fn test_build_entity_path_deeply_nested() {
    let output = joined(&build_entity_path_from_schema_path(&strs(&["crate", "api", "models", "entities", "user", "Schema"])));
    assert!(output.contains("api"));
    assert!(output.contains("models"));
    assert!(output.contains("entities"));
    assert!(output.contains("user"));
    assert!(output.contains("Entity"));
    assert!(!output.contains("Schema"));
}

#[test]
fn test_build_entity_path_single_segment() {
    let output = joined(&build_entity_path_from_schema_path(&strs(&["Schema"])));
    assert!(output.contains("Entity"));
}

#[test]
fn entity_paths_resolve_against_module() {
    let module = strs(&["crate", "models", "memo"]);
    assert_eq!(resolve_entity_path(&strs(&["super", "user", "Entity"]), &module), strs(&["crate", "models", "user", "Schema"]));
    assert_eq!(resolve_entity_path(&strs(&["super", "super", "auth", "Entity"]), &module), strs(&["crate", "auth", "Schema"]));
    assert_eq!(resolve_entity_path(&strs(&["crate", "models", "user", "Entity"]), &module), strs(&["crate", "models", "user", "Schema"]));
    assert_eq!(resolve_entity_path(&strs(&["user", "Entity"]), &module), strs(&["crate", "models", "user", "Schema"]));
    assert_eq!(resolve_entity_path(&strs(&["super", "super", "super", "super", "x", "Entity"]), &module), strs(&["x", "Schema"]));
}

#[test]
fn relation_optionality_follows_foreign_key() {
    let module = strs(&["crate", "models", "memo"]);
    let memo = memo_model();
    let rel = gen("BelongsTo", vec![entity(&["super", "user", "Entity"])]);
    let (t, info) = convert_relation_type_to_schema_with_info(&rel, &Some("user_id".to_string()), &memo.fields, &module, &"user".to_string()).unwrap();
    assert!(!info.is_optional);
    assert_eq!(info.kind, RelationKind::BelongsTo);
    assert_eq!(t.render(), "Box < crate :: models :: user :: Schema >");
    let mut opt_fields = memo.fields;
    opt_fields[2].ty = gen("Option", vec![ty("i32")]);
    let (t2, info2) = convert_relation_type_to_schema_with_info(&rel, &Some("user_id".to_string()), &opt_fields, &module, &"user".to_string()).unwrap();
    assert!(info2.is_optional);
    assert_eq!(t2.render(), "Option < Box < crate :: models :: user :: Schema > >");
    let (_, missing) = convert_relation_type_to_schema_with_info(&rel, &Some("owner_id".to_string()), &opt_fields, &module, &"user".to_string()).unwrap();
    assert!(missing.is_optional);
    let has_one = gen("HasOne", vec![entity(&["super", "profile", "Entity"])]);
    let (_, none_fk) = convert_relation_type_to_schema_with_info(&has_one, &None, &opt_fields, &module, &"profile".to_string()).unwrap();
    assert!(none_fk.is_optional);
}

#[test]
fn has_many_is_never_optional_and_plain_types_are_not_relations() {
    let module = strs(&["crate", "models", "user"]);
    let user = user_model();
    let rel = gen("HasMany", vec![entity(&["super", "memo", "Entity"])]);
    let (t, info) = convert_relation_type_to_schema_with_info(&rel, &None, &user.fields, &module, &"memos".to_string()).unwrap();
    assert!(!info.is_optional);
    assert_eq!(info.schema_path, strs(&["crate", "models", "memo", "Schema"]));
    assert_eq!(t.render(), "Vec < crate :: models :: memo :: Schema >");
    assert!(convert_relation_type_to_schema_with_info(&ty("i32"), &None, &user.fields, &module, &"id".to_string()).is_none());
    assert!(convert_relation_type_to_schema_with_info(&gen("HasOne", vec![TypeExpr::Tuple { elems: vec![] }]), &None, &user.fields, &module, &"x".to_string()).is_none());
}

#[test]
fn circular_fields_are_detected_two_hops_back() {
    let memo = memo_model();
    let from_user = strs(&["crate", "models", "user"]);
    assert_eq!(detect_circular_fields(&from_user, &memo), strs(&["user"]));
    let user = user_model();
    let from_memo = strs(&["crate", "models", "memo"]);
    assert!(detect_circular_fields(&from_memo, &user).is_empty());
    let boxed = ModelDef { name: "Schema".to_string(), fields: vec![mf("owner", gen("Option", vec![gen("Box", vec![ty("UserSchema")])]), None)] };
    assert_eq!(detect_circular_fields(&from_user, &boxed), strs(&["owner"]));
}

#[test]
fn foreign_key_relations_and_required_back_references() {
    assert!(has_fk_relations(&memo_model()));
    assert!(!has_fk_relations(&user_model()));
    assert!(is_circular_relation_required(&memo_model(), "user"));
    assert!(!is_circular_relation_required(&memo_model(), "title"));
    assert!(!is_field_optional_in_struct(&memo_model().fields, "user_id"));
    assert!(!is_field_optional_in_struct(&memo_model().fields, "nope"));
}

#[test]
fn defaults_for_left_out_relation_fields() {
    let memo = memo_model();
    assert!(matches!(generate_default_for_relation_field(&memo.fields[3], &memo.fields), InitValue::ParentStub));
    let user = user_model();
    assert!(matches!(generate_default_for_relation_field(&user.fields[2], &user.fields), InitValue::EmptyList));
    let loose = mf("profile", gen("HasOne", vec![entity(&["profile", "Entity"])]), None);
    assert!(matches!(generate_default_for_relation_field(&loose, &user.fields), InitValue::Nothing));
    assert!(matches!(generate_default_for_relation_field(&mf("x", ty("Other"), None), &user.fields), InitValue::DefaultValue));
}

#[test]
fn inline_constructions() {
    let memo = memo_model();
    let inits = generate_inline_struct_construction(&memo, &strs(&["user"]));
    let names: Vec<String> = inits.iter().map(|i| i.name.clone()).collect();
    assert_eq!(names, strs(&["id", "title", "user_id", "user"]));
    assert!(matches!(&inits[0].value, InitValue::Copy { field } if field == "id"));
    assert!(matches!(inits[3].value, InitValue::ParentStub));
    let proj = generate_inline_type_construction(&strs(&["id", "user"]), &memo);
    assert_eq!(proj.len(), 1);
    assert_eq!(proj[0].name, "id");
}

#[test]
fn fields_back_to_any_module_on_the_path() {
    let tag = ModelDef {
        name: "Model".to_string(),
        fields: vec![
            mf("id", ty("i32"), None),
            mf("memo", gen("BelongsTo", vec![entity(&["super", "memo", "Entity"])]), Some("memo_id")),
            mf("owner", gen("BelongsTo", vec![entity(&["super", "user", "Entity"])]), Some("owner_id")),
            mf("things", gen("HasMany", vec![entity(&["super", "user", "Entity"])]), None),
        ],
    };
    assert_eq!(detect_fields_back_to_path(&strs(&["user", "memo"]), &tag), strs(&["memo", "owner"]));
    assert_eq!(detect_fields_back_to_path(&strs(&["user"]), &tag), strs(&["owner"]));
    assert!(detect_fields_back_to_path(&[], &tag).is_empty());
}
