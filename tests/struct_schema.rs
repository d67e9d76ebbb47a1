use vespera::items::{FieldDef, StructDef};
use vespera::schema::{Property, Schema, SchemaRef, SchemaType};
use vespera::struct_schema::{generate_filtered_schema, parse_struct_to_schema};
use vespera::types::{PathArgs, PathSegment, TypeExpr};

fn ty(name: &str) -> TypeExpr {
    TypeExpr::Path {
        leading_colon: false,
        segments: vec![PathSegment { ident: name.to_string(), args: PathArgs::Bare }],
    }
}

fn gen(name: &str, args: Vec<TypeExpr>) -> TypeExpr {
    TypeExpr::Path {
        leading_colon: false,
        segments: vec![PathSegment { ident: name.to_string(), args: PathArgs::Angle { args } }],
    }
}

fn field(name: &str, t: TypeExpr) -> FieldDef {
    FieldDef {
        name: name.to_string(),
        ty: t,
        rename: None,
        description: None,
        skip: false,
        has_default: false,
        skip_if: false,
    }
}

fn def(rename_all: Option<&str>, fields: Vec<FieldDef>) -> StructDef {
    StructDef {
        name: "S".to_string(),
        description: None,
        rename_all: rename_all.map(|s| s.to_string()),
        fields,
    }
}

fn inline(r: &SchemaRef) -> &Schema {
    match r {
        SchemaRef::Inline { schema } => schema,
        _ => panic!("Expected inline schema"),
    }
}

fn prop<'a>(props: &'a [Property], name: &str) -> &'a SchemaRef {
    &props.iter().find(|p| p.name == name).expect("property missing").schema
}

fn names(props: &[Property]) -> Vec<String> {
    props.iter().map(|p| p.name.clone()).collect()
}

#[test]
fn struct_with_optional_known_owner() {
    let d = def(Some("camelCase"), vec![field("id", ty("i32")), field("owner", gen("Option", vec![ty("User")]))]);
    let known = vec!["User".to_string()];
    let s = parse_struct_to_schema(&d, &known);
    assert_eq!(s.schema_type, Some(SchemaType::Object));
    let props = s.properties.as_ref().unwrap();
    assert_eq!(names(props), vec!["id".to_string(), "owner".to_string()]);
    assert_eq!(inline(prop(props, "id")).schema_type, Some(SchemaType::Integer));
    let owner = inline(prop(props, "owner"));
    assert_eq!(owner.nullable, Some(true));
    assert_eq!(owner.schema_type, None);
    let all_of = owner.all_of.as_ref().unwrap();
    assert_eq!(all_of.len(), 1);
    match &all_of[0] {
        SchemaRef::Ref { ref_path } => assert_eq!(ref_path, "#/components/schemas/User"),
        _ => panic!("Expected $ref in allOf"),
    }
    assert_eq!(s.required, Some(vec!["id".to_string()]));
}

#[test]
fn optional_fields_are_never_required() {
    let mut dflt = field("retries", ty("u32"));
    dflt.has_default = true;
    let mut cond = field("tag", ty("String"));
    cond.skip_if = true;
    let d = def(
        Some("camelCase"),
        vec![field("user_id", ty("i64")), field("nick_name", gen("Option", vec![ty("String")])), dflt, cond],
    );
    let s = parse_struct_to_schema(&d, &[]);
    assert_eq!(s.required, Some(vec!["userId".to_string()]));
    let nick = inline(prop(s.properties.as_ref().unwrap(), "nickName"));
    assert_eq!(nick.nullable, Some(true));
    assert_eq!(nick.schema_type, Some(SchemaType::String));
}

#[test]
fn skipped_fields_and_renames() {
    let mut hidden = field("secret", ty("String"));
    hidden.skip = true;
    let mut renamed = field("kind", ty("String"));
    renamed.rename = Some("type".to_string());
    let s = parse_struct_to_schema(&def(Some("SCREAMING_SNAKE_CASE"), vec![field("max_len", ty("usize")), hidden, renamed]), &[]);
    assert_eq!(names(s.properties.as_ref().unwrap()), vec!["MAX_LEN".to_string(), "type".to_string()]);
    assert_eq!(s.required, Some(vec!["MAX_LEN".to_string(), "type".to_string()]));
}

#[test]
fn collections_nested_and_unknown_types() {
    let d = def(
        None,
        vec![
            field("tags", gen("Vec", vec![ty("String")])),
            field("owner", ty("User")),
            field("blob", ty("Opaque")),
            field("pair", TypeExpr::Tuple { elems: vec![ty("i32"), ty("bool")] }),
            field("boxed", gen("Box", vec![ty("f32")])),
        ],
    );
    let known = vec!["User".to_string()];
    let s = parse_struct_to_schema(&d, &known);
    let props = s.properties.as_ref().unwrap();
    let tags = inline(prop(props, "tags"));
    assert_eq!(tags.schema_type, Some(SchemaType::Array));
    assert_eq!(inline(tags.items.as_ref().unwrap()).schema_type, Some(SchemaType::String));
    match prop(props, "owner") {
        SchemaRef::Ref { ref_path } => assert_eq!(ref_path, "#/components/schemas/User"),
        _ => panic!("expected a $ref"),
    }
    assert_eq!(inline(prop(props, "blob")).schema_type, Some(SchemaType::Object));
    let pair = inline(prop(props, "pair"));
    assert_eq!(pair.prefix_items.as_ref().unwrap().len(), 2);
    assert_eq!(pair.min_items, Some(2));
    assert_eq!(inline(prop(props, "boxed")).schema_type, Some(SchemaType::Number));
}

#[test]
fn empty_struct_has_no_properties_or_required() {
    let mut d = def(None, vec![]);
    d.description = Some("Nothing here".to_string());
    let s = parse_struct_to_schema(&d, &[]);
    assert!(s.properties.is_none());
    assert!(s.required.is_none());
    assert_eq!(s.description.as_deref(), Some("Nothing here"));
}

#[test]
fn filtered_schema_omits_by_either_name() {
    let d = def(Some("camelCase"), vec![field("user_id", ty("i64")), field("pass_word", ty("String")), field("email", ty("String"))]);
    let omit = vec!["passWord".to_string()];
    let s = generate_filtered_schema(&d, &omit, &[], &[]);
    assert_eq!(names(s.properties.as_ref().unwrap()), vec!["userId".to_string(), "email".to_string()]);
    assert_eq!(s.required, Some(vec!["userId".to_string(), "email".to_string()]));
    let omit2 = vec!["user_id".to_string()];
    let s2 = generate_filtered_schema(&d, &omit2, &[], &[]);
    assert_eq!(names(s2.properties.as_ref().unwrap()), vec!["passWord".to_string(), "email".to_string()]);
}

#[test]
fn filtered_schema_picks_only_named_fields() {
    let d = def(None, vec![field("id", ty("i32")), field("name", gen("Option", vec![ty("String")])), field("email", ty("String"))]);
    let pick = vec!["id".to_string(), "name".to_string()];
    let s = generate_filtered_schema(&d, &[], &pick, &[]);
    assert_eq!(names(s.properties.as_ref().unwrap()), vec!["id".to_string(), "name".to_string()]);
    assert_eq!(s.required, Some(vec!["id".to_string()]));
    let none = generate_filtered_schema(&d, &[], &["missing".to_string()], &[]);
    assert!(none.properties.is_none());
    assert!(none.required.is_none());
}
