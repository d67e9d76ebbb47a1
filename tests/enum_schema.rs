use vespera::enum_schema::parse_enum_to_schema;
use vespera::items::{EnumDef, FieldDef, VariantDef, VariantFields};
use vespera::schema::{Property, Schema, SchemaRef, SchemaType};
use vespera::types::{PathArgs, PathSegment, TypeExpr};

fn ty(name: &str) -> TypeExpr {
    TypeExpr::Path {
        leading_colon: false,
        segments: vec![PathSegment { ident: name.to_string(), args: PathArgs::Bare }],
    }
}

fn gen(name: &str, args: Vec<TypeExpr>) -> TypeExpr {
    TypeExpr::Path {
        leading_colon: false,
        segments: vec![PathSegment { ident: name.to_string(), args: PathArgs::Angle { args } }],
    }
}

fn field(name: &str, t: TypeExpr) -> FieldDef {
    FieldDef {
        name: name.to_string(),
        ty: t,
        rename: None,
        description: None,
        skip: false,
        has_default: false,
        skip_if: false,
    }
}

fn variant(name: &str, fields: VariantFields) -> VariantDef {
    VariantDef { name: name.to_string(), rename: None, rename_all: None, description: None, fields }
}

fn unit(name: &str) -> VariantDef {
    variant(name, VariantFields::Unit)
}

fn enum_def(rename_all: Option<&str>, variants: Vec<VariantDef>) -> EnumDef {
    EnumDef {
        name: "E".to_string(),
        description: None,
        rename_all: rename_all.map(|s| s.to_string()),
        variants,
    }
}

fn inline(r: &SchemaRef) -> &Schema {
    match r {
        SchemaRef::Inline { schema } => schema,
        _ => panic!("Expected inline schema"),
    }
}

fn prop<'a>(props: &'a [Property], name: &str) -> Option<&'a SchemaRef> {
    props.iter().find(|p| p.name == name).map(|p| &p.schema)
}

fn has(props: &[Property], name: &str) -> bool {
    prop(props, name).is_some()
}

fn values(s: &Schema) -> Vec<String> {
    s.enum_values.clone().expect("enum values missing")
}

#[test]
fn test_parse_enum_to_schema_rename_all_for_data_variant() {
    let e = enum_def(Some("kebab-case"), vec![variant("DataItem", VariantFields::Unnamed { types: vec![ty("String")] })]);
    let schema = parse_enum_to_schema(&e, &[]);
    let one_of = schema.one_of.expect("one_of missing");
    let props = inline(&one_of[0]).properties.as_ref().expect("variant props missing");
    assert!(has(props, "data-item"));
}

#[test]
fn test_parse_enum_to_schema_field_uses_enum_rename_all() {
    let e = enum_def(Some("snake_case"), vec![variant("Detail", VariantFields::Named { fields: vec![field("UserId", ty("i32"))] })]);
    let schema = parse_enum_to_schema(&e, &[]);
    let one_of = schema.one_of.expect("one_of missing");
    let props = inline(&one_of[0]).properties.as_ref().expect("variant props missing");
    let inner = inline(prop(props, "detail").expect("variant key missing"));
    let inner_props = inner.properties.as_ref().expect("inner props missing");
    assert!(has(inner_props, "user_id"));
    assert!(!has(inner_props, "UserId"));
}

#[test]
fn test_parse_enum_to_schema_variant_rename_overrides_rename_all() {
    let mut v = variant("DataItem", VariantFields::Unnamed { types: vec![ty("i32")] });
    v.rename = Some("Explicit".to_string());
    let schema = parse_enum_to_schema(&enum_def(Some("snake_case"), vec![v]), &[]);
    let one_of = schema.one_of.expect("one_of missing");
    let props = inline(&one_of[0]).properties.as_ref().expect("variant props missing");
    assert!(has(props, "Explicit"));
    assert!(!has(props, "data_item"));
}

#[test]
fn test_parse_enum_to_schema_field_rename_overrides_variant_rename_all() {
    let mut f = field("user_id", ty("i32"));
    f.rename = Some("ID".to_string());
    let mut v = variant("Detail", VariantFields::Named { fields: vec![f] });
    v.rename_all = Some("kebab-case".to_string());
    let schema = parse_enum_to_schema(&enum_def(Some("snake_case"), vec![v]), &[]);
    let one_of = schema.one_of.expect("one_of missing");
    let props = inline(&one_of[0]).properties.as_ref().expect("variant props missing");
    let inner = inline(prop(props, "detail").or_else(|| prop(props, "Detail")).expect("variant key missing"));
    let inner_props = inner.properties.as_ref().expect("inner props missing");
    assert!(has(inner_props, "ID"));
    assert!(!has(inner_props, "user-id"));
}

#[test]
fn test_parse_enum_to_schema_rename_all_with_other_attrs_unit() {
    let e = enum_def(Some("kebab-case"), vec![unit("ActiveUser"), unit("InactiveUser")]);
    let schema = parse_enum_to_schema(&e, &[]);
    let enum_values = values(&schema);
    assert_eq!(enum_values[0], "active-user");
    assert_eq!(enum_values[1], "inactive-user");
}

#[test]
fn test_parse_enum_to_schema_rename_all_with_other_attrs_data() {
    let e = enum_def(
        Some("camelCase"),
        vec![
            variant(
                "UserCreated",
                VariantFields::Named { fields: vec![field("user_name", ty("String")), field("created_at", ty("i64"))] },
            ),
            variant("UserDeleted", VariantFields::Unnamed { types: vec![ty("i32")] }),
        ],
    );
    let schema = parse_enum_to_schema(&e, &[]);
    let one_of = schema.one_of.expect("one_of missing");
    let props = inline(&one_of[0]).properties.as_ref().expect("variant props missing");
    assert!(has(props, "userCreated"));
    assert!(!has(props, "UserCreated"));
    assert!(!has(props, "user_created"));
    let props2 = inline(&one_of[1]).properties.as_ref().expect("variant props missing");
    assert!(has(props2, "userDeleted"));
}

#[test]
fn test_parse_enum_to_schema_rename_all_not_first_attr() {
    let e = enum_def(Some("SCREAMING_SNAKE_CASE"), vec![unit("HighPriority"), unit("LowPriority")]);
    let schema = parse_enum_to_schema(&e, &[]);
    let enum_values = values(&schema);
    assert_eq!(enum_values[0], "HIGH_PRIORITY");
    assert_eq!(enum_values[1], "LOW_PRIORITY");
}

#[test]
fn test_parse_enum_to_schema_empty_enum() {
    let schema = parse_enum_to_schema(&enum_def(None, vec![]), &[]);
    assert!(schema.enum_values.is_none() || schema.enum_values.as_ref().unwrap().is_empty());
}

#[test]
fn test_parse_enum_to_schema_struct_variant_no_fields() {
    let e = enum_def(None, vec![variant("Empty", VariantFields::Named { fields: vec![] })]);
    let schema = parse_enum_to_schema(&e, &[]);
    let one_of = schema.one_of.expect("one_of missing");
    assert_eq!(one_of.len(), 1);
}

#[test]
fn test_parse_enum_to_schema_with_variant_descriptions() {
    let mut a = unit("Active");
    a.description = Some("Active variant".to_string());
    let mut i = unit("Inactive");
    i.description = Some("Inactive variant".to_string());
    let mut e = enum_def(None, vec![a, i]);
    e.description = Some("Enum description".to_string());
    let schema = parse_enum_to_schema(&e, &[]);
    assert_eq!(schema.description, Some("Enum description".to_string()));
}

#[test]
fn test_parse_enum_to_schema_data_variant_with_description() {
    let mut t = variant("Text", VariantFields::Unnamed { types: vec![ty("String")] });
    t.description = Some("Text event description".to_string());
    let mut n = variant("Number", VariantFields::Unnamed { types: vec![ty("i32")] });
    n.description = Some("Number event description".to_string());
    let mut e = enum_def(None, vec![t, n]);
    e.description = Some("Data enum".to_string());
    let schema = parse_enum_to_schema(&e, &[]);
    assert_eq!(schema.description, Some("Data enum".to_string()));
    assert!(schema.one_of.is_some());
    let one_of = schema.one_of.unwrap();
    assert_eq!(one_of.len(), 2);
    if let SchemaRef::Inline { schema: variant_schema } = &one_of[0] {
        assert_eq!(variant_schema.description, Some("Text event description".to_string()));
    }
}

#[test]
fn test_parse_enum_to_schema_struct_variant_with_field_docs() {
    let mut value = field("value", ty("i32"));
    value.description = Some("The value field".to_string());
    let mut name = field("name", ty("String"));
    name.description = Some("The name field".to_string());
    let mut v = variant("Record", VariantFields::Named { fields: vec![value, name] });
    v.description = Some("Record variant".to_string());
    let schema = parse_enum_to_schema(&enum_def(None, vec![v]), &[]);
    assert!(schema.one_of.is_some());
    let one_of = schema.one_of.unwrap();
    if let SchemaRef::Inline { schema: variant_schema } = &one_of[0] {
        assert_eq!(variant_schema.description, Some("Record variant".to_string()));
    }
}

#[test]
fn test_parse_enum_to_schema_variant_field_with_doc_comment_and_ref() {
    let mut user = field("user", ty("User"));
    user.description = Some("The user associated with this message".to_string());
    let e = enum_def(None, vec![variant("Data", VariantFields::Named { fields: vec![user] })]);
    let known = vec!["User".to_string()];
    let schema = parse_enum_to_schema(&e, &known);
    let one_of = schema.one_of.expect("one_of missing");
    let props = inline(&one_of[0]).properties.as_ref().expect("variant props missing");
    let inner = inline(prop(props, "Data").expect("variant key missing"));
    let inner_props = inner.properties.as_ref().expect("inner props missing");
    let user_field = prop(inner_props, "user").expect("user field missing");
    match user_field {
        SchemaRef::Inline { schema } => {
            assert_eq!(schema.description.as_deref(), Some("The user associated with this message"));
            let all_of = schema.all_of.as_ref().expect("allOf missing");
            assert_eq!(all_of.len(), 1);
            match &all_of[0] {
                SchemaRef::Ref { ref_path } => assert_eq!(ref_path, "#/components/schemas/User"),
                _ => panic!("Expected $ref in allOf"),
            }
        },
        SchemaRef::Ref { .. } => panic!("Expected inline schema with allOf, not direct $ref"),
    }
}

#[test]
fn unit_enum_with_kebab_case_policy() {
    let e = enum_def(Some("kebab-case"), vec![unit("Active"), unit("Inactive")]);
    let schema = parse_enum_to_schema(&e, &[]);
    assert_eq!(schema.schema_type, Some(SchemaType::String));
    assert_eq!(values(&schema), vec!["active".to_string(), "inactive".to_string()]);
    assert!(schema.one_of.is_none());
}

#[test]
fn unit_enum_values_follow_rename_pipeline() {
    let mut ok = unit("Ok");
    ok.rename = Some("ok-status".to_string());
    let e = enum_def(Some("kebab-case"), vec![ok, unit("ErrorCode")]);
    let schema = parse_enum_to_schema(&e, &[]);
    assert_eq!(values(&schema), vec!["ok-status".to_string(), "error-code".to_string()]);
    let plain = parse_enum_to_schema(&enum_def(None, vec![unit("First"), unit("Second")]), &[]);
    assert_eq!(values(&plain), vec!["First".to_string(), "Second".to_string()]);
}

#[test]
fn data_enum_has_one_alternative_per_variant_in_order() {
    let e = enum_def(
        None,
        vec![
            unit("Ready"),
            variant("Data", VariantFields::Unnamed { types: vec![ty("String")] }),
            variant("Pair", VariantFields::Unnamed { types: vec![ty("i32"), ty("String")] }),
            variant("Detail", VariantFields::Named { fields: vec![field("id", ty("i32")), field("note", gen("Option", vec![ty("String")]))] }),
        ],
    );
    let schema = parse_enum_to_schema(&e, &[]);
    assert_eq!(schema.schema_type, None);
    let one_of = schema.one_of.expect("one_of missing");
    assert_eq!(one_of.len(), 4);
    let ready = inline(&one_of[0]);
    assert_eq!(ready.schema_type, Some(SchemaType::String));
    assert_eq!(values(ready), vec!["Ready".to_string()]);
    let data = inline(&one_of[1]);
    assert_eq!(data.required, Some(vec!["Data".to_string()]));
    let data_inner = inline(prop(data.properties.as_ref().unwrap(), "Data").unwrap());
    assert_eq!(data_inner.schema_type, Some(SchemaType::String));
    let pair = inline(&one_of[2]);
    let arr = inline(prop(pair.properties.as_ref().unwrap(), "Pair").unwrap());
    assert_eq!(arr.schema_type, Some(SchemaType::Array));
    assert_eq!(arr.prefix_items.as_ref().unwrap().len(), 2);
    assert_eq!(arr.min_items, Some(2));
    assert_eq!(arr.max_items, Some(2));
    assert!(arr.items.is_none());
    let detail = inline(&one_of[3]);
    let obj = inline(prop(detail.properties.as_ref().unwrap(), "Detail").unwrap());
    assert_eq!(obj.schema_type, Some(SchemaType::Object));
    assert!(has(obj.properties.as_ref().unwrap(), "id"));
    assert!(has(obj.properties.as_ref().unwrap(), "note"));
    assert_eq!(obj.required, Some(vec!["id".to_string()]));
}
