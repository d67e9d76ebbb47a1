use vespera::rename::{apply_rule, emit_name, rename_field, RenameRule};

#[test]
fn rename_policies_on_variant_names() {
    assert_eq!(rename_field("ErrorCode", Some("kebab-case")), "error-code");
    assert_eq!(rename_field("FirstItem", Some("snake_case")), "first_item");
    assert_eq!(rename_field("HighPriority", Some("SCREAMING_SNAKE_CASE")), "HIGH_PRIORITY");
    assert_eq!(rename_field("UserCreated", Some("camelCase")), "userCreated");
    assert_eq!(rename_field("UserCreated", Some("SCREAMING-KEBAB-CASE")), "USER-CREATED");
    assert_eq!(rename_field("UserCreated", Some("lowercase")), "usercreated");
    assert_eq!(rename_field("UserCreated", Some("UPPERCASE")), "USERCREATED");
    assert_eq!(rename_field("UserCreated", Some("PascalCase")), "UserCreated");
}

#[test]
fn rename_policies_on_field_names() {
    assert_eq!(rename_field("user_id", Some("camelCase")), "userId");
    assert_eq!(rename_field("user_id", Some("PascalCase")), "UserId");
    assert_eq!(rename_field("user_id", Some("kebab-case")), "user-id");
    assert_eq!(rename_field("user_id", Some("snake_case")), "user_id");
    assert_eq!(rename_field("created_at", Some("SCREAMING_SNAKE_CASE")), "CREATED_AT");
}

#[test]
fn unknown_or_absent_policy_keeps_name() {
    assert_eq!(rename_field("user_id", None), "user_id");
    assert_eq!(rename_field("user_id", Some("Title Case")), "user_id");
    assert_eq!(RenameRule::from_name("camelCase"), Some(RenameRule::Camel));
    assert_eq!(RenameRule::from_name("camel"), None);
}

#[test]
fn explicit_rename_wins() {
    let name = "user_id".to_string();
    assert_eq!(emit_name(&name, &Some("ID".to_string()), &Some("camelCase".to_string())), "ID");
    assert_eq!(emit_name(&name, &None, &Some("camelCase".to_string())), "userId");
    assert_eq!(emit_name(&name, &None, &None), "user_id");
    assert_eq!(apply_rule("", RenameRule::Camel), "");
}
