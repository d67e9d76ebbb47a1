use vespera::metadata::{CollectedMetadata, RouteMetadata, StructMetadata};
use vespera::route::{check_route_by_meta, path_placeholders, route_info_from_args};

#[test]
fn collected_metadata_starts_empty() {
    let m = CollectedMetadata::new("api".to_string());
    assert_eq!(m.folder_name, "api");
    assert!(m.routes.is_empty());
    assert!(m.structs.is_empty());
    let d = CollectedMetadata::default();
    assert_eq!(d.folder_name, "routes");
}

#[test]
fn collected_metadata_records_in_order() {
    let mut m = CollectedMetadata::default();
    m.add_route(RouteMetadata {
        method: "get".to_string(),
        path: "/users".to_string(),
        function_name: "list".to_string(),
        module: "users".to_string(),
        file_path: "src/routes/users.rs".to_string(),
        signature: "pub async fn list()".to_string(),
    });
    m.add_struct(StructMetadata {
        name: "User".to_string(),
        module: "models".to_string(),
        file_path: "src/models.rs".to_string(),
        definition: "struct User { id: i32 }".to_string(),
    });
    assert_eq!(m.routes.len(), 1);
    assert_eq!(m.routes[0].function_name, "list");
    assert_eq!(m.structs[0].name, "User");
}

#[test]
fn route_attribute_paths() {
    let s = |v: &[&str]| v.iter().map(|x| x.to_string()).collect::<Vec<String>>();
    assert!(check_route_by_meta(&s(&["vespera", "route"]), true));
    assert!(check_route_by_meta(&s(&["route"]), true));
    assert!(!check_route_by_meta(&s(&["route"]), false));
    assert!(!check_route_by_meta(&s(&["serde"]), true));
    assert!(!check_route_by_meta(&s(&["a", "vespera", "route"]), true));
}

#[test]
fn route_info_defaults_and_status_codes() {
    let info = route_info_from_args(None, Some("/users/{id}".to_string()), Some(vec![Some(404), None, Some(500)]));
    assert_eq!(info.method, "get");
    assert_eq!(info.path.as_deref(), Some("/users/{id}"));
    assert_eq!(info.error_status, Some(vec![404, 500]));
    let none = route_info_from_args(Some("post".to_string()), None, Some(vec![None]));
    assert_eq!(none.method, "post");
    assert!(none.error_status.is_none());
    assert!(route_info_from_args(None, None, None).error_status.is_none());
}

#[test]
fn test_validate_route_fn_not_public() {
    let result = vespera::route::validate_route_fn(false, true);
    assert!(result.is_err());
    assert!(result.unwrap_err().message().contains("function must be public"));
}

#[test]
fn test_validate_route_fn_not_async() {
    let result = vespera::route::validate_route_fn(true, false);
    assert!(result.is_err());
    assert!(result.unwrap_err().message().contains("function must be async"));
}

#[test]
fn test_validate_route_fn_valid() {
    let result = vespera::route::validate_route_fn(true, true);
    assert!(result.is_ok());
}

#[test]
fn private_sync_handler_reports_visibility_first() {
    assert_eq!(vespera::route::validate_route_fn(false, false), Err(vespera::route::RouteFnError::NotPublic));
}

#[test]
fn route_template_placeholders() {
    assert_eq!(path_placeholders("/users/{id}/posts/{post_id}"), vec!["id".to_string(), "post_id".to_string()]);
    assert!(path_placeholders("/health").is_empty());
    assert_eq!(path_placeholders("/{a}{b}/{unclosed"), vec!["a".to_string(), "b".to_string()]);
    assert_eq!(path_placeholders("/{}"), vec!["".to_string()]);
}

#[test]
fn registry_lookup_finds_first_by_name() {
    let mut m = CollectedMetadata::default();
    for (name, def) in [("User", "struct User { a: i32 }"), ("Memo", "struct Memo {}"), ("User", "struct User { b: i32 }")] {
        m.add_struct(StructMetadata {
            name: name.to_string(),
            module: String::new(),
            file_path: String::new(),
            definition: def.to_string(),
        });
    }
    assert_eq!(m.find_struct("User").unwrap().definition, "struct User { a: i32 }");
    assert_eq!(m.find_struct("Memo").unwrap().definition, "struct Memo {}");
    assert!(m.find_struct("Nope").is_none());
}
