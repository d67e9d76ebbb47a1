use vespera::types::{
    is_map_type, is_option_type, is_primitive_type, primitive_kind, substitute_type, PathArgs,
    PathSegment, Primitive, TypeExpr,
};

fn seg(name: &str) -> PathSegment {
    PathSegment { ident: name.to_string(), args: PathArgs::Bare }
}

fn gseg(name: &str, args: Vec<TypeExpr>) -> PathSegment {
    PathSegment { ident: name.to_string(), args: PathArgs::Angle { args } }
}

fn path(segments: Vec<PathSegment>) -> TypeExpr {
    TypeExpr::Path { leading_colon: false, segments }
}

fn ty(name: &str) -> TypeExpr {
    path(vec![seg(name)])
}

fn gen(name: &str, args: Vec<TypeExpr>) -> TypeExpr {
    path(vec![gseg(name, args)])
}

fn verbatim(text: &str) -> TypeExpr {
    TypeExpr::Verbatim { text: text.to_string() }
}

fn names(v: &[&str]) -> Vec<String> {
    v.iter().map(|s| s.to_string()).collect()
}

fn subst(t: &TypeExpr, params: &[&str], concrete: Vec<TypeExpr>) -> String {
    substitute_type(t, &names(params), &concrete).render()
}

#[test]
fn test_substitute_type_empty_path_segments() {
    let t = path(vec![]);
    let result = substitute_type(&t, &names(&["T"]), &[ty("String")]);
    assert_eq!(result.render(), t.render());
    assert!(matches!(result, TypeExpr::Path { ref segments, .. } if segments.is_empty()));
}

#[test]
fn test_substitute_type_with_lifetime_generic_argument() {
    let t = path(vec![seg("std"), seg("borrow"), gseg("Cow", vec![verbatim("'static"), ty("T")])]);
    assert_eq!(subst(&t, &["T"], vec![ty("String")]), "std :: borrow :: Cow < 'static , String >");
}

#[test]
fn test_substitute_type_parenthesized_args() {
    let t = verbatim("fn (T) -> U");
    assert_eq!(subst(&t, &["T", "U"], vec![ty("String"), ty("i32")]), t.render());
}

#[test]
fn test_substitute_type_path_without_angle_brackets() {
    let t = verbatim("dyn Fn (T) -> U");
    assert_eq!(subst(&t, &["T", "U"], vec![ty("String"), ty("i32")]), t.render());
}

#[test]
fn substitute_direct_parameter() {
    assert_eq!(subst(&ty("T"), &["T"], vec![ty("String")]), "String");
}

#[test]
fn substitute_inside_generics() {
    assert_eq!(subst(&gen("Vec", vec![ty("T")]), &["T"], vec![ty("String")]), "Vec < String >");
    assert_eq!(subst(&gen("Option", vec![ty("T")]), &["T"], vec![ty("i32")]), "Option < i32 >");
    let nested = gen("Option", vec![gen("Vec", vec![gen("Option", vec![ty("T")])])]);
    assert_eq!(subst(&nested, &["T"], vec![ty("bool")]), "Option < Vec < Option < bool > > >");
    let map = gen("HashMap", vec![ty("K"), ty("V")]);
    assert_eq!(subst(&map, &["K", "V"], vec![ty("String"), ty("i32")]), "HashMap < String , i32 >");
}

#[test]
fn substitute_vec_of_option_round_trip() {
    let t = gen("Vec", vec![gen("Option", vec![ty("T")])]);
    let concrete = gen("Wrapper", vec![ty("u8")]);
    assert_eq!(subst(&t, &["T"], vec![concrete]), "Vec < Option < Wrapper < u8 > > >");
}

#[test]
fn substitute_without_matching_parameter_is_unchanged() {
    let t = gen("Vec", vec![ty("U")]);
    assert_eq!(subst(&t, &["T"], vec![ty("String")]), "Vec < U >");
    assert_eq!(subst(&ty("String"), &["T"], vec![ty("i32")]), "String");
    let once = substitute_type(&t, &names(&["T"]), &[ty("String")]);
    let twice = substitute_type(&once, &names(&["T"]), &[ty("String")]);
    assert_eq!(once.render(), twice.render());
}

#[test]
fn substitute_references_slices_arrays_tuples() {
    let r = TypeExpr::Reference { lifetime: None, mutable: false, elem: Box::new(ty("T")) };
    assert_eq!(subst(&r, &["T"], vec![ty("String")]), "& String");
    let m = TypeExpr::Reference { lifetime: None, mutable: true, elem: Box::new(ty("T")) };
    assert_eq!(subst(&m, &["T"], vec![ty("i32")]), "& mut i32");
    let sl = TypeExpr::Slice { elem: Box::new(ty("T")) };
    assert_eq!(subst(&sl, &["T"], vec![ty("String")]), "[String]");
    let ar = TypeExpr::Array { elem: Box::new(ty("T")), len: "5".to_string() };
    assert_eq!(subst(&ar, &["T"], vec![ty("u8")]), "[u8 ; 5]");
    let tu = TypeExpr::Tuple { elems: vec![ty("T"), ty("U")] };
    assert_eq!(subst(&tu, &["T", "U"], vec![ty("String"), ty("i32")]), "(String , i32)");
    let tu2 = TypeExpr::Tuple { elems: vec![gen("Vec", vec![ty("T")]), gen("Option", vec![ty("U")])] };
    assert_eq!(
        subst(&tu2, &["T", "U"], vec![ty("String"), ty("bool")]),
        "(Vec < String > , Option < bool >)"
    );
}

#[test]
fn substitute_multi_segment_path() {
    let t = path(vec![seg("std"), seg("vec"), gseg("Vec", vec![ty("T")])]);
    assert_eq!(subst(&t, &["T"], vec![ty("String")]), "std :: vec :: Vec < String >");
    let q = path(vec![seg("crate"), seg("T")]);
    assert_eq!(subst(&q, &["T"], vec![ty("String")]), "crate :: T");
}

#[test]
fn substitute_parameter_without_concrete_type_is_kept() {
    assert_eq!(subst(&ty("U"), &["T", "U"], vec![ty("String")]), "U");
}

#[test]
fn classify_option_map_primitive() {
    assert!(is_option_type(&gen("Option", vec![ty("i32")])));
    assert!(!is_option_type(&gen("Vec", vec![ty("i32")])));
    assert!(is_map_type(&gen("HashMap", vec![ty("String"), ty("i32")])));
    assert!(is_map_type(&path(vec![seg("std"), seg("collections"), gseg("BTreeMap", vec![ty("K"), ty("V")])])));
    assert!(!is_map_type(&gen("Vec", vec![ty("i32")])));
    assert!(is_primitive_type(&ty("u64")));
    assert!(is_primitive_type(&path(vec![seg("std"), seg("string"), seg("String")])));
    assert!(!is_primitive_type(&ty("User")));
    assert_eq!(primitive_kind(&ty("f64")), Some(Primitive::Number));
    assert_eq!(primitive_kind(&ty("bool")), Some(Primitive::Boolean));
    assert_eq!(primitive_kind(&ty("char")), Some(Primitive::Text));
    assert_eq!(primitive_kind(&ty("i128")), Some(Primitive::Integer));
}

#[test]
fn render_single_element_tuple_and_lifetime_reference() {
    let t = TypeExpr::Tuple { elems: vec![ty("T")] };
    assert_eq!(t.render(), "(T ,)");
    let r = TypeExpr::Reference { lifetime: Some("'a".to_string()), mutable: true, elem: Box::new(ty("str")) };
    assert_eq!(r.render(), "& 'a mut str");
    let lc = TypeExpr::Path { leading_colon: true, segments: vec![seg("std"), seg("fmt")] };
    assert_eq!(lc.render(), ":: std :: fmt");
}
