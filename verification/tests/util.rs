use macro_workshop::util::{attribute_meta, meta_keyed_str, meta_lists_path, meta_named_str};
use macro_workshop::text::holds_c_string_mark;
use macro_workshop::util::{
    get_attribute_by_key, get_attribute_value, get_option_type, get_vec_type, has_attribute,
    has_attribute_value, AttrPath, Attribute, GenericArgument, PathArguments, PathSegment, Type,
    TypeKind, TypePath, TypeSegment,
};

fn path(s: &str) -> AttrPath {
    AttrPath {
        leading_colon: false,
        segments: vec![PathSegment { ident: s.to_string(), has_arguments: false }],
    }
}

/// `#[name(body)]`
fn list_attr(name: &str, body: &str) -> Attribute {
    Attribute { path: path(name), text: format!("#[{}({})]", name, body) }
}

fn simple_type(name: &str) -> Type {
    Type {
        text: name.to_string(),
        kind: TypeKind::Path(TypePath {
            qself: false,
            segments: vec![TypeSegment { ident: name.to_string(), arguments: PathArguments::NoArguments }],
        }),
    }
}

fn wrapped(outer: &str, inner: Type) -> Type {
    Type {
        text: format!("{}<{}>", outer, inner.text),
        kind: TypeKind::Path(TypePath {
            qself: false,
            segments: vec![TypeSegment {
                ident: outer.to_string(),
                arguments: PathArguments::AngleBracketed(vec![GenericArgument::Type(inner)]),
            }],
        }),
    }
}

#[test]
fn finds_list_values() {
    let attrs = vec![list_attr("sorted", "check")];
    assert!(has_attribute_value(&attrs, "sorted", "check"));
    assert!(!has_attribute_value(&attrs, "sorted", "other"));
    assert!(!has_attribute_value(&attrs, "other", "check"));
}

#[test]
fn finds_attribute_names() {
    let attrs = vec![Attribute { path: path("derive"), text: "#[derive(Debug)]".to_string() }, list_attr("builder", "")];
    assert!(has_attribute(&attrs, "builder"));
    assert!(!has_attribute(&attrs, "debug"));
}

#[test]
fn reads_value_by_key_in_first_matching_attribute() {
    let attrs = vec![
        list_attr("builder", "each = \"arg\", default = \"vec![]\""),
        list_attr("builder", "each = \"env\""),
    ];
    assert_eq!(get_attribute_by_key(&attrs, "builder", "each"), Some("arg".to_string()));
    assert_eq!(get_attribute_by_key(&attrs, "builder", "default"), Some("vec![]".to_string()));
    assert_eq!(get_attribute_by_key(&attrs, "builder", "missing"), None);
    assert_eq!(get_attribute_by_key(&attrs, "debug", "each"), None);
}

#[test]
fn skips_non_string_values_by_key() {
    let attrs = vec![list_attr("debug", "bound = 3, bound = \"T: X\"")];
    assert_eq!(get_attribute_by_key(&attrs, "debug", "bound"), Some("T: X".to_string()));
}

#[test]
fn reads_name_value_attribute() {
    let attrs = vec![
        list_attr("debug", ""),
        Attribute { path: path("debug"), text: "#[debug = \"0b{:08b}\"]".to_string() },
    ];
    assert_eq!(get_attribute_value(&attrs, "debug"), Some("0b{:08b}".to_string()));
    assert_eq!(get_attribute_value(&attrs, "other"), None);
}

#[test]
fn recognises_option_and_vec() {
    let t = wrapped("Option", simple_type("String"));
    let (is_opt, inner) = get_option_type(&t);
    assert!(is_opt);
    assert_eq!(inner.text, "String");
    let (is_vec, same) = get_vec_type(&t);
    assert!(!is_vec);
    assert_eq!(same.text, "Option<String>");
    let v = wrapped("Vec", simple_type("u8"));
    let (is_vec, inner) = get_vec_type(&v);
    assert!(is_vec);
    assert_eq!(inner.text, "u8");
    let plain = simple_type("u8");
    assert!(!get_option_type(&plain).0);
}

#[test]
fn unreadable_attribute_has_no_values() {
    // `#[builder(each = )]` is not a meta item, so nothing is read from it.
    let attrs = vec![list_attr("builder", "each = ")];
    assert_eq!(get_attribute_by_key(&attrs, "builder", "each"), None);
    assert!(has_attribute(&attrs, "builder"));
    let nested = vec![list_attr("sorted", "inner(check)")];
    assert!(!has_attribute_value(&nested, "sorted", "check"));
}

#[test]
fn c_string_attribute_is_not_read() {
    let attrs = vec![Attribute { path: path("a"), text: "#[a = c\"x\"]".to_string() }];
    assert_eq!(get_attribute_value(&attrs, "a"), None);
    assert_eq!(get_attribute_by_key(&attrs, "a", "b"), None);
    assert!(!has_attribute_value(&attrs, "a", "b"));
}

#[test]
fn decides_on_read_meta_items() {
    let list = attribute_meta("#[builder(each = \"arg\", check)]");
    assert!(meta_lists_path(&list, "check"));
    assert!(!meta_lists_path(&list, "each"));
    assert_eq!(meta_keyed_str(&list, "each"), Some("arg".to_string()));
    assert_eq!(meta_named_str(&list, "builder"), None);
    let named = attribute_meta("#[debug = \"0b{:08b}\"]");
    assert_eq!(meta_named_str(&named, "debug"), Some("0b{:08b}".to_string()));
    assert_eq!(meta_keyed_str(&named, "debug"), None);
    assert!(attribute_meta("#[debug = ]").is_none());
    assert!(attribute_meta("#[a = c\"x\"]").is_none());
}

#[test]
fn finds_c_string_marks() {
    assert!(holds_c_string_mark("[u8; c\"x\"]"));
    assert!(holds_c_string_mark("cr#\"x\"#"));
    assert!(holds_c_string_mark("cr\"x\""));
    assert!(!holds_c_string_mark("T: Clone"));
    assert!(!holds_c_string_mark("\"abc\""));
    assert!(holds_c_string_mark("\"a c\""));
    assert!(holds_c_string_mark("=c\"x\""));
    assert!(!holds_c_string_mark("1c\"x\""));
    assert!(!holds_c_string_mark("crate::X"));
    assert!(!holds_c_string_mark("c"));
}
