use macro_workshop::custom_debug::{
    add_trait_bounds, get_attribute_of_field, get_phantom_type, BuilderContext, Field, GenericParam, StructParser, VisitedPath,
};
use macro_workshop::util::{
    AttrPath, Attribute, GenericArgument, PathArguments, PathSegment, Type,
    TypeKind, TypePath, TypeSegment,
};

fn path(s: &str) -> AttrPath {
    AttrPath {
        leading_colon: false,
        segments: vec![PathSegment { ident: s.to_string(), has_arguments: false }],
    }
}

fn format_attr(f: &str) -> Attribute {
    Attribute { path: path("debug"), text: format!("#[debug = {:?}]", f) }
}

fn bound_attr(b: &str) -> Attribute {
    Attribute { path: path("debug"), text: format!("#[debug(bound = {:?})]", b) }
}

fn ty(segs: &[&str], args: Vec<Type>) -> Type {
    let n = segs.len();
    let segments = segs
        .iter()
        .enumerate()
        .map(|(i, s)| TypeSegment {
            ident: s.to_string(),
            arguments: if i == n - 1 && !args.is_empty() {
                PathArguments::AngleBracketed(Vec::new())
            } else {
                PathArguments::NoArguments
            },
        })
        .collect::<Vec<_>>();
    let mut segments = segments;
    if !args.is_empty() {
        segments[n - 1].arguments =
            PathArguments::AngleBracketed(args.into_iter().map(GenericArgument::Type).collect());
    }
    Type { text: segs.join("::"), kind: TypeKind::Path(TypePath { qself: false, segments }) }
}

fn visited(segs: &[&str], id: usize) -> VisitedPath {
    VisitedPath { segments: segs.iter().map(|s| s.to_string()).collect(), id }
}

fn field(name: &str, t: Type, attrs: Vec<Attribute>, paths: Vec<VisitedPath>) -> Field {
    Field { name: name.to_string(), ty: t, attrs, type_paths: paths }
}

#[test]
fn reads_field_format() {
    let f = field("bitmask", ty(&["u8"], vec![]), vec![format_attr("0b{:08b}")], vec![]);
    assert_eq!(get_attribute_of_field(&f, "debug"), Some("0b{:08b}".to_string()));
}

#[test]
fn bounds_every_used_type_parameter() {
    // struct Field<T> { name: &'static str, value: T }
    let input = StructParser {
        attrs: vec![],
        name: "Field".to_string(),
        params: vec![GenericParam::Type("T".to_string())],
        where_predicates: vec![],
        fields: vec![
            field("name", ty(&["str"], vec![]), vec![], vec![visited(&["str"], 0)]),
            field("value", ty(&["T"], vec![]), vec![format_attr("{:?}")], vec![visited(&["T"], 1)]),
        ],
    };
    let ctx = BuilderContext::new(input);
    let imp = ctx.generate().unwrap();
    assert_eq!(imp.struct_name, "Field");
    assert_eq!(imp.fields.len(), 2);
    assert_eq!(imp.fields[1].format, Some("{:?}".to_string()));
    assert_eq!(imp.bounds.debug_params, vec![0]);
    assert!(imp.bounds.where_bounds.is_empty());
    assert!(imp.bounds.debug_paths.is_empty());
}

#[test]
fn skips_parameter_only_in_phantom_data() {
    // struct Field<T> { marker: PhantomData<T>, string: S }
    let input = StructParser {
        attrs: vec![],
        name: "Field".to_string(),
        params: vec![GenericParam::Type("T".to_string()), GenericParam::Type("S".to_string())],
        where_predicates: vec![],
        fields: vec![
            field(
                "marker",
                ty(&["PhantomData"], vec![ty(&["T"], vec![])]),
                vec![],
                vec![visited(&["PhantomData"], 0), visited(&["T"], 1)],
            ),
            field("string", ty(&["S"], vec![]), vec![], vec![visited(&["S"], 2)]),
        ],
    };
    let imp = BuilderContext::new(input).generate().unwrap();
    assert_eq!(imp.bounds.debug_params, vec![1]);
}

#[test]
fn bounds_associated_types_in_where_clause() {
    // struct Field<T: Trait> { values: Vec<T::Value> }
    let input = StructParser {
        attrs: vec![],
        name: "Field".to_string(),
        params: vec![GenericParam::Lifetime, GenericParam::Type("T".to_string())],
        where_predicates: vec![],
        fields: vec![field(
            "values",
            ty(&["Vec"], vec![ty(&["T", "Value"], vec![])]),
            vec![],
            vec![visited(&["Vec"], 0), visited(&["T", "Value"], 1)],
        )],
    };
    let imp = BuilderContext::new(input).generate().unwrap();
    assert!(imp.bounds.debug_params.is_empty());
    assert_eq!(imp.bounds.debug_paths, vec![1]);
}

#[test]
fn struct_bound_replaces_inference() {
    let input = StructParser {
        attrs: vec![bound_attr("T::Value: Debug")],
        name: "Wrapper".to_string(),
        params: vec![GenericParam::Type("T".to_string())],
        where_predicates: vec![],
        fields: vec![field("field", ty(&["Field"], vec![ty(&["T"], vec![])]), vec![], vec![])],
    };
    let imp = BuilderContext::new(input).generate().unwrap();
    assert_eq!(imp.bounds.where_bounds, vec!["T::Value: Debug".to_string()]);
    assert!(imp.bounds.debug_params.is_empty());
}

#[test]
fn field_bounds_are_deduplicated() {
    let input = StructParser {
        attrs: vec![],
        name: "Pair".to_string(),
        params: vec![GenericParam::Type("T".to_string())],
        where_predicates: vec![],
        fields: vec![
            field("a", ty(&["T"], vec![]), vec![bound_attr("T: Debug")], vec![]),
            field("b", ty(&["T"], vec![]), vec![bound_attr("T: Debug")], vec![]),
        ],
    };
    let imp = BuilderContext::new(input).generate().unwrap();
    assert_eq!(imp.bounds.where_bounds, vec!["T: Debug".to_string()]);
    assert!(imp.bounds.debug_params.is_empty());
}

#[test]
fn every_type_parameter_is_bounded() {
    let params = vec![GenericParam::Lifetime, GenericParam::Type("T".to_string()), GenericParam::Const, GenericParam::Type("U".to_string())];
    assert_eq!(add_trait_bounds(&params), vec![1, 3]);
    assert_eq!(add_trait_bounds(&vec![]), Vec::<usize>::new());
}

#[test]
fn plain_struct_bounds_match_every_parameter_rule() {
    // struct Pair<'a, T, U> { left: T, right: U }
    let params = vec![GenericParam::Lifetime, GenericParam::Type("T".to_string()), GenericParam::Type("U".to_string())];
    let input = StructParser {
        attrs: vec![],
        name: "Pair".to_string(),
        params: vec![GenericParam::Lifetime, GenericParam::Type("T".to_string()), GenericParam::Type("U".to_string())],
        where_predicates: vec![],
        fields: vec![
            field("left", ty(&["T"], vec![]), vec![], vec![visited(&["T"], 0)]),
            field("right", ty(&["U"], vec![]), vec![], vec![visited(&["U"], 1)]),
        ],
    };
    let plan = BuilderContext::new(input).generate().unwrap().bounds;
    assert!(plan.where_bounds.is_empty());
    assert!(plan.debug_paths.is_empty());
    assert_eq!(plan.debug_params, add_trait_bounds(&params));
}

#[test]
fn parameter_used_beside_phantom_data_is_bounded() {
    // struct Field<T> { marker: PhantomData<T>, values: Vec<T> }
    let input = StructParser {
        attrs: vec![],
        name: "Field".to_string(),
        params: vec![GenericParam::Type("T".to_string())],
        where_predicates: vec![],
        fields: vec![
            field(
                "marker",
                ty(&["PhantomData"], vec![ty(&["T"], vec![])]),
                vec![],
                vec![visited(&["PhantomData"], 0), visited(&["T"], 1)],
            ),
            field(
                "values",
                ty(&["Vec"], vec![ty(&["T"], vec![])]),
                vec![],
                vec![visited(&["Vec"], 2), visited(&["T"], 3)],
            ),
        ],
    };
    let plan = BuilderContext::new(input).generate().unwrap().bounds;
    assert_eq!(plan.debug_params, vec![0]);
}

#[test]
fn qualified_phantom_data_marks_its_parameter() {
    let t = ty(&["std", "marker", "PhantomData"], vec![ty(&["T"], vec![])]);
    assert_eq!(get_phantom_type(&t), Some("T".to_string()));
    assert_eq!(get_phantom_type(&ty(&["Vec"], vec![ty(&["T"], vec![])])), None);
}

#[test]
fn unparsable_bound_is_an_error() {
    let input = StructParser {
        attrs: vec![bound_attr("T::Value Debug")],
        name: "Wrapper".to_string(),
        params: vec![GenericParam::Type("T".to_string())],
        where_predicates: vec![],
        fields: vec![],
    };
    match BuilderContext::new(input).generate() {
        Ok(_) => panic!("expected an error"),
        Err(e) => assert_eq!(e.bound, "T::Value Debug"),
    }
    let fields = StructParser {
        attrs: vec![],
        name: "Pair".to_string(),
        params: vec![GenericParam::Type("T".to_string())],
        where_predicates: vec![],
        fields: vec![
            field("a", ty(&["T"], vec![]), vec![bound_attr("T: Debug")], vec![]),
            field("b", ty(&["T"], vec![]), vec![bound_attr("where")], vec![]),
        ],
    };
    match BuilderContext::new(fields).add_trait_bounds_2() {
        Ok(_) => panic!("expected an error"),
        Err(e) => assert_eq!(e.bound, "where"),
    }
}

#[test]
fn where_clause_is_kept_before_given_bounds() {
    // #[debug(bound = "T::Value: Debug")] struct Wrapper<T> where T: Clone { .. }
    let input = StructParser {
        attrs: vec![bound_attr("T::Value: Debug")],
        name: "Wrapper".to_string(),
        params: vec![GenericParam::Type("T".to_string())],
        where_predicates: vec!["T: Clone".to_string()],
        fields: vec![],
    };
    let imp = BuilderContext::new(input).generate().unwrap();
    assert_eq!(imp.where_predicates, vec!["T: Clone".to_string(), "T::Value: Debug".to_string()]);
}

#[test]
fn c_string_in_bound_is_refused() {
    let input = StructParser {
        attrs: vec![],
        name: "Pair".to_string(),
        params: vec![GenericParam::Type("T".to_string())],
        where_predicates: vec![],
        fields: vec![field("a", ty(&["T"], vec![]), vec![bound_attr("[u8; c\"x\"]: Copy")], vec![])],
    };
    match BuilderContext::new(input).generate() {
        Ok(_) => panic!("expected an error"),
        Err(e) => assert_eq!(e.bound, "[u8; c\"x\"]: Copy"),
    }
}
