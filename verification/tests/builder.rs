use macro_workshop::builder::{attribute_pairs, AttrError, BuilderContext, Data, DeriveInput, Field, MethodKind, Opts};
use macro_workshop::tokens::{Delimiter, Spacing, TokenTree};
use macro_workshop::util::{AttrPath, GenericArgument, PathSegment, PathArguments, Type, TypeKind, TypePath, TypeSegment};

fn builder_path() -> AttrPath {
    AttrPath {
        leading_colon: false,
        segments: vec![PathSegment { ident: "builder".to_string(), has_arguments: false }],
    }
}

fn simple(name: &str) -> Type {
    Type {
        text: name.to_string(),
        kind: TypeKind::Path(TypePath {
            qself: false,
            segments: vec![TypeSegment { ident: name.to_string(), arguments: PathArguments::NoArguments }],
        }),
    }
}

fn wrapped(outer: &str, inner: Type) -> Type {
    Type {
        text: format!("{}<{}>", outer, inner.text),
        kind: TypeKind::Path(TypePath {
            qself: false,
            segments: vec![TypeSegment {
                ident: outer.to_string(),
                arguments: PathArguments::AngleBracketed(vec![GenericArgument::Type(inner)]),
            }],
        }),
    }
}

fn field(name: &str, ty: Type, each: Option<&str>) -> Field {
    Field { name: name.to_string(), ty, attr: Opts { each: each.map(|s| s.to_string()), default: None } }
}

#[test]
fn plans_command_builder() {
    let input = DeriveInput {
        name: "Command".to_string(),
        data: Data::Struct(vec![
            field("executable", simple("String"), None),
            field("args", wrapped("Vec", simple("String")), Some("arg")),
            field("env", wrapped("Vec", simple("String")), Some("env")),
            field("current_dir", wrapped("Option", simple("String")), None),
        ]),
    };
    let ctx = BuilderContext::new(input);
    let b = ctx.generate();
    assert_eq!(b.builder_name, "CommandBuilder");
    assert_eq!(b.slots.len(), 4);
    assert_eq!(b.slots[3].ty, "Option<String>");
    assert_eq!(b.methods[0].name, "executable");
    assert_eq!(b.methods[0].kind, MethodKind::Assign);
    assert_eq!(b.methods[1].name, "arg");
    assert_eq!(b.methods[1].kind, MethodKind::Push);
    assert_eq!(b.methods[1].arg_type, "String");
    assert_eq!(b.methods[2].name, "env");
    assert_eq!(b.methods[3].arg_type, "Option<String>");
    assert_eq!(b.assigns, vec!["executable", "args", "env", "current_dir"]);
}

#[test]
fn each_on_non_vector_gives_a_setter() {
    let input = DeriveInput {
        name: "S".to_string(),
        data: Data::Struct(vec![field("x", simple("u8"), Some("one"))]),
    };
    let b = BuilderContext::new(input).generate();
    assert_eq!(b.methods[0].name, "x");
    assert_eq!(b.methods[0].kind, MethodKind::Assign);
    assert_eq!(b.methods[0].arg_type, "u8");
}

#[test]
fn reads_attribute_pairs() {
    // (each = "arg", default = "vec![]")
    let g = TokenTree::Group(
        Delimiter::Parenthesis,
        vec![
            TokenTree::Ident("each".to_string(), 0),
            TokenTree::Punct('=', Spacing::Alone),
            TokenTree::Literal("\"arg\"".to_string()),
            TokenTree::Punct(',', Spacing::Alone),
            TokenTree::Ident("default".to_string(), 1),
            TokenTree::Punct('=', Spacing::Alone),
            TokenTree::Literal("\"vec![]\"".to_string()),
        ],
    );
    let maps = match attribute_pairs(&builder_path(), &vec![g]) {
        Ok(maps) => maps,
        Err(_) => panic!("expected pairs"),
    };
    assert_eq!(maps.len(), 1);
    assert_eq!(maps[0].len(), 2);
    assert_eq!(maps[0][0].key, "each");
    assert_eq!(maps[0][0].value, "\"arg\"");
    assert_eq!(maps[0][1].key, "default");
}

#[test]
fn attribute_pairs_stop_at_non_group() {
    let tokens = vec![
        TokenTree::Group(Delimiter::Parenthesis, vec![]),
        TokenTree::Punct('=', Spacing::Alone),
        TokenTree::Literal("\"x\"".to_string()),
    ];
    match attribute_pairs(&builder_path(), &tokens) {
        Err(AttrError::NotSupported(read)) => {
            assert_eq!(read.len(), 1);
            assert!(read[0].is_empty());
        }
        _ => panic!("expected the non-group token to be refused"),
    }
}

#[test]
fn attribute_pairs_need_a_single_identifier_path() {
    let path = AttrPath {
        leading_colon: false,
        segments: vec![
            PathSegment { ident: "serde".to_string(), has_arguments: false },
            PathSegment { ident: "rename".to_string(), has_arguments: false },
        ],
    };
    assert!(matches!(attribute_pairs(&path, &vec![]), Err(AttrError::PathNotIdent)));
}
