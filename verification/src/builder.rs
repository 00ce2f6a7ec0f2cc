//! Planning of a builder for a struct: one optional slot per field, one setter
//! per field (or a pushing method for a `Vec` field with `each`), and a
//! `build` that moves the slots into the struct.

use crate::sorted::texts;
use crate::text::concat;
use crate::tokens::{Token, TokenTree, lemma_trees_value, trees_value};
use crate::util::{AttrPath, Type, get_vec_type, inner_type};
use vstd::prelude::*;

verus! {

/// The options of `#[builder(each = "...", default = "...")]` on a field.
pub struct Opts {
    /// Name of the method that pushes one element.
    pub each: Option<String>,
    /// Default value expression.
    pub default: Option<String>,
}

/// A named field with its builder options.
pub struct Field {
    /// The field name.
    pub name: String,
    /// The field type.
    pub ty: Type,
    /// The builder options.
    pub attr: Opts,
}

/// The data of a derive input.
pub enum Data {
    /// A struct with named fields.
    Struct(Vec<Field>),
    /// Anything else.
    Other,
}

/// A derive input: the type name and its data.
pub struct DeriveInput {
    /// The type name.
    pub name: String,
    /// Its data.
    pub data: Data,
}

/// What a builder method does.
#[derive(Debug, Clone, Copy, PartialEq, Eq, Structural)]
pub enum MethodKind {
    /// Stores its argument in the field's slot.
    Assign,
    /// Pushes its argument onto the vector in the field's slot.
    Push,
}

/// A method of the builder.
pub struct Method {
    /// The method name.
    pub name: String,
    /// Index of the field it fills.
    pub field: usize,
    /// What it does.
    pub kind: MethodKind,
    /// The type of its argument, as written.
    pub arg_type: String,
}

/// A slot of the builder: a field name and the type it holds an `Option` of.
pub struct Slot {
    /// The field name.
    pub name: String,
    /// The field type, as written.
    pub ty: String,
}

/// The builder of a struct.
pub struct BuilderImpl {
    /// The builder's type name: the struct name followed by `Builder`.
    pub builder_name: String,
    /// The slots, one per field.
    pub slots: Vec<Slot>,
    /// The methods, one per field.
    pub methods: Vec<Method>,
    /// The fields `build` fills, in order.
    pub assigns: Vec<String>,
}

/// The struct a builder is generated for.
pub struct BuilderContext {
    /// The struct name.
    pub name: String,
    /// Its fields.
    pub fields: Vec<Field>,
}

/// The method generated for a field: a pushing method named by `each` when
/// the field is a `Vec`, otherwise a setter named like the field.
pub open spec fn method_for(f: Field, i: int, m: Method) -> bool {
    &&& m.field == i
    &&& match f.attr.each {
        Some(e) if inner_type(f.ty, "Vec"@) is Some => m.name@ == e@ && m.kind == MethodKind::Push
            && m.arg_type@ == inner_type(f.ty, "Vec"@).unwrap().text@,
        _ => m.name@ == f.name@ && m.kind == MethodKind::Assign && m.arg_type@ == f.ty.text@,
    }
}

/// For a `Vec<T>` field with `each = "e"`, the method made for it is named
/// `e`, pushes one element and takes a `T`, whatever `e` is (the field's own
/// name included); any other field gets a setter named like the field that
/// takes the field's type.
pub proof fn law_each_method_pushes(f: Field, i: int, m: Method)
    requires
        method_for(f, i, m),
    ensures
        m.field == i,
        f.attr.each is Some && inner_type(f.ty, "Vec"@) is Some ==> m.name@ == f.attr.each->0@
            && m.kind == MethodKind::Push && m.arg_type@ == inner_type(f.ty, "Vec"@)->0.text@,
        (f.attr.each is None || inner_type(f.ty, "Vec"@) is None) ==> (m.name@ == f.name@ && m.kind
            == MethodKind::Assign && m.arg_type@ == f.ty.text@),
{
}

impl BuilderContext {
    /// Prepares the struct of a derive input.
    pub fn new(input: DeriveInput) -> (r: Self)
        requires
            input.data is Struct,
        ensures
            r.name == input.name,
            input.data matches Data::Struct(fields) && r.fields == fields,
    {
        let DeriveInput { name, data } = input;
        match data {
            Data::Struct(fields) => BuilderContext { name, fields },
            Data::Other => BuilderContext { name, fields: Vec::new() },
        }
    }

    /// The slots: every field, held as an `Option`.
    fn gen_fields(&self) -> (r: Vec<Slot>)
        ensures
            r@.len() == self.fields@.len(),
            forall|i: int|
                0 <= i < r@.len() ==> #[trigger] r@[i].name@ == self.fields@[i].name@ && r@[i].ty@
                    == self.fields@[i].ty.text@,
    {
        let mut r: Vec<Slot> = Vec::new();
        let mut i: usize = 0;
        while i < self.fields.len()
            invariant
                i <= self.fields.len(),
                r@.len() == i,
                forall|j: int|
                    0 <= j < i ==> #[trigger] r@[j].name@ == self.fields@[j].name@ && r@[j].ty@
                        == self.fields@[j].ty.text@,
            decreases self.fields.len() - i,
        {
            let f = &self.fields[i];
            r.push(Slot { name: f.name.clone(), ty: f.ty.text.clone() });
            i = i + 1;
        }
        r
    }

    /// The methods: one per field.
    fn gen_methods(&self) -> (r: Vec<Method>)
        ensures
            r@.len() == self.fields@.len(),
            forall|i: int| 0 <= i < r@.len() ==> method_for(self.fields@[i], i, #[trigger] r@[i]),
    {
        let mut r: Vec<Method> = Vec::new();
        let mut i: usize = 0;
        while i < self.fields.len()
            invariant
                i <= self.fields.len(),
                r@.len() == i,
                forall|j: int| 0 <= j < i ==> method_for(self.fields@[j], j, #[trigger] r@[j]),
            decreases self.fields.len() - i,
        {
            let f = &self.fields[i];
            let mut pushed = false;
            if let Some(each) = &f.attr.each {
                let (isvec, ty) = get_vec_type(&f.ty);
                if isvec {
                    r.push(
                        Method {
                            name: each.clone(),
                            field: i,
                            kind: MethodKind::Push,
                            arg_type: ty.text.clone(),
                        },
                    );
                    pushed = true;
                }
            }
            if !pushed {
                r.push(
                    Method {
                        name: f.name.clone(),
                        field: i,
                        kind: MethodKind::Assign,
                        arg_type: f.ty.text.clone(),
                    },
                );
            }
            proof {
                assert(method_for(self.fields@[i as int], i as int, r@[i as int]));
            }
            i = i + 1;
        }
        r
    }

    /// The fields `build` fills, in order.
    fn gen_assigns(&self) -> (r: Vec<String>)
        ensures
            r@.len() == self.fields@.len(),
            forall|i: int| 0 <= i < r@.len() ==> #[trigger] r@[i]@ == self.fields@[i].name@,
    {
        let mut r: Vec<String> = Vec::new();
        let mut i: usize = 0;
        while i < self.fields.len()
            invariant
                i <= self.fields.len(),
                r@.len() == i,
                forall|j: int| 0 <= j < i ==> #[trigger] r@[j]@ == self.fields@[j].name@,
            decreases self.fields.len() - i,
        {
            r.push(self.fields[i].name.clone());
            i = i + 1;
        }
        r
    }

    /// The builder of the struct.
    pub fn generate(&self) -> (r: BuilderImpl)
        ensures
            r.builder_name@ == self.name@ + "Builder"@,
            r.slots@.len() == self.fields@.len(),
            forall|i: int|
                0 <= i < r.slots@.len() ==> #[trigger] r.slots@[i].name@ == self.fields@[i].name@
                    && r.slots@[i].ty@ == self.fields@[i].ty.text@,
            r.methods@.len() == self.fields@.len(),
            forall|i: int|
                0 <= i < r.methods@.len() ==> method_for(self.fields@[i], i, #[trigger] r.methods@[i]),
            r.assigns@.len() == self.fields@.len(),
            forall|i: int| 0 <= i < r.assigns@.len() ==> #[trigger] r.assigns@[i]@ == self.fields@[i].name@,
    {
        let builder_name = concat(self.name.as_str(), "Builder");
        let slots = self.gen_fields();
        let methods = self.gen_methods();
        let assigns = self.gen_assigns();
        BuilderImpl { builder_name, slots, methods, assigns }
    }
}

/// The identifier and literal texts of a token sequence, in order.
pub open spec fn idents_of(ts: Seq<Token>) -> Seq<Seq<char>>
    decreases ts.len(),
{
    if ts.len() == 0 {
        seq![]
    } else {
        match ts.last() {
            Token::Ident(s, _) => idents_of(ts.drop_last()).push(s),
            _ => idents_of(ts.drop_last()),
        }
    }
}

/// The literal texts of a token sequence, in order.
pub open spec fn literals_of(ts: Seq<Token>) -> Seq<Seq<char>>
    decreases ts.len(),
{
    if ts.len() == 0 {
        seq![]
    } else {
        match ts.last() {
            Token::Literal(s) => literals_of(ts.drop_last()).push(s),
            _ => literals_of(ts.drop_last()),
        }
    }
}

/// The pairs of an attribute group such as `(each = "arg")`: its
/// identifiers matched in order with its literals, as many as the shorter
/// list has.
pub open spec fn zipped(a: Seq<Seq<char>>, b: Seq<Seq<char>>) -> Seq<(Seq<char>, Seq<char>)> {
    Seq::new(
        if a.len() <= b.len() {
            a.len()
        } else {
            b.len()
        },
        |i: int| (a[i], b[i]),
    )
}

/// A key and a value read from an attribute.
pub struct AttrPair {
    /// The identifier.
    pub key: String,
    /// The literal, as written.
    pub value: String,
}

/// `read` holds the pairs of the leading groups of `ts`, and `stopped` tells
/// whether a token that is not a group follows them.
pub open spec fn groups_read(ts: Seq<Token>, read: Seq<Vec<AttrPair>>, stopped: bool) -> bool {
    let n = read.len();
    &&& n <= ts.len()
    &&& forall|i: int| 0 <= i < n ==> ts[i] is Group
    &&& stopped == (n < ts.len())
    &&& forall|i: int|
        0 <= i < n ==> #[trigger] pairs_value(read[i]@) == match ts[i] {
            Token::Group(_, inner) => zipped(idents_of(inner), literals_of(inner)),
            _ => seq![],
        }
}

/// Why the pairs of an attribute cannot be read.
pub enum AttrError {
    /// The attribute's path is not a single identifier.
    PathNotIdent,
    /// A token that is not a group follows the leading groups; holds the
    /// pairs of the groups before it.
    NotSupported(Vec<Vec<AttrPair>>),
}

/// Whether a path is a single identifier with no leading `::` and no
/// arguments.
pub open spec fn path_is_single(p: AttrPath) -> bool {
    !p.leading_colon && p.segments@.len() == 1 && !p.segments@[0].has_arguments
}

/// The pairs of an attribute `#[path ...]`: for each group of its tokens, the
/// identifiers matched in order with the literals. An error when the path is
/// not a single identifier, or when a token that is not a group is met.
pub fn attribute_pairs(path: &AttrPath, tokens: &Vec<TokenTree>) -> (r: Result<
    Vec<Vec<AttrPair>>,
    AttrError,
>)
    ensures
        !path_is_single(*path) ==> r matches Err(AttrError::PathNotIdent),
        path_is_single(*path) ==> match r {
            Ok(groups) => groups_read(trees_value(tokens@), groups@, false),
            Err(AttrError::NotSupported(read)) => groups_read(trees_value(tokens@), read@, true),
            Err(AttrError::PathNotIdent) => false,
        },
{
    if path.leading_colon || path.segments.len() != 1 || path.segments[0].has_arguments {
        return Err(AttrError::PathNotIdent);
    }
    let (groups, stopped) = leading_group_pairs(tokens);
    if stopped {
        Err(AttrError::NotSupported(groups))
    } else {
        Ok(groups)
    }
}

/// The pairs of an attribute's tokens: for each leading group, its
/// identifiers matched in order with its literals. The flag tells whether a
/// token that is not a group was met, which ends the reading.
fn leading_group_pairs(tokens: &Vec<TokenTree>) -> (r: (Vec<Vec<AttrPair>>, bool))
    ensures
        groups_read(trees_value(tokens@), r.0@, r.1),
{
    proof {
        lemma_trees_value(tokens@);
    }
    let mut maps: Vec<Vec<AttrPair>> = Vec::new();
    let mut i: usize = 0;
    while i < tokens.len()
        invariant
            i <= tokens.len(),
            maps@.len() == i,
            trees_value(tokens@).len() == tokens@.len(),
            forall|j: int| 0 <= j < tokens@.len() ==> #[trigger] trees_value(tokens@)[j] == tokens@[j]@,
            forall|j: int| 0 <= j < i ==> trees_value(tokens@)[j] is Group,
            forall|j: int|
                0 <= j < i ==> #[trigger] pairs_value(maps@[j]@) == match trees_value(tokens@)[j] {
                    Token::Group(_, inner) => zipped(idents_of(inner), literals_of(inner)),
                    _ => seq![],
                },
        decreases tokens.len() - i,
    {
        match &tokens[i] {
            TokenTree::Group(_, inner) => {
                let pairs = group_pairs(inner);
                maps.push(pairs);
                proof {
                    assert(trees_value(tokens@)[i as int] == tokens@[i as int]@);
                }
            },
            _ => {
                return (maps, true);
            },
        }
        i = i + 1;
    }
    (maps, false)
}

/// The value of a list of pairs.
pub open spec fn pairs_value(v: Seq<AttrPair>) -> Seq<(Seq<char>, Seq<char>)> {
    Seq::new(v.len(), |i: int| (v[i].key@, v[i].value@))
}

/// The identifiers of a group matched in order with its literals.
fn group_pairs(inner: &Vec<TokenTree>) -> (r: Vec<AttrPair>)
    ensures
        pairs_value(r@) == zipped(idents_of(trees_value(inner@)), literals_of(trees_value(inner@))),
{
    let ghost ts = trees_value(inner@);
    proof {
        lemma_trees_value(inner@);
    }
    let mut idents: Vec<String> = Vec::new();
    let mut literals: Vec<String> = Vec::new();
    let mut i: usize = 0;
    while i < inner.len()
        invariant
            i <= inner.len(),
            ts == trees_value(inner@),
            ts.len() == inner@.len(),
            forall|j: int| 0 <= j < inner@.len() ==> #[trigger] ts[j] == inner@[j]@,
            texts(idents@) == idents_of(ts.subrange(0, i as int)),
            texts(literals@) == literals_of(ts.subrange(0, i as int)),
        decreases inner.len() - i,
    {
        proof {
            assert(ts.subrange(0, i + 1).drop_last() =~= ts.subrange(0, i as int));
            assert(ts.subrange(0, i + 1).last() == inner@[i as int]@);
        }
        match &inner[i] {
            TokenTree::Ident(s, _) => {
                let ghost before = idents@;
                idents.push(s.clone());
                proof {
                    assert(texts(idents@) =~= texts(before).push(s@));
                }
            },
            TokenTree::Literal(s) => {
                let ghost before = literals@;
                literals.push(s.clone());
                proof {
                    assert(texts(literals@) =~= texts(before).push(s@));
                }
            },
            _ => {},
        }
        i = i + 1;
    }
    proof {
        assert(ts.subrange(0, inner.len() as int) =~= ts);
    }
    let mut r: Vec<AttrPair> = Vec::new();
    let mut k: usize = 0;
    let n = if idents.len() <= literals.len() {
        idents.len()
    } else {
        literals.len()
    };
    while k < n
        invariant
            k <= n,
            n <= idents.len(),
            n <= literals.len(),
            n == if idents.len() <= literals.len() { idents.len() } else { literals.len() },
            r@.len() == k,
            forall|j: int|
                0 <= j < k ==> #[trigger] r@[j].key@ == idents@[j]@ && r@[j].value@ == literals@[j]@,
        decreases n - k,
    {
        r.push(AttrPair { key: idents[k].clone(), value: literals[k].clone() });
        k = k + 1;
    }
    proof {
        assert(pairs_value(r@) =~= zipped(texts(idents@), texts(literals@)));
    }
    r
}

} // verus!
