//! Planning of a `Debug` implementation for a struct: how each field is
//! printed, and which bounds the implementation needs.

use crate::sorted::texts;
use crate::text::{has_c_string_mark, holds_c_string_mark, same_text};
use crate::util::{
    Attribute, GenericArgument, PathArguments, Type, TypeKind, first_named_str, get_attribute_by_key,
    get_attribute_value, keyed_value,
};
use vstd::prelude::*;

verus! {

/// A type path met inside a field's type, by the identifiers of its segments.
/// `id` lets the caller find the path it stands for.
pub struct VisitedPath {
    /// The segment identifiers.
    pub segments: Vec<String>,
    /// The caller's tag for the path.
    pub id: usize,
}

/// A named field of the struct.
pub struct Field {
    /// The field name.
    pub name: String,
    /// The field type.
    pub ty: Type,
    /// The field's attributes.
    pub attrs: Vec<Attribute>,
    /// The type paths inside the field type, in the order a visit meets them.
    pub type_paths: Vec<VisitedPath>,
}

/// A field as the `Debug` implementation sees it.
pub struct DebugField {
    /// The field name.
    pub name: String,
    /// The field type.
    pub ty: Type,
    /// The format given by `#[debug = "..."]`, if any.
    pub format: Option<String>,
    /// The bound given by `#[debug(bound = "...")]`, if any.
    pub bound: Option<String>,
    /// The type paths inside the field type, in the order a visit meets them.
    pub type_paths: Vec<VisitedPath>,
}

/// A generic parameter of the struct.
pub enum GenericParam {
    /// A type parameter, by its name.
    Type(String),
    /// A lifetime parameter.
    Lifetime,
    /// A const parameter.
    Const,
}

/// The struct a `Debug` implementation is derived for.
pub struct StructParser {
    /// The struct's attributes.
    pub attrs: Vec<Attribute>,
    /// The struct name.
    pub name: String,
    /// The generic parameters.
    pub params: Vec<GenericParam>,
    /// The predicates of the struct's where clause, as written.
    pub where_predicates: Vec<String>,
    /// The named fields.
    pub fields: Vec<Field>,
}

/// The string of the field's first attribute `#[name = "..."]`, such as the
/// format of `#[debug = "0b{:08b}"]`.
pub fn get_attribute_of_field(field: &Field, name: &str) -> (r: Option<String>)
    ensures
        r matches Some(s) ==> first_named_str(field.attrs@, name@) == Some(s@),
        r is None ==> first_named_str(field.attrs@, name@) is None,
{
    get_attribute_value(&field.attrs, name)
}

/// The first segment identifier of a path type.
pub open spec fn path_head(ty: Type) -> Option<Seq<char>> {
    match ty.kind {
        TypeKind::Path(p) => if p.segments@.len() > 0 {
            Some(p.segments@[0].ident@)
        } else {
            None
        },
        TypeKind::Other => None,
    }
}

/// The last segment identifier of a path type.
pub open spec fn path_last(ty: Type) -> Option<Seq<char>> {
    match ty.kind {
        TypeKind::Path(p) => if p.segments@.len() > 0 {
            Some(p.segments@.last().ident@)
        } else {
            None
        },
        TypeKind::Other => None,
    }
}

/// The head identifier of the last type argument that is a path type.
pub open spec fn last_argument_head(args: Seq<GenericArgument>) -> Option<Seq<char>>
    decreases args.len(),
{
    if args.len() == 0 {
        None
    } else {
        match args.last() {
            GenericArgument::Type(t) => if path_head(t) is Some {
                path_head(t)
            } else {
                last_argument_head(args.drop_last())
            },
            GenericArgument::Other => last_argument_head(args.drop_last()),
        }
    }
}

/// For a field of type `PhantomData<..., T>` (the path may be qualified, as
/// in `std::marker::PhantomData<T>`), the head identifier of the last type
/// argument that is a path.
pub open spec fn phantom_param(ty: Type) -> Option<Seq<char>> {
    match ty.kind {
        TypeKind::Path(p) => if p.segments@.len() > 0 && p.segments@.last().ident@ == "PhantomData"@ {
            match p.segments@.last().arguments {
                PathArguments::AngleBracketed(args) => last_argument_head(args@),
                _ => None,
            }
        } else {
            None
        },
        TypeKind::Other => None,
    }
}

/// The head identifier of a path type.
fn get_type_ident(ty: &Type) -> (r: Option<String>)
    ensures
        r matches Some(s) ==> path_head(*ty) == Some(s@),
        r is None ==> path_head(*ty) is None,
{
    if let TypeKind::Path(p) = &ty.kind {
        if p.segments.len() > 0 {
            return Some(p.segments[0].ident.clone());
        }
    }
    None
}

/// The type parameter a `PhantomData` field marks, if the field is one.
pub fn get_phantom_type(ty: &Type) -> (r: Option<String>)
    ensures
        r matches Some(s) ==> phantom_param(*ty) == Some(s@),
        r is None ==> phantom_param(*ty) is None,
{
    if let TypeKind::Path(p) = &ty.kind {
        if p.segments.len() > 0 {
            proof {
                reveal_strlit("PhantomData");
            }
            let last = &p.segments[p.segments.len() - 1];
            if same_text(last.ident.as_str(), "PhantomData") {
                if let PathArguments::AngleBracketed(args) = &last.arguments {
                    let mut result: Option<String> = None;
                    let mut i: usize = 0;
                    while i < args.len()
                        invariant
                            i <= args.len(),
                            result matches Some(s) ==> last_argument_head(args@.subrange(0, i as int))
                                == Some(s@),
                            result is None ==> last_argument_head(args@.subrange(0, i as int)) is None,
                        decreases args.len() - i,
                    {
                        proof {
                            assert(args@.subrange(0, i + 1).drop_last() =~= args@.subrange(0, i as int));
                        }
                        if let GenericArgument::Type(t) = &args[i] {
                            if let Some(name) = get_type_ident(t) {
                                result = Some(name);
                            }
                        }
                        i = i + 1;
                    }
                    proof {
                        assert(args@.subrange(0, args.len() as int) =~= args@);
                    }
                    return result;
                }
            }
        }
    }
    None
}

/// The name of a field's type: the last segment of a path type.
pub fn get_field_type_name(ty: &Type) -> (r: Option<String>)
    ensures
        r matches Some(s) ==> path_last(*ty) == Some(s@),
        r is None ==> path_last(*ty) is None,
{
    if let TypeKind::Path(p) = &ty.kind {
        if p.segments.len() > 0 {
            return Some(p.segments[p.segments.len() - 1].ident.clone());
        }
    }
    None
}

/// Whether `s` holds `x`.
pub fn contains_text(v: &Vec<String>, x: &str) -> (r: bool)
    ensures
        r == texts(v@).contains(x@),
{
    let mut i: usize = 0;
    while i < v.len()
        invariant
            i <= v.len(),
            forall|j: int| 0 <= j < i ==> texts(v@)[j] != x@,
        decreases v.len() - i,
    {
        if same_text(v[i].as_str(), x) {
            proof {
                assert(texts(v@)[i as int] == x@);
            }
            return true;
        }
        i = i + 1;
    }
    false
}

/// The type paths that mention a generic parameter, grouped by that
/// parameter, in the order they were first met.
pub struct AssocGroup {
    /// The generic parameter.
    pub name: String,
    /// The tags of the paths, in the order met.
    pub ids: Vec<usize>,
}

/// The value of a list of groups.
pub open spec fn groups_value(v: Seq<AssocGroup>) -> Seq<(Seq<char>, Seq<usize>)> {
    Seq::new(v.len(), |i: int| (v[i].name@, v[i].ids@))
}

/// Whether a path such as `T::Value` starts with a generic parameter and has
/// at least two segments.
pub open spec fn is_associated(segs: Seq<Seq<char>>, names: Seq<Seq<char>>) -> bool {
    segs.len() >= 2 && names.contains(segs[0])
}

/// Index of the first group for `key`, if any.
pub open spec fn is_first_group(groups: Seq<(Seq<char>, Seq<usize>)>, key: Seq<char>, i: int) -> bool {
    0 <= i < groups.len() && groups[i].0 == key && forall|j: int| 0 <= j < i ==> #[trigger] groups[j].0
        != key
}

/// `groups` after recording path `id` under `key`: appended to the group of
/// `key`, or in a new last group.
pub open spec fn recorded(groups: Seq<(Seq<char>, Seq<usize>)>, key: Seq<char>, id: usize) -> Seq<
    (Seq<char>, Seq<usize>),
> {
    if exists|i: int| is_first_group(groups, key, i) {
        let i = choose|i: int| is_first_group(groups, key, i);
        groups.update(i, (key, groups[i].1.push(id)))
    } else {
        groups.push((key, seq![id]))
    }
}

/// The paths of a field, by segments and tag.
pub open spec fn paths_of(f: DebugField) -> Seq<(Seq<Seq<char>>, usize)> {
    Seq::new(f.type_paths@.len(), |i: int| (texts(f.type_paths@[i].segments@), f.type_paths@[i].id))
}

/// The paths of all fields, in order.
pub open spec fn visits(fields: Seq<DebugField>) -> Seq<(Seq<Seq<char>>, usize)>
    decreases fields.len(),
{
    if fields.len() == 0 {
        seq![]
    } else {
        visits(fields.drop_last()) + paths_of(fields.last())
    }
}

/// The groups recorded from a sequence of visited paths.
pub open spec fn grouped(vs: Seq<(Seq<Seq<char>>, usize)>, names: Seq<Seq<char>>) -> Seq<
    (Seq<char>, Seq<usize>),
>
    decreases vs.len(),
{
    if vs.len() == 0 {
        seq![]
    } else if is_associated(vs.last().0, names) {
        recorded(grouped(vs.drop_last(), names), vs.last().0[0], vs.last().1)
    } else {
        grouped(vs.drop_last(), names)
    }
}

/// Records path `id` under `key`.
fn record_path(groups: &mut Vec<AssocGroup>, key: &String, id: usize)
    ensures
        groups_value(final(groups)@) == recorded(groups_value(old(groups)@), key@, id),
{
    let ghost g0 = groups_value(groups@);
    let mut i: usize = 0;
    while i < groups.len()
        invariant
            i <= groups.len(),
            g0 == groups_value(groups@),
            g0 == groups_value(old(groups)@),
            forall|j: int| 0 <= j < i ==> #[trigger] g0[j].0 != key@,
        decreases groups.len() - i,
    {
        if same_text(groups[i].name.as_str(), key.as_str()) {
            let mut ids = groups[i].ids.clone();
            ids.push(id);
            let name = groups[i].name.clone();
            let ghost new_ids = ids@;
            groups[i] = AssocGroup { name, ids };
            proof {
                assert(is_first_group(g0, key@, i as int));
                assert(new_ids =~= g0[i as int].1.push(id));
                assert(groups_value(groups@) =~= recorded(g0, key@, id));
            }
            return ;
        }
        i = i + 1;
    }
    let mut ids: Vec<usize> = Vec::new();
    ids.push(id);
    let name = key.clone();
    groups.push(AssocGroup { name, ids });
    proof {
        assert(groups_value(groups@) =~= g0.push((key@, seq![id])));
    }
}

/// Collects the type paths that mention generic parameters.
pub struct TypePathVisitor {
    /// The names of the generic type parameters.
    pub generic_type_names: Vec<String>,
    /// The paths found so far, grouped by parameter.
    pub associated_types: Vec<AssocGroup>,
}

impl TypePathVisitor {
    /// Records the path when it starts with a generic parameter and has at
    /// least two segments.
    pub fn visit_type_path(&mut self, path: &VisitedPath)
        ensures
            final(self).generic_type_names@ == old(self).generic_type_names@,
            groups_value(final(self).associated_types@) == if is_associated(
                texts(path.segments@),
                texts(old(self).generic_type_names@),
            ) {
                recorded(
                    groups_value(old(self).associated_types@),
                    texts(path.segments@)[0],
                    path.id,
                )
            } else {
                groups_value(old(self).associated_types@)
            },
    {
        if path.segments.len() >= 2 {
            let head = &path.segments[0];
            if contains_text(&self.generic_type_names, head.as_str()) {
                let mut groups: Vec<AssocGroup> = Vec::new();
                std::mem::swap(&mut groups, &mut self.associated_types);
                record_path(&mut groups, head, path.id);
                self.associated_types = groups;
            }
        }
    }
}

/// The names of the type parameters, in order.
pub open spec fn type_param_names(params: Seq<GenericParam>) -> Seq<Seq<char>>
    decreases params.len(),
{
    if params.len() == 0 {
        seq![]
    } else {
        match params.last() {
            GenericParam::Type(n) => type_param_names(params.drop_last()).push(n@),
            _ => type_param_names(params.drop_last()),
        }
    }
}

/// The names of the type parameters.
pub fn generic_type_names(params: &Vec<GenericParam>) -> (r: Vec<String>)
    ensures
        texts(r@) == type_param_names(params@),
{
    let mut r: Vec<String> = Vec::new();
    let mut i: usize = 0;
    while i < params.len()
        invariant
            i <= params.len(),
            texts(r@) == type_param_names(params@.subrange(0, i as int)),
        decreases params.len() - i,
    {
        proof {
            assert(params@.subrange(0, i + 1).drop_last() =~= params@.subrange(0, i as int));
        }
        if let GenericParam::Type(n) = &params[i] {
            let ghost before = r@;
            r.push(n.clone());
            proof {
                assert(texts(r@) =~= texts(before).push(n@));
            }
        }
        i = i + 1;
    }
    proof {
        assert(params@.subrange(0, params.len() as int) =~= params@);
    }
    r
}

/// The type paths of the fields that mention a type parameter, grouped by
/// parameter.
pub fn get_generic_associated_types(params: &Vec<GenericParam>, fields: &Vec<DebugField>) -> (r:
    Vec<AssocGroup>)
    ensures
        groups_value(r@) == grouped(visits(fields@), type_param_names(params@)),
{
    let names = generic_type_names(params);
    let ghost ns = texts(names@);
    let mut visitor = TypePathVisitor { generic_type_names: names, associated_types: Vec::new() };
    let mut fi: usize = 0;
    proof {
        assert(groups_value(visitor.associated_types@) =~= Seq::<(Seq<char>, Seq<usize>)>::empty());
        assert(fields@.subrange(0, 0) =~= Seq::<DebugField>::empty());
    }
    while fi < fields.len()
        invariant
            fi <= fields.len(),
            texts(visitor.generic_type_names@) == ns,
            ns == type_param_names(params@),
            groups_value(visitor.associated_types@) == grouped(
                visits(fields@.subrange(0, fi as int)),
                ns,
            ),
        decreases fields.len() - fi,
    {
        let f = &fields[fi];
        let mut pi: usize = 0;
        proof {
            assert(visits(fields@.subrange(0, fi as int)) + paths_of(*f).subrange(0, 0) =~= visits(
                fields@.subrange(0, fi as int),
            ));
        }
        while pi < f.type_paths.len()
            invariant
                fi < fields.len(),
                *f == fields@[fi as int],
                pi <= f.type_paths.len(),
                texts(visitor.generic_type_names@) == ns,
                groups_value(visitor.associated_types@) == grouped(
                    visits(fields@.subrange(0, fi as int)) + paths_of(*f).subrange(0, pi as int),
                    ns,
                ),
            decreases f.type_paths.len() - pi,
        {
            visitor.visit_type_path(&f.type_paths[pi]);
            proof {
                let pre = visits(fields@.subrange(0, fi as int));
                let cur = pre + paths_of(*f).subrange(0, pi + 1);
                assert(cur.drop_last() =~= pre + paths_of(*f).subrange(0, pi as int));
                assert(cur.last() == paths_of(*f)[pi as int]);
            }
            pi = pi + 1;
        }
        proof {
            let sub = fields@.subrange(0, fi + 1);
            assert(sub.drop_last() =~= fields@.subrange(0, fi as int));
            assert(paths_of(*f).subrange(0, pi as int) =~= paths_of(*f));
        }
        fi = fi + 1;
    }
    proof {
        assert(fields@.subrange(0, fields.len() as int) =~= fields@);
    }
    visitor.associated_types
}

/// The text of an optional string.
pub open spec fn opt_text(o: Option<String>) -> Option<Seq<char>> {
    match o {
        Some(s) => Some(s@),
        None => None,
    }
}

/// The bounds given on fields, in field order.
pub open spec fn field_bounds(fields: Seq<DebugField>) -> Seq<Seq<char>>
    decreases fields.len(),
{
    if fields.len() == 0 {
        seq![]
    } else {
        match fields.last().bound {
            Some(b) => field_bounds(fields.drop_last()).push(b@),
            None => field_bounds(fields.drop_last()),
        }
    }
}

/// `s` without repetitions, each element at its first occurrence.
pub open spec fn distinct_in_order(s: Seq<Seq<char>>) -> Seq<Seq<char>>
    decreases s.len(),
{
    if s.len() == 0 {
        seq![]
    } else if distinct_in_order(s.drop_last()).contains(s.last()) {
        distinct_in_order(s.drop_last())
    } else {
        distinct_in_order(s.drop_last()).push(s.last())
    }
}

/// The type parameters that `PhantomData` fields mark, in field order.
pub open spec fn phantoms(fields: Seq<DebugField>) -> Seq<Seq<char>>
    decreases fields.len(),
{
    if fields.len() == 0 {
        seq![]
    } else {
        match phantom_param(fields.last().ty) {
            Some(p) => phantoms(fields.drop_last()).push(p),
            None => phantoms(fields.drop_last()),
        }
    }
}

/// The identifiers of the one-segment paths among `ps`, such as `T`, in order.
pub open spec fn single_names(ps: Seq<VisitedPath>) -> Seq<Seq<char>>
    decreases ps.len(),
{
    if ps.len() == 0 {
        seq![]
    } else if ps.last().segments@.len() == 1 {
        single_names(ps.drop_last()).push(ps.last().segments@[0]@)
    } else {
        single_names(ps.drop_last())
    }
}

/// The names a field uses directly: the one-segment paths met in its type,
/// anywhere in it; none for a `PhantomData` field.
pub open spec fn used_names(f: DebugField) -> Seq<Seq<char>> {
    if phantom_param(f.ty) is Some {
        seq![]
    } else {
        single_names(f.type_paths@)
    }
}

/// The names the fields use directly, in field order.
pub open spec fn type_names(fields: Seq<DebugField>) -> Seq<Seq<char>>
    decreases fields.len(),
{
    if fields.len() == 0 {
        seq![]
    } else {
        type_names(fields.drop_last()) + used_names(fields.last())
    }
}

/// Whether the type parameter `n` goes without a `Debug` bound: it is only
/// marked by `PhantomData`, or only used through associated types, and no
/// other field uses it directly.
pub open spec fn unbounded(
    n: Seq<char>,
    marked: Seq<Seq<char>>,
    named: Seq<Seq<char>>,
    associated: Seq<Seq<char>>,
) -> bool {
    (marked.contains(n) && !named.contains(n)) || (associated.contains(n) && !named.contains(n))
}

/// Indices of the type parameters that get a `Debug` bound.
pub open spec fn bounded_params(
    params: Seq<GenericParam>,
    marked: Seq<Seq<char>>,
    named: Seq<Seq<char>>,
    associated: Seq<Seq<char>>,
) -> Seq<usize>
    decreases params.len(),
{
    if params.len() == 0 {
        seq![]
    } else {
        match params.last() {
            GenericParam::Type(n) => if unbounded(n@, marked, named, associated) {
                bounded_params(params.drop_last(), marked, named, associated)
            } else {
                bounded_params(params.drop_last(), marked, named, associated).push(
                    (params.len() - 1) as usize,
                )
            },
            _ => bounded_params(params.drop_last(), marked, named, associated),
        }
    }
}

/// Indices of the type parameters, in order.
pub open spec fn type_param_indices(params: Seq<GenericParam>) -> Seq<usize>
    decreases params.len(),
{
    if params.len() == 0 {
        seq![]
    } else {
        match params.last() {
            GenericParam::Type(_) => type_param_indices(params.drop_last()).push(
                (params.len() - 1) as usize,
            ),
            _ => type_param_indices(params.drop_last()),
        }
    }
}

/// Add a bound `T: Debug` to every type parameter T: the indices of the
/// parameters that get it.
pub fn add_trait_bounds(params: &Vec<GenericParam>) -> (r: Vec<usize>)
    ensures
        r@ == type_param_indices(params@),
{
    let mut r: Vec<usize> = Vec::new();
    let mut i: usize = 0;
    while i < params.len()
        invariant
            i <= params.len(),
            r@ == type_param_indices(params@.subrange(0, i as int)),
        decreases params.len() - i,
    {
        proof {
            assert(params@.subrange(0, i + 1).drop_last() =~= params@.subrange(0, i as int));
        }
        if let GenericParam::Type(_) = &params[i] {
            r.push(i);
        }
        i = i + 1;
    }
    proof {
        assert(params@.subrange(0, params.len() as int) =~= params@);
    }
    r
}

proof fn lemma_nothing_unbounded(params: Seq<GenericParam>, named: Seq<Seq<char>>)
    ensures
        bounded_params(params, seq![], named, seq![]) == type_param_indices(params),
    decreases params.len(),
{
    if params.len() > 0 {
        lemma_nothing_unbounded(params.drop_last(), named);
    }
}

/// The parameters of a list of groups.
pub open spec fn group_names(groups: Seq<(Seq<char>, Seq<usize>)>) -> Seq<Seq<char>> {
    Seq::new(groups.len(), |i: int| groups[i].0)
}

/// The tags of all groups, group after group.
pub open spec fn all_ids(groups: Seq<(Seq<char>, Seq<usize>)>) -> Seq<usize>
    decreases groups.len(),
{
    if groups.len() == 0 {
        seq![]
    } else {
        all_ids(groups.drop_last()) + groups.last().1
    }
}

/// Whether `syn` reads `text` as one where-clause predicate, such as
/// `T::Value: Debug`.
pub uninterp spec fn where_predicate_parses(text: Seq<char>) -> bool;

/// Whether `syn::parse_str::<syn::WherePredicate>` accepts the text. The
/// text holds no start of a C-string literal, on which `syn` panics.
#[verifier::external_body]
fn parses_as_where_predicate(text: &str) -> (r: bool)
    requires
        !has_c_string_mark(text@),
    ensures
        r == where_predicate_parses(text@),
{
    syn::parse_str::<syn::WherePredicate>(text).is_ok()
}

/// A `bound` attribute whose text is not a where-clause predicate.
#[derive(Debug)]
pub struct BoundError {
    /// The text of the bound.
    pub bound: String,
}

/// Whether a bound text is taken: `syn` reads it as a where-clause predicate.
/// A text holding the start of a C-string literal, which `syn` cannot read,
/// is not taken.
pub open spec fn bound_accepted(text: Seq<char>) -> bool {
    !has_c_string_mark(text) && where_predicate_parses(text)
}

/// `i` is the first of `bs` that is not taken as a where-clause predicate.
pub open spec fn is_first_unparsed(bs: Seq<Seq<char>>, i: int) -> bool {
    &&& 0 <= i < bs.len()
    &&& !bound_accepted(bs[i])
    &&& forall|j: int| 0 <= j < i ==> bound_accepted(#[trigger] bs[j])
}

/// Whether a bound text is taken as a where-clause predicate.
pub fn accepts_bound(text: &str) -> (r: bool)
    ensures
        r == bound_accepted(text@),
{
    !holds_c_string_mark(text) && parses_as_where_predicate(text)
}

/// Index of the first text that is not a where-clause predicate, if any.
fn first_unparsed(bs: &Vec<String>) -> (r: Option<usize>)
    ensures
        r matches Some(i) ==> is_first_unparsed(texts(bs@), i as int),
        r is None ==> forall|j: int| 0 <= j < bs@.len() ==> bound_accepted(#[trigger] texts(bs@)[j]),
{
    let mut i: usize = 0;
    while i < bs.len()
        invariant
            i <= bs.len(),
            forall|j: int| 0 <= j < i ==> bound_accepted(#[trigger] texts(bs@)[j]),
        decreases bs.len() - i,
    {
        if !accepts_bound(bs[i].as_str()) {
            return Some(i);
        }
        i = i + 1;
    }
    None
}

/// The bounds given by attributes that the implementation takes: the
/// struct's `bound` alone when it has one, else the distinct field `bound`s.
pub open spec fn chosen_bounds(ctx: BuilderContext) -> Seq<Seq<char>> {
    match keyed_value(ctx.attrs@, "debug"@, "bound"@) {
        Some(v) => seq![v],
        None => distinct_in_order(field_bounds(ctx.fields@)),
    }
}

/// The outcome of planning the bounds: the plan when every chosen bound is a
/// where-clause predicate, otherwise an error naming the first that is not.
pub open spec fn bounds_outcome(ctx: BuilderContext, r: Result<BoundPlan, BoundError>) -> bool {
    match r {
        Ok(plan) => plan_holds(ctx, plan) && forall|j: int|
            0 <= j < chosen_bounds(ctx).len() ==> bound_accepted(#[trigger] chosen_bounds(ctx)[j]),
        Err(e) => exists|i: int|
            is_first_unparsed(chosen_bounds(ctx), i) && e.bound@ == chosen_bounds(ctx)[i],
    }
}

/// A copy of a list of strings.
fn copy_texts(v: &Vec<String>) -> (r: Vec<String>)
    ensures
        texts(r@) == texts(v@),
{
    let mut r: Vec<String> = Vec::new();
    let mut i: usize = 0;
    while i < v.len()
        invariant
            i <= v.len(),
            r@.len() == i,
            forall|j: int| 0 <= j < i ==> #[trigger] r@[j]@ == v@[j]@,
        decreases v.len() - i,
    {
        r.push(v[i].clone());
        i = i + 1;
    }
    proof {
        assert(texts(r@) =~= texts(v@));
    }
    r
}

/// The bounds of the `Debug` implementation.
pub struct BoundPlan {
    /// Predicates given by `bound` attributes, added to the where clause as
    /// written.
    pub where_bounds: Vec<String>,
    /// Indices of the generic parameters that get a `Debug` bound.
    pub debug_params: Vec<usize>,
    /// Tags of the associated type paths that get a `Debug` bound in the
    /// where clause.
    pub debug_paths: Vec<usize>,
}

/// A field as it is printed.
pub struct FieldFormat {
    /// The field name.
    pub name: String,
    /// The format string, if one was given.
    pub format: Option<String>,
}

/// Whether `ff` prints field `f`: same name, same format.
pub open spec fn prints_as(ff: FieldFormat, f: DebugField) -> bool {
    ff.name@ == f.name@ && opt_text(ff.format) == opt_text(f.format)
}

/// The `Debug` implementation of a struct.
pub struct DebugImpl {
    /// The name printed for the struct.
    pub struct_name: String,
    /// The fields, in order.
    pub fields: Vec<FieldFormat>,
    /// The bounds.
    pub bounds: BoundPlan,
    /// The where clause: the struct's own predicates followed by the bounds
    /// given by attributes.
    pub where_predicates: Vec<String>,
}

/// A struct prepared for its `Debug` implementation.
pub struct BuilderContext {
    /// The struct's attributes.
    pub attrs: Vec<Attribute>,
    /// The struct name.
    pub name: String,
    /// The generic parameters.
    pub params: Vec<GenericParam>,
    /// The predicates of the struct's where clause, as written.
    pub where_predicates: Vec<String>,
    /// The fields.
    pub fields: Vec<DebugField>,
}

/// The bounds the implementation of `ctx` needs. A `bound` given on the
/// struct replaces all others; otherwise the `bound`s given on fields do;
/// otherwise each type parameter gets `Debug` unless it is only marked by
/// `PhantomData` or only used through associated types, and every
/// associated type path gets `Debug` in the where clause.
pub open spec fn plan_holds(ctx: BuilderContext, plan: BoundPlan) -> bool {
    match keyed_value(ctx.attrs@, "debug"@, "bound"@) {
        Some(v) => texts(plan.where_bounds@) == seq![v] && plan.debug_params@.len() == 0
            && plan.debug_paths@.len() == 0,
        None => if field_bounds(ctx.fields@).len() > 0 {
            texts(plan.where_bounds@) == distinct_in_order(field_bounds(ctx.fields@))
                && plan.debug_params@.len() == 0 && plan.debug_paths@.len() == 0
        } else {
            let groups = grouped(visits(ctx.fields@), type_param_names(ctx.params@));
            &&& plan.where_bounds@.len() == 0
            &&& plan.debug_params@ == bounded_params(
                ctx.params@,
                phantoms(ctx.fields@),
                type_names(ctx.fields@),
                group_names(groups),
            )
            &&& plan.debug_paths@ == all_ids(groups)
        },
    }
}

/// A struct with no `bound` attribute, no `PhantomData` field and no
/// associated type path gets `T: Debug` on every type parameter and nothing
/// else, which is what `add_trait_bounds` gives.
pub proof fn law_plain_struct_bounds_every_parameter(ctx: BuilderContext, plan: BoundPlan)
    requires
        keyed_value(ctx.attrs@, "debug"@, "bound"@) is None,
        field_bounds(ctx.fields@).len() == 0,
        phantoms(ctx.fields@).len() == 0,
        grouped(visits(ctx.fields@), type_param_names(ctx.params@)).len() == 0,
        plan_holds(ctx, plan),
    ensures
        plan.where_bounds@.len() == 0,
        plan.debug_paths@.len() == 0,
        plan.debug_params@ == type_param_indices(ctx.params@),
{
    let groups = grouped(visits(ctx.fields@), type_param_names(ctx.params@));
    assert(phantoms(ctx.fields@) =~= seq![]);
    assert(group_names(groups) =~= seq![]);
    assert(all_ids(groups) =~= seq![]);
    lemma_nothing_unbounded(ctx.params@, type_names(ctx.fields@));
}

proof fn lemma_single_names_contains(ps: Seq<VisitedPath>, q: int)
    requires
        0 <= q < ps.len(),
        ps[q].segments@.len() == 1,
    ensures
        single_names(ps).contains(ps[q].segments@[0]@),
    decreases ps.len(),
{
    if q < ps.len() - 1 {
        lemma_single_names_contains(ps.drop_last(), q);
        let rest = single_names(ps.drop_last());
        let w = choose|w: int| 0 <= w < rest.len() && rest[w] == ps[q].segments@[0]@;
        if ps.last().segments@.len() == 1 {
            assert(single_names(ps)[w] == rest[w]);
        }
    } else {
        assert(single_names(ps).last() == ps[q].segments@[0]@);
    }
}

proof fn lemma_type_names_contains(fields: Seq<DebugField>, k: int, name: Seq<char>)
    requires
        0 <= k < fields.len(),
        used_names(fields[k]).contains(name),
    ensures
        type_names(fields).contains(name),
    decreases fields.len(),
{
    let pre = type_names(fields.drop_last());
    let last = used_names(fields.last());
    assert(type_names(fields) == pre + last);
    if k < fields.len() - 1 {
        lemma_type_names_contains(fields.drop_last(), k, name);
        let w = choose|w: int| 0 <= w < pre.len() && pre[w] == name;
        assert((pre + last)[w] == name);
    } else {
        let w = choose|w: int| 0 <= w < last.len() && last[w] == name;
        assert((pre + last)[pre.len() + w] == name);
    }
}

proof fn lemma_bounded_contains(
    params: Seq<GenericParam>,
    marked: Seq<Seq<char>>,
    named: Seq<Seq<char>>,
    associated: Seq<Seq<char>>,
    p: int,
)
    requires
        0 <= p < params.len(),
        params[p] matches GenericParam::Type(n) && named.contains(n@),
    ensures
        bounded_params(params, marked, named, associated).contains(p as usize),
    decreases params.len(),
{
    let rest = bounded_params(params.drop_last(), marked, named, associated);
    if p < params.len() - 1 {
        lemma_bounded_contains(params.drop_last(), marked, named, associated, p);
        let w = choose|w: int| 0 <= w < rest.len() && rest[w] == p as usize;
        match params.last() {
            GenericParam::Type(n) => if !unbounded(n@, marked, named, associated) {
                assert(bounded_params(params, marked, named, associated)[w] == p as usize);
            },
            _ => {},
        }
    } else {
        assert(bounded_params(params, marked, named, associated) == rest.push(p as usize));
        assert(bounded_params(params, marked, named, associated).last() == p as usize);
    }
}

proof fn lemma_bounded_only_bounded(
    params: Seq<GenericParam>,
    marked: Seq<Seq<char>>,
    named: Seq<Seq<char>>,
    associated: Seq<Seq<char>>,
    w: int,
)
    requires
        0 <= w < bounded_params(params, marked, named, associated).len(),
        params.len() <= usize::MAX,
    ensures
        0 <= bounded_params(params, marked, named, associated)[w] < params.len(),
        params[bounded_params(params, marked, named, associated)[w] as int] matches GenericParam::Type(
            n,
        ) && !unbounded(n@, marked, named, associated),
    decreases params.len(),
{
    let b = bounded_params(params, marked, named, associated);
    let init = params.drop_last();
    let rest = bounded_params(init, marked, named, associated);
    let last = (params.len() - 1) as usize;
    let grows = match params.last() {
        GenericParam::Type(n) => !unbounded(n@, marked, named, associated),
        _ => false,
    };
    if grows {
        assert(b == rest.push(last));
    } else {
        assert(b == rest);
    }
    if w < rest.len() {
        lemma_bounded_only_bounded(init, marked, named, associated, w);
        assert(b[w] == rest[w]);
        assert(params[rest[w] as int] == init[rest[w] as int]);
    } else {
        assert(grows);
        assert(b[w] == last);
    }
}

/// A type parameter that no field other than a `PhantomData` marker names
/// directly, and that is marked by `PhantomData` or used through associated
/// types, gets no `Debug` bound.
pub proof fn law_marked_or_associated_only_parameter_is_not_bounded(
    ctx: BuilderContext,
    plan: BoundPlan,
    p: int,
)
    requires
        keyed_value(ctx.attrs@, "debug"@, "bound"@) is None,
        field_bounds(ctx.fields@).len() == 0,
        plan_holds(ctx, plan),
        0 <= p < ctx.params@.len(),
        ctx.params@[p] matches GenericParam::Type(n) && !type_names(ctx.fields@).contains(n@) && (
        phantoms(ctx.fields@).contains(n@) || group_names(
            grouped(visits(ctx.fields@), type_param_names(ctx.params@)),
        ).contains(n@)),
    ensures
        !plan.debug_params@.contains(p as usize),
{
    let groups = grouped(visits(ctx.fields@), type_param_names(ctx.params@));
    let b = bounded_params(
        ctx.params@,
        phantoms(ctx.fields@),
        type_names(ctx.fields@),
        group_names(groups),
    );
    assert(ctx.params@.len() == ctx.params.len());
    if plan.debug_params@.contains(p as usize) {
        let w = choose|w: int| 0 <= w < b.len() && b[w] == p as usize;
        lemma_bounded_only_bounded(
            ctx.params@,
            phantoms(ctx.fields@),
            type_names(ctx.fields@),
            group_names(groups),
            w,
        );
    }
}

/// A type parameter that a field other than a `PhantomData` marker names
/// directly (a one-segment path such as `T` anywhere in its type) gets a
/// `Debug` bound when no `bound` attribute is given, whether or not it is
/// also marked by `PhantomData` or used through associated types.
pub proof fn law_directly_used_parameter_is_bounded(
    ctx: BuilderContext,
    plan: BoundPlan,
    p: int,
    k: int,
    q: int,
)
    requires
        keyed_value(ctx.attrs@, "debug"@, "bound"@) is None,
        field_bounds(ctx.fields@).len() == 0,
        plan_holds(ctx, plan),
        0 <= p < ctx.params@.len(),
        0 <= k < ctx.fields@.len(),
        phantom_param(ctx.fields@[k].ty) is None,
        0 <= q < ctx.fields@[k].type_paths@.len(),
        ctx.fields@[k].type_paths@[q].segments@.len() == 1,
        ctx.params@[p] matches GenericParam::Type(n) && ctx.fields@[k].type_paths@[q].segments@[0]@
            == n@,
    ensures
        plan.debug_params@.contains(p as usize),
{
    let f = ctx.fields@[k];
    let name = f.type_paths@[q].segments@[0]@;
    lemma_single_names_contains(f.type_paths@, q);
    assert(used_names(f) == single_names(f.type_paths@));
    lemma_type_names_contains(ctx.fields@, k, name);
    let groups = grouped(visits(ctx.fields@), type_param_names(ctx.params@));
    lemma_bounded_contains(
        ctx.params@,
        phantoms(ctx.fields@),
        type_names(ctx.fields@),
        group_names(groups),
        p,
    );
}

proof fn lemma_distinct_nonempty(s: Seq<Seq<char>>)
    ensures
        s.len() > 0 ==> distinct_in_order(s).len() > 0,
    decreases s.len(),
{
    if s.len() > 0 {
        lemma_distinct_nonempty(s.drop_last());
    }
}

/// `df` is field `f` prepared: same name, type and paths, with the format
/// of `#[debug = "..."]` and the bound of `#[debug(bound = "...")]`.
pub open spec fn prepared(df: DebugField, f: Field) -> bool {
    &&& df.name == f.name
    &&& df.ty == f.ty
    &&& df.type_paths == f.type_paths
    &&& opt_text(df.format) == first_named_str(f.attrs@, "debug"@)
    &&& opt_text(df.bound) == keyed_value(f.attrs@, "debug"@, "bound"@)
}

impl BuilderContext {
    /// Prepares a struct: reads the format and the bound of every field.
    pub fn new(input: StructParser) -> (r: Self)
        ensures
            r.attrs == input.attrs,
            r.name == input.name,
            r.params == input.params,
            r.where_predicates == input.where_predicates,
            r.fields@.len() == input.fields@.len(),
            forall|i: int|
                0 <= i < r.fields@.len() ==> #[trigger] prepared(r.fields@[i], input.fields@[i]),
    {
        let ghost orig = input.fields@;
        let StructParser { attrs, name, params, where_predicates, fields } = input;
        let mut rest = fields;
        let mut out: Vec<DebugField> = Vec::new();
        while rest.len() > 0
            invariant
                orig == input.fields@,
                out.len() + rest.len() == orig.len(),
                rest@ == orig.subrange(out.len() as int, orig.len() as int),
                forall|i: int| 0 <= i < out@.len() ==> #[trigger] prepared(out@[i], orig[i]),
            decreases rest.len(),
        {
            let f = rest.remove(0);
            let format = get_attribute_of_field(&f, "debug");
            let bound = get_attribute_by_key(&f.attrs, "debug", "bound");
            let Field { name, ty, attrs: _, type_paths } = f;
            out.push(DebugField { name, ty, format, bound, type_paths });
            proof {
                assert(prepared(out@[out@.len() - 1], orig[out@.len() - 1]));
            }
        }
        BuilderContext { attrs, name, params, where_predicates, fields: out }
    }

    /// The fields as they are printed.
    fn gen_fields(&self) -> (r: Vec<FieldFormat>)
        ensures
            r@.len() == self.fields@.len(),
            forall|i: int| 0 <= i < r@.len() ==> #[trigger] prints_as(r@[i], self.fields@[i]),
    {
        let mut r: Vec<FieldFormat> = Vec::new();
        let mut i: usize = 0;
        while i < self.fields.len()
            invariant
                i <= self.fields.len(),
                r@.len() == i,
                forall|j: int| 0 <= j < i ==> #[trigger] prints_as(r@[j], self.fields@[j]),
            decreases self.fields.len() - i,
        {
            let f = &self.fields[i];
            let format = match &f.format {
                Some(s) => Some(s.clone()),
                None => None,
            };
            r.push(FieldFormat { name: f.name.clone(), format });
            proof {
                assert(prints_as(r@[i as int], self.fields@[i as int]));
            }
            i = i + 1;
        }
        r
    }

    /// The bounds of the implementation.
    pub fn add_trait_bounds_2(&self) -> (r: Result<BoundPlan, BoundError>)
        ensures
            bounds_outcome(*self, r),
    {
        if let Some(v) = get_attribute_by_key(&self.attrs, "debug", "bound") {
            let mut where_bounds: Vec<String> = Vec::new();
            where_bounds.push(v);
            proof {
                assert(texts(where_bounds@) =~= seq![v@]);
            }
            if let Some(i) = first_unparsed(&where_bounds) {
                let bound = where_bounds[i].clone();
                proof {
                    assert(chosen_bounds(*self) =~= texts(where_bounds@));
                    assert(is_first_unparsed(chosen_bounds(*self), i as int));
                    assert(bound@ == chosen_bounds(*self)[i as int]);
                }
                return Err(BoundError { bound });
            }
            proof {
                assert(chosen_bounds(*self) =~= texts(where_bounds@));
            }
            return Ok(BoundPlan { where_bounds, debug_params: Vec::new(), debug_paths: Vec::new() });
        }
        let mut where_bounds: Vec<String> = Vec::new();
        let mut i: usize = 0;
        while i < self.fields.len()
            invariant
                i <= self.fields.len(),
                texts(where_bounds@) == distinct_in_order(
                    field_bounds(self.fields@.subrange(0, i as int)),
                ),
            decreases self.fields.len() - i,
        {
            proof {
                assert(self.fields@.subrange(0, i + 1).drop_last() =~= self.fields@.subrange(
                    0,
                    i as int,
                ));
            }
            let ghost sub = self.fields@.subrange(0, i + 1);
            proof {
                assert(sub.last() == self.fields@[i as int]);
            }
            if let Some(b) = &self.fields[i].bound {
                proof {
                    assert(field_bounds(sub) == field_bounds(sub.drop_last()).push(b@));
                    assert(field_bounds(sub).drop_last() =~= field_bounds(sub.drop_last()));
                    assert(field_bounds(sub).last() == b@);
                }
                if !contains_text(&where_bounds, b.as_str()) {
                    let ghost before = where_bounds@;
                    where_bounds.push(b.clone());
                    proof {
                        assert(texts(where_bounds@) =~= texts(before).push(b@));
                    }
                }
            } else {
                proof {
                    assert(field_bounds(sub) == field_bounds(sub.drop_last()));
                }
            }
            i = i + 1;
        }
        proof {
            assert(self.fields@.subrange(0, self.fields.len() as int) =~= self.fields@);
            lemma_distinct_nonempty(field_bounds(self.fields@));
        }
        if where_bounds.len() > 0 {
            if let Some(i) = first_unparsed(&where_bounds) {
                let bound = where_bounds[i].clone();
                proof {
                    assert(chosen_bounds(*self) =~= texts(where_bounds@));
                    assert(is_first_unparsed(chosen_bounds(*self), i as int));
                    assert(bound@ == chosen_bounds(*self)[i as int]);
                }
                return Err(BoundError { bound });
            }
            proof {
                assert(chosen_bounds(*self) =~= texts(where_bounds@));
            }
            return Ok(BoundPlan { where_bounds, debug_params: Vec::new(), debug_paths: Vec::new() });
        }
        let mut phantom_vec: Vec<String> = Vec::new();
        let mut type_name_vec: Vec<String> = Vec::new();
        let mut i: usize = 0;
        while i < self.fields.len()
            invariant
                i <= self.fields.len(),
                texts(phantom_vec@) == phantoms(self.fields@.subrange(0, i as int)),
                texts(type_name_vec@) == type_names(self.fields@.subrange(0, i as int)),
            decreases self.fields.len() - i,
        {
            proof {
                assert(self.fields@.subrange(0, i + 1).drop_last() =~= self.fields@.subrange(
                    0,
                    i as int,
                ));
            }
            let f = &self.fields[i];
            if let Some(n) = get_phantom_type(&f.ty) {
                let ghost before = phantom_vec@;
                phantom_vec.push(n);
                proof {
                    assert(texts(phantom_vec@) =~= texts(before).push(phantom_param(self.fields@[i as int].ty).unwrap()));
                    assert(type_names(self.fields@.subrange(0, i + 1)) =~= type_names(self.fields@.subrange(0, i as int)));
                }
            } else {
                let ghost start = texts(type_name_vec@);
                let mut k: usize = 0;
                while k < f.type_paths.len()
                    invariant
                        k <= f.type_paths.len(),
                        texts(type_name_vec@) == start + single_names(f.type_paths@.subrange(0, k as int)),
                    decreases f.type_paths.len() - k,
                {
                    proof {
                        assert(f.type_paths@.subrange(0, k + 1).drop_last() =~= f.type_paths@.subrange(0, k as int));
                    }
                    let p = &f.type_paths[k];
                    if p.segments.len() == 1 {
                        let ghost before = type_name_vec@;
                        type_name_vec.push(p.segments[0].clone());
                        proof {
                            assert(texts(type_name_vec@) =~= texts(before).push(p.segments@[0]@));
                        }
                    }
                    k = k + 1;
                }
                proof {
                    assert(f.type_paths@.subrange(0, f.type_paths.len() as int) =~= f.type_paths@);
                    assert(used_names(*f) == single_names(f.type_paths@));
                }
            }
            i = i + 1;
        }
        proof {
            assert(self.fields@.subrange(0, self.fields.len() as int) =~= self.fields@);
        }
        let associated = get_generic_associated_types(&self.params, &self.fields);
        let ghost groups = groups_value(associated@);
        let mut associated_names: Vec<String> = Vec::new();
        let mut g: usize = 0;
        while g < associated.len()
            invariant
                g <= associated.len(),
                groups == groups_value(associated@),
                texts(associated_names@) == group_names(groups).subrange(0, g as int),
            decreases associated.len() - g,
        {
            let ghost before = associated_names@;
            associated_names.push(associated[g].name.clone());
            proof {
                assert(texts(associated_names@) =~= texts(before).push(groups[g as int].0));
                assert(texts(associated_names@) =~= group_names(groups).subrange(0, g + 1));
            }
            g = g + 1;
        }
        proof {
            assert(group_names(groups).subrange(0, associated.len() as int) =~= group_names(groups));
        }
        let mut debug_params: Vec<usize> = Vec::new();
        let mut p: usize = 0;
        while p < self.params.len()
            invariant
                p <= self.params.len(),
                texts(phantom_vec@) == phantoms(self.fields@),
                texts(type_name_vec@) == type_names(self.fields@),
                texts(associated_names@) == group_names(groups),
                debug_params@ == bounded_params(
                    self.params@.subrange(0, p as int),
                    phantoms(self.fields@),
                    type_names(self.fields@),
                    group_names(groups),
                ),
            decreases self.params.len() - p,
        {
            proof {
                assert(self.params@.subrange(0, p + 1).drop_last() =~= self.params@.subrange(
                    0,
                    p as int,
                ));
            }
            if let GenericParam::Type(name) = &self.params[p] {
                let marked = contains_text(&phantom_vec, name.as_str());
                let named = contains_text(&type_name_vec, name.as_str());
                let assoc = contains_text(&associated_names, name.as_str());
                if !((marked && !named) || (assoc && !named)) {
                    debug_params.push(p);
                }
            }
            p = p + 1;
        }
        proof {
            assert(self.params@.subrange(0, self.params.len() as int) =~= self.params@);
        }
        let mut debug_paths: Vec<usize> = Vec::new();
        let mut g: usize = 0;
        while g < associated.len()
            invariant
                g <= associated.len(),
                groups == groups_value(associated@),
                debug_paths@ == all_ids(groups.subrange(0, g as int)),
            decreases associated.len() - g,
        {
            let mut ids = associated[g].ids.clone();
            let ghost before = debug_paths@;
            let ghost added = ids@;
            proof {
                assert(added =~= groups[g as int].1);
            }
            debug_paths.append(&mut ids);
            proof {
                assert(groups.subrange(0, g + 1).drop_last() =~= groups.subrange(0, g as int));
            }
            g = g + 1;
        }
        proof {
            assert(groups.subrange(0, associated.len() as int) =~= groups);
        }
        proof {
            assert(chosen_bounds(*self) =~= texts(where_bounds@));
        }
        Ok(BoundPlan { where_bounds, debug_params, debug_paths })
    }

    /// The `Debug` implementation: the struct name, how each field is printed,
    /// and the bounds.
    pub fn generate(&self) -> (r: Result<DebugImpl, BoundError>)
        ensures
            r matches Ok(imp) ==> {
                &&& imp.struct_name@ == self.name@
                &&& imp.fields@.len() == self.fields@.len()
                &&& forall|i: int| 0 <= i < imp.fields@.len() ==> #[trigger] prints_as(imp.fields@[i], self.fields@[i])
                &&& bounds_outcome(*self, Ok(imp.bounds))
                &&& texts(imp.where_predicates@) == texts(self.where_predicates@) + texts(imp.bounds.where_bounds@)
            },
            r matches Err(e) ==> bounds_outcome(*self, Err(e)),
    {
        let fields = self.gen_fields();
        match self.add_trait_bounds_2() {
            Ok(bounds) => {
                let mut where_predicates = copy_texts(&self.where_predicates);
                let mut added = copy_texts(&bounds.where_bounds);
                let ghost before = where_predicates@;
                let ghost more = added@;
                where_predicates.append(&mut added);
                proof {
                    assert(where_predicates@ == before + more);
                    assert(texts(where_predicates@) =~= texts(before) + texts(more));
                }
                Ok(DebugImpl { struct_name: self.name.clone(), fields, bounds, where_predicates })
            },
            Err(e) => Err(e),
        }
    }
}

} // verus!
