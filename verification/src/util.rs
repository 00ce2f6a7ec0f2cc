//! Queries on attributes (`#[name(value)]`, `#[name(key = "v")]`,
//! `#[name = "v"]`) and on wrapper types such as `Option<T>` and `Vec<T>`.

use crate::text::{has_c_string_mark, holds_c_string_mark, same_text};
use vstd::prelude::*;

verus! {

/// One segment of a path.
pub struct PathSegment {
    /// The identifier of the segment.
    pub ident: String,
    /// Whether the segment carries generic arguments.
    pub has_arguments: bool,
}

/// A path such as `builder` or `std::fmt::Debug`.
pub struct AttrPath {
    /// Whether the path starts with `::`.
    pub leading_colon: bool,
    /// The segments.
    pub segments: Vec<PathSegment>,
}

/// A literal in an attribute.
pub enum AttrLit {
    /// A string literal, by its value.
    Str(String),
    /// Any other literal.
    Other,
}

/// An element of a list attribute.
pub enum AttrNested {
    /// A nested meta item.
    Item(AttrMeta),
    /// A bare literal.
    Literal(AttrLit),
}

/// The structured form of an attribute.
pub enum AttrMeta {
    /// `#[path]`
    Path(AttrPath),
    /// `#[path(nested, ...)]`
    List(AttrPath, Vec<AttrNested>),
    /// `#[path = lit]`
    NameValue(AttrPath, AttrLit),
}

/// An attribute: its path, and the whole attribute as written, `#[...]`.
pub struct Attribute {
    /// The path of the attribute.
    pub path: AttrPath,
    /// The attribute as written, from `#` to the closing `]`.
    pub text: String,
}

/// The value of a path: whether it starts with `::`, and each segment's
/// identifier with whether it carries arguments.
pub struct PathView {
    /// Whether the path starts with `::`.
    pub leading_colon: bool,
    /// The segments.
    pub segments: Seq<(Seq<char>, bool)>,
}

/// The value of a literal.
pub enum LitView {
    /// A string literal, by its value.
    Str(Seq<char>),
    /// Any other literal.
    Other,
}

/// The value of an element of a list attribute.
pub enum NestedView {
    /// A nested meta item.
    Item(MetaView),
    /// A bare literal.
    Literal(LitView),
}

/// The value of the structured form of an attribute.
pub enum MetaView {
    /// `#[path]`
    Path(PathView),
    /// `#[path(nested, ...)]`
    List(PathView, Seq<NestedView>),
    /// `#[path = lit]`
    NameValue(PathView, LitView),
}

impl AttrPath {
    /// The value of the path.
    pub open spec fn value(self) -> PathView {
        PathView {
            leading_colon: self.leading_colon,
            segments: Seq::new(
                self.segments@.len(),
                |i: int| (self.segments@[i].ident@, self.segments@[i].has_arguments),
            ),
        }
    }
}

impl AttrLit {
    /// The value of the literal.
    pub open spec fn value(self) -> LitView {
        match self {
            AttrLit::Str(s) => LitView::Str(s@),
            AttrLit::Other => LitView::Other,
        }
    }
}

impl AttrMeta {
    /// The value of the meta item.
    pub open spec fn value(self) -> MetaView
        decreases self, 0int,
    {
        match self {
            AttrMeta::Path(p) => MetaView::Path(p.value()),
            AttrMeta::List(p, nested) => MetaView::List(p.value(), nested_values(nested@)),
            AttrMeta::NameValue(p, l) => MetaView::NameValue(p.value(), l.value()),
        }
    }
}

impl AttrNested {
    /// The value of the element.
    pub open spec fn value(self) -> NestedView
        decreases self, 0int,
    {
        match self {
            AttrNested::Item(m) => NestedView::Item(m.value()),
            AttrNested::Literal(l) => NestedView::Literal(l.value()),
        }
    }
}

/// The values of a sequence of list elements.
pub open spec fn nested_values(s: Seq<AttrNested>) -> Seq<NestedView>
    decreases s, 1int,
{
    if s.len() == 0 {
        seq![]
    } else {
        nested_values(s.drop_last()).push(s.last().value())
    }
}

/// The value of an optional meta item.
pub open spec fn opt_meta_value(m: Option<AttrMeta>) -> Option<MetaView> {
    match m {
        Some(m) => Some(m.value()),
        None => None,
    }
}

proof fn lemma_nested_values(s: Seq<AttrNested>)
    ensures
        nested_values(s).len() == s.len(),
        forall|i: int| 0 <= i < s.len() ==> #[trigger] nested_values(s)[i] == s[i].value(),
    decreases s.len(),
{
    if s.len() > 0 {
        lemma_nested_values(s.drop_last());
    }
}

/// What `syn` reads from an attribute written as `text`: the attribute is
/// parsed with `Attribute::parse_outer` and read with `Attribute::parse_meta`.
pub uninterp spec fn meta_of(text: Seq<char>) -> Option<MetaView>;

/// `syn`'s path type, carried through the conversions below.
#[verifier::external_type_specification]
#[verifier::external_body]
pub struct ExSynPath(syn::Path);

/// `syn`'s literal type, carried through the conversions below.
#[verifier::external_type_specification]
#[verifier::external_body]
pub struct ExSynLit(syn::Lit);

/// `syn`'s meta item type, carried through the conversions below.
#[verifier::external_type_specification]
#[verifier::external_body]
pub struct ExSynMeta(syn::Meta);

/// The path `syn` read, segment for segment.
#[verifier::external_body]
fn path_from_syn(p: &syn::Path) -> AttrPath {
    AttrPath {
        leading_colon: p.leading_colon.is_some(),
        segments: p.segments.iter().map(|s| PathSegment { ident: s.ident.to_string(), has_arguments: !s.arguments.is_empty() }).collect(),
    }
}

/// The literal `syn` read: the value of a string literal.
#[verifier::external_body]
fn lit_from_syn(l: &syn::Lit) -> AttrLit {
    match l {
        syn::Lit::Str(s) => AttrLit::Str(s.value()),
        _ => AttrLit::Other,
    }
}

/// The meta item `syn` read, variant for variant.
#[verifier::external_body]
fn meta_from_syn(m: &syn::Meta) -> AttrMeta {
    match m {
        syn::Meta::Path(p) => AttrMeta::Path(path_from_syn(p)),
        syn::Meta::List(l) => AttrMeta::List(path_from_syn(&l.path), l.nested.iter().map(|n| match n {
            syn::NestedMeta::Meta(m) => AttrNested::Item(meta_from_syn(m)),
            syn::NestedMeta::Lit(x) => AttrNested::Literal(lit_from_syn(x)),
        }).collect()),
        syn::Meta::NameValue(nv) => AttrMeta::NameValue(path_from_syn(&nv.path), lit_from_syn(&nv.lit)),
    }
}

/// Reads an attribute written as `text` with `syn`: `Attribute::parse_outer`
/// parses it and `Attribute::parse_meta` gives its structured form. `None`
/// when either fails.
#[verifier::external_body]
fn read_meta(text: &str) -> (r: Option<AttrMeta>)
    requires
        !has_c_string_mark(text@),
    ensures
        opt_meta_value(r) == meta_of(text@),
{
    let attrs = syn::parse::Parser::parse_str(syn::Attribute::parse_outer, text).ok()?;
    let meta = attrs.first()?.parse_meta().ok()?;
    Some(meta_from_syn(&meta))
}

/// Whether the path is the single identifier `name`.
pub open spec fn path_is_ident(p: AttrPath, name: Seq<char>) -> bool {
    view_is_ident(p.value(), name)
}

/// Whether the path value is the single identifier `name`.
pub open spec fn view_is_ident(p: PathView, name: Seq<char>) -> bool {
    &&& !p.leading_colon
    &&& p.segments.len() == 1
    &&& !p.segments[0].1
    &&& p.segments[0].0 == name
}

impl AttrPath {
    /// Whether the path is the single identifier `name`.
    pub fn is_ident(&self, name: &str) -> (r: bool)
        ensures
            r == path_is_ident(*self, name@),
    {
        !self.leading_colon && self.segments.len() == 1 && !self.segments[0].has_arguments
            && same_text(self.segments[0].ident.as_str(), name)
    }
}

/// The structured form of an attribute written as `text`, as `syn` reads it;
/// nothing when the text holds the start of a C-string literal, which `syn`
/// cannot read.
pub open spec fn attr_meta(text: Seq<char>) -> Option<MetaView> {
    if has_c_string_mark(text) {
        None
    } else {
        meta_of(text)
    }
}

/// Reads the structured form of an attribute written as `text`.
pub fn attribute_meta(text: &str) -> (r: Option<AttrMeta>)
    ensures
        opt_meta_value(r) == attr_meta(text@),
{
    if holds_c_string_mark(text) {
        None
    } else {
        read_meta(text)
    }
}

/// Whether the list holds the bare path `value`.
pub open spec fn list_has_path(nested: Seq<NestedView>, value: Seq<char>) -> bool {
    exists|j: int|
        0 <= j < nested.len() && (#[trigger] nested[j] matches NestedView::Item(MetaView::Path(p))
            && view_is_ident(p, value))
}

/// Whether a meta item is a list `(..., value, ...)` holding the bare path
/// `value`.
pub open spec fn meta_lists(m: Option<MetaView>, value: Seq<char>) -> bool {
    m matches Some(MetaView::List(_, nested)) && list_has_path(nested, value)
}

/// Whether a meta item is a list holding the bare path `value`.
#[verifier::loop_isolation(false)]
pub fn meta_lists_path(meta: &Option<AttrMeta>, value: &str) -> (r: bool)
    ensures
        r == meta_lists(opt_meta_value(*meta), value@),
{
    if let Some(AttrMeta::List(_, nested)) = meta {
        proof {
            lemma_nested_values(nested@);
        }
        let ghost nv = nested_values(nested@);
        let mut j: usize = 0;
        while j < nested.len()
            invariant
                j <= nested.len(),
                nv == nested_values(nested@),
                nv.len() == nested@.len(),
                forall|k: int| 0 <= k < nested@.len() ==> #[trigger] nv[k] == nested@[k].value(),
                forall|y: int|
                    0 <= y < j ==> !(#[trigger] nv[y] matches NestedView::Item(MetaView::Path(p))
                        && view_is_ident(p, value@)),
            decreases nested.len() - j,
        {
            proof {
                assert(nv[j as int] == nested@[j as int].value());
            }
            if let AttrNested::Item(AttrMeta::Path(path)) = &nested[j] {
                if path.is_ident(value) {
                    return true;
                }
            }
            j = j + 1;
        }
        false
    } else {
        false
    }
}

/// Whether attribute `a` is `#[name(..., value, ...)]`.
pub open spec fn lists_value(a: Attribute, name: Seq<char>, value: Seq<char>) -> bool {
    path_is_ident(a.path, name) && meta_lists(attr_meta(a.text@), value)
}

/// Whether some attribute `#[name(..., value, ...)]` is present.
pub open spec fn has_value(attrs: Seq<Attribute>, name: Seq<char>, value: Seq<char>) -> bool {
    exists|i: int| 0 <= i < attrs.len() && lists_value(#[trigger] attrs[i], name, value)
}

/// `#[name(value)]` attribute value exist or not
pub fn has_attribute_value(attrs: &Vec<Attribute>, name: &str, value: &str) -> (r: bool)
    ensures
        r == has_value(attrs@, name@, value@),
{
    let mut i: usize = 0;
    while i < attrs.len()
        invariant
            i <= attrs.len(),
            forall|x: int| 0 <= x < i ==> !lists_value(#[trigger] attrs@[x], name@, value@),
        decreases attrs.len() - i,
    {
        let attr = &attrs[i];
        if attr.path.is_ident(name) {
            let meta = attribute_meta(attr.text.as_str());
            if meta_lists_path(&meta, value) {
                proof {
                    assert(lists_value(attrs@[i as int], name@, value@));
                }
                return true;
            }
        }
        i = i + 1;
    }
    false
}

/// Whether some attribute `#[name]` is present.
pub open spec fn has_named(attrs: Seq<Attribute>, name: Seq<char>) -> bool {
    exists|i: int| 0 <= i < attrs.len() && path_is_ident(#[trigger] attrs[i].path, name)
}

/// `#[name]` attribute name exist or not
pub fn has_attribute(attrs: &Vec<Attribute>, name: &str) -> (r: bool)
    ensures
        r == has_named(attrs@, name@),
{
    let mut i: usize = 0;
    while i < attrs.len()
        invariant
            i <= attrs.len(),
            forall|x: int| 0 <= x < i ==> !path_is_ident(#[trigger] attrs@[x].path, name@),
        decreases attrs.len() - i,
    {
        if attrs[i].path.is_ident(name) {
            return true;
        }
        i = i + 1;
    }
    false
}

/// The string value of the first `key = "..."` entry of a list, if any.
pub open spec fn first_keyed_str(nested: Seq<NestedView>, key: Seq<char>) -> Option<Seq<char>>
    decreases nested.len(),
{
    if nested.len() == 0 {
        None
    } else {
        match nested[0] {
            NestedView::Item(MetaView::NameValue(p, LitView::Str(s))) => if view_is_ident(p, key) {
                Some(s)
            } else {
                first_keyed_str(nested.drop_first(), key)
            },
            _ => first_keyed_str(nested.drop_first(), key),
        }
    }
}

/// The value given to `key` in a meta item that is a list, if any.
pub open spec fn meta_keyed(m: Option<MetaView>, key: Seq<char>) -> Option<Seq<char>> {
    match m {
        Some(MetaView::List(_, nested)) => first_keyed_str(nested, key),
        _ => None,
    }
}

/// The string of the first `key = "..."` entry when the meta item is a list.
#[verifier::loop_isolation(false)]
pub fn meta_keyed_str(meta: &Option<AttrMeta>, key: &str) -> (r: Option<String>)
    ensures
        r matches Some(s) ==> meta_keyed(opt_meta_value(*meta), key@) == Some(s@),
        r is None ==> meta_keyed(opt_meta_value(*meta), key@) is None,
{
    if let Some(AttrMeta::List(_, nested)) = meta {
        proof {
            lemma_nested_values(nested@);
        }
        let ghost nv = nested_values(nested@);
        let mut j: usize = 0;
        proof {
            assert(nv.skip(0) =~= nv);
        }
        while j < nested.len()
            invariant
                j <= nested.len(),
                nv == nested_values(nested@),
                nv.len() == nested@.len(),
                forall|k: int| 0 <= k < nested@.len() ==> #[trigger] nv[k] == nested@[k].value(),
                first_keyed_str(nv, key@) == first_keyed_str(nv.skip(j as int), key@),
            decreases nested.len() - j,
        {
            proof {
                assert(nv.skip(j as int).drop_first() =~= nv.skip(j + 1));
                assert(nv.skip(j as int)[0] == nested@[j as int].value());
            }
            if let AttrNested::Item(AttrMeta::NameValue(path, AttrLit::Str(s))) = &nested[j] {
                if path.is_ident(key) {
                    return Some(s.clone());
                }
            }
            j = j + 1;
        }
        proof {
            assert(nv.skip(j as int).len() == 0);
        }
        None
    } else {
        None
    }
}

/// Index of the first attribute `#[name ...]`, if any.
pub open spec fn first_named(attrs: Seq<Attribute>, name: Seq<char>) -> Option<int>
    decreases attrs.len(),
{
    if attrs.len() == 0 {
        None
    } else if path_is_ident(attrs.last().path, name) && first_named(attrs.drop_last(), name) is None {
        Some(attrs.len() - 1)
    } else {
        first_named(attrs.drop_last(), name)
    }
}

/// The value given to `key` in the first attribute `#[name(...)]`.
pub open spec fn keyed_value(attrs: Seq<Attribute>, name: Seq<char>, key: Seq<char>) -> Option<
    Seq<char>,
> {
    match first_named(attrs, name) {
        Some(i) => meta_keyed(attr_meta(attrs[i].text@), key),
        None => None,
    }
}

proof fn lemma_first_named(attrs: Seq<Attribute>, name: Seq<char>, i: int)
    requires
        0 <= i <= attrs.len(),
        forall|x: int| 0 <= x < i ==> !path_is_ident(#[trigger] attrs[x].path, name),
    ensures
        i < attrs.len() && path_is_ident(attrs[i].path, name) ==> first_named(attrs, name) == Some(i),
        i == attrs.len() ==> first_named(attrs, name) is None,
    decreases attrs.len(),
{
    if attrs.len() > 0 {
        if i < attrs.len() {
            lemma_first_named(attrs.drop_last(), name, i);
        } else {
            lemma_first_named(attrs.drop_last(), name, i - 1);
        }
    }
}

/// `#[name(key="val")]` Get the value of the name attribute by key
pub fn get_attribute_by_key(attrs: &Vec<Attribute>, name: &str, key: &str) -> (r: Option<String>)
    ensures
        r matches Some(s) ==> keyed_value(attrs@, name@, key@) == Some(s@),
        r is None ==> keyed_value(attrs@, name@, key@) is None,
{
    let mut i: usize = 0;
    while i < attrs.len()
        invariant
            i <= attrs.len(),
            forall|x: int| 0 <= x < i ==> !path_is_ident(#[trigger] attrs@[x].path, name@),
        decreases attrs.len() - i,
    {
        if attrs[i].path.is_ident(name) {
            proof {
                lemma_first_named(attrs@, name@, i as int);
            }
            let meta = attribute_meta(attrs[i].text.as_str());
            return meta_keyed_str(&meta, key);
        }
        i = i + 1;
    }
    proof {
        lemma_first_named(attrs@, name@, i as int);
    }
    None
}

/// The string of a meta item `key = "..."`, if it is one.
pub open spec fn meta_named(m: Option<MetaView>, key: Seq<char>) -> Option<Seq<char>> {
    match m {
        Some(MetaView::NameValue(p, LitView::Str(s))) => if view_is_ident(p, key) {
            Some(s)
        } else {
            None
        },
        _ => None,
    }
}

/// The string of a meta item `key = "..."`, if it is one.
pub fn meta_named_str(meta: &Option<AttrMeta>, key: &str) -> (r: Option<String>)
    ensures
        r matches Some(s) ==> meta_named(opt_meta_value(*meta), key@) == Some(s@),
        r is None ==> meta_named(opt_meta_value(*meta), key@) is None,
{
    if let Some(AttrMeta::NameValue(path, AttrLit::Str(s))) = meta {
        if path.is_ident(key) {
            return Some(s.clone());
        }
    }
    None
}

/// The value of the first attribute `#[key = "..."]`, if any.
pub open spec fn first_named_str(attrs: Seq<Attribute>, key: Seq<char>) -> Option<Seq<char>>
    decreases attrs.len(),
{
    if attrs.len() == 0 {
        None
    } else {
        match meta_named(attr_meta(attrs[0].text@), key) {
            Some(s) => Some(s),
            None => first_named_str(attrs.drop_first(), key),
        }
    }
}

/// `#[name = "0b{:08b}"]` Get the value of the name attribute
pub fn get_attribute_value(attrs: &Vec<Attribute>, key: &str) -> (r: Option<String>)
    ensures
        r matches Some(s) ==> first_named_str(attrs@, key@) == Some(s@),
        r is None ==> first_named_str(attrs@, key@) is None,
{
    let mut i: usize = 0;
    proof {
        assert(attrs@.skip(0) =~= attrs@);
    }
    while i < attrs.len()
        invariant
            i <= attrs.len(),
            first_named_str(attrs@, key@) == first_named_str(attrs@.skip(i as int), key@),
        decreases attrs.len() - i,
    {
        proof {
            assert(attrs@.skip(i as int).drop_first() =~= attrs@.skip(i + 1));
        }
        let meta = attribute_meta(attrs[i].text.as_str());
        if let Some(s) = meta_named_str(&meta, key) {
            return Some(s);
        }
        i = i + 1;
    }
    None
}

/// Whether attribute `a` is `#[key = "s"]` for some string `s`.
pub open spec fn is_key_value(a: Attribute, key: Seq<char>) -> bool {
    attr_meta(a.text@) matches Some(MetaView::NameValue(p, LitView::Str(_))) && view_is_ident(p, key)
}

/// The value looked up by `get_attribute_value` passes over every attribute
/// that is not `#[key = "..."]`, attributes `#[other = "..."]` such as doc
/// comments included: putting one in front changes nothing.
pub proof fn law_other_attributes_are_skipped(a: Attribute, rest: Seq<Attribute>, key: Seq<char>)
    requires
        !is_key_value(a, key),
    ensures
        first_named_str(seq![a] + rest, key) == first_named_str(rest, key),
{
    let all = seq![a] + rest;
    assert(all[0] == a);
    assert(all.drop_first() =~= rest);
}

/// An attribute `#[key = "s"]` in front gives `s`, whatever follows.
pub proof fn law_key_attribute_is_found(a: Attribute, rest: Seq<Attribute>, key: Seq<char>, s: Seq<char>)
    requires
        attr_meta(a.text@) matches Some(MetaView::NameValue(p, LitView::Str(v))) && view_is_ident(p, key)
            && v == s,
    ensures
        first_named_str(seq![a] + rest, key) == Some(s),
{
    let all = seq![a] + rest;
    assert(all[0] == a);
}

/// The value found is that of the first attribute `#[key = "..."]`: when
/// attribute `k` is `#[key = "s"]` and none before it is, the result is `s`.
pub proof fn law_first_key_value_wins(attrs: Seq<Attribute>, key: Seq<char>, k: int, s: Seq<char>)
    requires
        0 <= k < attrs.len(),
        attr_meta(attrs[k].text@) matches Some(MetaView::NameValue(p, LitView::Str(v))) && view_is_ident(
            p,
            key,
        ) && v == s,
        forall|j: int| 0 <= j < k ==> !#[trigger] is_key_value(attrs[j], key),
    ensures
        first_named_str(attrs, key) == Some(s),
    decreases k,
{
    if k == 0 {
        assert(attrs =~= seq![attrs[0]] + attrs.drop_first());
        law_key_attribute_is_found(attrs[0], attrs.drop_first(), key, s);
    } else {
        let rest = attrs.drop_first();
        assert(forall|j: int| 0 <= j < k - 1 ==> rest[j] == attrs[j + 1]);
        assert forall|j: int| 0 <= j < k - 1 implies !#[trigger] is_key_value(rest[j], key) by {
            assert(rest[j] == attrs[j + 1]);
            assert(!is_key_value(attrs[j + 1], key));
        }
        law_first_key_value_wins(rest, key, k - 1, s);
        assert(!is_key_value(attrs[0], key));
        assert(attrs =~= seq![attrs[0]] + rest);
        law_other_attributes_are_skipped(attrs[0], rest, key);
    }
}

/// `get_attribute_by_key` reads the first attribute named `name` only:
/// attributes with other paths in front of it are passed over.
pub proof fn law_keyed_value_skips_other_names(
    a: Attribute,
    rest: Seq<Attribute>,
    name: Seq<char>,
    key: Seq<char>,
)
    requires
        !path_is_ident(a.path, name),
    ensures
        keyed_value(rest.insert(0, a), name, key) == keyed_value(rest, name, key),
{
    lemma_first_named_shift(a, rest, name);
    lemma_first_named_range(rest, name);
    if let Some(i) = first_named(rest, name) {
        assert(rest.insert(0, a)[i + 1] == rest[i]);
    }
}

proof fn lemma_first_named_range(attrs: Seq<Attribute>, name: Seq<char>)
    ensures
        first_named(attrs, name) matches Some(i) ==> 0 <= i < attrs.len(),
    decreases attrs.len(),
{
    if attrs.len() > 0 {
        lemma_first_named_range(attrs.drop_last(), name);
    }
}

proof fn lemma_first_named_shift(a: Attribute, rest: Seq<Attribute>, name: Seq<char>)
    requires
        !path_is_ident(a.path, name),
    ensures
        first_named(rest.insert(0, a), name) == (match first_named(rest, name) {
            Some(i) => Some(i + 1),
            None => None,
        }),
    decreases rest.len(),
{
    let all = rest.insert(0, a);
    assert(all.len() == rest.len() + 1);
    if rest.len() == 0 {
        assert(all.last() == a);
        assert(all.drop_last() =~= Seq::<Attribute>::empty());
        assert(first_named(all.drop_last(), name) is None);
    } else {
        assert(all.drop_last() =~= rest.drop_last().insert(0, a));
        assert(all.last() == rest.last());
        lemma_first_named_shift(a, rest.drop_last(), name);
    }
}

/// Whether `#[name(..., value, ...)]` is present does not depend on where
/// it stands: an attribute in front either is one or leaves the answer as it
/// was.
pub proof fn law_has_value_any_position(a: Attribute, rest: Seq<Attribute>, name: Seq<char>, value: Seq<char>)
    ensures
        has_value(seq![a] + rest, name, value) == (lists_value(a, name, value) || has_value(rest, name, value)),
{
    let all = seq![a] + rest;
    assert(all[0] == a);
    if has_value(rest, name, value) {
        let i = choose|i: int| 0 <= i < rest.len() && lists_value(#[trigger] rest[i], name, value);
        assert(all[i + 1] == rest[i]);
    }
    if has_value(all, name, value) && !lists_value(a, name, value) {
        let i = choose|i: int| 0 <= i < all.len() && lists_value(#[trigger] all[i], name, value);
        assert(i != 0);
        assert(rest[i - 1] == all[i]);
    }
}

/// A type: its source text, and its structure as far as the queries read
/// it.
pub struct Type {
    /// The type as written.
    pub text: String,
    /// Its structure.
    pub kind: TypeKind,
}

/// The structure of a type.
pub enum TypeKind {
    /// A path type such as `Option<String>`.
    Path(TypePath),
    /// Any other type.
    Other,
}

/// A path type.
pub struct TypePath {
    /// Whether the path has a qualified self type `<T as Trait>::`.
    pub qself: bool,
    /// The segments.
    pub segments: Vec<TypeSegment>,
}

/// One segment of a path type.
pub struct TypeSegment {
    /// The identifier of the segment.
    pub ident: String,
    /// Its arguments.
    pub arguments: PathArguments,
}

/// The arguments of a path segment.
pub enum PathArguments {
    /// No arguments.
    NoArguments,
    /// `<A, B, ...>`
    AngleBracketed(Vec<GenericArgument>),
    /// `(A, B) -> C`
    Parenthesized,
}

/// An argument in angle brackets.
pub enum GenericArgument {
    /// A type argument.
    Type(Type),
    /// A lifetime, constant, binding or constraint.
    Other,
}

/// The first type argument of `ty` when `ty` is a path whose first segment is
/// `name` with angle-bracketed arguments starting with a type.
pub open spec fn inner_type(ty: Type, name: Seq<char>) -> Option<Type> {
    match ty.kind {
        TypeKind::Path(p) => if p.segments@.len() > 0 && p.segments@[0].ident@ == name {
            match p.segments@[0].arguments {
                PathArguments::AngleBracketed(args) => if args@.len() > 0 {
                    match args@[0] {
                        GenericArgument::Type(t) => Some(t),
                        GenericArgument::Other => None,
                    }
                } else {
                    None
                },
                _ => None,
            }
        } else {
            None
        },
        TypeKind::Other => None,
    }
}

/// whether `Option<inner_type>` returns (whether Option, inner_type).
pub fn get_option_type(ty: &Type) -> (r: (bool, &Type))
    ensures
        r.0 == inner_type(*ty, "Option"@) is Some,
        r.0 ==> *r.1 == inner_type(*ty, "Option"@).unwrap(),
        !r.0 ==> r.1 == ty,
{
    get_inner_type(ty, "Option")
}

/// whether `Vec<inner_type>` returns (whether Vec, inner_type).
pub fn get_vec_type(ty: &Type) -> (r: (bool, &Type))
    ensures
        r.0 == inner_type(*ty, "Vec"@) is Some,
        r.0 ==> *r.1 == inner_type(*ty, "Vec"@).unwrap(),
        !r.0 ==> r.1 == ty,
{
    get_inner_type(ty, "Vec")
}

/// whether inner_type,such as: Option<String>,Vec<String>
/// returns (whether, inner_type).
fn get_inner_type<'a>(ty: &'a Type, name: &str) -> (r: (bool, &'a Type))
    ensures
        r.0 == inner_type(*ty, name@) is Some,
        r.0 ==> *r.1 == inner_type(*ty, name@).unwrap(),
        !r.0 ==> r.1 == ty,
{
    if let TypeKind::Path(path) = &ty.kind {
        if path.segments.len() > 0 {
            let segment = &path.segments[0];
            if same_text(segment.ident.as_str(), name) {
                if let PathArguments::AngleBracketed(args) = &segment.arguments {
                    if args.len() > 0 {
                        if let GenericArgument::Type(inner) = &args[0] {
                            return (true, inner);
                        }
                    }
                }
            }
        }
    }
    (false, ty)
}

} // verus!
