//! Ordering checks: the variants of an enum, or the arms of a `match`, must
//! appear in lexicographic order of their names.

use crate::text::{concat, same_text};
use vstd::prelude::*;
use vstd::utf8::encode_utf8;

verus! {

/// Lexicographic order on byte strings: `a` sorts strictly before `b`.
pub open spec fn bytes_less(a: Seq<u8>, b: Seq<u8>) -> bool
    decreases a.len(),
{
    if a.len() == 0 {
        b.len() > 0
    } else if b.len() == 0 {
        false
    } else if a[0] != b[0] {
        a[0] < b[0]
    } else {
        bytes_less(a.drop_first(), b.drop_first())
    }
}

/// The order of `String`: lexicographic on the UTF-8 bytes.
pub open spec fn text_less(a: Seq<char>, b: Seq<char>) -> bool {
    bytes_less(encode_utf8(a), encode_utf8(b))
}

/// No byte string sorts before itself; of two different ones, exactly one
/// sorts first.
pub proof fn lemma_bytes_less_total(a: Seq<u8>, b: Seq<u8>)
    ensures
        !bytes_less(a, a),
        bytes_less(a, b) ==> !bytes_less(b, a),
        a != b ==> bytes_less(a, b) || bytes_less(b, a),
    decreases a.len(),
{
    if a.len() > 0 {
        lemma_bytes_less_total(a.drop_first(), a.drop_first());
        if b.len() > 0 {
            lemma_bytes_less_total(a.drop_first(), b.drop_first());
            if a[0] == b[0] && a.drop_first() == b.drop_first() {
                assert(a =~= seq![a[0]] + a.drop_first());
                assert(b =~= seq![b[0]] + b.drop_first());
            }
        }
    } else if b.len() == 0 {
        assert(a =~= b);
    }
}

/// The order on byte strings is transitive.
pub proof fn lemma_bytes_less_transitive(a: Seq<u8>, b: Seq<u8>, c: Seq<u8>)
    requires
        bytes_less(a, b),
        bytes_less(b, c),
    ensures
        bytes_less(a, c),
    decreases a.len(),
{
    if a.len() > 0 && b.len() > 0 && c.len() > 0 && a[0] == b[0] && b[0] == c[0] {
        lemma_bytes_less_transitive(a.drop_first(), b.drop_first(), c.drop_first());
    }
}

/// Whether `a` sorts strictly before `b`, comparing bytes as `String` does.
pub fn text_lt(a: &str, b: &str) -> (r: bool)
    ensures
        r == text_less(a@, b@),
{
    let x = a.as_bytes();
    let y = b.as_bytes();
    let mut i: usize = 0;
    proof {
        assert(x@.skip(0) =~= x@);
        assert(y@.skip(0) =~= y@);
    }
    while i < x.len() && i < y.len()
        invariant
            i <= x@.len(),
            i <= y@.len(),
            x@ == encode_utf8(a@),
            y@ == encode_utf8(b@),
            bytes_less(x@, y@) == bytes_less(x@.skip(i as int), y@.skip(i as int)),
        decreases x.len() - i,
    {
        if x[i] != y[i] {
            return x[i] < y[i];
        }
        proof {
            assert(x@.skip(i as int).drop_first() =~= x@.skip(i + 1));
            assert(y@.skip(i as int).drop_first() =~= y@.skip(i + 1));
        }
        i = i + 1;
    }
    x.len() < y.len()
}

/// Index of the first name that a later name should precede.
pub open spec fn is_first_misplaced(names: Seq<Seq<char>>, k: int) -> bool {
    &&& 0 <= k < names.len()
    &&& exists|i: int| k < i < names.len() && #[trigger] text_less(names[i], names[k])
    &&& forall|m: int, i: int|
        0 <= m < k && m < i < names.len() ==> !#[trigger] text_less(names[i], names[m])
}

/// Whether no name should precede an earlier one.
pub open spec fn in_order(names: Seq<Seq<char>>) -> bool {
    forall|m: int, i: int| 0 <= m < i < names.len() ==> !#[trigger] text_less(names[i], names[m])
}

/// `j` is the first of the least names from position `k` on: the name a
/// stable sort puts at position `k`.
pub open spec fn is_first_least(names: Seq<Seq<char>>, k: int, j: int) -> bool {
    &&& 0 <= k <= j < names.len()
    &&& forall|i: int| k <= i < names.len() ==> !#[trigger] text_less(names[i], names[j])
    &&& forall|i: int| k <= i < j ==> #[trigger] text_less(names[j], names[i])
}

/// The views of a vector of strings.
pub open spec fn texts(v: Seq<String>) -> Seq<Seq<char>> {
    Seq::new(v.len(), |i: int| v[i]@)
}

/// Finds the first place where `names` is out of order: the index `k` of the
/// first name that a later one should precede, and the index of the name
/// that belongs at `k`.
pub fn find_misordered(names: &Vec<String>) -> (r: Option<(usize, usize)>)
    ensures
        r matches Some((k, j)) ==> is_first_misplaced(texts(names@), k as int) && is_first_least(
            texts(names@),
            k as int,
            j as int,
        ),
        r is None ==> in_order(texts(names@)),
{
    let ghost ns = texts(names@);
    let n = names.len();
    let mut k: usize = 0;
    while k < n
        invariant
            n == names.len(),
            ns == texts(names@),
            k <= n,
            forall|m: int, i: int| 0 <= m < k && m < i < n ==> !#[trigger] text_less(ns[i], ns[m]),
        decreases n - k,
    {
        let mut best = k;
        let mut i = k + 1;
        proof {
            lemma_bytes_less_total(encode_utf8(ns[k as int]), encode_utf8(ns[k as int]));
        }
        while i < n
            invariant
                n == names.len(),
                ns == texts(names@),
                k < n,
                k <= best < i <= n,
                forall|x: int| k <= x < i ==> !#[trigger] text_less(ns[x], ns[best as int]),
                forall|x: int| k <= x < best ==> #[trigger] text_less(ns[best as int], ns[x]),
            decreases n - i,
        {
            if text_lt(names[i].as_str(), names[best].as_str()) {
                proof {
                    assert forall|x: int| k <= x < i implies #[trigger] text_less(ns[i as int], ns[x]) by {
                        let ex = encode_utf8(ns[x]);
                        let eb = encode_utf8(ns[best as int]);
                        let ei = encode_utf8(ns[i as int]);
                        assert(!text_less(ns[x], ns[best as int]));
                        lemma_bytes_less_total(ex, eb);
                        if ex == eb {
                        } else {
                            lemma_bytes_less_transitive(ei, eb, ex);
                        }
                    }
                    assert forall|x: int| k <= x <= i implies !#[trigger] text_less(ns[x], ns[i as int]) by {
                        let ex = encode_utf8(ns[x]);
                        let ei = encode_utf8(ns[i as int]);
                        lemma_bytes_less_total(ei, ex);
                        if x < i {
                            assert(text_less(ns[i as int], ns[x]));
                        }
                    }
                }
                best = i;
            } else {
                proof {
                    assert forall|x: int| k <= x <= i implies !#[trigger] text_less(ns[x], ns[best as int]) by {
                    }
                }
            }
            i = i + 1;
        }
        if best != k {
            proof {
                assert(text_less(ns[best as int], ns[k as int]));
            }
            return Some((k, best));
        }
        proof {
            assert forall|m: int, x: int| 0 <= m < k + 1 && m < x < n implies !#[trigger] text_less(ns[x], ns[m]) by {
                if m == k {
                }
            }
        }
        k = k + 1;
    }
    None
}

/// A failed ordering check: where it points and what it reports.
pub struct SortError {
    /// Index of the item the diagnostic points at.
    pub index: usize,
    /// The diagnostic.
    pub message: String,
}

/// The diagnostic `{b} should sort before {a}`.
pub open spec fn should_sort_before(b: Seq<char>, a: Seq<char>) -> Seq<char> {
    b + " should sort before "@ + a
}

fn misorder_message(b: &str, a: &str) -> (r: String)
    ensures
        r@ == should_sort_before(b@, a@),
{
    let s = concat(b, " should sort before ");
    concat(s.as_str(), a)
}

/// A failed check names a later name that should come before an earlier
/// one: the name it points at sorts before the misplaced name, stands after
/// it, and the message says so.
pub proof fn law_error_names_an_earlier_sorting_name(names: Seq<Seq<char>>, e: SortError)
    requires
        order_check(names, Err(e)),
    ensures
        exists|k: int|
            0 <= k < e.index < names.len() && text_less(names[e.index as int], names[k])
                && e.message@ == should_sort_before(names[e.index as int], names[k]),
{
    let k = choose|k: int|
        is_first_misplaced(names, k) && is_first_least(names, k, e.index as int) && e.message@
            == should_sort_before(names[e.index as int], names[k]);
    let j = e.index as int;
    let i = choose|i: int| k < i < names.len() && #[trigger] text_less(names[i], names[k]);
    assert(!text_less(names[i], names[j]));
    if j == k {
        assert(false);
    }
    assert(text_less(names[j], names[k]));
}

/// Names in order stay in order when a name that sorts before none of them
/// is added at the end.
pub proof fn law_in_order_extends(names: Seq<Seq<char>>, x: Seq<char>)
    requires
        in_order(names),
        forall|i: int| 0 <= i < names.len() ==> !#[trigger] text_less(x, names[i]),
    ensures
        in_order(names.push(x)),
{
    let s = names.push(x);
    assert forall|m: int, i: int| 0 <= m < i < s.len() implies !#[trigger] text_less(s[i], s[m]) by {
        assert(s[m] == names[m]);
        if i < names.len() {
            assert(s[i] == names[i]);
        }
    }
}

/// The outcome of checking the names in order: `Ok` when they are in order,
/// otherwise an error pointing at the name that belongs at the first
/// misplaced position.
pub open spec fn order_check(names: Seq<Seq<char>>, r: Result<(), SortError>) -> bool {
    match r {
        Ok(()) => in_order(names),
        Err(e) => exists|k: int|
            is_first_misplaced(names, k) && is_first_least(names, k, e.index as int)
                && e.message@ == should_sort_before(names[e.index as int], names[k]),
    }
}

/// Checks that `names` are in order.
pub fn check_order(names: &Vec<String>) -> (r: Result<(), SortError>)
    ensures
        order_check(texts(names@), r),
{
    match find_misordered(names) {
        None => Ok(()),
        Some((k, j)) => {
            let message = misorder_message(names[j].as_str(), names[k].as_str());
            Err(SortError { index: j, message })
        },
    }
}

/// An item under `#[sorted]`.
pub enum SortedItem {
    /// An enum, by the names of its variants in order.
    Enum(Vec<String>),
    /// Any other item.
    Other,
}

/// Why `#[sorted]` rejects an item.
pub enum SortedFailure {
    /// The item is not an enum.
    NotAnEnum,
    /// The variants are out of order.
    Misordered(SortError),
}

impl SortedFailure {
    /// The diagnostic reported for the failure.
    pub fn message(&self) -> (r: String)
        ensures
            self is NotAnEnum ==> r@ == "expected enum or match expression"@,
            self matches SortedFailure::Misordered(e) ==> r@ == e.message@,
    {
        match self {
            SortedFailure::NotAnEnum => "expected enum or match expression".to_owned(),
            SortedFailure::Misordered(e) => e.message.clone(),
        }
    }
}

/// The `#[sorted]` check on items.
pub struct Sorted {}

impl Sorted {
    /// Accepts an enum whose variants are in order and rejects anything else.
    pub fn generate(item: &SortedItem) -> (r: Result<(), SortedFailure>)
        ensures
            item is Other ==> r matches Err(SortedFailure::NotAnEnum),
            item matches SortedItem::Enum(names) ==> match r {
                Ok(()) => order_check(texts(names@), Ok(())),
                Err(SortedFailure::Misordered(e)) => order_check(texts(names@), Err(e)),
                Err(SortedFailure::NotAnEnum) => false,
            },
    {
        match item {
            SortedItem::Enum(names) => match check_order(names) {
                Ok(()) => Ok(()),
                Err(e) => Err(SortedFailure::Misordered(e)),
            },
            SortedItem::Other => Err(SortedFailure::NotAnEnum),
        }
    }
}

/// The pattern of a `match` arm, as far as the ordering check reads it.
pub enum Pattern {
    /// A binding, by its name.
    Ident(String),
    /// A path, by its segments.
    Path(Vec<String>),
    /// A struct pattern, by the segments of its path.
    Struct(Vec<String>),
    /// A tuple struct pattern, by the segments of its path.
    TupleStruct(Vec<String>),
    /// The wildcard `_`.
    Wild,
    /// Any other pattern.
    Unsupported,
}

/// Path segments joined with `::`.
pub open spec fn joined(segs: Seq<Seq<char>>) -> Seq<char>
    decreases segs.len(),
{
    if segs.len() == 0 {
        seq![]
    } else if segs.len() == 1 {
        segs[0]
    } else {
        joined(segs.drop_last()) + "::"@ + segs.last()
    }
}

/// Joins path segments with `::`.
pub fn get_path_string(segments: &Vec<String>) -> (r: String)
    ensures
        r@ == joined(texts(segments@)),
{
    let mut r = String::new();
    let mut i: usize = 0;
    while i < segments.len()
        invariant
            i <= segments.len(),
            r@ == joined(texts(segments@).subrange(0, i as int)),
        decreases segments.len() - i,
    {
        proof {
            assert(texts(segments@).subrange(0, i + 1).drop_last() =~= texts(segments@).subrange(
                0,
                i as int,
            ));
        }
        if i == 0 {
            r = segments[0].clone();
            proof {
                assert(r@ == joined(texts(segments@).subrange(0, 1)));
            }
        } else {
            let with_sep = concat(r.as_str(), "::");
            r = concat(with_sep.as_str(), segments[i].as_str());
        }
        i = i + 1;
    }
    proof {
        assert(texts(segments@).subrange(0, segments.len() as int) =~= texts(segments@));
    }
    r
}

/// The name by which an arm is ordered: the binding, the path, or `_`;
/// `None` for patterns the check does not support.
pub open spec fn pattern_key(p: Pattern) -> Option<Seq<char>> {
    match p {
        Pattern::Ident(s) => Some(s@),
        Pattern::Path(v) => Some(joined(texts(v@))),
        Pattern::Struct(v) => Some(joined(texts(v@))),
        Pattern::TupleStruct(v) => Some(joined(texts(v@))),
        Pattern::Wild => Some(seq!['_']),
        Pattern::Unsupported => None,
    }
}

/// Only patterns other than bindings, paths, struct and tuple-struct
/// patterns and `_` are unsupported: every other pattern has an ordering key.
pub proof fn law_only_other_patterns_unsupported(p: Pattern)
    ensures
        pattern_key(p) is None <==> p is Unsupported,
{
}

/// A path pattern such as `Color::Red` is ordered by the same key as the
/// struct and tuple-struct patterns with that path (`Color::Red { .. }`,
/// `Color::Red(..)`), and a one-segment path by its name, like a binding.
pub proof fn law_path_patterns_keyed_by_path(v: Vec<String>)
    ensures
        pattern_key(Pattern::Path(v)) is Some,
        pattern_key(Pattern::Path(v)) == pattern_key(Pattern::TupleStruct(v)),
        pattern_key(Pattern::Path(v)) == pattern_key(Pattern::Struct(v)),
        v@.len() == 1 ==> pattern_key(Pattern::Path(v)) == Some(v@[0]@),
{
    if v@.len() == 1 {
        assert(texts(v@)[0] == v@[0]@);
    }
}

/// Arms whose patterns are paths are checked as the tuple-struct patterns
/// with the same paths would be: both are accepted or both point at the same
/// arm with the same message.
pub proof fn law_path_arms_checked_like_tuple_struct_arms(
    paths: Seq<Vec<String>>,
    r: Option<SortError>,
)
    ensures
        arms_check(Seq::new(paths.len(), |i: int| Pattern::Path(paths[i])), r) == arms_check(
            Seq::new(paths.len(), |i: int| Pattern::TupleStruct(paths[i])),
            r,
        ),
{
    let a = Seq::new(paths.len(), |i: int| Pattern::Path(paths[i]));
    let b = Seq::new(paths.len(), |i: int| Pattern::TupleStruct(paths[i]));
    assert forall|i: int| 0 <= i < paths.len() implies #[trigger] pattern_key(a[i]) == pattern_key(b[i]) by {
        law_path_patterns_keyed_by_path(paths[i]);
    }
    let ka = Seq::new(a.len(), |i: int| pattern_key(a[i]).unwrap());
    let kb = Seq::new(b.len(), |i: int| pattern_key(b[i]).unwrap());
    assert(ka =~= kb);
    assert(!(exists|i: int| 0 <= i < a.len() && #[trigger] pattern_key(a[i]) is None));
    assert(!(exists|i: int| 0 <= i < b.len() && #[trigger] pattern_key(b[i]) is None));
}

/// The name by which an arm is ordered.
pub fn get_pat_path(pat: &Pattern) -> (r: Option<String>)
    ensures
        r matches Some(s) ==> pattern_key(*pat) == Some(s@),
        r is None ==> pattern_key(*pat) is None,
{
    match pat {
        Pattern::Ident(s) => Some(s.clone()),
        Pattern::Path(v) => Some(get_path_string(v)),
        Pattern::Struct(v) => Some(get_path_string(v)),
        Pattern::TupleStruct(v) => Some(get_path_string(v)),
        Pattern::Wild => {
            proof {
                reveal_strlit("_");
            }
            Some("_".to_owned())
        },
        Pattern::Unsupported => None,
    }
}

/// The error the arms produce, if any: the first unsupported pattern, or the
/// first misplaced arm.
pub open spec fn arms_check(arms: Seq<Pattern>, r: Option<SortError>) -> bool {
    if exists|i: int| 0 <= i < arms.len() && #[trigger] pattern_key(arms[i]) is None {
        r matches Some(e) && 0 <= e.index < arms.len() && pattern_key(arms[e.index as int]) is None
            && (forall|i: int| 0 <= i < e.index ==> #[trigger] pattern_key(arms[i]) is Some)
            && e.message@ == "unsupported by #[sorted]"@
    } else {
        let keys = Seq::new(arms.len(), |i: int| pattern_key(arms[i]).unwrap());
        match r {
            None => in_order(keys),
            Some(e) => order_check(keys, Err(e)),
        }
    }
}

/// The error the arms of a `match` produce, if any.
fn arms_error(arms: &Vec<Pattern>) -> (r: Option<SortError>)
    ensures
        arms_check(arms@, r),
{
    let ghost ps = arms@;
    let mut keys: Vec<String> = Vec::new();
    let mut i: usize = 0;
    while i < arms.len()
        invariant
            i <= arms.len(),
            ps == arms@,
            keys.len() == i,
            forall|j: int| 0 <= j < i ==> pattern_key(ps[j]) == Some(#[trigger] keys@[j]@),
        decreases arms.len() - i,
    {
        match get_pat_path(&arms[i]) {
            Some(k) => {
                keys.push(k);
            },
            None => {
                proof {
                    reveal_strlit("unsupported by #[sorted]");
                    assert(pattern_key(ps[i as int]) is None);
                    assert forall|j: int| 0 <= j < i implies #[trigger] pattern_key(ps[j]) is Some by {
                        assert(pattern_key(ps[j]) == Some(keys@[j]@));
                    }
                }
                return Some(SortError { index: i, message: "unsupported by #[sorted]".to_owned() });
            },
        }
        i = i + 1;
    }
    let ghost ks = Seq::new(arms@.len(), |i: int| pattern_key(arms@[i]).unwrap());
    proof {
        assert forall|j: int| 0 <= j < arms@.len() implies #[trigger] pattern_key(ps[j]) is Some by {
            assert(pattern_key(ps[j]) == Some(keys@[j]@));
        }
        assert(texts(keys@) =~= ks);
    }
    match check_order(&keys) {
        Ok(()) => None,
        Err(e) => Some(e),
    }
}

/// What to do with a `match` expression met while walking a function.
pub struct MatchDecision {
    /// Index of the `#[sorted]` attribute to remove, if there is one.
    pub remove: Option<usize>,
    /// Whether the arms of this expression produced the recorded error.
    pub failed: bool,
    /// Whether to walk into the expression.
    pub descend: bool,
}

/// The `#[sorted]` check on the `match` expressions of a function.
pub struct Check {
    /// The last error found.
    pub err: Option<SortError>,
}

impl Check {
    /// A check that has found nothing yet.
    pub fn new() -> (r: Self)
        ensures
            r.err is None,
    {
        Check { err: None }
    }

    /// Checks the arms of one `match`, recording an error if there is one;
    /// tells whether it recorded one.
    pub fn check_sort_arms(&mut self, arms: &Vec<Pattern>) -> (r: bool)
        ensures
            !r ==> arms_check(arms@, None) && final(self).err == old(self).err,
            r ==> (final(self).err matches Some(e) && arms_check(arms@, Some(e))),
    {
        match arms_error(arms) {
            Some(e) => {
                self.err = Some(e);
                true
            },
            None => false,
        }
    }

    /// Handles a `match` expression with the given attribute paths and arm
    /// patterns: a first attribute `sorted` is removed and the arms checked;
    /// the walk goes into the expression unless an error has been found.
    pub fn visit_match(&mut self, attr_paths: &Vec<Vec<String>>, arms: &Vec<Pattern>) -> (r:
        MatchDecision)
        ensures
            r.remove matches Some(i) ==> i < attr_paths.len() && joined(texts(attr_paths@[i as int]@))
                == "sorted"@ && forall|j: int|
                0 <= j < i ==> joined(texts(#[trigger] attr_paths@[j]@)) != "sorted"@,
            r.remove is None ==> forall|j: int|
                0 <= j < attr_paths.len() ==> joined(texts(#[trigger] attr_paths@[j]@)) != "sorted"@,
            r.remove is None ==> final(self).err == old(self).err && r.descend,
            r.remove is Some ==> r.descend == (final(self).err is None),
            r.remove is None ==> !r.failed,
            r.remove is Some && !r.failed ==> arms_check(arms@, None) && final(self).err == old(self).err,
            r.failed ==> (final(self).err matches Some(e) && arms_check(arms@, Some(e))),
    {
        let mut i: usize = 0;
        while i < attr_paths.len()
            invariant
                i <= attr_paths.len(),
                *self == *old(self),
                forall|j: int|
                    0 <= j < i ==> joined(texts(#[trigger] attr_paths@[j]@)) != "sorted"@,
            decreases attr_paths.len() - i,
        {
            let p = get_path_string(&attr_paths[i]);
            if same_text(p.as_str(), "sorted") {
                let failed = self.check_sort_arms(arms);
                let descend = self.err.is_none();
                return MatchDecision { remove: Some(i), failed, descend };
            }
            i = i + 1;
        }
        MatchDecision { remove: None, failed: false, descend: true }
    }
}

} // verus!
