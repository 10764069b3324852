//! A parsed JSON document, modelled as a tree the verifier can reason about.
//!
//! The exec type [`Json`] mirrors what the parser hands back: objects keep
//! their entries as a list of key/value pairs, but the mathematical view
//! collapses an object to a `Map`, since the parser makes no promise about
//! the order in which an object's entries come out. An object that repeats
//! a key keeps both entries in the list; lookups and the map view agree on
//! taking the earliest one.

use vstd::prelude::*;
use simd_json::BorrowedValue;
use simd_json::StaticNode;

verus! {

broadcast use
    vstd::seq::group_seq_axioms,
    vstd::std_specs::vec::group_vec_axioms,
    vstd::map::group_map_axioms;

/// The mathematical value of a JSON document.
///
/// Floating-point numbers never feed the fields this library extracts, so
/// they are kept only as an opaque marker variant.
pub enum JsonModel {
    Null,
    Bool(bool),
    UInt(u64),
    Int(i64),
    Float,
    Str(Seq<char>),
    Arr(Seq<JsonModel>),
    Obj(Map<Seq<char>, JsonModel>),
}

/// A JSON value as held at run time.
pub enum Json {
    Null,
    Bool(bool),
    UInt(u64),
    Int(i64),
    Float,
    Str(String),
    Arr(Vec<Json>),
    Obj(Vec<(String, Json)>),
}

/// The model of a run-time JSON value.
pub open spec fn jview(j: Json) -> JsonModel
    decreases j,
{
    match j {
        Json::Null => JsonModel::Null,
        Json::Bool(b) => JsonModel::Bool(b),
        Json::UInt(n) => JsonModel::UInt(n),
        Json::Int(n) => JsonModel::Int(n),
        Json::Float => JsonModel::Float,
        Json::Str(s) => JsonModel::Str(s@),
        Json::Arr(v) => JsonModel::Arr(arr_view(v@)),
        Json::Obj(v) => JsonModel::Obj(assoc_view(v@)),
    }
}

/// The models of an array's elements, in order.
pub open spec fn arr_view(s: Seq<Json>) -> Seq<JsonModel>
    decreases s,
{
    if s.len() == 0 {
        Seq::empty()
    } else {
        seq![jview(s[0])] + arr_view(s.drop_first())
    }
}

/// The map an entry list stands for. When a key is repeated, the earliest
/// entry wins, which is also what the lookup below returns.
pub open spec fn assoc_view(s: Seq<(String, Json)>) -> Map<Seq<char>, JsonModel>
    decreases s,
{
    if s.len() == 0 {
        Map::empty()
    } else {
        assoc_view(s.drop_first()).insert(s[0].0@, jview(s[0].1))
    }
}

impl View for Json {
    type V = JsonModel;

    open spec fn view(&self) -> JsonModel {
        jview(*self)
    }
}

/// Each object of the tree lists every key at most once. The parser keeps
/// both entries of a repeated key, so this holds of a parsed tree exactly
/// when no object of the document repeats a key.
pub open spec fn distinct_keys(j: Json) -> bool
    decreases j,
{
    match j {
        Json::Arr(v) => elems_distinct_keys(v@),
        Json::Obj(v) => keys_unique(v@) && entries_distinct_keys(v@),
        _ => true,
    }
}

pub open spec fn elems_distinct_keys(s: Seq<Json>) -> bool
    decreases s,
{
    s.len() == 0 || (distinct_keys(s[0]) && elems_distinct_keys(s.drop_first()))
}

pub open spec fn entries_distinct_keys(s: Seq<(String, Json)>) -> bool
    decreases s,
{
    s.len() == 0 || (distinct_keys(s[0].1) && entries_distinct_keys(s.drop_first()))
}

pub open spec fn keys_unique(s: Seq<(String, Json)>) -> bool {
    forall|i: int, k: int| 0 <= i < k < s.len() ==> s[i].0@ != s[k].0@
}

/// Whether a byte buffer parses, and — for a document in which no object
/// repeats a key — its model. Parse success depends on the bytes alone.
/// For bytes whose document does repeat a key inside some object, only the
/// `Some`ness of this value is pinned: which of the repeated entries the
/// parser's map hands back first is not a function of the bytes, so no
/// model is promised for such a document.
pub uninterp spec fn json_doc_of(bytes: Seq<u8>) -> Option<JsonModel>;

/// Relies on simd_json's `BorrowedValue`: the parsed form that this
/// module's own [`Json`] tree is rebuilt from.
#[verifier::external_type_specification]
#[verifier::external_body]
pub struct ExBorrowedValue<'a>(BorrowedValue<'a>);

/// Relies on simd_json's `BorrowedValue`: rebuilds a parsed value as this
/// module's own tree, variant by variant. Object entries come out in
/// whatever order the parser's map yields them; as long as each key is
/// unique in its object, the model of the result does not depend on that
/// order.
#[verifier::external_body]
fn json_of_borrowed(v: &BorrowedValue) -> Json {
    match v {
        BorrowedValue::Static(StaticNode::Null) => Json::Null,
        BorrowedValue::Static(StaticNode::Bool(b)) => Json::Bool(*b),
        BorrowedValue::Static(StaticNode::I64(n)) => Json::Int(*n),
        BorrowedValue::Static(StaticNode::U64(n)) => Json::UInt(*n),
        BorrowedValue::Static(_) => Json::Float,
        BorrowedValue::String(s) => Json::Str(s.to_string()),
        BorrowedValue::Array(a) => Json::Arr(a.iter().map(json_of_borrowed).collect()),
        BorrowedValue::Object(o) => Json::Obj(
            o.iter().map(|(k, x)| (k.to_string(), json_of_borrowed(x))).collect(),
        ),
    }
}

/// Relies on `simd_json::to_borrowed_value`: whether a parse succeeds
/// depends on the buffer's bytes alone (it succeeds on well-formed JSON
/// within the parser's fixed nesting-depth limit, and on nothing else).
/// The returned tree's model is tied to the bytes only when no object of
/// the tree repeats a key: the parser stores a repeated key twice, and the
/// order in which its object map hands entries back can vary from parse to
/// parse, so the model of such a document is left open. With every key
/// unique, the model collapses the entry order away and two parses of
/// equal bytes agree on it. The parser rewrites the buffer in place while
/// it works, so nothing is promised of the buffer afterwards.
#[verifier::external_body]
pub(crate) fn parse_document(buf: &mut Vec<u8>) -> (r: Option<Json>)
    ensures
        (r is Some) <==> (json_doc_of(old(buf)@) is Some),
        r matches Some(j) ==> (distinct_keys(j) ==> (json_doc_of(old(buf)@) matches Some(m)
            && jview(j) == m)),
{
    match simd_json::to_borrowed_value(buf.as_mut_slice()) {
        Ok(v) => Some(json_of_borrowed(&v)),
        Err(_) => None,
    }
}

/// Looking a key up in a JSON value: `Some` exactly when the value is an
/// object that has the key.
pub open spec fn obj_get(m: JsonModel, key: Seq<char>) -> Option<JsonModel> {
    match m {
        JsonModel::Obj(o) => if o.contains_key(key) {
            Some(o[key])
        } else {
            None
        },
        _ => None,
    }
}

/// The number a JSON value stands for, when it fits in a `u64`.
pub open spec fn num_as_u64(m: JsonModel) -> Option<u64> {
    match m {
        JsonModel::UInt(n) => Some(n),
        JsonModel::Int(i) => if i >= 0 {
            Some(i as u64)
        } else {
            None
        },
        _ => None,
    }
}

pub proof fn lemma_arr_view(s: Seq<Json>)
    ensures
        arr_view(s).len() == s.len(),
        forall|i: int| 0 <= i < s.len() ==> arr_view(s)[i] == jview(s[i]),
    decreases s.len(),
{
    if s.len() > 0 {
        lemma_arr_view(s.drop_first());
    }
}

proof fn lemma_assoc_found(s: Seq<(String, Json)>, key: Seq<char>, i: int)
    requires
        0 <= i < s.len(),
        s[i].0@ == key,
        forall|j: int| 0 <= j < i ==> s[j].0@ != key,
    ensures
        assoc_view(s).contains_key(key),
        assoc_view(s)[key] == jview(s[i].1),
    decreases i,
{
    if i > 0 {
        lemma_assoc_found(s.drop_first(), key, i - 1);
    }
}

proof fn lemma_assoc_absent(s: Seq<(String, Json)>, key: Seq<char>)
    requires
        forall|j: int| 0 <= j < s.len() ==> s[j].0@ != key,
    ensures
        !assoc_view(s).contains_key(key),
    decreases s.len(),
{
    if s.len() > 0 {
        lemma_assoc_absent(s.drop_first(), key);
    }
}

/// Character-by-character string equality, so that key comparisons carry a
/// proved relation to the string views.
pub fn str_eq(a: &str, b: &str) -> (r: bool)
    ensures
        r == (a@ == b@),
{
    let alen = a.unicode_len();
    let blen = b.unicode_len();
    if alen != blen {
        return false;
    }
    let mut i: usize = 0;
    while i < alen
        invariant
            alen == a@.len(),
            blen == b@.len(),
            alen == blen,
            i <= alen,
            forall|j: int| 0 <= j < i ==> a@[j] == b@[j],
        decreases alen - i,
    {
        if a.get_char(i) != b.get_char(i) {
            return false;
        }
        i = i + 1;
    }
    proof {
        assert(a@ =~= b@);
    }
    true
}

impl Json {
    /// The value under `key`, when this value is an object that has it.
    /// When a key is repeated the earliest entry is returned, matching the
    /// model in [`assoc_view`].
    pub fn get<'a>(&'a self, key: &str) -> (r: Option<&'a Json>)
        ensures
            match r {
                Some(j) => obj_get(self@, key@) == Some(jview(*j)),
                None => obj_get(self@, key@) is None,
            },
    {
        match self {
            Json::Obj(entries) => {
                let n = entries.len();
                let mut i: usize = 0;
                while i < n
                    invariant
                        n == entries@.len(),
                        i <= n,
                        jview(*self) == JsonModel::Obj(assoc_view(entries@)),
                        forall|j: int| 0 <= j < i ==> entries@[j].0@ != key@,
                    decreases n - i,
                {
                    let e = &entries[i];
                    if str_eq(e.0.as_str(), key) {
                        proof {
                            lemma_assoc_found(entries@, key@, i as int);
                        }
                        return Some(&e.1);
                    }
                    i = i + 1;
                }
                proof {
                    lemma_assoc_absent(entries@, key@);
                }
                None
            },
            _ => None,
        }
    }

    /// The string this value holds, when it is a string.
    pub fn as_str(&self) -> (r: Option<&String>)
        ensures
            match r {
                Some(s) => self@ == JsonModel::Str(s@),
                None => !(self@ is Str),
            },
    {
        match self {
            Json::Str(s) => Some(s),
            _ => None,
        }
    }

    /// The number this value holds, when it is an integer that fits in a
    /// `u64`. A negative integer, a float, or any other shape gives `None`.
    pub fn as_u64(&self) -> (r: Option<u64>)
        ensures
            r == num_as_u64(self@),
    {
        match self {
            Json::UInt(n) => Some(*n),
            Json::Int(i) => if *i >= 0 {
                Some(*i as u64)
            } else {
                None
            },
            _ => None,
        }
    }

    /// The elements of this value, when it is an array.
    pub fn as_arr(&self) -> (r: Option<&Vec<Json>>)
        ensures
            match r {
                Some(v) => self@ == JsonModel::Arr(arr_view(v@)),
                None => !(self@ is Arr),
            },
    {
        match self {
            Json::Arr(v) => Some(v),
            _ => None,
        }
    }
}

} // verus!
