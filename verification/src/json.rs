//! JSON values, held by `serde_json` and described by a mathematical value.

use vstd::prelude::*;
use vstd::utf8::*;

use crate::keyed::{lex_before, lemma_lex_irreflexive, lemma_lex_total, lemma_lex_transitive};
use crate::text::{dec_int, opt_view, views};

verus! {

/// A JSON value of `serde_json`.
#[verifier::external_type_specification]
#[verifier::external_body]
pub struct ExValue(serde_json::Value);

/// The members of a JSON object of `serde_json`.
#[verifier::external_type_specification]
#[verifier::external_body]
#[verifier::reject_recursive_types(K)]
#[verifier::reject_recursive_types(V)]
pub struct ExMap<K, V>(serde_json::Map<K, V>);

/// A JSON value. A number that is no integer is described by the bits of its binary form.
pub enum JsonView {
    Null,
    Bool(bool),
    Int(int),
    Float(u64),
    Str(Seq<char>),
    Array(Seq<JsonView>),
    Object(Map<Seq<char>, JsonView>),
}

/// The JSON value that a `serde_json::Value` holds.
pub uninterp spec fn value_view(v: serde_json::Value) -> JsonView;

/// The members that a `serde_json::Map` holds.
pub uninterp spec fn map_view(m: serde_json::Map<String, serde_json::Value>) -> Map<
    Seq<char>,
    JsonView,
>;

/// The compact text of a JSON value.
pub uninterp spec fn json_text(v: JsonView) -> Seq<char>;

/// What a text denotes as JSON: a value, or the message of the error.
pub uninterp spec fn parsed_json(text: Seq<char>) -> Result<JsonView, Seq<char>>;

/// What a byte string denotes as JSON: a value, or the message of the error.
pub uninterp spec fn parsed_json_bytes(bytes: Seq<u8>) -> Result<JsonView, Seq<char>>;

/// The values that a list of `serde_json::Value` holds.
pub open spec fn value_views(s: Seq<serde_json::Value>) -> Seq<JsonView> {
    s.map_values(|v: serde_json::Value| value_view(v))
}

/// The members of an empty object.
pub open spec fn no_members() -> Map<Seq<char>, JsonView> {
    Map::empty()
}

// ---------------------------------------------------------------------------
// Flat objects

/// A value that a flat object can have.
pub enum FlatView {
    Text(Seq<char>),
    Number(int),
    Texts(Seq<Seq<char>>),
}

/// Whether a text stands for itself between quotes: it holds no quote, no backslash and no
/// control character.
pub open spec fn is_plain(s: Seq<char>) -> bool {
    forall|i: int|
        0 <= i < s.len() ==> (#[trigger] s[i]) != '"' && s[i] != '\\' && s[i] as u32 >= 0x20
}

/// A text in quotes.
pub open spec fn quoted(s: Seq<char>) -> Seq<char> {
    "\""@ + s + "\""@
}

/// Texts in quotes, with commas between them.
pub open spec fn quoted_list(v: Seq<Seq<char>>) -> Seq<char>
    decreases v.len(),
{
    if v.len() == 0 {
        Seq::empty()
    } else if v.len() == 1 {
        quoted(v[0])
    } else {
        quoted_list(v.drop_last()) + ","@ + quoted(v.last())
    }
}

impl FlatView {
    /// Whether the texts are plain and the number fits in 64 bits.
    pub open spec fn wf(self) -> bool {
        match self {
            FlatView::Text(s) => is_plain(s),
            FlatView::Number(n) => i64::MIN <= n <= i64::MAX,
            FlatView::Texts(v) => forall|i: int| 0 <= i < v.len() ==> is_plain(#[trigger] v[i]),
        }
    }

    /// The value.
    pub open spec fn value(self) -> JsonView {
        match self {
            FlatView::Text(s) => JsonView::Str(s),
            FlatView::Number(n) => JsonView::Int(n),
            FlatView::Texts(v) => text_array(v),
        }
    }

    /// The value as it is written.
    pub open spec fn written(self) -> Seq<char> {
        match self {
            FlatView::Text(s) => quoted(s),
            FlatView::Number(n) => dec_int(n),
            FlatView::Texts(v) => "["@ + quoted_list(v) + "]"@,
        }
    }
}

/// Whether the names and values of a flat object are plain.
pub open spec fn is_flat(m: Seq<(Seq<char>, FlatView)>) -> bool {
    forall|i: int| 0 <= i < m.len() ==> is_plain((#[trigger] m[i]).0) && m[i].1.wf()
}

/// One member of a flat object as it is written.
pub open spec fn flat_member(e: (Seq<char>, FlatView)) -> Seq<char> {
    quoted(e.0) + ":"@ + e.1.written()
}

/// The members of a flat object as they are written, with commas between them.
pub open spec fn flat_inner(m: Seq<(Seq<char>, FlatView)>) -> Seq<char>
    decreases m.len(),
{
    if m.len() == 0 {
        Seq::empty()
    } else if m.len() == 1 {
        flat_member(m[0])
    } else {
        flat_inner(m.drop_last()) + ","@ + flat_member(m.last())
    }
}

/// A flat object as it is written.
pub open spec fn flat_text(m: Seq<(Seq<char>, FlatView)>) -> Seq<char> {
    "{"@ + flat_inner(m) + "}"@
}

/// The members of a flat object; of two with one name the later counts.
pub open spec fn flat_members(m: Seq<(Seq<char>, FlatView)>) -> Map<Seq<char>, JsonView>
    decreases m.len(),
{
    if m.len() == 0 {
        Map::empty()
    } else {
        flat_members(m.drop_last()).insert(m.last().0, m.last().1.value())
    }
}

/// Whether bytes that are a flat object as it is written were read as that object.
pub open spec fn reads_flat(bytes: Seq<u8>, parsed: Result<JsonView, Seq<char>>) -> bool {
    forall|m: Seq<(Seq<char>, FlatView)>|
        is_flat(m) && bytes == encode_utf8(#[trigger] flat_text(m)) ==> parsed == Ok::<
            JsonView,
            Seq<char>,
        >(JsonView::Object(flat_members(m)))
}

// ---------------------------------------------------------------------------
// Calls into serde_json

/// `serde_json::from_str` reads a text as JSON. Claimed: what comes out, value or message,
/// depends on the text alone.
#[verifier::external_body]
fn value_from_str(text: &str) -> (r: Result<serde_json::Value, String>)
    ensures
        match r {
            Ok(v) => parsed_json(text@) == Ok::<JsonView, Seq<char>>(value_view(v)),
            Err(e) => parsed_json(text@) == Err::<JsonView, Seq<char>>(e@),
        },
{
    match serde_json::from_str(text) {
        Ok(v) => Ok(v),
        Err(e) => Err(e.to_string()),
    }
}

/// `serde_json::from_slice` reads bytes as JSON. Claimed: what comes out, value or message,
/// depends on the bytes alone, the bytes of a text are read as the text is, and a flat object
/// (whose values are plain texts, integers of 64 bits and lists of plain texts) that is written
/// without white space is read as its members, the later of two with one name.
#[verifier::external_body]
fn value_from_slice(bytes: &[u8]) -> (r: Result<serde_json::Value, String>)
    ensures
        match r {
            Ok(v) => parsed_json_bytes(bytes@) == Ok::<JsonView, Seq<char>>(value_view(v)),
            Err(e) => parsed_json_bytes(bytes@) == Err::<JsonView, Seq<char>>(e@),
        },
        valid_utf8(bytes@) ==> match r {
            Ok(v) => parsed_json(decode_utf8(bytes@)) == Ok::<JsonView, Seq<char>>(value_view(v)),
            Err(e) => parsed_json(decode_utf8(bytes@)) == Err::<JsonView, Seq<char>>(e@),
        },
        reads_flat(
            bytes@,
            match r {
                Ok(v) => Ok(value_view(v)),
                Err(e) => Err(e@),
            },
        ),
{
    match serde_json::from_slice(bytes) {
        Ok(v) => Ok(v),
        Err(e) => Err(e.to_string()),
    }
}

/// `Value::to_string` writes a value as compact text. Claimed: the text depends on the value
/// alone.
#[verifier::external_body]
fn value_to_string(v: &serde_json::Value) -> (r: String)
    ensures
        r@ == json_text(value_view(*v)),
{
    v.to_string()
}

/// `Value::clone` copies a value.
#[verifier::external_body]
fn value_clone(v: &serde_json::Value) -> (r: serde_json::Value)
    ensures
        value_view(r) == value_view(*v),
{
    v.clone()
}

/// `Value::Null` is the null value.
#[verifier::external_body]
fn value_null() -> (r: serde_json::Value)
    ensures
        value_view(r) == JsonView::Null,
{
    serde_json::Value::Null
}

/// `Value::from(bool)` makes a truth value.
#[verifier::external_body]
fn value_from_bool(b: bool) -> (r: serde_json::Value)
    ensures
        value_view(r) == JsonView::Bool(b),
{
    serde_json::Value::from(b)
}

/// `Value::from(u64)` makes a number.
#[verifier::external_body]
fn value_from_u64(n: u64) -> (r: serde_json::Value)
    ensures
        value_view(r) == JsonView::Int(n as int),
{
    serde_json::Value::from(n)
}

/// `Value::from(&str)` makes a string.
#[verifier::external_body]
fn value_from_text(s: &str) -> (r: serde_json::Value)
    ensures
        value_view(r) == JsonView::Str(s@),
{
    serde_json::Value::from(s)
}

/// `Value::Array` makes an array of values, in order.
#[verifier::external_body]
fn value_from_vec(items: Vec<serde_json::Value>) -> (r: serde_json::Value)
    ensures
        value_view(r) == JsonView::Array(value_views(items@)),
{
    serde_json::Value::Array(items)
}

/// `Value::Object` makes an object of members.
#[verifier::external_body]
fn value_from_map(m: serde_json::Map<String, serde_json::Value>) -> (r: serde_json::Value)
    ensures
        value_view(r) == JsonView::Object(map_view(m)),
{
    serde_json::Value::Object(m)
}

/// `Map::new` makes an empty set of members.
#[verifier::external_body]
fn map_new() -> (r: serde_json::Map<String, serde_json::Value>)
    ensures
        map_view(r) == no_members(),
{
    serde_json::Map::new()
}

/// `Map::insert` sets a member, in place of an earlier one of the same name.
#[verifier::external_body]
fn map_insert(
    m: serde_json::Map<String, serde_json::Value>,
    k: String,
    v: serde_json::Value,
) -> (r: serde_json::Map<String, serde_json::Value>)
    ensures
        map_view(r) == map_view(m).insert(k@, value_view(v)),
{
    let mut r = m;
    r.insert(k, v);
    r
}

/// Indexing a `Value` by a name gives the member of that name; null where the value is no object
/// or has no such member.
#[verifier::external_body]
fn value_index<'a>(v: &'a serde_json::Value, key: &str) -> (r: &'a serde_json::Value)
    ensures
        value_view(*r) == value_view(*v).member(key@),
{
    &v[key]
}

/// `Value::as_str` gives the text of a string, and nothing for other values.
#[verifier::external_body]
fn value_as_str(v: &serde_json::Value) -> (r: Option<&str>)
    ensures
        match r {
            Some(s) => value_view(*v).as_text() == Some(s@),
            None => value_view(*v).as_text() is None,
        },
{
    v.as_str()
}

/// `Value::as_u64` gives the value of an integer that is not negative, and nothing for other
/// values.
#[verifier::external_body]
fn value_as_u64(v: &serde_json::Value) -> (r: Option<u64>)
    ensures
        match r {
            Some(n) => value_view(*v).as_unsigned() == Some(n as int),
            None => value_view(*v).as_unsigned() is None,
        },
{
    v.as_u64()
}

/// `Value::as_i64` gives the value of an integer that is at most the largest signed one of 64
/// bits, and nothing for other values.
#[verifier::external_body]
fn value_as_i64(v: &serde_json::Value) -> (r: Option<i64>)
    ensures
        match r {
            Some(n) => value_view(*v).as_signed() == Some(n as int),
            None => value_view(*v).as_signed() is None,
        },
{
    v.as_i64()
}

/// `Value::as_array` gives the items of an array, and nothing for other values.
#[verifier::external_body]
fn value_as_array(v: &serde_json::Value) -> (r: Option<&Vec<serde_json::Value>>)
    ensures
        match r {
            Some(items) => value_view(*v).as_items() == Some(value_views(items@)),
            None => value_view(*v).as_items() is None,
        },
{
    v.as_array()
}

/// `Value::as_object` and `Map::iter` give the members of an object, each once and in ascending
/// order of names (the members are kept in a `BTreeMap`), and nothing for other values.
#[verifier::external_body]
fn value_members(v: &serde_json::Value) -> (r: Option<Vec<(String, serde_json::Value)>>)
    ensures
        match r {
            Some(e) => value_view(*v).as_members() matches Some(m) && is_listing(
                member_views(e@),
                m,
            ),
            None => value_view(*v).as_members() is None,
        },
{
    v.as_object().map(|m| m.iter().map(|(k, x)| (k.clone(), x.clone())).collect())
}

// ---------------------------------------------------------------------------
// Reading values

/// The names and values of members, as values.
pub open spec fn member_views(e: Seq<(String, serde_json::Value)>) -> Seq<(Seq<char>, JsonView)> {
    Seq::new(e.len(), |i: int| (e[i].0@, value_view(e[i].1)))
}

/// Whether `e` lists the members `m`, each once, in ascending order of names.
pub open spec fn is_listing(e: Seq<(Seq<char>, JsonView)>, m: Map<Seq<char>, JsonView>) -> bool {
    &&& forall|i: int, j: int|
        0 <= i < j < e.len() ==> lex_before(#[trigger] e[i].0, #[trigger] e[j].0)
    &&& forall|i: int|
        0 <= i < e.len() ==> m.contains_key((#[trigger] e[i]).0) && m[e[i].0] == e[i].1
    &&& forall|k: Seq<char>| #[trigger]
        m.contains_key(k) ==> exists|i: int| 0 <= i < e.len() && (#[trigger] e[i]).0 == k
}

/// The members `m`, each once, in ascending order of names.
pub open spec fn listing(m: Map<Seq<char>, JsonView>) -> Seq<(Seq<char>, JsonView)> {
    choose|e: Seq<(Seq<char>, JsonView)>| is_listing(e, m)
}

/// There is but one listing of an object's members.
pub proof fn lemma_listing_unique(
    a: Seq<(Seq<char>, JsonView)>,
    b: Seq<(Seq<char>, JsonView)>,
    m: Map<Seq<char>, JsonView>,
)
    requires
        is_listing(a, m),
        is_listing(b, m),
    ensures
        a == b,
{
    lemma_listing_prefix(a, b, m, if a.len() <= b.len() {
        a.len() as int
    } else {
        b.len() as int
    });
    lemma_listing_no_longer(a, b, m);
    lemma_listing_no_longer(b, a, m);
    assert(a =~= b);
}

proof fn lemma_listing_no_longer(
    a: Seq<(Seq<char>, JsonView)>,
    b: Seq<(Seq<char>, JsonView)>,
    m: Map<Seq<char>, JsonView>,
)
    requires
        is_listing(a, m),
        is_listing(b, m),
        forall|i: int| 0 <= i < a.len() && i < b.len() ==> a[i] == b[i],
    ensures
        a.len() <= b.len(),
{
    if a.len() > b.len() {
        let k = a[b.len() as int].0;
        assert(m.contains_key(k));
        let j = choose|j: int| 0 <= j < b.len() && (#[trigger] b[j]).0 == k;
        assert(a[j] == b[j]);
        assert(lex_before(a[j].0, a[b.len() as int].0));
        lemma_lex_irreflexive(k);
    }
}

proof fn lemma_listing_prefix(
    a: Seq<(Seq<char>, JsonView)>,
    b: Seq<(Seq<char>, JsonView)>,
    m: Map<Seq<char>, JsonView>,
    n: int,
)
    requires
        is_listing(a, m),
        is_listing(b, m),
        0 <= n <= a.len(),
        n <= b.len(),
    ensures
        forall|i: int| 0 <= i < n ==> a[i] == b[i],
    decreases n,
{
    if n > 0 {
        lemma_listing_prefix(a, b, m, n - 1);
        let i = n - 1;
        lemma_lex_total(a[i].0, b[i].0);
        lemma_listing_skips(a, b, m, i);
        lemma_listing_skips(b, a, m, i);
        assert(a[i].1 == m[a[i].0] && b[i].1 == m[b[i].0]);
    }
}

proof fn lemma_listing_skips(
    a: Seq<(Seq<char>, JsonView)>,
    b: Seq<(Seq<char>, JsonView)>,
    m: Map<Seq<char>, JsonView>,
    i: int,
)
    requires
        is_listing(a, m),
        is_listing(b, m),
        0 <= i < a.len(),
        i < b.len(),
        forall|j: int| 0 <= j < i ==> a[j] == b[j],
    ensures
        !lex_before(a[i].0, b[i].0),
{
    let k = a[i].0;
    assert(m.contains_key(k));
    let j = choose|j: int| 0 <= j < b.len() && (#[trigger] b[j]).0 == k;
    lemma_lex_irreflexive(k);
    if j < i {
        assert(a[j] == b[j]);
        assert(lex_before(a[j].0, a[i].0));
    } else if j > i {
        assert(lex_before(b[i].0, b[j].0));
        if lex_before(k, b[i].0) {
            lemma_lex_transitive(k, b[i].0, b[j].0);
        }
    }
}

/// Where a name belongs in a listing: the entries before it come before, those from it on after.
proof fn lemma_listing_place(e: Seq<(Seq<char>, JsonView)>, k: Seq<char>) -> (i: int)
    requires
        forall|i: int, j: int|
            0 <= i < j < e.len() ==> lex_before(#[trigger] e[i].0, #[trigger] e[j].0),
        forall|i: int| 0 <= i < e.len() ==> (#[trigger] e[i]).0 != k,
    ensures
        0 <= i <= e.len(),
        forall|j: int| 0 <= j < i ==> lex_before(#[trigger] e[j].0, k),
        forall|j: int| i <= j < e.len() ==> lex_before(k, #[trigger] e[j].0),
    decreases e.len(),
{
    if e.len() == 0 {
        0
    } else {
        let last = e.last().0;
        assert(last == e[e.len() - 1].0);
        lemma_lex_total(last, k);
        if lex_before(last, k) {
            assert forall|j: int| 0 <= j < e.len() implies lex_before(#[trigger] e[j].0, k) by {
                if j < e.len() - 1 {
                    assert(lex_before(e[j].0, e[e.len() - 1].0));
                    lemma_lex_transitive(e[j].0, last, k);
                }
            }
            e.len() as int
        } else {
            let init = e.drop_last();
            assert forall|i: int, j: int| 0 <= i < j < init.len() implies lex_before(
                #[trigger] init[i].0,
                #[trigger] init[j].0,
            ) by {
                assert(lex_before(e[i].0, e[j].0));
            }
            assert forall|i: int| 0 <= i < init.len() implies (#[trigger] init[i]).0 != k by {
                assert(e[i].0 != k);
            }
            let i = lemma_listing_place(init, k);
            assert forall|j: int| 0 <= j < i implies lex_before(#[trigger] e[j].0, k) by {
                assert(lex_before(init[j].0, k));
            }
            assert forall|j: int| i <= j < e.len() implies lex_before(k, #[trigger] e[j].0) by {
                if j < init.len() {
                    assert(lex_before(k, init[j].0));
                }
            }
            i
        }
    }
}

proof fn lemma_listing_grows(
    e: Seq<(Seq<char>, JsonView)>,
    m: Map<Seq<char>, JsonView>,
    k: Seq<char>,
) -> (r: Seq<(Seq<char>, JsonView)>)
    requires
        m.contains_key(k),
        is_listing(e, m.remove(k)),
    ensures
        is_listing(r, m),
{
    let rest = m.remove(k);
    assert forall|i: int| 0 <= i < e.len() implies (#[trigger] e[i]).0 != k by {
        assert(rest.contains_key(e[i].0));
    }
    let p = lemma_listing_place(e, k);
    let r = e.insert(p, (k, m[k]));
    assert forall|i: int, j: int| 0 <= i < j < r.len() implies lex_before(
        #[trigger] r[i].0,
        #[trigger] r[j].0,
    ) by {
        if i < p && j < p {
            assert(lex_before(e[i].0, e[j].0));
        } else if i < p && j == p {
            assert(lex_before(e[i].0, k));
        } else if i < p {
            assert(lex_before(e[i].0, e[j - 1].0));
        } else if i == p {
            assert(lex_before(k, e[j - 1].0));
        } else {
            assert(lex_before(e[i - 1].0, e[j - 1].0));
        }
    }
    assert forall|i: int| 0 <= i < r.len() implies m.contains_key((#[trigger] r[i]).0)
        && m[r[i].0] == r[i].1 by {
        if i < p {
            assert(rest.contains_key(e[i].0) && rest[e[i].0] == e[i].1);
        } else if i > p {
            assert(rest.contains_key(e[i - 1].0) && rest[e[i - 1].0] == e[i - 1].1);
        }
    }
    assert forall|x: Seq<char>| #[trigger] m.contains_key(x) implies exists|i: int|
        0 <= i < r.len() && (#[trigger] r[i]).0 == x by {
        if x == k {
            assert(r[p].0 == x);
        } else {
            assert(rest.contains_key(x));
            let i = choose|i: int| 0 <= i < e.len() && (#[trigger] e[i]).0 == x;
            if i < p {
                assert(r[i].0 == x);
            } else {
                assert(r[i + 1].0 == x);
            }
        }
    }
    r
}

/// The members of every object can be listed.
pub proof fn lemma_listing(m: Map<Seq<char>, JsonView>)
    requires
        m.dom().finite(),
    ensures
        is_listing(listing(m), m),
    decreases m.dom().len(),
{
    if m.dom().len() == 0 {
        let none = Seq::<(Seq<char>, JsonView)>::empty();
        assert(forall|k: Seq<char>| !m.dom().contains(k)) by {
            assert(m.dom() =~= Set::empty());
        }
        assert(is_listing(none, m));
    } else {
        let k = m.dom().choose();
        let rest = m.remove(k);
        assert(rest.dom() =~= m.dom().remove(k));
        lemma_listing(rest);
        let e = lemma_listing_grows(listing(rest), m, k);
        assert(is_listing(e, m));
    }
}

impl JsonView {
    /// The member of name `k`; null where this is no object or has no such member.
    pub open spec fn member(self, k: Seq<char>) -> JsonView {
        match self {
            JsonView::Object(m) => if m.contains_key(k) {
                m[k]
            } else {
                JsonView::Null
            },
            _ => JsonView::Null,
        }
    }

    /// The text of a string.
    pub open spec fn as_text(self) -> Option<Seq<char>> {
        match self {
            JsonView::Str(s) => Some(s),
            _ => None,
        }
    }

    /// The value of an integer that is not negative.
    pub open spec fn as_unsigned(self) -> Option<int> {
        match self {
            JsonView::Int(n) => if n >= 0 {
                Some(n)
            } else {
                None
            },
            _ => None,
        }
    }

    /// The value of an integer that is at most the largest signed one of 64 bits.
    pub open spec fn as_signed(self) -> Option<int> {
        match self {
            JsonView::Int(n) => if n <= i64::MAX {
                Some(n)
            } else {
                None
            },
            _ => None,
        }
    }

    /// The items of an array.
    pub open spec fn as_items(self) -> Option<Seq<JsonView>> {
        match self {
            JsonView::Array(s) => Some(s),
            _ => None,
        }
    }

    /// The members of an object.
    pub open spec fn as_members(self) -> Option<Map<Seq<char>, JsonView>> {
        match self {
            JsonView::Object(m) => Some(m),
            _ => None,
        }
    }

    /// The text of the member of name `k`, where that is a string.
    pub open spec fn text_at(self, k: Seq<char>) -> Option<Seq<char>> {
        self.member(k).as_text()
    }

    /// The value of the member of name `k`, where that is an integer that is not negative, else
    /// `default`.
    pub open spec fn number_at(self, k: Seq<char>, default: int) -> int {
        self.member(k).as_unsigned().unwrap_or(default)
    }
}

/// The texts among `items`, in order.
pub open spec fn texts_among(items: Seq<JsonView>) -> Seq<Seq<char>>
    decreases items.len(),
{
    if items.len() == 0 {
        Seq::empty()
    } else {
        match items.last().as_text() {
            Some(s) => texts_among(items.drop_last()).push(s),
            None => texts_among(items.drop_last()),
        }
    }
}

/// The members among `e` whose value is a text, in order.
pub open spec fn text_members_among(e: Seq<(Seq<char>, JsonView)>) -> Seq<(Seq<char>, Seq<char>)>
    decreases e.len(),
{
    if e.len() == 0 {
        Seq::empty()
    } else {
        match e.last().1.as_text() {
            Some(s) => text_members_among(e.drop_last()).push((e.last().0, s)),
            None => text_members_among(e.drop_last()),
        }
    }
}

/// Pairs of strings, as values.
pub open spec fn pair_views(v: Seq<(String, String)>) -> Seq<(Seq<char>, Seq<char>)> {
    Seq::new(v.len(), |i: int| (v[i].0@, v[i].1@))
}

// ---------------------------------------------------------------------------
// Values

/// A JSON value.
pub struct Json {
    value: serde_json::Value,
}

impl View for Json {
    type V = JsonView;

    closed spec fn view(&self) -> JsonView {
        value_view(self.value)
    }
}

/// The values of a list, as values.
pub open spec fn json_views(v: Seq<Json>) -> Seq<JsonView> {
    v.map_values(|j: Json| j@)
}

/// Named values, as values.
pub open spec fn entry_views(v: Seq<(String, Json)>) -> Seq<(Seq<char>, JsonView)> {
    Seq::new(v.len(), |i: int| (v[i].0@, v[i].1@))
}

/// An optional text: null where there is none.
pub open spec fn text_or_null(o: Option<Seq<char>>) -> JsonView {
    match o {
        Some(s) => JsonView::Str(s),
        None => JsonView::Null,
    }
}

/// An optional number: null where there is none.
pub open spec fn number_or_null(o: Option<u64>) -> JsonView {
    match o {
        Some(n) => JsonView::Int(n as int),
        None => JsonView::Null,
    }
}

/// An array of strings.
pub open spec fn text_array(v: Seq<Seq<char>>) -> JsonView {
    JsonView::Array(Seq::new(v.len(), |i: int| JsonView::Str(v[i])))
}

impl Json {
    /// Holds a value of `serde_json`.
    pub fn from_value(value: serde_json::Value) -> (r: Json)
        ensures
            r@ == value_view(value),
    {
        Json { value }
    }

    /// Hands out the value of `serde_json`.
    pub fn into_value(self) -> (r: serde_json::Value)
        ensures
            value_view(r) == self@,
    {
        self.value
    }

    /// What a text denotes as JSON.
    pub fn parse(text: &str) -> (r: Result<Json, String>)
        ensures
            match r {
                Ok(v) => parsed_json(text@) == Ok::<JsonView, Seq<char>>(v@),
                Err(e) => parsed_json(text@) == Err::<JsonView, Seq<char>>(e@),
            },
    {
        match value_from_str(text) {
            Ok(value) => Ok(Json { value }),
            Err(e) => Err(e),
        }
    }

    /// What a byte string denotes as JSON.
    pub fn parse_bytes(bytes: &[u8]) -> (r: Result<Json, String>)
        ensures
            match r {
                Ok(v) => parsed_json_bytes(bytes@) == Ok::<JsonView, Seq<char>>(v@),
                Err(e) => parsed_json_bytes(bytes@) == Err::<JsonView, Seq<char>>(e@),
            },
            valid_utf8(bytes@) ==> parsed_json_bytes(bytes@) == parsed_json(decode_utf8(bytes@)),
            reads_flat(bytes@, parsed_json_bytes(bytes@)),
    {
        match value_from_slice(bytes) {
            Ok(value) => Ok(Json { value }),
            Err(e) => Err(e),
        }
    }

    /// The compact text of the value.
    pub fn to_text(&self) -> (r: String)
        ensures
            r@ == json_text(self@),
    {
        value_to_string(&self.value)
    }

    /// A copy of the value.
    pub fn copy(&self) -> (r: Json)
        ensures
            r@ == self@,
    {
        Json { value: value_clone(&self.value) }
    }

    /// Null.
    pub fn null() -> (r: Json)
        ensures
            r@ == JsonView::Null,
    {
        Json { value: value_null() }
    }

    /// A truth value.
    pub fn boolean(b: bool) -> (r: Json)
        ensures
            r@ == JsonView::Bool(b),
    {
        Json { value: value_from_bool(b) }
    }

    /// A number.
    pub fn number(n: u64) -> (r: Json)
        ensures
            r@ == JsonView::Int(n as int),
    {
        Json { value: value_from_u64(n) }
    }

    /// A string.
    pub fn text(s: &str) -> (r: Json)
        ensures
            r@ == JsonView::Str(s@),
    {
        Json { value: value_from_text(s) }
    }

    /// A string, or null where there is none.
    pub fn optional_text(o: &Option<String>) -> (r: Json)
        ensures
            r@ == text_or_null(opt_view(*o)),
    {
        match o {
            Some(s) => Json::text(s.as_str()),
            None => Json::null(),
        }
    }

    /// A number, or null where there is none.
    pub fn optional_number(o: Option<u64>) -> (r: Json)
        ensures
            r@ == number_or_null(o),
    {
        match o {
            Some(n) => Json::number(n),
            None => Json::null(),
        }
    }

    /// An array.
    pub fn array(items: Vec<Json>) -> (r: Json)
        ensures
            r@ == JsonView::Array(json_views(items@)),
    {
        let mut out: Vec<serde_json::Value> = Vec::new();
        for j in it: items
            invariant
                out@.len() == it.index(),
                it.seq() == items@,
                forall|i: int| 0 <= i < out@.len() ==> value_view(#[trigger] out@[i]) == items@[i]@,
        {
            out.push(j.value);
        }
        assert(value_views(out@) =~= json_views(items@));
        Json { value: value_from_vec(out) }
    }

    /// An array of strings.
    pub fn texts(items: &Vec<String>) -> (r: Json)
        ensures
            r@ == text_array(views(items@)),
    {
        let mut out: Vec<Json> = Vec::new();
        let mut i: usize = 0;
        while i < items.len()
            invariant
                i <= items@.len(),
                out@.len() == i,
                forall|j: int| 0 <= j < i ==> (#[trigger] out@[j])@ == JsonView::Str(items@[j]@),
            decreases items@.len() - i,
        {
            out.push(Json::text(items[i].as_str()));
            i = i + 1;
        }
        assert(json_views(out@) =~= text_array(views(items@))->Array_0);
        Json::array(out)
    }

    /// A copy of the member of name `key`; null where this is no object or has no such member.
    pub fn member(&self, key: &str) -> (r: Json)
        ensures
            r@ == self@.member(key@),
    {
        Json { value: value_clone(value_index(&self.value, key)) }
    }

    /// The text, where this is a string.
    pub fn as_text(&self) -> (r: Option<String>)
        ensures
            opt_view(r) == self@.as_text(),
    {
        match value_as_str(&self.value) {
            Some(s) => Some(s.to_owned()),
            None => None,
        }
    }

    /// The value, where this is an integer that is at most the largest signed one of 64 bits.
    pub fn as_signed(&self) -> (r: Option<i64>)
        ensures
            match r {
                Some(n) => self@.as_signed() == Some(n as int),
                None => self@.as_signed() is None,
            },
    {
        value_as_i64(&self.value)
    }

    /// The value, where this is an integer that is not negative.
    pub fn as_unsigned(&self) -> (r: Option<u64>)
        ensures
            match r {
                Some(n) => self@.as_unsigned() == Some(n as int),
                None => self@.as_unsigned() is None,
            },
    {
        value_as_u64(&self.value)
    }

    /// The text of the member of name `key`, where that is a string.
    pub fn text_at(&self, key: &str) -> (r: Option<String>)
        ensures
            opt_view(r) == self@.text_at(key@),
    {
        match value_as_str(value_index(&self.value, key)) {
            Some(s) => Some(s.to_owned()),
            None => None,
        }
    }

    /// The value of the member of name `key`, where that is an integer that is not negative, else
    /// `default`.
    pub fn number_at(&self, key: &str, default: u64) -> (r: u64)
        ensures
            r == self@.number_at(key@, default as int),
    {
        match value_as_u64(value_index(&self.value, key)) {
            Some(n) => n,
            None => default,
        }
    }

    /// The number of items of the member of name `key`, where that is an array, else zero.
    pub fn count_at(&self, key: &str) -> (r: usize)
        ensures
            r == (match self@.member(key@).as_items() {
                Some(items) => items.len(),
                None => 0,
            }),
    {
        match value_as_array(value_index(&self.value, key)) {
            Some(items) => {
                assert(value_views(items@).len() == items@.len());
                items.len()
            },
            None => 0,
        }
    }

    /// The texts in the array that is the member of name `key`.
    pub fn texts_at(&self, key: &str) -> (r: Option<Vec<String>>)
        ensures
            match (r, self@.member(key@).as_items()) {
                (Some(v), Some(items)) => views(v@) == texts_among(items),
                (None, None) => true,
                _ => false,
            },
    {
        match value_as_array(value_index(&self.value, key)) {
            Some(items) => {
                let ghost all = value_views(items@);
                let mut out: Vec<String> = Vec::new();
                let mut i: usize = 0;
                assert(views(out@) =~= texts_among(all.take(0)));
                while i < items.len()
                    invariant
                        i <= items@.len(),
                        all == value_views(items@),
                        views(out@) == texts_among(all.take(i as int)),
                    decreases items@.len() - i,
                {
                    assert(all.take(i + 1).drop_last() =~= all.take(i as int));
                    let ghost before = views(out@);
                    match value_as_str(&items[i]) {
                        Some(s) => {
                            out.push(s.to_owned());
                            assert(views(out@) =~= before.push(s@));
                        },
                        None => {},
                    }
                    i = i + 1;
                }
                assert(all.take(all.len() as int) =~= all);
                Some(out)
            },
            None => None,
        }
    }

    /// The members, where this is an object, in ascending order of names.
    pub fn members(&self) -> (r: Option<Vec<(String, Json)>>)
        ensures
            match (r, self@.as_members()) {
                (Some(v), Some(m)) => entry_views(v@) == listing(m) && is_listing(listing(m), m),
                (None, None) => true,
                _ => false,
            },
    {
        match value_members(&self.value) {
            Some(e) => {
                let mut out: Vec<(String, Json)> = Vec::new();
                let mut i: usize = 0;
                while i < e.len()
                    invariant
                        i <= e@.len(),
                        out@.len() == i,
                        forall|j: int|
                            0 <= j < i ==> (#[trigger] out@[j]).0@ == e@[j].0@ && out@[j].1@
                                == value_view(e@[j].1),
                    decreases e@.len() - i,
                {
                    out.push((e[i].0.clone(), Json { value: value_clone(&e[i].1) }));
                    i = i + 1;
                }
                proof {
                    let m = self@.as_members().unwrap();
                    assert(entry_views(out@) =~= member_views(e@));
                    assert(is_listing(member_views(e@), m));
                    lemma_listing_unique(member_views(e@), listing(m), m);
                }
                Some(out)
            },
            None => None,
        }
    }

    /// The members of the object that is the member of name `key`, in ascending order of names.
    pub fn members_at(&self, key: &str) -> (r: Option<Vec<(String, Json)>>)
        ensures
            match (r, self@.member(key@).as_members()) {
                (Some(v), Some(m)) => entry_views(v@) == listing(m) && is_listing(listing(m), m),
                (None, None) => true,
                _ => false,
            },
    {
        self.member(key).members()
    }

    /// The members with text values of the object that is the member of name `key`, in ascending
    /// order of names; none where that is no object.
    pub fn text_members_at(&self, key: &str) -> (r: Vec<(String, String)>)
        ensures
            pair_views(r@) == (match self@.member(key@).as_members() {
                Some(m) => text_members_among(listing(m)),
                None => Seq::empty(),
            }),
    {
        let mut out: Vec<(String, String)> = Vec::new();
        match self.members_at(key) {
            Some(e) => {
                let ghost all = entry_views(e@);
                let mut i: usize = 0;
                assert(pair_views(out@) =~= text_members_among(all.take(0)));
                while i < e.len()
                    invariant
                        i <= e@.len(),
                        all == entry_views(e@),
                        pair_views(out@) == text_members_among(all.take(i as int)),
                    decreases e@.len() - i,
                {
                    assert(all.take(i + 1).drop_last() =~= all.take(i as int));
                    let ghost before = pair_views(out@);
                    match e[i].1.as_text() {
                        Some(s) => {
                            out.push((e[i].0.clone(), s));
                            assert(pair_views(out@) =~= before.push((e@[i as int].0@, s@)));
                        },
                        None => {},
                    }
                    i = i + 1;
                }
                assert(all.take(all.len() as int) =~= all);
            },
            None => {
                assert(pair_views(out@) =~= Seq::empty());
            },
        }
        out
    }
}

/// The members of an object that is being built.
pub struct JsonObject {
    members: serde_json::Map<String, serde_json::Value>,
}

impl View for JsonObject {
    type V = Map<Seq<char>, JsonView>;

    closed spec fn view(&self) -> Map<Seq<char>, JsonView> {
        map_view(self.members)
    }
}

impl JsonObject {
    /// No members.
    pub fn new() -> (r: JsonObject)
        ensures
            r@ == Map::<Seq<char>, JsonView>::empty(),
    {
        JsonObject { members: map_new() }
    }

    /// The same members, with one more.
    pub fn with(self, key: &str, value: Json) -> (r: JsonObject)
        ensures
            r@ == self@.insert(key@, value@),
    {
        JsonObject { members: map_insert(self.members, key.to_owned(), value.value) }
    }

    /// The same members, with one more text.
    pub fn text(self, key: &str, value: &str) -> (r: JsonObject)
        ensures
            r@ == self@.insert(key@, JsonView::Str(value@)),
    {
        self.with(key, Json::text(value))
    }

    /// The same members, with one more number.
    pub fn number(self, key: &str, value: u64) -> (r: JsonObject)
        ensures
            r@ == self@.insert(key@, JsonView::Int(value as int)),
    {
        self.with(key, Json::number(value))
    }

    /// The object.
    pub fn build(self) -> (r: Json)
        ensures
            r@ == JsonView::Object(self@),
    {
        Json { value: value_from_map(self.members) }
    }
}

// ---------------------------------------------------------------------------
// Laws

/// The texts among items are the items that are texts, each in its place: those of two lists one
/// after the other are the texts of the first and then of the second, and of one item its text,
/// where it is one.
pub proof fn texts_are_kept_in_order(a: Seq<JsonView>, b: Seq<JsonView>, v: JsonView)
    ensures
        texts_among(a + b) == texts_among(a) + texts_among(b),
        texts_among(seq![v]) == (match v {
            JsonView::Str(s) => seq![s],
            _ => Seq::empty(),
        }),
    decreases b.len(),
{
    let one = seq![v];
    assert(one.drop_last() =~= Seq::<JsonView>::empty());
    assert(texts_among(one.drop_last()) == Seq::<Seq<char>>::empty());
    assert(texts_among(one) =~= (match v {
        JsonView::Str(s) => seq![s],
        _ => Seq::empty(),
    }));
    if b.len() == 0 {
        assert(a + b =~= a);
        assert(texts_among(a) + texts_among(b) =~= texts_among(a));
    } else {
        texts_are_kept_in_order(a, b.drop_last(), v);
        assert((a + b).drop_last() =~= a + b.drop_last());
        assert(texts_among(a + b) =~= texts_among(a) + texts_among(b));
    }
}

proof fn lemma_text_members_from(e: Seq<(Seq<char>, JsonView)>, i: int) -> (j: int)
    requires
        0 <= i < text_members_among(e).len(),
    ensures
        0 <= j < e.len(),
        e[j].0 == text_members_among(e)[i].0,
        e[j].1 == JsonView::Str(text_members_among(e)[i].1),
    decreases e.len(),
{
    let init = e.drop_last();
    let before = text_members_among(init);
    if i < before.len() {
        let j = lemma_text_members_from(init, i);
        assert(init[j] == e[j]);
        j
    } else {
        e.len() - 1
    }
}

proof fn lemma_text_members_to(e: Seq<(Seq<char>, JsonView)>, j: int) -> (i: int)
    requires
        0 <= j < e.len(),
        e[j].1 is Str,
    ensures
        0 <= i < text_members_among(e).len(),
        e[j].0 == text_members_among(e)[i].0,
        e[j].1 == JsonView::Str(text_members_among(e)[i].1),
    decreases e.len(),
{
    let init = e.drop_last();
    if j < init.len() {
        assert(init[j] == e[j]);
        lemma_text_members_to(init, j)
    } else {
        text_members_among(init).len() as int
    }
}

/// The members of an object that are texts are listed, each with its own text, and nothing else is.
pub proof fn text_members_are_listed(m: Map<Seq<char>, JsonView>, k: Seq<char>, text: Seq<char>)
    requires
        m.dom().finite(),
    ensures
        text_members_among(listing(m)).contains((k, text)) <==> m.contains_key(k) && m[k]
            == JsonView::Str(text),
{
    lemma_listing(m);
    let e = listing(m);
    let t = text_members_among(e);
    if t.contains((k, text)) {
        let i = choose|i: int| 0 <= i < t.len() && t[i] == (k, text);
        let j = lemma_text_members_from(e, i);
        assert(m.contains_key(e[j].0) && m[e[j].0] == e[j].1);
    }
    if m.contains_key(k) && m[k] == JsonView::Str(text) {
        let j = choose|j: int| 0 <= j < e.len() && (#[trigger] e[j]).0 == k;
        assert(m[e[j].0] == e[j].1);
        let i = lemma_text_members_to(e, j);
        assert(t[i] == (k, text));
    }
}

/// A member of an object is found by its name, and what is no object has none.
pub proof fn members_are_found_by_name(m: Map<Seq<char>, JsonView>, k: Seq<char>, v: JsonView)
    ensures
        JsonView::Object(m.insert(k, v)).member(k) == v,
        !m.contains_key(k) ==> JsonView::Object(m).member(k) == JsonView::Null,
        forall|j: Seq<char>|
            j != k ==> #[trigger] JsonView::Object(m.insert(k, v)).member(j) == JsonView::Object(
                m,
            ).member(j),
{
}

} // verus!
