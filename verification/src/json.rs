//! JSON values: the library's own tree, and the calls into `serde_json` that read and
//! write its notation.
use vstd::prelude::*;
use crate::text::{opt_view, same, views};

verus! {

/// A number of `serde_json`.
#[verifier::external_type_specification]
#[verifier::external_body]
pub struct ExNumber(serde_json::Number);

/// A value of `serde_json`.
#[verifier::external_type_specification]
#[verifier::external_body]
pub struct ExValue(serde_json::Value);

/// What a JSON value holds. An object is the sequence of its entries in order, no two of
/// them under one key.
#[verifier::ext_equal]
pub enum JsonView {
    Null,
    Bool(bool),
    Number(serde_json::Number),
    Text(Seq<char>),
    Array(Seq<JsonView>),
    Object(Seq<(Seq<char>, JsonView)>),
}

/// A JSON value.
///
/// Of two entries of an object under one key the later one counts.
#[derive(Debug, PartialEq)]
pub enum Json {
    Null,
    Bool(bool),
    Number(serde_json::Number),
    Text(String),
    Array(Vec<Json>),
    Object(Vec<(String, Json)>),
}

/// Whether an entry stands under `key`.
pub open spec fn has_key(entries: Seq<(Seq<char>, JsonView)>, key: Seq<char>) -> bool {
    exists|i: int| 0 <= i < entries.len() && (#[trigger] entries[i]).0 == key
}

/// `entries` with `value` under `key`: in the place of the entry that stood there, else at
/// the end.
pub open spec fn put(entries: Seq<(Seq<char>, JsonView)>, key: Seq<char>, value: JsonView) -> Seq<
    (Seq<char>, JsonView),
> {
    if has_key(entries, key) {
        Seq::new(
            entries.len(),
            |i: int|
                if entries[i].0 == key {
                    (key, value)
                } else {
                    entries[i]
                },
        )
    } else {
        entries.push((key, value))
    }
}

/// The entries that result from putting `pairs` one after the other.
pub open spec fn put_all(pairs: Seq<(Seq<char>, JsonView)>) -> Seq<(Seq<char>, JsonView)>
    decreases pairs.len(),
{
    if pairs.len() == 0 {
        Seq::empty()
    } else {
        put(put_all(pairs.drop_last()), pairs.last().0, pairs.last().1)
    }
}

/// The object that results from putting `pairs` one after the other.
pub open spec fn object_of(pairs: Seq<(Seq<char>, JsonView)>) -> JsonView {
    JsonView::Object(put_all(pairs))
}

/// The value under `key`: that of the last entry with this key.
pub open spec fn lookup(entries: Seq<(Seq<char>, JsonView)>, key: Seq<char>) -> Option<JsonView>
    decreases entries.len(),
{
    if entries.len() == 0 {
        None
    } else if entries.last().0 == key {
        Some(entries.last().1)
    } else {
        lookup(entries.drop_last(), key)
    }
}

/// The model of a tree.
pub open spec fn model(j: Json) -> JsonView
    decreases j,
{
    match j {
        Json::Null => JsonView::Null,
        Json::Bool(b) => JsonView::Bool(b),
        Json::Number(n) => JsonView::Number(n),
        Json::Text(s) => JsonView::Text(s@),
        Json::Array(v) => JsonView::Array(
            Seq::new(
                v@.len(),
                |i: int|
                    if 0 <= i < v@.len() {
                        model(v@[i])
                    } else {
                        JsonView::Null
                    },
            ),
        ),
        Json::Object(v) => object_of(model_pairs(v@)),
    }
}

/// The models of an object's entries.
pub open spec fn model_pairs(v: Seq<(String, Json)>) -> Seq<(Seq<char>, JsonView)>
    decreases v,
{
    Seq::new(
        v.len(),
        |i: int|
            if 0 <= i < v.len() {
                (v[i].0@, model(v[i].1))
            } else {
                (Seq::empty(), JsonView::Null)
            },
    )
}

impl View for Json {
    type V = JsonView;

    open spec fn view(&self) -> JsonView {
        model(*self)
    }
}

// ---------------------------------------------------------------------
// Reading a tree
// ---------------------------------------------------------------------

/// The value under `key` of an object.
pub open spec fn field(x: JsonView, key: Seq<char>) -> Option<JsonView> {
    match x {
        JsonView::Object(entries) => lookup(entries, key),
        _ => None,
    }
}

/// The text that a value is.
pub open spec fn text_in(x: Option<JsonView>) -> Option<Seq<char>> {
    match x {
        Some(JsonView::Text(s)) => Some(s),
        _ => None,
    }
}

/// The truth value that a value is.
pub open spec fn bool_in(x: Option<JsonView>) -> Option<bool> {
    match x {
        Some(JsonView::Bool(b)) => Some(b),
        _ => None,
    }
}

/// The text under `key` of an object.
pub open spec fn text_field(x: JsonView, key: Seq<char>) -> Option<Seq<char>> {
    text_in(field(x, key))
}

/// The truth value under `key` of an object.
pub open spec fn bool_field(x: JsonView, key: Seq<char>) -> Option<bool> {
    bool_in(field(x, key))
}

/// The text, or `null` where there is none.
pub open spec fn text_or_null(s: Option<Seq<char>>) -> JsonView {
    match s {
        Some(t) => JsonView::Text(t),
        None => JsonView::Null,
    }
}

/// The array of the given texts.
pub open spec fn text_array(items: Seq<Seq<char>>) -> JsonView {
    JsonView::Array(Seq::new(items.len(), |i: int| JsonView::Text(items[i])))
}

/// The texts of an array that holds nothing else.
pub open spec fn texts_in(x: JsonView) -> Option<Seq<Seq<char>>> {
    match x {
        JsonView::Array(items) => if forall|i: int| 0 <= i < items.len() ==> (#[trigger] items[i]) is Text {
            Some(Seq::new(items.len(), |i: int| items[i]->Text_0))
        } else {
            None
        },
        _ => None,
    }
}

/// Putting under one key leaves what stands under the others.
pub proof fn lemma_lookup_put(entries: Seq<(Seq<char>, JsonView)>, k: Seq<char>, v: JsonView, key: Seq<char>)
    ensures
        lookup(put(entries, k, v), key) == if key == k {
            Some(v)
        } else {
            lookup(entries, key)
        },
{
    if has_key(entries, k) {
        lemma_lookup_overwritten(entries, put(entries, k, v), k, v, key);
        if key == k {
            lemma_lookup_some(entries, k);
        }
    } else {
        assert(put(entries, k, v).drop_last() =~= entries);
    }
}

proof fn lemma_lookup_some(entries: Seq<(Seq<char>, JsonView)>, key: Seq<char>)
    ensures
        has_key(entries, key) <==> lookup(entries, key) is Some,
    decreases entries.len(),
{
    if entries.len() > 0 {
        let init = entries.drop_last();
        lemma_lookup_some(init, key);
        if has_key(entries, key) && entries.last().0 != key {
            let i = choose|i: int| 0 <= i < entries.len() && (#[trigger] entries[i]).0 == key;
            assert(init[i].0 == key);
        }
        if has_key(init, key) {
            let i = choose|i: int| 0 <= i < init.len() && (#[trigger] init[i]).0 == key;
            assert(entries[i].0 == key);
        }
    }
}

proof fn lemma_lookup_overwritten(
    entries: Seq<(Seq<char>, JsonView)>,
    after: Seq<(Seq<char>, JsonView)>,
    k: Seq<char>,
    v: JsonView,
    key: Seq<char>,
)
    requires
        after.len() == entries.len(),
        forall|i: int|
            0 <= i < entries.len() ==> #[trigger] after[i] == if entries[i].0 == k {
                (k, v)
            } else {
                entries[i]
            },
    ensures
        lookup(after, key) == if key == k && lookup(entries, key) is Some {
            Some(v)
        } else {
            lookup(entries, key)
        },
    decreases entries.len(),
{
    if entries.len() > 0 {
        lemma_lookup_overwritten(entries.drop_last(), after.drop_last(), k, v, key);
    }
}

/// What stands under a key after all the pairs have been put is what the last pair with
/// this key holds.
pub proof fn lemma_lookup_put_all(pairs: Seq<(Seq<char>, JsonView)>, key: Seq<char>)
    ensures
        lookup(put_all(pairs), key) == lookup(pairs, key),
    decreases pairs.len(),
{
    if pairs.len() > 0 {
        lemma_lookup_put_all(pairs.drop_last(), key);
        lemma_lookup_put(put_all(pairs.drop_last()), pairs.last().0, pairs.last().1, key);
    }
}

/// Copies a number, as its `Clone` does.
pub assume_specification[ <serde_json::Number as Clone>::clone ](n: &serde_json::Number) -> (r:
    serde_json::Number)
    ensures
        r == *n,
;

/// The entries of an object as the model has them.
pub open spec fn entry_views(v: Seq<(String, Json)>) -> Seq<(Seq<char>, JsonView)> {
    Seq::new(v.len(), |i: int| (v[i].0@, v[i].1@))
}

proof fn lemma_model_array(v: Vec<Json>)
    ensures
        model(Json::Array(v)) == JsonView::Array(views(v@)),
{
    assert(model(Json::Array(v))->Array_0 =~= views(v@));
}

proof fn lemma_model_object(v: Vec<(String, Json)>)
    ensures
        model(Json::Object(v)) == object_of(entry_views(v@)),
{
    assert(model_pairs(v@) =~= entry_views(v@));
}

impl Clone for Json {
    fn clone(&self) -> (r: Json)
        ensures
            r@ == self@,
        decreases self,
    {
        match self {
            Json::Null => Json::Null,
            Json::Bool(b) => Json::Bool(*b),
            Json::Number(n) => Json::Number(n.clone()),
            Json::Text(s) => Json::Text(s.clone()),
            Json::Array(v) => {
                let mut out: Vec<Json> = Vec::new();
                let mut i: usize = 0;
                while i < v.len()
                    invariant
                        i <= v@.len(),
                        *self == Json::Array(*v),
                        out@.len() == i,
                        forall|k: int| 0 <= k < i ==> #[trigger] out@[k]@ == v@[k]@,
                    decreases v@.len() - i,
                {
                    assert(decreases_to!(*self => self->Array_0));
                    assert(decreases_to!(*v => v@));
                    assert(decreases_to!(v@ => v@[i as int]));
                    out.push(v[i].clone());
                    i += 1;
                }
                proof {
                    lemma_model_array(*v);
                    lemma_model_array(out);
                    assert(views(out@) =~= views(v@));
                }
                Json::Array(out)
            },
            Json::Object(v) => {
                let mut out: Vec<(String, Json)> = Vec::new();
                let mut i: usize = 0;
                while i < v.len()
                    invariant
                        i <= v@.len(),
                        *self == Json::Object(*v),
                        out@.len() == i,
                        forall|k: int|
                            0 <= k < i ==> (#[trigger] out@[k]).0@ == v@[k].0@ && out@[k].1@ == v@[k].1@,
                    decreases v@.len() - i,
                {
                    assert(decreases_to!(*self => self->Object_0));
                    assert(decreases_to!(*v => v@));
                    assert(decreases_to!(v@ => v@[i as int]));
                    assert(decreases_to!(v@[i as int] => v@[i as int].1));
                    out.push((v[i].0.clone(), v[i].1.clone()));
                    i += 1;
                }
                proof {
                    lemma_model_object(*v);
                    lemma_model_object(out);
                    assert(entry_views(out@) =~= entry_views(v@));
                }
                Json::Object(out)
            },
        }
    }
}

impl Json {
    /// The value under `key`, if this is an object with such an entry.
    pub fn get(&self, key: &str) -> (r: Option<&Json>)
        ensures
            opt_view(r) == field(self@, key@),
    {
        match self {
            Json::Object(v) => {
                let ghost all = entry_views(v@);
                proof {
                    lemma_model_object(*v);
                    lemma_lookup_put_all(all, key@);
                }
                let mut i: usize = v.len();
                assert(all.take(i as int) =~= all);
                while 0 < i
                    invariant
                        i <= v@.len(),
                        all == entry_views(v@),
                        lookup(all, key@) == lookup(all.take(i as int), key@),
                        field(self@, key@) == lookup(all, key@),
                    decreases i,
                {
                    i -= 1;
                    assert(all.take(i + 1).drop_last() =~= all.take(i as int));
                    if same(v[i].0.as_str(), key) {
                        return Some(&v[i].1);
                    }
                }
                None
            },
            _ => None,
        }
    }

    /// The text that this value is.
    pub fn as_str(&self) -> (r: Option<&str>)
        ensures
            opt_view(r) == text_in(Some(self@)),
    {
        match self {
            Json::Text(s) => Some(s.as_str()),
            _ => None,
        }
    }

    /// The truth value that this value is.
    pub fn as_bool(&self) -> (r: Option<bool>)
        ensures
            r == bool_in(Some(self@)),
    {
        match self {
            Json::Bool(b) => Some(*b),
            _ => None,
        }
    }

    /// This object with `value` under `key`.
    pub fn with_entry(&self, key: &str, value: Json) -> (r: Json)
        requires
            self@ is Object,
        ensures
            r@ == JsonView::Object(put(self@->Object_0, key@, value@)),
    {
        let mut pairs: Vec<(String, Json)> = Vec::new();
        if let Json::Object(v) = self {
            proof {
                lemma_model_object(*v);
            }
            let mut i: usize = 0;
            while i < v.len()
                invariant
                    i <= v@.len(),
                    entry_views(pairs@) == entry_views(v@).take(i as int),
                decreases v@.len() - i,
            {
                let ghost before = entry_views(pairs@);
                pairs.push((v[i].0.clone(), v[i].1.clone()));
                assert(entry_views(pairs@) =~= before.push(entry_views(v@)[i as int]));
                i += 1;
                assert(entry_views(pairs@) =~= entry_views(v@).take(i as int));
            }
            assert(entry_views(v@).take(i as int) =~= entry_views(v@));
        }
        let ghost before = entry_views(pairs@);
        pairs.push((key.to_owned(), value));
        assert(entry_views(pairs@) =~= before.push((key@, value@)));
        assert(entry_views(pairs@).drop_last() =~= before);
        Json::object(pairs)
    }

    /// The elements, if this is an array.
    pub fn as_array(&self) -> (r: Option<&Vec<Json>>)
        ensures
            match r {
                Some(v) => self@ == JsonView::Array(views(v@)),
                None => !(self@ is Array),
            },
    {
        match self {
            Json::Array(v) => {
                proof {
                    lemma_model_array(*v);
                }
                Some(v)
            },
            _ => None,
        }
    }

    /// The object without entries.
    pub fn empty_object() -> (r: Json)
        ensures
            r@ == object_of(Seq::empty()),
    {
        let v: Vec<(String, Json)> = Vec::new();
        proof {
            lemma_model_object(v);
            assert(entry_views(v@) =~= Seq::empty());
        }
        Json::Object(v)
    }

    /// The object with the given entries.
    pub fn object(pairs: Vec<(String, Json)>) -> (r: Json)
        ensures
            r@ == object_of(entry_views(pairs@)),
    {
        proof {
            lemma_model_object(pairs);
        }
        Json::Object(pairs)
    }

    /// The object with one entry.
    pub fn object1(k1: &str, v1: Json) -> (r: Json)
        ensures
            r@ == object_of(seq![(k1@, v1@)]),
    {
        let mut pairs: Vec<(String, Json)> = Vec::new();
        pairs.push((k1.to_owned(), v1));
        assert(entry_views(pairs@) =~= seq![(k1@, v1@)]);
        Json::object(pairs)
    }

    /// The object with two entries.
    pub fn object2(k1: &str, v1: Json, k2: &str, v2: Json) -> (r: Json)
        ensures
            r@ == object_of(seq![(k1@, v1@), (k2@, v2@)]),
    {
        let mut pairs: Vec<(String, Json)> = Vec::new();
        pairs.push((k1.to_owned(), v1));
        pairs.push((k2.to_owned(), v2));
        assert(entry_views(pairs@) =~= seq![(k1@, v1@), (k2@, v2@)]);
        Json::object(pairs)
    }

    /// The object with three entries.
    pub fn object3(k1: &str, v1: Json, k2: &str, v2: Json, k3: &str, v3: Json) -> (r: Json)
        ensures
            r@ == object_of(seq![(k1@, v1@), (k2@, v2@), (k3@, v3@)]),
    {
        let mut pairs: Vec<(String, Json)> = Vec::new();
        pairs.push((k1.to_owned(), v1));
        pairs.push((k2.to_owned(), v2));
        pairs.push((k3.to_owned(), v3));
        assert(entry_views(pairs@) =~= seq![(k1@, v1@), (k2@, v2@), (k3@, v3@)]);
        Json::object(pairs)
    }

    /// The object with four entries.
    pub fn object4(k1: &str, v1: Json, k2: &str, v2: Json, k3: &str, v3: Json, k4: &str, v4: Json) -> (r: Json)
        ensures
            r@ == object_of(seq![(k1@, v1@), (k2@, v2@), (k3@, v3@), (k4@, v4@)]),
    {
        let mut pairs: Vec<(String, Json)> = Vec::new();
        pairs.push((k1.to_owned(), v1));
        pairs.push((k2.to_owned(), v2));
        pairs.push((k3.to_owned(), v3));
        pairs.push((k4.to_owned(), v4));
        assert(entry_views(pairs@) =~= seq![(k1@, v1@), (k2@, v2@), (k3@, v3@), (k4@, v4@)]);
        Json::object(pairs)
    }

    /// The array of the given elements.
    pub fn array(items: Vec<Json>) -> (r: Json)
        ensures
            r@ == JsonView::Array(views(items@)),
    {
        proof {
            lemma_model_array(items);
        }
        Json::Array(items)
    }

    /// The array of the given texts.
    pub fn texts(items: &Vec<String>) -> (r: Json)
        ensures
            r@ == text_array(views(items@)),
    {
        let mut out: Vec<Json> = Vec::new();
        let mut i: usize = 0;
        while i < items.len()
            invariant
                i <= items@.len(),
                out@.len() == i,
                forall|k: int| 0 <= k < i ==> #[trigger] out@[k]@ == JsonView::Text(items@[k]@),
            decreases items@.len() - i,
        {
            out.push(Json::text(items[i].as_str()));
            i += 1;
        }
        assert(views(out@) =~= text_array(views(items@))->Array_0);
        Json::array(out)
    }

    /// The text `s`.
    pub fn text(s: &str) -> (r: Json)
        ensures
            r@ == JsonView::Text(s@),
    {
        Json::Text(s.to_owned())
    }

    /// The text, or `null` where there is none.
    pub fn opt_text(s: Option<&str>) -> (r: Json)
        ensures
            r@ == text_or_null(opt_view(s)),
    {
        match s {
            Some(t) => Json::text(t),
            None => Json::Null,
        }
    }

    /// Whether this is `null`.
    pub fn is_null(&self) -> (r: bool)
        ensures
            r == (self@ is Null),
    {
        match self {
            Json::Null => true,
            _ => false,
        }
    }

    /// Whether this is an object.
    pub fn is_object(&self) -> (r: bool)
        ensures
            r == (self@ is Object),
    {
        match self {
            Json::Object(_) => true,
            _ => false,
        }
    }

    /// The text under `key`.
    pub fn text_at(&self, key: &str) -> (r: Option<&str>)
        ensures
            opt_view(r) == text_field(self@, key@),
    {
        match self.get(key) {
            Some(x) => x.as_str(),
            None => None,
        }
    }

    /// The truth value under `key`.
    pub fn bool_at(&self, key: &str) -> (r: Option<bool>)
        ensures
            r == bool_field(self@, key@),
    {
        match self.get(key) {
            Some(x) => x.as_bool(),
            None => None,
        }
    }
}

// ---------------------------------------------------------------------
// The notation, through `serde_json`
// ---------------------------------------------------------------------

/// What a value of `serde_json` holds.
pub uninterp spec fn value_view(v: serde_json::Value) -> JsonView;

/// The outermost layer of a value of `serde_json`.
enum JsonParts {
    Null,
    Bool(bool),
    Number(serde_json::Number),
    Text(String),
    Array(Vec<serde_json::Value>),
    Object(Vec<(String, serde_json::Value)>),
}

/// The entries of a layer, with what their values hold.
spec fn part_entries(v: Seq<(String, serde_json::Value)>) -> Seq<(Seq<char>, JsonView)> {
    Seq::new(v.len(), |i: int| (v[i].0@, value_view(v[i].1)))
}

/// What the value with this outermost layer holds.
spec fn parts_view(p: JsonParts) -> JsonView {
    match p {
        JsonParts::Null => JsonView::Null,
        JsonParts::Bool(b) => JsonView::Bool(b),
        JsonParts::Number(n) => JsonView::Number(n),
        JsonParts::Text(s) => JsonView::Text(s@),
        JsonParts::Array(v) => JsonView::Array(Seq::new(v@.len(), |i: int| value_view(v@[i]))),
        JsonParts::Object(v) => object_of(part_entries(v@)),
    }
}

/// Whether no two of the entries stand under one key.
pub open spec fn distinct_keys(entries: Seq<(Seq<char>, JsonView)>) -> bool {
    forall|i: int, j: int|
        0 <= i < j < entries.len() ==> (#[trigger] entries[i]).0 != (#[trigger] entries[j]).0
}

/// Takes a `serde_json::Value` apart, variant by variant. A `serde_json::Map` hands its
/// entries out in order, each key once.
#[verifier::external_body]
fn take_apart(v: serde_json::Value) -> (r: JsonParts)
    ensures
        parts_view(r) == value_view(v),
        r matches JsonParts::Object(pairs) ==> distinct_keys(part_entries(pairs@)),
{
    match v {
        serde_json::Value::Null => JsonParts::Null,
        serde_json::Value::Bool(b) => JsonParts::Bool(b),
        serde_json::Value::Number(n) => JsonParts::Number(n),
        serde_json::Value::String(s) => JsonParts::Text(s),
        serde_json::Value::Array(v) => JsonParts::Array(v),
        serde_json::Value::Object(m) => JsonParts::Object(m.into_iter().collect()),
    }
}

/// Puts a `serde_json::Value` together, variant by variant. A `serde_json::Map` keeps the
/// order in which keys first came, and of each key the last value (the crate's feature
/// `preserve_order` is on).
#[verifier::external_body]
fn put_together(p: JsonParts) -> (r: serde_json::Value)
    ensures
        value_view(r) == parts_view(p),
{
    match p {
        JsonParts::Null => serde_json::Value::Null,
        JsonParts::Bool(b) => serde_json::Value::Bool(b),
        JsonParts::Number(n) => serde_json::Value::Number(n),
        JsonParts::Text(s) => serde_json::Value::String(s),
        JsonParts::Array(v) => serde_json::Value::Array(v),
        JsonParts::Object(v) => serde_json::Value::Object(v.into_iter().collect()),
    }
}

/// What a text in JSON notation denotes, as `serde_json::from_str` reads it.
pub uninterp spec fn json_parsed(s: Seq<char>) -> Option<JsonView>;

/// Calls `serde_json::from_str` for a `serde_json::Value`. What it returns depends on the
/// text alone.
#[verifier::external_body]
fn read_value(s: &str) -> (r: Option<serde_json::Value>)
    ensures
        json_parsed(s@) == match r {
            Some(v) => Some(value_view(v)),
            None => None,
        },
{
    serde_json::from_str(s).ok()
}

/// The key that `serde_json` sets apart for text that it is not to read.
pub const RESERVED_KEY: &'static str = "$serde_json::private::RawValue";

/// Whether a value is made of `null`, truth values, integers, texts, lists and objects alone,
/// with no more levels of lists and objects than this, and no object begins with the reserved
/// key.
pub open spec fn is_plain(x: JsonView, levels: nat) -> bool
    decreases levels,
{
    match x {
        JsonView::Number(n) => integer_of(n) is Some,
        JsonView::Array(items) => levels > 0 && forall|i: int|
            0 <= i < items.len() ==> is_plain(#[trigger] items[i], (levels - 1) as nat),
        JsonView::Object(entries) => {
            &&& levels > 0
            &&& entries.len() > 0 ==> entries[0].0 != RESERVED_KEY@
            &&& forall|i: int| 0 <= i < entries.len() ==> is_plain((#[trigger] entries[i]).1, (levels - 1) as nat)
        },
        _ => true,
    }
}

/// Whether a value is read back from its notation as it was.
pub open spec fn is_kept(x: JsonView) -> bool {
    is_plain(x, 127)
}

/// The list of texts that a text in JSON notation denotes, as `serde_json::from_str` reads it
/// for a `Vec<String>`.
pub uninterp spec fn texts_parsed(s: Seq<char>) -> Option<Seq<Seq<char>>>;

/// Calls `serde_json::from_str` for a `Vec<String>`. What it returns depends on the text alone;
/// the notation of an empty list is read as one.
#[verifier::external_body]
fn read_text_list(s: &str) -> (r: Option<Vec<String>>)
    ensures
        texts_parsed(s@) == match r {
            Some(v) => Some(views(v@)),
            None => None,
        },
        s@ == "[]"@ ==> (r is Some && r.unwrap()@.len() == 0),
{
    serde_json::from_str(s).ok()
}

/// The compact JSON notation of a value, as `serde_json::Value` displays itself.
pub uninterp spec fn json_text(x: JsonView) -> Seq<char>;

/// Calls `serde_json::Value::to_string`. The notation depends on what the value holds
/// alone. `serde_json::from_str` reads a value that is kept back from it, and a list of texts
/// also where it is asked for one. Of floats, of objects that begin with the reserved key and
/// of more than 127 levels it is left unsaid what comes back.
#[verifier::external_body]
fn write_value(v: &serde_json::Value) -> (r: String)
    ensures
        r@ == json_text(value_view(*v)),
        is_kept(value_view(*v)) ==> json_parsed(r@) == Some(value_view(*v)),
        texts_in(value_view(*v)) matches Some(list) ==> texts_parsed(r@) == Some(list),
{
    v.to_string()
}

/// The indented JSON notation of a value, as `serde_json::to_string_pretty` writes it.
pub uninterp spec fn json_pretty(x: JsonView) -> Seq<char>;

/// Calls `serde_json::to_string_pretty`, which fails on no `serde_json::Value`. The
/// notation depends on what the value holds alone.
#[verifier::external_body]
fn write_pretty(v: &serde_json::Value) -> (r: String)
    ensures
        r@ == json_pretty(value_view(*v)),
{
    serde_json::to_string_pretty(v).unwrap_or_else(|_| v.to_string())
}

/// The integer that a number of `serde_json` is.
pub uninterp spec fn integer_of(n: serde_json::Number) -> Option<int>;

/// Calls `serde_json::Number::as_u64`: the integer that the number is, if it is one and not
/// out of range. A number that is kept as a float is none, even without a fraction.
#[verifier::external_body]
fn number_as_u64(n: &serde_json::Number) -> (r: Option<u64>)
    ensures
        r == match integer_of(*n) {
            Some(i) => if 0 <= i <= u64::MAX {
                Some(i as u64)
            } else {
                None
            },
            None => None,
        },
{
    n.as_u64()
}

/// Calls `serde_json::Number::as_i64`: the integer that the number is, if it is one and not
/// out of range. A number that is kept as a float is none, even without a fraction.
#[verifier::external_body]
fn number_as_i64(n: &serde_json::Number) -> (r: Option<i64>)
    ensures
        r == match integer_of(*n) {
            Some(i) => if i64::MIN <= i <= i64::MAX {
                Some(i as i64)
            } else {
                None
            },
            None => None,
        },
{
    n.as_i64()
}

/// The number that `serde_json::Number::from` makes of an integer.
pub uninterp spec fn number_of(i: int) -> serde_json::Number;

/// Calls `serde_json::Number::from` for an `i64`: the number is that integer, and is the same
/// as the one made of a `u64` where both can hold it.
#[verifier::external_body]
fn number_from_i64(i: i64) -> (r: serde_json::Number)
    ensures
        r == number_of(i as int),
        integer_of(r) == Some(i as int),
{
    serde_json::Number::from(i)
}

/// Calls `serde_json::Number::from` for a `u64`: the number is that integer.
#[verifier::external_body]
fn number_from_u64(i: u64) -> (r: serde_json::Number)
    ensures
        r == number_of(i as int),
        integer_of(r) == Some(i as int),
{
    serde_json::Number::from(i)
}

proof fn lemma_put_all_distinct(pairs: Seq<(Seq<char>, JsonView)>)
    requires
        distinct_keys(pairs),
    ensures
        put_all(pairs) == pairs,
    decreases pairs.len(),
{
    if pairs.len() > 0 {
        let init = pairs.drop_last();
        assert(distinct_keys(init)) by {
            assert forall|i: int, j: int| 0 <= i < j < init.len() implies (#[trigger] init[i]).0 != (
            #[trigger] init[j]).0 by {
                assert(pairs[i].0 != pairs[j].0);
            }
        }
        lemma_put_all_distinct(init);
        if has_key(init, pairs.last().0) {
            let i = choose|i: int| 0 <= i < init.len() && (#[trigger] init[i]).0 == pairs.last().0;
            assert(pairs[i].0 != pairs[pairs.len() - 1].0);
        }
        assert(init.push(pairs.last()) =~= pairs);
    } else {
        assert(put_all(pairs) =~= pairs);
    }
}

fn from_value(v: serde_json::Value) -> (r: Json)
    ensures
        r@ == value_view(v),
    decreases value_view(v),
{
    let ghost whole = value_view(v);
    match take_apart(v) {
        JsonParts::Null => Json::Null,
        JsonParts::Bool(b) => Json::Bool(b),
        JsonParts::Number(n) => Json::Number(n),
        JsonParts::Text(s) => Json::Text(s),
        JsonParts::Array(items) => {
            let ghost all = items@;
            let mut out: Vec<Json> = Vec::new();
            for x in it: items
                invariant
                    it.seq() == all,
                    whole == value_view(v),
                    whole == JsonView::Array(Seq::new(all.len(), |i: int| value_view(all[i]))),
                    out@.len() == it.index(),
                    forall|k: int| 0 <= k < out@.len() ==> #[trigger] out@[k]@ == value_view(all[k]),
            {
                proof {
                    let k = it.index() as int;
                    assert(x == all[k]);
                    assert(decreases_to!(whole => whole->Array_0));
                    assert(decreases_to!(whole->Array_0 => whole->Array_0[k]));
                }
                out.push(from_value(x));
            }
            proof {
                lemma_model_array(out);
                assert(views(out@) =~= Seq::new(all.len(), |i: int| value_view(all[i])));
            }
            Json::Array(out)
        },
        JsonParts::Object(pairs) => {
            let ghost all = pairs@;
            proof {
                lemma_put_all_distinct(part_entries(all));
            }
            let mut out: Vec<(String, Json)> = Vec::new();
            for x in it: pairs
                invariant
                    it.seq() == all,
                    whole == value_view(v),
                    whole == JsonView::Object(part_entries(all)),
                    out@.len() == it.index(),
                    forall|k: int|
                        0 <= k < out@.len() ==> (#[trigger] out@[k]).0@ == all[k].0@ && out@[k].1@
                            == value_view(all[k].1),
            {
                proof {
                    let k = it.index() as int;
                    assert(x == all[k]);
                    assert(decreases_to!(whole => whole->Object_0));
                    assert(decreases_to!(whole->Object_0 => whole->Object_0[k]));
                    assert(decreases_to!(whole->Object_0[k] => whole->Object_0[k].1));
                }
                out.push((x.0, from_value(x.1)));
            }
            proof {
                lemma_model_object(out);
                assert(entry_views(out@) =~= part_entries(all));
            }
            Json::Object(out)
        },
    }
}

fn to_value(j: &Json) -> (r: serde_json::Value)
    ensures
        value_view(r) == j@,
    decreases j,
{
    match j {
        Json::Null => put_together(JsonParts::Null),
        Json::Bool(b) => put_together(JsonParts::Bool(*b)),
        Json::Number(n) => put_together(JsonParts::Number(n.clone())),
        Json::Text(s) => put_together(JsonParts::Text(s.clone())),
        Json::Array(v) => {
            let mut out: Vec<serde_json::Value> = Vec::new();
            let mut i: usize = 0;
            while i < v.len()
                invariant
                    i <= v@.len(),
                    *j == Json::Array(*v),
                    out@.len() == i,
                    forall|k: int| 0 <= k < i ==> value_view(#[trigger] out@[k]) == v@[k]@,
                decreases v@.len() - i,
            {
                assert(decreases_to!(*j => j->Array_0));
                assert(decreases_to!(*v => v@));
                assert(decreases_to!(v@ => v@[i as int]));
                out.push(to_value(&v[i]));
                i += 1;
            }
            proof {
                lemma_model_array(*v);
                assert(views(v@) =~= Seq::new(out@.len(), |i: int| value_view(out@[i])));
            }
            put_together(JsonParts::Array(out))
        },
        Json::Object(v) => {
            let mut out: Vec<(String, serde_json::Value)> = Vec::new();
            let mut i: usize = 0;
            while i < v.len()
                invariant
                    i <= v@.len(),
                    *j == Json::Object(*v),
                    out@.len() == i,
                    forall|k: int|
                        0 <= k < i ==> (#[trigger] out@[k]).0@ == v@[k].0@ && value_view(out@[k].1)
                            == v@[k].1@,
                decreases v@.len() - i,
            {
                assert(decreases_to!(*j => j->Object_0));
                assert(decreases_to!(*v => v@));
                assert(decreases_to!(v@ => v@[i as int]));
                assert(decreases_to!(v@[i as int] => v@[i as int].1));
                out.push((v[i].0.clone(), to_value(&v[i].1)));
                i += 1;
            }
            proof {
                lemma_model_object(*v);
                assert(entry_views(v@) =~= part_entries(out@));
            }
            put_together(JsonParts::Object(out))
        },
    }
}

/// The unsigned integer that a value is.
pub open spec fn u64_in(x: Option<JsonView>) -> Option<u64> {
    match x {
        Some(JsonView::Number(n)) => match integer_of(n) {
            Some(i) => if 0 <= i <= u64::MAX {
                Some(i as u64)
            } else {
                None
            },
            None => None,
        },
        _ => None,
    }
}

/// The signed integer that a value is.
pub open spec fn i64_in(x: Option<JsonView>) -> Option<i64> {
    match x {
        Some(JsonView::Number(n)) => match integer_of(n) {
            Some(i) => if i64::MIN <= i <= i64::MAX {
                Some(i as i64)
            } else {
                None
            },
            None => None,
        },
        _ => None,
    }
}

/// An object of plain values is plain if its first pair does not stand under the reserved key.
pub proof fn lemma_object_is_plain(pairs: Seq<(Seq<char>, JsonView)>, levels: nat)
    requires
        levels > 0,
        pairs.len() > 0 ==> pairs[0].0 != RESERVED_KEY@,
        forall|i: int| 0 <= i < pairs.len() ==> is_plain((#[trigger] pairs[i]).1, (levels - 1) as nat),
    ensures
        is_plain(object_of(pairs), levels),
{
    lemma_put_all_plain(pairs, (levels - 1) as nat);
}

proof fn lemma_put_all_plain(pairs: Seq<(Seq<char>, JsonView)>, levels: nat)
    requires
        forall|i: int| 0 <= i < pairs.len() ==> is_plain((#[trigger] pairs[i]).1, levels),
    ensures
        forall|i: int| 0 <= i < put_all(pairs).len() ==> is_plain((#[trigger] put_all(pairs)[i]).1, levels),
        put_all(pairs).len() > 0 <==> pairs.len() > 0,
        pairs.len() > 0 ==> put_all(pairs)[0].0 == pairs[0].0,
    decreases pairs.len(),
{
    if pairs.len() > 0 {
        let init = pairs.drop_last();
        assert forall|i: int| 0 <= i < init.len() implies is_plain((#[trigger] init[i]).1, levels) by {
            assert(is_plain(pairs[i].1, levels));
        }
        lemma_put_all_plain(init, levels);
        let before = put_all(init);
        let after = put_all(pairs);
        assert(is_plain(pairs[pairs.len() - 1].1, levels));
        assert forall|i: int| 0 <= i < after.len() implies is_plain((#[trigger] after[i]).1, levels) by {
            if i < before.len() {
                assert(is_plain(before[i].1, levels));
            }
        }
    }
}

impl Json {
    /// Reads a value in JSON notation; `None` where the text is none.
    pub fn parse(s: &str) -> (r: Option<Json>)
        ensures
            opt_view(r) == json_parsed(s@),
    {
        match read_value(s) {
            Some(v) => Some(from_value(v)),
            None => None,
        }
    }

    /// Reads a list of texts in JSON notation; `None` where the text is none.
    pub fn parse_texts(s: &str) -> (r: Option<Vec<String>>)
        ensures
            texts_parsed(s@) == match r {
                Some(v) => Some(views(v@)),
                None => None,
            },
            s@ == "[]"@ ==> (r is Some && r.unwrap()@.len() == 0),
    {
        read_text_list(s)
    }

    /// The compact notation of this value.
    pub fn to_text(&self) -> (r: String)
        ensures
            r@ == json_text(self@),
            is_kept(self@) ==> json_parsed(r@) == Some(self@),
            texts_in(self@) matches Some(list) ==> texts_parsed(r@) == Some(list),
    {
        let v = to_value(self);
        write_value(&v)
    }

    /// The indented notation of this value.
    pub fn to_pretty(&self) -> (r: String)
        ensures
            r@ == json_pretty(self@),
    {
        let v = to_value(self);
        write_pretty(&v)
    }

    /// The unsigned integer that this value is.
    pub fn as_u64(&self) -> (r: Option<u64>)
        ensures
            r == u64_in(Some(self@)),
    {
        match self {
            Json::Number(n) => number_as_u64(n),
            _ => None,
        }
    }

    /// The signed integer that this value is.
    pub fn as_i64(&self) -> (r: Option<i64>)
        ensures
            r == i64_in(Some(self@)),
    {
        match self {
            Json::Number(n) => number_as_i64(n),
            _ => None,
        }
    }

    /// The number `i`.
    pub fn from_i64(i: i64) -> (r: Json)
        ensures
            r@ == JsonView::Number(number_of(i as int)),
            integer_of(number_of(i as int)) == Some(i as int),
    {
        Json::Number(number_from_i64(i))
    }

    /// The number `i`.
    pub fn from_u64(i: u64) -> (r: Json)
        ensures
            r@ == JsonView::Number(number_of(i as int)),
            integer_of(number_of(i as int)) == Some(i as int),
    {
        Json::Number(number_from_u64(i))
    }
}

/// An object that is made of entries holds under a key what the last entry of that key says,
/// and nothing under a key that no entry has.
pub proof fn law_object_holds_its_entries(pairs: Seq<(Seq<char>, JsonView)>, k: int, key: Seq<char>)
    ensures
        0 <= k < pairs.len() && pairs[k].0 == key && (forall|j: int| k < j < pairs.len() ==> (#[trigger] pairs[j]).0
            != key) ==> field(object_of(pairs), key) == Some(pairs[k].1),
        (forall|j: int| 0 <= j < pairs.len() ==> (#[trigger] pairs[j]).0 != key) ==> field(
            object_of(pairs),
            key,
        ) is None,
{
    lemma_lookup_put_all(pairs, key);
    if 0 <= k < pairs.len() && pairs[k].0 == key && (forall|j: int| k < j < pairs.len() ==> (#[trigger] pairs[j]).0
        != key) {
        lemma_last_entry(pairs, k, key);
    }
    if forall|j: int| 0 <= j < pairs.len() ==> (#[trigger] pairs[j]).0 != key {
        lemma_lookup_some(pairs, key);
    }
}

proof fn lemma_last_entry(pairs: Seq<(Seq<char>, JsonView)>, k: int, key: Seq<char>)
    requires
        0 <= k < pairs.len(),
        pairs[k].0 == key,
        forall|j: int| k < j < pairs.len() ==> (#[trigger] pairs[j]).0 != key,
    ensures
        lookup(pairs, key) == Some(pairs[k].1),
    decreases pairs.len(),
{
    if k < pairs.len() - 1 {
        let init = pairs.drop_last();
        assert(pairs[pairs.len() - 1].0 != key);
        assert forall|j: int| k < j < init.len() implies (#[trigger] init[j]).0 != key by {
            assert(init[j] == pairs[j]);
        }
        lemma_last_entry(init, k, key);
    }
}

/// A field of an object is what its last entry of that key holds, and nothing but an object
/// has fields.
pub proof fn law_a_field_is_its_last_entry(entries: Seq<(Seq<char>, JsonView)>, k: int, key: Seq<char>)
    ensures
        0 <= k < entries.len() && entries[k].0 == key && (forall|j: int|
            k < j < entries.len() ==> (#[trigger] entries[j]).0 != key) ==> field(JsonView::Object(entries), key)
            == Some(entries[k].1),
        (forall|j: int| 0 <= j < entries.len() ==> (#[trigger] entries[j]).0 != key) ==> field(
            JsonView::Object(entries),
            key,
        ) is None,
{
    if 0 <= k < entries.len() && entries[k].0 == key && (forall|j: int|
        k < j < entries.len() ==> (#[trigger] entries[j]).0 != key) {
        lemma_last_entry(entries, k, key);
    }
    if forall|j: int| 0 <= j < entries.len() ==> (#[trigger] entries[j]).0 != key {
        lemma_lookup_some(entries, key);
    }
}

/// A text is read only where there is one, and so is a truth value; a number that is no
/// integer of the size is not read as one.
pub proof fn law_values_are_read_as_what_they_are(x: JsonView, key: Seq<char>, s: Seq<char>, b: bool)
    ensures
        text_field(x, key) == Some(s) <==> field(x, key) == Some(JsonView::Text(s)),
        bool_field(x, key) == Some(b) <==> field(x, key) == Some(JsonView::Bool(b)),
        !(x is Object) ==> field(x, key) is None,
        u64_in(Some(x)) matches Some(n) ==> x is Number && integer_of(x->Number_0) == Some(n as int),
        i64_in(Some(x)) matches Some(n) ==> x is Number && integer_of(x->Number_0) == Some(n as int),
        x is Number ==> (integer_of(x->Number_0) matches Some(i) ==> (0 <= i <= u64::MAX ==> u64_in(Some(x)) == Some(
            i as u64,
        )) && (i64::MIN <= i <= i64::MAX ==> i64_in(Some(x)) == Some(i as i64))),
        text_in(None) is None && bool_in(None) is None && u64_in(None) is None && i64_in(None) is None,
        text_or_null(Some(s)) == JsonView::Text(s) && text_or_null(None) is Null,
{
}

/// A list of texts is read as these texts, and a list that holds anything else is not.
pub proof fn law_lists_of_texts_are_read_back(items: Seq<Seq<char>>, other: Seq<JsonView>, k: int)
    ensures
        texts_in(text_array(items)) == Some(items),
        0 <= k < other.len() && !(other[k] is Text) ==> texts_in(JsonView::Array(other)) is None,
{
    let x = text_array(items);
    let listed = x->Array_0;
    assert(forall|i: int| 0 <= i < listed.len() ==> (#[trigger] listed[i]) is Text);
    assert(texts_in(x).unwrap() =~= items);
}

/// Putting a value under a key leaves every other entry in its place.
pub proof fn law_putting_leaves_the_rest(
    entries: Seq<(Seq<char>, JsonView)>,
    key: Seq<char>,
    value: JsonView,
    other: Seq<char>,
)
    ensures
        field(JsonView::Object(put(entries, key, value)), key) == Some(value),
        other != key ==> field(JsonView::Object(put(entries, key, value)), other) == field(
            JsonView::Object(entries),
            other,
        ),
{
    lemma_lookup_put(entries, key, value, key);
    lemma_lookup_put(entries, key, value, other);
}

} // verus!
