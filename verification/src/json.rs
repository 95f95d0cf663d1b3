//! JSON values as the library reads them.
use crate::text::same_text;
use serde_json::{Number, Value};
use vstd::prelude::*;
use vstd::string::*;

verus! {

/// A JSON number.
#[derive(Debug)]
pub enum JsonNumber {
    /// An integer that is not negative.
    PosInt(u64),
    /// A negative integer.
    NegInt(i64),
    /// Any other number, in the shortest decimal notation that reads back as
    /// the same double (`0.5`, `-0.0`, `1e30`).
    Float(String),
}

/// A JSON value.
#[derive(Debug)]
pub enum JsonValue {
    Null,
    Bool(bool),
    Number(JsonNumber),
    String(String),
    Array(Vec<JsonValue>),
    /// Entries by key; of two entries with one key the later counts.
    Object(Vec<(String, JsonValue)>),
}

/// The mathematical JSON value.
pub enum JsonView {
    Null,
    Bool(bool),
    PosInt(u64),
    NegInt(i64),
    Float(Seq<char>),
    Text(Seq<char>),
    Array(Seq<JsonView>),
    Object(Map<Seq<char>, JsonView>),
}

/// The text of a double, with the two zeros taken for one unless `exact`.
pub open spec fn float_model(text: Seq<char>, exact: bool) -> Seq<char> {
    if !exact && text == "-0.0"@ {
        "0.0"@
    } else {
        text
    }
}

/// The mathematical value that `value` holds.
pub open spec fn json_model(value: JsonValue, exact: bool) -> JsonView
    decreases value, 0nat,
{
    match value {
        JsonValue::Null => JsonView::Null,
        JsonValue::Bool(b) => JsonView::Bool(b),
        JsonValue::Number(JsonNumber::PosInt(n)) => JsonView::PosInt(n),
        JsonValue::Number(JsonNumber::NegInt(n)) => JsonView::NegInt(n),
        JsonValue::Number(JsonNumber::Float(t)) => JsonView::Float(float_model(t@, exact)),
        JsonValue::String(t) => JsonView::Text(t@),
        JsonValue::Array(items) => JsonView::Array(array_model(items, items@.len(), exact)),
        JsonValue::Object(entries) => JsonView::Object(
            object_model(entries, entries@.len(), exact),
        ),
    }
}

/// The mathematical values of the first `n` items.
pub open spec fn array_model(items: Vec<JsonValue>, n: nat, exact: bool) -> Seq<JsonView>
    decreases items, n,
{
    if n == 0 || n > items@.len() {
        Seq::empty()
    } else {
        array_model(items, (n - 1) as nat, exact).push(json_model(items@[n - 1], exact))
    }
}

/// The map that the first `n` entries make.
pub open spec fn object_model(entries: Vec<(String, JsonValue)>, n: nat, exact: bool) -> Map<
    Seq<char>,
    JsonView,
>
    decreases entries, n,
{
    if n == 0 || n > entries@.len() {
        Map::empty()
    } else {
        object_model(entries, (n - 1) as nat, exact).insert(
            entries@[n - 1].0@,
            json_model(entries@[n - 1].1, exact),
        )
    }
}

impl View for JsonValue {
    type V = JsonView;

    /// The value as it is written: the two zeros differ.
    open spec fn view(&self) -> JsonView {
        json_model(*self, true)
    }
}

impl JsonValue {
    /// The value as it compares: the two zeros are one number.
    pub open spec fn meaning(self) -> JsonView {
        json_model(self, false)
    }
}

/// An item of the model is the model of the item.
pub(crate) proof fn lemma_array_model(items: Vec<JsonValue>, n: nat, exact: bool)
    requires
        n <= items@.len(),
    ensures
        array_model(items, n, exact).len() == n,
        forall|i: int|
            0 <= i < n ==> #[trigger] array_model(items, n, exact)[i] == json_model(
                items@[i],
                exact,
            ),
    decreases n,
{
    if n > 0 {
        lemma_array_model(items, (n - 1) as nat, exact);
    }
}

/// Every key of the first `n` entries is a key of the map, and no other is.
pub(crate) proof fn lemma_object_keys(entries: Vec<(String, JsonValue)>, n: nat, exact: bool)
    requires
        n <= entries@.len(),
    ensures
        forall|i: int|
            0 <= i < n ==> object_model(entries, n, exact).contains_key(
                (#[trigger] entries@[i]).0@,
            ),
        forall|k: Seq<char>| #[trigger]
            object_model(entries, n, exact).contains_key(k) ==> exists|i: int|
                0 <= i < n && (#[trigger] entries@[i]).0@ == k,
    decreases n,
{
    if n > 0 {
        lemma_object_keys(entries, (n - 1) as nat, exact);
        assert forall|k: Seq<char>| #[trigger]
            object_model(entries, n, exact).contains_key(k) implies exists|i: int|
            0 <= i < n && (#[trigger] entries@[i]).0@ == k by {
            if entries@[n - 1].0@ == k {
            } else {
                assert(object_model(entries, (n - 1) as nat, exact).contains_key(k));
            }
        }
    }
}

/// Entries after `at` with other keys leave what `at` put under its key.
pub(crate) proof fn lemma_object_entry(entries: Vec<(String, JsonValue)>, n: nat, at: int, exact: bool)
    requires
        0 <= at < n <= entries@.len(),
        forall|j: int| at < j < n ==> (#[trigger] entries@[j]).0@ != entries@[at].0@,
    ensures
        object_model(entries, n, exact).contains_key(entries@[at].0@),
        object_model(entries, n, exact)[entries@[at].0@] == json_model(entries@[at].1, exact),
    decreases n,
{
    if n - 1 > at {
        lemma_object_entry(entries, (n - 1) as nat, at, exact);
    }
}

/// The entry that counts for a key of the map.
proof fn lemma_counting_entry(entries: Vec<(String, JsonValue)>, n: nat, key: Seq<char>) -> (at: int)
    requires
        n <= entries@.len(),
        object_model(entries, n, true).contains_key(key),
    ensures
        0 <= at < n,
        entries@[at].0@ == key,
        object_model(entries, n, true)[key] == json_model(entries@[at].1, true),
        object_model(entries, n, false).contains_key(key),
        object_model(entries, n, false)[key] == json_model(entries@[at].1, false),
    decreases n,
{
    if entries@[n - 1].0@ == key {
        n - 1
    } else {
        lemma_counting_entry(entries, (n - 1) as nat, key)
    }
}

/// Values that are written alike compare alike: their meanings are equal.
pub proof fn law_equal_views_mean_alike(a: JsonValue, b: JsonValue)
    requires
        a@ == b@,
    ensures
        a.meaning() == b.meaning(),
    decreases a,
{
    match (a, b) {
        (JsonValue::Array(xs), JsonValue::Array(ys)) => {
            lemma_array_model(xs, xs@.len(), true);
            lemma_array_model(ys, ys@.len(), true);
            lemma_array_model(xs, xs@.len(), false);
            lemma_array_model(ys, ys@.len(), false);
            let x = array_model(xs, xs@.len(), true);
            let y = array_model(ys, ys@.len(), true);
            assert forall|i: int| 0 <= i < xs@.len() implies array_model(xs, xs@.len(), false)[i]
                == array_model(ys, ys@.len(), false)[i] by {
                assert(x[i] == y[i]);
                law_equal_views_mean_alike(xs@[i], ys@[i]);
            }
            assert(array_model(xs, xs@.len(), false) =~= array_model(ys, ys@.len(), false));
        },
        (JsonValue::Object(xs), JsonValue::Object(ys)) => {
            let x = object_model(xs, xs@.len(), false);
            let y = object_model(ys, ys@.len(), false);
            lemma_object_keys(xs, xs@.len(), true);
            lemma_object_keys(ys, ys@.len(), true);
            lemma_object_keys(xs, xs@.len(), false);
            lemma_object_keys(ys, ys@.len(), false);
            assert forall|k: Seq<char>| x.contains_key(k) <==> y.contains_key(k) by {
                assert(object_model(xs, xs@.len(), true).contains_key(k) <==> object_model(
                    ys,
                    ys@.len(),
                    true,
                ).contains_key(k));
            }
            assert forall|k: Seq<char>| x.contains_key(k) implies x[k] == y[k] by {
                let i = lemma_counting_entry(xs, xs@.len(), k);
                let j = lemma_counting_entry(ys, ys@.len(), k);
                law_equal_views_mean_alike(xs@[i].1, ys@[j].1);
            }
            assert(x =~= y);
        },
        _ => {},
    }
}

/// The index of the entry that counts for `key`.
fn entry_index(entries: &Vec<(String, JsonValue)>, key: &str) -> (found: Option<usize>)
    ensures
        match found {
            Some(at) => {
                &&& at < entries@.len()
                &&& entries@[at as int].0@ == key@
                &&& forall|exact: bool| #[trigger]
                    object_model(*entries, entries@.len(), exact).contains_key(key@)
                &&& forall|exact: bool| #[trigger]
                    object_model(*entries, entries@.len(), exact)[key@] == json_model(
                        entries@[at as int].1,
                        exact,
                    )
            },
            None => forall|exact: bool|
                !#[trigger] object_model(*entries, entries@.len(), exact).contains_key(key@),
        },
{
    let mut i: usize = entries.len();
    while i > 0
        invariant
            i <= entries@.len(),
            forall|j: int| i <= j < entries@.len() ==> (#[trigger] entries@[j]).0@ != key@,
        decreases i,
    {
        i = i - 1;
        if same_text(entries[i].0.as_str(), key) {
            proof {
                lemma_object_entry(*entries, entries@.len(), i as int, true);
                lemma_object_entry(*entries, entries@.len(), i as int, false);
            }
            return Some(i);
        }
    }
    proof {
        lemma_object_keys(*entries, entries@.len(), true);
        lemma_object_keys(*entries, entries@.len(), false);
    }
    None
}

impl JsonNumber {
    /// A copy of the number.
    fn copy(&self) -> (number: JsonNumber)
        ensures
            number == *self,
    {
        match self {
            JsonNumber::PosInt(n) => JsonNumber::PosInt(*n),
            JsonNumber::NegInt(n) => JsonNumber::NegInt(*n),
            JsonNumber::Float(text) => JsonNumber::Float(text.clone()),
        }
    }

    fn same(&self, other: &JsonNumber) -> (same: bool)
        ensures
            same == (json_model(JsonValue::Number(*self), false) == json_model(
                JsonValue::Number(*other),
                false,
            )),
    {
        match (self, other) {
            (JsonNumber::PosInt(a), JsonNumber::PosInt(b)) => *a == *b,
            (JsonNumber::NegInt(a), JsonNumber::NegInt(b)) => *a == *b,
            (JsonNumber::Float(a), JsonNumber::Float(b)) => {
                let a_zero = same_text(a.as_str(), "-0.0") || same_text(a.as_str(), "0.0");
                let b_zero = same_text(b.as_str(), "-0.0") || same_text(b.as_str(), "0.0");
                (a_zero && b_zero) || same_text(a.as_str(), b.as_str())
            },
            _ => false,
        }
    }
}

impl JsonValue {
    /// Whether two values are equal: numbers by value within their kind,
    /// objects whatever the order of their keys.
    pub fn same(&self, other: &JsonValue) -> (same: bool)
        ensures
            same == (self.meaning() == other.meaning()),
        decreases self,
    {
        match (self, other) {
            (JsonValue::Null, JsonValue::Null) => true,
            (JsonValue::Bool(a), JsonValue::Bool(b)) => *a == *b,
            (JsonValue::Number(a), JsonValue::Number(b)) => a.same(b),
            (JsonValue::String(a), JsonValue::String(b)) => same_text(a.as_str(), b.as_str()),
            (JsonValue::Array(a), JsonValue::Array(b)) => JsonValue::same_items(a, b),
            (JsonValue::Object(a), JsonValue::Object(b)) => JsonValue::same_entries(a, b),
            _ => false,
        }
    }

    fn same_items(a: &Vec<JsonValue>, b: &Vec<JsonValue>) -> (same: bool)
        ensures
            same == (array_model(*a, a@.len(), false) == array_model(*b, b@.len(), false)),
        decreases a,
    {
        proof {
            lemma_array_model(*a, a@.len(), false);
            lemma_array_model(*b, b@.len(), false);
        }
        let ghost left = array_model(*a, a@.len(), false);
        let ghost right = array_model(*b, b@.len(), false);
        if a.len() != b.len() {
            return false;
        }
        let mut i: usize = 0;
        while i < a.len()
            invariant
                i <= a@.len() == b@.len(),
                left == array_model(*a, a@.len(), false),
                right == array_model(*b, b@.len(), false),
                left.len() == a@.len(),
                right.len() == b@.len(),
                forall|j: int| 0 <= j < a@.len() ==> #[trigger] left[j] == json_model(a@[j], false),
                forall|j: int| 0 <= j < b@.len() ==> #[trigger] right[j] == json_model(b@[j], false),
                forall|j: int| 0 <= j < i ==> #[trigger] left[j] == right[j],
            decreases a.len() - i,
        {
            if !a[i].same(&b[i]) {
                assert(left[i as int] != right[i as int]);
                return false;
            }
            i = i + 1;
        }
        assert(left =~= right);
        true
    }

    fn same_entries(a: &Vec<(String, JsonValue)>, b: &Vec<(String, JsonValue)>) -> (same: bool)
        ensures
            same == (object_model(*a, a@.len(), false) == object_model(*b, b@.len(), false)),
        decreases a,
    {
        let ghost left = object_model(*a, a@.len(), false);
        let ghost right = object_model(*b, b@.len(), false);
        proof {
            lemma_object_keys(*a, a@.len(), false);
            lemma_object_keys(*b, b@.len(), false);
        }
        let mut i: usize = 0;
        while i < a.len()
            invariant
                i <= a@.len(),
                left == object_model(*a, a@.len(), false),
                right == object_model(*b, b@.len(), false),
                forall|j: int| 0 <= j < a@.len() ==> left.contains_key((#[trigger] a@[j]).0@),
                forall|j: int|
                    0 <= j < i ==> right.contains_key((#[trigger] a@[j]).0@) && left[a@[j].0@]
                        == right[a@[j].0@],
            decreases a.len() - i,
        {
            let key = a[i].0.as_str();
            let mine = entry_index(a, key);
            let theirs = entry_index(b, key);
            match (mine, theirs) {
                (Some(x), Some(y)) => {
                    if !a[x].1.same(&b[y].1) {
                        assert(left[key@] != right[key@]);
                        return false;
                    }
                },
                _ => {
                    assert(left.contains_key(a@[i as int].0@));
                    assert(!right.contains_key(key@));
                    return false;
                },
            }
            i = i + 1;
        }
        let mut k: usize = 0;
        while k < b.len()
            invariant
                k <= b@.len(),
                left == object_model(*a, a@.len(), false),
                right == object_model(*b, b@.len(), false),
                forall|j: int| 0 <= j < b@.len() ==> right.contains_key((#[trigger] b@[j]).0@),
                forall|j: int| 0 <= j < k ==> left.contains_key((#[trigger] b@[j]).0@),
            decreases b.len() - k,
        {
            let key = b[k].0.as_str();
            match entry_index(a, key) {
                Some(_) => {},
                None => {
                    assert(right.contains_key(b@[k as int].0@));
                    assert(!left.contains_key(key@));
                    return false;
                },
            }
            k = k + 1;
        }
        assert(left =~= right);
        true
    }

    fn copy(&self) -> (value: JsonValue)
        ensures
            value@ == self@,
            value.meaning() == self.meaning(),
        decreases self,
    {
        match self {
            JsonValue::Null => JsonValue::Null,
            JsonValue::Bool(b) => JsonValue::Bool(*b),
            JsonValue::Number(n) => JsonValue::Number(n.copy()),
            JsonValue::String(text) => JsonValue::String(text.clone()),
            JsonValue::Array(items) => {
                let mut copies: Vec<JsonValue> = Vec::new();
                let mut i: usize = 0;
                while i < items.len()
                    invariant
                        i <= items@.len(),
                        copies@.len() == i,
                        decreases_to!(self => items),
                        forall|j: int, exact: bool|
                            0 <= j < i ==> #[trigger] json_model(copies@[j], exact) == json_model(
                                items@[j],
                                exact,
                            ),
                    decreases items.len() - i,
                {
                    let item = items[i].copy();
                    proof {
                        assert forall|exact: bool| #[trigger]
                            json_model(item, exact) == json_model(items@[i as int], exact) by {
                            if exact {
                            } else {
                            }
                        }
                    }
                    copies.push(item);
                    i = i + 1;
                }
                proof {
                    lemma_array_model(copies, copies@.len(), true);
                    lemma_array_model(*items, items@.len(), true);
                    lemma_array_model(copies, copies@.len(), false);
                    lemma_array_model(*items, items@.len(), false);
                    assert(array_model(copies, copies@.len(), true) =~= array_model(
                        *items,
                        items@.len(),
                        true,
                    ));
                    assert(array_model(copies, copies@.len(), false) =~= array_model(
                        *items,
                        items@.len(),
                        false,
                    ));
                }
                JsonValue::Array(copies)
            },
            JsonValue::Object(entries) => {
                let mut copies: Vec<(String, JsonValue)> = Vec::new();
                let mut i: usize = 0;
                while i < entries.len()
                    invariant
                        i <= entries@.len(),
                        copies@.len() == i,
                        decreases_to!(self => entries),
                        forall|j: int|
                            0 <= j < i ==> (#[trigger] copies@[j]).0@ == entries@[j].0@,
                        forall|j: int, exact: bool|
                            0 <= j < i ==> #[trigger] json_model(copies@[j].1, exact)
                                == json_model(entries@[j].1, exact),
                    decreases entries.len() - i,
                {
                    let item = entries[i].1.copy();
                    proof {
                        assert forall|exact: bool| #[trigger]
                            json_model(item, exact) == json_model(entries@[i as int].1, exact) by {
                            if exact {
                            } else {
                            }
                        }
                    }
                    copies.push((entries[i].0.clone(), item));
                    i = i + 1;
                }
                proof {
                    lemma_object_model_same(copies, *entries, copies@.len(), true);
                    lemma_object_model_same(copies, *entries, copies@.len(), false);
                }
                JsonValue::Object(copies)
            },
        }
    }

    /// The value under `key`, where this is an object that has one.
    pub fn get(&self, key: &str) -> (found: Option<&JsonValue>)
        ensures
            match found {
                Some(value) => {
                    &&& self@ is Object
                    &&& self@->Object_0.contains_key(key@)
                    &&& value@ == self@->Object_0[key@]
                    &&& self.meaning() is Object
                    &&& self.meaning()->Object_0.contains_key(key@)
                    &&& value.meaning() == self.meaning()->Object_0[key@]
                },
                None => {
                    &&& self@ is Object ==> !self@->Object_0.contains_key(key@)
                    &&& self.meaning() is Object ==> !self.meaning()->Object_0.contains_key(key@)
                },
            },
    {
        match self {
            JsonValue::Object(entries) => {
                match entry_index(entries, key) {
                    Some(at) => {
                        assert(object_model(*entries, entries@.len(), false).contains_key(key@));
                        assert(object_model(*entries, entries@.len(), true)[key@] == json_model(
                            entries@[at as int].1,
                            true,
                        ));
                        assert(object_model(*entries, entries@.len(), false)[key@] == json_model(
                            entries@[at as int].1,
                            false,
                        ));
                        Some(&entries[at].1)
                    },
                    None => {
                        assert(!object_model(*entries, entries@.len(), true).contains_key(key@));
                        assert(!object_model(*entries, entries@.len(), false).contains_key(key@));
                        None
                    },
                }
            },
            _ => None,
        }
    }
}

impl Clone for JsonValue {
    /// A deep copy of the value.
    fn clone(&self) -> (value: JsonValue)
        ensures
            value@ == self@,
            value.meaning() == self.meaning(),
    {
        self.copy()
    }
}

/// The value type of `serde_json`, which writes the texts of values.
#[verifier::external_type_specification]
#[verifier::external_body]
pub struct ExValue(serde_json::Value);

/// The `serde_json` value that stands for a value of the library.
pub uninterp spec fn serde_value(value: JsonView) -> serde_json::Value;

/// The `serde_json` value built variant by variant by its own constructors. A
/// number that is no integer goes through the double that its notation reads
/// as; one that reads as no finite double becomes null.
#[verifier::external_body]
pub(crate) fn to_serde(value: &JsonValue) -> (outside: Value)
    ensures
        outside == serde_value(value@),
{
    match value {
        JsonValue::Null => Value::Null,
        JsonValue::Bool(b) => Value::Bool(*b),
        JsonValue::Number(JsonNumber::PosInt(n)) => Value::from(*n),
        JsonValue::Number(JsonNumber::NegInt(n)) => Value::from(*n),
        JsonValue::Number(JsonNumber::Float(t)) =>
            t.parse().ok().and_then(Number::from_f64).map_or(Value::Null, Value::Number),
        JsonValue::String(t) => Value::String(t.clone()),
        JsonValue::Array(items) => Value::Array(items.iter().map(to_serde).collect()),
        JsonValue::Object(entries) =>
            Value::Object(entries.iter().map(|e| (e.0.clone(), to_serde(&e.1))).collect()),
    }
}

/// The JSON text that `serde_json::to_string` writes, with sorted keys.
pub uninterp spec fn json_text(value: serde_json::Value) -> Seq<char>;

/// `serde_json::to_string` of a value, which has no case of failure.
#[verifier::external_body]
pub(crate) fn write_json(value: &Value) -> (text: String)
    ensures
        text@ == json_text(*value),
{
    serde_json::to_string(value).unwrap_or_default()
}

/// The debug format of a `serde_json` value.
pub uninterp spec fn json_debug(value: serde_json::Value) -> Seq<char>;

/// The debug format of `serde_json::Value`.
#[verifier::external_body]
pub(crate) fn debug_json(value: &Value) -> (text: String)
    ensures
        text@ == json_debug(*value),
{
    format!("{:?}", value)
}

/// The debug format of a list of `serde_json` values.
pub uninterp spec fn json_list_debug(values: Seq<serde_json::Value>) -> Seq<char>;

/// The debug format of a vector of `serde_json::Value`.
#[verifier::external_body]
pub(crate) fn debug_json_list(values: &Vec<Value>) -> (text: String)
    ensures
        text@ == json_list_debug(values@),
{
    format!("{:?}", values)
}

/// The canonical JSON text of a value.
pub open spec fn canonical_text(value: JsonView) -> Seq<char> {
    json_text(serde_value(value))
}

/// Writes the canonical JSON text of a value: object keys come sorted.
pub fn canonical_json(value: &JsonValue) -> (text: String)
    ensures
        text@ == canonical_text(value@),
{
    write_json(&to_serde(value))
}

/// Entries with equal keys and values make equal maps.
proof fn lemma_object_model_same(
    a: Vec<(String, JsonValue)>,
    b: Vec<(String, JsonValue)>,
    n: nat,
    exact: bool,
)
    requires
        n <= a@.len(),
        n <= b@.len(),
        forall|j: int| 0 <= j < n ==> (#[trigger] a@[j]).0@ == b@[j].0@,
        forall|j: int|
            0 <= j < n ==> #[trigger] json_model(a@[j].1, exact) == json_model(b@[j].1, exact),
    ensures
        object_model(a, n, exact) == object_model(b, n, exact),
    decreases n,
{
    if n > 0 {
        lemma_object_model_same(a, b, (n - 1) as nat, exact);
        assert(a@[n - 1].0@ == b@[n - 1].0@);
        assert(json_model(a@[n - 1].1, exact) == json_model(b@[n - 1].1, exact));
    }
}

/// Neighbouring entries with different keys can change places.
pub(crate) proof fn lemma_swapped_entries(
    a: Vec<(String, JsonValue)>,
    b: Vec<(String, JsonValue)>,
    i: int,
    n: nat,
    exact: bool,
)
    requires
        0 <= i < a@.len() - 1,
        b@ == a@.update(i, a@[i + 1]).update(i + 1, a@[i]),
        a@[i].0@ != a@[i + 1].0@,
        n <= a@.len(),
        n != i + 1,
    ensures
        object_model(a, n, exact) == object_model(b, n, exact),
    decreases n,
{
    if n == i + 2 {
        lemma_swapped_entries(a, b, i, i as nat, exact);
        let before = object_model(a, i as nat, exact);
        let (k, v) = (a@[i].0@, json_model(a@[i].1, exact));
        let (l, w) = (a@[i + 1].0@, json_model(a@[i + 1].1, exact));
        assert(object_model(a, (i + 1) as nat, exact) == before.insert(k, v));
        assert(object_model(b, (i + 1) as nat, exact) == before.insert(l, w));
        assert(before.insert(k, v).insert(l, w) =~= before.insert(l, w).insert(k, v));
    } else if n > 0 {
        lemma_swapped_entries(a, b, i, (n - 1) as nat, exact);
    }
}

/// When two values are the same: the same constant, number or text; lists of the
/// same length with the same values one by one; objects that hold the same under
/// every key. The two zeros are the same number, and values of different types
/// never are the same.
pub proof fn law_same_compares_by_structure(a: JsonValue, b: JsonValue, same: bool)
    requires
        call_ensures(JsonValue::same, (&a, &b), same),
    ensures
        match (a, b) {
            (JsonValue::Null, JsonValue::Null) => same,
            (JsonValue::Bool(x), JsonValue::Bool(y)) => same <==> x == y,
            (JsonValue::String(x), JsonValue::String(y)) => same <==> x@ == y@,
            (
                JsonValue::Number(JsonNumber::PosInt(x)),
                JsonValue::Number(JsonNumber::PosInt(y)),
            ) => same <==> x == y,
            (
                JsonValue::Number(JsonNumber::NegInt(x)),
                JsonValue::Number(JsonNumber::NegInt(y)),
            ) => same <==> x == y,
            (JsonValue::Number(JsonNumber::Float(x)), JsonValue::Number(JsonNumber::Float(y)))
                => same <==> x@ == y@ || ((x@ == "0.0"@ || x@ == "-0.0"@) && (y@ == "0.0"@ || y@
                == "-0.0"@)),
            (JsonValue::Array(xs), JsonValue::Array(ys)) => same <==> xs@.len() == ys@.len()
                && forall|i: int|
                0 <= i < xs@.len() ==> (#[trigger] xs@[i]).meaning() == ys@[i].meaning(),
            (JsonValue::Object(xs), JsonValue::Object(ys)) => same ==> forall|i: int, j: int|
                0 <= i < xs@.len() && 0 <= j < ys@.len() && (#[trigger] xs@[i]).0@ == (
                #[trigger] ys@[j]).0@ && (forall|m: int|
                    i < m < xs@.len() ==> (#[trigger] xs@[m]).0@ != xs@[i].0@) && (forall|m: int|
                    j < m < ys@.len() ==> (#[trigger] ys@[m]).0@ != ys@[j].0@) ==> xs@[i].1.meaning()
                    == ys@[j].1.meaning(),
            _ => !same,
        },
{
    match (a, b) {
        (JsonValue::Array(xs), JsonValue::Array(ys)) => {
            lemma_array_model(xs, xs@.len(), false);
            lemma_array_model(ys, ys@.len(), false);
            let x = array_model(xs, xs@.len(), false);
            let y = array_model(ys, ys@.len(), false);
            if same {
                assert forall|i: int| 0 <= i < xs@.len() implies (#[trigger] xs@[i]).meaning()
                    == ys@[i].meaning() by {
                    assert(x[i] == y[i]);
                }
            }
            if xs@.len() == ys@.len() && forall|i: int|
                0 <= i < xs@.len() ==> (#[trigger] xs@[i]).meaning() == ys@[i].meaning() {
                assert forall|i: int| 0 <= i < x.len() implies x[i] == y[i] by {
                    assert(xs@[i].meaning() == ys@[i].meaning());
                }
                assert(x =~= y);
            }
        },
        (JsonValue::Object(xs), JsonValue::Object(ys)) => {
            if same {
                assert forall|i: int, j: int|
                    0 <= i < xs@.len() && 0 <= j < ys@.len() && (#[trigger] xs@[i]).0@ == (
                    #[trigger] ys@[j]).0@ && (forall|m: int|
                        i < m < xs@.len() ==> (#[trigger] xs@[m]).0@ != xs@[i].0@) && (forall|
                        m: int,
                    |
                        j < m < ys@.len() ==> (#[trigger] ys@[m]).0@
                            != ys@[j].0@) implies xs@[i].1.meaning() == ys@[j].1.meaning() by {
                    lemma_object_entry(xs, xs@.len(), i, false);
                    lemma_object_entry(ys, ys@.len(), j, false);
                }
            }
        },
        _ => {},
    }
}

} // verus!
