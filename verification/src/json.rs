//! JSON values: what a `serde_json::Value` holds, and the operations on it that
//! the library builds on.
use crate::table;
use crate::table::Table;
use crate::text;
use vstd::prelude::*;

verus! {

/// What a JSON value holds. A number is known by the text it is written as;
/// the fields of an object have no order.
#[verifier::ext_equal]
pub enum Json {
    Null,
    Bool(bool),
    Number(Seq<char>),
    Text(Seq<char>),
    Array(Seq<Json>),
    Object(Map<Seq<char>, Json>),
}

/// `serde_json::Value`, known by what it holds.
#[verifier::external_type_specification]
#[verifier::external_body]
pub struct ExValue(serde_json::Value);

/// `serde_json::Error`, of which nothing is known.
#[verifier::external_type_specification]
#[verifier::external_body]
pub struct ExJsonError(serde_json::Error);

/// `jsonc_parser::errors::ParseError`, of which nothing is known.
#[verifier::external_type_specification]
#[verifier::external_body]
pub struct ExJsoncError(jsonc_parser::errors::ParseError);

/// `serde_yaml::Error`, of which nothing is known.
#[verifier::external_type_specification]
#[verifier::external_body]
pub struct ExYamlError(serde_yaml::Error);

/// What a `serde_json::Value` holds.
pub uninterp spec fn json(v: serde_json::Value) -> Json;

/// What each of several values holds.
pub open spec fn jsons(values: Seq<serde_json::Value>) -> Seq<Json> {
    Seq::new(values.len(), |i: int| json(values[i]))
}

/// What stands under `key`, where the value is an object that has it.
pub open spec fn field_of(v: Json, key: Seq<char>) -> Option<Json> {
    match v {
        Json::Object(m) => if m.dom().contains(key) {
            Some(m[key])
        } else {
            None
        },
        _ => None,
    }
}

/// `serde_json::Value::get` with a text key: the field of an object, and
/// nothing for a missing field or another kind of value.
#[verifier::external_body]
pub(crate) fn field<'a>(v: &'a serde_json::Value, key: &str) -> (r: Option<&'a serde_json::Value>)
    ensures
        r is Some <==> field_of(json(*v), key@) is Some,
        r matches Some(x) ==> field_of(json(*v), key@) == Some(json(*x)),
{
    v.get(key)
}

/// `serde_json::Value::as_str`: the text, where the value is a text.
pub assume_specification[ serde_json::Value::as_str ](v: &serde_json::Value) -> (r: Option<&str>)
    ensures
        r is Some <==> json(*v) is Text,
        r matches Some(s) ==> json(*v) == Json::Text(s@),
;

/// `serde_json::Value::as_bool`: the truth value, where the value is one.
pub assume_specification[ serde_json::Value::as_bool ](v: &serde_json::Value) -> (r: Option<bool>)
    ensures
        r is Some <==> json(*v) is Bool,
        r matches Some(b) ==> json(*v) == Json::Bool(b),
;

/// `serde_json::Value::as_array`: the items, where the value is an array.
pub assume_specification[ serde_json::Value::as_array ](v: &serde_json::Value) -> (r: Option<
    &Vec<serde_json::Value>,
>)
    ensures
        r is Some <==> json(*v) is Array,
        r matches Some(items) ==> json(*v) == Json::Array(jsons(items@)),
;

/// `serde_json::Value::is_null`: whether the value is null.
pub assume_specification[ serde_json::Value::is_null ](v: &serde_json::Value) -> (r: bool)
    ensures
        r == (json(*v) is Null),
;

/// `serde_json::Value::clone`: the copy holds the same.
pub assume_specification[ <serde_json::Value as Clone>::clone ](v: &serde_json::Value) -> (r:
    serde_json::Value)
    ensures
        json(r) == json(*v),
;

/// `serde_json::Value::as_number`, with the number written out by its
/// `to_string`: the text of a number.
#[verifier::external_body]
pub(crate) fn number_text(v: &serde_json::Value) -> (r: Option<String>)
    ensures
        r is Some <==> json(*v) is Number,
        r matches Some(s) ==> json(*v) == Json::Number(s@),
{
    v.as_number().map(|n| n.to_string())
}

/// `serde_json::Map::keys` on the fields of an object: every field name once,
/// in dictionary order.
#[verifier::external_body]
pub(crate) fn field_names(v: &serde_json::Value) -> (r: Option<Vec<String>>)
    ensures
        r is Some <==> json(*v) is Object,
        r matches Some(names) ==> {
            &&& table::ascending(names.deep_view())
            &&& names.deep_view().to_set() == json(*v)->Object_0.dom()
        },
{
    v.as_object().map(|m| m.keys().cloned().collect())
}

/// `serde_json::Value::Null`.
#[verifier::external_body]
pub(crate) fn null() -> (r: serde_json::Value)
    ensures
        json(r) == Json::Null,
{
    serde_json::Value::Null
}

/// `serde_json::Value::Bool`.
#[verifier::external_body]
pub(crate) fn of_bool(b: bool) -> (r: serde_json::Value)
    ensures
        json(r) == Json::Bool(b),
{
    serde_json::Value::Bool(b)
}

/// `serde_json::Value::String`.
#[verifier::external_body]
pub(crate) fn of_text(s: String) -> (r: serde_json::Value)
    ensures
        json(r) == Json::Text(s@),
{
    serde_json::Value::String(s)
}

/// `serde_json::Value::Array`.
#[verifier::external_body]
pub(crate) fn of_items(items: Vec<serde_json::Value>) -> (r: serde_json::Value)
    ensures
        json(r) == Json::Array(jsons(items@)),
{
    serde_json::Value::Array(items)
}

/// `serde_json::Map::new`, as a value: an object without fields.
#[verifier::external_body]
pub(crate) fn empty_object() -> (r: serde_json::Value)
    ensures
        json(r) == Json::Object(Map::empty()),
{
    serde_json::Value::Object(serde_json::Map::new())
}

/// `serde_json::Map::insert` on the fields of an object: `key` holds `x`
/// afterwards and every other field is as it was. Any other kind of value
/// comes back as it is.
#[verifier::external_body]
pub(crate) fn with_field(v: serde_json::Value, key: String, x: serde_json::Value) -> (r:
    serde_json::Value)
    ensures
        json(v) matches Json::Object(m) ==> json(r) == Json::Object(m.insert(key@, json(x))),
        !(json(v) is Object) ==> json(r) == json(v),
{
    let mut v = v;
    if let Some(fields) = v.as_object_mut() {
        fields.insert(key, x);
    }
    v
}

/// `serde_json::Map::remove` on the fields of an object: `key` is gone afterwards
/// and every other field is as it was. Any other kind of value comes back as it
/// is.
#[verifier::external_body]
pub(crate) fn without_field(v: serde_json::Value, key: &str) -> (r: serde_json::Value)
    ensures
        json(v) matches Json::Object(m) ==> json(r) == Json::Object(m.remove(key@)),
        !(json(v) is Object) ==> json(r) == json(v),
{
    let mut v = v;
    if let Some(fields) = v.as_object_mut() {
        fields.remove(key);
    }
    v
}

/// Whether two values hold the same, whatever the order of their fields.
pub fn equal(a: &serde_json::Value, b: &serde_json::Value) -> (r: bool)
    ensures
        r == (json(*a) == json(*b)),
    decreases json(*a),
{
    if a.is_null() {
        return b.is_null();
    }
    if let Some(x) = a.as_bool() {
        return match b.as_bool() {
            Some(y) => x == y,
            None => false,
        };
    }
    if let Some(x) = a.as_str() {
        return match b.as_str() {
            Some(y) => text::same(x, y),
            None => false,
        };
    }
    if let Some(x) = number_text(a) {
        return match number_text(b) {
            Some(y) => x == y,
            None => false,
        };
    }
    if let Some(x) = a.as_array() {
        let y = match b.as_array() {
            Some(y) => y,
            None => {
                return false;
            },
        };
        if x.len() != y.len() {
            assert(jsons(x@).len() != jsons(y@).len());
            return false;
        }
        let mut i: usize = 0;
        while i < x.len()
            invariant
                i <= x@.len(),
                x@.len() == y@.len(),
                json(*a) == Json::Array(jsons(x@)),
                json(*b) == Json::Array(jsons(y@)),
                forall|j: int| 0 <= j < i ==> json(x@[j]) == json(#[trigger] y@[j]),
            decreases x@.len() - i,
        {
            proof {
                assert(jsons(x@)[i as int] == json(x@[i as int]));
                assert(jsons(y@)[i as int] == json(y@[i as int]));
                assert(decreases_to!(json(*a) => json(*a)->Array_0));
                assert(decreases_to!(json(*a)->Array_0 => json(*a)->Array_0[i as int]));
            }
            if !equal(&x[i], &y[i]) {
                return false;
            }
            i += 1;
        }
        assert(jsons(x@) =~= jsons(y@));
        return true;
    }
    let x = match field_names(a) {
        Some(x) => x,
        None => {
            return false;
        },
    };
    let y = match field_names(b) {
        Some(y) => y,
        None => {
            return false;
        },
    };
    if x.len() != y.len() {
        proof {
            assert(x.deep_view().len() != y.deep_view().len());
            if json(*a) == json(*b) {
                table::ascending_is_unique(x.deep_view(), y.deep_view());
            }
        }
        return false;
    }
    let ghost m = json(*a)->Object_0;
    let ghost n = json(*b)->Object_0;
    let mut i: usize = 0;
    while i < x.len()
        invariant
            i <= x@.len(),
            x@.len() == y@.len(),
            json(*a) == Json::Object(m),
            json(*b) == Json::Object(n),
            table::ascending(x.deep_view()),
            table::ascending(y.deep_view()),
            x.deep_view().to_set() == m.dom(),
            y.deep_view().to_set() == n.dom(),
            forall|j: int|
                #![trigger x@[j]]
                0 <= j < i ==> x@[j]@ == y@[j]@ && m[x@[j]@] == n[x@[j]@],
        decreases x@.len() - i,
    {
        let ghost k = x@[i as int]@;
        proof {
            assert(x.deep_view()[i as int] == k);
            assert(x.deep_view().to_set().contains(k));
        }
        if x[i] != y[i] {
            proof {
                if m == n {
                    table::ascending_is_unique(x.deep_view(), y.deep_view());
                    assert(y.deep_view()[i as int] == y@[i as int]@);
                }
            }
            return false;
        }
        proof {
            assert(y.deep_view()[i as int] == k);
            assert(y.deep_view().to_set().contains(k));
            assert(decreases_to!(json(*a) => json(*a)->Object_0));
            assert(m.dom().contains(k));
            assert(decreases_to!(json(*a) => json(*a)->Object_0[k]));
        }
        let same = match (field(a, x[i].as_str()), field(b, y[i].as_str())) {
            (Some(p), Some(q)) => equal(p, q),
            _ => false,
        };
        if !same {
            return false;
        }
        i += 1;
    }
    proof {
        assert(x.deep_view() =~= y.deep_view());
        assert forall|k: Seq<char>| m.dom().contains(k) implies m[k] == n[k] by {
            assert(x.deep_view().to_set().contains(k));
            let j = choose|j: int| 0 <= j < x.deep_view().len() && x.deep_view()[j] == k;
            assert(x@[j]@ == k);
        }
        assert(m =~= n);
    }
    true
}

/// The fields in order, a later one in place of an earlier one of its name.
pub open spec fn object_fields(fields: Seq<(Seq<char>, Json)>) -> Map<Seq<char>, Json>
    decreases fields.len(),
{
    if fields.len() == 0 {
        Map::empty()
    } else {
        object_fields(fields.drop_last()).insert(fields.last().0, fields.last().1)
    }
}

/// One more field of an object.
pub broadcast proof fn object_grows(fields: Seq<(Seq<char>, Json)>, field: (Seq<char>, Json))
    ensures
        #[trigger] object_fields(fields.push(field)) == object_fields(fields).insert(
            field.0,
            field.1,
        ),
{
    assert(fields.push(field).drop_last() =~= fields);
}

/// An object has every field that it is built of; of fields of one name the last one
/// counts.
pub proof fn object_has_each_field(fields: Seq<(Seq<char>, Json)>, i: int)
    requires
        0 <= i < fields.len(),
    ensures
        object_fields(fields).dom().contains(fields[i].0),
        (forall|j: int| i < j < fields.len() ==> (#[trigger] fields[j]).0 != fields[i].0)
            ==> object_fields(fields)[fields[i].0] == fields[i].1,
    decreases fields.len(),
{
    let fewer = fields.drop_last();
    if i < fewer.len() {
        assert(fewer[i] == fields[i]);
        object_has_each_field(fewer, i);
        if forall|j: int| i < j < fields.len() ==> (#[trigger] fields[j]).0 != fields[i].0 {
            assert forall|j: int| i < j < fewer.len() implies (#[trigger] fewer[j]).0
                != fewer[i].0 by {
                assert(fields[j].0 != fields[i].0);
            }
            assert(fields[fields.len() - 1].0 != fields[i].0);
        }
    }
}

/// An object has no field but those that it is built of.
pub proof fn object_has_no_other_field(fields: Seq<(Seq<char>, Json)>, key: Seq<char>) -> (r: int)
    requires
        object_fields(fields).dom().contains(key),
    ensures
        0 <= r < fields.len(),
        fields[r].0 == key,
    decreases fields.len(),
{
    if fields.last().0 == key {
        fields.len() - 1
    } else {
        object_has_no_other_field(fields.drop_last(), key)
    }
}

/// The object with these fields.
pub open spec fn object(fields: Seq<(Seq<char>, Json)>) -> Json {
    Json::Object(object_fields(fields))
}

/// A whole number as JSON writes it.
pub open spec fn whole(n: nat) -> Json {
    Json::Number(text::decimal(n))
}

/// `serde_json::Number::from` for an unsigned number, as a value: the number in
/// decimal.
#[verifier::external_body]
pub(crate) fn of_number(n: u64) -> (r: serde_json::Value)
    ensures
        json(r) == whole(n as nat),
{
    serde_json::Value::Number(serde_json::Number::from(n))
}

/// A text value.
pub fn str_value(s: &str) -> (r: serde_json::Value)
    ensures
        json(r) == Json::Text(s@),
{
    of_text(s.to_owned())
}

/// An object under construction.
pub struct Fields {
    value: serde_json::Value,
    fields: Ghost<Seq<(Seq<char>, Json)>>,
}

impl View for Fields {
    type V = Seq<(Seq<char>, Json)>;

    closed spec fn view(&self) -> Seq<(Seq<char>, Json)> {
        self.fields@
    }
}

impl Fields {
    #[verifier::type_invariant]
    spec fn holds_fields(self) -> bool {
        json(self.value) == object(self.fields@)
    }

    /// No fields.
    pub fn new() -> (r: Self)
        ensures
            r@ == Seq::<(Seq<char>, Json)>::empty(),
    {
        Fields { value: empty_object(), fields: Ghost(Seq::empty()) }
    }

    /// One more field.
    pub fn with(self, key: &str, value: serde_json::Value) -> (r: Self)
        ensures
            r@ == self@.push((key@, json(value))),
    {
        proof {
            use_type_invariant(&self);
        }
        let ghost fields = self.fields@.push((key@, json(value)));
        proof {
            assert(fields.drop_last() =~= self.fields@);
        }
        Fields { value: with_field(self.value, key.to_owned(), value), fields: Ghost(fields) }
    }

    /// A text field.
    pub fn with_text(self, key: &str, value: &str) -> (r: Self)
        ensures
            r@ == self@.push((key@, Json::Text(value@))),
    {
        self.with(key, str_value(value))
    }

    /// The object.
    pub fn done(self) -> (r: serde_json::Value)
        ensures
            json(r) == object(self@),
    {
        proof {
            use_type_invariant(&self);
        }
        self.value
    }
}

/// An array under construction.
pub struct List {
    items: Vec<serde_json::Value>,
}

impl View for List {
    type V = Seq<Json>;

    closed spec fn view(&self) -> Seq<Json> {
        jsons(self.items@)
    }
}

impl List {
    /// No items.
    pub fn new() -> (r: Self)
        ensures
            r@ == Seq::<Json>::empty(),
    {
        let r = List { items: Vec::new() };
        proof {
            assert(r@ =~= Seq::<Json>::empty());
        }
        r
    }

    /// One more item.
    pub fn with(self, value: serde_json::Value) -> (r: Self)
        ensures
            r@ == self@.push(json(value)),
    {
        let mut items = self.items;
        items.push(value);
        let r = List { items };
        proof {
            assert(r@ =~= self@.push(json(value)));
        }
        r
    }

    /// One more text item.
    pub fn with_text(self, value: &str) -> (r: Self)
        ensures
            r@ == self@.push(Json::Text(value@)),
    {
        self.with(str_value(value))
    }

    /// How many items there are.
    pub fn len(&self) -> (r: usize)
        ensures
            r == self@.len(),
    {
        self.items.len()
    }

    /// The array.
    pub fn done(self) -> (r: serde_json::Value)
        ensures
            json(r) == Json::Array(self@),
    {
        of_items(self.items)
    }
}

/// Texts as an array.
pub open spec fn text_items(items: Seq<Seq<char>>) -> Json {
    Json::Array(Seq::new(items.len(), |i: int| Json::Text(items[i])))
}

/// An array of texts.
pub fn text_array(items: &Vec<String>) -> (r: serde_json::Value)
    ensures
        json(r) == text_items(items.deep_view()),
{
    let mut out: List = List::new();
    let mut i: usize = 0;
    while i < items.len()
        invariant
            i <= items@.len(),
            out@.len() == i,
            forall|j: int| 0 <= j < i ==> #[trigger] out@[j] == Json::Text(items@[j]@),
        decreases items@.len() - i,
    {
        out = out.with_text(items[i].as_str());
        i += 1;
    }
    proof {
        assert(out@ =~= text_items(items.deep_view())->Array_0);
    }
    out.done()
}

/// The value that a JSON text stands for.
pub uninterp spec fn json_text(text: Seq<char>) -> Option<Json>;

/// `serde_json::from_str` to a `serde_json::Value`: the value that a JSON text
/// stands for, or an error where it stands for none.
#[verifier::external_body]
pub(crate) fn parse_json(text: &str) -> (r: Result<serde_json::Value, serde_json::Error>)
    ensures
        r is Ok <==> json_text(text@) is Some,
        r matches Ok(v) ==> json_text(text@) == Some(json(v)),
{
    serde_json::from_str(text)
}

/// The value that a YAML document stands for.
pub uninterp spec fn yaml_value(text: Seq<char>) -> Option<Json>;

/// `serde_yaml::from_str` to a `serde_json::Value`: the value that a YAML document
/// stands for, or an error where it stands for none.
#[verifier::external_body]
pub(crate) fn parse_yaml(text: &str) -> (r: Result<serde_json::Value, serde_yaml::Error>)
    ensures
        r is Ok <==> yaml_value(text@) is Some,
        r matches Ok(v) ==> yaml_value(text@) == Some(json(v)),
{
    serde_yaml::from_str(text)
}

/// The texts that a JSON list in bytes stands for.
pub uninterp spec fn texts_in(bytes: Seq<u8>) -> Option<Seq<Seq<char>>>;

/// `serde_json::from_slice` to a `Vec<String>`: the texts that a JSON list stands
/// for, or an error where the bytes are no such list.
#[verifier::external_body]
pub(crate) fn parse_texts(bytes: &Vec<u8>) -> (r: Result<Vec<String>, serde_json::Error>)
    ensures
        r is Ok <==> texts_in(bytes@) is Some,
        r matches Ok(items) ==> texts_in(bytes@) == Some(items.deep_view()),
{
    serde_json::from_slice(bytes)
}

/// The text under `key`, where there is one.
pub open spec fn text_of(v: Json, key: Seq<char>) -> Option<Seq<char>> {
    match field_of(v, key) {
        Some(Json::Text(t)) => Some(t),
        _ => None,
    }
}

/// Reads the text under `key`.
pub fn text_field(v: &serde_json::Value, key: &str) -> (r: Option<String>)
    ensures
        r.deep_view() == text_of(json(*v), key@),
{
    match field(v, key) {
        Some(x) => match x.as_str() {
            Some(s) => Some(s.to_owned()),
            None => None,
        },
        None => None,
    }
}

/// What the values of a table hold.
pub open spec fn held(values: Map<Seq<char>, serde_json::Value>) -> Map<Seq<char>, Json> {
    Map::new(|key: Seq<char>| values.dom().contains(key), |key: Seq<char>| json(values[key]))
}

/// The object with the entries of a table.
pub fn of_table(values: &Table<serde_json::Value>) -> (r: serde_json::Value)
    ensures
        json(r) == Json::Object(held(values@)),
{
    let keys: Vec<String> = values.keys();
    let ghost all = keys.deep_view();
    let mut out: serde_json::Value = empty_object();
    let mut i: usize = 0;
    proof {
        assert(held(values@).restrict(all.take(0).to_set()) =~= Map::<Seq<char>, Json>::empty());
    }
    while i < keys.len()
        invariant
            i <= keys@.len(),
            all == keys.deep_view(),
            all.to_set() == values@.dom(),
            json(out) == Json::Object(held(values@).restrict(all.take(i as int).to_set())),
        decreases keys@.len() - i,
    {
        let ghost k = keys@[i as int]@;
        proof {
            assert(all[i as int] == k);
            assert(all.to_set().contains(k));
        }
        if let Some(v) = values.get(keys[i].as_str()) {
            out = with_field(out, keys[i].clone(), v.clone());
        }
        proof {
            let now = all.take(i + 1).to_set();
            let before = all.take(i as int).to_set();
            table::set_grows(all, i as int);
            assert(held(values@).restrict(before).insert(k, json(values@[k])) =~= held(
                values@,
            ).restrict(now));
        }
        i += 1;
    }
    proof {
        assert(all.take(i as int) =~= all);
        assert(held(values@).restrict(all.to_set()) =~= held(values@));
    }
    out
}

/// The text of a YAML document.
pub uninterp spec fn yaml_text(v: Json) -> Option<Seq<char>>;

/// `serde_yaml::to_string`: the value as a YAML document, or an error where it
/// cannot be written as one.
#[verifier::external_body]
pub(crate) fn to_yaml(v: &serde_json::Value) -> (r: Result<String, serde_yaml::Error>)
    ensures
        r is Ok <==> yaml_text(json(*v)) is Some,
        r matches Ok(s) ==> yaml_text(json(*v)) == Some(s@),
{
    serde_yaml::to_string(v)
}

/// A value as JSON text, spread over lines.
pub uninterp spec fn pretty(v: Json) -> Seq<char>;

/// `serde_json::to_string_pretty` on a value, which can always be written.
#[verifier::external_body]
pub(crate) fn to_pretty(v: &serde_json::Value) -> (r: String)
    ensures
        r@ == pretty(json(*v)),
{
    serde_json::to_string_pretty(v).expect("a JSON value can be written as text")
}

/// The fields of one object put over those of another.
pub fn overlay(base: serde_json::Value, over: &serde_json::Value) -> (r: serde_json::Value)
    requires
        json(base) is Object,
        json(*over) is Object,
    ensures
        json(r) == Json::Object(
            json(base)->Object_0.union_prefer_right(json(*over)->Object_0),
        ),
{
    let ghost b = json(base)->Object_0;
    let ghost o = json(*over)->Object_0;
    let names: Vec<String> = match field_names(over) {
        Some(names) => names,
        None => Vec::new(),
    };
    let ghost all = names.deep_view();
    let mut out: serde_json::Value = base;
    let mut i: usize = 0;
    proof {
        assert(b.union_prefer_right(o.restrict(all.take(0).to_set())) =~= b);
    }
    while i < names.len()
        invariant
            i <= names@.len(),
            all == names.deep_view(),
            json(*over) == Json::Object(o),
            all.to_set() == o.dom(),
            json(out) == Json::Object(
                b.union_prefer_right(o.restrict(all.take(i as int).to_set())),
            ),
        decreases names@.len() - i,
    {
        let ghost k = names@[i as int]@;
        proof {
            assert(all[i as int] == k);
            assert(all.to_set().contains(k));
        }
        if let Some(v) = field(over, names[i].as_str()) {
            out = with_field(out, names[i].clone(), v.clone());
        }
        proof {
            let now = all.take(i + 1).to_set();
            let before = all.take(i as int).to_set();
            table::set_grows(all, i as int);
            assert(b.union_prefer_right(o.restrict(before)).insert(k, o[k])
                =~= b.union_prefer_right(o.restrict(now)));
        }
        i += 1;
    }
    proof {
        assert(all.take(i as int) =~= all);
        assert(o.restrict(all.to_set()) =~= o);
    }
    out
}

} // verus!
