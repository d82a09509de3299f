//! JSON documents as plain values, read and printed by `serde_json`.
use vstd::prelude::*;
use vstd::utf8::encode_utf8;

use crate::text::text_eq;

verus! {

/// `serde_json::Value`, opaque here: `value_content` names what it holds.
#[verifier::external_type_specification]
#[verifier::external_body]
pub struct ExValue(serde_json::Value);

/// `serde_json::Number`, carried through; `number_u64` names what `as_u64` reads from it.
#[verifier::external_type_specification]
#[verifier::external_body]
pub struct ExNumber(serde_json::Number);

/// The content of a JSON document.
pub enum JsonModel {
    Null,
    Bool(bool),
    Number(serde_json::Number),
    Text(Seq<char>),
    List(Seq<JsonModel>),
    Table(Map<Seq<char>, JsonModel>),
}

/// A JSON document. The fields of a table stand in the order of writing; where a name occurs
/// twice the later field counts.
#[derive(Debug, PartialEq)]
pub enum Json {
    Null,
    Bool(bool),
    Number(serde_json::Number),
    Text(String),
    List(Vec<Json>),
    Table(Vec<(String, Json)>),
}

/// Why a text is no JSON document.
#[derive(Debug, PartialEq, Eq)]
pub struct JsonFailure {
    /// The text ended too early.
    pub eof: bool,
    /// The reader's own words.
    pub text: String,
}

/// What the elements of a list stand for.
pub open spec fn list_model(items: Seq<Json>) -> Seq<JsonModel>
    decreases items,
{
    if items.len() == 0 {
        Seq::empty()
    } else {
        list_model(items.drop_last()).push(items.last().model())
    }
}

/// What the fields of a table stand for.
pub open spec fn table_model(fields: Seq<(String, Json)>) -> Map<Seq<char>, JsonModel>
    decreases fields,
{
    if fields.len() == 0 {
        Map::empty()
    } else {
        table_model(fields.drop_last()).insert(fields.last().0@, fields.last().1.model())
    }
}

impl Json {
    /// The content of the document.
    pub open spec fn model(self) -> JsonModel
        decreases self,
    {
        match self {
            Json::Null => JsonModel::Null,
            Json::Bool(b) => JsonModel::Bool(b),
            Json::Number(n) => JsonModel::Number(n),
            Json::Text(s) => JsonModel::Text(s@),
            Json::List(items) => JsonModel::List(list_model(items@)),
            Json::Table(fields) => JsonModel::Table(table_model(fields@)),
        }
    }
}

impl View for Json {
    type V = JsonModel;

    open spec fn view(&self) -> JsonModel {
        self.model()
    }
}

impl JsonModel {
    /// The field of that name, if the document is a table that has it.
    pub open spec fn get(self, name: Seq<char>) -> Option<JsonModel> {
        match self {
            JsonModel::Table(fields) => if fields.contains_key(name) {
                Some(fields[name])
            } else {
                None
            },
            _ => None,
        }
    }

    /// The field of that name, `Null` where there is none.
    pub open spec fn at(self, name: Seq<char>) -> JsonModel {
        match self.get(name) {
            Some(value) => value,
            None => JsonModel::Null,
        }
    }

    /// The text of a text.
    pub open spec fn text(self) -> Option<Seq<char>> {
        match self {
            JsonModel::Text(s) => Some(s),
            _ => None,
        }
    }

    /// The elements of a list.
    pub open spec fn list(self) -> Option<Seq<JsonModel>> {
        match self {
            JsonModel::List(items) => Some(items),
            _ => None,
        }
    }

    /// The number, where it is an integer that a `u64` can hold.
    pub open spec fn unsigned(self) -> Option<u64> {
        match self {
            JsonModel::Number(n) => number_u64(n),
            _ => None,
        }
    }
}

/// A text, or `Null`.
pub open spec fn text_or_null(text: Option<Seq<char>>) -> JsonModel {
    match text {
        Some(s) => JsonModel::Text(s),
        None => JsonModel::Null,
    }
}

/// The first element whose field `name` is the text `expected`.
pub open spec fn find_by(items: Seq<JsonModel>, name: Seq<char>, expected: Seq<char>) -> Option<
    JsonModel,
>
    decreases items.len(),
{
    if items.len() == 0 {
        None
    } else if items[0].at(name).text() == Some(expected) {
        Some(items[0])
    } else {
        find_by(items.drop_first(), name, expected)
    }
}

/// What a `serde_json::Value` holds.
pub uninterp spec fn value_content(value: serde_json::Value) -> JsonModel;

/// What `serde_json::Number::as_u64` reads from a number.
pub uninterp spec fn number_u64(number: serde_json::Number) -> Option<u64>;

/// The number that `serde_json::Number::from` makes of a `u64`.
pub uninterp spec fn number_of(n: u64) -> serde_json::Number;

/// The number that `serde_json::Number::from` makes of an `i64`.
pub uninterp spec fn signed_number(n: i64) -> serde_json::Number;

/// What `serde_json::from_slice` reads from bytes: a document, or a failure, told by whether the
/// bytes ended too early and by its text.
pub uninterp spec fn json_document(bytes: Seq<u8>) -> Result<JsonModel, (bool, Seq<char>)>;

/// The text that `serde_json` prints for a document.
pub uninterp spec fn json_text(content: JsonModel) -> Seq<char>;

/// A document without fractions whose lists and tables nest no deeper than that.
pub open spec fn is_plain(content: JsonModel, depth: nat) -> bool
    decreases depth,
{
    match content {
        JsonModel::Number(n) => {
            ||| exists|k: u64| n == #[trigger] number_of(k)
            ||| exists|k: i64| n == #[trigger] signed_number(k)
        },
        JsonModel::List(items) => depth > 0 && forall|i: int|
            0 <= i < items.len() ==> is_plain(#[trigger] items[i], (depth - 1) as nat),
        JsonModel::Table(fields) => depth > 0 && forall|name: Seq<char>| #[trigger]
            fields.contains_key(name) ==> is_plain(fields[name], (depth - 1) as nat),
        _ => true,
    }
}

/// With a newline behind it, a text is read as that document.
pub open spec fn is_line_of(text: Seq<char>, content: JsonModel) -> bool {
    json_document(encode_utf8(text).push(10u8)) == Ok::<JsonModel, (bool, Seq<char>)>(content)
}

/// How deep a plain document may nest and still be read back.
pub const MAX_DEPTH: usize = 100;

/// What `serde_json::from_str::<Vec<String>>` reads from a text: a list of texts, if it is one.
pub uninterp spec fn string_list(text: Seq<char>) -> Option<Seq<Seq<char>>>;

/// One layer of a `serde_json::Value`.
enum Layer {
    Null,
    Bool(bool),
    Number(serde_json::Number),
    Text(String),
    List(Vec<serde_json::Value>),
    Table(Vec<(String, serde_json::Value)>),
}

spec fn list_content(items: Seq<serde_json::Value>) -> Seq<JsonModel> {
    items.map_values(|v: serde_json::Value| value_content(v))
}

spec fn table_content(fields: Seq<(String, serde_json::Value)>) -> Map<Seq<char>, JsonModel>
    decreases fields.len(),
{
    if fields.len() == 0 {
        Map::empty()
    } else {
        table_content(fields.drop_last()).insert(fields.last().0@, value_content(fields.last().1))
    }
}

spec fn layer_content(layer: Layer) -> JsonModel {
    match layer {
        Layer::Null => JsonModel::Null,
        Layer::Bool(b) => JsonModel::Bool(b),
        Layer::Number(n) => JsonModel::Number(n),
        Layer::Text(s) => JsonModel::Text(s@),
        Layer::List(items) => JsonModel::List(list_content(items@)),
        Layer::Table(fields) => JsonModel::Table(table_content(fields@)),
    }
}

/// No two fields have one name.
spec fn distinct_names(fields: Seq<(String, serde_json::Value)>) -> bool {
    forall|i: int, j: int|
        0 <= i < j < fields.len() ==> (#[trigger] fields[i]).0@ != (#[trigger] fields[j]).0@
}

/// Tells the variants of `serde_json::Value` apart and hands out what each holds. The entries of
/// a `serde_json::Map` have distinct names.
#[verifier::external_body]
fn open_value(value: serde_json::Value) -> (layer: Layer)
    ensures
        value_content(value) == layer_content(layer),
        layer matches Layer::Table(fields) ==> distinct_names(fields@),
{
    match value {
        serde_json::Value::Null => Layer::Null,
        serde_json::Value::Bool(b) => Layer::Bool(b),
        serde_json::Value::Number(n) => Layer::Number(n),
        serde_json::Value::String(s) => Layer::Text(s),
        serde_json::Value::Array(items) => Layer::List(items),
        serde_json::Value::Object(fields) => Layer::Table(fields.into_iter().collect()),
    }
}

/// Makes the variant of `serde_json::Value`. Pairs with distinct names are all kept when they are
/// collected into a `serde_json::Map`.
#[verifier::external_body]
fn close_value(layer: Layer) -> (value: serde_json::Value)
    requires
        layer matches Layer::Table(fields) ==> distinct_names(fields@),
    ensures
        value_content(value) == layer_content(layer),
{
    match layer {
        Layer::Null => serde_json::Value::Null,
        Layer::Bool(b) => serde_json::Value::Bool(b),
        Layer::Number(n) => serde_json::Value::Number(n),
        Layer::Text(s) => serde_json::Value::String(s),
        Layer::List(items) => serde_json::Value::Array(items),
        Layer::Table(fields) => serde_json::Value::Object(fields.into_iter().collect()),
    }
}

/// `serde_json::from_slice` on bytes; a failure is told by `Error::is_eof` and its printed text.
#[verifier::external_body]
fn read_value(bytes: &[u8]) -> (read: Result<serde_json::Value, JsonFailure>)
    ensures
        match (read, json_document(bytes@)) {
            (Ok(value), Ok(content)) => value_content(value) == content,
            (Err(failure), Err((eof, text))) => failure.eof == eof && failure.text@ == text,
            _ => false,
        },
{
    serde_json::from_slice(bytes).map_err(
        |e: serde_json::Error| JsonFailure { eof: e.is_eof(), text: e.to_string() },
    )
}

/// `Value::to_string`: the document printed without spaces between its tokens. As a line, a plain
/// document that nests less deep than the reader's limit is read back by `from_slice`; a fraction
/// may not be.
#[verifier::external_body]
fn print_value(value: &serde_json::Value) -> (text: String)
    ensures
        text@ == json_text(value_content(*value)),
        is_plain(value_content(*value), MAX_DEPTH as nat) ==> is_line_of(
            text@,
            value_content(*value),
        ),
{
    value.to_string()
}

/// `serde_json::from_str::<Vec<String>>` on a text, its error dropped.
#[verifier::external_body]
fn read_string_list(text: &str) -> (read: Option<Vec<String>>)
    ensures
        match (read, string_list(text@)) {
            (Some(texts), Some(list)) => texts@.map_values(|t: String| t@) == list,
            (None, None) => true,
            _ => false,
        },
{
    serde_json::from_str::<Vec<String>>(text).ok()
}

/// `serde_json::Number::from` on a `u64`, which `as_u64` reads back.
#[verifier::external_body]
fn make_number(n: u64) -> (number: serde_json::Number)
    ensures
        number == number_of(n),
        number_u64(number) == Some(n),
{
    serde_json::Number::from(n)
}

/// `serde_json::Number::from` on an `i64`.
#[verifier::external_body]
fn make_signed_number(n: i64) -> (number: serde_json::Number)
    ensures
        number == signed_number(n),
{
    serde_json::Number::from(n)
}

/// `serde_json::Number::as_u64`: the number, where it is an integer that a `u64` can hold.
pub assume_specification[ serde_json::Number::as_u64 ](number: &serde_json::Number) -> (n: Option<
    u64,
>)
    ensures
        n == number_u64(*number),
;

/// The clone of a `serde_json::Number` is the same number.
pub assume_specification[ <serde_json::Number as Clone>::clone ](number: &serde_json::Number) -> (r:
    serde_json::Number)
    ensures
        r == *number,
;

/// In a table with distinct names each field is found under its name.
proof fn lemma_table_content_at(fields: Seq<(String, serde_json::Value)>, i: int)
    requires
        distinct_names(fields),
        0 <= i < fields.len(),
    ensures
        table_content(fields).contains_key(fields[i].0@),
        table_content(fields)[fields[i].0@] == value_content(fields[i].1),
    decreases fields.len(),
{
    if i < fields.len() - 1 {
        let front = fields.drop_last();
        assert(distinct_names(front)) by {
            assert forall|a: int, b: int| 0 <= a < b < front.len() implies (#[trigger] front[a]).0@
                != (#[trigger] front[b]).0@ by {
                assert(fields[a].0@ != fields[b].0@);
            }
        }
        lemma_table_content_at(front, i);
        assert(fields[i].0@ != fields[fields.len() - 1].0@);
    }
}

/// The document that a `serde_json::Value` holds.
pub fn from_value(value: serde_json::Value) -> (json: Json)
    ensures
        json@ == value_content(value),
    decreases value_content(value),
{
    let ghost whole = value_content(value);
    match open_value(value) {
        Layer::Null => Json::Null,
        Layer::Bool(b) => Json::Bool(b),
        Layer::Number(n) => Json::Number(n),
        Layer::Text(s) => Json::Text(s),
        Layer::List(items) => {
            let mut out: Vec<Json> = Vec::new();
            let ghost all = items@;
            for item in it: items
                invariant
                    it.seq() == all,
                    whole == value_content(value),
                    whole == JsonModel::List(list_content(all)),
                    list_model(out@) == list_content(all).take(it.index() as int),
            {
                assert(decreases_to!(whole => whole->List_0));
                assert(list_content(all)[it.index() as int] == value_content(item));
                let ghost before = out@;
                out.push(from_value(item));
                assert(out@.drop_last() =~= before);
                assert(list_content(all).take(it.index() + 1) =~= list_content(all).take(
                    it.index() as int,
                ).push(value_content(item)));
            }
            assert(list_content(all).take(all.len() as int) =~= list_content(all));
            Json::List(out)
        },
        Layer::Table(fields) => {
            let mut out: Vec<(String, Json)> = Vec::new();
            let ghost all = fields@;
            assert(all.take(0) =~= Seq::<(String, serde_json::Value)>::empty());
            for field in it: fields
                invariant
                    it.seq() == all,
                    distinct_names(all),
                    whole == value_content(value),
                    whole == JsonModel::Table(table_content(all)),
                    table_model(out@) == table_content(all.take(it.index() as int)),
            {
                proof {
                    lemma_table_content_at(all, it.index() as int);
                    assert(decreases_to!(whole => whole->Table_0[all[it.index() as int].0@]));
                }
                let (name, part) = field;
                let ghost before = out@;
                out.push((name, from_value(part)));
                assert(out@.drop_last() =~= before);
                assert(all.take(it.index() + 1).drop_last() =~= all.take(it.index() as int));
            }
            assert(all.take(all.len() as int) =~= all);
            Json::Table(out)
        },
    }
}

/// Taking one field of a name out changes the table under that name only.
proof fn lemma_table_content_remove(
    fields: Seq<(String, serde_json::Value)>,
    i: int,
    name: Seq<char>,
    value: JsonModel,
)
    requires
        0 <= i < fields.len(),
        fields[i].0@ == name,
    ensures
        table_content(fields.remove(i)).insert(name, value) == table_content(fields).insert(
            name,
            value,
        ),
    decreases fields.len(),
{
    let rest = fields.remove(i);
    if i == fields.len() - 1 {
        assert(rest =~= fields.drop_last());
        assert(table_content(rest).insert(name, value) =~= table_content(fields).insert(
            name,
            value,
        ));
    } else {
        let front = fields.drop_last();
        lemma_table_content_remove(front, i, name, value);
        assert(rest.drop_last() =~= front.remove(i));
        assert(rest.last() == fields.last());
        let key = fields.last().0@;
        let last = value_content(fields.last().1);
        let shorter = table_content(front.remove(i));
        let longer = table_content(front);
        if key == name {
            assert(table_content(rest).insert(name, value) =~= shorter.insert(name, value));
            assert(table_content(fields).insert(name, value) =~= longer.insert(name, value));
        } else {
            assert(table_content(rest).insert(name, value) =~= shorter.insert(name, value).insert(
                key,
                last,
            ));
            assert(table_content(fields).insert(name, value) =~= longer.insert(name, value).insert(
                key,
                last,
            ));
        }
    }
}

/// Sets the value of that name among values with distinct names.
fn put_value(
    fields: &mut Vec<(String, serde_json::Value)>,
    name: String,
    value: serde_json::Value,
)
    requires
        distinct_names(old(fields)@),
    ensures
        distinct_names(final(fields)@),
        table_content(final(fields)@) == table_content(old(fields)@).insert(
            name@,
            value_content(value),
        ),
{
    let ghost held = fields@;
    let ghost content = value_content(value);
    let mut i: usize = 0;
    let len = fields.len();
    while i < len
        invariant
            fields@ == held,
            len == held.len(),
            i <= len,
            forall|j: int| 0 <= j < i ==> (#[trigger] held[j]).0@ != name@,
        ensures
            i < len ==> held[i as int].0@ == name@,
        decreases len - i,
    {
        if text_eq(fields[i].0.as_str(), name.as_str()) {
            break ;
        }
        i = i + 1;
    }
    if i < len {
        fields.remove(i);
        proof {
            lemma_table_content_remove(held, i as int, name@, content);
        }
    }
    let ghost rest = fields@;
    proof {
        assert forall|j: int| 0 <= j < rest.len() implies (#[trigger] rest[j]).0@ != name@ by {
            if i < len {
                assert(rest[j] == held[if j < i { j } else { j + 1 }]);
                assert(held[i as int].0@ == name@);
            }
        }
        assert forall|a: int, b: int| 0 <= a < b < rest.len() implies (#[trigger] rest[a]).0@ != (
        #[trigger] rest[b]).0@ by {
            if i < len {
                assert(rest[a] == held[if a < i { a } else { a + 1 }]);
                assert(rest[b] == held[if b < i { b } else { b + 1 }]);
            }
        }
    }
    fields.push((name, value));
    assert(fields@.drop_last() =~= rest);
}

/// The `serde_json::Value` of a document.
pub fn to_value(json: &Json) -> (value: serde_json::Value)
    ensures
        value_content(value) == json@,
    decreases json,
{
    match json {
        Json::Null => close_value(Layer::Null),
        Json::Bool(b) => close_value(Layer::Bool(*b)),
        Json::Number(n) => close_value(Layer::Number(n.clone())),
        Json::Text(s) => close_value(Layer::Text(s.clone())),
        Json::List(items) => {
            let mut out: Vec<serde_json::Value> = Vec::new();
            let mut i: usize = 0;
            assert(items@.take(0) =~= Seq::<Json>::empty());
            while i < items.len()
                invariant
                    i <= items@.len(),
                    json == Json::List(*items),
                    list_content(out@) == list_model(items@.take(i as int)),
                decreases items@.len() - i,
            {
                assert(decreases_to!(json => json->List_0));
                assert(decreases_to!(items@ => items@[i as int]));
                let ghost before = out@;
                out.push(to_value(&items[i]));
                assert(items@.take(i + 1).drop_last() =~= items@.take(i as int));
                assert(list_content(out@) =~= list_content(before).push(items@[i as int]@));
                i = i + 1;
            }
            assert(items@.take(i as int) =~= items@);
            close_value(Layer::List(out))
        },
        Json::Table(fields) => {
            let mut out: Vec<(String, serde_json::Value)> = Vec::new();
            let mut i: usize = 0;
            assert(fields@.take(0) =~= Seq::<(String, Json)>::empty());
            while i < fields.len()
                invariant
                    i <= fields@.len(),
                    json == Json::Table(*fields),
                    distinct_names(out@),
                    table_content(out@) == table_model(fields@.take(i as int)),
                decreases fields@.len() - i,
            {
                assert(decreases_to!(json => json->Table_0));
                assert(decreases_to!(fields@ => fields@[i as int]));
                assert(decreases_to!(fields@[i as int] => fields@[i as int].1));
                let name = fields[i].0.clone();
                put_value(&mut out, name, to_value(&fields[i].1));
                assert(fields@.take(i + 1).drop_last() =~= fields@.take(i as int));
                i = i + 1;
            }
            assert(fields@.take(i as int) =~= fields@);
            close_value(Layer::Table(out))
        },
    }
}

/// Reads a document from bytes.
pub fn parse_json(bytes: &[u8]) -> (read: Result<Json, JsonFailure>)
    ensures
        match (read, json_document(bytes@)) {
            (Ok(json), Ok(content)) => json@ == content,
            (Err(failure), Err((eof, text))) => failure.eof == eof && failure.text@ == text,
            _ => false,
        },
{
    match read_value(bytes) {
        Ok(value) => Ok(from_value(value)),
        Err(failure) => Err(failure),
    }
}

/// Prints a document. As a line, a plain document is read back.
pub fn print_json(json: &Json) -> (text: String)
    ensures
        text@ == json_text(json@),
        is_plain(json@, MAX_DEPTH as nat) ==> is_line_of(text@, json@),
{
    print_value(&to_value(json))
}

/// Reads a list of texts from a text.
pub fn parse_string_list(text: &str) -> (read: Option<Vec<String>>)
    ensures
        match (read, string_list(text@)) {
            (Some(texts), Some(list)) => texts@.map_values(|t: String| t@) == list,
            (None, None) => true,
            _ => false,
        },
{
    read_string_list(text)
}

/// A list model has the length of its list, and at each place the model of the element there.
pub proof fn lemma_list_model(items: Seq<Json>)
    ensures
        list_model(items).len() == items.len(),
        forall|i: int| 0 <= i < items.len() ==> #[trigger] list_model(items)[i] == items[i]@,
    decreases items.len(),
{
    if items.len() > 0 {
        lemma_list_model(items.drop_last());
        assert forall|i: int| 0 <= i < items.len() implies #[trigger] list_model(items)[i]
            == items[i]@ by {
            if i < items.len() - 1 {
                assert(items.drop_last()[i] == items[i]);
            }
        }
    }
}

/// A name stands in a table exactly if some field has it, and the last such field counts.
proof fn lemma_table_model_last(fields: Seq<(String, Json)>, name: Seq<char>, i: int)
    requires
        0 <= i < fields.len(),
        fields[i].0@ == name,
        forall|j: int| i < j < fields.len() ==> (#[trigger] fields[j]).0@ != name,
    ensures
        table_model(fields).contains_key(name),
        table_model(fields)[name] == fields[i].1@,
    decreases fields.len(),
{
    if i < fields.len() - 1 {
        assert(fields[fields.len() - 1].0@ != name);
        let front = fields.drop_last();
        assert forall|j: int| i < j < front.len() implies (#[trigger] front[j]).0@ != name by {
            assert(fields[j].0@ != name);
        }
        lemma_table_model_last(front, name, i);
    }
}

proof fn lemma_table_model_absent(fields: Seq<(String, Json)>, name: Seq<char>)
    requires
        forall|j: int| 0 <= j < fields.len() ==> (#[trigger] fields[j]).0@ != name,
    ensures
        !table_model(fields).contains_key(name),
    decreases fields.len(),
{
    if fields.len() > 0 {
        assert(fields[fields.len() - 1].0@ != name);
        let front = fields.drop_last();
        assert forall|j: int| 0 <= j < front.len() implies (#[trigger] front[j]).0@ != name by {
            assert(fields[j].0@ != name);
        }
        lemma_table_model_absent(front, name);
    }
}

/// What an optional reference stands for.
pub open spec fn seen(found: Option<&Json>) -> Option<JsonModel> {
    match found {
        Some(json) => Some(json@),
        None => None,
    }
}

/// What an optional text stands for.
pub open spec fn seen_text(found: Option<&str>) -> Option<Seq<char>> {
    match found {
        Some(text) => Some(text@),
        None => None,
    }
}

impl Clone for Json {
    fn clone(&self) -> (copy: Self)
        ensures
            copy@ == self@,
        decreases self,
    {
        match self {
            Json::Null => Json::Null,
            Json::Bool(b) => Json::Bool(*b),
            Json::Number(n) => Json::Number(n.clone()),
            Json::Text(s) => Json::Text(s.clone()),
            Json::List(items) => {
                let mut out: Vec<Json> = Vec::new();
                let mut i: usize = 0;
                assert(items@.take(0) =~= Seq::<Json>::empty());
                while i < items.len()
                    invariant
                        i <= items@.len(),
                        self == Json::List(*items),
                        list_model(out@) == list_model(items@.take(i as int)),
                    decreases items@.len() - i,
                {
                    assert(decreases_to!(self => self->List_0));
                    assert(decreases_to!(items@ => items@[i as int]));
                    let ghost before = out@;
                    let item = &items[i];
                    out.push(item.clone());
                    assert(out@.drop_last() =~= before);
                    assert(items@.take(i + 1).drop_last() =~= items@.take(i as int));
                    i = i + 1;
                }
                assert(items@.take(i as int) =~= items@);
                Json::List(out)
            },
            Json::Table(fields) => {
                let mut out: Vec<(String, Json)> = Vec::new();
                let mut i: usize = 0;
                assert(fields@.take(0) =~= Seq::<(String, Json)>::empty());
                while i < fields.len()
                    invariant
                        i <= fields@.len(),
                        self == Json::Table(*fields),
                        table_model(out@) == table_model(fields@.take(i as int)),
                    decreases fields@.len() - i,
                {
                    assert(decreases_to!(self => self->Table_0));
                    assert(decreases_to!(fields@ => fields@[i as int]));
                    assert(decreases_to!(fields@[i as int] => fields@[i as int].1));
                    let ghost before = out@;
                    let name = fields[i].0.clone();
                    let part = &fields[i].1;
                    out.push((name, part.clone()));
                    assert(out@.drop_last() =~= before);
                    assert(fields@.take(i + 1).drop_last() =~= fields@.take(i as int));
                    i = i + 1;
                }
                assert(fields@.take(i as int) =~= fields@);
                Json::Table(out)
            },
        }
    }
}

impl Json {
    /// The field of that name.
    pub fn get(&self, name: &str) -> (found: Option<&Json>)
        ensures
            seen(found) == self@.get(name@),
    {
        match self {
            Json::Table(fields) => {
                let mut i: usize = fields.len();
                while i > 0
                    invariant
                        i <= fields@.len(),
                        self == Json::Table(*fields),
                        forall|j: int| i <= j < fields@.len() ==> (#[trigger] fields@[j]).0@ != name@,
                    decreases i,
                {
                    i = i - 1;
                    if text_eq(fields[i].0.as_str(), name) {
                        proof {
                            lemma_table_model_last(fields@, name@, i as int);
                        }
                        return Some(&fields[i].1);
                    }
                }
                proof {
                    lemma_table_model_absent(fields@, name@);
                }
                None
            },
            _ => None,
        }
    }

    /// Whether the document is a table with a field of that name.
    pub fn has(&self, name: &str) -> (b: bool)
        ensures
            b == (self@.get(name@) is Some),
    {
        self.get(name).is_some()
    }

    /// A copy of the field of that name, `Null` where there is none.
    pub fn copy_at(&self, name: &str) -> (json: Json)
        ensures
            json@ == self@.at(name@),
    {
        match self.get(name) {
            Some(json) => json.clone(),
            None => Json::Null,
        }
    }

    /// The text of a text.
    pub fn text(&self) -> (found: Option<&str>)
        ensures
            seen_text(found) == self@.text(),
    {
        match self {
            Json::Text(s) => Some(s.as_str()),
            _ => None,
        }
    }

    /// The text of the field of that name.
    pub fn text_at(&self, name: &str) -> (found: Option<&str>)
        ensures
            seen_text(found) == self@.at(name@).text(),
    {
        match self.get(name) {
            Some(json) => json.text(),
            None => None,
        }
    }

    /// Whether the field of that name is the expected text.
    pub fn says(&self, name: &str, expected: &str) -> (b: bool)
        ensures
            b == (self@.at(name@).text() == Some(expected@)),
    {
        match self.text_at(name) {
            Some(text) => text_eq(text, expected),
            None => false,
        }
    }

    /// The number, where it is an integer that a `u64` can hold.
    pub fn unsigned(&self) -> (found: Option<u64>)
        ensures
            found == self@.unsigned(),
    {
        match self {
            Json::Number(n) => n.as_u64(),
            _ => None,
        }
    }

    /// The first element of a list whose field `name` is the text `expected`.
    pub fn find(&self, name: &str, expected: &str) -> (found: Option<&Json>)
        ensures
            seen(found) == match self@.list() {
                Some(items) => find_by(items, name@, expected@),
                None => None,
            },
    {
        match self {
            Json::List(items) => {
                let ghost all = list_model(items@);
                proof {
                    lemma_list_model(items@);
                }
                let mut i: usize = 0;
                assert(all.skip(0) =~= all);
                while i < items.len()
                    invariant
                        i <= items@.len(),
                        self == Json::List(*items),
                        all == list_model(items@),
                        all.len() == items@.len(),
                        forall|j: int| 0 <= j < items@.len() ==> #[trigger] all[j] == items@[j]@,
                        find_by(all, name@, expected@) == find_by(all.skip(i as int), name@, expected@),
                    decreases items@.len() - i,
                {
                    let ghost rest = all.skip(i as int);
                    assert(rest[0] == all[i as int]);
                    assert(rest.drop_first() =~= all.skip(i + 1));
                    if items[i].says(name, expected) {
                        return Some(&items[i]);
                    }
                    i = i + 1;
                }
                None
            },
            _ => None,
        }
    }

    /// A text as a document.
    pub fn of_text(text: &str) -> (json: Json)
        ensures
            json@ == JsonModel::Text(text@),
    {
        Json::Text(text.to_string())
    }

    /// A text, or `Null`, as a document.
    pub fn of_option(text: &Option<String>) -> (json: Json)
        ensures
            json@ == text_or_null(text_view(*text)),
    {
        match text {
            Some(s) => Json::Text(s.clone()),
            None => Json::Null,
        }
    }

    /// A number as a document.
    pub fn of_u64(n: u64) -> (json: Json)
        ensures
            json@ == JsonModel::Number(number_of(n)),
            json@.unsigned() == Some(n),
    {
        Json::Number(make_number(n))
    }

    /// A number that may be negative as a document.
    pub fn of_i64(n: i64) -> (json: Json)
        ensures
            json@ == JsonModel::Number(signed_number(n)),
    {
        Json::Number(make_signed_number(n))
    }
}

/// The characters of an optional text.
pub open spec fn text_view(text: Option<String>) -> Option<Seq<char>> {
    match text {
        Some(s) => Some(s@),
        None => None,
    }
}

/// Appends a field to a table.
pub fn push_field(fields: &mut Vec<(String, Json)>, name: &str, value: Json)
    ensures
        table_model(final(fields)@) == table_model(old(fields)@).insert(name@, value@),
{
    let ghost before = fields@;
    fields.push((name.to_string(), value));
    assert(fields@.drop_last() =~= before);
}

/// Taking one field of a name out changes the table under that name only.
proof fn lemma_table_model_remove(
    fields: Seq<(String, Json)>,
    i: int,
    name: Seq<char>,
    value: JsonModel,
)
    requires
        0 <= i < fields.len(),
        fields[i].0@ == name,
    ensures
        table_model(fields.remove(i)).insert(name, value) == table_model(fields).insert(
            name,
            value,
        ),
    decreases fields.len(),
{
    let rest = fields.remove(i);
    if i == fields.len() - 1 {
        assert(rest =~= fields.drop_last());
        assert(table_model(rest).insert(name, value) =~= table_model(fields).insert(name, value));
    } else {
        let front = fields.drop_last();
        lemma_table_model_remove(front, i, name, value);
        assert(rest.drop_last() =~= front.remove(i));
        assert(rest.last() == fields.last());
        let key = fields.last().0@;
        let last = fields.last().1@;
        if key == name {
            assert(table_model(rest).insert(name, value) =~= table_model(front.remove(i)).insert(
                name,
                value,
            ));
            assert(table_model(fields).insert(name, value) =~= table_model(front).insert(
                name,
                value,
            ));
        } else {
            assert(table_model(rest).insert(name, value) =~= table_model(front.remove(i)).insert(
                name,
                value,
            ).insert(key, last));
            assert(table_model(fields).insert(name, value) =~= table_model(front).insert(
                name,
                value,
            ).insert(key, last));
        }
    }
}

/// Sets the field of that name in a table.
pub fn set_field(fields: &mut Vec<(String, Json)>, name: &str, value: Json)
    ensures
        table_model(final(fields)@) == table_model(old(fields)@).insert(name@, value@),
{
    let mut i: usize = 0;
    let len = fields.len();
    while i < len
        invariant
            fields@ == old(fields)@,
            len == fields@.len(),
            i <= len,
        decreases len - i,
    {
        if text_eq(fields[i].0.as_str(), name) {
            let ghost before = fields@;
            fields.remove(i);
            proof {
                lemma_table_model_remove(before, i as int, name@, value@);
            }
            push_field(fields, name, value);
            return;
        }
        i = i + 1;
    }
    push_field(fields, name, value);
}

/// A table has a field under a name exactly if it was given one, the value given last counts, and
/// setting one field leaves the others as they are. Nothing but a table has fields, and where there
/// is none the value reads as `Null`.
pub proof fn law_fields_are_found_by_name(
    fields: Map<Seq<char>, JsonModel>,
    name: Seq<char>,
    other: Seq<char>,
    value: JsonModel,
    content: JsonModel,
)
    requires
        name != other,
    ensures
        JsonModel::Table(fields.insert(name, value)).get(name) == Some(value),
        JsonModel::Table(fields.insert(name, value)).get(other) == JsonModel::Table(fields).get(
            other,
        ),
        JsonModel::Table(Map::empty()).get(name) is None,
        !(content is Table) ==> content.get(name) is None,
        content.get(name) matches Some(found) ==> content.at(name) == found,
        content.get(name) is None ==> content.at(name) == JsonModel::Null,
{
}

/// Only a text reads as a text, only a list as a list, each as what it holds; only numbers read as
/// numbers.
pub proof fn law_values_are_read_by_their_kind(
    s: Seq<char>,
    items: Seq<JsonModel>,
    content: JsonModel,
)
    ensures
        JsonModel::Text(s).text() == Some(s),
        !(content is Text) ==> content.text() is None,
        JsonModel::List(items).list() == Some(items),
        !(content is List) ==> content.list() is None,
        !(content is Number) ==> content.unsigned() is None,
        text_or_null(Some(s)) == JsonModel::Text(s),
        text_or_null(None) == JsonModel::Null,
{
}

/// The first element that says what is looked for is found, whatever stands behind it; and none is
/// where none says it.
pub proof fn law_the_first_match_is_found(
    before: Seq<JsonModel>,
    item: JsonModel,
    behind: Seq<JsonModel>,
    name: Seq<char>,
    expected: Seq<char>,
)
    requires
        forall|i: int|
            0 <= i < before.len() ==> (#[trigger] before[i]).at(name) != JsonModel::Text(expected),
    ensures
        find_by(before, name, expected) is None,
        item.at(name) == JsonModel::Text(expected) ==> find_by(
            before + seq![item] + behind,
            name,
            expected,
        ) == Some(item),
    decreases before.len(),
{
    let all = before + seq![item] + behind;
    if before.len() > 0 {
        let rest = before.drop_first();
        assert forall|i: int| 0 <= i < rest.len() implies (#[trigger] rest[i]).at(name)
            != JsonModel::Text(expected) by {
            assert(rest[i] == before[i + 1]);
        }
        law_the_first_match_is_found(rest, item, behind, name, expected);
        assert(all.drop_first() =~= rest + seq![item] + behind);
        assert(all[0] == before[0]);
        assert(before[0].at(name) != JsonModel::Text(expected));
    } else {
        assert(all[0] == item);
    }
}

/// A document stands for what it holds: its elements one by one, and its fields by their names, the
/// later of two with one name.
pub proof fn law_documents_stand_for_what_they_hold(
    items: Seq<Json>,
    item: Json,
    fields: Seq<(String, Json)>,
    field: (String, Json),
)
    ensures
        list_model(Seq::empty()) == Seq::<JsonModel>::empty(),
        list_model(items.push(item)) == list_model(items).push(item@),
        table_model(Seq::empty()) == Map::<Seq<char>, JsonModel>::empty(),
        table_model(fields.push(field)) == table_model(fields).insert(field.0@, field.1@),
        item matches Json::List(v) ==> item@ == JsonModel::List(list_model(v@)),
        item matches Json::Table(v) ==> item@ == JsonModel::Table(table_model(v@)),
        item matches Json::Text(v) ==> item@ == JsonModel::Text(v@),
        item matches Json::Number(v) ==> item@ == JsonModel::Number(v),
        item matches Json::Bool(v) ==> item@ == JsonModel::Bool(v),
        item is Null ==> item@ == JsonModel::Null,
{
    assert(items.push(item).drop_last() =~= items);
    assert(fields.push(field).drop_last() =~= fields);
}

} // verus!
