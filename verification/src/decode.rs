//! Decoding the marketplace's JSON payload. The generic JSON tree is
//! read through a handful of trusted accessors, whose contracts speak of
//! one shared model of the tree: [`json_model`] names what a
//! `serde_json::Value` holds, as a [`JsonVal`], and [`parsed_json`]
//! names what a document text parses to. Every decision — which fields
//! are fixed, how numbered keys regroup, how a score is read — is made
//! in verified code, so a decoded page is proved equal, field by field
//! and record by record, to what the model of the body prescribes
//! ([`spec_catalog_of`], [`spec_record_of`]), and every product of it
//! satisfies [`crate::normalize::wf_product`].

use vstd::prelude::*;

use crate::error::StoreError;
use crate::normalize::{
    normalize_record, lemma_normalize_wf, spec_normalize, wf_product,
};
use crate::numtext::{dec_value, is_digit_char, is_u64_numeral, char_to_digit, parse_u64_digits};
use crate::product::{
    extra_view, products_view, CatalogView, Product, ProductCatalog, ProductView, RawRecord,
    RawRecordView, RawValue, RawValueView,
};
use crate::strutil::{str_eq, strings_view};

verus! {

#[verifier::external_type_specification]
#[verifier::external_body]
pub struct ExValue(serde_json::Value);

// ---------------------------------------------------------------------
// The model of the JSON tree
// ---------------------------------------------------------------------

/// What a JSON value holds: null, a boolean, a number (carried as its
/// canonical decimal text), a string, an array, or an object's entries
/// in key order.
pub enum JsonVal {
    Null,
    Bool(bool),
    Number(Seq<char>),
    Text(Seq<char>),
    Array(Seq<JsonVal>),
    Object(Seq<(Seq<char>, JsonVal)>),
}

/// The model of what a `serde_json::Value` holds. Serde's values are
/// plain data, so the model is a function of the value alone.
pub uninterp spec fn json_model(v: serde_json::Value) -> JsonVal;

/// The model of the value a document text parses to, if the text is
/// valid JSON. Parsing depends on the text alone.
pub uninterp spec fn parsed_json(s: Seq<char>) -> Option<JsonVal>;

/// The entries of an object model (empty for every other kind).
pub open spec fn obj_entries(m: JsonVal) -> Seq<(Seq<char>, JsonVal)> {
    match m {
        JsonVal::Object(es) => es,
        _ => Seq::empty(),
    }
}

/// The elements of an array model (empty for every other kind).
pub open spec fn arr_elems(m: JsonVal) -> Seq<JsonVal> {
    match m {
        JsonVal::Array(ms) => ms,
        _ => Seq::empty(),
    }
}

/// The value of the first entry carrying `key`, if any.
pub open spec fn model_get(es: Seq<(Seq<char>, JsonVal)>, key: Seq<char>) -> Option<JsonVal>
    decreases es.len(),
{
    if es.len() == 0 {
        None
    } else if es[0].0 == key {
        Some(es[0].1)
    } else {
        model_get(es.drop_first(), key)
    }
}

/// The value of a key of an object model; absent on other kinds and
/// missing keys.
pub open spec fn spec_obj_get(m: JsonVal, key: Seq<char>) -> Option<JsonVal> {
    match m {
        JsonVal::Object(es) => model_get(es, key),
        _ => None,
    }
}

/// Whether no two entries share a key (true of every decoded object).
pub open spec fn keys_distinct(es: Seq<(Seq<char>, JsonVal)>) -> bool {
    forall|i: int, j: int| 0 <= i < j < es.len() ==> (#[trigger] es[i]).0 != (#[trigger] es[j]).0
}

/// The keys of the entries, in order.
pub open spec fn entry_keys(es: Seq<(Seq<char>, JsonVal)>) -> Seq<Seq<char>> {
    es.map_values(|e: (Seq<char>, JsonVal)| e.0)
}

/// The models of a list of values, in order.
pub open spec fn models_of(vs: Seq<serde_json::Value>) -> Seq<JsonVal> {
    vs.map_values(|x: serde_json::Value| json_model(x))
}

/// Under distinct keys, looking an entry's own key up finds that entry.
proof fn lemma_model_get_at(es: Seq<(Seq<char>, JsonVal)>, i: int)
    requires
        0 <= i < es.len(),
        keys_distinct(es),
    ensures
        model_get(es, es[i].0) == Some(es[i].1),
    decreases i,
{
    if i > 0 {
        let t = es.drop_first();
        assert(forall|k: int| 0 <= k < t.len() ==> #[trigger] t[k] == es[k + 1]);
        lemma_model_get_at(t, i - 1);
    }
}

/// The integer a JSON number reads as through `as_i64`: its canonical
/// decimal text, optionally signed, valued within the i64 range.
pub open spec fn spec_num_as_i64(m: JsonVal) -> Option<int> {
    match m {
        JsonVal::Number(t) => if t.len() > 0 && t[0] == '-' {
            let d = t.skip(1);
            if d.len() > 0 && crate::numtext::all_digits(d) && dec_value(d)
                <= 0x8000000000000000 {
                Some(-dec_value(d))
            } else {
                None
            }
        } else if is_u64_numeral(t) && dec_value(t) <= i64::MAX {
            Some(dec_value(t))
        } else {
            None
        },
        _ => None,
    }
}

/// The integer a JSON number reads as through `as_u64`: its canonical
/// decimal text, unsigned, valued within the u64 range.
pub open spec fn spec_num_as_u64(m: JsonVal) -> Option<int> {
    match m {
        JsonVal::Number(t) => if is_u64_numeral(t) {
            Some(dec_value(t))
        } else {
            None
        },
        _ => None,
    }
}

// ---------------------------------------------------------------------
// The trusted accessors
// ---------------------------------------------------------------------

/// Relies on serde_json::from_str: parses a JSON document, or fails; the
/// outcome is a function of the text alone.
#[verifier::external_body]
fn parse_json(s: &str) -> (r: Option<serde_json::Value>)
    ensures
        match r {
            Some(v) => parsed_json(s@) == Some(json_model(v)),
            None => parsed_json(s@) is None,
        },
{
    serde_json::from_str::<serde_json::Value>(s).ok()
}

/// Relies on serde_json's Value::get: the value of a key of a JSON
/// object (objects carry each key once), absent on non-objects and
/// missing keys.
#[verifier::external_body]
fn json_get<'a>(v: &'a serde_json::Value, key: &str) -> (r: Option<&'a serde_json::Value>)
    ensures
        match r {
            Some(f) => spec_obj_get(json_model(*v), key@) == Some(json_model(*f)),
            None => spec_obj_get(json_model(*v), key@) is None,
        },
{
    v.get(key)
}

/// Relies on serde_json's Value::as_str: the text of a JSON string,
/// absent for every other kind of value.
#[verifier::external_body]
fn json_str(v: &serde_json::Value) -> (r: Option<String>)
    ensures
        match r {
            Some(s) => json_model(*v) == JsonVal::Text(s@),
            None => !(json_model(*v) is Text),
        },
{
    v.as_str().map(str::to_owned)
}

/// Relies on serde_json's Value::as_i64: the value of a JSON integer
/// that fits in an i64 (a number whose canonical text is a signed
/// integer numeral in range), absent otherwise.
#[verifier::external_body]
fn json_i64(v: &serde_json::Value) -> (r: Option<i64>)
    ensures
        match r {
            Some(n) => spec_num_as_i64(json_model(*v)) == Some(n as int),
            None => spec_num_as_i64(json_model(*v)) is None,
        },
{
    v.as_i64()
}

/// Relies on serde_json's Value::as_u64: the value of a non-negative
/// JSON integer that fits in a u64 (a number whose canonical text is an
/// unsigned integer numeral in range), absent otherwise.
#[verifier::external_body]
fn json_u64(v: &serde_json::Value) -> (r: Option<u64>)
    ensures
        match r {
            Some(n) => spec_num_as_u64(json_model(*v)) == Some(n as int),
            None => spec_num_as_u64(json_model(*v)) is None,
        },
{
    v.as_u64()
}

/// Relies on serde_json's Display for Number (integers print as their
/// decimal digits, floats always with a fraction or exponent): the
/// decimal text of a JSON number, absent for every other kind of value.
#[verifier::external_body]
fn json_number_text(v: &serde_json::Value) -> (r: Option<String>)
    ensures
        match r {
            Some(t) => json_model(*v) == JsonVal::Number(t@),
            None => !(json_model(*v) is Number),
        },
{
    match v {
        serde_json::Value::Number(n) => Some(n.to_string()),
        _ => None,
    }
}

/// Relies on serde_json's Value::as_object and Map::keys: the keys of a
/// JSON object, each key once, in the map's order, absent for every
/// other kind of value.
#[verifier::external_body]
fn json_object_keys(v: &serde_json::Value) -> (r: Option<Vec<String>>)
    ensures
        match r {
            Some(ks) => json_model(*v) is Object && strings_view(ks@) == entry_keys(
                obj_entries(json_model(*v)),
            ) && keys_distinct(obj_entries(json_model(*v))),
            None => !(json_model(*v) is Object),
        },
{
    v.as_object().map(|m| m.keys().cloned().collect())
}

/// Relies on serde_json's Value::as_array: the elements of a JSON
/// array, in order, absent for every other kind of value.
#[verifier::external_body]
fn json_array(v: &serde_json::Value) -> (r: Option<Vec<serde_json::Value>>)
    ensures
        match r {
            Some(a) => json_model(*v) is Array && models_of(a@) == arr_elems(json_model(*v)),
            None => !(json_model(*v) is Array),
        },
{
    v.as_array().cloned()
}

// ---------------------------------------------------------------------
// Reading a score
// ---------------------------------------------------------------------

/// The longest run of digits at the front of `s`.
pub open spec fn leading_digits(s: Seq<char>) -> Seq<char>
    decreases s.len(),
{
    if s.len() == 0 || !is_digit_char(s[0]) {
        Seq::empty()
    } else {
        seq![s[0]] + leading_digits(s.drop_first())
    }
}

/// The leading digit run is the digits before the first non-digit.
proof fn lemma_leading_digits(s: Seq<char>, n: int)
    requires
        0 <= n <= s.len(),
        forall|j: int| 0 <= j < n ==> is_digit_char(#[trigger] s[j]),
        n < s.len() ==> !is_digit_char(s[n]),
    ensures
        leading_digits(s) == s.take(n),
    decreases n,
{
    if n == 0 {
        assert(leading_digits(s) =~= s.take(0));
    } else {
        let t = s.drop_first();
        assert(forall|j: int| 0 <= j < n - 1 ==> #[trigger] t[j] == s[j + 1]);
        lemma_leading_digits(t, n - 1);
        assert(leading_digits(s) =~= s.take(n));
    }
}

/// The raw score carried by a JSON number's decimal text: the value of
/// its leading digit run — zero when the text starts with no digit, the
/// largest u64 when the run's value overflows. The fractional part of
/// an integer-like score is discarded.
pub open spec fn spec_score_raw(s: Seq<char>) -> int {
    let d = leading_digits(s);
    if d.len() == 0 {
        0
    } else if dec_value(d) > u64::MAX {
        u64::MAX as int
    } else {
        dec_value(d)
    }
}

/// Reads a raw score from a JSON number's decimal text.
pub fn score_from_number_text(t: &str) -> (r: u64)
    ensures
        r as int == spec_score_raw(t@),
{
    let len = t.unicode_len();
    let mut n: usize = 0;
    while n < len && char_to_digit(t.get_char(n)).is_some()
        invariant
            n <= len,
            len == t@.len(),
            forall|j: int| 0 <= j < n ==> is_digit_char(#[trigger] t@[j]),
        decreases len - n,
    {
        n += 1;
    }
    proof {
        lemma_leading_digits(t@, n as int);
    }
    if n == 0 {
        return 0;
    }
    let prefix = t.substring_char(0, n);
    proof {
        assert(prefix@ =~= t@.take(n as int));
    }
    match parse_u64_digits(prefix) {
        Some(v) => v,
        None => u64::MAX,
    }
}

// ---------------------------------------------------------------------
// What a record and a page read as, over the model
// ---------------------------------------------------------------------

/// Whether `key` is one of the fixed fields of a product record, read
/// apart from the open bag of numbered keys.
pub open spec fn spec_is_fixed_key(key: Seq<char>) -> bool {
    ||| key == "details"@
    ||| key == "id"@
    ||| key == "name"@
    ||| key == "typeid"@
    ||| key == "typename"@
    ||| key == "personid"@
    ||| key == "created"@
    ||| key == "changed"@
    ||| key == "score"@
    ||| key == "downloads"@
    ||| key == "description"@
}

/// Tests whether a key names one of a record's fixed fields.
pub fn is_fixed_key(key: &str) -> (r: bool)
    ensures
        r == spec_is_fixed_key(key@),
{
    str_eq(key, "details") || str_eq(key, "id") || str_eq(key, "name") || str_eq(key, "typeid")
        || str_eq(key, "typename") || str_eq(key, "personid") || str_eq(key, "created") || str_eq(
        key,
        "changed",
    ) || str_eq(key, "score") || str_eq(key, "downloads") || str_eq(key, "description")
}

/// The text of a record's mandatory string field, absent when the field
/// is missing or of another kind.
pub open spec fn spec_text_field(m: JsonVal, key: Seq<char>) -> Option<Seq<char>> {
    match spec_obj_get(m, key) {
        Some(f) => match f {
            JsonVal::Text(t) => Some(t),
            _ => None,
        },
        None => None,
    }
}

/// The value of a record's mandatory integer field, absent when the
/// field is missing or no i64 integer.
pub open spec fn spec_int_field(m: JsonVal, key: Seq<char>) -> Option<int> {
    match spec_obj_get(m, key) {
        Some(f) => spec_num_as_i64(f),
        None => None,
    }
}

/// The raw score of a record: the `score` field must be a number; an
/// unsigned integer is taken directly, any other number through the
/// leading digits of its decimal text.
pub open spec fn spec_score_field(m: JsonVal) -> Option<int> {
    match spec_obj_get(m, "score"@) {
        Some(f) => match spec_num_as_u64(f) {
            Some(n) => Some(n),
            None => match f {
                JsonVal::Number(t) => Some(spec_score_raw(t)),
                _ => None,
            },
        },
        None => None,
    }
}

/// How one leftover value of the open bag is kept: text as text, a
/// non-negative integer as an integer, anything else as a placeholder.
pub open spec fn classify_model(m: JsonVal) -> RawValueView {
    match m {
        JsonVal::Text(s) => RawValueView::Text(s),
        _ => match spec_num_as_u64(m) {
            Some(n) => RawValueView::Uint(n),
            None => RawValueView::Other,
        },
    }
}

/// The groups whose key is no fixed field.
pub open spec fn bag_pred() -> spec_fn((Seq<char>, JsonVal)) -> bool {
    |e: (Seq<char>, JsonVal)| !spec_is_fixed_key(e.0)
}

/// The open bag of a record's entries: everything but the fixed fields,
/// in entry order, each value classified.
pub open spec fn spec_bag_of(es: Seq<(Seq<char>, JsonVal)>) -> Seq<(Seq<char>, RawValueView)> {
    es.filter(bag_pred()).map_values(|e: (Seq<char>, JsonVal)| (e.0, classify_model(e.1)))
}

/// The raw record a JSON value reads as: present exactly when the value
/// is an object carrying all eleven fixed fields with their expected
/// kinds; the open bag holds every other entry in order.
pub open spec fn spec_record_of(m: JsonVal) -> Option<RawRecordView> {
    let details = spec_text_field(m, "details"@);
    let id = spec_int_field(m, "id"@);
    let name = spec_text_field(m, "name"@);
    let typeid = spec_int_field(m, "typeid"@);
    let typename = spec_text_field(m, "typename"@);
    let personid = spec_text_field(m, "personid"@);
    let created = spec_text_field(m, "created"@);
    let changed = spec_text_field(m, "changed"@);
    let downloads = spec_text_field(m, "downloads"@);
    let description = spec_text_field(m, "description"@);
    let score = spec_score_field(m);
    if details is None || id is None || name is None || typeid is None || typename is None
        || personid is None || created is None || changed is None || downloads is None
        || description is None || score is None {
        None
    } else {
        Some(
            RawRecordView {
                details: details.unwrap(),
                id: id.unwrap(),
                name: name.unwrap(),
                typeid: typeid.unwrap(),
                typename: typename.unwrap(),
                personid: personid.unwrap(),
                created: created.unwrap(),
                changed: changed.unwrap(),
                score_raw: score.unwrap(),
                downloads: downloads.unwrap(),
                description: description.unwrap(),
                extra: spec_bag_of(obj_entries(m)),
            },
        )
    }
}

/// Whether every element of a `data` array reads as a record.
pub open spec fn all_records_ok(ms: Seq<JsonVal>) -> bool {
    forall|i: int| 0 <= i < ms.len() ==> (#[trigger] spec_record_of(ms[i])) is Some
}

/// The normalized products of a `data` array's records, in order.
pub open spec fn decoded_products(ms: Seq<JsonVal>) -> Seq<ProductView> {
    ms.map_values(|x: JsonVal| spec_normalize(spec_record_of(x).unwrap()))
}

/// The catalog page a JSON value reads as: present exactly when the
/// five status fields carry their expected kinds and `data` is an array
/// whose every element reads as a record; the page's fields equal the
/// body's, its products the normalized records in the body's order.
pub open spec fn spec_catalog_of(m: JsonVal) -> Option<CatalogView> {
    let status = spec_text_field(m, "status"@);
    let statuscode = spec_int_field(m, "statuscode"@);
    let message = spec_text_field(m, "message"@);
    let totalitems = spec_int_field(m, "totalitems"@);
    let itemsperpage = spec_int_field(m, "itemsperpage"@);
    if status is None || statuscode is None || message is None || totalitems is None
        || itemsperpage is None {
        None
    } else {
        match spec_obj_get(m, "data"@) {
            Some(d) => match d {
                JsonVal::Array(ms) => if all_records_ok(ms) {
                    Some(
                        CatalogView {
                            status: status.unwrap(),
                            statuscode: statuscode.unwrap(),
                            message: message.unwrap(),
                            totalitems: totalitems.unwrap(),
                            itemsperpage: itemsperpage.unwrap(),
                            data: decoded_products(ms),
                        },
                    )
                } else {
                    None
                },
                _ => None,
            },
            None => None,
        }
    }
}

/// The catalog page a document text reads as: the text must parse, and
/// its value must read as a page.
pub open spec fn spec_parse_catalog(body: Seq<char>) -> Option<CatalogView> {
    match parsed_json(body) {
        Some(m) => spec_catalog_of(m),
        None => None,
    }
}

// ---------------------------------------------------------------------
// The verified decode
// ---------------------------------------------------------------------

/// Reads a mandatory text field of a record.
fn must_str(v: &serde_json::Value, key: &str) -> (r: Result<String, StoreError>)
    ensures
        match r {
            Ok(s) => spec_text_field(json_model(*v), key@) == Some(s@),
            Err(e) => e is Decode && spec_text_field(json_model(*v), key@) is None,
        },
{
    match json_get(v, key) {
        Some(f) => match json_str(f) {
            Some(s) => Ok(s),
            None => Err(decode_error("text field of unexpected kind: ", key)),
        },
        None => Err(decode_error("missing field: ", key)),
    }
}

/// Reads a mandatory integer field of a record.
fn must_i64(v: &serde_json::Value, key: &str) -> (r: Result<i64, StoreError>)
    ensures
        match r {
            Ok(n) => spec_int_field(json_model(*v), key@) == Some(n as int),
            Err(e) => e is Decode && spec_int_field(json_model(*v), key@) is None,
        },
{
    match json_get(v, key) {
        Some(f) => match json_i64(f) {
            Some(n) => Ok(n),
            None => Err(decode_error("integer field of unexpected kind: ", key)),
        },
        None => Err(decode_error("missing field: ", key)),
    }
}

/// Reads a record's raw score.
fn must_score(v: &serde_json::Value) -> (r: Result<u64, StoreError>)
    ensures
        match r {
            Ok(n) => spec_score_field(json_model(*v)) == Some(n as int),
            Err(e) => e is Decode && spec_score_field(json_model(*v)) is None,
        },
{
    match json_get(v, "score") {
        Some(f) => match json_u64(f) {
            Some(n) => Ok(n),
            None => match json_number_text(f) {
                Some(t) => Ok(score_from_number_text(t.as_str())),
                None => Err(decode_error("numeric field of unexpected kind: ", "score")),
            },
        },
        None => Err(decode_error("missing field: ", "score")),
    }
}

/// A decode error whose message is `what` followed by `name`.
fn decode_error(what: &str, name: &str) -> (r: StoreError)
    ensures
        r is Decode,
{
    let mut m = String::from_str(what);
    m.append(name);
    StoreError::Decode(m)
}

/// Classifies one leftover value of the open bag: text, a non-negative
/// integer, or anything else.
fn classify_value(v: &serde_json::Value) -> (r: RawValue)
    ensures
        r@ == classify_model(json_model(*v)),
{
    match json_str(v) {
        Some(s) => RawValue::Text(s),
        None => match json_u64(v) {
            Some(n) => RawValue::Uint(n),
            None => RawValue::Other,
        },
    }
}

/// Decodes one product record from the JSON tree: it returns a product
/// exactly when the value reads as a record (all eleven fixed fields
/// present with their kinds), and that product is the normalization of
/// the record read — every other value yields a decode error. Every
/// product returned is well-formed.
pub fn decode_product(v: &serde_json::Value) -> (r: Result<Product, StoreError>)
    ensures
        match spec_record_of(json_model(*v)) {
            Some(rv) => r matches Ok(p) && p@ == spec_normalize(rv),
            None => r matches Err(e) && e is Decode,
        },
        r matches Ok(p) ==> wf_product(p@),
{
    let ghost m = json_model(*v);
    let details = match must_str(v, "details") {
        Ok(x) => x,
        Err(e) => {
            return Err(e);
        },
    };
    let id = match must_i64(v, "id") {
        Ok(x) => x,
        Err(e) => {
            return Err(e);
        },
    };
    let name = match must_str(v, "name") {
        Ok(x) => x,
        Err(e) => {
            return Err(e);
        },
    };
    let typeid = match must_i64(v, "typeid") {
        Ok(x) => x,
        Err(e) => {
            return Err(e);
        },
    };
    let typename = match must_str(v, "typename") {
        Ok(x) => x,
        Err(e) => {
            return Err(e);
        },
    };
    let personid = match must_str(v, "personid") {
        Ok(x) => x,
        Err(e) => {
            return Err(e);
        },
    };
    let created = match must_str(v, "created") {
        Ok(x) => x,
        Err(e) => {
            return Err(e);
        },
    };
    let changed = match must_str(v, "changed") {
        Ok(x) => x,
        Err(e) => {
            return Err(e);
        },
    };
    let downloads = match must_str(v, "downloads") {
        Ok(x) => x,
        Err(e) => {
            return Err(e);
        },
    };
    let description = match must_str(v, "description") {
        Ok(x) => x,
        Err(e) => {
            return Err(e);
        },
    };
    let score_raw = match must_score(v) {
        Ok(x) => x,
        Err(e) => {
            return Err(e);
        },
    };
    let keys = match json_object_keys(v) {
        Some(ks) => ks,
        None => {
            proof {
                // every text field lives on an object, so this value is one
                assert(false);
            }
            return Err(decode_error("record is not an object", ""));
        },
    };
    let ghost es = obj_entries(m);
    let mut extra: Vec<(String, RawValue)> = Vec::new();
    let mut i: usize = 0;
    proof {
        reveal(Seq::filter);
        assert(strings_view(keys@).len() == keys@.len());
        assert(entry_keys(es).len() == es.len());
        assert(es.take(0).filter(bag_pred()) =~= Seq::<(Seq<char>, JsonVal)>::empty());
        assert(extra_view(extra@) =~= spec_bag_of(es.take(0)));
    }
    while i < keys.len()
        invariant
            i <= keys@.len(),
            m == json_model(*v),
            m is Object,
            es == obj_entries(m),
            keys_distinct(es),
            strings_view(keys@) == entry_keys(es),
            keys@.len() == es.len(),
            extra_view(extra@) == spec_bag_of(es.take(i as int)),
        decreases keys@.len() - i,
    {
        let key = &keys[i];
        proof {
            assert(entry_keys(es)[i as int] == es[i as int].0);
            assert(strings_view(keys@)[i as int] == keys@[i as int]@);
        }
        if !is_fixed_key(key.as_str()) {
            match json_get(v, key.as_str()) {
                Some(field) => {
                    let rv = classify_value(field);
                    let ghost x0 = extra_view(extra@);
                    extra.push((key.clone(), rv));
                    proof {
                        lemma_model_get_at(es, i as int);
                        assert(json_model(*field) == es[i as int].1);
                        assert(extra_view(extra@) =~= x0.push(
                            (es[i as int].0, classify_model(es[i as int].1)),
                        ));
                        reveal(Seq::filter);
                        let t = es.take(i as int + 1);
                        assert(t.drop_last() =~= es.take(i as int));
                        assert(t.last() == es[i as int]);
                        assert(bag_pred()(es[i as int]));
                        assert(t.filter(bag_pred()) == es.take(i as int).filter(bag_pred()).push(
                            es[i as int],
                        ));
                        assert(extra_view(extra@) =~= spec_bag_of(es.take(i as int + 1)));
                    }
                },
                None => {
                    proof {
                        // the key came from this object, so its lookup succeeds
                        lemma_model_get_at(es, i as int);
                        assert(false);
                    }
                },
            }
        } else {
            proof {
                reveal(Seq::filter);
                let t = es.take(i as int + 1);
                assert(t.drop_last() =~= es.take(i as int));
                assert(t.last() == es[i as int]);
                assert(!bag_pred()(es[i as int]));
                assert(t.filter(bag_pred()) == es.take(i as int).filter(bag_pred()));
                assert(extra_view(extra@) =~= spec_bag_of(es.take(i as int + 1)));
            }
        }
        i += 1;
    }
    proof {
        assert(es.take(es.len() as int) =~= es);
    }
    let rec = RawRecord {
        details,
        id,
        name,
        typeid,
        typename,
        personid,
        created,
        changed,
        score_raw,
        downloads,
        description,
        extra,
    };
    let ghost rv = rec@;
    proof {
        assert(rv == spec_record_of(m).unwrap());
        lemma_normalize_wf(rv);
    }
    let p = normalize_record(rec);
    Ok(p)
}

/// Decodes a whole catalog page: it returns a page exactly when the
/// value reads as one (the five status fields with their kinds, and a
/// `data` array whose every element decodes as a product — one
/// malformed record fails the page), and the page's fields and records
/// equal the body's, in the body's order. Every product of a returned
/// page is well-formed.
#[verifier::loop_isolation(false)]
pub fn decode_catalog(v: &serde_json::Value) -> (r: Result<ProductCatalog, StoreError>)
    ensures
        match spec_catalog_of(json_model(*v)) {
            Some(cv) => r matches Ok(c) && c@ == cv,
            None => r matches Err(e) && e is Decode,
        },
        r matches Ok(c) ==> forall|i: int|
            0 <= i < c.data@.len() ==> wf_product((#[trigger] c.data@[i])@),
{
    let ghost m = json_model(*v);
    let status = match must_str(v, "status") {
        Ok(x) => x,
        Err(e) => {
            return Err(e);
        },
    };
    let statuscode = match must_i64(v, "statuscode") {
        Ok(x) => x,
        Err(e) => {
            return Err(e);
        },
    };
    let message = match must_str(v, "message") {
        Ok(x) => x,
        Err(e) => {
            return Err(e);
        },
    };
    let totalitems = match must_i64(v, "totalitems") {
        Ok(x) => x,
        Err(e) => {
            return Err(e);
        },
    };
    let itemsperpage = match must_i64(v, "itemsperpage") {
        Ok(x) => x,
        Err(e) => {
            return Err(e);
        },
    };
    let raw_items = match json_get(v, "data") {
        Some(d) => match json_array(d) {
            Some(a) => a,
            None => {
                return Err(decode_error("field of unexpected kind: ", "data"));
            },
        },
        None => {
            return Err(decode_error("missing field: ", "data"));
        },
    };
    let ghost ms = models_of(raw_items@);
    let mut data: Vec<Product> = Vec::new();
    let mut i: usize = 0;
    proof {
        assert(ms.len() == raw_items@.len());
        assert(products_view(data@) =~= decoded_products(ms.take(0)));
    }
    while i < raw_items.len()
        invariant
            i <= raw_items@.len(),
            ms == models_of(raw_items@),
            ms.len() == raw_items@.len(),
            forall|k: int| 0 <= k < i ==> (#[trigger] spec_record_of(ms[k])) is Some,
            forall|k: int| 0 <= k < data@.len() ==> wf_product((#[trigger] data@[k])@),
            products_view(data@) == decoded_products(ms.take(i as int)),
        decreases raw_items.len() - i,
    {
        proof {
            assert(ms[i as int] == json_model(raw_items@[i as int]));
        }
        match decode_product(&raw_items[i]) {
            Ok(p) => {
                let ghost d0 = products_view(data@);
                data.push(p);
                proof {
                    assert(spec_record_of(ms[i as int]) is Some);
                    assert(p@ == spec_normalize(spec_record_of(ms[i as int]).unwrap()));
                    assert(products_view(data@) =~= d0.push(p@));
                    assert(products_view(data@) =~= decoded_products(ms.take(i as int + 1)));
                }
            },
            Err(e) => {
                proof {
                    assert(spec_record_of(ms[i as int]) is None);
                    assert(!all_records_ok(ms));
                }
                return Err(e);
            },
        }
        i += 1;
    }
    proof {
        assert(ms.take(ms.len() as int) =~= ms);
        assert(all_records_ok(ms));
    }
    Ok(ProductCatalog { status, statuscode, message, totalitems, itemsperpage, data })
}

/// Decodes a catalog page from a response body: it returns a page
/// exactly when the body is valid JSON that reads as a catalog
/// response, and the page equals what the body prescribes — the decode
/// is a function of the body text alone, so any two fetches that yield
/// one body yield one page. Every product of a returned page is
/// well-formed.
pub fn parse_catalog(body: &str) -> (r: Result<ProductCatalog, StoreError>)
    ensures
        match spec_parse_catalog(body@) {
            Some(cv) => r matches Ok(c) && c@ == cv,
            None => r matches Err(e) && e is Decode,
        },
        r matches Ok(c) ==> forall|i: int|
            0 <= i < c.data@.len() ==> wf_product((#[trigger] c.data@[i])@),
{
    match parse_json(body) {
        Some(v) => decode_catalog(&v),
        None => Err(decode_error("response body is not valid JSON", "")),
    }
}

} // verus!
