//! Loading the store from an input document: serde_json parses the text
//! into a JSON value; verified code walks that value, classifies each
//! monitor's fields into plain data, and builds the store — rejecting
//! any schema mismatch.

use vstd::prelude::*;
use crate::model::{Monitor, MonitorData, MonitorView};

verus! {

/// serde_json's JSON value, declared so that values of it can pass
/// through signatures here; what such a value holds stays opaque.
#[verifier::external_type_specification]
#[verifier::external_body]
pub struct ExValue(serde_json::Value);

/// serde_json's error type, declared so the parse wrapper can hand it
/// back before verified code maps it to this crate's own error.
#[verifier::external_type_specification]
#[verifier::external_body]
pub struct ExJsonError(serde_json::Error);

/// Why loading was refused.
#[derive(Debug, PartialEq, Eq, Structural)]
pub enum LoadError {
    /// The text is not valid JSON.
    Syntax,
    /// The JSON is valid but does not have the expected shape.
    Schema,
}

/// What verified code sees of one field of a JSON object.
pub enum FieldVal {
    /// The object has no such field (or the value was not an object).
    Missing,
    /// The field is `null`.
    Null,
    /// The field is an integer that fits in `i64`.
    Int(i64),
    /// The field is a string.
    Text(String),
    /// The field is anything else.
    Other,
}

/// The mathematical value of a `FieldVal`.
pub ghost enum FieldView {
    Missing,
    Null,
    Int(int),
    Text(Seq<char>),
    Other,
}

impl View for FieldVal {
    type V = FieldView;

    open spec fn view(&self) -> FieldView {
        match self {
            FieldVal::Missing => FieldView::Missing,
            FieldVal::Null => FieldView::Null,
            FieldVal::Int(n) => FieldView::Int(*n as int),
            FieldVal::Text(s) => FieldView::Text(s@),
            FieldVal::Other => FieldView::Other,
        }
    }
}

/// The six classified fields of one element of the `monitors` array.
pub struct RawMonitor {
    pub monitor_id: FieldVal,
    pub name: FieldVal,
    pub script: FieldVal,
    pub monitor_type: FieldVal,
    pub result: FieldVal,
    pub code: FieldVal,
}

/// The mathematical value of a `RawMonitor`.
pub ghost struct RawMonitorView {
    pub monitor_id: FieldView,
    pub name: FieldView,
    pub script: FieldView,
    pub monitor_type: FieldView,
    pub result: FieldView,
    pub code: FieldView,
}

impl View for RawMonitor {
    type V = RawMonitorView;

    open spec fn view(&self) -> RawMonitorView {
        RawMonitorView {
            monitor_id: self.monitor_id@,
            name: self.name@,
            script: self.script@,
            monitor_type: self.monitor_type@,
            result: self.result@,
            code: self.code@,
        }
    }
}

/// The mathematical shape of a JSON value, as far as the loader reads
/// one: an object is a map from key text to values, an array a sequence
/// of values; integers that fit `i64`, strings and `null` keep their
/// content, and every other value (floats, booleans, too-large numbers)
/// is `Other`.
pub ghost enum JsonView {
    Null,
    Int(i64),
    Text(Seq<char>),
    Array(Seq<JsonView>),
    Object(Map<Seq<char>, JsonView>),
    Other,
}

/// The shape of a `serde_json::Value`. The accessor wrappers below state
/// what each call returns in terms of this name.
pub uninterp spec fn json_view(v: serde_json::Value) -> JsonView;

/// The outcome of parsing a text with serde_json: `None` when the text
/// is not valid JSON, otherwise the shape of the parsed value. The
/// outcome depends on the text alone.
pub uninterp spec fn parsed_json_of(text: Seq<char>) -> Option<JsonView>;

/// The field of a JSON value's shape: absent unless the value is an
/// object that has the key.
pub open spec fn field_of(j: JsonView, key: Seq<char>) -> Option<JsonView> {
    match j {
        JsonView::Object(m) => if m.contains_key(key) {
            Some(m[key])
        } else {
            None
        },
        _ => None,
    }
}

/// An optional integer field must be absent, `null`, or an integer.
pub open spec fn opt_int_field_ok(f: FieldView) -> bool {
    f is Missing || f is Null || f is Int
}

/// An optional string field must be absent, `null`, or a string.
pub open spec fn opt_text_field_ok(f: FieldView) -> bool {
    f is Missing || f is Null || f is Text
}

/// The schema of one monitor: `name` and `code` are required strings,
/// `monitor_id` an optional integer, `script` and `type` optional
/// strings, and `result` must still be unset in an input document.
pub open spec fn raw_valid(r: RawMonitorView) -> bool {
    &&& opt_int_field_ok(r.monitor_id)
    &&& r.name is Text
    &&& opt_text_field_ok(r.script)
    &&& opt_text_field_ok(r.monitor_type)
    &&& r.result is Missing || r.result is Null
    &&& r.code is Text
}

/// The optional integer a valid field denotes.
pub open spec fn opt_int_of(f: FieldView) -> Option<int> {
    match f {
        FieldView::Int(n) => Some(n),
        _ => None,
    }
}

/// The optional text a valid field denotes.
pub open spec fn opt_text_of(f: FieldView) -> Option<Seq<char>> {
    match f {
        FieldView::Text(s) => Some(s),
        _ => None,
    }
}

/// The required text of a valid field.
pub open spec fn text_of(f: FieldView) -> Seq<char> {
    match f {
        FieldView::Text(s) => s,
        _ => Seq::<char>::empty(),
    }
}

/// The monitor a valid raw record denotes: every given field kept, the
/// result not yet assigned.
pub open spec fn monitor_of_raw(r: RawMonitorView) -> MonitorView
    recommends
        raw_valid(r),
{
    MonitorView {
        monitor_id: opt_int_of(r.monitor_id),
        name: text_of(r.name),
        script: opt_text_of(r.script),
        monitor_type: opt_text_of(r.monitor_type),
        result: None,
        code: text_of(r.code),
    }
}

/// The classified record of one element of the `monitors` array.
pub open spec fn raw_of_json(j: JsonView) -> RawMonitorView {
    RawMonitorView {
        monitor_id: classified(field_of(j, "monitor_id"@)),
        name: classified(field_of(j, "name"@)),
        script: classified(field_of(j, "script"@)),
        monitor_type: classified(field_of(j, "type"@)),
        result: classified(field_of(j, "result"@)),
        code: classified(field_of(j, "code"@)),
    }
}

/// The classified records of all elements of the array, in order.
pub open spec fn raws_of_jsons(elems: Seq<JsonView>) -> Seq<RawMonitorView> {
    Seq::new(elems.len(), |i: int| raw_of_json(elems[i]))
}

/// The `monitors` array of the parsed document's shape, absent unless
/// the document is an object whose `monitors` field is an array.
pub open spec fn monitors_of(root: JsonView) -> Option<Seq<JsonView>> {
    match field_of(root, "monitors"@) {
        Some(JsonView::Array(s)) => Some(s),
        _ => None,
    }
}

/// What a text classifies into: a `Syntax` refusal when it does not
/// parse, a `Schema` refusal when it has no `monitors` array, otherwise
/// the classified records.
pub open spec fn spec_load_records(text: Seq<char>) -> Result<Seq<RawMonitorView>, LoadError> {
    match parsed_json_of(text) {
        None => Err(LoadError::Syntax),
        Some(root) => match monitors_of(root) {
            None => Err(LoadError::Schema),
            Some(elems) => Ok(raws_of_jsons(elems)),
        },
    }
}

/// Relies on `serde_json::from_str`: parses the text as one JSON value,
/// with serde_json's error when the text is not valid JSON. The parse is
/// a function of the text alone, so its outcome carries the name
/// `parsed_json_of`.
#[verifier::external_body]
fn parse_json(text: &str) -> (r: Result<serde_json::Value, serde_json::Error>)
    ensures
        r is Ok <==> parsed_json_of(text@) is Some,
        r matches Ok(v) ==> parsed_json_of(text@) == Some(json_view(v)),
{
    serde_json::from_str::<serde_json::Value>(text)
}

/// Relies on `serde_json::Value::get` with a string key: the field of a
/// JSON object, `None` on a missing key or on any other kind of value.
#[verifier::external_body]
fn get_field<'a>(v: &'a serde_json::Value, key: &str) -> (r: Option<&'a serde_json::Value>)
    ensures
        match r {
            Some(f) => json_view(*v) matches JsonView::Object(m) && m.contains_key(key@)
                && json_view(*f) == m[key@],
            None => json_view(*v) matches JsonView::Object(m) ==> !m.contains_key(key@),
        },
{
    v.get(key)
}

/// Relies on `serde_json::Value::get` with a numeric index: the element
/// of a JSON array, `None` out of bounds or on any other kind of value.
#[verifier::external_body]
fn get_index<'a>(v: &'a serde_json::Value, i: usize) -> (r: Option<&'a serde_json::Value>)
    ensures
        match r {
            Some(e) => json_view(*v) matches JsonView::Array(s) && i < s.len() && json_view(*e)
                == s[i as int],
            None => json_view(*v) matches JsonView::Array(s) ==> i >= s.len(),
        },
{
    v.get(i)
}

/// Relies on `serde_json::Value::as_array`: the length of a JSON array,
/// `None` on any other kind of value.
#[verifier::external_body]
fn array_len(v: &serde_json::Value) -> (r: Option<usize>)
    ensures
        match r {
            Some(n) => json_view(*v) matches JsonView::Array(s) && n == s.len(),
            None => !(json_view(*v) is Array),
        },
{
    match v.as_array() {
        Some(a) => Some(a.len()),
        None => None,
    }
}

/// Relies on `serde_json::Value::is_null`.
#[verifier::external_body]
fn value_is_null(v: &serde_json::Value) -> (r: bool)
    ensures
        r == (json_view(*v) is Null),
{
    v.is_null()
}

/// Relies on `serde_json::Value::as_i64`: the value of a JSON integer
/// that fits in `i64`, `None` on any other kind of value.
#[verifier::external_body]
fn as_int(v: &serde_json::Value) -> (r: Option<i64>)
    ensures
        match r {
            Some(n) => json_view(*v) == JsonView::Int(n),
            None => !(json_view(*v) is Int),
        },
{
    v.as_i64()
}

/// Relies on `serde_json::Value::as_str`: the text of a JSON string,
/// `None` on any other kind of value.
#[verifier::external_body]
fn as_text(v: &serde_json::Value) -> (r: Option<String>)
    ensures
        match r {
            Some(s) => json_view(*v) == JsonView::Text(s@),
            None => !(json_view(*v) is Text),
        },
{
    match v.as_str() {
        Some(s) => Some(s.to_string()),
        None => None,
    }
}

/// How one field's shape is classified into plain data.
pub open spec fn classified(f: Option<JsonView>) -> FieldView {
    match f {
        None => FieldView::Missing,
        Some(j) => match j {
            JsonView::Null => FieldView::Null,
            JsonView::Int(n) => FieldView::Int(n as int),
            JsonView::Text(s) => FieldView::Text(s),
            _ => FieldView::Other,
        },
    }
}

/// Classifies one looked-up field into plain data.
fn classify(v: Option<&serde_json::Value>) -> (r: FieldVal)
    ensures
        r@ == classified(
            match v {
                Some(x) => Some(json_view(*x)),
                None => None,
            },
        ),
{
    match v {
        None => FieldVal::Missing,
        Some(x) => {
            if value_is_null(x) {
                FieldVal::Null
            } else {
                match as_int(x) {
                    Some(n) => FieldVal::Int(n),
                    None => match as_text(x) {
                        Some(s) => FieldVal::Text(s),
                        None => FieldVal::Other,
                    },
                }
            }
        },
    }
}

/// Looks up and classifies one field of a monitor element.
fn classify_field(elem: &serde_json::Value, key: &str) -> (r: FieldVal)
    ensures
        r@ == classified(field_of(json_view(*elem), key@)),
{
    let f = get_field(elem, key);
    let r = classify(f);
    proof {
        match f {
            Some(x) => {
                assert(field_of(json_view(*elem), key@) == Some(json_view(*x)));
            },
            None => {
                assert(field_of(json_view(*elem), key@) is None);
            },
        }
    }
    r
}

/// Builds one monitor from its classified fields: accepted exactly when
/// the fields fit the schema, and then every given field is kept
/// unchanged, with no result assigned yet.
pub fn monitor_from_raw(raw: &RawMonitor) -> (r: Result<Monitor, LoadError>)
    ensures
        r is Ok <==> raw_valid(raw@),
        r matches Ok(m) ==> m@ == monitor_of_raw(raw@),
        r matches Err(e) ==> e == LoadError::Schema,
{
    let monitor_id: Option<i64> = match &raw.monitor_id {
        FieldVal::Missing => None,
        FieldVal::Null => None,
        FieldVal::Int(n) => Some(*n),
        _ => {
            return Err(LoadError::Schema);
        },
    };
    let name: String = match &raw.name {
        FieldVal::Text(s) => s.clone(),
        _ => {
            return Err(LoadError::Schema);
        },
    };
    let script: Option<String> = match &raw.script {
        FieldVal::Missing => None,
        FieldVal::Null => None,
        FieldVal::Text(s) => Some(s.clone()),
        _ => {
            return Err(LoadError::Schema);
        },
    };
    let monitor_type: Option<String> = match &raw.monitor_type {
        FieldVal::Missing => None,
        FieldVal::Null => None,
        FieldVal::Text(s) => Some(s.clone()),
        _ => {
            return Err(LoadError::Schema);
        },
    };
    match &raw.result {
        FieldVal::Missing => (),
        FieldVal::Null => (),
        _ => {
            return Err(LoadError::Schema);
        },
    };
    let code: String = match &raw.code {
        FieldVal::Text(s) => s.clone(),
        _ => {
            return Err(LoadError::Schema);
        },
    };
    Ok(Monitor { monitor_id, name, script, monitor_type, result: None, code })
}

/// Builds the whole store from the classified records: accepted exactly
/// when every record fits the schema, and then the store holds one
/// monitor per record, in order, each field kept unchanged.
pub fn build_monitor_data(raws: &Vec<RawMonitor>) -> (r: Result<MonitorData, LoadError>)
    ensures
        r is Ok <==> (forall|i: int| 0 <= i < raws@.len() ==> raw_valid(#[trigger] raws@[i]@)),
        r matches Ok(d) ==> d@.len() == raws@.len() && (forall|i: int|
            0 <= i < raws@.len() ==> #[trigger] d@[i] == monitor_of_raw(raws@[i]@)),
        r matches Err(e) ==> e == LoadError::Schema,
{
    let mut monitors: Vec<Monitor> = Vec::new();
    let n: usize = raws.len();
    let mut i: usize = 0;
    while i < n
        invariant
            i <= n,
            n == raws@.len(),
            monitors@.len() == i,
            forall|j: int| 0 <= j < i ==> raw_valid(#[trigger] raws@[j]@),
            forall|j: int| 0 <= j < i ==> #[trigger] monitors@[j]@ == monitor_of_raw(raws@[j]@),
        decreases n - i,
    {
        match monitor_from_raw(&raws[i]) {
            Ok(m) => {
                monitors.push(m);
            },
            Err(e) => {
                proof {
                    assert(!raw_valid(raws@[i as int]@));
                }
                return Err(e);
            },
        }
        i += 1;
    }
    let data = MonitorData { monitors };
    proof {
        assert(data@.len() == raws@.len());
        assert(forall|j: int| 0 <= j < raws@.len() ==> #[trigger] data@[j] == monitors@[j]@);
    }
    Ok(data)
}

/// A store built from valid records and not yet updated round-trips the
/// required fields: its rendered document still carries each record's
/// `name` and `code`, key and value, exactly as they were classified
/// from the input — and the store has one monitor per record.
pub proof fn lemma_load_then_render_keeps_required_fields(
    raws: Seq<RawMonitorView>,
    d: Seq<MonitorView>,
    i: int,
)
    requires
        d.len() == raws.len(),
        forall|j: int| 0 <= j < raws.len() ==> #[trigger] d[j] == monitor_of_raw(raws[j]),
        0 <= i < raws.len(),
    ensures
        crate::render::contains_seq(
            crate::render::render_document(d),
            "\"code\": "@ + crate::render::json_string(text_of(raws[i].code)),
        ),
        crate::render::contains_seq(
            crate::render::render_document(d),
            "\"name\": "@ + crate::render::json_string(text_of(raws[i].name)),
        ),
{
    crate::render::lemma_document_has_code(d, i);
    crate::render::lemma_document_has_name(d, i);
    assert(d[i] == monitor_of_raw(raws[i]));
}

/// Loads the store from the text of an input file: serde_json parses
/// the text, and the parsed value's shape is checked against the schema
/// record by record. A `Syntax` error comes exactly when the text does
/// not parse, a `Schema` error exactly when it has no `monitors` array
/// or some record breaks the schema; an accepted store holds one monitor
/// per record, every field kept, none of them with a result yet.
pub fn load_monitor_data(text: &str) -> (r: Result<MonitorData, LoadError>)
    ensures
        spec_load_records(text@) matches Err(e) ==> r == Err::<MonitorData, LoadError>(e),
        spec_load_records(text@) matches Ok(recs) ==> {
            &&& (r is Ok <==> (forall|i: int| 0 <= i < recs.len() ==> raw_valid(#[trigger] recs[i])))
            &&& (r matches Ok(d) ==> d@.len() == recs.len() && (forall|i: int|
                0 <= i < recs.len() ==> #[trigger] d@[i] == monitor_of_raw(recs[i])))
            &&& (r is Err ==> r == Err::<MonitorData, LoadError>(LoadError::Schema))
        },
        r matches Ok(d) ==> forall|i: int| 0 <= i < d@.len() ==> (#[trigger] d@[i].result) is None,
{
    let root = match parse_json(text) {
        Ok(v) => v,
        Err(_) => {
            return Err(LoadError::Syntax);
        },
    };
    let monitors_val = match get_field(&root, "monitors") {
        Some(v) => v,
        None => {
            proof {
                assert(monitors_of(json_view(root)) is None);
            }
            return Err(LoadError::Schema);
        },
    };
    let n: usize = match array_len(monitors_val) {
        Some(len) => len,
        None => {
            proof {
                assert(monitors_of(json_view(root)) is None);
            }
            return Err(LoadError::Schema);
        },
    };
    let ghost elems = json_view(*monitors_val)->Array_0;
    proof {
        assert(monitors_of(json_view(root)) == Some(elems));
        assert(spec_load_records(text@) == Ok::<Seq<RawMonitorView>, LoadError>(
            raws_of_jsons(elems),
        ));
    }
    let mut raws: Vec<RawMonitor> = Vec::new();
    let mut i: usize = 0;
    while i < n
        invariant
            i <= n,
            n == elems.len(),
            json_view(*monitors_val) == JsonView::Array(elems),
            raws@.len() == i,
            forall|j: int| 0 <= j < i ==> #[trigger] raws@[j]@ == raw_of_json(elems[j]),
        decreases n - i,
    {
        let elem = match get_index(monitors_val, i) {
            Some(e) => e,
            None => {
                proof {
                    assert(false);
                }
                return Err(LoadError::Schema);
            },
        };
        let raw = RawMonitor {
            monitor_id: classify_field(elem, "monitor_id"),
            name: classify_field(elem, "name"),
            script: classify_field(elem, "script"),
            monitor_type: classify_field(elem, "type"),
            result: classify_field(elem, "result"),
            code: classify_field(elem, "code"),
        };
        proof {
            assert(json_view(*elem) == elems[i as int]);
            assert(raw@ == raw_of_json(elems[i as int]));
        }
        raws.push(raw);
        i += 1;
    }
    let built = build_monitor_data(&raws);
    proof {
        let recs = raws_of_jsons(elems);
        assert(recs.len() == raws@.len());
        assert forall|j: int| 0 <= j < raws@.len() implies #[trigger] raws@[j]@ == recs[j] by {
            assert(recs[j] == raw_of_json(elems[j]));
        }
        match &built {
            Ok(d) => {
                assert forall|j: int| 0 <= j < recs.len() implies raw_valid(
                    #[trigger] recs[j],
                ) by {
                    assert(raw_valid(raws@[j]@));
                }
                assert forall|j: int| 0 <= j < recs.len() implies #[trigger] d@[j]
                    == monitor_of_raw(recs[j]) by {
                    assert(d@[j] == monitor_of_raw(raws@[j]@));
                }
                assert forall|j: int| 0 <= j < d@.len() implies (#[trigger] d@[j].result)
                    is None by {
                    assert(d@[j] == monitor_of_raw(raws@[j]@));
                }
            },
            Err(_) => {
                assert(!(forall|j: int|
                    0 <= j < raws@.len() ==> raw_valid(#[trigger] raws@[j]@)));
                let bad = choose|j: int|
                    0 <= j < raws@.len() && !raw_valid(#[trigger] raws@[j]@);
                assert(!raw_valid(recs[bad]));
            },
        }
    }
    built
}

} // verus!
