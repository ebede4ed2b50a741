//! JSON values as the library reads them, and the validation of a value
//! against the subset of JSON Schema used by tool descriptions: `type`,
//! `required`, and nested `properties` and `items`.
use vstd::prelude::*;
use crate::error::{AppError, ErrorKind};
use crate::text::{owned, push_text, text_eq};

verus! {

broadcast use vstd::std_specs::vec::axiom_vec_decreases_to_view;

/// A JSON number: an integer that fits in `u64` or `i64`, or a number with
/// a fraction or exponent, whose value the library never reads.
#[derive(Debug, Clone, Copy, PartialEq, Eq, Structural)]
pub enum JsonNumber {
    PosInt(u64),
    NegInt(i64),
    Float,
}

/// A JSON value. The members of an object are kept in order.
#[derive(Debug)]
pub enum JsonValue {
    Null,
    Bool(bool),
    Number(JsonNumber),
    String(String),
    Array(Vec<JsonValue>),
    Object(Vec<(String, JsonValue)>),
}

/// The content of a JSON value, with arrays and objects as sequences.
pub enum JsonView {
    Null,
    Bool(bool),
    Number(JsonNumber),
    Str(Seq<char>),
    Array(Seq<JsonView>),
    Object(Seq<(Seq<char>, JsonView)>),
}

/// The content of a JSON value.
#[verifier::opaque]
pub open spec fn json_view(v: JsonValue) -> JsonView
    decreases v,
{
    match v {
        JsonValue::Null => JsonView::Null,
        JsonValue::Bool(b) => JsonView::Bool(b),
        JsonValue::Number(n) => JsonView::Number(n),
        JsonValue::String(s) => JsonView::Str(s@),
        JsonValue::Array(items) => JsonView::Array(
            Seq::new(
                items@.len(),
                |i: int|
                    if 0 <= i < items@.len() {
                        proof {
                            assert(decreases_to!(items@ => items@[i]));
                        }
                        json_view(items@[i])
                    } else {
                        JsonView::Null
                    },
            ),
        ),
        JsonValue::Object(members) => JsonView::Object(
            Seq::new(
                members@.len(),
                |i: int|
                    if 0 <= i < members@.len() {
                        proof {
                            assert(decreases_to!(members@ => members@[i]));
                        }
                        (members@[i].0@, json_view(members@[i].1))
                    } else {
                        (Seq::empty(), JsonView::Null)
                    },
            ),
        ),
    }
}

impl View for JsonValue {
    type V = JsonView;

    open spec fn view(&self) -> JsonView {
        json_view(*self)
    }
}

impl JsonValue {
    /// A copy of the value with the same content.
    pub fn duplicate(&self) -> (r: JsonValue)
        ensures
            r@ == self@,
        decreases *self,
    {
        reveal(json_view);
        match self {
            JsonValue::Null => JsonValue::Null,
            JsonValue::Bool(b) => JsonValue::Bool(*b),
            JsonValue::Number(n) => JsonValue::Number(*n),
            JsonValue::String(s) => JsonValue::String(s.clone()),
            JsonValue::Array(items) => {
                let mut out: Vec<JsonValue> = Vec::new();
                let mut i: usize = 0;
                while i < items.len()
                    invariant
                        i <= items@.len(),
                        *self == JsonValue::Array(*items),
                        out@.len() == i,
                        forall|k: int| 0 <= k < i ==> json_view(#[trigger] out@[k]) == json_view(items@[k]),
                    decreases items@.len() - i,
                {
                    proof {
                        assert(decreases_to!(*self => self->Array_0));
                        assert(decreases_to!(*items => items@));
                        assert(decreases_to!(items@ => items@[i as int]));
                    }
                    let d = items[i].duplicate();
                    out.push(d);
                    i = i + 1;
                }
                let r = JsonValue::Array(out);
                proof {
                    let a = match json_view(r) { JsonView::Array(a) => a, _ => Seq::empty() };
                    let b = match json_view(*self) { JsonView::Array(b) => b, _ => Seq::empty() };
                    assert(a =~= b);
                }
                r
            },
            JsonValue::Object(members) => {
                let mut out: Vec<(String, JsonValue)> = Vec::new();
                let mut i: usize = 0;
                while i < members.len()
                    invariant
                        i <= members@.len(),
                        *self == JsonValue::Object(*members),
                        out@.len() == i,
                        forall|k: int|
                            0 <= k < i ==> (#[trigger] out@[k]).0@ == members@[k].0@ && json_view(out@[k].1)
                                == json_view(members@[k].1),
                    decreases members@.len() - i,
                {
                    proof {
                        assert(decreases_to!(*self => self->Object_0));
                        assert(decreases_to!(*members => members@));
                        assert(decreases_to!(members@ => members@[i as int]));
                        assert(decreases_to!(members@[i as int] => members@[i as int].1));
                    }
                    let d = members[i].1.duplicate();
                    out.push((members[i].0.clone(), d));
                    i = i + 1;
                }
                let r = JsonValue::Object(out);
                proof {
                    let a = match json_view(r) { JsonView::Object(a) => a, _ => Seq::empty() };
                    let b = match json_view(*self) { JsonView::Object(b) => b, _ => Seq::empty() };
                    assert(a =~= b);
                }
                r
            },
        }
    }
}

/// Index of the first member named `key`.
pub open spec fn member_index(members: Seq<(String, JsonValue)>, key: Seq<char>) -> Option<int> {
    if exists|i: int| 0 <= i < members.len() && (#[trigger] members[i]).0@ == key {
        Some(
            choose|i: int|
                0 <= i < members.len() && (#[trigger] members[i]).0@ == key && forall|j: int|
                    0 <= j < i ==> (#[trigger] members[j]).0@ != key,
        )
    } else {
        None
    }
}

/// The value of the first member named `key`.
pub open spec fn member(members: Seq<(String, JsonValue)>, key: Seq<char>) -> Option<JsonValue> {
    match member_index(members, key) {
        Some(i) => Some(members[i].1),
        None => None,
    }
}

/// The value under `key` of a JSON object; nothing for other values.
pub open spec fn get_spec(v: JsonValue, key: Seq<char>) -> Option<JsonValue> {
    match v {
        JsonValue::Object(m) => member(m@, key),
        _ => None,
    }
}

proof fn lemma_member_index_choice(members: Seq<(String, JsonValue)>, key: Seq<char>, i: int)
    requires
        0 <= i < members.len(),
        members[i].0@ == key,
        forall|j: int| 0 <= j < i ==> (#[trigger] members[j]).0@ != key,
    ensures
        member_index(members, key) == Some(i),
{
    let c = choose|c: int|
        0 <= c < members.len() && (#[trigger] members[c]).0@ == key && forall|j: int|
            0 <= j < c ==> (#[trigger] members[j]).0@ != key;
    assert(members[i].0@ == key);
    if c < i {
        assert(members[c].0@ != key);
    }
    if c > i {
        assert(members[i].0@ != key);
    }
}

fn find_member(members: &Vec<(String, JsonValue)>, key: &str) -> (r: Option<usize>)
    ensures
        match r {
            Some(i) => member_index(members@, key@) == Some(i as int) && i < members@.len(),
            None => member_index(members@, key@) is None,
        },
{
    let mut i: usize = 0;
    while i < members.len()
        invariant
            i <= members@.len(),
            forall|j: int| 0 <= j < i ==> (#[trigger] members@[j]).0@ != key@,
        decreases members@.len() - i,
    {
        if text_eq(members[i].0.as_str(), key) {
            proof {
                lemma_member_index_choice(members@, key@, i as int);
            }
            return Some(i);
        }
        i = i + 1;
    }
    None
}

impl JsonValue {
    /// The value under `key`, when this is an object that has it.
    pub fn get(&self, key: &str) -> (r: Option<&JsonValue>)
        ensures
            match r {
                Some(v) => get_spec(*self, key@) == Some(*v),
                None => get_spec(*self, key@) is None,
            },
    {
        match self {
            JsonValue::Object(m) => match find_member(m, key) {
                Some(i) => Some(&m[i].1),
                None => None,
            },
            _ => None,
        }
    }

    /// The text of a JSON string.
    pub fn as_str(&self) -> (r: Option<&str>)
        ensures
            match r {
                Some(s) => *self matches JsonValue::String(t) && t@ == s@,
                None => !(*self is String),
            },
    {
        match self {
            JsonValue::String(s) => Some(s.as_str()),
            _ => None,
        }
    }
}

/// Whether a value is of the JSON Schema type named `t`; an unknown type
/// name admits every value.
pub open spec fn type_admits(t: Seq<char>, v: JsonValue) -> bool {
    if t == "object"@ {
        v is Object
    } else if t == "string"@ {
        v is String
    } else if t == "number"@ {
        v is Number
    } else if t == "integer"@ {
        v matches JsonValue::Number(n) && !(n is Float)
    } else if t == "boolean"@ {
        v is Bool
    } else if t == "array"@ {
        v is Array
    } else if t == "null"@ {
        v is Null
    } else {
        true
    }
}

/// The type error of a value under a schema: when the schema's `type` is
/// a string that does not admit the value.
pub open spec fn type_error(value: JsonValue, schema: JsonValue) -> Option<Seq<char>> {
    match get_spec(schema, "type"@) {
        Some(JsonValue::String(t)) => if type_admits(t@, value) {
            None
        } else {
            Some("expected value of type "@ + t@)
        },
        _ => None,
    }
}

/// The first required field (a string item of `required`, in order) that
/// the object `members` lacks.
pub open spec fn missing_required(members: Seq<(String, JsonValue)>, required: Seq<JsonValue>) -> Option<Seq<char>>
    decreases required.len(),
{
    if required.len() == 0 {
        None
    } else {
        match missing_required(members, required.drop_last()) {
            Some(m) => Some(m),
            None => match required.last() {
                JsonValue::String(f) => if member_index(members, f@) is None {
                    Some("missing required field: "@ + f@)
                } else {
                    None
                },
                _ => None,
            },
        }
    }
}

/// The error of a value under a schema, if any: nothing when the schema is
/// not an object; else the type error, then for an object the first
/// missing required field, then the first property (in the schema's order)
/// whose value has an error; then for an array the first item with an
/// error under `items`.
pub open spec fn schema_error(value: JsonValue, schema: JsonValue) -> Option<Seq<char>>
    decreases value, 2nat, 0nat,
{
    if !(schema is Object) {
        None
    } else if type_error(value, schema) is Some {
        type_error(value, schema)
    } else {
        let object_error = match value {
            JsonValue::Object(members) => {
                let required_error = match get_spec(schema, "required"@) {
                    Some(JsonValue::Array(req)) => missing_required(members@, req@),
                    _ => None,
                };
                if required_error is Some {
                    required_error
                } else {
                    match get_spec(schema, "properties"@) {
                        Some(JsonValue::Object(props)) => properties_error(value, props@, 0),
                        _ => None,
                    }
                }
            },
            _ => None,
        };
        if object_error is Some {
            object_error
        } else {
            match value {
                JsonValue::Array(_) => match get_spec(schema, "items"@) {
                    Some(item_schema) => items_error(value, item_schema, 0),
                    None => None,
                },
                _ => None,
            }
        }
    }
}

/// The first error among the properties `props[i..]` of the object `value`.
pub open spec fn properties_error(value: JsonValue, props: Seq<(String, JsonValue)>, i: int) -> Option<Seq<char>>
    decreases value, 1nat, props.len() - i,
{
    if i < 0 || i >= props.len() {
        None
    } else {
        let here = match value {
            JsonValue::Object(members) => match member_index(members@, props[i].0@) {
                Some(k) => if 0 <= k < members@.len() {
                    proof {
                        assert(decreases_to!(members@ => members@[k]));
                    }
                    schema_error(members@[k].1, props[i].1)
                } else {
                    None
                },
                None => None,
            },
            _ => None,
        };
        if here is Some {
            here
        } else {
            properties_error(value, props, i + 1)
        }
    }
}

/// The first error among the items `[i..]` of the array `value`.
pub open spec fn items_error(value: JsonValue, item_schema: JsonValue, i: int) -> Option<Seq<char>>
    decreases value, 1nat, (match value {
        JsonValue::Array(items) => items@.len(),
        _ => 0,
    }) - i,
{
    match value {
        JsonValue::Array(items) => if 0 <= i < items@.len() {
            proof {
                assert(decreases_to!(items@ => items@[i]));
            }
            let here = schema_error(items@[i], item_schema);
            if here is Some {
                here
            } else {
                items_error(value, item_schema, i + 1)
            }
        } else {
            None
        },
        _ => None,
    }
}

/// `Some` text as a spec value.
pub open spec fn opt_text(r: Option<String>) -> Option<Seq<char>> {
    match r {
        Some(t) => Some(t@),
        None => None,
    }
}

fn admits(t: &str, value: &JsonValue) -> (r: bool)
    ensures
        r == type_admits(t@, *value),
{
    proof {
        reveal_strlit("object");
        reveal_strlit("string");
        reveal_strlit("number");
        reveal_strlit("integer");
        reveal_strlit("boolean");
        reveal_strlit("array");
        reveal_strlit("null");
    }
    if text_eq(t, "object") {
        matches!(value, JsonValue::Object(_))
    } else if text_eq(t, "string") {
        matches!(value, JsonValue::String(_))
    } else if text_eq(t, "number") {
        matches!(value, JsonValue::Number(_))
    } else if text_eq(t, "integer") {
        match value {
            JsonValue::Number(JsonNumber::Float) => false,
            JsonValue::Number(_) => true,
            _ => false,
        }
    } else if text_eq(t, "boolean") {
        matches!(value, JsonValue::Bool(_))
    } else if text_eq(t, "array") {
        matches!(value, JsonValue::Array(_))
    } else if text_eq(t, "null") {
        matches!(value, JsonValue::Null)
    } else {
        true
    }
}

fn type_check(value: &JsonValue, schema: &JsonValue) -> (r: Option<String>)
    ensures
        opt_text(r) == type_error(*value, *schema),
{
    match schema.get("type") {
        Some(JsonValue::String(t)) => if admits(t.as_str(), value) {
            None
        } else {
            let mut m = owned("expected value of type ");
            push_text(&mut m, t.as_str());
            Some(m)
        },
        _ => None,
    }
}

fn required_check(members: &Vec<(String, JsonValue)>, required: &Vec<JsonValue>) -> (r: Option<String>)
    ensures
        opt_text(r) == missing_required(members@, required@),
{
    let mut i: usize = 0;
    while i < required.len()
        invariant
            i <= required@.len(),
            missing_required(members@, required@.take(i as int)) is None,
        decreases required@.len() - i,
    {
        assert(required@.take(i + 1).drop_last() =~= required@.take(i as int));
        assert(required@.take(i + 1).last() == required@[i as int]);
        match &required[i] {
            JsonValue::String(f) => {
                if find_member(members, f.as_str()).is_none() {
                    let mut m = owned("missing required field: ");
                    push_text(&mut m, f.as_str());
                    assert(missing_required(members@, required@.take(i + 1)) == Some(m@));
                    assert(missing_required(members@, required@) == Some(m@)) by {
                        lemma_missing_required_prefix(members@, required@, i + 1);
                    }
                    return Some(m);
                }
            },
            _ => {},
        }
        i = i + 1;
    }
    assert(required@.take(i as int) =~= required@);
    None
}

proof fn lemma_missing_required_prefix(members: Seq<(String, JsonValue)>, required: Seq<JsonValue>, n: int)
    requires
        0 <= n <= required.len(),
        missing_required(members, required.take(n)) is Some,
    ensures
        missing_required(members, required) == missing_required(members, required.take(n)),
    decreases required.len() - n,
{
    if n < required.len() {
        assert(required.take(n + 1).drop_last() =~= required.take(n));
        lemma_missing_required_prefix(members, required, n + 1);
    } else {
        assert(required.take(n) =~= required);
    }
}

proof fn lemma_member_smaller(value: JsonValue, members: Vec<(String, JsonValue)>, k: int)
    requires
        value == JsonValue::Object(members),
        0 <= k < members@.len(),
    ensures
        decreases_to!(value => members@[k].1),
{
    assert(decreases_to!(value => value->Object_0));
    assert(decreases_to!(members => members@));
    assert(decreases_to!(members@ => members@[k]));
    assert(decreases_to!(members@[k] => members@[k].1));
}

proof fn lemma_item_smaller(value: JsonValue, items: Vec<JsonValue>, k: int)
    requires
        value == JsonValue::Array(items),
        0 <= k < items@.len(),
    ensures
        decreases_to!(value => items@[k]),
{
    assert(decreases_to!(value => value->Array_0));
    assert(decreases_to!(items => items@));
    assert(decreases_to!(items@ => items@[k]));
}

proof fn lemma_properties_step(value: JsonValue, members: Vec<(String, JsonValue)>, props: Seq<(String, JsonValue)>, i: int)
    requires
        value == JsonValue::Object(members),
        0 <= i < props.len(),
    ensures
        properties_error(value, props, i) == (match member_index(members@, props[i].0@) {
            Some(k) => if 0 <= k < members@.len() && schema_error(members@[k].1, props[i].1) is Some {
                schema_error(members@[k].1, props[i].1)
            } else {
                properties_error(value, props, i + 1)
            },
            None => properties_error(value, props, i + 1),
        }),
{
}

proof fn lemma_items_step(value: JsonValue, items: Vec<JsonValue>, item_schema: JsonValue, i: int)
    requires
        value == JsonValue::Array(items),
        0 <= i < items@.len(),
    ensures
        items_error(value, item_schema, i) == (if schema_error(items@[i], item_schema) is Some {
            schema_error(items@[i], item_schema)
        } else {
            items_error(value, item_schema, i + 1)
        }),
{
}

fn check_properties(value: &JsonValue, members: &Vec<(String, JsonValue)>, props: &Vec<(String, JsonValue)>) -> (r:
    Option<String>)
    requires
        *value == JsonValue::Object(*members),
    ensures
        opt_text(r) == properties_error(*value, props@, 0),
    decreases *value, 0nat,
{
    let mut i: usize = 0;
    while i < props.len()
        invariant
            i <= props@.len(),
            *value == JsonValue::Object(*members),
            properties_error(*value, props@, 0) == properties_error(*value, props@, i as int),
        decreases props@.len() - i,
    {
        proof {
            lemma_properties_step(*value, *members, props@, i as int);
        }
        match find_member(members, props[i].0.as_str()) {
            Some(k) => {
                proof {
                    lemma_member_smaller(*value, *members, k as int);
                }
                let e = check_value(&members[k].1, &props[i].1);
                if e.is_some() {
                    return e;
                }
            },
            None => {},
        }
        i = i + 1;
    }
    None
}

fn check_items(value: &JsonValue, items: &Vec<JsonValue>, item_schema: &JsonValue) -> (r: Option<String>)
    requires
        *value == JsonValue::Array(*items),
    ensures
        opt_text(r) == items_error(*value, *item_schema, 0),
    decreases *value, 0nat,
{
    let mut i: usize = 0;
    while i < items.len()
        invariant
            i <= items@.len(),
            *value == JsonValue::Array(*items),
            items_error(*value, *item_schema, 0) == items_error(*value, *item_schema, i as int),
        decreases items@.len() - i,
    {
        proof {
            lemma_items_step(*value, *items, *item_schema, i as int);
            lemma_item_smaller(*value, *items, i as int);
        }
        let e = check_value(&items[i], item_schema);
        if e.is_some() {
            return e;
        }
        i = i + 1;
    }
    None
}

/// The error of a value under a schema, as `schema_error` defines it.
fn check_value(value: &JsonValue, schema: &JsonValue) -> (r: Option<String>)
    ensures
        opt_text(r) == schema_error(*value, *schema),
    decreases *value, 1nat,
{
    if !matches!(schema, JsonValue::Object(_)) {
        return None;
    }
    let t = type_check(value, schema);
    if t.is_some() {
        return t;
    }
    match value {
        JsonValue::Object(members) => {
            let req = match schema.get("required") {
                Some(JsonValue::Array(req)) => required_check(members, req),
                _ => None,
            };
            if req.is_some() {
                return req;
            }
            match schema.get("properties") {
                Some(JsonValue::Object(props)) => check_properties(value, members, props),
                _ => None,
            }
        },
        JsonValue::Array(items) => match schema.get("items") {
            Some(item_schema) => check_items(value, items, item_schema),
            None => None,
        },
        _ => None,
    }
}

/// Validates a value against a hand-written JSON Schema: the first error
/// that `schema_error` names is reported as a validation error.
pub fn validate_against_schema(value: &JsonValue, schema: &JsonValue) -> (r: Result<(), AppError>)
    ensures
        match schema_error(*value, *schema) {
            None => r is Ok,
            Some(m) => r matches Err(e) && e.kind == ErrorKind::Validation && e.message@ == m,
        },
{
    match check_value(value, schema) {
        None => Ok(()),
        Some(m) => Err(AppError::from_message(ErrorKind::Validation, m)),
    }
}

} // verus!

verus! {

/// A schema of type `number` accepts every JSON number, integral or not,
/// and refuses every other value by naming the type.
pub proof fn lemma_number_type_admits_all_numbers(schema: JsonValue, t: String, v: JsonValue)
    requires
        schema is Object,
        get_spec(schema, "type"@) == Some(JsonValue::String(t)),
        t@ == "number"@,
    ensures
        v is Number ==> schema_error(v, schema) is None,
        !(v is Number) ==> schema_error(v, schema) == Some("expected value of type number"@),
{
    reveal_strlit("number");
    reveal_strlit("object");
    reveal_strlit("string");
    assert("number"@[0] == 'n' && "object"@[0] == 'o' && "string"@[0] == 's');
    assert("number"@ != "object"@ && "number"@ != "string"@);
    reveal_strlit("expected value of type ");
    reveal_strlit("expected value of type number");
    assert("expected value of type "@ + t@ =~= "expected value of type number"@);
}

/// A schema of type `integer` accepts exactly the integral JSON numbers.
pub proof fn lemma_integer_type_admits_integral_numbers(schema: JsonValue, t: String, n: JsonNumber)
    requires
        schema is Object,
        get_spec(schema, "type"@) == Some(JsonValue::String(t)),
        t@ == "integer"@,
    ensures
        schema_error(JsonValue::Number(n), schema) is None <==> !(n is Float),
{
    reveal_strlit("number");
    reveal_strlit("object");
    reveal_strlit("string");
    reveal_strlit("integer");
    assert("integer"@[0] == 'i' && "number"@[0] == 'n' && "object"@[0] == 'o' && "string"@[0] == 's');
    assert("integer"@ != "object"@ && "integer"@ != "string"@ && "integer"@ != "number"@);
}

} // verus!
