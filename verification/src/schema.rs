//! Basic validation of resume input: the JSON type and `enum` constraints.
use crate::error::{TakelnError, TakelnErrorView};
use crate::json::{
    array_model, debug_json, debug_json_list, json_debug, json_list_debug, json_model,
    lemma_array_model, lemma_object_entry, lemma_object_keys, serde_value, to_serde, JsonNumber, JsonValue, JsonView,
};
use crate::text::same_text;
use serde_json::Value;
use vstd::prelude::*;
use vstd::string::*;

verus! {

/// The name of a value's JSON type; whole numbers are of type `integer`.
pub open spec fn type_word(value: JsonView) -> Seq<char> {
    match value {
        JsonView::Null => "null"@,
        JsonView::Bool(_) => "boolean"@,
        JsonView::PosInt(_) => "integer"@,
        JsonView::NegInt(_) => "integer"@,
        JsonView::Float(_) => "number"@,
        JsonView::Text(_) => "string"@,
        JsonView::Array(_) => "array"@,
        JsonView::Object(_) => "object"@,
    }
}

/// The type that a schema names, where it names one.
pub open spec fn expected_type(schema: JsonView) -> Option<Seq<char>> {
    match schema {
        JsonView::Object(fields) => if fields.contains_key("type"@) {
            match fields["type"@] {
                JsonView::Text(name) => Some(name),
                _ => None,
            }
        } else {
            None
        },
        _ => None,
    }
}

/// The values that a schema allows, where it lists them.
pub open spec fn allowed_values(schema: JsonView) -> Option<Seq<JsonView>> {
    match schema {
        JsonView::Object(fields) => if fields.contains_key("enum"@) {
            match fields["enum"@] {
                JsonView::Array(values) => Some(values),
                _ => None,
            }
        } else {
            None
        },
        _ => None,
    }
}

/// Whether a value is of the named type; `number` takes integers too.
pub open spec fn has_type(value: JsonView, name: Seq<char>) -> bool {
    type_word(value) == name || (name == "number"@ && type_word(value) == "integer"@)
}

/// Whether a value is of the type that the schema names, if it names one.
pub open spec fn type_accepts(schema: JsonView, input: JsonView) -> bool {
    expected_type(schema) matches Some(name) ==> has_type(input, name)
}

/// Whether a value equals one that the schema lists, if it lists any. Values
/// are compared by their meaning.
pub open spec fn enum_accepts(schema: JsonView, input: JsonView) -> bool {
    allowed_values(schema) matches Some(values) ==> values.contains(input)
}

/// The reason given for a value of the wrong type.
pub open spec fn type_reason(schema: JsonView, input: JsonView) -> Seq<char> {
    "Expected type '"@ + expected_type(schema)->0 + "', got '"@ + type_word(input) + "'"@
}

/// The reason given for a value that is not listed.
pub open spec fn enum_reason(schema: JsonView, input: JsonView) -> Seq<char> {
    "Value "@ + json_debug(serde_value(input)) + " not in allowed enum values "@ + json_list_debug(
        allowed_values(schema)->0.map_values(|v: JsonView| serde_value(v)),
    )
}

/// The name of a value's JSON type.
pub fn json_type(value: &JsonValue) -> (name: &'static str)
    ensures
        name@ == type_word(value@),
{
    match value {
        JsonValue::Null => "null",
        JsonValue::Bool(_) => "boolean",
        JsonValue::Number(JsonNumber::Float(_)) => "number",
        JsonValue::Number(_) => "integer",
        JsonValue::String(_) => "string",
        JsonValue::Array(_) => "array",
        JsonValue::Object(_) => "object",
    }
}

fn contains_value(values: &Vec<JsonValue>, input: &JsonValue) -> (found: bool)
    ensures
        found == array_model(*values, values@.len(), false).contains(input.meaning()),
{
    proof {
        lemma_array_model(*values, values@.len(), false);
    }
    let ghost meanings = array_model(*values, values@.len(), false);
    let mut i: usize = 0;
    while i < values.len()
        invariant
            i <= values@.len(),
            meanings == array_model(*values, values@.len(), false),
            meanings.len() == values@.len(),
            forall|j: int|
                0 <= j < values@.len() ==> #[trigger] meanings[j] == json_model(values@[j], false),
            forall|j: int| 0 <= j < i ==> #[trigger] meanings[j] != input.meaning(),
        decreases values.len() - i,
    {
        if values[i].same(input) {
            assert(meanings[i as int] == input.meaning());
            return true;
        }
        i = i + 1;
    }
    false
}

fn debug_values(values: &Vec<JsonValue>) -> (text: String)
    ensures
        text@ == json_list_debug(
            array_model(*values, values@.len(), true).map_values(|v: JsonView| serde_value(v)),
        ),
{
    proof {
        lemma_array_model(*values, values@.len(), true);
    }
    let ghost exact = array_model(*values, values@.len(), true);
    let mut outside: Vec<Value> = Vec::new();
    let mut i: usize = 0;
    while i < values.len()
        invariant
            i <= values@.len(),
            outside@.len() == i,
            exact == array_model(*values, values@.len(), true),
            exact.len() == values@.len(),
            forall|j: int|
                0 <= j < values@.len() ==> #[trigger] exact[j] == json_model(values@[j], true),
            forall|j: int| 0 <= j < i ==> #[trigger] outside@[j] == serde_value(exact[j]),
        decreases values.len() - i,
    {
        outside.push(to_serde(&values[i]));
        assert(exact[i as int] == json_model(values@[i as int], true));
        i = i + 1;
    }
    assert(outside@ =~= exact.map_values(|v: JsonView| serde_value(v)));
    debug_json_list(&outside)
}

/// Checks an input against the type and the list of values that a schema
/// demands. The type comes first; a schema may leave out either.
pub fn validate_input_against_schema(
    interrupt_id: &str,
    input: &JsonValue,
    schema: &JsonValue,
) -> (checked: Result<(), TakelnError>)
    ensures
        checked is Ok <==> type_accepts(schema@, input@) && enum_accepts(
            schema.meaning(),
            input.meaning(),
        ),
        !type_accepts(schema@, input@) ==> checked is Err && checked->Err_0@
            == (TakelnErrorView::SchemaValidationFailed {
            interrupt_id: interrupt_id@,
            reason: type_reason(schema@, input@),
        }),
        type_accepts(schema@, input@) && !enum_accepts(schema.meaning(), input.meaning())
            ==> checked is Err && checked->Err_0@ == (TakelnErrorView::SchemaValidationFailed {
            interrupt_id: interrupt_id@,
            reason: enum_reason(schema@, input@),
        }),
{
    match schema.get("type") {
        Some(JsonValue::String(expected)) => {
            let actual = json_type(input);
            let matching = same_text(actual, expected.as_str()) || (same_text(
                expected.as_str(),
                "number",
            ) && same_text(actual, "integer"));
            if !matching {
                let mut reason = String::from_str("Expected type '");
                reason.append(expected.as_str());
                reason.append("', got '");
                reason.append(actual);
                reason.append("'");
                return Err(
                    TakelnError::SchemaValidationFailed {
                        interrupt_id: interrupt_id.to_owned(),
                        reason,
                    },
                );
            }
        },
        _ => {},
    }
    match schema.get("enum") {
        Some(JsonValue::Array(values)) => {
            if !contains_value(values, input) {
                let mut reason = String::from_str("Value ");
                reason.append(debug_json(&to_serde(input)).as_str());
                reason.append(" not in allowed enum values ");
                reason.append(debug_values(values).as_str());
                return Err(
                    TakelnError::SchemaValidationFailed {
                        interrupt_id: interrupt_id.to_owned(),
                        reason,
                    },
                );
            }
        },
        _ => {},
    }
    Ok(())
}

/// A schema that names neither a type nor a list of values accepts any input.
pub proof fn law_open_schema_accepts(schema: JsonView, input: JsonView)
    requires
        expected_type(schema) is None,
        allowed_values(schema) is None,
    ensures
        type_accepts(schema, input),
        enum_accepts(schema, input),
{
}

/// Every input of type `integer` is of type `number` too.
pub proof fn law_integers_are_numbers(input: JsonView)
    ensures
        has_type(input, "integer"@) ==> has_type(input, "number"@),
{
}

/// When an object schema accepts an input, by its entries: where the entry that
/// counts for `type` is a text, the input is of the type it names, and where the
/// entry that counts for `enum` is a list, the input equals one of its values,
/// whichever; a schema without such an entry demands nothing of the kind. `type_at`
/// and `enum_at` are the places of the entries, or negative where there is none.
pub proof fn law_schemas_go_by_their_entries(
    interrupt_id: &str,
    input: JsonValue,
    entries: Vec<(String, JsonValue)>,
    type_at: int,
    enum_at: int,
    checked: Result<(), TakelnError>,
)
    requires
        call_ensures(
            validate_input_against_schema,
            (interrupt_id, &input, &JsonValue::Object(entries)),
            checked,
        ),
        -1 <= type_at < entries@.len(),
        type_at >= 0 ==> entries@[type_at].0@ == "type"@,
        forall|j: int|
            type_at < j < entries@.len() && 0 <= j ==> (#[trigger] entries@[j]).0@ != "type"@,
        -1 <= enum_at < entries@.len(),
        enum_at >= 0 ==> entries@[enum_at].0@ == "enum"@,
        forall|j: int|
            enum_at < j < entries@.len() && 0 <= j ==> (#[trigger] entries@[j]).0@ != "enum"@,
    ensures
        checked is Ok <==> (type_at < 0 || (entries@[type_at].1 matches JsonValue::String(name)
            ==> (match input {
            JsonValue::Null => name@ == "null"@,
            JsonValue::Bool(_) => name@ == "boolean"@,
            JsonValue::Number(JsonNumber::PosInt(_)) => name@ == "integer"@ || name@ == "number"@,
            JsonValue::Number(JsonNumber::NegInt(_)) => name@ == "integer"@ || name@ == "number"@,
            JsonValue::Number(JsonNumber::Float(_)) => name@ == "number"@,
            JsonValue::String(_) => name@ == "string"@,
            JsonValue::Array(_) => name@ == "array"@,
            JsonValue::Object(_) => name@ == "object"@,
        }))) && (enum_at < 0 || (entries@[enum_at].1 matches JsonValue::Array(values) ==> exists|
            k: int,
        |
            0 <= k < values@.len() && (#[trigger] values@[k]).meaning() == input.meaning())),
        checked matches Err(error) ==> error@ is SchemaValidationFailed
            && error@->SchemaValidationFailed_interrupt_id == interrupt_id@,
{
    reveal_strlit("null");
    reveal_strlit("boolean");
    reveal_strlit("integer");
    reveal_strlit("number");
    reveal_strlit("string");
    reveal_strlit("array");
    reveal_strlit("object");
    assert("null"@.len() == 4 && "boolean"@.len() == 7 && "integer"@.len() == 7 && "number"@.len()
        == 6 && "string"@.len() == 6 && "array"@.len() == 5 && "object"@.len() == 6);
    assert("boolean"@[0] != "integer"@[0]);
    let n = entries@.len();
    lemma_object_keys(entries, n, true);
    lemma_object_keys(entries, n, false);
    if type_at >= 0 {
        lemma_object_entry(entries, n, type_at, true);
    }
    if enum_at >= 0 {
        lemma_object_entry(entries, n, enum_at, false);
        match entries@[enum_at].1 {
            JsonValue::Array(values) => {
                lemma_array_model(values, values@.len(), false);
                let meanings = array_model(values, values@.len(), false);
                if meanings.contains(input.meaning()) {
                    let k = meanings.index_of(input.meaning());
                    assert(values@[k].meaning() == input.meaning());
                }
                if exists|k: int|
                    0 <= k < values@.len() && (#[trigger] values@[k]).meaning() == input.meaning() {
                    let k = choose|k: int|
                        0 <= k < values@.len() && (#[trigger] values@[k]).meaning()
                            == input.meaning();
                    assert(meanings[k] == input.meaning());
                }
            },
            _ => {},
        }
    }
}

/// A value that a schema lists is accepted where it is of an accepted type,
/// wherever in the list it stands, and a value that equals none is refused.
pub proof fn law_every_listed_value_is_accepted(
    interrupt_id: &str,
    input: JsonValue,
    entries: Vec<(String, JsonValue)>,
    enum_at: int,
    values: Vec<JsonValue>,
    k: int,
    checked: Result<(), TakelnError>,
)
    requires
        call_ensures(
            validate_input_against_schema,
            (interrupt_id, &input, &JsonValue::Object(entries)),
            checked,
        ),
        0 <= enum_at < entries@.len(),
        entries@[enum_at].0@ == "enum"@,
        forall|j: int| enum_at < j < entries@.len() ==> (#[trigger] entries@[j]).0@ != "enum"@,
        entries@[enum_at].1 == JsonValue::Array(values),
        0 <= k < values@.len(),
    ensures
        values@[k].meaning() == input.meaning() && (forall|j: int|
            0 <= j < entries@.len() ==> (#[trigger] entries@[j]).0@ != "type"@) ==> checked is Ok,
        (forall|m: int|
            0 <= m < values@.len() ==> (#[trigger] values@[m]).meaning() != input.meaning())
            ==> checked is Err,
{
    let n = entries@.len();
    lemma_object_keys(entries, n, true);
    lemma_object_entry(entries, n, enum_at, false);
    lemma_array_model(values, values@.len(), false);
    let meanings = array_model(values, values@.len(), false);
    assert(meanings[k] == values@[k].meaning());
    if meanings.contains(input.meaning()) {
        let m = meanings.index_of(input.meaning());
        assert(values@[m].meaning() == input.meaning());
    }
}

/// A schema that is no object accepts every input.
pub proof fn law_other_schemas_accept_all(
    interrupt_id: &str,
    input: JsonValue,
    schema: JsonValue,
    checked: Result<(), TakelnError>,
)
    requires
        call_ensures(validate_input_against_schema, (interrupt_id, &input, &schema), checked),
        !(schema is Object),
    ensures
        checked is Ok,
{
}

} // verus!
