//! Reading string fields out of JSON text with `serde_json`.

use vstd::prelude::*;
use serde_json::Value;

verus! {

/// The string fields read from a JSON text: from the value itself, or, when
/// the value is an array, from each of its elements.
pub enum JsonFields {
    Single(Vec<Option<String>>),
    Many(Vec<Vec<Option<String>>>),
}

/// [`JsonFields`] as plain sequences.
pub enum JsonFieldsView {
    Single(Seq<Option<Seq<char>>>),
    Many(Seq<Seq<Option<Seq<char>>>>),
}

pub open spec fn opt_str_view(o: Option<String>) -> Option<Seq<char>> {
    match o {
        Some(s) => Some(s@),
        None => None,
    }
}

pub open spec fn fields_view(f: Seq<Option<String>>) -> Seq<Option<Seq<char>>> {
    f.map_values(|o: Option<String>| opt_str_view(o))
}

impl JsonFields {
    pub open spec fn view_fields(self) -> JsonFieldsView {
        match self {
            JsonFields::Single(f) => JsonFieldsView::Single(fields_view(f@)),
            JsonFields::Many(rs) => JsonFieldsView::Many(rs@.map_values(|r: Vec<Option<String>>| fields_view(r@))),
        }
    }
}

pub open spec fn opt_fields_view(o: Option<JsonFields>) -> Option<JsonFieldsView> {
    match o {
        Some(f) => Some(f.view_fields()),
        None => None,
    }
}

/// What reading `keys` from a JSON text gives: `None` when the text is not
/// JSON; else, for the value (or each element of an array value), the string
/// held at each key, `None` where the key is missing or not a string.
pub uninterp spec fn json_text_fields(text: Seq<char>, keys: Seq<Seq<char>>) -> Option<JsonFieldsView>;

/// `serde_json::from_str::<Value>`, then `Value::get` and `Value::as_str` for
/// each key, on the value or on each element of an array. Claims that the
/// result is a function of the text and keys, with one field per key.
#[verifier::external_body]
pub(crate) fn json_string_fields(text: &str, keys: &Vec<String>) -> (res: Option<JsonFields>)
    ensures
        opt_fields_view(res) == json_text_fields(text@, keys@.map_values(|k: String| k@)),
        res matches Some(JsonFields::Single(f)) ==> f@.len() == keys@.len(),
        res matches Some(JsonFields::Many(rs)) ==> forall|i: int| 0 <= i < rs@.len() ==> (#[trigger] rs@[i])@.len() == keys@.len(),
{
    let pick = |v: &Value| -> Vec<Option<String>> {
        keys.iter().map(|k| v.get(k.as_str()).and_then(Value::as_str).map(String::from)).collect()
    };
    match serde_json::from_str::<Value>(text) {
        Ok(Value::Array(items)) => Some(JsonFields::Many(items.iter().map(pick).collect())),
        Ok(v) => Some(JsonFields::Single(pick(&v))),
        Err(_) => None,
    }
}

} // verus!
