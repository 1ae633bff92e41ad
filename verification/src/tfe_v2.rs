use vstd::prelude::*;

use crate::json::{json_value_from_serde, member, JsonValue};
use crate::tfe_patch::json_string;
use crate::yaml_data::TFEVarMetaData;

verus! {

/// What went wrong while looking up a variable id.
#[derive(Debug)]
pub enum GenericError {
    JsonParseError,
    DataNotFound,
}

/// An error kind together with a human readable message.
#[derive(Debug)]
pub struct CustomError {
    pub err_type: GenericError,
    pub err_msg: String,
}

/// A workspace together with the id of its variable.
#[derive(Debug)]
pub struct WorkspaceResult {
    pub workspace_id: String,
    pub variable_id: String,
}

/// `https://<hostname>/api/v2/workspaces/<workspace_id>/vars`.
pub open spec fn variables_url_text(d: TFEVarMetaData) -> Seq<char> {
    "https://"@ + d.hostname@ + "/api/v2/workspaces/"@ + d.workspace_id@ + "/vars"@
}

/// The URL that lists the variables of the workspace.
pub fn variables_url(tfe_data: &TFEVarMetaData) -> (url: String)
    ensures
        url@ == variables_url_text(*tfe_data),
{
    let mut url = "https://".to_owned();
    url.append(tfe_data.hostname.as_str());
    url.append("/api/v2/workspaces/");
    url.append(tfe_data.workspace_id.as_str());
    url.append("/vars");
    url
}

/// The elements of `data` when the document is an object whose `data` is an
/// array; no element otherwise.
pub open spec fn listed_items(doc: JsonValue) -> Seq<JsonValue> {
    match member(doc, "data"@) {
        Some(JsonValue::Array(items)) => items@,
        _ => Seq::empty(),
    }
}

/// The text of an item's `id`, when it is a string.
pub open spec fn item_id(item: JsonValue) -> Option<Seq<char>> {
    match member(item, "id"@) {
        Some(JsonValue::Str(s)) => Some(s@),
        _ => None,
    }
}

/// An item's `attributes.key`, when both members exist.
pub open spec fn item_key(item: JsonValue) -> Option<JsonValue> {
    match member(item, "attributes"@) {
        Some(a) => member(a, "key"@),
        None => None,
    }
}

/// An item the listing can be read through: its `id` is a string, and its
/// `attributes.key`, where present, is a string too.
pub open spec fn item_readable(item: JsonValue) -> bool {
    &&& item_id(item) is Some
    &&& (item_key(item) matches Some(k) ==> k is Str)
}

/// Every listed item is readable.
pub open spec fn listing_readable(doc: JsonValue) -> bool {
    forall|i: int| 0 <= i < listed_items(doc).len() ==> item_readable(#[trigger] listed_items(doc)[i])
}

/// The item describes the variable named `name`.
pub open spec fn item_names(item: JsonValue, name: Seq<char>) -> bool {
    item_key(item) matches Some(JsonValue::Str(k)) && k@ == name
}

/// The `id` of the last item that describes `name`, or the empty text when
/// none does.
pub open spec fn last_matching_id(items: Seq<JsonValue>, name: Seq<char>) -> Seq<char>
    decreases items.len(),
{
    if items.len() == 0 {
        Seq::empty()
    } else if item_names(items.last(), name) {
        item_id(items.last()).unwrap()
    } else {
        last_matching_id(items.drop_last(), name)
    }
}

/// The last item that names the variable decides: if item `k` names it and
/// no later item does, the id read is item `k`'s; if no item names it, the
/// id read is empty.
pub proof fn lemma_last_matching_id(items: Seq<JsonValue>, name: Seq<char>, k: int)
    ensures
        0 <= k < items.len() && item_names(items[k], name) && (forall|j: int|
            k < j < items.len() ==> !item_names(#[trigger] items[j], name)) ==> last_matching_id(
            items,
            name,
        ) == item_id(items[k]).unwrap(),
        (forall|j: int| 0 <= j < items.len() ==> !item_names(#[trigger] items[j], name))
            ==> last_matching_id(items, name) == Seq::<char>::empty(),
    decreases items.len(),
{
    if items.len() > 0 {
        let rest = items.drop_last();
        assert forall|j: int| 0 <= j < rest.len() implies rest[j] == items[j] by {}
        if k < items.len() - 1 {
            lemma_last_matching_id(rest, name, k);
            if 0 <= k && item_names(items[k], name) && (forall|j: int|
                k < j < items.len() ==> !item_names(#[trigger] items[j], name)) {
                assert(!item_names(items[items.len() - 1], name));
                assert forall|j: int| k < j < rest.len() implies !item_names(#[trigger] rest[j], name) by {
                    assert(rest[j] == items[j]);
                }
            }
        } else {
            lemma_last_matching_id(rest, name, -1);
        }
        if forall|j: int| 0 <= j < items.len() ==> !item_names(#[trigger] items[j], name) {
            assert(!item_names(items[items.len() - 1], name));
            assert forall|j: int| 0 <= j < rest.len() implies !item_names(#[trigger] rest[j], name) by {
                assert(rest[j] == items[j]);
            }
        }
    }
}

/// The id read comes from the last item whose `attributes.key` is a string
/// exactly equal to `name`: if item `k` has that key and the string `id`
/// `id`, and no later item has a key exactly equal to `name`, the id read
/// is `id`, whatever keys the other items hold (keys that merely start
/// with `name`, or that `name` starts with, included).
pub proof fn lemma_id_from_exact_key(items: Seq<JsonValue>, name: Seq<char>, k: int, key: String, id: String)
    requires
        0 <= k < items.len(),
        member(items[k], "attributes"@) is Some,
        member(member(items[k], "attributes"@).unwrap(), "key"@) == Some(JsonValue::Str(key)),
        key@ == name,
        member(items[k], "id"@) == Some(JsonValue::Str(id)),
        forall|j: int|
            k < j < items.len() ==> !(member(#[trigger] items[j], "attributes"@) is Some && (member(
                member(items[j], "attributes"@).unwrap(),
                "key"@,
            ) matches Some(JsonValue::Str(s)) && s@ == name)),
    ensures
        last_matching_id(items, name) == id@,
{
    assert(item_names(items[k], name));
    assert forall|j: int| k < j < items.len() implies !item_names(#[trigger] items[j], name) by {
        if item_names(items[j], name) {
            assert(member(items[j], "attributes"@) is Some);
        }
    }
    lemma_last_matching_id(items, name, k);
}

/// A non-empty id read is the string `id` of a listed item whose
/// `attributes.key` is a string exactly equal to `name`; no other item
/// ever supplies it (for items whose `id` is a string, as a readable
/// listing's are).
pub proof fn lemma_id_only_from_exact_key(items: Seq<JsonValue>, name: Seq<char>)
    requires
        forall|i: int| 0 <= i < items.len() ==> member(#[trigger] items[i], "id"@) matches Some(JsonValue::Str(_)),
    ensures
        last_matching_id(items, name).len() > 0 ==> exists|k: int|
            0 <= k < items.len() && member(#[trigger] items[k], "attributes"@) is Some && (member(
                member(items[k], "attributes"@).unwrap(),
                "key"@,
            ) matches Some(JsonValue::Str(s)) && s@ == name) && (member(items[k], "id"@) matches Some(
                JsonValue::Str(t),
            ) && t@ == last_matching_id(items, name)),
    decreases items.len(),
{
    if items.len() > 0 && last_matching_id(items, name).len() > 0 {
        let last = items.len() - 1;
        if item_names(items[last], name) {
            assert(items.last() == items[last]);
            assert(member(items[last], "id"@) matches Some(JsonValue::Str(_)));
        } else {
            let rest = items.drop_last();
            assert forall|i: int| 0 <= i < rest.len() implies member(#[trigger] rest[i], "id"@) matches Some(JsonValue::Str(_)) by {
                assert(rest[i] == items[i]);
            }
            lemma_id_only_from_exact_key(rest, name);
            let k = choose|k: int|
                0 <= k < rest.len() && member(#[trigger] rest[k], "attributes"@) is Some && (member(
                    member(rest[k], "attributes"@).unwrap(),
                    "key"@,
                ) matches Some(JsonValue::Str(s)) && s@ == name) && (member(rest[k], "id"@) matches Some(
                    JsonValue::Str(t),
                ) && t@ == last_matching_id(rest, name));
            assert(rest[k] == items[k]);
        }
    }
}

/// The message of a response body that is not JSON, before the parser's
/// own description.
pub open spec fn parse_error_prefix() -> Seq<char> {
    "error in extracting json from response : "@
}

/// The message when no listed variable has the wanted name.
pub open spec fn not_found_message() -> Seq<char> {
    "could not find variable_id for workspace_id"@
}

/// Whether a listing can be read without a missing or non-string `id`, or a
/// non-string `attributes.key`.
pub fn listing_is_readable(doc: &JsonValue) -> (b: bool)
    ensures
        b == listing_readable(*doc),
{
    let items = match doc.get("data") {
        Some(data) => match data.as_array() {
            Some(items) => items,
            None => return true,
        },
        None => return true,
    };
    let mut i: usize = 0;
    while i < items.len()
        invariant
            i <= items@.len(),
            listed_items(*doc) == items@,
            forall|j: int| 0 <= j < i ==> item_readable(#[trigger] items@[j]),
        decreases items@.len() - i,
    {
        let item = &items[i];
        match item.get("id") {
            Some(id) => {
                if id.as_str().is_none() {
                    return false;
                }
            },
            None => return false,
        }
        if let Some(attributes) = item.get("attributes") {
            if let Some(key) = attributes.get("key") {
                if key.as_str().is_none() {
                    return false;
                }
            }
        }
        i = i + 1;
    }
    true
}

/// What reading a listing gives: the id of the last item that names
/// `name` when that id is not empty, else `DataNotFound`.
pub open spec fn listing_outcome(doc: JsonValue, name: Seq<char>, r: Result<String, CustomError>) -> bool {
    let id = last_matching_id(listed_items(doc), name);
    if id.len() > 0 {
        r matches Ok(v) && v@ == id
    } else {
        r matches Err(e) && e.err_type is DataNotFound && e.err_msg@ == not_found_message()
    }
}

/// Reads the id of the variable named `tfe_data.var_name` out of a
/// variables listing. `parsed` is the parsed response body, or the parser's
/// description of why it is not JSON. The last item that names the variable
/// wins; an empty id counts as none.
pub fn variable_id_from_response(parsed: &Result<JsonValue, String>, tfe_data: &TFEVarMetaData) -> (r: Result<String, CustomError>)
    requires
        *parsed matches Ok(doc) ==> listing_readable(doc),
    ensures
        *parsed matches Err(detail) ==> r matches Err(e) && e.err_type is JsonParseError
            && e.err_msg@ == parse_error_prefix() + detail@,
        *parsed matches Ok(doc) ==> listing_outcome(doc, tfe_data.var_name@, r),
{
    let doc = match parsed {
        Ok(doc) => doc,
        Err(detail) => {
            let mut msg = "error in extracting json from response : ".to_owned();
            msg.append(detail.as_str());
            return Err(CustomError { err_type: GenericError::JsonParseError, err_msg: msg });
        },
    };
    let mut found: Option<&String> = None;
    let ghost name = tfe_data.var_name@;
    let empty: Vec<JsonValue> = Vec::new();
    let items = match doc.get("data") {
        Some(data) => match data.as_array() {
            Some(items) => items,
            None => &empty,
        },
        None => &empty,
    };
    assert(listed_items(*doc) =~= items@);
    let mut i: usize = 0;
    assert(items@.take(0) =~= Seq::<JsonValue>::empty());
    while i < items.len()
        invariant
            i <= items@.len(),
            forall|j: int| 0 <= j < items@.len() ==> item_readable(#[trigger] items@[j]),
            name == tfe_data.var_name@,
            found matches Some(s) ==> s@ == last_matching_id(items@.take(i as int), name),
            found is None ==> last_matching_id(items@.take(i as int), name) == Seq::<char>::empty(),
        decreases items@.len() - i,
    {
        let item = &items[i];
        assert(item_readable(items@[i as int]));
        let ghost prefix = items@.take(i + 1);
        assert(prefix.drop_last() =~= items@.take(i as int));
        assert(prefix.last() == *item);
        let var_id = match item.get("id") {
            Some(id) => match id.as_str() {
                Some(s) => s,
                None => {
                    assert(false);
                    return Err(CustomError { err_type: GenericError::DataNotFound, err_msg: String::new() });
                },
            },
            None => {
                assert(false);
                return Err(CustomError { err_type: GenericError::DataNotFound, err_msg: String::new() });
            },
        };
        if let Some(attributes) = item.get("attributes") {
            if let Some(key) = attributes.get("key") {
                match key.as_str() {
                    Some(k) => {
                        if *k == tfe_data.var_name {
                            found = Some(var_id);
                        }
                    },
                    None => {
                        assert(false);
                    },
                }
            }
        }
        i = i + 1;
    }
    assert(items@.take(i as int) =~= items@);
    match found {
        Some(id) => {
            if id.as_str().is_empty() {
                Err(CustomError { err_type: GenericError::DataNotFound, err_msg: "could not find variable_id for workspace_id".to_owned() })
            } else {
                Ok(id.clone())
            }
        },
        None => Err(CustomError { err_type: GenericError::DataNotFound, err_msg: "could not find variable_id for workspace_id".to_owned() }),
    }
}

// ------------------------------------------------------------ variable map

/// One member of a pretty-printed JSON object: `"key": "value"`.
pub open spec fn pretty_member(k: Seq<char>, v: Seq<char>) -> Seq<char> {
    json_string(k) + ": "@ + json_string(v)
}

/// The members of a pretty-printed JSON object, each on a line of its own
/// indented by two spaces, separated by commas.
pub open spec fn pretty_members(pairs: Seq<(String, String)>) -> Seq<char>
    decreases pairs.len(),
{
    if pairs.len() == 0 {
        Seq::empty()
    } else if pairs.len() == 1 {
        "\n  "@ + pretty_member(pairs[0].0@, pairs[0].1@)
    } else {
        pretty_members(pairs.drop_last()) + ",\n  "@ + pretty_member(pairs.last().0@, pairs.last().1@)
    }
}

/// A JSON object of strings as `serde_json::to_string_pretty` lays it out:
/// `{}` when empty, else the members in the given order, one per line, and
/// the closing brace on a line of its own.
pub open spec fn pretty_string_map(pairs: Seq<(String, String)>) -> Seq<char> {
    if pairs.len() == 0 {
        "{}"@
    } else {
        "{"@ + pretty_members(pairs) + "\n}"@
    }
}

/// No key occurs twice.
pub open spec fn keys_distinct(pairs: Seq<(String, String)>) -> bool {
    forall|i: int, j: int| 0 <= i < j < pairs.len() ==> (#[trigger] pairs[i]).0@ != (#[trigger] pairs[j]).0@
}

/// `serde_json::to_string_pretty` of a JSON object built from `pairs`, in
/// their order (a `serde_json::Map`, insertion-ordered under the
/// `preserve_order` feature, collected from the pairs). With distinct keys
/// it is `pretty_string_map(pairs)`: the `PrettyFormatter` writes `{` and
/// `}` with nothing between for no member, else each member on a new line
/// indented by two spaces as a quoted key, `": "` and the quoted value,
/// members separated by `,`, and `}` on a line of its own; keys and values
/// are escaped as in `to_json_string`. It writes into a `Vec<u8>`, so the
/// result is `Ok`. Of repeated keys (the map keeps a key's first place and
/// last value) nothing is stated.
#[verifier::external_body]
fn string_map_to_pretty_json(pairs: &Vec<(String, String)>) -> (r: Result<String, serde_json::Error>)
    ensures
        r is Ok,
        keys_distinct(pairs@) ==> r.unwrap()@ == pretty_string_map(pairs@),
{
    let map: serde_json::Map<String, serde_json::Value> =
        pairs.iter().map(|(k, v)| (k.clone(), serde_json::Value::String(v.clone()))).collect();
    serde_json::to_string_pretty(&serde_json::Value::Object(map))
}

/// The workspace-to-variable-id map as pretty-printed JSON, members in the
/// order given (keys are distinct where the pairs come from a map).
pub fn variable_map_json(pairs: &Vec<(String, String)>) -> (json: String)
    ensures
        keys_distinct(pairs@) ==> json@ == pretty_string_map(pairs@),
{
    match string_map_to_pretty_json(pairs) {
        Ok(json) => json,
        Err(_) => {
            assert(false);
            String::new()
        },
    }
}

// ------------------------------------------------------------ response body

/// What `serde_json::from_str::<serde_json::Value>` makes of a text: the
/// document, copied into a `JsonValue`, or the parser's error in its
/// `{:#?}` form.
pub uninterp spec fn json_parse(text: Seq<char>) -> Result<JsonValue, Seq<char>>;

/// The parse outcome with the error text taken by its view.
pub open spec fn parse_view(r: Result<JsonValue, String>) -> Result<JsonValue, Seq<char>> {
    match r {
        Ok(v) => Ok(v),
        Err(e) => Err(e@),
    }
}

/// `serde_json::from_str::<serde_json::Value>` on a response body, copied
/// into a `JsonValue`; on failure, the parser's error in its `{:#?}` form.
/// Both are named by `json_parse`: the parse and the error's description
/// depend on the text alone.
#[verifier::external_body]
fn parse_json(text: &str) -> (r: Result<JsonValue, String>)
    ensures
        parse_view(r) == json_parse(text@),
{
    match serde_json::from_str::<serde_json::Value>(text) {
        Ok(v) => Ok(json_value_from_serde(v)),
        Err(e) => Err(format!("{:#?}", e)),
    }
}

/// Reads the variable id out of a response body: a body that is not JSON
/// gives `JsonParseError` with the parser's description; a listing with a
/// missing or non-string `id`, or a non-string `attributes.key`, gives
/// `None`; any other listing gives what `variable_id_from_response` gives.
pub fn variable_id_from_body(body: &str, tfe_data: &TFEVarMetaData) -> (r: Option<Result<String, CustomError>>)
    ensures
        json_parse(body@) matches Err(detail) ==> (r matches Some(Err(e)) && e.err_type is JsonParseError
            && e.err_msg@ == parse_error_prefix() + detail),
        json_parse(body@) matches Ok(doc) ==> (r is None <==> !listing_readable(doc)),
        json_parse(body@) matches Ok(doc) ==> (r matches Some(res) ==> listing_outcome(
            doc,
            tfe_data.var_name@,
            res,
        )),
{
    let parsed = parse_json(body);
    match &parsed {
        Ok(doc) => {
            if !listing_is_readable(doc) {
                return None;
            }
        },
        Err(_) => {},
    }
    Some(variable_id_from_response(&parsed, tfe_data))
}

} // verus!
