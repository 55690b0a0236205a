//! Patches of the staged project's JSON manifests: the injection-registration
//! manifest and the entrypoint manifest.

use vstd::prelude::*;

use serde_json::{Map as JsonMap, Value};

verus! {

#[verifier::external_type_specification]
#[verifier::external_body]
pub struct ExJsonValue(serde_json::Value);

#[verifier::external_type_specification]
#[verifier::external_body]
#[verifier::reject_recursive_types(K)]
#[verifier::reject_recursive_types(V)]
pub struct ExJsonMap<K, V>(serde_json::Map<K, V>);

#[verifier::external_type_specification]
#[verifier::external_body]
pub struct ExJsonError(serde_json::Error);

/// A JSON object with text keys.
pub type JsonObject = JsonMap<String, Value>;

/// The entries of a JSON object, by key.
pub uninterp spec fn json_entries(m: JsonObject) -> Map<Seq<char>, Value>;

/// The object that a text parses to, if it is a JSON object.
pub uninterp spec fn parsed_object(text: Seq<char>) -> Option<JsonObject>;

/// The pretty-printed text of an object with these entries.
pub uninterp spec fn pretty_object(entries: Map<Seq<char>, Value>) -> Seq<char>;

/// The JSON string holding this text.
pub uninterp spec fn json_string(s: Seq<char>) -> Value;

/// The JSON array holding these values.
pub uninterp spec fn json_array(items: Seq<Value>) -> Value;

/// The JSON object with these entries.
pub uninterp spec fn json_object(entries: Map<Seq<char>, Value>) -> Value;

/// The entries of an empty object.
pub open spec fn no_entries() -> Map<Seq<char>, Value> {
    Map::empty()
}

/// Relies on `serde_json::Map::new`: an empty object.
#[verifier::external_body]
fn new_object() -> (r: JsonObject)
    ensures
        json_entries(r) == no_entries(),
{
    JsonMap::new()
}

/// Relies on `serde_json::Map::insert`: the key is set to the value, whether
/// it was present or not.
#[verifier::external_body]
fn object_insert(m: &mut JsonObject, k: String, v: Value)
    ensures
        json_entries(*final(m)) == json_entries(*old(m)).insert(k@, v),
{
    m.insert(k, v);
}

/// Relies on `serde_json::from_str` at type `Map<String, Value>`: it succeeds
/// exactly on the texts of JSON objects, and the same text gives the same
/// object.
#[verifier::external_body]
fn parse_object(text: &str) -> (r: Result<JsonObject, serde_json::Error>)
    ensures
        match r {
            Ok(m) => parsed_object(text@) == Some(m),
            Err(_) => parsed_object(text@) is None,
        },
{
    serde_json::from_str::<JsonObject>(text)
}

/// Relies on `serde_json::to_string_pretty` of a `Map<String, Value>`: the
/// map is kept ordered by key (serde_json is built without `preserve_order`),
/// so the text depends on the entries alone. It writes into memory and fails
/// only on a failing `Serialize` impl or a non-string map key, neither of
/// which a `Map<String, Value>` has.
#[verifier::external_body]
fn to_pretty(m: &JsonObject) -> (r: Result<String, serde_json::Error>)
    ensures
        r is Ok,
        r matches Ok(s) ==> s@ == pretty_object(json_entries(*m)),
{
    serde_json::to_string_pretty(m)
}

/// Relies on `From<String> for serde_json::Value`: a JSON string.
#[verifier::external_body]
fn string_value(s: String) -> (r: Value)
    ensures
        r == json_string(s@),
{
    Value::from(s)
}

/// Relies on `From<Vec<Value>> for serde_json::Value`: a JSON array.
#[verifier::external_body]
fn array_value(items: Vec<Value>) -> (r: Value)
    ensures
        r == json_array(items@),
{
    Value::from(items)
}

/// Relies on `From<Map<String, Value>> for serde_json::Value`: a JSON object.
#[verifier::external_body]
fn object_value(m: JsonObject) -> (r: Value)
    ensures
        r == json_object(json_entries(m)),
{
    Value::from(m)
}

/// Why a manifest could not be patched.
#[derive(Debug)]
pub enum ManifestError {
    /// The manifest is not a JSON object.
    Parse(serde_json::Error),
}

/// A JSON array of strings.
pub open spec fn string_array(items: Seq<Seq<char>>) -> Value {
    json_array(items.map_values(|s: Seq<char>| json_string(s)))
}

fn string_array_exec(items: &Vec<String>) -> (r: Value)
    ensures
        r == string_array(items.deep_view()),
{
    let mut values: Vec<Value> = Vec::new();
    let mut i: usize = 0;
    while i < items.len()
        invariant
            i <= items.len(),
            values@ =~= items.deep_view().subrange(0, i as int).map_values(|s: Seq<char>| json_string(s)),
        decreases items.len() - i,
    {
        values.push(string_value(items[i].clone()));
        i = i + 1;
    }
    assert(items.deep_view().subrange(0, items.len() as int) =~= items.deep_view());
    array_value(values)
}

/// The injection-registration manifest after the patch: the injection package
/// and exactly the given injection points.
pub open spec fn mixin_manifest(entries: Map<Seq<char>, Value>, mixins: Seq<Seq<char>>) -> Map<
    Seq<char>,
    Value,
> {
    entries.insert("package"@, json_string("mixin"@)).insert("mixins"@, string_array(mixins))
}

/// The entrypoint manifest after the patch: the given main entrypoints and no
/// declared dependency.
pub open spec fn entrypoint_manifest(
    entries: Map<Seq<char>, Value>,
    entrypoints: Seq<Seq<char>>,
) -> Map<Seq<char>, Value> {
    entries.insert(
        "entrypoints"@,
        json_object(no_entries().insert("main"@, string_array(entrypoints))),
    ).insert("depends"@, json_object(no_entries()))
}

/// Patches the injection-registration manifest to list exactly `mixins`.
pub fn patch_mixin_manifest(text: &str, mixins: &Vec<String>) -> (r: Result<String, ManifestError>)
    ensures
        parsed_object(text@) is None <==> r is Err,
        r matches Ok(out) ==> parsed_object(text@) is Some && out@ == pretty_object(
            mixin_manifest(json_entries(parsed_object(text@)->Some_0), mixins.deep_view()),
        ),
{
    let mut conf = match parse_object(text) {
        Ok(m) => m,
        Err(e) => {
            return Err(ManifestError::Parse(e));
        },
    };
    let package = string_value("mixin".to_owned());
    object_insert(&mut conf, "package".to_owned(), package);
    let list = string_array_exec(mixins);
    object_insert(&mut conf, "mixins".to_owned(), list);
    let text = to_pretty(&conf).unwrap();
    Ok(text)
}

/// Patches the entrypoint manifest to declare `entrypoints` as its main
/// entrypoints and to clear its declared dependencies.
pub fn patch_entrypoint_manifest(text: &str, entrypoints: &Vec<String>) -> (r: Result<
    String,
    ManifestError,
>)
    ensures
        parsed_object(text@) is None <==> r is Err,
        r matches Ok(out) ==> parsed_object(text@) is Some && out@ == pretty_object(
            entrypoint_manifest(json_entries(parsed_object(text@)->Some_0), entrypoints.deep_view()),
        ),
{
    let mut conf = match parse_object(text) {
        Ok(m) => m,
        Err(e) => {
            return Err(ManifestError::Parse(e));
        },
    };
    let mut main = new_object();
    let list = string_array_exec(entrypoints);
    object_insert(&mut main, "main".to_owned(), list);
    object_insert(&mut conf, "entrypoints".to_owned(), object_value(main));
    let empty = new_object();
    object_insert(&mut conf, "depends".to_owned(), object_value(empty));
    let text = to_pretty(&conf).unwrap();
    Ok(text)
}

} // verus!
