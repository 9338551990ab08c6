use crate::error::Error;
use crate::mapping::{distinct_keys, last_wins, namespaces_view, pairs_view, Mapping, TemplateMap};
use std::collections::BTreeMap;
use vstd::prelude::*;

verus! {

/// What a JSON text holds as templates: `None` where it is not an object of
/// objects of strings
pub uninterp spec fn json_templates(text: Seq<char>) -> Option<Map<Seq<char>, Map<Seq<char>, Seq<char>>>>;

/// What a TOML text holds as templates: `None` where it is not a table of
/// tables of strings
pub uninterp spec fn toml_templates(text: Seq<char>) -> Option<Map<Seq<char>, Map<Seq<char>, Seq<char>>>>;

/// What a YAML text holds as templates: `None` where it is not a mapping of
/// mappings of strings
pub uninterp spec fn yaml_templates(text: Seq<char>) -> Option<Map<Seq<char>, Map<Seq<char>, Seq<char>>>>;

/// Namespaces with their entries, as views; a later entry of a name wins
pub open spec fn raw_view(s: Seq<(String, Vec<(String, String)>)>) -> Seq<(Seq<char>, Map<Seq<char>, Seq<char>>)> {
    s.map_values(|p: (String, Vec<(String, String)>)| (p.0@, last_wins(pairs_view(p.1@))))
}

/// Relies on serde_json::from_str, into a `BTreeMap` of `BTreeMap`s: it succeeds
/// exactly on the texts that hold such a map, which then hands out each key once.
#[verifier::external_body]
fn parse_json(input: &str) -> (r: Result<Vec<(String, Vec<(String, String)>)>, String>)
    ensures
        r is Ok <==> json_templates(input@) is Some,
        r matches Ok(v) ==> distinct_keys(raw_view(v@)) && last_wins(raw_view(v@))
            == json_templates(input@)->0,
{
    serde_json::from_str::<BTreeMap<String, BTreeMap<String, String>>>(input)
        .map(|m| m.into_iter().map(|(k, v)| (k, v.into_iter().collect())).collect())
        .map_err(|e| e.to_string())
}

/// Relies on toml::de::from_str, into a `BTreeMap` of `BTreeMap`s: it succeeds
/// exactly on the texts that hold such a map, which then hands out each key once.
/// Its parser refuses values nested deeper than a fixed limit, with an error.
#[verifier::external_body]
fn parse_toml(input: &str) -> (r: Result<Vec<(String, Vec<(String, String)>)>, String>)
    ensures
        r is Ok <==> toml_templates(input@) is Some,
        r matches Ok(v) ==> distinct_keys(raw_view(v@)) && last_wins(raw_view(v@))
            == toml_templates(input@)->0,
{
    toml::de::from_str::<BTreeMap<String, BTreeMap<String, String>>>(input)
        .map(|m| m.into_iter().map(|(k, v)| (k, v.into_iter().collect())).collect())
        .map_err(|e| e.to_string())
}

/// Relies on serde_yaml::from_str, into a `BTreeMap` of `BTreeMap`s: it succeeds
/// exactly on the texts that hold such a map, which then hands out each key once.
/// Its loader reads the events in a loop, and its deserializer refuses nesting
/// deeper than a fixed limit, with an error.
#[verifier::external_body]
fn parse_yaml(input: &str) -> (r: Result<Vec<(String, Vec<(String, String)>)>, String>)
    ensures
        r is Ok <==> yaml_templates(input@) is Some,
        r matches Ok(v) ==> distinct_keys(raw_view(v@)) && last_wins(raw_view(v@))
            == yaml_templates(input@)->0,
{
    serde_yaml::from_str::<BTreeMap<String, BTreeMap<String, String>>>(input)
        .map(|m| m.into_iter().map(|(k, v)| (k, v.into_iter().collect())).collect())
        .map_err(|e| e.to_string())
}

/// What a load of `text` owes: the map that `parsed` names, or a deserialization error
pub open spec fn loaded_as(
    r: Result<TemplateMap, Error>,
    parsed: Option<Map<Seq<char>, Map<Seq<char>, Seq<char>>>>,
) -> bool {
    match parsed {
        Some(m) => r matches Ok(t) && t@ == m,
        None => r matches Err(Error::Deserialize(_)),
    }
}

fn deser_err(message: String) -> (r: Error)
    ensures
        r == Error::Deserialize(message),
{
    Error::Deserialize(message)
}

fn into_template_map(parsed: Result<Vec<(String, Vec<(String, String)>)>, String>) -> (r: Result<
    TemplateMap,
    Error,
>)
    requires
        parsed matches Ok(v) ==> distinct_keys(raw_view(v@)),
    ensures
        match parsed {
            Ok(v) => r matches Ok(t) && t@ == last_wins(raw_view(v@)),
            Err(e) => r == Err::<TemplateMap, Error>(Error::Deserialize(e)),
        },
{
    match parsed {
        Ok(mut rest) => {
            let ghost all = rest@;
            let n = rest.len();
            let mut out: Vec<(String, Mapping)> = Vec::new();
            let mut i: usize = 0;
            while i < n
                invariant
                    n == all.len(),
                    i <= n,
                    rest@ == all.subrange(i as int, n as int),
                    namespaces_view(out@) == raw_view(all).take(i as int),
                decreases n - i,
            {
                let (ns, entries) = rest.remove(0);
                proof {
                    assert(all[i as int] == (ns, entries));
                }
                let ghost prev = out@;
                let m = Mapping::from_entries(entries);
                let ghost item = (ns@, m@);
                out.push((ns, m));
                proof {
                    assert(namespaces_view(out@) =~= namespaces_view(prev).push(item));
                    assert(raw_view(all)[i as int] == item);
                    assert(raw_view(all).take(i as int + 1) =~= raw_view(all).take(i as int).push(item));
                }
                i = i + 1;
            }
            proof {
                assert(raw_view(all).take(n as int) =~= raw_view(all));
            }
            Ok(TemplateMap::from_namespaces(out))
        },
        Err(e) => Err(deser_err(e)),
    }
}

/// Attempts to deserialize a `TemplateMap` from this JSON string
pub fn load_json(input: &str) -> (r: Result<TemplateMap, Error>)
    ensures
        loaded_as(r, json_templates(input@)),
{
    into_template_map(parse_json(input))
}

/// Attempts to deserialize a `TemplateMap` from this TOML string
pub fn load_toml(input: &str) -> (r: Result<TemplateMap, Error>)
    ensures
        loaded_as(r, toml_templates(input@)),
{
    into_template_map(parse_toml(input))
}

/// Attempts to deserialize a `TemplateMap` from this YAML string
pub fn load_yaml(input: &str) -> (r: Result<TemplateMap, Error>)
    ensures
        loaded_as(r, yaml_templates(input@)),
{
    into_template_map(parse_yaml(input))
}

/// The format that a store's text is read in
#[derive(Debug, Clone, Copy, PartialEq, Eq, Structural)]
pub enum LoadFunction {
    /// JSON: an object of objects of strings
    Json,
    /// TOML: a table of tables of strings
    Toml,
    /// YAML: a mapping of mappings of strings
    Yaml,
}

impl LoadFunction {
    /// What `text` holds as templates in this format, if it holds any
    pub open spec fn parsed(self, text: Seq<char>) -> Option<Map<Seq<char>, Map<Seq<char>, Seq<char>>>> {
        match self {
            LoadFunction::Json => json_templates(text),
            LoadFunction::Toml => toml_templates(text),
            LoadFunction::Yaml => yaml_templates(text),
        }
    }

    /// Load the `TemplateMap` in this format from this string
    pub fn load(&self, input: &str) -> (r: Result<TemplateMap, Error>)
        ensures
            loaded_as(r, self.parsed(input@)),
    {
        match self {
            LoadFunction::Json => load_json(input),
            LoadFunction::Toml => load_toml(input),
            LoadFunction::Yaml => load_yaml(input),
        }
    }
}

} // verus!
