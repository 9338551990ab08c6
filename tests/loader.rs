use template::{load_json, load_toml, load_yaml, Error, LoadFunction, Mapping, TemplateMap};

#[test]
fn json_is_loaded() {
    let map = load_json(r#"{"response": {"hello": "hello ${name}!", "okay": "okay response"}}"#).unwrap();
    assert_eq!(map.len(), 1);
    let ns = map.get("response").unwrap();
    assert_eq!(ns.get("hello").unwrap(), "hello ${name}!");
    assert_eq!(ns.get("okay").unwrap(), "okay response");
    assert!(ns.get("missing").is_none());
    assert!(map.get("other").is_none());
}

#[test]
fn toml_is_loaded() {
    let map = load_toml("[response]\nhello = \"hello ${name}!\"\ncount_items = \"count is: ${count}\"\n\n[other]\nx = \"1\"\n").unwrap();
    assert_eq!(map.len(), 2);
    assert_eq!(map.get("response").unwrap().get("count_items").unwrap(), "count is: ${count}");
    assert_eq!(map.get("other").unwrap().get("x").unwrap(), "1");
}

#[test]
fn yaml_is_loaded() {
    let map = load_yaml("response:\n  hello: hello ${name}!\n  count_items: 'count is: ${count}'\n").unwrap();
    assert_eq!(map.get("response").unwrap().get("hello").unwrap(), "hello ${name}!");
    assert_eq!(map.get("response").unwrap().get("count_items").unwrap(), "count is: ${count}");
}

#[test]
fn malformed_text_is_a_deserialize_error() {
    assert!(matches!(load_json("{not json"), Err(Error::Deserialize(_))));
    assert!(matches!(load_json(r#"{"a": "not a table"}"#), Err(Error::Deserialize(_))));
    assert!(matches!(load_toml("[a\nx = "), Err(Error::Deserialize(_))));
    assert!(matches!(load_yaml("a: [1, 2"), Err(Error::Deserialize(_))));
}

#[test]
fn deeply_nested_toml_is_refused() {
    let mut text = String::from("a = ");
    for _ in 0..200_000 {
        text.push('[');
    }
    assert!(matches!(load_toml(&text), Err(Error::Deserialize(_))));
}

#[test]
fn deeply_nested_json_and_yaml_are_refused() {
    let mut json = String::from("{\"a\": ");
    for _ in 0..200_000 {
        json.push('[');
    }
    let mut yaml = String::from("a: ");
    for _ in 0..5_000 {
        yaml.push('[');
    }
    assert!(matches!(load_json(&json), Err(Error::Deserialize(_))));
    assert!(matches!(load_yaml(&yaml), Err(Error::Deserialize(_))));
}

#[test]
fn deep_block_yaml_is_refused() {
    let text = "- ".repeat(100_000) + "x";
    assert!(matches!(load_yaml(&text), Err(Error::Deserialize(_))));
    let mut text = String::new();
    for depth in 0..2_000 {
        text.push_str(&" ".repeat(depth));
        text.push_str("k:\n");
    }
    assert!(matches!(load_yaml(&text), Err(Error::Deserialize(_))));
}

#[test]
fn yaml_with_indicators_in_text() {
    let map = load_yaml("greet:\n  hello: 'hi - there: [x] {y}?'\n").unwrap();
    assert_eq!(map.get("greet").unwrap().get("hello").unwrap(), "hi - there: [x] {y}?");
}

#[test]
fn undefined_yaml_alias_is_refused() {
    assert!(matches!(load_yaml("a:\n  x: *missing\n"), Err(Error::Deserialize(_))));
}

#[test]
fn empty_document_has_no_namespaces() {
    assert_eq!(load_json("{}").unwrap().len(), 0);
    assert_eq!(load_toml("").unwrap().len(), 0);
}

#[test]
fn load_function_picks_the_format() {
    let json = LoadFunction::Json.load(r#"{"a": {"x": "1"}}"#).unwrap();
    assert_eq!(json.get("a").unwrap().get("x").unwrap(), "1");
    let toml = LoadFunction::Toml.load("[a]\nx = \"2\"\n").unwrap();
    assert_eq!(toml.get("a").unwrap().get("x").unwrap(), "2");
    let yaml = LoadFunction::Yaml.load("a:\n  x: '3'\n").unwrap();
    assert_eq!(yaml.get("a").unwrap().get("x").unwrap(), "3");
    assert!(LoadFunction::Toml.load(r#"{"a": {"x": "1"}}"#).is_err());
}

#[test]
fn mapping_later_entries_override() {
    let mut m = Mapping::from_entries(vec![
        ("x".to_string(), "1".to_string()),
        ("y".to_string(), "2".to_string()),
        ("x".to_string(), "3".to_string()),
    ]);
    assert_eq!(m.get("x").unwrap(), "3");
    assert_eq!(m.get("y").unwrap(), "2");
    m.insert("y".to_string(), "4".to_string());
    assert_eq!(m.get("y").unwrap(), "4");
    let mut other = Mapping::new();
    other.insert("z".to_string(), "5".to_string());
    other.insert("x".to_string(), "6".to_string());
    m.append(other);
    assert_eq!(m.get("x").unwrap(), "6");
    assert_eq!(m.get("z").unwrap(), "5");
    assert_eq!(m.get("y").unwrap(), "4");
    assert!(Mapping::new().get("x").is_none());
}

#[test]
fn template_map_extend_overrides_entries() {
    let mut d = load_json(r#"{"a": {"x": "1", "y": "2"}, "b": {"z": "3"}}"#).unwrap();
    let p = load_json(r#"{"a": {"x": "9"}, "c": {"w": "4"}}"#).unwrap();
    d.extend(p);
    assert_eq!(d.len(), 3);
    assert_eq!(d.get("a").unwrap().get("x").unwrap(), "9");
    assert_eq!(d.get("a").unwrap().get("y").unwrap(), "2");
    assert_eq!(d.get("b").unwrap().get("z").unwrap(), "3");
    assert_eq!(d.get("c").unwrap().get("w").unwrap(), "4");
}

#[test]
fn template_map_merge_namespace() {
    let mut t = TemplateMap::new();
    assert_eq!(t.len(), 0);
    let mut m = Mapping::new();
    m.insert("x".to_string(), "1".to_string());
    t.merge_namespace("a".to_string(), m);
    let mut m2 = Mapping::new();
    m2.insert("y".to_string(), "2".to_string());
    t.merge_namespace("a".to_string(), m2);
    assert_eq!(t.len(), 1);
    assert_eq!(t.get("a").unwrap().get("x").unwrap(), "1");
    assert_eq!(t.get("a").unwrap().get("y").unwrap(), "2");
}

#[test]
fn error_message() {
    assert_eq!(Error::Io("gone".to_string()).message(), "gone");
    assert_eq!(Error::Serialize("s".to_string()).message(), "s");
    assert_eq!(Error::Deserialize("d".to_string()).message(), "d");
}
