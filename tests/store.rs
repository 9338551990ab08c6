use std::path::PathBuf;
use template::{
    partial_file_store, partial_memory_store, Error, FileStore, LoadFunction, MemoryStore,
    NullStore, PartialStore, TemplateStore,
};

#[test]
fn memory_store_reports_change_until_parsed() {
    let mut store = MemoryStore::new(r#"{"a": {"x": "1"}}"#, LoadFunction::Json);
    assert!(store.changed());
    assert!(store.changed());
    let map = store.parse_map().unwrap();
    assert_eq!(map.get("a").unwrap().get("x").unwrap(), "1");
    assert!(!store.changed());
    store.update(r#"{"a": {"x": "2"}}"#);
    assert!(store.changed());
    let map = store.parse_map().unwrap();
    assert_eq!(map.get("a").unwrap().get("x").unwrap(), "2");
    assert!(!store.changed());
}

#[test]
fn memory_store_parse_failure_clears_flag() {
    let mut store = MemoryStore::new("{bad", LoadFunction::Json);
    assert!(matches!(store.parse_map(), Err(Error::Deserialize(_))));
    assert!(!store.changed());
}

#[test]
fn null_store_is_always_empty() {
    let mut store = NullStore::new();
    assert!(!store.changed());
    assert!(matches!(store.parse_map(), Err(Error::Io(_))));
}

#[test]
fn merge_precedence() {
    let mut store = partial_memory_store(
        r#"{"a": {"x": "1", "y": "2"}}"#,
        r#"{"a": {"x": "9"}}"#,
        LoadFunction::Json,
    );
    let map = store.parse_map().unwrap();
    assert_eq!(map.len(), 1);
    let a = map.get("a").unwrap();
    assert_eq!(a.get("x").unwrap(), "9");
    assert_eq!(a.get("y").unwrap(), "2");
}

#[test]
fn partial_store_keeps_default_on_bad_partial() {
    let mut store = partial_memory_store(
        r#"{"a": {"x": "1", "y": "2"}}"#,
        "{this is not json",
        LoadFunction::Json,
    );
    let map = store.parse_map().unwrap();
    assert_eq!(map.len(), 1);
    assert_eq!(map.get("a").unwrap().get("x").unwrap(), "1");
    assert_eq!(map.get("a").unwrap().get("y").unwrap(), "2");
}

#[test]
fn partial_store_with_missing_partial() {
    let default = MemoryStore::new("[a]\nx = \"1\"\n", LoadFunction::Toml);
    let mut store = PartialStore::new(default, NullStore::new());
    let map = store.parse_map().unwrap();
    assert_eq!(map.get("a").unwrap().get("x").unwrap(), "1");
    assert!(!store.changed());
}

#[test]
fn partial_store_fails_on_bad_default() {
    let mut store = partial_memory_store("{bad", r#"{"a": {"x": "9"}}"#, LoadFunction::Json);
    assert!(matches!(store.parse_map(), Err(Error::Deserialize(_))));
}

#[test]
fn partial_store_changed_asks_partial_only() {
    let mut store = partial_memory_store(r#"{"a": {}}"#, r#"{"a": {}}"#, LoadFunction::Json);
    assert!(store.changed());
    store.parse_map().unwrap();
    assert!(!store.changed());
    store.default_mut().update(r#"{"b": {}}"#);
    assert!(!store.changed());
    store.partial_mut().update(r#"{"c": {}}"#);
    assert!(store.changed());
    let map = store.parse_map().unwrap();
    assert!(map.get("b").is_some());
    assert!(map.get("c").is_some());
}

#[test]
fn partial_store_accessors() {
    let mut store = partial_memory_store("{}", "{}", LoadFunction::Yaml);
    store.partial_mut().parse_map().unwrap();
    assert!(!store.changed());
    let (mut d, mut p) = store.into_inner();
    assert!(d.changed());
    assert!(!p.changed());
}

#[test]
fn option_and_box_stores() {
    let mut none: Option<MemoryStore> = None;
    assert!(none.changed());
    assert!(matches!(none.parse_map(), Err(Error::Io(_))));
    let mut some = Some(MemoryStore::new(r#"{"a": {"x": "1"}}"#, LoadFunction::Json));
    assert!(some.changed());
    assert_eq!(some.parse_map().unwrap().get("a").unwrap().get("x").unwrap(), "1");
    assert!(!some.changed());
    let mut null = Some(NullStore::new());
    assert!(!null.changed());
    let mut boxed = Box::new(MemoryStore::new(r#"{"a": {"x": "2"}}"#, LoadFunction::Json));
    assert!(boxed.changed());
    assert_eq!(boxed.parse_map().unwrap().get("a").unwrap().get("x").unwrap(), "2");
    assert!(!boxed.changed());
    let mut inner = MemoryStore::new(r#"{"a": {"x": "3"}}"#, LoadFunction::Json);
    {
        let mut by_ref = &mut inner;
        assert!(TemplateStore::changed(&mut by_ref));
        assert_eq!(TemplateStore::parse_map(&mut by_ref).unwrap().get("a").unwrap().get("x").unwrap(), "3");
    }
    assert!(!inner.changed());
}

#[test]
fn file_store_change_detection() {
    let mut store = FileStore::new(PathBuf::from("templates.toml"), LoadFunction::Toml).unwrap();
    assert_eq!(store.file(), &PathBuf::from("templates.toml"));
    assert_eq!(store.last(), None);
    assert_eq!(store.loader(), LoadFunction::Toml);
    // the first look always reports a change and keeps the time of the look
    assert!(store.changed(100, Some(50)));
    assert_eq!(store.last(), Some(100));
    // not later: no change
    assert!(!store.changed(200, Some(100)));
    assert!(!store.changed(200, Some(90)));
    assert_eq!(store.last(), Some(100));
    // strictly later: one change
    assert!(store.changed(300, Some(150)));
    assert_eq!(store.last(), Some(150));
    assert!(!store.changed(400, Some(150)));
    // a failed look is no change
    assert!(!store.changed(500, None));
    assert_eq!(store.last(), Some(150));
}

#[test]
fn file_store_times_before_epoch() {
    let mut store = FileStore::new(PathBuf::from("old.json"), LoadFunction::Json).unwrap();
    assert!(store.changed(-100, Some(-500)));
    assert_eq!(store.last(), Some(-100));
    assert!(!store.changed(10, Some(-200)));
    assert!(store.changed(10, Some(-50)));
    assert_eq!(store.last(), Some(-50));
}

#[test]
fn file_store_first_look_without_file() {
    let mut store = FileStore::new(PathBuf::from("missing.json"), LoadFunction::Json).unwrap();
    assert!(store.changed(7, None));
    assert_eq!(store.last(), Some(7));
}

#[test]
fn file_store_parses_contents() {
    let store = FileStore::new(PathBuf::from("t.yaml"), LoadFunction::Yaml).unwrap();
    let map = store.parse_map(Ok("a:
  x: hi
".to_string())).unwrap();
    assert_eq!(map.get("a").unwrap().get("x").unwrap(), "hi");
    let err = store.parse_map(Err(Error::Io("no such file".to_string())));
    assert_eq!(err.unwrap_err(), Error::Io("no such file".to_string()));
    assert!(matches!(store.parse_map(Ok("a: [".to_string())), Err(Error::Deserialize(_))));
}

#[test]
fn partial_file_store_builds_fresh_stores() {
    let store = partial_file_store(PathBuf::from("d.json"), PathBuf::from("p.json"), LoadFunction::Json).unwrap();
    assert_eq!(store.default().file(), &PathBuf::from("d.json"));
    assert_eq!(store.partial().file(), &PathBuf::from("p.json"));
    assert_eq!(store.default().last(), None);
    assert_eq!(store.partial().loader(), LoadFunction::Json);
}
