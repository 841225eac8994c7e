use mod_level_filter::{Level, ModLevelFilterConfig, ModLevelMap};

#[test]
fn test_vmodule_config() {
    // Single module level
    let map: ModLevelMap = ModLevelFilterConfig("foo=info".to_string()).parse();
    assert_eq!(map.len(), 1);
    assert_eq!(map.get("foo"), Some(Level::Info));

    // Multiple module levels
    let map: ModLevelMap = ModLevelFilterConfig("foo=info,bar=error".to_string()).parse();
    assert_eq!(map.len(), 2);
    assert_eq!(map.get("foo"), Some(Level::Info));
    assert_eq!(map.get("bar"), Some(Level::Error));

    // Case unsensitive log level value
    let map: ModLevelMap = ModLevelFilterConfig("foo=err,bar=WARN".to_string()).parse();
    assert_eq!(map.len(), 2);
    assert_eq!(map.get("foo"), Some(Level::Error));
    assert_eq!(map.get("bar"), Some(Level::Warning));

    // Ignore invalid log level
    let map: ModLevelMap = ModLevelFilterConfig("foo=warning,bar=unknown".to_string()).parse();
    assert_eq!(map.len(), 1);
    assert_eq!(map.get("foo"), Some(Level::Warning));

    // Into empty map if config is totally invalid
    let map: ModLevelMap = ModLevelFilterConfig("invalid config".to_string()).parse();
    assert_eq!(map.len(), 0);
}

#[test]
fn test_parse_empty_string() {
    let map = ModLevelFilterConfig(String::new()).parse();
    assert_eq!(map.len(), 0);
    assert!(map.is_empty());
}

#[test]
fn test_parse_only_commas() {
    let map = ModLevelFilterConfig(",,,".to_string()).parse();
    assert_eq!(map.len(), 0);
}

#[test]
fn test_parse_no_equals() {
    let map = ModLevelFilterConfig("foo".to_string()).parse();
    assert_eq!(map.len(), 0);
    assert_eq!(map.get("foo"), None);
}

#[test]
fn test_parse_empty_module_skipped() {
    // An entry whose module part is empty contributes nothing.
    let map = ModLevelFilterConfig("=info".to_string()).parse();
    assert_eq!(map.len(), 0);
    assert_eq!(map.get(""), None);
}

#[test]
fn test_parse_empty_token_skipped() {
    let map = ModLevelFilterConfig("foo=".to_string()).parse();
    assert_eq!(map.len(), 0);
}

#[test]
fn test_parse_all_level_synonyms() {
    let map = ModLevelFilterConfig(
        "a=trace,b=debug,c=info,d=warn,e=warning,f=err,g=error,h=crit,i=critical".to_string(),
    )
    .parse();
    assert_eq!(map.len(), 9);
    assert_eq!(map.get("a"), Some(Level::Trace));
    assert_eq!(map.get("b"), Some(Level::Debug));
    assert_eq!(map.get("c"), Some(Level::Info));
    assert_eq!(map.get("d"), Some(Level::Warning));
    assert_eq!(map.get("e"), Some(Level::Warning));
    assert_eq!(map.get("f"), Some(Level::Error));
    assert_eq!(map.get("g"), Some(Level::Error));
    assert_eq!(map.get("h"), Some(Level::Critical));
    assert_eq!(map.get("i"), Some(Level::Critical));
}

#[test]
fn test_parse_mixed_case_tokens() {
    let map = ModLevelFilterConfig("foo=InFo,bar=CRITical".to_string()).parse();
    assert_eq!(map.get("foo"), Some(Level::Info));
    assert_eq!(map.get("bar"), Some(Level::Critical));
}

#[test]
fn test_parse_module_names_case_sensitive() {
    let map = ModLevelFilterConfig("Foo=info".to_string()).parse();
    assert_eq!(map.get("Foo"), Some(Level::Info));
    assert_eq!(map.get("foo"), None);
}

#[test]
fn test_parse_second_equals_belongs_to_token() {
    // Only the first `=` splits the entry; "info=3" is not a level token.
    let map = ModLevelFilterConfig("foo=info=3".to_string()).parse();
    assert_eq!(map.len(), 0);
}

#[test]
fn test_last_write_wins() {
    let map = ModLevelFilterConfig("foo=info,foo=error".to_string()).parse();
    assert_eq!(map.len(), 1);
    assert_eq!(map.get("foo"), Some(Level::Error));
}

#[test]
fn test_map_insert_overwrites() {
    let mut map = ModLevelMap::new();
    assert!(map.is_empty());
    map.insert("foo", Level::Info);
    map.insert("foo", Level::Error);
    map.insert("bar", Level::Debug);
    assert_eq!(map.len(), 2);
    assert_eq!(map.get("foo"), Some(Level::Error));
    assert_eq!(map.get("bar"), Some(Level::Debug));
    assert!(!map.is_empty());
}
