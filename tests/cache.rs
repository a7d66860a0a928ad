use mod_info::transform_names;

fn cache_text(mods: &[String]) -> String {
    let mut table = toml::Table::new();
    let items = mods.iter().map(|m| toml::Value::String(m.clone())).collect();
    table.insert("mods".to_string(), toml::Value::Array(items));
    toml::to_string(&table).unwrap()
}

fn read_cache(text: &str) -> Vec<String> {
    let table: toml::Table = toml::from_str(text).unwrap();
    table["mods"]
        .as_array()
        .unwrap()
        .iter()
        .map(|v| v.as_str().unwrap().to_string())
        .collect()
}

#[test]
fn cache_record_round_trip() {
    let mods: Vec<String> =
        ["a", "b", "a", "with \"quotes\"", "uni\u{e9}", "", "back\\slash", "line\nbreak"]
            .iter()
            .map(|s| s.to_string())
            .collect();
    let text = cache_text(&mods);
    assert_eq!(read_cache(&text), mods);
    assert_eq!(cache_text(&read_cache(&text)), text);
    let deps = transform_names(&read_cache(&text), &vec!["a".to_string()]);
    assert_eq!(deps[0], "? b");
}
