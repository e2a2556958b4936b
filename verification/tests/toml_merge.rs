use cargo_msrv_prep::detail::toml::merge_toml;
use toml_edit::{value, Datetime, Document, DocumentMut, Item, Value};

#[test]
fn test_simple_items() {
    let mut destination = "[table]\nwas_already_there = \"hello!\" # comment\n"
        .parse::<DocumentMut>()
        .unwrap();
    let destination_table = destination["table"].as_table_mut().unwrap();

    merge_toml(destination_table, "life", &value(42));
    merge_toml(destination_table, "hangar", &value("23"));
    merge_toml(destination_table, "cool", &value(true));
    merge_toml(destination_table, "monay", &value(101.2));
    merge_toml(
        destination_table,
        "small_step",
        &value("1969-07-20T20:05:00Z".parse::<Datetime>().unwrap()),
    );
    merge_toml(destination_table, "algebra", &value(Value::from_iter([7, 11])));
    merge_toml(
        destination_table,
        "recursion",
        &value(Value::from_iter([("did_you_mean", "recursion")])),
    );

    let expected = "[table]\nwas_already_there = \"hello!\" # comment\nlife = 42\nhangar = \"23\"\ncool = true\nmonay = 101.2\nsmall_step = 1969-07-20T20:05:00Z\nalgebra = [7, 11]\nrecursion = { did_you_mean = \"recursion\" }\n";
    assert_eq!(destination.to_string(), expected);
}

#[test]
fn test_table() {
    let mut destination = "[table]\nwas_already_there = \"hello!\" # comment\n"
        .parse::<DocumentMut>()
        .unwrap();

    let source = "[table]\nlife = 42\nhangar = \"23\"\n";
    let source = Document::parse(source).unwrap();

    merge_toml(destination.as_table_mut(), "table", &source["table"]);

    let expected = "[table]\nwas_already_there = \"hello!\" # comment\nlife = 42\nhangar = \"23\"\n";
    assert_eq!(destination.to_string(), expected);
}

#[test]
fn test_array_of_tables() {
    let mut destination = "[[tables]]\nwas_already_there = \"hello!\" # comment\n"
        .parse::<DocumentMut>()
        .unwrap();

    let source = "[[tables]]\nlife = 42\n[[tables]]\nhangar = \"23\"\ncool = true\n";
    let source = Document::parse(source).unwrap();

    merge_toml(destination.as_table_mut(), "tables", &source["tables"]);

    let expected = "[[tables]]\nwas_already_there = \"hello!\" # comment\n[[tables]]\nlife = 42\n[[tables]]\nhangar = \"23\"\ncool = true\n";
    assert_eq!(destination.to_string(), expected);
}

#[test]
fn test_replacement() {
    let mut destination = "table = \"what\"\ntables = \"how\"\nwill_be_overwritten = \"alas, poor Yorick\"\nwill_be_removed = \"salut\"\n"
        .parse::<DocumentMut>()
        .unwrap();

    let source = "will_be_overwritten = \"hello, world!\"\n\n[table]\nlife = 42\nhangar = \"23\"\n\n[[tables]]\nalways = [7, 11]\n";
    let source = Document::parse(source).unwrap();

    merge_toml(destination.as_table_mut(), "table", &source["table"]);
    merge_toml(destination.as_table_mut(), "tables", &source["tables"]);
    merge_toml(
        destination.as_table_mut(),
        "will_be_overwritten",
        &source["will_be_overwritten"],
    );
    merge_toml(destination.as_table_mut(), "will_be_removed", &Item::None);

    let expected = "will_be_overwritten = \"hello, world!\"\n\n[table ]\nlife = 42\nhangar = \"23\"\n\n[[tables ]]\nalways = [7, 11]\n";
    assert_eq!(destination.to_string(), expected);
}

#[test]
fn test_recursive_tables() {
    let mut destination = "[dependencies]\nfoo = \"1.0.0\"\n\n[target.'cfg(unix)'.dependencies]\nunix_foo = \"1.0.0\"\n\n[target.'cfg(windows)'.dependencies]\nwin32_foo = \"1.0.0\"\n"
        .parse::<DocumentMut>()
        .unwrap();

    let source = "[dependencies]\nbar = \"1.0.0\"\nbaz = \"1.0.0\"\n\n[target.'cfg(unix)'.dependencies]\nunix_bar = \"1.0.0\"\n\n[target.'cfg(beos)'.dependencies]\nbeos_foo = \"1.0.0\"\n";
    let source = Document::parse(source).unwrap();

    merge_toml(destination.as_table_mut(), "dependencies", &source["dependencies"]);
    merge_toml(destination.as_table_mut(), "target", &source["target"]);

    let expected = "[dependencies]\nfoo = \"1.0.0\"\nbar = \"1.0.0\"\nbaz = \"1.0.0\"\n\n[target.'cfg(unix)'.dependencies]\nunix_foo = \"1.0.0\"\nunix_bar = \"1.0.0\"\n\n[target.'cfg(windows)'.dependencies]\nwin32_foo = \"1.0.0\"\n\n[target.\"cfg(beos)\".dependencies]\nbeos_foo = \"1.0.0\"\n";
    assert_eq!(destination.to_string(), expected);
}

#[test]
fn repeated_array_merge_grows() {
    let mut destination = "[[tables]]\nlife = 42\n".parse::<DocumentMut>().unwrap();

    let source = "[[tables]]\nhangar = \"23\"\n";
    let source = Document::parse(source).unwrap();

    merge_toml(destination.as_table_mut(), "tables", &source["tables"]);
    merge_toml(destination.as_table_mut(), "tables", &source["tables"]);

    let merged = destination["tables"].as_array_of_tables().unwrap();
    assert_eq!(merged.len(), 3);
}
