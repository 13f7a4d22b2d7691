use harness_store_sqlite::json::{list_text, strings_at};

fn text(value: &str) -> String {
    value.to_owned()
}

#[test]
fn a_list_is_written_as_an_array() {
    assert_eq!(list_text(&Vec::new(), "no list"), Ok(text("[]")));
    let list = vec![text("a"), text("\"b\"\n"), text("\u{1ea1}")];
    let written = list_text(&list, "no list").expect("written");
    assert_eq!(written, "[\"a\",\"\\\"b\\\"\\n\",\"\u{1ea1}\"]");
    let object = format!("{{\"held\":{written}}}");
    assert_eq!(strings_at(&object, "held"), list);
}

#[test]
fn only_strings_of_an_array_are_taken() {
    assert_eq!(strings_at("{\"held\":[\"a\",1,null,\"b\"]}", "held"), vec!["a", "b"]);
    assert!(strings_at("{\"held\":\"a\"}", "held").is_empty());
    assert!(strings_at("{}", "held").is_empty());
    assert!(strings_at("[", "held").is_empty());
}
