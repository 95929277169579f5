use pipewire_native::properties::Properties;

#[test]
fn test_properties_simple() {
    let mut props = Properties::new();

    props.set("key1", format!("{}", 1));

    assert_eq!(props.get("key1"), Some(&"1".to_string()));

    for (k, v) in props.items().iter() {
        assert_eq!(k, "key1");
        assert_eq!(v, "1");
    }

    assert_eq!(props.get_u32("key1"), Some(1u32));
    assert_eq!(props.get_bool("key1"), Some(true));
}

#[test]
fn test_properties_json() {
    let conf = r#"
    {
        "context.properties": {},
        "context.spa-libs": {
          "support.*": "support/libspa-support"
        },
        "context.objects": [
          {
            "factory": "spa-node-factory"
          }
        ]
    }
    "#;

    let props = Properties::new_string(conf).expect("config parsing should succeed");

    assert_eq!(props.dict().items().len(), 3);
    assert_eq!(props.get("context.properties"), Some(&"{}".to_string()));
    assert_eq!(
        props.get("context.objects"),
        Some(&r#"[{"factory":"spa-node-factory"}]"#.to_string())
    );
}

#[test]
fn test_properties_typed_getters() {
    let mut props = Properties::new();
    props.set("u", "4294967295".to_string());
    props.set("i", "-42".to_string());
    props.set("plus", "+5".to_string());
    props.set("signs", "+-5".to_string());
    props.set("bare", "+".to_string());
    props.set("big", "18446744073709551615".to_string());
    props.set("junk", "12x".to_string());
    props.set("flag", "true".to_string());

    assert_eq!(props.get_u32("u"), Some(u32::MAX));
    assert_eq!(props.get_u64("u"), Some(u32::MAX as u64));
    assert_eq!(props.get_i32("i"), Some(-42));
    assert_eq!(props.get_i64("i"), Some(-42));
    // A leading plus is part of the decimal spellings the getters accept.
    assert_eq!(props.get_u32("plus"), Some(5));
    assert_eq!(props.get_u64("plus"), Some(5));
    assert_eq!(props.get_i32("plus"), Some(5));
    assert_eq!(props.get_i64("plus"), Some(5));
    assert_eq!(props.get_i64("signs"), None);
    assert_eq!(props.get_u64("bare"), None);
    assert_eq!(props.get_i64("bare"), None);
    assert_eq!(props.get_u64("big"), Some(u64::MAX));
    assert_eq!(props.get_u32("big"), None);
    assert_eq!(props.get_i64("big"), None);
    assert_eq!(props.get_u32("junk"), None);
    assert_eq!(props.get_bool("flag"), Some(true));
    assert_eq!(props.get_bool("i"), Some(false));
    assert_eq!(props.get_u32("absent"), None);
}

#[test]
fn test_properties_set_unset() {
    let mut props = Properties::new();
    props.set("a", "1".to_string());
    props.set("b", "2".to_string());
    props.set("a", "3".to_string());

    assert_eq!(props.items().len(), 2);
    assert_eq!(props.get("a"), Some(&"3".to_string()));

    assert_eq!(props.unset("a"), Some("3".to_string()));
    assert_eq!(props.get("a"), None);
    assert_eq!(props.unset("a"), None);
}

#[test]
fn test_properties_update_counts_changes() {
    let mut props = Properties::new();
    // String fields arrive rendered back to JSON text, quotes included.
    props.set("keep", "\"same\"".to_string());

    let count = props
        .update_string(r#"{"keep": "same", "fresh": "new", "gone": null}"#)
        .expect("update should succeed");

    // "keep" was already bound to its rendered value, "fresh" is new, and
    // "gone" was never present: exactly one change.
    assert_eq!(count, 1);
    assert_eq!(props.get("fresh"), Some(&"\"new\"".to_string()));
    assert_eq!(props.get("gone"), None);

    assert!(props.update_string("not json").is_err());
    // Non-object JSON changes nothing.
    assert_eq!(props.update_string("[1, 2]").unwrap(), 0);
}
