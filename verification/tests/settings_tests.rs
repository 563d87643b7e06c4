use gdpm::settings::{GdSettings, GdSettingsError, GdValue};

#[test]
fn test_set_get_remove_property() {
    let mut s = GdSettings::new();
    assert!(s.get_section("a").is_none());
    s.set_property("a", "k", GdValue::Int(1));
    s.set_property("a", "j", GdValue::Boolean(true));
    s.set_property("a", "k", GdValue::Int(2));
    assert_eq!(s.get_property("a", "k"), Some(&GdValue::Int(2)));
    let section = s.get_section("a").unwrap();
    assert_eq!(section[0].0, "k");
    assert_eq!(section[1].0, "j");
    assert_eq!(section.len(), 2);

    assert!(s.remove_property("a", "k").is_ok());
    assert_eq!(s.get_property("a", "k"), None);
    assert_eq!(s.get_property("a", "j"), Some(&GdValue::Boolean(true)));
    assert!(matches!(s.remove_property("a", "k"), Err(GdSettingsError::MissingProperty(_, _))));
    assert!(matches!(s.remove_property("b", "k"), Err(GdSettingsError::MissingSection(_))));
}

#[test]
fn test_value_accessors() {
    let v = GdValue::Object(vec![
        ("a".to_string(), GdValue::String("x".to_string())),
        ("b".to_string(), GdValue::Null),
    ]);
    assert_eq!(v.get_field_str("a"), Some("x".to_string()));
    assert_eq!(v.get_field_str("b"), None);
    assert_eq!(v.get_field("c"), None);
    assert_eq!(v.to_object().map(|o| o.len()), Some(2));
    assert_eq!(GdValue::Boolean(false).to_bool(), Some(false));
    assert_eq!(GdValue::Int(3).to_str(), None);
}
