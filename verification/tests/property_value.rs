use notification_behaviour::property_value::PropertyValue;

#[test]
fn only_a_bool_is_a_bool() {
    assert_eq!(PropertyValue::Bool(true).as_bool(), Some(true));
    assert_eq!(PropertyValue::Bool(false).as_bool(), Some(false));
    assert_eq!(PropertyValue::Null.as_bool(), None);
    assert_eq!(PropertyValue::Integer(1).as_bool(), None);
    assert_eq!(PropertyValue::Text(String::from("true")).as_bool(), None);
}

#[test]
fn only_an_integer_is_an_integer() {
    assert_eq!(PropertyValue::Integer(-7).as_i64(), Some(-7));
    assert_eq!(PropertyValue::Decimal.as_i64(), None);
    assert_eq!(PropertyValue::Bool(true).as_i64(), None);
    assert_eq!(PropertyValue::Text(String::from("7")).as_i64(), None);
}

#[test]
fn only_a_text_is_a_text() {
    assert_eq!(PropertyValue::Text(String::from("Hi")).as_str(), Some("Hi"));
    assert_eq!(PropertyValue::Null.as_str(), None);
    assert_eq!(PropertyValue::Array.as_str(), None);
    assert_eq!(PropertyValue::Object.as_str(), None);
}

#[test]
fn a_duplicate_is_equal() {
    let values = vec![
        PropertyValue::Null,
        PropertyValue::Bool(true),
        PropertyValue::Integer(42),
        PropertyValue::Decimal,
        PropertyValue::Text(String::from("Hi")),
        PropertyValue::Array,
        PropertyValue::Object,
    ];
    for value in values.iter() {
        assert_eq!(&value.duplicate(), value);
    }
}
