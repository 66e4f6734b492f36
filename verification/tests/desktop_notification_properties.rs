use notification_behaviour::desktop_notification_properties::DesktopNotificationProperties;
use notification_behaviour::desktop_notification_properties::NamedProperty;
use notification_behaviour::property_value::PropertyValue;

#[test]
fn properties_have_their_names() {
    assert_eq!(DesktopNotificationProperties::SHOW.as_ref(), "show");
    assert_eq!(DesktopNotificationProperties::APP_NAME.as_ref(), "app_name");
    assert_eq!(DesktopNotificationProperties::SUMMARY.as_ref(), "summary");
    assert_eq!(DesktopNotificationProperties::BODY.as_ref(), "body");
    assert_eq!(DesktopNotificationProperties::ICON.as_ref(), "icon");
    assert_eq!(DesktopNotificationProperties::TIMEOUT.as_ref(), "timeout");
}

#[test]
fn to_string_gives_the_name() {
    assert_eq!(DesktopNotificationProperties::SHOW.to_string(), String::from("show"));
    assert_eq!(DesktopNotificationProperties::APP_NAME.to_string(), String::from("app_name"));
    assert_eq!(DesktopNotificationProperties::TIMEOUT.to_string(), String::from("timeout"));
}

#[test]
fn defaults_are_false_empty_and_minus_one() {
    assert_eq!(DesktopNotificationProperties::SHOW.default_value(), PropertyValue::Bool(false));
    assert_eq!(DesktopNotificationProperties::APP_NAME.default_value(), PropertyValue::Text(String::new()));
    assert_eq!(DesktopNotificationProperties::SUMMARY.default_value(), PropertyValue::Text(String::new()));
    assert_eq!(DesktopNotificationProperties::BODY.default_value(), PropertyValue::Text(String::new()));
    assert_eq!(DesktopNotificationProperties::ICON.default_value(), PropertyValue::Text(String::new()));
    assert_eq!(DesktopNotificationProperties::TIMEOUT.default_value(), PropertyValue::Integer(-1));
}

#[test]
fn a_named_property_holds_name_and_default() {
    assert_eq!(
        NamedProperty::from(DesktopNotificationProperties::TIMEOUT),
        NamedProperty { name: String::from("timeout"), value: PropertyValue::Integer(-1) }
    );
    assert_eq!(
        NamedProperty::from(DesktopNotificationProperties::SHOW),
        NamedProperty { name: String::from("show"), value: PropertyValue::Bool(false) }
    );
}

#[test]
fn all_six_properties_are_declared_in_order() {
    let list = DesktopNotificationProperties::properties();
    let expected = vec![
        NamedProperty { name: String::from("show"), value: PropertyValue::Bool(false) },
        NamedProperty { name: String::from("app_name"), value: PropertyValue::Text(String::new()) },
        NamedProperty { name: String::from("summary"), value: PropertyValue::Text(String::new()) },
        NamedProperty { name: String::from("body"), value: PropertyValue::Text(String::new()) },
        NamedProperty { name: String::from("icon"), value: PropertyValue::Text(String::new()) },
        NamedProperty { name: String::from("timeout"), value: PropertyValue::Integer(-1) },
    ];
    assert_eq!(list, expected);
}
