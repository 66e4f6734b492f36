//! The properties of an entity that a desktop notification follows.

use vstd::prelude::*;
use vstd::string::StringExecFns;
use crate::property_value::PropertyValue;
use crate::property_value::PropertyValueView;
use crate::timeout::backend_timeout_into;
use crate::timeout::Timeout;

verus! {

/// The watched properties. `SHOW` is a boolean, `TIMEOUT` an integer of
/// milliseconds, the others are text.
#[allow(non_camel_case_types)]
#[derive(Clone, Copy, Debug, PartialEq, Eq, Hash, Structural)]
pub enum DesktopNotificationProperties {
    SHOW,
    APP_NAME,
    SUMMARY,
    BODY,
    ICON,
    TIMEOUT,
}

/// A property's name with a value for it.
#[derive(Clone, Debug, PartialEq, Eq)]
pub struct NamedProperty {
    pub name: String,
    pub value: PropertyValue,
}

/// A named property with its text as sequences of characters.
pub struct NamedPropertyView {
    pub name: Seq<char>,
    pub value: PropertyValueView,
}

impl View for NamedProperty {
    type V = NamedPropertyView;

    open spec fn view(&self) -> NamedPropertyView {
        NamedPropertyView { name: self.name@, value: self.value@ }
    }
}

impl DesktopNotificationProperties {
    /// The name under which an entity holds the property.
    pub open spec fn name(self) -> Seq<char> {
        match self {
            DesktopNotificationProperties::SHOW => "show"@,
            DesktopNotificationProperties::APP_NAME => "app_name"@,
            DesktopNotificationProperties::SUMMARY => "summary"@,
            DesktopNotificationProperties::BODY => "body"@,
            DesktopNotificationProperties::ICON => "icon"@,
            DesktopNotificationProperties::TIMEOUT => "timeout"@,
        }
    }

    /// The value that stands in for a property that an entity lacks: `false`,
    /// the empty text, or the number of the backend's default timeout.
    pub open spec fn default_of(self) -> PropertyValueView {
        match self {
            DesktopNotificationProperties::SHOW => PropertyValueView::Bool(false),
            DesktopNotificationProperties::TIMEOUT => PropertyValueView::Integer(
                Timeout::Default.millis() as i64,
            ),
            _ => PropertyValueView::Text(Seq::empty()),
        }
    }

    /// Whether a value has the property's declared type.
    pub open spec fn accepts(self, value: PropertyValueView) -> bool {
        match self {
            DesktopNotificationProperties::SHOW => value is Bool,
            DesktopNotificationProperties::TIMEOUT => value is Integer,
            _ => value is Text,
        }
    }

    /// All six properties, in the order of their declaration.
    pub open spec fn all() -> Seq<DesktopNotificationProperties> {
        seq![
            DesktopNotificationProperties::SHOW,
            DesktopNotificationProperties::APP_NAME,
            DesktopNotificationProperties::SUMMARY,
            DesktopNotificationProperties::BODY,
            DesktopNotificationProperties::ICON,
            DesktopNotificationProperties::TIMEOUT,
        ]
    }

    /// The property with its default value.
    pub open spec fn named(self) -> NamedPropertyView {
        NamedPropertyView { name: self.name(), value: self.default_of() }
    }

    /// The name under which an entity holds the property.
    pub fn as_ref(&self) -> (name: &'static str)
        ensures
            name@ == self.name(),
    {
        match self {
            DesktopNotificationProperties::SHOW => "show",
            DesktopNotificationProperties::APP_NAME => "app_name",
            DesktopNotificationProperties::SUMMARY => "summary",
            DesktopNotificationProperties::BODY => "body",
            DesktopNotificationProperties::ICON => "icon",
            DesktopNotificationProperties::TIMEOUT => "timeout",
        }
    }

    /// The name as an owned string.
    pub fn to_string(&self) -> (name: String)
        ensures
            name@ == self.name(),
    {
        String::from_str(self.as_ref())
    }

    /// The value that stands in for the property where an entity lacks it.
    pub fn default_value(&self) -> (value: PropertyValue)
        ensures
            value@ == self.default_of(),
    {
        match self {
            DesktopNotificationProperties::SHOW => PropertyValue::Bool(false),
            DesktopNotificationProperties::APP_NAME => PropertyValue::Text(String::new()),
            DesktopNotificationProperties::SUMMARY => PropertyValue::Text(String::new()),
            DesktopNotificationProperties::BODY => PropertyValue::Text(String::new()),
            DesktopNotificationProperties::ICON => PropertyValue::Text(String::new()),
            DesktopNotificationProperties::TIMEOUT => {
                let default_timeout: i32 = backend_timeout_into(Timeout::Default);
                PropertyValue::Integer(default_timeout as i64)
            },
        }
    }

    /// The six properties with their default values, as an entity type declares
    /// them.
    pub fn properties() -> (list: Vec<NamedProperty>)
        ensures
            list@.len() == 6,
            forall|i: int|
                0 <= i < 6 ==> (#[trigger] list@[i])@ == DesktopNotificationProperties::all()[i].named(),
    {
        vec![
            NamedProperty::from(DesktopNotificationProperties::SHOW),
            NamedProperty::from(DesktopNotificationProperties::APP_NAME),
            NamedProperty::from(DesktopNotificationProperties::SUMMARY),
            NamedProperty::from(DesktopNotificationProperties::BODY),
            NamedProperty::from(DesktopNotificationProperties::ICON),
            NamedProperty::from(DesktopNotificationProperties::TIMEOUT),
        ]
    }
}

impl NamedProperty {
    /// The property under its name, with its default value.
    pub fn from(p: DesktopNotificationProperties) -> (named: NamedProperty)
        ensures
            named@ == p.named(),
    {
        NamedProperty { name: p.to_string(), value: p.default_value() }
    }
}

} // verus!
