//! The notification that a behaviour keeps up to date.

use vstd::prelude::*;
use crate::desktop_notification_properties::DesktopNotificationProperties;
use crate::property_value::PropertyValueView;
use crate::timeout::Timeout;

verus! {

/// What a desktop notification says and how long it stays.
#[derive(Clone, Debug, PartialEq, Eq)]
pub struct Notification {
    pub appname: String,
    pub summary: String,
    pub body: String,
    pub icon: String,
    pub timeout: Timeout,
}

/// A notification with its text as sequences of characters.
pub struct NotificationView {
    pub appname: Seq<char>,
    pub summary: Seq<char>,
    pub body: Seq<char>,
    pub icon: Seq<char>,
    pub timeout: Timeout,
}

impl View for Notification {
    type V = NotificationView;

    open spec fn view(&self) -> NotificationView {
        NotificationView {
            appname: self.appname@,
            summary: self.summary@,
            body: self.body@,
            icon: self.icon@,
            timeout: self.timeout,
        }
    }
}

/// Whether a value delivered on a property asks for the notification to be
/// shown: only `true` on `SHOW` does. Nothing takes a shown notification back.
pub open spec fn triggers(property: DesktopNotificationProperties, value: PropertyValueView) -> bool {
    property == DesktopNotificationProperties::SHOW && value == PropertyValueView::Bool(true)
}

impl NotificationView {
    /// The notification after a value was delivered on a property. A text on
    /// `SUMMARY`, `BODY` or `ICON` replaces that field and an integer on
    /// `TIMEOUT` replaces the timeout. Every other delivery, a value of the
    /// wrong type among them, leaves the notification as it is.
    pub open spec fn updated(
        self,
        property: DesktopNotificationProperties,
        value: PropertyValueView,
    ) -> NotificationView {
        match (property, value) {
            (DesktopNotificationProperties::SUMMARY, PropertyValueView::Text(text)) => NotificationView {
                summary: text,
                ..self
            },
            (DesktopNotificationProperties::BODY, PropertyValueView::Text(text)) => NotificationView {
                body: text,
                ..self
            },
            (DesktopNotificationProperties::ICON, PropertyValueView::Text(text)) => NotificationView {
                icon: text,
                ..self
            },
            (DesktopNotificationProperties::TIMEOUT, PropertyValueView::Integer(millis)) => NotificationView {
                timeout: Timeout::of_value(millis),
                ..self
            },
            _ => self,
        }
    }
}

impl Notification {
    /// A copy of the notification.
    pub fn duplicate(&self) -> (copy: Notification)
        ensures
            copy@ == self@,
    {
        Notification {
            appname: self.appname.clone(),
            summary: self.summary.clone(),
            body: self.body.clone(),
            icon: self.icon.clone(),
            timeout: self.timeout,
        }
    }
}

} // verus!
