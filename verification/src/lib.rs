//! Desktop notifications as a behaviour of reactive entities.
//!
//! An entity that carries the behaviour owns a notification. The notification's
//! text and lifetime follow the entity's properties, and it is shown whenever the
//! `show` property turns true. The library decides; the host that owns the
//! entities and the notification server carries the decisions out.

pub mod text;
pub mod timeout;
pub mod property_value;
pub mod desktop_notification_properties;
pub mod notification;
pub mod entity;
pub mod effect;
pub mod desktop_notification;
pub mod entity_behaviour_provider;
