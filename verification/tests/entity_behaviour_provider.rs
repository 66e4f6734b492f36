use notification_behaviour::desktop_notification::BehaviourCreationError;
use notification_behaviour::desktop_notification_properties::DesktopNotificationProperties;
use notification_behaviour::effect::Effect;
use notification_behaviour::entity::EntityInstance;
use notification_behaviour::entity::PropertyInstance;
use notification_behaviour::entity_behaviour_provider::create_desktop_notification_storage;
use notification_behaviour::entity_behaviour_provider::NotificationEntityBehaviourProvider;
use notification_behaviour::entity_behaviour_provider::NotificationEntityBehaviourProviderImpl;
use notification_behaviour::notification::Notification;
use notification_behaviour::property_value::PropertyValue;
use notification_behaviour::timeout::Timeout;

/// What a host keeps for one entity: the subscriptions on its properties, the
/// notifications it displayed and the behaviour's tag.
struct Host {
    subscriptions: Vec<(String, u128)>,
    shown: Vec<Notification>,
    tagged: bool,
}

fn new_host() -> Host {
    Host { subscriptions: Vec::new(), shown: Vec::new(), tagged: false }
}

fn perform(host: &mut Host, effects: Vec<Effect>) {
    for effect in effects {
        match effect {
            Effect::Show(notification) => host.shown.push(notification),
            Effect::Observe { property, handle_id } => {
                host.subscriptions.push((String::from(property.as_ref()), handle_id))
            },
            Effect::Remove { property_name, handle_id } => {
                host.subscriptions.retain(|held| !(held.0 == property_name && held.1 == handle_id))
            },
            Effect::AddBehaviour => host.tagged = true,
            Effect::RemoveBehaviour => host.tagged = false,
        }
    }
}

/// Sets a property on the host's side: every subscription on the property
/// hands the value to the provider.
fn deliver(
    host: &mut Host,
    provider: &mut NotificationEntityBehaviourProviderImpl,
    id: u128,
    property: DesktopNotificationProperties,
    value: PropertyValue,
) -> usize {
    let subscribed = host.subscriptions.iter().filter(|held| held.0 == property.as_ref()).count();
    for _ in 0..subscribed {
        let effect = provider.property_changed(id, property, &value);
        perform(host, effect.into_iter().collect());
    }
    subscribed
}

fn text(s: &str) -> PropertyValue {
    PropertyValue::Text(String::from(s))
}

fn entity(id: u128, entity_type: &str, cells: Vec<(&str, PropertyValue)>) -> EntityInstance {
    let mut entity = EntityInstance::new(id, String::from(entity_type));
    for (name, value) in cells {
        entity.insert(PropertyInstance { name: String::from(name), id, value });
    }
    entity
}

fn quiet_entity(id: u128) -> EntityInstance {
    entity(
        id,
        "desktop_notification",
        vec![
            ("show", PropertyValue::Bool(false)),
            ("summary", text("Hi")),
            ("body", text("")),
            ("icon", text("")),
            ("timeout", PropertyValue::Integer(-1)),
        ],
    )
}

fn quiet_notification() -> Notification {
    Notification {
        appname: String::new(),
        summary: String::from("Hi"),
        body: String::new(),
        icon: String::new(),
        timeout: Timeout::Default,
    }
}

fn all_removals(id: u128) -> Vec<Effect> {
    vec![
        Effect::Remove { property_name: String::from("show"), handle_id: id },
        Effect::Remove { property_name: String::from("summary"), handle_id: id },
        Effect::Remove { property_name: String::from("body"), handle_id: id },
        Effect::Remove { property_name: String::from("icon"), handle_id: id },
        Effect::Remove { property_name: String::from("timeout"), handle_id: id },
    ]
}

#[test]
fn a_new_storage_is_empty() {
    let storage = create_desktop_notification_storage();
    assert!(storage.0.is_empty());
}

#[test]
fn a_new_provider_holds_no_behaviour() {
    let provider = NotificationEntityBehaviourProviderImpl::new();
    assert!(!provider.contains(1));
    assert!(provider.get(1).is_none());
}

#[test]
fn attach_show_detach() {
    let mut provider = NotificationEntityBehaviourProviderImpl::new();
    let mut host = new_host();
    let id = 4711;

    let attached = provider.add_behaviours(quiet_entity(id));
    assert!(attached.is_ok());
    perform(&mut host, attached.unwrap());
    assert_eq!(provider.get(id).map(|behaviour| behaviour.notification().duplicate()), Some(quiet_notification()));
    assert_eq!(provider.get(id).map(|behaviour| behaviour.notification().summary.clone()), Some(String::from("Hi")));
    assert!(host.shown.is_empty());
    assert!(host.tagged);
    assert_eq!(host.subscriptions.len(), 5);

    let handlers = deliver(&mut host, &mut provider, id, DesktopNotificationProperties::SHOW, PropertyValue::Bool(true));
    assert_eq!(handlers, 1);
    assert_eq!(host.shown, vec![quiet_notification()]);

    let detached = provider.remove_behaviours(&quiet_entity(id));
    perform(&mut host, detached);
    assert!(!provider.contains(id));
    assert!(provider.get(id).is_none());
    assert!(host.subscriptions.is_empty());
    assert!(!host.tagged);

    let handlers = deliver(&mut host, &mut provider, id, DesktopNotificationProperties::SHOW, PropertyValue::Bool(true));
    assert_eq!(handlers, 0);
    assert_eq!(host.shown.len(), 1);
    // even a value that still arrives reaches nothing
    assert_eq!(provider.property_changed(id, DesktopNotificationProperties::SHOW, &PropertyValue::Bool(true)), None);
    assert!(!provider.contains(id));
}

#[test]
fn attach_without_show_fails_and_changes_nothing() {
    let mut provider = NotificationEntityBehaviourProviderImpl::new();
    let other = provider.add_behaviours(quiet_entity(1));
    assert!(other.is_ok());

    let lacking = entity(2, "desktop_notification", vec![("summary", text("Hi")), ("body", text(""))]);
    assert_eq!(provider.add_behaviours(lacking), Err(BehaviourCreationError));
    assert!(!provider.contains(2));
    assert!(provider.contains(1));
    assert_eq!(provider.get(1).map(|behaviour| behaviour.notification().duplicate()), Some(quiet_notification()));

    let lacking = entity(3, "desktop_notification", vec![]);
    assert_eq!(provider.create_desktop_notification(lacking), Err(BehaviourCreationError));
    assert!(!provider.contains(3));
}

#[test]
fn attach_without_show_keeps_an_earlier_behaviour() {
    let mut provider = NotificationEntityBehaviourProviderImpl::new();
    assert!(provider.add_behaviours(quiet_entity(1)).is_ok());
    let lacking = entity(1, "desktop_notification", vec![("summary", text("Other"))]);
    assert_eq!(provider.add_behaviours(lacking), Err(BehaviourCreationError));
    assert!(provider.contains(1));
    assert_eq!(provider.get(1).map(|behaviour| behaviour.notification().duplicate()), Some(quiet_notification()));
}

#[test]
fn attach_with_show_true_shows_once_before_subscribing() {
    let mut provider = NotificationEntityBehaviourProviderImpl::new();
    let loud = entity(9, "desktop_notification", vec![("show", PropertyValue::Bool(true)), ("summary", text("Now"))]);
    let effects = provider.add_behaviours(loud).unwrap();
    let expected = Notification {
        appname: String::new(),
        summary: String::from("Now"),
        body: String::new(),
        icon: String::new(),
        timeout: Timeout::Default,
    };
    assert_eq!(
        effects,
        vec![
            Effect::Show(expected),
            Effect::Observe { property: DesktopNotificationProperties::SHOW, handle_id: 9 },
            Effect::Observe { property: DesktopNotificationProperties::SUMMARY, handle_id: 9 },
            Effect::AddBehaviour,
        ]
    );
}

#[test]
fn entities_of_another_type_are_passed_over() {
    let mut provider = NotificationEntityBehaviourProviderImpl::new();
    let other = entity(5, "timer", vec![("show", PropertyValue::Bool(true))]);
    assert_eq!(provider.add_behaviours(other), Ok(vec![]));
    assert!(!provider.contains(5));

    assert!(provider.add_behaviours(quiet_entity(6)).is_ok());
    let same_id_other_type = entity(6, "timer", vec![]);
    assert_eq!(provider.remove_behaviours(&same_id_other_type), vec![]);
    assert!(provider.contains(6));
}

#[test]
fn detach_tears_down_and_takes_the_tag() {
    let mut provider = NotificationEntityBehaviourProviderImpl::new();
    assert!(provider.create_desktop_notification(quiet_entity(8)).is_ok());
    let mut expected = all_removals(8);
    expected.push(Effect::RemoveBehaviour);
    assert_eq!(provider.remove_desktop_notification(&quiet_entity(8)), expected);
    assert!(!provider.contains(8));
}

#[test]
fn detach_twice_drops_no_subscription_twice() {
    let mut provider = NotificationEntityBehaviourProviderImpl::new();
    let mut host = new_host();
    perform(&mut host, provider.add_behaviours(quiet_entity(8)).unwrap());

    perform(&mut host, provider.remove_behaviours(&quiet_entity(8)));
    let after_first = (host.subscriptions.clone(), host.shown.clone(), host.tagged);
    let second = provider.remove_behaviours(&quiet_entity(8));
    assert_eq!(second, vec![]);
    perform(&mut host, second);
    assert_eq!((host.subscriptions.clone(), host.shown.clone(), host.tagged), after_first);
    assert!(!provider.contains(8));
}

#[test]
fn detach_by_id_tears_down_without_touching_the_tag() {
    let mut provider = NotificationEntityBehaviourProviderImpl::new();
    assert!(provider.add_behaviours(quiet_entity(8)).is_ok());
    assert_eq!(provider.remove_behaviours_by_id(8), all_removals(8));
    assert!(!provider.contains(8));
    assert_eq!(provider.remove_behaviours_by_id(8), vec![]);
    assert_eq!(provider.remove_by_id(8), vec![]);
}

#[test]
fn detach_of_an_unknown_entity_changes_nothing() {
    let mut provider = NotificationEntityBehaviourProviderImpl::new();
    assert!(provider.add_behaviours(quiet_entity(1)).is_ok());
    assert_eq!(provider.remove_by_id(2), vec![]);
    assert_eq!(provider.remove_desktop_notification(&quiet_entity(2)), vec![]);
    assert_eq!(provider.remove_behaviours(&quiet_entity(2)), vec![]);
    assert!(provider.contains(1));
    assert!(!provider.contains(2));
}

#[test]
fn detach_after_detach_by_id_leaves_the_tag() {
    let mut provider = NotificationEntityBehaviourProviderImpl::new();
    let mut host = new_host();
    perform(&mut host, provider.add_behaviours(quiet_entity(8)).unwrap());
    perform(&mut host, provider.remove_behaviours_by_id(8));
    assert!(host.tagged);
    assert!(host.subscriptions.is_empty());
    let effects = provider.remove_behaviours(&quiet_entity(8));
    assert_eq!(effects, vec![]);
    perform(&mut host, effects);
    assert!(host.tagged);
}

#[test]
fn attach_again_tears_down_the_earlier_behaviour_first() {
    let mut provider = NotificationEntityBehaviourProviderImpl::new();
    assert!(provider.add_behaviours(quiet_entity(3)).is_ok());
    let changed = entity(3, "desktop_notification", vec![("show", PropertyValue::Bool(false)), ("summary", text("Again"))]);
    let effects = provider.add_behaviours(changed).unwrap();
    let mut expected = all_removals(3);
    expected.push(Effect::Observe { property: DesktopNotificationProperties::SHOW, handle_id: 3 });
    expected.push(Effect::Observe { property: DesktopNotificationProperties::SUMMARY, handle_id: 3 });
    expected.push(Effect::AddBehaviour);
    assert_eq!(effects, expected);
    assert_eq!(provider.get(3).map(|behaviour| behaviour.notification().summary.clone()), Some(String::from("Again")));
}

#[test]
fn attach_again_leaves_the_new_behaviour_subscribed() {
    let mut provider = NotificationEntityBehaviourProviderImpl::new();
    let mut host = new_host();
    perform(&mut host, provider.add_behaviours(quiet_entity(3)).unwrap());
    perform(&mut host, provider.add_behaviours(quiet_entity(3)).unwrap());
    assert!(host.tagged);
    let mut held = host.subscriptions.clone();
    held.sort();
    assert_eq!(
        held,
        vec![
            (String::from("body"), 3),
            (String::from("icon"), 3),
            (String::from("show"), 3),
            (String::from("summary"), 3),
            (String::from("timeout"), 3),
        ]
    );
    let handlers = deliver(&mut host, &mut provider, 3, DesktopNotificationProperties::SUMMARY, text("x"));
    assert_eq!(handlers, 1);
    assert_eq!(provider.get(3).map(|behaviour| behaviour.notification().summary.clone()), Some(String::from("x")));
    let handlers = deliver(&mut host, &mut provider, 3, DesktopNotificationProperties::SHOW, PropertyValue::Bool(true));
    assert_eq!(handlers, 1);
    assert_eq!(host.shown, vec![Notification { summary: String::from("x"), ..quiet_notification() }]);
}

#[test]
fn attach_again_without_show_keeps_the_earlier_subscriptions() {
    let mut provider = NotificationEntityBehaviourProviderImpl::new();
    let mut host = new_host();
    perform(&mut host, provider.add_behaviours(quiet_entity(3)).unwrap());
    let lacking = entity(3, "desktop_notification", vec![("summary", text("Other"))]);
    assert_eq!(provider.add_behaviours(lacking), Err(BehaviourCreationError));
    assert_eq!(host.subscriptions.len(), 5);
    assert_eq!(provider.get(3).map(|behaviour| behaviour.property_handles().len()), Some(5));
}

#[test]
fn a_delivery_reaches_the_behaviour_of_its_entity_only() {
    let mut provider = NotificationEntityBehaviourProviderImpl::new();
    assert!(provider.add_behaviours(quiet_entity(1)).is_ok());
    assert!(provider.add_behaviours(quiet_entity(2)).is_ok());
    assert_eq!(provider.property_changed(1, DesktopNotificationProperties::BODY, &text("one")), None);
    assert_eq!(
        provider.get(1).map(|behaviour| behaviour.notification().duplicate()),
        Some(Notification { body: String::from("one"), ..quiet_notification() })
    );
    assert_eq!(provider.get(2).map(|behaviour| behaviour.notification().duplicate()), Some(quiet_notification()));
    assert_eq!(
        provider.property_changed(1, DesktopNotificationProperties::SHOW, &PropertyValue::Bool(true)),
        Some(Effect::Show(Notification { body: String::from("one"), ..quiet_notification() }))
    );
}

#[test]
fn a_delivery_of_the_wrong_type_changes_no_behaviour() {
    let mut provider = NotificationEntityBehaviourProviderImpl::new();
    assert!(provider.add_behaviours(quiet_entity(1)).is_ok());
    assert_eq!(provider.property_changed(1, DesktopNotificationProperties::SUMMARY, &PropertyValue::Integer(3)), None);
    assert_eq!(provider.property_changed(1, DesktopNotificationProperties::TIMEOUT, &text("3")), None);
    assert_eq!(provider.property_changed(1, DesktopNotificationProperties::SHOW, &PropertyValue::Integer(1)), None);
    assert_eq!(provider.get(1).map(|behaviour| behaviour.notification().duplicate()), Some(quiet_notification()));
}
