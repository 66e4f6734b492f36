//! The behaviour of one entity.

use vstd::prelude::*;
use crate::desktop_notification_properties::DesktopNotificationProperties;
use crate::effect::lemma_perform_all_concat;
use crate::effect::lemma_perform_one;
use crate::effect::lemma_perform_removes;
use crate::effect::lemma_perform_without_show;
use crate::effect::lemma_removal_is_idempotent;
use crate::effect::only_removes;
use crate::effect::removes;
use crate::effect::views;
use crate::effect::Effect;
use crate::effect::EffectView;
use crate::effect::Host;
use crate::entity::EntityInstance;
use crate::entity::EntityInstanceView;
use crate::notification::triggers;
use crate::notification::Notification;
use crate::notification::NotificationView;
use crate::property_value::PropertyValue;
use crate::property_value::PropertyValueView;
use crate::timeout::Timeout;

verus! {

/// The name of the behaviour, and of the entity type that carries it.
pub const DESKTOP_NOTIFICATION: &'static str = "desktop_notification";

/// An entity cannot carry the behaviour: it has no `show` property.
#[derive(Clone, Copy, Debug, PartialEq, Eq, Structural)]
pub struct BehaviourCreationError;

/// A subscription that a behaviour holds: the property and the handle under
/// which the host knows the subscription.
pub type PropertyHandle = (DesktopNotificationProperties, u128);

/// The behaviour of one entity: the entity as it was when the behaviour was
/// attached, the notification, and the subscriptions on the entity's
/// properties.
///
/// Until it is torn down, a behaviour holds one subscription for each of
/// `SHOW`, `SUMMARY`, `BODY`, `ICON` and `TIMEOUT` that the entity had a cell
/// for, under the cell's identifier, and no other. Once torn down it holds
/// none.
pub struct DesktopNotification {
    entity: EntityInstance,
    notification: Notification,
    /// In the order of subscription; no property occurs twice.
    property_handles: Vec<PropertyHandle>,
}

/// A behaviour with its text as sequences of characters.
pub struct DesktopNotificationView {
    pub entity: EntityInstanceView,
    pub notification: NotificationView,
    pub property_handles: Seq<PropertyHandle>,
}

/// The properties whose changes a behaviour follows, in the order in which it
/// subscribes to them. `APP_NAME` is read once and not followed.
pub open spec fn observed() -> Seq<DesktopNotificationProperties> {
    seq![
        DesktopNotificationProperties::SHOW,
        DesktopNotificationProperties::SUMMARY,
        DesktopNotificationProperties::BODY,
        DesktopNotificationProperties::ICON,
        DesktopNotificationProperties::TIMEOUT,
    ]
}

/// The subscription to take on one property: one under the cell's identifier
/// where the entity has the cell, none where it has not.
pub open spec fn handle_of(entity: EntityInstanceView, property: DesktopNotificationProperties) -> Seq<
    PropertyHandle,
> {
    match entity.property(property.name()) {
        Some(cell) => seq![(property, cell.id)],
        None => Seq::empty(),
    }
}

/// The subscriptions to take on a list of properties, in the list's order.
pub open spec fn handles_among(
    entity: EntityInstanceView,
    properties: Seq<DesktopNotificationProperties>,
) -> Seq<PropertyHandle>
    decreases properties.len(),
{
    if properties.len() == 0 {
        Seq::empty()
    } else {
        handles_among(entity, properties.drop_last()) + handle_of(entity, properties.last())
    }
}

/// The subscriptions of a behaviour on this entity.
pub open spec fn handles_of(entity: EntityInstanceView) -> Seq<PropertyHandle> {
    handles_among(entity, observed())
}

/// The entity's value for a property where it has one of the property's
/// declared type, and the property's default where the cell is missing or
/// holds another type.
pub open spec fn effective(entity: EntityInstanceView, property: DesktopNotificationProperties) -> PropertyValueView {
    let value = entity.value_or_default(property);
    if property.accepts(value) {
        value
    } else {
        property.default_of()
    }
}

/// Whether the entity asks for its notification to be shown.
pub open spec fn wants_show(entity: EntityInstanceView) -> bool {
    effective(entity, DesktopNotificationProperties::SHOW)->Bool_0
}

/// The notification that the entity's properties describe.
pub open spec fn described(entity: EntityInstanceView) -> NotificationView {
    NotificationView {
        appname: effective(entity, DesktopNotificationProperties::APP_NAME)->Text_0,
        summary: effective(entity, DesktopNotificationProperties::SUMMARY)->Text_0,
        body: effective(entity, DesktopNotificationProperties::BODY)->Text_0,
        icon: effective(entity, DesktopNotificationProperties::ICON)->Text_0,
        timeout: Timeout::of_value(effective(entity, DesktopNotificationProperties::TIMEOUT)->Integer_0),
    }
}

/// One `Observe` for each subscription, in order.
pub open spec fn observe_all(handles: Seq<PropertyHandle>) -> Seq<EffectView> {
    Seq::new(
        handles.len(),
        |i: int| EffectView::Observe { property: handles[i].0, handle_id: handles[i].1 },
    )
}

/// One `Remove` for each subscription, in order.
pub open spec fn remove_all(handles: Seq<PropertyHandle>) -> Seq<EffectView> {
    Seq::new(
        handles.len(),
        |i: int| EffectView::Remove { property_name: handles[i].0.name(), handle_id: handles[i].1 },
    )
}

/// What attaching the behaviour asks of the host: to show the notification
/// first, if the entity wants it shown, and then to take the subscriptions.
pub open spec fn construction_effects(entity: EntityInstanceView) -> Seq<EffectView> {
    let show = if wants_show(entity) {
        seq![EffectView::Show(described(entity))]
    } else {
        Seq::empty()
    };
    show + observe_all(handles_of(entity))
}

impl DesktopNotificationView {
    /// The behaviour as it is right after it was attached to an entity.
    pub open spec fn attached(entity: EntityInstanceView) -> DesktopNotificationView {
        DesktopNotificationView {
            entity,
            notification: described(entity),
            property_handles: handles_of(entity),
        }
    }

    /// Whether the behaviour still holds its subscriptions: it does until it
    /// is torn down.
    pub open spec fn connected(self) -> bool {
        self.property_handles.len() > 0
    }

    /// What every behaviour satisfies: its entity has the `show` property, and
    /// its subscriptions are those that the entity's cells call for, or none
    /// once it is torn down.
    pub open spec fn wf(self) -> bool {
        &&& self.entity.has(DesktopNotificationProperties::SHOW.name())
        &&& self.property_handles == if self.connected() {
            handles_of(self.entity)
        } else {
            Seq::empty()
        }
    }

    /// The behaviour after it was torn down: it holds no subscription.
    pub open spec fn disconnected(self) -> DesktopNotificationView {
        DesktopNotificationView { property_handles: Seq::empty(), ..self }
    }

    /// Whether the behaviour holds a subscription on a property.
    pub open spec fn observes(self, property: DesktopNotificationProperties) -> bool {
        exists|i: int| 0 <= i < self.property_handles.len() && (#[trigger] self.property_handles[i]).0 == property
    }

    /// The behaviour after the host delivered a value on a property. Without a
    /// subscription on the property the value goes nowhere.
    pub open spec fn delivered(
        self,
        property: DesktopNotificationProperties,
        value: PropertyValueView,
    ) -> DesktopNotificationView {
        if self.observes(property) {
            DesktopNotificationView { notification: self.notification.updated(property, value), ..self }
        } else {
            self
        }
    }

    /// What such a delivery asks of the host: to show the notification, where
    /// the value is `true` on `SHOW`.
    pub open spec fn delivery_effect(
        self,
        property: DesktopNotificationProperties,
        value: PropertyValueView,
    ) -> Option<EffectView> {
        if self.observes(property) && triggers(property, value) {
            Some(EffectView::Show(self.notification))
        } else {
            None
        }
    }

    /// What letting go of one subscription asks of the host: nothing, where
    /// the entity has no property of that name.
    pub open spec fn removal(self, property_name: Seq<char>, handle_id: u128) -> Option<EffectView> {
        if self.entity.has(property_name) {
            Some(EffectView::Remove { property_name, handle_id })
        } else {
            None
        }
    }

    /// What tearing the behaviour down asks of the host: to drop each
    /// subscription that the behaviour still holds.
    pub open spec fn teardown(self) -> Seq<EffectView> {
        remove_all(self.property_handles)
    }
}

/// Each subscription among `properties` is on one of them, on a cell that the
/// entity has, and under that cell's identifier.
pub proof fn lemma_handles_among(
    entity: EntityInstanceView,
    properties: Seq<DesktopNotificationProperties>,
    i: int,
)
    requires
        0 <= i < handles_among(entity, properties).len(),
    ensures
        properties.contains(handles_among(entity, properties)[i].0),
        entity.property(handles_among(entity, properties)[i].0.name()).is_some(),
        entity.property(handles_among(entity, properties)[i].0.name()).unwrap().id == handles_among(
            entity,
            properties,
        )[i].1,
    decreases properties.len(),
{
    let front = properties.drop_last();
    let before = handles_among(entity, front);
    if i < before.len() {
        lemma_handles_among(entity, front, i);
        let p = before[i].0;
        let j = choose|j: int| 0 <= j < front.len() && front[j] == p;
        assert(properties[j] == p);
    } else {
        assert(properties[properties.len() - 1] == properties.last());
    }
}

/// A property of the list whose cell the entity has is subscribed to, under
/// the cell's identifier.
pub proof fn lemma_handles_among_cover(
    entity: EntityInstanceView,
    properties: Seq<DesktopNotificationProperties>,
    property: DesktopNotificationProperties,
)
    requires
        properties.contains(property),
        entity.has(property.name()),
    ensures
        handles_among(entity, properties).contains(
            (property, entity.property(property.name()).unwrap().id),
        ),
    decreases properties.len(),
{
    let front = properties.drop_last();
    let before = handles_among(entity, front);
    let all = handles_among(entity, properties);
    let wanted = (property, entity.property(property.name()).unwrap().id);
    if properties.last() == property {
        assert(all[before.len() as int] == wanted);
    } else {
        let j = choose|j: int| 0 <= j < properties.len() && properties[j] == property;
        assert(front[j] == property);
        lemma_handles_among_cover(entity, front, property);
        let k = choose|k: int| 0 <= k < before.len() && before[k] == wanted;
        assert(all[k] == wanted);
    }
}

/// Among the subscriptions on a list of properties that names none twice, no
/// two are on the same property.
pub proof fn lemma_handles_among_differ(
    entity: EntityInstanceView,
    properties: Seq<DesktopNotificationProperties>,
    i: int,
    j: int,
)
    requires
        properties.no_duplicates(),
        0 <= i < j < handles_among(entity, properties).len(),
    ensures
        handles_among(entity, properties)[i].0 != handles_among(entity, properties)[j].0,
    decreases properties.len(),
{
    let front = properties.drop_last();
    let before = handles_among(entity, front);
    if j < before.len() {
        assert forall|a: int, b: int| 0 <= a < front.len() && 0 <= b < front.len() && a != b implies front[a]
            != front[b] by {
            assert(front[a] == properties[a] && front[b] == properties[b]);
        }
        lemma_handles_among_differ(entity, front, i, j);
    } else {
        lemma_handles_among(entity, front, i);
        let p = before[i].0;
        let k = choose|k: int| 0 <= k < front.len() && front[k] == p;
        assert(properties[k] == p);
        assert(properties[properties.len() - 1] == properties.last());
    }
}

/// A behaviour holds no two subscriptions on one property.
pub proof fn lemma_subscribed_once(behaviour: DesktopNotificationView)
    requires
        behaviour.wf(),
    ensures
        forall|i: int, j: int|
            0 <= i < j < behaviour.property_handles.len() ==> (#[trigger] behaviour.property_handles[i]).0 != (
            #[trigger] behaviour.property_handles[j]).0,
{
    assert(observed().no_duplicates());
    assert forall|i: int, j: int| 0 <= i < j < behaviour.property_handles.len() implies (
    #[trigger] behaviour.property_handles[i]).0 != (#[trigger] behaviour.property_handles[j]).0 by {
        lemma_handles_among_differ(behaviour.entity, observed(), i, j);
    }
}

/// Until it is torn down, a behaviour is subscribed to exactly those followed
/// properties that its entity had a cell for when the behaviour was attached.
pub proof fn lemma_subscriptions_are_exact(behaviour: DesktopNotificationView, property: DesktopNotificationProperties)
    requires
        behaviour.wf(),
        behaviour.connected(),
    ensures
        behaviour.observes(property) <==> observed().contains(property) && behaviour.entity.has(
            property.name(),
        ),
{
    let handles = behaviour.property_handles;
    if behaviour.observes(property) {
        let i = choose|i: int| 0 <= i < handles.len() && (#[trigger] handles[i]).0 == property;
        lemma_handles_among(behaviour.entity, observed(), i);
    }
    if observed().contains(property) && behaviour.entity.has(property.name()) {
        lemma_handles_among_cover(behaviour.entity, observed(), property);
        let wanted = (property, behaviour.entity.property(property.name()).unwrap().id);
        let k = choose|k: int| 0 <= k < handles.len() && handles[k] == wanted;
        assert(handles[k].0 == property);
    }
}

/// A delivery keeps a behaviour's entity and subscriptions, and so keeps the
/// behaviour well formed.
pub proof fn lemma_delivery_keeps_subscriptions(
    behaviour: DesktopNotificationView,
    property: DesktopNotificationProperties,
    value: PropertyValueView,
)
    ensures
        behaviour.delivered(property, value).entity == behaviour.entity,
        behaviour.delivered(property, value).property_handles == behaviour.property_handles,
        behaviour.wf() ==> behaviour.delivered(property, value).wf(),
{
}

/// An entity whose `show` property is true has its notification shown once
/// when the behaviour is attached, and before any subscription is taken: the
/// request to show comes first, every later request is a subscription, and a
/// host that performs them all has displayed one notification more.
pub proof fn lemma_shown_once_when_attached(entity: EntityInstanceView, host: Host)
    requires
        entity.property(DesktopNotificationProperties::SHOW.name()) matches Some(cell) && cell.value
            == PropertyValueView::Bool(true),
    ensures
        construction_effects(entity).len() >= 1,
        construction_effects(entity)[0] == EffectView::Show(described(entity)),
        forall|i: int|
            1 <= i < construction_effects(entity).len() ==> (#[trigger] construction_effects(entity)[i]) is Observe,
        host.perform_all(construction_effects(entity)).shown == host.shown.push(described(entity)),
{
    let show = seq![EffectView::Show(described(entity))];
    let observes = observe_all(handles_of(entity));
    assert(construction_effects(entity) == show + observes);
    lemma_perform_all_concat(host, show, observes);
    lemma_perform_without_show(host.perform_all(show), observes);
    lemma_perform_one(host, EffectView::Show(described(entity)));
}

/// An entity whose `show` property is not true has nothing shown when the
/// behaviour is attached.
pub proof fn lemma_not_shown_when_attached(entity: EntityInstanceView, host: Host)
    requires
        !(entity.property(DesktopNotificationProperties::SHOW.name()) matches Some(cell) && cell.value
            == PropertyValueView::Bool(true)),
    ensures
        forall|i: int|
            0 <= i < construction_effects(entity).len() ==> (#[trigger] construction_effects(entity)[i]) is Observe,
        host.perform_all(construction_effects(entity)).shown == host.shown,
{
    let observes = observe_all(handles_of(entity));
    assert(construction_effects(entity) == observes);
    lemma_perform_without_show(host, observes);
}

/// A value of the wrong type for its property changes nothing of a behaviour
/// and shows nothing.
pub proof fn lemma_delivery_of_mismatch(
    behaviour: DesktopNotificationView,
    property: DesktopNotificationProperties,
    value: PropertyValueView,
)
    requires
        !property.accepts(value),
    ensures
        behaviour.delivered(property, value) == behaviour,
        behaviour.delivery_effect(property, value).is_none(),
{
}

/// A value of the right type, delivered on a property that the behaviour is
/// subscribed to, reaches the one field of the notification that belongs to
/// the property and leaves the others as they were. Only `true` on `SHOW` asks
/// for the notification to be shown, and it is shown as it is.
pub proof fn lemma_delivery_reaches_one_field(
    behaviour: DesktopNotificationView,
    property: DesktopNotificationProperties,
    value: PropertyValueView,
)
    requires
        behaviour.observes(property),
        property.accepts(value),
    ensures
        ({
            let before = behaviour.notification;
            let after = behaviour.delivered(property, value).notification;
            &&& after.appname == before.appname
            &&& after.summary == if property == DesktopNotificationProperties::SUMMARY {
                value->Text_0
            } else {
                before.summary
            }
            &&& after.body == if property == DesktopNotificationProperties::BODY {
                value->Text_0
            } else {
                before.body
            }
            &&& after.icon == if property == DesktopNotificationProperties::ICON {
                value->Text_0
            } else {
                before.icon
            }
            &&& after.timeout == if property == DesktopNotificationProperties::TIMEOUT {
                Timeout::of_value(value->Integer_0)
            } else {
                before.timeout
            }
            &&& behaviour.delivery_effect(property, value) == if property
                == DesktopNotificationProperties::SHOW && value->Bool_0 {
                Some(EffectView::Show(before))
            } else {
                None
            }
        }),
{
}

/// Tearing a behaviour down leaves none of its subscriptions with the host,
/// changes nothing else, and changes nothing at all when done again.
pub proof fn lemma_teardown(behaviour: DesktopNotificationView, host: Host)
    ensures
        forall|i: int|
            0 <= i < behaviour.property_handles.len() ==> !host.perform_all(
                behaviour.teardown(),
            ).subscriptions.contains(
                ((#[trigger] behaviour.property_handles[i]).0.name(), behaviour.property_handles[i].1),
            ),
        host.perform_all(behaviour.teardown()).shown == host.shown,
        host.perform_all(behaviour.teardown()).tagged == host.tagged,
        host.perform_all(behaviour.teardown()).perform_all(behaviour.teardown()) == host.perform_all(
            behaviour.teardown(),
        ),
{
    let handles = behaviour.property_handles;
    let effects = behaviour.teardown();
    assert(only_removes(effects));
    lemma_perform_removes(host, effects);
    lemma_removal_is_idempotent(host, effects);
    assert forall|i: int| 0 <= i < handles.len() implies !host.perform_all(effects).subscriptions.contains(
        ((#[trigger] handles[i]).0.name(), handles[i].1),
    ) by {
        assert(effects[i] == EffectView::Remove {
            property_name: handles[i].0.name(),
            handle_id: handles[i].1,
        });
        assert(removes(effects, handles[i].0.name(), handles[i].1));
    }
}

/// A behaviour is torn down once. The first time asks the host to drop each
/// subscription; after it the behaviour holds none, so that a second time asks
/// for nothing and changes nothing, and a value that is still delivered
/// reaches nothing and shows nothing.
pub proof fn lemma_torn_down_once(
    behaviour: DesktopNotificationView,
    property: DesktopNotificationProperties,
    value: PropertyValueView,
)
    ensures
        behaviour.teardown().len() == behaviour.property_handles.len(),
        behaviour.disconnected().teardown() == Seq::<EffectView>::empty(),
        behaviour.disconnected().disconnected() == behaviour.disconnected(),
        !behaviour.disconnected().connected(),
        behaviour.wf() ==> behaviour.disconnected().wf(),
        behaviour.disconnected().delivered(property, value) == behaviour.disconnected(),
        behaviour.disconnected().delivery_effect(property, value).is_none(),
{
}

impl View for DesktopNotification {
    type V = DesktopNotificationView;

    closed spec fn view(&self) -> DesktopNotificationView {
        DesktopNotificationView {
            entity: self.entity@,
            notification: self.notification@,
            property_handles: self.property_handles@,
        }
    }
}

/// The value of a property on an entity, or the property's default where the
/// entity has no cell for it.
pub fn get_value_or_default(entity: &EntityInstance, property: DesktopNotificationProperties) -> (value:
    PropertyValue)
    ensures
        value@ == entity@.value_or_default(property),
{
    match entity.get(property.as_ref()) {
        Some(value) => value,
        None => property.default_value(),
    }
}

/// The handle under which to subscribe to a property of an entity: the
/// identifier of the property's cell.
pub fn handle_property(property: DesktopNotificationProperties, entity: &EntityInstance) -> (handle_id:
    Option<u128>)
    ensures
        handle_id == match entity@.property(property.name()) {
            Some(cell) => Some(cell.id),
            None => None,
        },
{
    match entity.property(property.as_ref()) {
        Some(cell) => Some(cell.id),
        None => None,
    }
}

/// The text of a text property on an entity.
fn text_of(entity: &EntityInstance, property: DesktopNotificationProperties) -> (text: String)
    requires
        property != DesktopNotificationProperties::SHOW,
        property != DesktopNotificationProperties::TIMEOUT,
    ensures
        text@ == effective(entity@, property)->Text_0,
{
    let value = get_value_or_default(entity, property);
    match value.as_str() {
        Some(text) => text.to_owned(),
        None => String::new(),
    }
}

/// The timeout that an entity asks for.
fn timeout_of(entity: &EntityInstance) -> (timeout: Timeout)
    ensures
        timeout == Timeout::of_value(effective(entity@, DesktopNotificationProperties::TIMEOUT)->Integer_0),
{
    match get_value_or_default(entity, DesktopNotificationProperties::TIMEOUT).as_i64() {
        Some(millis) => Timeout::from_value(millis),
        None => Timeout::Default,
    }
}

/// The property at a place of the subscription order.
fn observed_at(i: usize) -> (property: DesktopNotificationProperties)
    requires
        i < 5,
    ensures
        property == observed()[i as int],
{
    if i == 0 {
        DesktopNotificationProperties::SHOW
    } else if i == 1 {
        DesktopNotificationProperties::SUMMARY
    } else if i == 2 {
        DesktopNotificationProperties::BODY
    } else if i == 3 {
        DesktopNotificationProperties::ICON
    } else {
        DesktopNotificationProperties::TIMEOUT
    }
}

impl DesktopNotification {
    #[verifier::type_invariant]
    spec fn inv(self) -> bool {
        self@.wf()
    }

    /// Attaches the behaviour to an entity. This fails where the entity has no
    /// `show` property, and asks nothing of the host then. Otherwise the
    /// notification is made from the entity's properties, and the host is asked
    /// to show it at once if `show` is true, and to subscribe the behaviour to
    /// each followed property that the entity has.
    pub fn new(e: EntityInstance) -> (made: Result<(DesktopNotification, Vec<Effect>), BehaviourCreationError>)
        ensures
            made is Ok <==> e@.has(DesktopNotificationProperties::SHOW.name()),
            made matches Ok((behaviour, effects)) ==> {
                &&& behaviour@ == DesktopNotificationView::attached(e@)
                &&& behaviour@.wf()
                &&& behaviour@.connected()
                &&& views(effects@) == construction_effects(e@)
            },
    {
        let show = match e.property(DesktopNotificationProperties::SHOW.as_ref()) {
            None => {
                return Err(BehaviourCreationError);
            },
            Some(cell) => match cell.value.as_bool() {
                Some(show) => show,
                None => false,
            },
        };
        let notification = Notification {
            appname: text_of(&e, DesktopNotificationProperties::APP_NAME),
            summary: text_of(&e, DesktopNotificationProperties::SUMMARY),
            body: text_of(&e, DesktopNotificationProperties::BODY),
            icon: text_of(&e, DesktopNotificationProperties::ICON),
            timeout: timeout_of(&e),
        };
        assert(notification@ == described(e@));
        let mut effects: Vec<Effect> = Vec::new();
        if show {
            effects.push(Effect::Show(notification.duplicate()));
        }
        let ghost shown = views(effects@);
        assert(shown == if wants_show(e@) {
            seq![EffectView::Show(described(e@))]
        } else {
            Seq::empty()
        });
        let mut property_handles: Vec<PropertyHandle> = Vec::new();
        let mut i: usize = 0;
        assert(observed().take(0) == Seq::<DesktopNotificationProperties>::empty());
        assert(views(effects@) == shown + observe_all(property_handles@));
        while i < 5
            invariant
                i <= 5,
                property_handles@ == handles_among(e@, observed().take(i as int)),
                views(effects@) == shown + observe_all(property_handles@),
            decreases 5 - i,
        {
            let property = observed_at(i);
            let ghost handles_before = property_handles@;
            let ghost effects_before = views(effects@);
            proof {
                let next = observed().take(i + 1);
                assert(next.drop_last() == observed().take(i as int));
                assert(next.last() == property);
            }
            match handle_property(property, &e) {
                Some(handle_id) => {
                    effects.push(Effect::Observe { property, handle_id });
                    property_handles.push((property, handle_id));
                    proof {
                        assert(property_handles@ == handles_before + seq![(property, handle_id)]);
                        assert(views(effects@) == effects_before.push(
                            EffectView::Observe { property, handle_id },
                        ));
                        assert(views(effects@) == shown + observe_all(property_handles@));
                    }
                },
                None => {
                    assert(handles_before + Seq::<PropertyHandle>::empty() == handles_before);
                },
            }
            i = i + 1;
        }
        proof {
            assert(observed().take(5) == observed());
            assert(observed()[0] == DesktopNotificationProperties::SHOW);
            lemma_handles_among_cover(e@, observed(), DesktopNotificationProperties::SHOW);
        }
        Ok((DesktopNotification { entity: e, notification, property_handles }, effects))
    }

    /// The entity as it was when the behaviour was attached.
    pub fn entity(&self) -> (entity: &EntityInstance)
        ensures
            entity@ == self@.entity,
    {
        &self.entity
    }

    /// The notification as it is now.
    pub fn notification(&self) -> (notification: &Notification)
        ensures
            notification@ == self@.notification,
    {
        &self.notification
    }

    /// The subscriptions that the behaviour holds.
    pub fn property_handles(&self) -> (handles: &Vec<PropertyHandle>)
        ensures
            handles@ == self@.property_handles,
            self@.wf(),
    {
        proof {
            use_type_invariant(self);
        }
        &self.property_handles
    }

    /// The name of the entity's type.
    pub fn entity_type(&self) -> (name: String)
        ensures
            name@ == self@.entity.entity_type,
    {
        self.entity.entity_type().to_owned()
    }

    /// Takes a value that the host delivers on a property. With a subscription
    /// on the property, the value updates the notification, and `true` on
    /// `SHOW` asks the host to show it.
    pub fn property_changed(&mut self, property: DesktopNotificationProperties, value: &PropertyValue) -> (effect:
        Option<Effect>)
        ensures
            final(self)@ == old(self)@.delivered(property, value@),
            match effect {
                Some(e) => old(self)@.delivery_effect(property, value@) == Some(e@),
                None => old(self)@.delivery_effect(property, value@).is_none(),
            },
    {
        let mut i: usize = 0;
        let mut subscribed = false;
        while i < self.property_handles.len()
            invariant
                i <= self.property_handles.len(),
                *self == *old(self),
                subscribed <==> exists|j: int| 0 <= j < i && (#[trigger] self.property_handles@[j]).0 == property,
            decreases self.property_handles.len() - i,
        {
            if self.property_handles[i].0 == property {
                subscribed = true;
            }
            i = i + 1;
        }
        if !subscribed {
            return None;
        }
        proof {
            use_type_invariant(&*self);
        }
        match property {
            DesktopNotificationProperties::SHOW => {
                if let Some(true) = value.as_bool() {
                    return Some(Effect::Show(self.notification.duplicate()));
                }
            },
            DesktopNotificationProperties::APP_NAME => {},
            DesktopNotificationProperties::SUMMARY => {
                if let Some(text) = value.as_str() {
                    self.notification.summary = text.to_owned();
                }
            },
            DesktopNotificationProperties::BODY => {
                if let Some(text) = value.as_str() {
                    self.notification.body = text.to_owned();
                }
            },
            DesktopNotificationProperties::ICON => {
                if let Some(text) = value.as_str() {
                    self.notification.icon = text.to_owned();
                }
            },
            DesktopNotificationProperties::TIMEOUT => {
                if let Some(millis) = value.as_i64() {
                    self.notification.timeout = Timeout::from_value(millis);
                }
            },
        }
        None
    }

    /// Lets go of one subscription, on the property of that name. Nothing is
    /// asked of the host where the entity has no property of that name.
    pub fn disconnect_property(&self, property_name: &str, handle_id: u128) -> (effect: Option<Effect>)
        ensures
            match effect {
                Some(e) => self@.removal(property_name@, handle_id) == Some(e@),
                None => self@.removal(property_name@, handle_id).is_none(),
            },
    {
        if self.entity.has_property(property_name) {
            Some(Effect::Remove { property_name: property_name.to_owned(), handle_id })
        } else {
            None
        }
    }

    /// Tears the behaviour down: asks the host to drop each subscription that
    /// the behaviour holds, and lets go of them. A behaviour that was torn
    /// down before asks for nothing.
    pub fn disconnect(&mut self) -> (effects: Vec<Effect>)
        ensures
            views(effects@) == old(self)@.teardown(),
            final(self)@ == old(self)@.disconnected(),
            final(self)@.teardown() == Seq::<EffectView>::empty(),
    {
        proof {
            use_type_invariant(&*self);
        }
        let mut effects: Vec<Effect> = Vec::new();
        let mut i: usize = 0;
        while i < self.property_handles.len()
            invariant
                i <= self.property_handles.len(),
                *self == *old(self),
                self@.wf(),
                views(effects@) == self@.teardown().take(i as int),
            decreases self.property_handles.len() - i,
        {
            let property = self.property_handles[i].0;
            let handle_id = self.property_handles[i].1;
            let ghost before = views(effects@);
            proof {
                lemma_handles_among(self@.entity, observed(), i as int);
            }
            match self.disconnect_property(property.as_ref(), handle_id) {
                Some(effect) => {
                    effects.push(effect);
                    proof {
                        assert(views(effects@) == before.push(self@.teardown()[i as int]));
                        assert(self@.teardown().take(i + 1) == self@.teardown().take(i as int).push(
                            self@.teardown()[i as int],
                        ));
                    }
                },
                None => {
                    // the entity has the cell of each subscription
                    assert(false);
                },
            }
            i = i + 1;
        }
        assert(self@.teardown().take(i as int) == self@.teardown());
        self.property_handles = Vec::new();
        effects
    }
}

} // verus!
