//! The behaviours of all entities, by entity.

use std::collections::HashMap;
use vstd::prelude::*;
use vstd::std_specs::hash::group_hash_axioms;
use crate::desktop_notification::construction_effects;
use crate::desktop_notification::described;
use crate::desktop_notification::handles_of;
use crate::desktop_notification::lemma_handles_among_cover;
use crate::desktop_notification::lemma_teardown;
use crate::desktop_notification::observe_all;
use crate::desktop_notification::observed;
use crate::desktop_notification::wants_show;
use crate::desktop_notification::BehaviourCreationError;
use crate::desktop_notification::DesktopNotification;
use crate::desktop_notification::DesktopNotificationView;
use crate::desktop_notification::DESKTOP_NOTIFICATION;
use crate::desktop_notification_properties::DesktopNotificationProperties;
use crate::effect::lemma_perform_all_concat;
use crate::effect::lemma_perform_observes;
use crate::effect::lemma_perform_one;
use crate::effect::views;
use crate::effect::Effect;
use crate::effect::EffectView;
use crate::effect::Host;
use crate::entity::EntityInstance;
use crate::entity::EntityInstanceView;
use crate::property_value::PropertyValue;
use crate::property_value::PropertyValueView;
use crate::text::str_eq;

verus! {

broadcast use group_hash_axioms;

/// The behaviours that are attached, each under the identifier of its entity.
pub struct DesktopNotificationStorage(pub HashMap<u128, DesktopNotification>);

/// The attached behaviours as a map from an entity's identifier to the view of
/// its behaviour.
pub type Behaviours = Map<u128, DesktopNotificationView>;

impl View for DesktopNotificationStorage {
    type V = Behaviours;

    open spec fn view(&self) -> Behaviours {
        self.0@.map_values(|behaviour: DesktopNotification| behaviour@)
    }
}

/// A storage without behaviours.
pub fn create_desktop_notification_storage() -> (storage: DesktopNotificationStorage)
    ensures
        storage@ == Behaviours::empty(),
{
    let storage = DesktopNotificationStorage(HashMap::new());
    assert(storage@ =~= Behaviours::empty());
    storage
}

/// What tearing down the behaviour of an entity asks of the host: nothing,
/// where the entity has no behaviour.
pub open spec fn teardown_of(behaviours: Behaviours, id: u128) -> Seq<EffectView> {
    if behaviours.contains_key(id) {
        behaviours[id].teardown()
    } else {
        Seq::empty()
    }
}

/// The behaviours after an attempt to attach one to an entity. An entity
/// without the `show` property gets none.
pub open spec fn after_attach(behaviours: Behaviours, entity: EntityInstanceView) -> Behaviours {
    if entity.has(DesktopNotificationProperties::SHOW.name()) {
        behaviours.insert(entity.id, DesktopNotificationView::attached(entity))
    } else {
        behaviours
    }
}

/// What attaching a behaviour to an entity asks of the host: first the
/// teardown of the behaviour that it replaces, if there was one, then what the
/// new behaviour asks for, then the entity's tag. The replaced behaviour goes
/// first, so that its teardown cannot drop a subscription of the new one.
pub open spec fn attach_effects(behaviours: Behaviours, entity: EntityInstanceView) -> Seq<EffectView> {
    teardown_of(behaviours, entity.id) + construction_effects(entity) + seq![EffectView::AddBehaviour]
}

/// What detaching the behaviour of an entity asks of the host: the teardown of
/// the behaviour, then to take the tag off the entity. Nothing is asked where
/// the entity has no behaviour.
pub open spec fn detach_effects(behaviours: Behaviours, id: u128) -> Seq<EffectView> {
    if behaviours.contains_key(id) {
        teardown_of(behaviours, id).push(EffectView::RemoveBehaviour)
    } else {
        Seq::empty()
    }
}

/// The behaviours after the host delivered a value on a property of an entity.
pub open spec fn after_delivery(
    behaviours: Behaviours,
    id: u128,
    property: DesktopNotificationProperties,
    value: PropertyValueView,
) -> Behaviours {
    if behaviours.contains_key(id) {
        behaviours.insert(id, behaviours[id].delivered(property, value))
    } else {
        behaviours
    }
}

/// What such a delivery asks of the host.
pub open spec fn delivery_effect(
    behaviours: Behaviours,
    id: u128,
    property: DesktopNotificationProperties,
    value: PropertyValueView,
) -> Option<EffectView> {
    if behaviours.contains_key(id) {
        behaviours[id].delivery_effect(property, value)
    } else {
        None
    }
}

/// Whether each behaviour is well formed, holds its subscriptions and is
/// stored under the identifier of its own entity.
pub open spec fn well_stored(behaviours: Behaviours) -> bool {
    forall|id: u128| #[trigger]
        behaviours.contains_key(id) ==> {
            &&& behaviours[id].wf()
            &&& behaviours[id].connected()
            &&& behaviours[id].entity.id == id
        }
}

/// With no behaviour attached, the behaviours are well stored.
pub proof fn lemma_none_is_well_stored()
    ensures
        well_stored(Behaviours::empty()),
{
}

/// Attaching, delivering and detaching keep the behaviours well stored.
pub proof fn lemma_well_stored_is_kept(
    behaviours: Behaviours,
    entity: EntityInstanceView,
    id: u128,
    property: DesktopNotificationProperties,
    value: PropertyValueView,
)
    requires
        well_stored(behaviours),
    ensures
        well_stored(after_attach(behaviours, entity)),
        well_stored(after_delivery(behaviours, id, property, value)),
        well_stored(behaviours.remove(id)),
{
    let attached = after_attach(behaviours, entity);
    assert forall|k: u128| #[trigger] attached.contains_key(k) implies attached[k].wf()
        && attached[k].connected() && attached[k].entity.id == k by {
        if k == entity.id && entity.has(DesktopNotificationProperties::SHOW.name()) {
            lemma_handles_among_cover(entity, observed(), DesktopNotificationProperties::SHOW);
        } else {
            assert(behaviours.contains_key(k));
        }
    }
    let delivered = after_delivery(behaviours, id, property, value);
    assert forall|k: u128| #[trigger] delivered.contains_key(k) implies delivered[k].wf()
        && delivered[k].connected() && delivered[k].entity.id == k by {
        assert(behaviours.contains_key(k));
    }
    let removed = behaviours.remove(id);
    assert forall|k: u128| #[trigger] removed.contains_key(k) implies removed[k].wf()
        && removed[k].connected() && removed[k].entity.id == k by {
        assert(behaviours.contains_key(k));
    }
}

/// An entity without the `show` property gets no behaviour. The attempt fails
/// and leaves the behaviours as they were: where the entity had none, it has
/// none.
pub proof fn lemma_attach_needs_show(behaviours: Behaviours, entity: EntityInstanceView)
    requires
        !entity.has(DesktopNotificationProperties::SHOW.name()),
        !behaviours.contains_key(entity.id),
    ensures
        after_attach(behaviours, entity) == behaviours,
        !after_attach(behaviours, entity).contains_key(entity.id),
{
}

/// A host that performs what an attachment asks for holds each subscription
/// of the new behaviour, has tagged the entity, and has displayed the
/// notification if the entity wanted it shown, and no other. This holds as
/// well where the new behaviour replaces an earlier one of the same entity.
pub proof fn lemma_attach_subscribes(behaviours: Behaviours, entity: EntityInstanceView, host: Host)
    requires
        entity.has(DesktopNotificationProperties::SHOW.name()),
    ensures
        ({
            let after = host.perform_all(attach_effects(behaviours, entity));
            let behaviour = after_attach(behaviours, entity)[entity.id];
            &&& after.tagged
            &&& after.shown == if wants_show(entity) {
                host.shown.push(behaviour.notification)
            } else {
                host.shown
            }
            &&& forall|i: int|
                0 <= i < behaviour.property_handles.len() ==> after.subscriptions.contains(
                    ((#[trigger] behaviour.property_handles[i]).0.name(), behaviour.property_handles[i].1),
                )
        }),
{
    let torn = teardown_of(behaviours, entity.id);
    let show = if wants_show(entity) {
        seq![EffectView::Show(described(entity))]
    } else {
        Seq::empty()
    };
    let handles = handles_of(entity);
    let observes = observe_all(handles);
    let tag = seq![EffectView::AddBehaviour];
    assert(attach_effects(behaviours, entity) == ((torn + show) + observes) + tag);
    lemma_perform_all_concat(host, (torn + show) + observes, tag);
    lemma_perform_all_concat(host, torn + show, observes);
    lemma_perform_all_concat(host, torn, show);
    let cleared = host.perform_all(torn);
    if behaviours.contains_key(entity.id) {
        lemma_teardown(behaviours[entity.id], host);
    }
    if wants_show(entity) {
        lemma_perform_one(cleared, EffectView::Show(described(entity)));
    }
    let shown = cleared.perform_all(show);
    lemma_perform_observes(shown, observes);
    let subscribed = shown.perform_all(observes);
    lemma_perform_one(subscribed, EffectView::AddBehaviour);
    let after = host.perform_all(attach_effects(behaviours, entity));
    assert forall|i: int| 0 <= i < handles.len() implies after.subscriptions.contains(
        ((#[trigger] handles[i]).0.name(), handles[i].1),
    ) by {
        assert(observes[i] == EffectView::Observe { property: handles[i].0, handle_id: handles[i].1 });
    }
}

/// Once an entity's behaviour is detached, the entity has no behaviour, the
/// host holds none of the behaviour's subscriptions, and a value that is still
/// delivered for the entity reaches nothing and shows nothing.
pub proof fn lemma_detached_is_unreachable(
    behaviours: Behaviours,
    id: u128,
    property: DesktopNotificationProperties,
    value: PropertyValueView,
    host: Host,
)
    ensures
        !behaviours.remove(id).contains_key(id),
        after_delivery(behaviours.remove(id), id, property, value) == behaviours.remove(id),
        delivery_effect(behaviours.remove(id), id, property, value).is_none(),
        behaviours.contains_key(id) ==> forall|i: int|
            0 <= i < behaviours[id].property_handles.len() ==> !host.perform_all(
                teardown_of(behaviours, id),
            ).subscriptions.contains(
                ((#[trigger] behaviours[id].property_handles[i]).0.name(), behaviours[id].property_handles[i].1),
            ),
{
    if behaviours.contains_key(id) {
        lemma_teardown(behaviours[id], host);
    }
}

/// Detaching twice is detaching once: the second time finds no behaviour and
/// asks nothing of the host. A host that is asked again all the same has
/// nothing left to drop.
pub proof fn lemma_detach_is_idempotent(behaviours: Behaviours, id: u128, host: Host)
    ensures
        behaviours.remove(id).remove(id) == behaviours.remove(id),
        teardown_of(behaviours.remove(id), id) == Seq::<EffectView>::empty(),
        detach_effects(behaviours.remove(id), id) == Seq::<EffectView>::empty(),
        host.perform_all(teardown_of(behaviours, id)).perform_all(teardown_of(behaviours, id))
            == host.perform_all(teardown_of(behaviours, id)),
{
    assert(behaviours.remove(id).remove(id) =~= behaviours.remove(id));
    if behaviours.contains_key(id) {
        lemma_teardown(behaviours[id], host);
    }
}

/// Attaches desktop notifications to entities and detaches them again.
pub trait NotificationEntityBehaviourProvider {
    /// The attached behaviours.
    spec fn behaviours(&self) -> Behaviours;

    /// Attaches a behaviour to an entity and stores it under the entity's
    /// identifier, in place of a behaviour that was stored there. Where the
    /// entity has no `show` property this fails and changes nothing.
    fn create_desktop_notification(&mut self, entity_instance: EntityInstance) -> (attached: Result<
        Vec<Effect>,
        BehaviourCreationError,
    >)
        ensures
            attached is Ok <==> entity_instance@.has(DesktopNotificationProperties::SHOW.name()),
            final(self).behaviours() == after_attach(old(self).behaviours(), entity_instance@),
            attached matches Ok(effects) ==> views(effects@) == attach_effects(
                old(self).behaviours(),
                entity_instance@,
            ),
    ;

    /// Detaches the behaviour of an entity, tears it down and takes the tag
    /// off the entity. Without a behaviour nothing happens.
    fn remove_desktop_notification(&mut self, entity_instance: &EntityInstance) -> (effects: Vec<Effect>)
        ensures
            final(self).behaviours() == old(self).behaviours().remove(entity_instance@.id),
            views(effects@) == detach_effects(old(self).behaviours(), entity_instance@.id),
    ;

    /// Detaches the behaviour of the entity with this identifier and tears it
    /// down. Without a behaviour nothing happens.
    fn remove_by_id(&mut self, id: u128) -> (effects: Vec<Effect>)
        ensures
            final(self).behaviours() == old(self).behaviours().remove(id),
            views(effects@) == teardown_of(old(self).behaviours(), id),
    ;
}

/// The provider of the `desktop_notification` behaviour.
pub struct NotificationEntityBehaviourProviderImpl {
    desktop_notification: DesktopNotificationStorage,
}

impl NotificationEntityBehaviourProviderImpl {
    /// A provider without behaviours.
    pub fn new() -> (provider: Self)
        ensures
            provider.behaviours() == Behaviours::empty(),
    {
        Self { desktop_notification: create_desktop_notification_storage() }
    }

    /// Whether the entity with this identifier has a behaviour.
    pub fn contains(&self, id: u128) -> (found: bool)
        ensures
            found == self.behaviours().contains_key(id),
    {
        self.desktop_notification.0.contains_key(&id)
    }

    /// The behaviour of the entity with this identifier.
    pub fn get(&self, id: u128) -> (found: Option<&DesktopNotification>)
        ensures
            match found {
                Some(behaviour) => self.behaviours().contains_key(id) && self.behaviours()[id] == behaviour@,
                None => !self.behaviours().contains_key(id),
            },
    {
        self.desktop_notification.0.get(&id)
    }

    /// Hands a value that the host delivers on a property of an entity to the
    /// entity's behaviour. Without a behaviour the value goes nowhere.
    pub fn property_changed(
        &mut self,
        id: u128,
        property: DesktopNotificationProperties,
        value: &PropertyValue,
    ) -> (effect: Option<Effect>)
        ensures
            final(self).behaviours() == after_delivery(old(self).behaviours(), id, property, value@),
            match effect {
                Some(e) => delivery_effect(old(self).behaviours(), id, property, value@) == Some(e@),
                None => delivery_effect(old(self).behaviours(), id, property, value@).is_none(),
            },
    {
        match self.desktop_notification.0.remove(&id) {
            Some(behaviour) => {
                let mut behaviour = behaviour;
                let effect = behaviour.property_changed(property, value);
                self.desktop_notification.0.insert(id, behaviour);
                assert(final(self).behaviours() =~= after_delivery(
                    old(self).behaviours(),
                    id,
                    property,
                    value@,
                ));
                effect
            },
            None => {
                assert(final(self).behaviours() =~= old(self).behaviours());
                None
            },
        }
    }

    /// Attaches the behaviour to an entity of the `desktop_notification` type.
    /// An entity of another type is passed over.
    pub fn add_behaviours(&mut self, entity_instance: EntityInstance) -> (attached: Result<
        Vec<Effect>,
        BehaviourCreationError,
    >)
        ensures
            entity_instance@.entity_type == DESKTOP_NOTIFICATION@ ==> {
                &&& attached is Ok <==> entity_instance@.has(DesktopNotificationProperties::SHOW.name())
                &&& final(self).behaviours() == after_attach(old(self).behaviours(), entity_instance@)
                &&& attached matches Ok(effects) ==> views(effects@) == attach_effects(
                    old(self).behaviours(),
                    entity_instance@,
                )
            },
            entity_instance@.entity_type != DESKTOP_NOTIFICATION@ ==> {
                &&& final(self).behaviours() == old(self).behaviours()
                &&& attached matches Ok(effects) && effects@.len() == 0
            },
    {
        if str_eq(entity_instance.entity_type(), DESKTOP_NOTIFICATION) {
            self.create_desktop_notification(entity_instance)
        } else {
            Ok(Vec::new())
        }
    }

    /// Detaches the behaviour from an entity of the `desktop_notification`
    /// type. An entity of another type is passed over.
    pub fn remove_behaviours(&mut self, entity_instance: &EntityInstance) -> (effects: Vec<Effect>)
        ensures
            entity_instance@.entity_type == DESKTOP_NOTIFICATION@ ==> {
                &&& final(self).behaviours() == old(self).behaviours().remove(entity_instance@.id)
                &&& views(effects@) == detach_effects(old(self).behaviours(), entity_instance@.id)
            },
            entity_instance@.entity_type != DESKTOP_NOTIFICATION@ ==> {
                &&& final(self).behaviours() == old(self).behaviours()
                &&& effects@.len() == 0
            },
    {
        if str_eq(entity_instance.entity_type(), DESKTOP_NOTIFICATION) {
            self.remove_desktop_notification(entity_instance)
        } else {
            Vec::new()
        }
    }

    /// Detaches the behaviour of the entity with this identifier, whatever the
    /// entity's type.
    pub fn remove_behaviours_by_id(&mut self, id: u128) -> (effects: Vec<Effect>)
        ensures
            final(self).behaviours() == old(self).behaviours().remove(id),
            views(effects@) == teardown_of(old(self).behaviours(), id),
    {
        self.remove_by_id(id)
    }
}

impl NotificationEntityBehaviourProvider for NotificationEntityBehaviourProviderImpl {
    closed spec fn behaviours(&self) -> Behaviours {
        self.desktop_notification@
    }

    fn create_desktop_notification(&mut self, entity_instance: EntityInstance) -> (attached: Result<
        Vec<Effect>,
        BehaviourCreationError,
    >) {
        let id = entity_instance.id();
        match DesktopNotification::new(entity_instance) {
            Ok((behaviour, made)) => {
                let mut made = made;
                let ghost asked = views(made@);
                let mut effects = self.remove_by_id(id);
                let ghost torn = views(effects@);
                let ghost cleared = self.behaviours();
                effects.append(&mut made);
                effects.push(Effect::AddBehaviour);
                assert(views(effects@) == torn + asked + seq![EffectView::AddBehaviour]);
                self.desktop_notification.0.insert(id, behaviour);
                assert(self.behaviours() =~= cleared.insert(id, behaviour@));
                assert(cleared.insert(id, behaviour@) =~= after_attach(
                    old(self).behaviours(),
                    entity_instance@,
                ));
                Ok(effects)
            },
            Err(error) => Err(error),
        }
    }

    fn remove_desktop_notification(&mut self, entity_instance: &EntityInstance) -> (effects: Vec<Effect>) {
        if self.desktop_notification.0.contains_key(&entity_instance.id()) {
            let mut effects = self.remove_by_id(entity_instance.id());
            let ghost torn = views(effects@);
            effects.push(Effect::RemoveBehaviour);
            assert(views(effects@) == torn.push(EffectView::RemoveBehaviour));
            effects
        } else {
            assert(old(self).behaviours().remove(entity_instance@.id) =~= old(self).behaviours());
            Vec::new()
        }
    }

    fn remove_by_id(&mut self, id: u128) -> (effects: Vec<Effect>) {
        if self.desktop_notification.0.contains_key(&id) {
            match self.desktop_notification.0.remove(&id) {
                Some(behaviour) => {
                    let mut behaviour = behaviour;
                    assert(final(self).behaviours() =~= old(self).behaviours().remove(id));
                    behaviour.disconnect()
                },
                None => Vec::new(),
            }
        } else {
            assert(old(self).behaviours().remove(id) =~= old(self).behaviours());
            Vec::new()
        }
    }
}

} // verus!
