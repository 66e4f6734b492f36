//! What a behaviour asks of the host, and what the host makes of it.
//!
//! The library touches neither the entity graph nor the notification server.
//! Each of its operations hands back a list of effects, and the host performs
//! them in the order of the list.

use vstd::prelude::*;
use crate::desktop_notification_properties::DesktopNotificationProperties;
use crate::notification::Notification;
use crate::notification::NotificationView;

verus! {

/// One request to the host, about the entity that the operation was called for.
#[derive(Clone, Debug, PartialEq, Eq)]
pub enum Effect {
    /// Display this notification. A failure to do so is not reported back.
    Show(Notification),
    /// Subscribe to the changes of a property, under this handle: from now on
    /// the host delivers each new value of the property to the behaviour.
    Observe { property: DesktopNotificationProperties, handle_id: u128 },
    /// Drop every subscription that the property of this name holds under this
    /// handle. Nothing happens where the entity has no such property.
    Remove { property_name: String, handle_id: u128 },
    /// Tag the entity as carrying the behaviour.
    AddBehaviour,
    /// Take the tag off the entity.
    RemoveBehaviour,
}

/// An effect with its text as sequences of characters.
pub enum EffectView {
    Show(NotificationView),
    Observe { property: DesktopNotificationProperties, handle_id: u128 },
    Remove { property_name: Seq<char>, handle_id: u128 },
    AddBehaviour,
    RemoveBehaviour,
}

impl View for Effect {
    type V = EffectView;

    open spec fn view(&self) -> EffectView {
        match self {
            Effect::Show(notification) => EffectView::Show(notification@),
            Effect::Observe { property, handle_id } => EffectView::Observe {
                property: *property,
                handle_id: *handle_id,
            },
            Effect::Remove { property_name, handle_id } => EffectView::Remove {
                property_name: property_name@,
                handle_id: *handle_id,
            },
            Effect::AddBehaviour => EffectView::AddBehaviour,
            Effect::RemoveBehaviour => EffectView::RemoveBehaviour,
        }
    }
}

/// The views of a list of effects.
pub open spec fn views(effects: Seq<Effect>) -> Seq<EffectView> {
    effects.map_values(|effect: Effect| effect@)
}

/// What the host holds for one entity, as far as effects reach it: the
/// subscriptions on its properties, each a property's name with a handle; the
/// notifications displayed so far; and the behaviour's tag.
pub struct Host {
    pub subscriptions: Set<(Seq<char>, u128)>,
    pub shown: Seq<NotificationView>,
    pub tagged: bool,
}

impl Host {
    /// The host after one effect.
    pub open spec fn perform(self, effect: EffectView) -> Host {
        match effect {
            EffectView::Show(notification) => Host { shown: self.shown.push(notification), ..self },
            EffectView::Observe { property, handle_id } => Host {
                subscriptions: self.subscriptions.insert((property.name(), handle_id)),
                ..self
            },
            EffectView::Remove { property_name, handle_id } => Host {
                subscriptions: self.subscriptions.remove((property_name, handle_id)),
                ..self
            },
            EffectView::AddBehaviour => Host { tagged: true, ..self },
            EffectView::RemoveBehaviour => Host { tagged: false, ..self },
        }
    }

    /// The host after a list of effects, performed from first to last.
    pub open spec fn perform_all(self, effects: Seq<EffectView>) -> Host
        decreases effects.len(),
    {
        if effects.len() == 0 {
            self
        } else {
            self.perform_all(effects.drop_last()).perform(effects.last())
        }
    }
}

/// Performing a list of one effect is performing the effect.
pub proof fn lemma_perform_one(host: Host, effect: EffectView)
    ensures
        host.perform_all(seq![effect]) == host.perform(effect),
{
    reveal_with_fuel(Host::perform_all, 2);
    assert(seq![effect].drop_last() == Seq::<EffectView>::empty());
}

/// Performing one list after another is performing the two as one.
pub proof fn lemma_perform_all_concat(host: Host, first: Seq<EffectView>, second: Seq<EffectView>)
    ensures
        host.perform_all(first + second) == host.perform_all(first).perform_all(second),
    decreases second.len(),
{
    if second.len() == 0 {
        assert(first + second == first);
    } else {
        lemma_perform_all_concat(host, first, second.drop_last());
        assert((first + second).drop_last() == first + second.drop_last());
        assert((first + second).last() == second.last());
    }
}

/// A list without a `Show` displays nothing.
pub proof fn lemma_perform_without_show(host: Host, effects: Seq<EffectView>)
    requires
        forall|i: int| 0 <= i < effects.len() ==> !((#[trigger] effects[i]) is Show),
    ensures
        host.perform_all(effects).shown == host.shown,
    decreases effects.len(),
{
    if effects.len() > 0 {
        let front = effects.drop_last();
        assert forall|i: int| 0 <= i < front.len() implies !((#[trigger] front[i]) is Show) by {
            assert(front[i] == effects[i]);
        }
        lemma_perform_without_show(host, front);
        assert(!(effects[effects.len() - 1] is Show));
    }
}

/// A list of subscriptions adds the subscriptions it names and changes nothing
/// else.
pub proof fn lemma_perform_observes(host: Host, effects: Seq<EffectView>)
    requires
        forall|i: int| 0 <= i < effects.len() ==> (#[trigger] effects[i]) is Observe,
    ensures
        host.perform_all(effects).shown == host.shown,
        host.perform_all(effects).tagged == host.tagged,
        forall|i: int|
            0 <= i < effects.len() ==> host.perform_all(effects).subscriptions.contains(
                ((#[trigger] effects[i])->Observe_property.name(), effects[i]->Observe_handle_id),
            ),
        forall|pair: (Seq<char>, u128)|
            host.subscriptions.contains(pair) ==> host.perform_all(effects).subscriptions.contains(pair),
    decreases effects.len(),
{
    if effects.len() > 0 {
        let front = effects.drop_last();
        assert forall|i: int| 0 <= i < front.len() implies (#[trigger] front[i]) is Observe by {
            assert(front[i] == effects[i]);
        }
        lemma_perform_observes(host, front);
        let after = host.perform_all(effects);
        assert(effects[effects.len() - 1] is Observe);
        assert forall|i: int| 0 <= i < effects.len() implies after.subscriptions.contains(
            ((#[trigger] effects[i])->Observe_property.name(), effects[i]->Observe_handle_id),
        ) by {
            if i < front.len() {
                assert(front[i] == effects[i]);
            }
        }
    }
}

/// Whether every effect of a list is a `Remove`.
pub open spec fn only_removes(effects: Seq<EffectView>) -> bool {
    forall|i: int| 0 <= i < effects.len() ==> (#[trigger] effects[i]) is Remove
}

/// Whether a list asks to drop the subscription of this name and handle.
pub open spec fn removes(effects: Seq<EffectView>, property_name: Seq<char>, handle_id: u128) -> bool {
    effects.contains(EffectView::Remove { property_name, handle_id })
}

/// A list of removals takes away the subscriptions it names and changes nothing
/// else.
pub proof fn lemma_perform_removes(host: Host, effects: Seq<EffectView>)
    requires
        only_removes(effects),
    ensures
        host.perform_all(effects).shown == host.shown,
        host.perform_all(effects).tagged == host.tagged,
        forall|name: Seq<char>, handle_id: u128|
            #![trigger host.perform_all(effects).subscriptions.contains((name, handle_id))]
            host.perform_all(effects).subscriptions.contains((name, handle_id)) <==> (
            host.subscriptions.contains((name, handle_id)) && !removes(effects, name, handle_id)),
    decreases effects.len(),
{
    if effects.len() > 0 {
        let front = effects.drop_last();
        let last = effects.last();
        assert(only_removes(front)) by {
            assert forall|i: int| 0 <= i < front.len() implies (#[trigger] front[i]) is Remove by {
                assert(front[i] == effects[i]);
            }
        }
        lemma_perform_removes(host, front);
        let before = host.perform_all(front);
        let after = host.perform_all(effects);
        assert(last is Remove);
        assert forall|name: Seq<char>, handle_id: u128|
            #![trigger after.subscriptions.contains((name, handle_id))]
            after.subscriptions.contains((name, handle_id)) <==> (host.subscriptions.contains(
                (name, handle_id),
            ) && !removes(effects, name, handle_id)) by {
            let wanted = EffectView::Remove { property_name: name, handle_id };
            assert(before.subscriptions.contains((name, handle_id)) <==> (
            host.subscriptions.contains((name, handle_id)) && !removes(front, name, handle_id)));
            if removes(front, name, handle_id) {
                let i = choose|i: int| 0 <= i < front.len() && front[i] == wanted;
                assert(effects[i] == wanted);
            }
            if last == wanted {
                assert(effects[effects.len() - 1] == wanted);
            }
            if removes(effects, name, handle_id) {
                let i = choose|i: int| 0 <= i < effects.len() && effects[i] == wanted;
                if i < front.len() {
                    assert(front[i] == wanted);
                }
            }
        }
    }
}

/// Removals need not be asked for twice: a second round finds nothing left to
/// drop.
pub proof fn lemma_removal_is_idempotent(host: Host, effects: Seq<EffectView>)
    requires
        only_removes(effects),
    ensures
        host.perform_all(effects).perform_all(effects) == host.perform_all(effects),
{
    let once = host.perform_all(effects);
    let twice = once.perform_all(effects);
    lemma_perform_removes(host, effects);
    lemma_perform_removes(once, effects);
    assert forall|pair: (Seq<char>, u128)| once.subscriptions.contains(pair)
        == twice.subscriptions.contains(pair) by {
        let (name, handle_id) = pair;
        assert(once.subscriptions.contains((name, handle_id)) <==> (host.subscriptions.contains(
            (name, handle_id),
        ) && !removes(effects, name, handle_id)));
        assert(twice.subscriptions.contains((name, handle_id)) <==> (once.subscriptions.contains(
            (name, handle_id),
        ) && !removes(effects, name, handle_id)));
    }
    assert(once.subscriptions =~= twice.subscriptions);
}

} // verus!
