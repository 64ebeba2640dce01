//! The intents of one tick: from what the player holds to notifications.

use vstd::prelude::*;
use crate::character::names_of;
use crate::entity::{event_views, events_wf};
use crate::event::{EventView, GameEvent, UID};

verus! {

/// The movement that is asked for: left wins where both sides are held.
pub open spec fn movement_intent(owner: UID, left: bool, right: bool) -> Seq<EventView> {
    if left {
        seq![EventView::Left(owner)]
    } else if right {
        seq![EventView::Right(owner)]
    } else {
        Seq::empty()
    }
}

/// One attack intent for each attack that is asked for, in order.
pub open spec fn attack_intents(owner: UID, attacks: Seq<Seq<char>>) -> Seq<EventView> {
    Seq::new(attacks.len(), |i: int| EventView::Action(owner, attacks[i]))
}

/// The notifications that the held inputs make for `owner`: the movement,
/// then the attacks, and where nothing is held the one notification that
/// says so.
pub open spec fn spec_intents(owner: UID, left: bool, right: bool, attacks: Seq<Seq<char>>) -> Seq<
    EventView,
> {
    let held = movement_intent(owner, left, right) + attack_intents(owner, attacks);
    if held.len() == 0 {
        seq![EventView::Idle(owner)]
    } else {
        held
    }
}

/// Turns what the player holds into the notifications of this tick for the
/// entity `owner`. `attacks` names the attacks whose inputs are held.
pub fn intents(owner: UID, left: bool, right: bool, attacks: &Vec<String>) -> (events: Vec<GameEvent>)
    ensures
        event_views(events@) == spec_intents(
            owner,
            left,
            right,
            names_of(attacks@),
        ),
        events_wf(events@),
        events@.len() > 0,
{
    let ghost names = names_of(attacks@);
    let mut events: Vec<GameEvent> = Vec::new();
    if left {
        events.push(GameEvent::Left(owner));
    } else if right {
        events.push(GameEvent::Right(owner));
    }
    let ghost moved = event_views(events@);
    assert(moved =~= movement_intent(owner, left, right));
    let mut i: usize = 0;
    while i < attacks.len()
        invariant
            i <= attacks.len(),
            names == names_of(attacks@),
            moved == movement_intent(owner, left, right),
            event_views(events@) =~= moved + attack_intents(owner, names.take(i as int)),
            events_wf(events@),
        decreases attacks.len() - i,
    {
        let ghost before = events@;
        events.push(GameEvent::Action(owner, attacks[i].clone()));
        proof {
            assert(names.take(i + 1) =~= names.take(i as int).push(names[i as int]));
            assert(event_views(events@) =~= event_views(before).push(
                EventView::Action(owner, names[i as int]),
            ));
            assert(attack_intents(owner, names.take(i + 1)) =~= attack_intents(
                owner,
                names.take(i as int),
            ).push(EventView::Action(owner, names[i as int])));
            assert forall|k: int| 0 <= k < events@.len() implies (#[trigger] events@[k])@.wf() by {
                if k < before.len() {
                    assert(events@[k] == before[k]);
                }
            }
        }
        i += 1;
    }
    assert(names.take(attacks.len() as int) =~= names);
    if events.len() == 0 {
        events.push(GameEvent::Idle(owner));
        assert(event_views(events@) =~= seq![EventView::Idle(owner)]);
    }
    events
}

} // verus!
