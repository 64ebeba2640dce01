//! The collision detector: which attacks land this tick.
//!
//! Every entity that exposes a hitbox is tested against every other entity
//! that exposes a hurtbox. Blockboxes are exposed but not consulted: a hit
//! that overlaps a hurtbox lands whether or not the victim blocks.

use vstd::prelude::*;
use crate::character::{CharacterView, Characters};
use crate::entity::{event_views, events_wf, Entity, EntityView};
use crate::event::{ContentError, ContentErrorView, EventView, GameEvent};
use crate::geometry::Rectbox;

verus! {

/// The entities as plain data, in order.
pub open spec fn entity_views(entities: Seq<Entity>) -> Seq<EntityView> {
    Seq::new(entities.len(), |i: int| entities[i]@)
}

/// The attack of `attacker` lands on `victim`: they are not the same
/// entity, and the hitbox of the one and the hurtbox of the other, each
/// moved to where its entity stands, overlap on both axes.
pub open spec fn lands(attacker: EntityView, victim: EntityView) -> bool {
    &&& attacker.uid != victim.uid
    &&& attacker.hitbox is Some
    &&& victim.hurtbox is Some
    &&& attacker.hitbox->0.spec_at(attacker.position).spec_overlaps(
        victim.hurtbox->0.spec_at(victim.position),
    )
}

/// The notification that tells `victim` of the attack of `attacker`, or
/// the fault in the attacker's data that keeps it from being made.
pub open spec fn hit_event(
    attacker: EntityView,
    victim: EntityView,
    roster: Map<Seq<char>, CharacterView>,
) -> Result<EventView, ContentErrorView> {
    let name = attacker.state.action_name();
    if !roster.contains_key(attacker.character) {
        Err(ContentErrorView::MissingCharacter { character: attacker.character })
    } else if !roster[attacker.character].actions.contains_key(name) {
        Err(ContentErrorView::MissingAction { character: attacker.character, action: name })
    } else {
        let action = roster[attacker.character].actions[name];
        match action.hit_action {
            None => Err(
                ContentErrorView::MissingHitAction { character: attacker.character, action: name },
            ),
            Some(reaction) => Ok(
                EventView::Hit {
                    uid: victim.uid,
                    direction: attacker.direction,
                    attack_action: name,
                    hit_action: reaction,
                    impulse: action.external_impulse,
                },
            ),
        }
    }
}

/// The notifications for the attacks of entity `i` on the first `n`
/// entities, in the order of the victims, or the first fault met.
pub open spec fn hits_of(
    entities: Seq<EntityView>,
    i: int,
    n: int,
    roster: Map<Seq<char>, CharacterView>,
) -> Result<Seq<EventView>, ContentErrorView>
    decreases n,
{
    if n <= 0 {
        Ok(Seq::empty())
    } else {
        match hits_of(entities, i, n - 1, roster) {
            Err(e) => Err(e),
            Ok(before) => if lands(entities[i], entities[n - 1]) {
                match hit_event(entities[i], entities[n - 1], roster) {
                    Ok(event) => Ok(before.push(event)),
                    Err(e) => Err(e),
                }
            } else {
                Ok(before)
            },
        }
    }
}

/// The notifications for the attacks of the first `m` entities on all
/// entities, in the order of the attackers, or the first fault met.
pub open spec fn hits_upto(
    entities: Seq<EntityView>,
    m: int,
    roster: Map<Seq<char>, CharacterView>,
) -> Result<Seq<EventView>, ContentErrorView>
    decreases m,
{
    if m <= 0 {
        Ok(Seq::empty())
    } else {
        match hits_upto(entities, m - 1, roster) {
            Err(e) => Err(e),
            Ok(before) => match hits_of(entities, m - 1, entities.len() as int, roster) {
                Ok(row) => Ok(before + row),
                Err(e) => Err(e),
            },
        }
    }
}

/// The notifications of one tick: one for each attack that lands.
pub open spec fn spec_detect(entities: Seq<EntityView>, roster: Map<Seq<char>, CharacterView>) -> Result<
    Seq<EventView>,
    ContentErrorView,
> {
    hits_upto(entities, entities.len() as int, roster)
}

/// What the detector answers, as plain data.
pub open spec fn detected_view(r: Result<Vec<GameEvent>, ContentError>) -> Result<
    Seq<EventView>,
    ContentErrorView,
> {
    match r {
        Ok(events) => Ok(event_views(events@)),
        Err(e) => Err(e@),
    }
}

/// Whether the attack of `attacker` lands on `victim`.
pub fn attack_lands(attacker: &Entity, victim: &Entity) -> (b: bool)
    ensures
        b == lands(attacker@, victim@),
{
    if attacker.uid.0 == victim.uid.0 {
        return false;
    }
    match (attacker.hitbox, victim.hurtbox) {
        (Some(hit), Some(hurt)) => {
            let hit_world = hit.at(attacker.position);
            let hurt_world = hurt.at(victim.position);
            hit_world.overlaps(&hurt_world)
        },
        _ => false,
    }
}

/// Makes the notification that tells `victim` of the attack of
/// `attacker`.
pub fn make_hit(attacker: &Entity, victim: &Entity, roster: &Characters) -> (r: Result<
    GameEvent,
    ContentError,
>)
    ensures
        match hit_event(attacker@, victim@, roster@) {
            Ok(event) => r matches Ok(made) && made@ == event && made@.wf(),
            Err(e) => r matches Err(x) && x@ == e,
        },
{
    let character = match roster.get(attacker.character.as_str()) {
        Some(c) => c,
        None => {
            return Err(ContentError::MissingCharacter { character: attacker.character.clone() });
        },
    };
    let name: String = attacker.state.action_name();
    let action = match character.action(name.as_str()) {
        Some(a) => a,
        None => {
            return Err(
                ContentError::MissingAction { character: attacker.character.clone(), action: name },
            );
        },
    };
    match action.hit_action() {
        None => Err(
            ContentError::MissingHitAction { character: attacker.character.clone(), action: name },
        ),
        Some(reaction) => Ok(
            GameEvent::Hit {
                uid: victim.uid,
                direction: attacker.direction,
                attack_action: name,
                hit_action: reaction.clone(),
                impulse: action.external_impulse(),
            },
        ),
    }
}

/// The collision phase: tests every attacker against every victim and
/// makes one notification for each attack that lands, attackers in order
/// and for each attacker the victims in order. A fault in the data of an
/// attacker whose attack lands is reported in place of the notifications.
pub fn detect_hits(entities: &Vec<Entity>, roster: &Characters) -> (r: Result<
    Vec<GameEvent>,
    ContentError,
>)
    ensures
        detected_view(r) == spec_detect(entity_views(entities@), roster@),
        r matches Ok(events) ==> events_wf(events@),
{
    let ghost views = entity_views(entities@);
    let mut events: Vec<GameEvent> = Vec::new();
    let mut i: usize = 0;
    assert(event_views(events@) =~= Seq::<EventView>::empty());
    while i < entities.len()
        invariant
            i <= entities.len(),
            views == entity_views(entities@),
            hits_upto(views, i as int, roster@) == Ok::<Seq<EventView>, ContentErrorView>(
                event_views(events@),
            ),
            events_wf(events@),
        decreases entities.len() - i,
    {
        let ghost before = event_views(events@);
        let ghost count = events@.len();
        let mut j: usize = 0;
        assert(event_views(events@) =~= before + Seq::<EventView>::empty());
        while j < entities.len()
            invariant
                i < entities.len(),
                j <= entities.len(),
                views == entity_views(entities@),
                hits_upto(views, i as int, roster@) == Ok::<Seq<EventView>, ContentErrorView>(
                    before,
                ),
                exists|row: Seq<EventView>|
                    hits_of(views, i as int, j as int, roster@) == Ok::<
                        Seq<EventView>,
                        ContentErrorView,
                    >(row) && event_views(events@) == before + row,
                events_wf(events@),
            decreases entities.len() - j,
        {
            let ghost row = choose|row: Seq<EventView>|
                hits_of(views, i as int, j as int, roster@) == Ok::<
                    Seq<EventView>,
                    ContentErrorView,
                >(row) && event_views(events@) == before + row;
            if attack_lands(&entities[i], &entities[j]) {
                match make_hit(&entities[i], &entities[j], roster) {
                    Ok(event) => {
                        let ghost made = event@;
                        let ghost old_events = events@;
                        events.push(event);
                        proof {
                            let earlier = event_views(old_events);
                            assert(earlier == before + row);
                            assert(event_views(events@) =~= earlier.push(made));
                            assert(earlier.push(made) =~= before + row.push(made));
                            assert(hits_of(views, i as int, j + 1, roster@) == Ok::<
                                Seq<EventView>,
                                ContentErrorView,
                            >(row.push(made)));
                            assert forall|k: int| 0 <= k < events@.len() implies (
                            #[trigger] events@[k])@.wf() by {
                                if k < old_events.len() {
                                    assert(events@[k] == old_events[k]);
                                }
                            }
                        }
                    },
                    Err(e) => {
                        proof {
                            assert(hits_of(views, i as int, j + 1, roster@) == Err::<
                                Seq<EventView>,
                                ContentErrorView,
                            >(e@));
                            lemma_fault_in_row(views, i as int, j + 1, roster@);
                            lemma_fault_in_rows(views, i + 1, roster@);
                        }
                        return Err(e);
                    },
                }
            } else {
                assert(hits_of(views, i as int, j + 1, roster@) == Ok::<
                    Seq<EventView>,
                    ContentErrorView,
                >(row));
            }
            j += 1;
        }
        i += 1;
    }
    Ok(events)
}

/// A fault met among the first `n` victims is the fault of the whole row.
pub proof fn lemma_fault_in_row(
    entities: Seq<EntityView>,
    i: int,
    n: int,
    roster: Map<Seq<char>, CharacterView>,
)
    requires
        0 <= n <= entities.len(),
        hits_of(entities, i, n, roster) is Err,
    ensures
        hits_of(entities, i, entities.len() as int, roster) == hits_of(entities, i, n, roster),
    decreases entities.len() - n,
{
    if n < entities.len() {
        assert(hits_of(entities, i, n + 1, roster) == hits_of(entities, i, n, roster));
        lemma_fault_in_row(entities, i, n + 1, roster);
    }
}

/// A fault met among the first `m` attackers is the fault of the whole
/// tick.
pub proof fn lemma_fault_in_rows(
    entities: Seq<EntityView>,
    m: int,
    roster: Map<Seq<char>, CharacterView>,
)
    requires
        0 <= m <= entities.len(),
        hits_upto(entities, m, roster) is Err,
    ensures
        spec_detect(entities, roster) == hits_upto(entities, m, roster),
    decreases entities.len() - m,
{
    if m < entities.len() {
        assert(hits_upto(entities, m + 1, roster) == hits_upto(entities, m, roster));
        lemma_fault_in_rows(entities, m + 1, roster);
    }
}

/// The victims among the first `n` entities on whom the attack of entity
/// `i` lands, each paired with `i`, in the order of the victims.
pub open spec fn pairs_of(entities: Seq<EntityView>, i: int, n: int) -> Seq<(int, int)>
    decreases n,
{
    if n <= 0 {
        Seq::empty()
    } else if lands(entities[i], entities[n - 1]) {
        pairs_of(entities, i, n - 1).push((i, n - 1))
    } else {
        pairs_of(entities, i, n - 1)
    }
}

/// The attacks of the first `m` entities that land, as pairs of attacker
/// and victim, in the order of the attackers.
pub open spec fn pairs_upto(entities: Seq<EntityView>, m: int) -> Seq<(int, int)>
    decreases m,
{
    if m <= 0 {
        Seq::empty()
    } else {
        pairs_upto(entities, m - 1) + pairs_of(entities, m - 1, entities.len() as int)
    }
}

/// Every attack that lands this tick, as a pair of the places of attacker
/// and victim.
pub open spec fn hit_pairs(entities: Seq<EntityView>) -> Seq<(int, int)> {
    pairs_upto(entities, entities.len() as int)
}

/// The first pair comes before the second: an earlier attacker, or the
/// same attacker and an earlier victim.
pub open spec fn pair_before(p: (int, int), q: (int, int)) -> bool {
    p.0 < q.0 || (p.0 == q.0 && p.1 < q.1)
}

/// The pairs of one attacker are exactly its landing attacks, each once.
pub proof fn lemma_pairs_of(entities: Seq<EntityView>, i: int, n: int)
    requires
        0 <= n <= entities.len(),
    ensures
        forall|k: int|
            0 <= k < pairs_of(entities, i, n).len() ==> {
                let p = #[trigger] pairs_of(entities, i, n)[k];
                p.0 == i && 0 <= p.1 < n && lands(entities[i], entities[p.1])
            },
        forall|k1: int, k2: int|
            0 <= k1 < k2 < pairs_of(entities, i, n).len() ==> pair_before(
                #[trigger] pairs_of(entities, i, n)[k1],
                #[trigger] pairs_of(entities, i, n)[k2],
            ),
        forall|b: int|
            0 <= b < n && #[trigger] lands(entities[i], entities[b]) ==> pairs_of(
                entities,
                i,
                n,
            ).contains((i, b)),
    decreases n,
{
    if n > 0 {
        lemma_pairs_of(entities, i, n - 1);
        let before = pairs_of(entities, i, n - 1);
        let now = pairs_of(entities, i, n);
        if lands(entities[i], entities[n - 1]) {
            assert(now == before.push((i, n - 1)));
            assert(now[before.len() as int] == (i, n - 1));
            assert forall|b: int|
                0 <= b < n && #[trigger] lands(entities[i], entities[b]) implies now.contains(
                (i, b),
            ) by {
                if b < n - 1 {
                    assert(before.contains((i, b)));
                    let k = choose|k: int| 0 <= k < before.len() && before[k] == (i, b);
                    assert(now[k] == (i, b));
                }
            }
        }
    }
}

/// The pairs of the first `m` attackers are exactly their landing attacks,
/// each once.
pub proof fn lemma_pairs_upto(entities: Seq<EntityView>, m: int)
    requires
        0 <= m <= entities.len(),
    ensures
        forall|k: int|
            0 <= k < pairs_upto(entities, m).len() ==> {
                let p = #[trigger] pairs_upto(entities, m)[k];
                0 <= p.0 < m && 0 <= p.1 < entities.len() && lands(entities[p.0], entities[p.1])
            },
        forall|k1: int, k2: int|
            0 <= k1 < k2 < pairs_upto(entities, m).len() ==> pair_before(
                #[trigger] pairs_upto(entities, m)[k1],
                #[trigger] pairs_upto(entities, m)[k2],
            ),
        forall|a: int, b: int|
            0 <= a < m && 0 <= b < entities.len() && #[trigger] lands(entities[a], entities[b])
                ==> pairs_upto(entities, m).contains((a, b)),
    decreases m,
{
    if m > 0 {
        lemma_pairs_upto(entities, m - 1);
        lemma_pairs_of(entities, m - 1, entities.len() as int);
        let before = pairs_upto(entities, m - 1);
        let row = pairs_of(entities, m - 1, entities.len() as int);
        let now = pairs_upto(entities, m);
        assert(now == before + row);
        assert forall|k: int| 0 <= k < now.len() implies ({
            let p = #[trigger] now[k];
            0 <= p.0 < m && 0 <= p.1 < entities.len() && lands(entities[p.0], entities[p.1])
        }) by {
            if k < before.len() {
                assert(now[k] == before[k]);
            } else {
                assert(now[k] == row[k - before.len()]);
            }
        }
        assert forall|k1: int, k2: int| 0 <= k1 < k2 < now.len() implies pair_before(
            #[trigger] now[k1],
            #[trigger] now[k2],
        ) by {
            if k2 < before.len() {
                assert(now[k1] == before[k1] && now[k2] == before[k2]);
            } else if k1 < before.len() {
                assert(now[k1] == before[k1]);
                assert(now[k2] == row[k2 - before.len()]);
            } else {
                assert(now[k1] == row[k1 - before.len()]);
                assert(now[k2] == row[k2 - before.len()]);
            }
        }
        assert forall|a: int, b: int|
            0 <= a < m && 0 <= b < entities.len() && #[trigger] lands(
                entities[a],
                entities[b],
            ) implies now.contains((a, b)) by {
            if a < m - 1 {
                assert(before.contains((a, b)));
                let k = choose|k: int| 0 <= k < before.len() && before[k] == (a, b);
                assert(now[k] == (a, b));
            } else {
                assert(row.contains((a, b)));
                let k = choose|k: int| 0 <= k < row.len() && row[k] == (a, b);
                assert(now[before.len() + k] == (a, b));
            }
        }
    }
}

/// The notifications of one attacker are those of its pairs, in order.
pub proof fn lemma_hits_of_pairs(
    entities: Seq<EntityView>,
    i: int,
    n: int,
    roster: Map<Seq<char>, CharacterView>,
)
    requires
        0 <= n <= entities.len(),
        hits_of(entities, i, n, roster) is Ok,
    ensures
        hits_of(entities, i, n, roster)->Ok_0.len() == pairs_of(entities, i, n).len(),
        forall|k: int|
            0 <= k < pairs_of(entities, i, n).len() ==> {
                let p = #[trigger] pairs_of(entities, i, n)[k];
                hit_event(entities[p.0], entities[p.1], roster) == Ok::<
                    EventView,
                    ContentErrorView,
                >(hits_of(entities, i, n, roster)->Ok_0[k])
            },
    decreases n,
{
    if n > 0 {
        lemma_hits_of_pairs(entities, i, n - 1, roster);
    }
}

/// The notifications of the first `m` attackers are those of their pairs,
/// in order.
pub proof fn lemma_hits_upto_pairs(
    entities: Seq<EntityView>,
    m: int,
    roster: Map<Seq<char>, CharacterView>,
)
    requires
        0 <= m <= entities.len(),
        hits_upto(entities, m, roster) is Ok,
    ensures
        hits_upto(entities, m, roster)->Ok_0.len() == pairs_upto(entities, m).len(),
        forall|k: int|
            0 <= k < pairs_upto(entities, m).len() ==> {
                let p = #[trigger] pairs_upto(entities, m)[k];
                hit_event(entities[p.0], entities[p.1], roster) == Ok::<
                    EventView,
                    ContentErrorView,
                >(hits_upto(entities, m, roster)->Ok_0[k])
            },
    decreases m,
{
    if m > 0 {
        lemma_hits_upto_pairs(entities, m - 1, roster);
        lemma_hits_of_pairs(entities, m - 1, entities.len() as int, roster);
        let before = pairs_upto(entities, m - 1);
        let row = pairs_of(entities, m - 1, entities.len() as int);
        let now = pairs_upto(entities, m);
        let events_before = hits_upto(entities, m - 1, roster)->Ok_0;
        let events_row = hits_of(entities, m - 1, entities.len() as int, roster)->Ok_0;
        let events = hits_upto(entities, m, roster)->Ok_0;
        assert(events == events_before + events_row);
        assert forall|k: int| 0 <= k < now.len() implies ({
            let p = #[trigger] now[k];
            hit_event(entities[p.0], entities[p.1], roster) == Ok::<EventView, ContentErrorView>(
                events[k],
            )
        }) by {
            if k < before.len() {
                assert(now[k] == before[k]);
                assert(events[k] == events_before[k]);
            } else {
                assert(now[k] == row[k - before.len()]);
                assert(events[k] == events_row[k - before.len()]);
            }
        }
    }
}

/// Where the detector finds no fault, its notifications and the attacks
/// that land match one for one: the notification at each place tells the
/// victim of the pair at that place of that pair's attack, every attack
/// that lands has a place among the pairs, and no pair has two.
pub proof fn lemma_one_hit_per_landing_attack(
    entities: Seq<EntityView>,
    roster: Map<Seq<char>, CharacterView>,
)
    requires
        spec_detect(entities, roster) is Ok,
    ensures
        spec_detect(entities, roster)->Ok_0.len() == hit_pairs(entities).len(),
        forall|k: int|
            0 <= k < hit_pairs(entities).len() ==> {
                let p = #[trigger] hit_pairs(entities)[k];
                let event = spec_detect(entities, roster)->Ok_0[k];
                &&& 0 <= p.0 < entities.len()
                &&& 0 <= p.1 < entities.len()
                &&& lands(entities[p.0], entities[p.1])
                &&& hit_event(entities[p.0], entities[p.1], roster) == Ok::<
                    EventView,
                    ContentErrorView,
                >(event)
                &&& event is Hit
                &&& event.target() == entities[p.1].uid
            },
        forall|a: int, b: int|
            0 <= a < entities.len() && 0 <= b < entities.len() && #[trigger] lands(
                entities[a],
                entities[b],
            ) ==> hit_pairs(entities).contains((a, b)),
        forall|k1: int, k2: int|
            0 <= k1 < k2 < hit_pairs(entities).len() ==> #[trigger] hit_pairs(entities)[k1]
                != #[trigger] hit_pairs(entities)[k2],
{
    let n = entities.len() as int;
    lemma_pairs_upto(entities, n);
    lemma_hits_upto_pairs(entities, n, roster);
    assert forall|k1: int, k2: int| 0 <= k1 < k2 < hit_pairs(entities).len() implies #[trigger]
        hit_pairs(entities)[k1] != #[trigger] hit_pairs(entities)[k2] by {
        assert(pair_before(hit_pairs(entities)[k1], hit_pairs(entities)[k2]));
    }
}

/// Blockboxes are not consulted: whatever blockbox the attacker or the
/// victim exposes, the same attack lands and the same notification is made.
pub proof fn lemma_blockbox_is_not_consulted(
    attacker: EntityView,
    victim: EntityView,
    attacker_block: Option<Rectbox>,
    victim_block: Option<Rectbox>,
    roster: Map<Seq<char>, CharacterView>,
)
    ensures
        lands(
            EntityView { blockbox: attacker_block, ..attacker },
            EntityView { blockbox: victim_block, ..victim },
        ) == lands(attacker, victim),
        hit_event(
            EntityView { blockbox: attacker_block, ..attacker },
            EntityView { blockbox: victim_block, ..victim },
            roster,
        ) == hit_event(attacker, victim, roster),
{
}

} // verus!
