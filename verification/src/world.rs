//! The phases of a tick over all entities, and the tick itself.

use vstd::prelude::*;
use crate::character::{CharacterView, Characters};
use crate::collision::{detect_hits, detected_view, entity_views, spec_detect};
use crate::entity::{event_views, events_wf, spec_apply_all, Entity, EntityView};
use crate::event::{ContentError, ContentErrorView, EventView, GameEvent};

verus! {

/// The state phase: every entity takes the notifications of the tick, in
/// order. Entities are served in order; the first fault stops the phase,
/// and the entities after the faulty one are left as they were.
pub open spec fn state_phase(
    entities: Seq<EntityView>,
    events: Seq<EventView>,
    roster: Map<Seq<char>, CharacterView>,
) -> (Seq<EntityView>, Option<ContentErrorView>)
    decreases entities.len(),
{
    if entities.len() == 0 {
        (entities, None)
    } else {
        let (before, fault) = state_phase(entities.drop_last(), events, roster);
        match fault {
            Some(e) => (before.push(entities.last()), Some(e)),
            None => {
                let (last, met) = spec_apply_all(entities.last(), events, roster);
                (before.push(last), met)
            },
        }
    }
}

/// The geometry phase: every entity exposes the rectangles of the frame it
/// shows. The first fault stops the phase, and the faulty entity and those
/// after it are left as they were.
pub open spec fn geometry_phase(entities: Seq<EntityView>, roster: Map<Seq<char>, CharacterView>) -> (
    Seq<EntityView>,
    Option<ContentErrorView>,
)
    decreases entities.len(),
{
    if entities.len() == 0 {
        (entities, None)
    } else {
        let (before, fault) = geometry_phase(entities.drop_last(), roster);
        match fault {
            Some(e) => (before.push(entities.last()), Some(e)),
            None => match entities.last().frame_on_show(roster) {
                Ok(frame) => (before.push(entities.last().exposing(frame)), None),
                Err(e) => (before.push(entities.last()), Some(e)),
            },
        }
    }
}

/// The clock phase: every entity's clock runs for `delta` nanoseconds, and
/// each sequence that ends now is told, in the order of the entities.
pub open spec fn clock_phase(entities: Seq<EntityView>, delta: u64) -> (
    Seq<EntityView>,
    Seq<EventView>,
)
    decreases entities.len(),
{
    if entities.len() == 0 {
        (entities, Seq::empty())
    } else {
        let (before, told) = clock_phase(entities.drop_last(), delta);
        let last = entities.last();
        (
            before.push(last.animated(delta)),
            if last.animation.spec_ends(delta) {
                told.push(EventView::Stop(last.uid))
            } else {
                told
            },
        )
    }
}

/// What a phase answers, as plain data.
pub open spec fn phase_view(r: Result<(), ContentError>) -> Option<ContentErrorView> {
    match r {
        Ok(_) => None,
        Err(e) => Some(e@),
    }
}

/// A phase that has met a fault among the first `n` entities leaves the
/// others as they were.
pub proof fn lemma_state_phase_stops(
    entities: Seq<EntityView>,
    events: Seq<EventView>,
    roster: Map<Seq<char>, CharacterView>,
    n: int,
)
    requires
        0 <= n <= entities.len(),
        state_phase(entities.take(n), events, roster).1 is Some,
    ensures
        state_phase(entities, events, roster) == (
            state_phase(entities.take(n), events, roster).0 + entities.skip(n),
            state_phase(entities.take(n), events, roster).1,
        ),
    decreases entities.len() - n,
{
    let reached = state_phase(entities.take(n), events, roster);
    if n == entities.len() {
        assert(entities.take(n) =~= entities);
        assert(reached.0 + entities.skip(n) =~= reached.0);
    } else {
        assert(entities.take(n + 1).drop_last() =~= entities.take(n));
        assert(entities.take(n + 1).last() == entities[n]);
        lemma_state_phase_stops(entities, events, roster, n + 1);
        assert(reached.0.push(entities[n]) + entities.skip(n + 1) =~= reached.0 + entities.skip(n));
    }
}

/// A phase that has met a fault among the first `n` entities leaves the
/// others as they were.
pub proof fn lemma_geometry_phase_stops(
    entities: Seq<EntityView>,
    roster: Map<Seq<char>, CharacterView>,
    n: int,
)
    requires
        0 <= n <= entities.len(),
        geometry_phase(entities.take(n), roster).1 is Some,
    ensures
        geometry_phase(entities, roster) == (
            geometry_phase(entities.take(n), roster).0 + entities.skip(n),
            geometry_phase(entities.take(n), roster).1,
        ),
    decreases entities.len() - n,
{
    let reached = geometry_phase(entities.take(n), roster);
    if n == entities.len() {
        assert(entities.take(n) =~= entities);
        assert(reached.0 + entities.skip(n) =~= reached.0);
    } else {
        assert(entities.take(n + 1).drop_last() =~= entities.take(n));
        assert(entities.take(n + 1).last() == entities[n]);
        lemma_geometry_phase_stops(entities, roster, n + 1);
        assert(reached.0.push(entities[n]) + entities.skip(n + 1) =~= reached.0 + entities.skip(n));
    }
}

/// A phase that serves the entity at place `i` changes that place alone:
/// the places before it stay as the phase left them, and the places after
/// it are still as they were at the start.
proof fn lemma_one_served(
    start: Seq<EntityView>,
    before: Seq<EntityView>,
    now: Seq<EntityView>,
    i: int,
)
    requires
        0 <= i < start.len(),
        before.len() == start.len(),
        before.skip(i) == start.skip(i),
        now == before.update(i, now[i]),
    ensures
        before[i] == start[i],
        start.take(i + 1).drop_last() == start.take(i),
        start.take(i + 1).last() == start[i],
        now.take(i + 1) == before.take(i).push(now[i]),
        now.skip(i + 1) == start.skip(i + 1),
        now == now.take(i + 1) + now.skip(i + 1),
{
    assert(before[i] == before.skip(i)[0]);
    assert(start[i] == start.skip(i)[0]);
    assert(start.take(i + 1).drop_last() =~= start.take(i));
    assert(now.take(i + 1) =~= before.take(i).push(now[i]));
    assert(now.skip(i + 1) =~= before.skip(i).skip(1));
    assert(start.skip(i + 1) =~= start.skip(i).skip(1));
    assert(now =~= now.take(i + 1) + now.skip(i + 1));
}

/// Runs the state phase over all entities.
pub fn run_state(entities: &mut Vec<Entity>, events: &Vec<GameEvent>, roster: &Characters) -> (r:
    Result<(), ContentError>)
    requires
        events_wf(events@),
    ensures
        entity_views(final(entities)@) == state_phase(
            entity_views(old(entities)@),
            event_views(events@),
            roster@,
        ).0,
        phase_view(r) == state_phase(
            entity_views(old(entities)@),
            event_views(events@),
            roster@,
        ).1,
{
    let ghost start = entity_views(entities@);
    let ghost told = event_views(events@);
    let mut i: usize = 0;
    assert(start.take(0) =~= Seq::<EntityView>::empty());
    assert(entity_views(entities@).take(0) =~= Seq::<EntityView>::empty());
    while i < entities.len()
        invariant
            i <= entities.len(),
            entities.len() == start.len(),
            events_wf(events@),
            told == event_views(events@),
            start == entity_views(old(entities)@),
            state_phase(start.take(i as int), told, roster@) == (
                entity_views(entities@).take(i as int),
                None::<ContentErrorView>,
            ),
            entity_views(entities@).skip(i as int) == start.skip(i as int),
        decreases entities.len() - i,
    {
        let ghost before = entity_views(entities@);
        let outcome = entities[i].apply_all(events, roster);
        proof {
            let now = entity_views(entities@);
            assert(now =~= before.update(i as int, now[i as int]));
            lemma_one_served(start, before, now, i as int);
        }
        match outcome {
            Ok(()) => {},
            Err(e) => {
                proof {
                    lemma_state_phase_stops(start, told, roster@, i + 1);
                }
                return Err(e);
            },
        }
        i += 1;
    }
    proof {
        assert(start.take(i as int) =~= start);
        assert(entity_views(entities@).take(i as int) =~= entity_views(entities@));
    }
    Ok(())
}

/// Runs the geometry phase over all entities.
pub fn run_geometry(entities: &mut Vec<Entity>, roster: &Characters) -> (r: Result<
    (),
    ContentError,
>)
    ensures
        entity_views(final(entities)@) == geometry_phase(entity_views(old(entities)@), roster@).0,
        phase_view(r) == geometry_phase(entity_views(old(entities)@), roster@).1,
{
    let ghost start = entity_views(entities@);
    let mut i: usize = 0;
    assert(start.take(0) =~= Seq::<EntityView>::empty());
    assert(entity_views(entities@).take(0) =~= Seq::<EntityView>::empty());
    while i < entities.len()
        invariant
            i <= entities.len(),
            entities.len() == start.len(),
            start == entity_views(old(entities)@),
            geometry_phase(start.take(i as int), roster@) == (
                entity_views(entities@).take(i as int),
                None::<ContentErrorView>,
            ),
            entity_views(entities@).skip(i as int) == start.skip(i as int),
        decreases entities.len() - i,
    {
        let ghost before = entity_views(entities@);
        let outcome = entities[i].resolve(roster);
        proof {
            let now = entity_views(entities@);
            assert(now =~= before.update(i as int, now[i as int]));
            lemma_one_served(start, before, now, i as int);
        }
        match outcome {
            Ok(()) => {},
            Err(e) => {
                proof {
                    lemma_geometry_phase_stops(start, roster@, i + 1);
                }
                return Err(e);
            },
        }
        i += 1;
    }
    proof {
        assert(start.take(i as int) =~= start);
        assert(entity_views(entities@).take(i as int) =~= entity_views(entities@));
    }
    Ok(())
}

/// Runs the clock phase over all entities and hands out the notifications
/// of the sequences that end now.
pub fn run_clock(entities: &mut Vec<Entity>, delta: u64) -> (told: Vec<GameEvent>)
    ensures
        entity_views(final(entities)@) == clock_phase(entity_views(old(entities)@), delta).0,
        event_views(told@) == clock_phase(entity_views(old(entities)@), delta).1,
        events_wf(told@),
{
    let ghost start = entity_views(entities@);
    let mut told: Vec<GameEvent> = Vec::new();
    let mut i: usize = 0;
    assert(start.take(0) =~= Seq::<EntityView>::empty());
    assert(entity_views(entities@).take(0) =~= Seq::<EntityView>::empty());
    assert(event_views(told@) =~= Seq::<EventView>::empty());
    while i < entities.len()
        invariant
            i <= entities.len(),
            entities.len() == start.len(),
            start == entity_views(old(entities)@),
            clock_phase(start.take(i as int), delta) == (
                entity_views(entities@).take(i as int),
                event_views(told@),
            ),
            entity_views(entities@).skip(i as int) == start.skip(i as int),
            events_wf(told@),
        decreases entities.len() - i,
    {
        let ghost before = entity_views(entities@);
        let ghost told_before = told@;
        let ended = entities[i].animate(delta);
        match ended {
            Some(event) => {
                told.push(event);
                proof {
                    assert(event_views(told@) =~= event_views(told_before).push(
                        EventView::Stop(start[i as int].uid),
                    )) by {
                        assert(before[i as int] == before.skip(i as int)[0]);
                        assert(start[i as int] == start.skip(i as int)[0]);
                    }
                    assert forall|k: int| 0 <= k < told@.len() implies (#[trigger] told@[k])@.wf() by {
                        if k < told_before.len() {
                            assert(told@[k] == told_before[k]);
                        }
                    }
                }
            },
            None => {},
        }
        proof {
            let now = entity_views(entities@);
            assert(now =~= before.update(i as int, now[i as int]));
            lemma_one_served(start, before, now, i as int);
        }
        i += 1;
    }
    proof {
        assert(start.take(i as int) =~= start);
        assert(entity_views(entities@).take(i as int) =~= entity_views(entities@));
    }
    told
}

/// One tick: the state phase with the notifications of the last tick, then
/// geometry, collision and clock, in that order. It answers with the
/// notifications for the next tick, the hits before the ended sequences,
/// or with the first fault, which stops the tick where it is met.
pub open spec fn spec_tick(
    entities: Seq<EntityView>,
    events: Seq<EventView>,
    roster: Map<Seq<char>, CharacterView>,
    delta: u64,
) -> (Seq<EntityView>, Result<Seq<EventView>, ContentErrorView>) {
    let (decided, fault) = state_phase(entities, events, roster);
    match fault {
        Some(e) => (decided, Err(e)),
        None => {
            let (exposed, fault) = geometry_phase(decided, roster);
            match fault {
                Some(e) => (exposed, Err(e)),
                None => match spec_detect(exposed, roster) {
                    Err(e) => (exposed, Err(e)),
                    Ok(hits) => {
                        let (advanced, stops) = clock_phase(exposed, delta);
                        (advanced, Ok(hits + stops))
                    },
                },
            }
        },
    }
}

/// Runs one tick over all entities: `events` are the notifications that
/// the last tick and the player have made, and `delta` is the time that has
/// passed, in nanoseconds.
pub fn tick(
    entities: &mut Vec<Entity>,
    events: &Vec<GameEvent>,
    roster: &Characters,
    delta: u64,
) -> (r: Result<Vec<GameEvent>, ContentError>)
    requires
        events_wf(events@),
    ensures
        entity_views(final(entities)@) == spec_tick(
            entity_views(old(entities)@),
            event_views(events@),
            roster@,
            delta,
        ).0,
        detected_view(r) == spec_tick(
            entity_views(old(entities)@),
            event_views(events@),
            roster@,
            delta,
        ).1,
        r matches Ok(next) ==> events_wf(next@),
{
    match run_state(entities, events, roster) {
        Ok(()) => {},
        Err(e) => {
            return Err(e);
        },
    }
    match run_geometry(entities, roster) {
        Ok(()) => {},
        Err(e) => {
            return Err(e);
        },
    }
    let mut next: Vec<GameEvent> = match detect_hits(entities, roster) {
        Ok(hits) => hits,
        Err(e) => {
            return Err(e);
        },
    };
    let mut stops: Vec<GameEvent> = run_clock(entities, delta);
    let ghost hits = next@;
    let ghost ended = stops@;
    next.append(&mut stops);
    proof {
        assert(next@ == hits + ended);
        assert(event_views(next@) =~= event_views(hits) + event_views(ended));
        assert forall|k: int| 0 <= k < next@.len() implies (#[trigger] next@[k])@.wf() by {
            if k < hits.len() {
                assert(next@[k] == hits[k]);
            } else {
                assert(next@[k] == ended[k - hits.len()]);
            }
        }
    }
    Ok(next)
}

} // verus!
