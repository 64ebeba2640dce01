//! One live character: its record, and what each phase of a tick does to
//! it.

use vstd::prelude::*;
use crate::action::ActionFrame;
use crate::character::{CharacterView, Characters};
use crate::clock::Animation;
use crate::event::{
    CharacterState,
    ContentError,
    ContentErrorView,
    EventView,
    GameEvent,
    StateView,
    UID,
};
use crate::geometry::{Direction, Rectbox, Vec2};
use crate::resolve::{expose, mirrored_box, Exposure};
use crate::state::{play_directive, play_of, spec_step, step, Transition, TransitionView};

verus! {

/// A live character. The rectangles are those of the frame that was on
/// show when the geometry was last resolved.
#[derive(Debug, PartialEq, Eq)]
pub struct Entity {
    pub uid: UID,
    /// The name of the character whose actions the entity plays.
    pub character: String,
    pub state: CharacterState,
    pub direction: Direction,
    /// Where the entity's anchor stands in the world.
    pub position: Vec2,
    pub velocity: Vec2,
    pub animation: Animation,
    pub hurtbox: Option<Rectbox>,
    pub hitbox: Option<Rectbox>,
    pub blockbox: Option<Rectbox>,
    /// The impulse that the entity has received and its body has not yet
    /// taken.
    pub impulse: Option<Vec2>,
}

pub struct EntityView {
    pub uid: UID,
    pub character: Seq<char>,
    pub state: StateView,
    pub direction: Direction,
    pub position: Vec2,
    pub velocity: Vec2,
    pub animation: Animation,
    pub hurtbox: Option<Rectbox>,
    pub hitbox: Option<Rectbox>,
    pub blockbox: Option<Rectbox>,
    pub impulse: Option<Vec2>,
}

impl View for Entity {
    type V = EntityView;

    open spec fn view(&self) -> EntityView {
        EntityView {
            uid: self.uid,
            character: self.character@,
            state: self.state@,
            direction: self.direction,
            position: self.position,
            velocity: self.velocity,
            animation: self.animation,
            hurtbox: self.hurtbox,
            hitbox: self.hitbox,
            blockbox: self.blockbox,
            impulse: self.impulse,
        }
    }
}

impl Clone for Entity {
    fn clone(&self) -> (r: Entity)
        ensures
            r@ == self@,
    {
        Entity {
            uid: self.uid,
            character: self.character.clone(),
            state: self.state.clone(),
            direction: self.direction,
            position: self.position,
            velocity: self.velocity,
            animation: self.animation,
            hurtbox: self.hurtbox,
            hitbox: self.hitbox,
            blockbox: self.blockbox,
            impulse: self.impulse,
        }
    }
}

/// What an entity-level phase answers, as plain data.
pub open spec fn done_view(r: Result<(), ContentError>) -> Option<ContentErrorView> {
    match r {
        Ok(_) => None,
        Err(e) => Some(e@),
    }
}

impl EntityView {
    /// The entity after a transition: what the transition leaves open stays
    /// as it was, and an action that is to be played starts at its first
    /// frame with a fresh clock.
    pub open spec fn after(self, t: TransitionView) -> EntityView {
        EntityView {
            state: t.state,
            direction: match t.facing {
                Some(d) => d,
                None => self.direction,
            },
            velocity: match t.velocity {
                Some(v) => v,
                None => self.velocity,
            },
            animation: match t.play {
                Some(p) => Animation::spec_start(p),
                None => self.animation,
            },
            impulse: match t.impulse {
                Some(v) => Some(v),
                None => self.impulse,
            },
            ..self
        }
    }

    /// The entity after the notification `event`, or the fault that the
    /// notification brings to light. A notification addressed to another
    /// entity changes nothing and looks nothing up.
    pub open spec fn spec_apply(self, event: EventView, roster: Map<Seq<char>, CharacterView>) -> Result<
        EntityView,
        ContentErrorView,
    > {
        if event.target() != self.uid {
            Ok(self)
        } else if !roster.contains_key(self.character) {
            Err(ContentErrorView::MissingCharacter { character: self.character })
        } else {
            match spec_step(
                self.state,
                self.direction,
                self.animation.index as int,
                self.uid,
                event,
                roster[self.character],
            ) {
                Ok(t) => Ok(self.after(t)),
                Err(e) => Err(e),
            }
        }
    }

    /// The frame that the entity shows, or the fault that keeps it from
    /// showing one.
    pub open spec fn frame_on_show(self, roster: Map<Seq<char>, CharacterView>) -> Result<
        ActionFrame,
        ContentErrorView,
    > {
        let name = self.state.action_name();
        if !roster.contains_key(self.character) {
            Err(ContentErrorView::MissingCharacter { character: self.character })
        } else if !roster[self.character].actions.contains_key(name) {
            Err(ContentErrorView::MissingAction { character: self.character, action: name })
        } else if self.animation.index >= roster[self.character].actions[name].frames.len() {
            Err(
                ContentErrorView::FrameOutOfRange {
                    character: self.character,
                    action: name,
                    index: self.animation.index as int,
                },
            )
        } else {
            Ok(roster[self.character].actions[name].frames[self.animation.index as int])
        }
    }

    /// The entity with the rectangles of `frame`, mirrored to the side it
    /// faces. A rectangle that the frame lacks is taken off the entity.
    pub open spec fn exposing(self, frame: ActionFrame) -> EntityView {
        EntityView {
            hurtbox: Some(frame.hurtbox.spec_mirror(self.direction)),
            hitbox: mirrored_box(frame.hitbox, self.direction),
            blockbox: mirrored_box(frame.blockbox, self.direction),
            ..self
        }
    }

    /// The entity after its clock has run for `delta` nanoseconds.
    pub open spec fn animated(self, delta: u64) -> EntityView {
        EntityView { animation: self.animation.spec_advance(delta), ..self }
    }
}

/// The notifications as plain data, in order.
pub open spec fn event_views(events: Seq<GameEvent>) -> Seq<EventView> {
    Seq::new(events.len(), |i: int| events[i]@)
}

/// Every notification may be handed to the state machine.
pub open spec fn events_wf(events: Seq<GameEvent>) -> bool {
    forall|i: int| 0 <= i < events.len() ==> (#[trigger] events[i])@.wf()
}

/// The entity after the notifications `events`, taken in order, and the
/// fault that stopped the run, if one did: the entity is then as the
/// notifications before the faulty one left it.
pub open spec fn spec_apply_all(
    entity: EntityView,
    events: Seq<EventView>,
    roster: Map<Seq<char>, CharacterView>,
) -> (EntityView, Option<ContentErrorView>)
    decreases events.len(),
{
    if events.len() == 0 {
        (entity, None)
    } else {
        let (reached, fault) = spec_apply_all(entity, events.drop_last(), roster);
        match fault {
            Some(e) => (reached, Some(e)),
            None => match reached.spec_apply(events.last(), roster) {
                Ok(next) => (next, None),
                Err(e) => (reached, Some(e)),
            },
        }
    }
}

impl Entity {
    /// A character that has just come into the world: idle, facing left,
    /// at rest, showing the first frame of its idle action over and over.
    pub fn spawn(uid: UID, character: &str, position: Vec2, roster: &Characters) -> (r: Result<
        Entity,
        ContentError,
    >)
        ensures
            match r {
                Ok(e) => {
                    &&& roster@.contains_key(character@)
                    &&& roster@[character@].actions.contains_key("idle"@)
                    &&& e@ == EntityView {
                        uid: uid,
                        character: character@,
                        state: StateView::Idle,
                        direction: Direction::Left,
                        position: position,
                        velocity: Vec2 { x: 0, y: 0 },
                        animation: Animation {
                            repeat: true,
                            ..Animation::spec_start(
                                play_of(roster@[character@].actions["idle"@]),
                            )
                        },
                        hurtbox: None,
                        hitbox: None,
                        blockbox: None,
                        impulse: None,
                    }
                },
                Err(e) => {
                    if !roster@.contains_key(character@) {
                        e@ == ContentErrorView::MissingCharacter { character: character@ }
                    } else {
                        &&& !roster@[character@].actions.contains_key("idle"@)
                        &&& e@ == ContentErrorView::MissingAction {
                            character: character@,
                            action: "idle"@,
                        }
                    }
                },
            },
    {
        let found = match roster.get(character) {
            Some(c) => c,
            None => {
                return Err(ContentError::MissingCharacter { character: character.to_owned() });
            },
        };
        let idle = match found.action("idle") {
            Some(a) => a,
            None => {
                return Err(
                    ContentError::MissingAction {
                        character: character.to_owned(),
                        action: "idle".to_owned(),
                    },
                );
            },
        };
        let play = play_directive(idle);
        let mut animation: Animation = Animation::start(&play);
        animation.repeat = true;
        Ok(
            Entity {
                uid,
                character: character.to_owned(),
                state: CharacterState::Idle,
                direction: Direction::Left,
                position,
                velocity: Vec2 { x: 0, y: 0 },
                animation,
                hurtbox: None,
                hitbox: None,
                blockbox: None,
                impulse: None,
            },
        )
    }

    /// Puts a transition into effect.
    pub fn take(&mut self, transition: Transition)
        ensures
            final(self)@ == old(self)@.after(transition@),
    {
        let Transition { state, play, facing, velocity, impulse } = transition;
        self.state = state;
        if let Some(d) = facing {
            self.direction = d;
        }
        if let Some(v) = velocity {
            self.velocity = v;
        }
        if let Some(p) = play {
            self.animation = Animation::start(&p);
        }
        if let Some(v) = impulse {
            self.impulse = Some(v);
        }
    }

    /// The state phase for one notification. On a fault the entity is left
    /// as it was.
    pub fn apply(&mut self, event: &GameEvent, roster: &Characters) -> (r: Result<(), ContentError>)
        requires
            event@.wf(),
        ensures
            match old(self)@.spec_apply(event@, roster@) {
                Ok(next) => r is Ok && final(self)@ == next,
                Err(e) => r matches Err(x) && x@ == e && final(self)@ == old(self)@,
            },
    {
        if event.target().0 != self.uid.0 {
            return Ok(());
        }
        let character = match roster.get(self.character.as_str()) {
            Some(c) => c,
            None => {
                return Err(ContentError::MissingCharacter { character: self.character.clone() });
            },
        };
        match step(&self.state, self.direction, self.animation.index, self.uid, event, character) {
            Ok(transition) => {
                self.take(transition);
                Ok(())
            },
            Err(e) => Err(e),
        }
    }

    /// The state phase for the notifications of one tick, in order. The
    /// first fault stops the run, and the entity is left as the
    /// notifications before it made it.
    pub fn apply_all(&mut self, events: &Vec<GameEvent>, roster: &Characters) -> (r: Result<
        (),
        ContentError,
    >)
        requires
            events_wf(events@),
        ensures
            final(self)@ == spec_apply_all(old(self)@, event_views(events@), roster@).0,
            done_view(r) == spec_apply_all(old(self)@, event_views(events@), roster@).1,
    {
        let ghost all = event_views(events@);
        let ghost start = self@;
        let mut i: usize = 0;
        assert(all.take(0) =~= Seq::<EventView>::empty());
        while i < events.len()
            invariant
                i <= events.len(),
                events_wf(events@),
                all == event_views(events@),
                start == old(self)@,
                spec_apply_all(start, all.take(i as int), roster@) == (self@, None::<ContentErrorView>),
            decreases events.len() - i,
        {
            let ghost before = self@;
            proof {
                assert(all.take(i + 1).drop_last() =~= all.take(i as int));
                assert(all.take(i + 1).last() == events@[i as int]@);
            }
            match self.apply(&events[i], roster) {
                Ok(()) => {},
                Err(e) => {
                    proof {
                        lemma_fault_stops_run(start, all, i + 1, roster@);
                    }
                    return Err(e);
                },
            }
            i += 1;
        }
        assert(all.take(events.len() as int) =~= all);
        Ok(())
    }

    /// The geometry phase: the entity exposes the rectangles of the frame
    /// it shows, mirrored to the side it faces. On a fault the entity is
    /// left as it was.
    pub fn resolve(&mut self, roster: &Characters) -> (r: Result<(), ContentError>)
        ensures
            match old(self)@.frame_on_show(roster@) {
                Ok(frame) => r is Ok && final(self)@ == old(self)@.exposing(frame),
                Err(e) => r matches Err(x) && x@ == e && final(self)@ == old(self)@,
            },
    {
        let character = match roster.get(self.character.as_str()) {
            Some(c) => c,
            None => {
                return Err(ContentError::MissingCharacter { character: self.character.clone() });
            },
        };
        let name: String = self.state.action_name();
        let action = match character.action(name.as_str()) {
            Some(a) => a,
            None => {
                return Err(
                    ContentError::MissingAction { character: self.character.clone(), action: name },
                );
            },
        };
        let frame: ActionFrame = match action.frame(self.animation.index) {
            Some(f) => f,
            None => {
                return Err(
                    ContentError::FrameOutOfRange {
                        character: self.character.clone(),
                        action: name,
                        index: self.animation.index,
                    },
                );
            },
        };
        let exposure: Exposure = expose(&frame, self.direction);
        self.hurtbox = Some(exposure.hurtbox);
        self.hitbox = exposure.hitbox;
        self.blockbox = exposure.blockbox;
        Ok(())
    }

    /// The clock phase: lets `delta` nanoseconds pass. The notification
    /// that the sequence has ended is handed out once, at the tick in which
    /// the last frame of an action that plays once has had its time.
    pub fn animate(&mut self, delta: u64) -> (r: Option<GameEvent>)
        ensures
            final(self)@ == old(self)@.animated(delta),
            match r {
                Some(e) => old(self).animation.spec_ends(delta) && e@ == EventView::Stop(
                    old(self).uid,
                ),
                None => !old(self).animation.spec_ends(delta),
            },
    {
        let mut animation: Animation = self.animation;
        let ended: bool = animation.advance(delta);
        self.animation = animation;
        if ended {
            Some(GameEvent::Stop(self.uid))
        } else {
            None
        }
    }
}

/// Once a run of notifications has met a fault, more notifications change
/// neither the entity nor the fault.
pub proof fn lemma_fault_stops_run(
    entity: EntityView,
    events: Seq<EventView>,
    n: int,
    roster: Map<Seq<char>, CharacterView>,
)
    requires
        0 <= n <= events.len(),
        spec_apply_all(entity, events.take(n), roster).1 is Some,
    ensures
        spec_apply_all(entity, events, roster) == spec_apply_all(entity, events.take(n), roster),
    decreases events.len(),
{
    if n == events.len() {
        assert(events.take(n) =~= events);
    } else {
        assert(events.drop_last().take(n) =~= events.take(n));
        lemma_fault_stops_run(entity, events.drop_last(), n, roster);
    }
}

/// An idle entity that is told to attack goes into the attack and shows
/// its first frame, whatever frame it showed before.
pub proof fn lemma_attack_restarts_animation(
    entity: EntityView,
    name: Seq<char>,
    roster: Map<Seq<char>, CharacterView>,
)
    requires
        entity.state is Idle,
        roster.contains_key(entity.character),
        roster[entity.character].actions.contains_key(name),
    ensures
        entity.spec_apply(EventView::Action(entity.uid, name), roster) matches Ok(next)
            && next.state == StateView::Action(name) && next.animation.index == 0
            && next.animation.elapsed == 0,
{
}

} // verus!
