//! The state machine: what one notification does to one entity.

use vstd::prelude::*;
use vstd::string::*;
use crate::action::{Action, ActionStage, ActionView};
use crate::character::{Character, CharacterView};
use crate::event::{
    CharacterState,
    ContentError,
    ContentErrorView,
    EventView,
    GameEvent,
    StateView,
    UID,
};
use crate::geometry::{Direction, Vec2};

verus! {

/// The lateral speed of a walking entity, in length units per second.
pub const WALK_SPEED: i32 = 200;

/// The order to show an action from its first frame.
#[derive(Debug, PartialEq, Eq)]
pub struct PlayDirective {
    pub action_name: String,
    pub frame_count: usize,
    pub repeat: bool,
    /// Nanoseconds that each frame stays on show.
    pub frame_duration: u64,
}

pub struct PlayView {
    pub action_name: Seq<char>,
    pub frame_count: nat,
    pub repeat: bool,
    pub frame_duration: int,
}

impl View for PlayDirective {
    type V = PlayView;

    open spec fn view(&self) -> PlayView {
        PlayView {
            action_name: self.action_name@,
            frame_count: self.frame_count as nat,
            repeat: self.repeat,
            frame_duration: self.frame_duration as int,
        }
    }
}

/// What a notification does to an entity. A field that is `None` leaves
/// its part of the entity as it was.
#[derive(Debug, PartialEq, Eq)]
pub struct Transition {
    /// The state after the notification.
    pub state: CharacterState,
    /// The action to show from its first frame.
    pub play: Option<PlayDirective>,
    /// The side to face.
    pub facing: Option<Direction>,
    /// The velocity to take on.
    pub velocity: Option<Vec2>,
    /// The impulse to receive once, already mirrored.
    pub impulse: Option<Vec2>,
}

pub struct TransitionView {
    pub state: StateView,
    pub play: Option<PlayView>,
    pub facing: Option<Direction>,
    pub velocity: Option<Vec2>,
    pub impulse: Option<Vec2>,
}

/// The order behind an optional directive.
pub open spec fn play_view(p: Option<PlayDirective>) -> Option<PlayView> {
    match p {
        Some(d) => Some(d@),
        None => None,
    }
}

impl View for Transition {
    type V = TransitionView;

    open spec fn view(&self) -> TransitionView {
        TransitionView {
            state: self.state@,
            play: play_view(self.play),
            facing: self.facing,
            velocity: self.velocity,
            impulse: self.impulse,
        }
    }
}

/// What the state machine answers, as plain data.
pub open spec fn outcome_view(r: Result<Transition, ContentError>) -> Result<
    TransitionView,
    ContentErrorView,
> {
    match r {
        Ok(t) => Ok(t@),
        Err(e) => Err(e@),
    }
}

/// The order to show `action`.
pub open spec fn play_of(action: ActionView) -> PlayView {
    PlayView {
        action_name: action.name,
        frame_count: action.frames.len(),
        repeat: action.repeat,
        frame_duration: action.frame_duration(),
    }
}

/// An impulse as felt on the side that `direction` names.
pub open spec fn mirrored(impulse: Option<Vec2>, direction: Direction) -> Option<Vec2> {
    match impulse {
        Some(v) => Some(v.spec_mirror(direction)),
        None => None,
    }
}

/// The velocity of an entity that walks towards `direction`.
pub open spec fn walk_velocity(direction: Direction) -> Vec2 {
    match direction {
        Direction::Left => Vec2 { x: (-WALK_SPEED) as i32, y: 0 },
        Direction::Right => Vec2 { x: WALK_SPEED, y: 0 },
    }
}

/// Whether the attack `wanted` belongs to the move that `current` is a step
/// of: steps of one move are named by adding to the move's name, so
/// `wanted` must begin `current`.
pub open spec fn same_family(current: Seq<char>, wanted: Seq<char>) -> bool {
    wanted.is_prefix_of(current)
}

/// The attack that follows when `wanted` is asked for during the recovery
/// of `current`: within one move the next step, or the same step again
/// where there is no next; otherwise the attack asked for.
pub open spec fn chain_target(current: ActionView, current_name: Seq<char>, wanted: Seq<char>) -> Seq<
    char,
> {
    if same_family(current_name, wanted) {
        match current.next_action {
            Some(next) => next,
            None => current_name,
        }
    } else {
        wanted
    }
}

/// Nothing changes.
pub open spec fn stay(state: StateView) -> Result<TransitionView, ContentErrorView> {
    Ok(TransitionView { state: state, play: None, facing: None, velocity: None, impulse: None })
}

/// The entity goes over to `state` and shows the action of that state.
pub open spec fn enter(
    character: CharacterView,
    state: StateView,
    facing: Option<Direction>,
    velocity: Option<Vec2>,
    impulse: Option<Vec2>,
) -> Result<TransitionView, ContentErrorView> {
    let name = state.action_name();
    if character.actions.contains_key(name) {
        Ok(
            TransitionView {
                state: state,
                play: Some(play_of(character.actions[name])),
                facing: facing,
                velocity: velocity,
                impulse: impulse,
            },
        )
    } else {
        Err(ContentErrorView::MissingAction { character: character.name, action: name })
    }
}

/// The entity starts the attack `name` and receives the attack's own
/// impulse, mirrored to the side it faces.
pub open spec fn attack(
    character: CharacterView,
    name: Seq<char>,
    direction: Direction,
    velocity: Option<Vec2>,
) -> Result<TransitionView, ContentErrorView> {
    if character.actions.contains_key(name) {
        enter(
            character,
            StateView::Action(name),
            None,
            velocity,
            mirrored(character.actions[name].internal_impulse, direction),
        )
    } else {
        Err(ContentErrorView::MissingAction { character: character.name, action: name })
    }
}

/// An attack asked for while the attack `current` is on show at frame
/// `frame_index`: it is let in only during recovery.
pub open spec fn cancel(
    character: CharacterView,
    current: Seq<char>,
    wanted: Seq<char>,
    direction: Direction,
    frame_index: int,
) -> Result<TransitionView, ContentErrorView> {
    if !character.actions.contains_key(current) {
        Err(ContentErrorView::MissingAction { character: character.name, action: current })
    } else {
        let action = character.actions[current];
        if !(0 <= frame_index < action.frames.len()) {
            Err(
                ContentErrorView::FrameOutOfRange {
                    character: character.name,
                    action: current,
                    index: frame_index,
                },
            )
        } else if action.frames[frame_index].stage != ActionStage::Recovery {
            stay(StateView::Action(current))
        } else {
            attack(character, chain_target(action, current, wanted), direction, None)
        }
    }
}

/// What the notification `event` does to the entity `uid` that is in
/// `state`, faces `direction` and shows frame `frame_index`.
pub open spec fn spec_step(
    state: StateView,
    direction: Direction,
    frame_index: int,
    uid: UID,
    event: EventView,
    character: CharacterView,
) -> Result<TransitionView, ContentErrorView> {
    if event.target() != uid {
        stay(state)
    } else {
        match event {
            EventView::Idle(_) => match state {
                StateView::Walk => enter(
                    character,
                    StateView::Idle,
                    None,
                    Some(Vec2 { x: 0, y: 0 }),
                    None,
                ),
                _ => stay(state),
            },
            EventView::Left(_) => turn(state, Direction::Left, character),
            EventView::Right(_) => turn(state, Direction::Right, character),
            EventView::Action(_, wanted) => match state {
                StateView::Idle => attack(character, wanted, direction, Some(Vec2 { x: 0, y: 0 })),
                StateView::Walk => attack(character, wanted, direction, Some(Vec2 { x: 0, y: 0 })),
                StateView::Action(current) => cancel(
                    character,
                    current,
                    wanted,
                    direction,
                    frame_index,
                ),
                StateView::Hit { attack_action, hit_action } => stay(state),
            },
            EventView::Stop(_) => match state {
                StateView::Action(_) => enter(character, StateView::Idle, None, None, None),
                StateView::Hit { attack_action, hit_action } => enter(
                    character,
                    StateView::Idle,
                    None,
                    None,
                    None,
                ),
                _ => stay(state),
            },
            EventView::Hit { uid: _, direction: from, attack_action, hit_action, impulse } => {
                if state matches StateView::Hit { attack_action: landed, hit_action: _ }
                    && landed == attack_action {
                    stay(state)
                } else {
                    enter(
                        character,
                        StateView::Hit { attack_action: attack_action, hit_action: hit_action },
                        None,
                        None,
                        mirrored(impulse, from),
                    )
                }
            },
        }
    }
}

/// A movement input towards `towards`: an idle entity starts to walk, a
/// walking one only turns, and any other entity does not listen.
pub open spec fn turn(state: StateView, towards: Direction, character: CharacterView) -> Result<
    TransitionView,
    ContentErrorView,
> {
    match state {
        StateView::Idle => enter(
            character,
            StateView::Walk,
            Some(towards),
            Some(walk_velocity(towards)),
            None,
        ),
        StateView::Walk => Ok(
            TransitionView {
                state: StateView::Walk,
                play: None,
                facing: Some(towards),
                velocity: Some(walk_velocity(towards)),
                impulse: None,
            },
        ),
        _ => stay(state),
    }
}

/// Whether the attack `wanted` belongs to the move that `current` is a step
/// of.
pub fn in_same_family(current: &str, wanted: &str) -> (b: bool)
    ensures
        b == same_family(current@, wanted@),
{
    let wanted_len: usize = wanted.unicode_len();
    let current_len: usize = current.unicode_len();
    if wanted_len > current_len {
        return false;
    }
    let mut i: usize = 0;
    while i < wanted_len
        invariant
            i <= wanted_len <= current_len,
            wanted_len == wanted@.len(),
            current_len == current@.len(),
            forall|k: int| 0 <= k < i ==> wanted@[k] == current@[k],
        decreases wanted_len - i,
    {
        if wanted.get_char(i) != current.get_char(i) {
            assert(current@.subrange(0, wanted@.len() as int)[i as int] != wanted@[i as int]);
            return false;
        }
        i += 1;
    }
    assert(wanted@ =~= current@.subrange(0, wanted@.len() as int));
    true
}

/// The order to show `action`.
pub fn play_directive(action: &Action) -> (r: PlayDirective)
    ensures
        r@ == play_of(action@),
        r.frame_count > 0,
{
    PlayDirective {
        action_name: action.name().clone(),
        frame_count: action.frame_count(),
        repeat: action.repeat(),
        frame_duration: action.frame_duration(),
    }
}

/// The transition that changes nothing.
fn keep(state: &CharacterState) -> (r: Result<Transition, ContentError>)
    ensures
        outcome_view(r) == stay(state@),
{
    Ok(Transition { state: state.clone(), play: None, facing: None, velocity: None, impulse: None })
}

/// The transition into `state`, which shows the action of that state.
fn enter_state(
    character: &Character,
    state: CharacterState,
    facing: Option<Direction>,
    velocity: Option<Vec2>,
    impulse: Option<Vec2>,
) -> (r: Result<Transition, ContentError>)
    ensures
        outcome_view(r) == enter(character@, state@, facing, velocity, impulse),
{
    let name: String = state.action_name();
    match character.action(name.as_str()) {
        Some(action) => Ok(
            Transition { state, play: Some(play_directive(action)), facing, velocity, impulse },
        ),
        None => Err(
            ContentError::MissingAction { character: character.name().clone(), action: name },
        ),
    }
}

/// The transition into the attack `name`.
fn start_attack(
    character: &Character,
    name: &String,
    direction: Direction,
    velocity: Option<Vec2>,
) -> (r: Result<Transition, ContentError>)
    ensures
        outcome_view(r) == attack(character@, name@, direction, velocity),
{
    match character.action(name.as_str()) {
        Some(action) => {
            let impulse: Option<Vec2> = match action.internal_impulse() {
                Some(v) => Some(v.mirror(direction)),
                None => None,
            };
            enter_state(character, CharacterState::Action(name.clone()), None, velocity, impulse)
        },
        None => Err(
            ContentError::MissingAction {
                character: character.name().clone(),
                action: name.clone(),
            },
        ),
    }
}

/// The answer to an attack asked for while another attack is on show.
fn try_cancel(
    character: &Character,
    current: &String,
    wanted: &String,
    direction: Direction,
    frame_index: usize,
) -> (r: Result<Transition, ContentError>)
    ensures
        outcome_view(r) == cancel(character@, current@, wanted@, direction, frame_index as int),
{
    match character.action(current.as_str()) {
        None => Err(
            ContentError::MissingAction {
                character: character.name().clone(),
                action: current.clone(),
            },
        ),
        Some(action) => match action.frame(frame_index) {
            None => Err(
                ContentError::FrameOutOfRange {
                    character: character.name().clone(),
                    action: current.clone(),
                    index: frame_index,
                },
            ),
            Some(frame) => {
                if frame.stage != ActionStage::Recovery {
                    Ok(
                        Transition {
                            state: CharacterState::Action(current.clone()),
                            play: None,
                            facing: None,
                            velocity: None,
                            impulse: None,
                        },
                    )
                } else if in_same_family(current.as_str(), wanted.as_str()) {
                    match action.next_action() {
                        Some(next) => start_attack(character, next, direction, None),
                        None => start_attack(character, current, direction, None),
                    }
                } else {
                    start_attack(character, wanted, direction, None)
                }
            },
        },
    }
}

/// The answer to a movement input.
fn try_turn(state: &CharacterState, towards: Direction, character: &Character) -> (r: Result<
    Transition,
    ContentError,
>)
    ensures
        outcome_view(r) == turn(state@, towards, character@),
{
    let velocity: Vec2 = match towards {
        Direction::Left => Vec2 { x: -WALK_SPEED, y: 0 },
        Direction::Right => Vec2 { x: WALK_SPEED, y: 0 },
    };
    match state {
        CharacterState::Idle => enter_state(
            character,
            CharacterState::Walk,
            Some(towards),
            Some(velocity),
            None,
        ),
        CharacterState::Walk => Ok(
            Transition {
                state: CharacterState::Walk,
                play: None,
                facing: Some(towards),
                velocity: Some(velocity),
                impulse: None,
            },
        ),
        _ => keep(state),
    }
}

/// Decides what the notification `event` does to the entity `uid`, which
/// is in `state`, faces `direction` and shows frame `frame_index` of its
/// action. A notification addressed to another entity, or one that the
/// state does not listen to, changes nothing. An action that the
/// character's table lacks, or a frame that the action lacks, is reported.
pub fn step(
    state: &CharacterState,
    direction: Direction,
    frame_index: usize,
    uid: UID,
    event: &GameEvent,
    character: &Character,
) -> (r: Result<Transition, ContentError>)
    requires
        event@.wf(),
    ensures
        outcome_view(r) == spec_step(
            state@,
            direction,
            frame_index as int,
            uid,
            event@,
            character@,
        ),
{
    if event.target().0 != uid.0 {
        return keep(state);
    }
    match event {
        GameEvent::Idle(_) => match state {
            CharacterState::Walk => enter_state(
                character,
                CharacterState::Idle,
                None,
                Some(Vec2 { x: 0, y: 0 }),
                None,
            ),
            _ => keep(state),
        },
        GameEvent::Left(_) => try_turn(state, Direction::Left, character),
        GameEvent::Right(_) => try_turn(state, Direction::Right, character),
        GameEvent::Action(_, wanted) => match state {
            CharacterState::Idle => start_attack(
                character,
                wanted,
                direction,
                Some(Vec2 { x: 0, y: 0 }),
            ),
            CharacterState::Walk => start_attack(
                character,
                wanted,
                direction,
                Some(Vec2 { x: 0, y: 0 }),
            ),
            CharacterState::Action(current) => try_cancel(
                character,
                current,
                wanted,
                direction,
                frame_index,
            ),
            CharacterState::Hit { .. } => keep(state),
        },
        GameEvent::Stop(_) => match state {
            CharacterState::Action(_) => enter_state(
                character,
                CharacterState::Idle,
                None,
                None,
                None,
            ),
            CharacterState::Hit { .. } => enter_state(
                character,
                CharacterState::Idle,
                None,
                None,
                None,
            ),
            _ => keep(state),
        },
        GameEvent::Hit { uid: _, direction: from, attack_action, hit_action, impulse } => {
            let repeated: bool = match state {
                CharacterState::Hit { attack_action: landed, .. } => *landed == *attack_action,
                _ => false,
            };
            if repeated {
                keep(state)
            } else {
                let felt: Option<Vec2> = match impulse {
                    Some(v) => Some(v.mirror(*from)),
                    None => None,
                };
                enter_state(
                    character,
                    CharacterState::Hit {
                        attack_action: attack_action.clone(),
                        hit_action: hit_action.clone(),
                    },
                    None,
                    None,
                    felt,
                )
            }
        },
    }
}

/// A hit by the attack that already staggers the entity changes nothing,
/// whatever else the notification carries.
pub proof fn lemma_repeated_hit_is_ignored(
    state: StateView,
    direction: Direction,
    frame_index: int,
    uid: UID,
    event: EventView,
    character: CharacterView,
)
    requires
        state matches StateView::Hit { attack_action: landed, hit_action: _ }
            && event matches EventView::Hit {
            uid: _,
            direction: _,
            attack_action: attack,
            hit_action: _,
            impulse: _,
        } && landed == attack,
    ensures
        spec_step(state, direction, frame_index, uid, event, character) == stay(state),
{
}

/// A hit that is told twice staggers once: whatever state the first
/// telling leaves, the second telling changes nothing.
pub proof fn lemma_hit_twice_is_hit_once(
    state: StateView,
    direction: Direction,
    frame_index: int,
    uid: UID,
    event: EventView,
    character: CharacterView,
)
    requires
        event is Hit,
        event.target() == uid,
        spec_step(state, direction, frame_index, uid, event, character) is Ok,
    ensures
        ({
            let first = spec_step(state, direction, frame_index, uid, event, character)->Ok_0;
            forall|facing: Direction, index: int|
                #[trigger] spec_step(first.state, facing, index, uid, event, character) == stay(
                    first.state,
                )
        }),
{
}

/// From `Idle` or `Walk`, an attack that the table holds is always
/// started, from its first frame, whatever frame was on show.
pub proof fn lemma_attack_starts_from_rest(
    state: StateView,
    direction: Direction,
    frame_index: int,
    uid: UID,
    name: Seq<char>,
    character: CharacterView,
)
    requires
        state is Idle || state is Walk,
        character.actions.contains_key(name),
    ensures
        spec_step(state, direction, frame_index, uid, EventView::Action(uid, name), character)
            == Ok::<TransitionView, ContentErrorView>(
            TransitionView {
                state: StateView::Action(name),
                play: Some(play_of(character.actions[name])),
                facing: None,
                velocity: Some(Vec2 { x: 0, y: 0 }),
                impulse: mirrored(character.actions[name].internal_impulse, direction),
            },
        ),
{
}

/// While the frame on show is in startup or active, no attack input
/// changes anything.
pub proof fn lemma_attack_waits_for_recovery(
    current: Seq<char>,
    direction: Direction,
    frame_index: int,
    uid: UID,
    event: EventView,
    character: CharacterView,
)
    requires
        event is Action,
        character.actions.contains_key(current),
        0 <= frame_index < character.actions[current].frames.len(),
        character.actions[current].frames[frame_index].stage != ActionStage::Recovery,
    ensures
        spec_step(StateView::Action(current), direction, frame_index, uid, event, character)
            == stay(StateView::Action(current)),
{
}

/// During recovery, the input of the attack on show continues the move:
/// with its next step where one is named, with the same step otherwise.
pub proof fn lemma_same_attack_chains(
    current: Seq<char>,
    direction: Direction,
    frame_index: int,
    uid: UID,
    character: CharacterView,
)
    requires
        character.actions.contains_key(current),
        0 <= frame_index < character.actions[current].frames.len(),
        character.actions[current].frames[frame_index].stage == ActionStage::Recovery,
    ensures
        ({
            let next = match character.actions[current].next_action {
                Some(n) => n,
                None => current,
            };
            let answer = spec_step(
                StateView::Action(current),
                direction,
                frame_index,
                uid,
                EventView::Action(uid, current),
                character,
            );
            &&& answer == attack(character, next, direction, None)
            &&& character.actions.contains_key(next) ==> answer is Ok && answer->Ok_0.state
                == StateView::Action(next)
        }),
{
    assert(current =~= current.subrange(0, current.len() as int));
}

/// During recovery, the input of an attack of another move starts that
/// attack.
pub proof fn lemma_other_attack_replaces(
    current: Seq<char>,
    other: Seq<char>,
    direction: Direction,
    frame_index: int,
    uid: UID,
    character: CharacterView,
)
    requires
        character.actions.contains_key(current),
        0 <= frame_index < character.actions[current].frames.len(),
        character.actions[current].frames[frame_index].stage == ActionStage::Recovery,
        !same_family(current, other),
        character.actions.contains_key(other),
    ensures
        spec_step(
            StateView::Action(current),
            direction,
            frame_index,
            uid,
            EventView::Action(uid, other),
            character,
        ) matches Ok(t) && t.state == StateView::Action(other) && t.play == Some(
            play_of(character.actions[other]),
        ),
{
}

/// A notification addressed to another entity changes nothing.
pub proof fn lemma_other_target_is_ignored(
    state: StateView,
    direction: Direction,
    frame_index: int,
    uid: UID,
    event: EventView,
    character: CharacterView,
)
    requires
        event.target() != uid,
    ensures
        spec_step(state, direction, frame_index, uid, event, character) == stay(state),
{
}

/// A notification that the state does not listen to changes nothing, and
/// nothing is looked up for it: no input during an attack or a stagger
/// but the end of the sequence, no end of a sequence at rest, and no rest
/// where there is no walk.
pub proof fn lemma_unmatched_is_ignored(
    state: StateView,
    direction: Direction,
    frame_index: int,
    uid: UID,
    event: EventView,
    character: CharacterView,
)
    requires
        ({
            ||| event is Idle && !(state is Walk)
            ||| (event is Left || event is Right) && (state is Action || state is Hit)
            ||| event is Action && state is Hit
            ||| event is Stop && (state is Idle || state is Walk)
        }),
    ensures
        spec_step(state, direction, frame_index, uid, event, character) == stay(state),
{
}

} // verus!
