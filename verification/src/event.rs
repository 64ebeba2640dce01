//! What an entity is doing, and the notifications that may change it.

use vstd::prelude::*;
use crate::action::impulse_in_range;
use crate::geometry::{Direction, Vec2};

verus! {

/// The identity of an entity. It says who owns a rectangle and to whom a
/// notification is addressed; it is no place in any storage.
#[derive(Clone, Copy, Debug, PartialEq, Eq, Structural)]
pub struct UID(pub u32);

/// What an entity is doing.
#[derive(Debug, PartialEq, Eq)]
pub enum CharacterState {
    Idle,
    Walk,
    /// Playing the action of this name.
    Action(String),
    /// Staggered by `attack_action`, and playing `hit_action`.
    Hit { attack_action: String, hit_action: String },
}

pub enum StateView {
    Idle,
    Walk,
    Action(Seq<char>),
    Hit { attack_action: Seq<char>, hit_action: Seq<char> },
}

impl View for CharacterState {
    type V = StateView;

    open spec fn view(&self) -> StateView {
        match *self {
            CharacterState::Idle => StateView::Idle,
            CharacterState::Walk => StateView::Walk,
            CharacterState::Action(name) => StateView::Action(name@),
            CharacterState::Hit { attack_action, hit_action } => StateView::Hit {
                attack_action: attack_action@,
                hit_action: hit_action@,
            },
        }
    }
}

impl StateView {
    /// The action that an entity in this state plays.
    pub open spec fn action_name(self) -> Seq<char> {
        match self {
            StateView::Idle => "idle"@,
            StateView::Walk => "walk"@,
            StateView::Action(name) => name,
            StateView::Hit { attack_action, hit_action } => hit_action,
        }
    }
}

impl Clone for CharacterState {
    fn clone(&self) -> (r: CharacterState)
        ensures
            r@ == self@,
    {
        match self {
            CharacterState::Idle => CharacterState::Idle,
            CharacterState::Walk => CharacterState::Walk,
            CharacterState::Action(name) => CharacterState::Action(name.clone()),
            CharacterState::Hit { attack_action, hit_action } => CharacterState::Hit {
                attack_action: attack_action.clone(),
                hit_action: hit_action.clone(),
            },
        }
    }
}

impl CharacterState {
    /// The name of the action that an entity in this state plays.
    pub fn action_name(&self) -> (r: String)
        ensures
            r@ == self@.action_name(),
    {
        match self {
            CharacterState::Idle => "idle".to_owned(),
            CharacterState::Walk => "walk".to_owned(),
            CharacterState::Action(name) => name.clone(),
            CharacterState::Hit { attack_action, hit_action } => hit_action.clone(),
        }
    }
}

/// A notification of one tick, addressed to one entity.
#[derive(Debug, PartialEq, Eq)]
pub enum GameEvent {
    /// No input is held.
    Idle(UID),
    Left(UID),
    Right(UID),
    /// The attack of this name is asked for.
    Action(UID, String),
    /// The action on show has played to its end.
    Stop(UID),
    /// An attack has landed on `uid`. `direction` is the side the attacker
    /// faces and `impulse` is the knock-back as authored, not yet mirrored.
    Hit {
        uid: UID,
        direction: Direction,
        attack_action: String,
        hit_action: String,
        impulse: Option<Vec2>,
    },
}

pub enum EventView {
    Idle(UID),
    Left(UID),
    Right(UID),
    Action(UID, Seq<char>),
    Stop(UID),
    Hit {
        uid: UID,
        direction: Direction,
        attack_action: Seq<char>,
        hit_action: Seq<char>,
        impulse: Option<Vec2>,
    },
}

impl View for GameEvent {
    type V = EventView;

    open spec fn view(&self) -> EventView {
        match *self {
            GameEvent::Idle(uid) => EventView::Idle(uid),
            GameEvent::Left(uid) => EventView::Left(uid),
            GameEvent::Right(uid) => EventView::Right(uid),
            GameEvent::Action(uid, name) => EventView::Action(uid, name@),
            GameEvent::Stop(uid) => EventView::Stop(uid),
            GameEvent::Hit { uid, direction, attack_action, hit_action, impulse } => EventView::Hit {
                uid: uid,
                direction: direction,
                attack_action: attack_action@,
                hit_action: hit_action@,
                impulse: impulse,
            },
        }
    }
}

impl EventView {
    /// The entity that the notification is addressed to.
    pub open spec fn target(self) -> UID {
        match self {
            EventView::Idle(uid) => uid,
            EventView::Left(uid) => uid,
            EventView::Right(uid) => uid,
            EventView::Action(uid, name) => uid,
            EventView::Stop(uid) => uid,
            EventView::Hit { uid, direction, attack_action, hit_action, impulse } => uid,
        }
    }

    /// The impulse that a hit carries is within the authored range.
    pub open spec fn wf(self) -> bool {
        match self {
            EventView::Hit { uid, direction, attack_action, hit_action, impulse } => impulse_in_range(
                impulse,
            ),
            _ => true,
        }
    }
}

impl Clone for GameEvent {
    fn clone(&self) -> (r: GameEvent)
        ensures
            r@ == self@,
    {
        match self {
            GameEvent::Idle(uid) => GameEvent::Idle(*uid),
            GameEvent::Left(uid) => GameEvent::Left(*uid),
            GameEvent::Right(uid) => GameEvent::Right(*uid),
            GameEvent::Action(uid, name) => GameEvent::Action(*uid, name.clone()),
            GameEvent::Stop(uid) => GameEvent::Stop(*uid),
            GameEvent::Hit { uid, direction, attack_action, hit_action, impulse } => GameEvent::Hit {
                uid: *uid,
                direction: *direction,
                attack_action: attack_action.clone(),
                hit_action: hit_action.clone(),
                impulse: *impulse,
            },
        }
    }
}

impl GameEvent {
    /// The entity that the notification is addressed to.
    pub fn target(&self) -> (r: UID)
        ensures
            r == self@.target(),
    {
        match self {
            GameEvent::Idle(uid) => *uid,
            GameEvent::Left(uid) => *uid,
            GameEvent::Right(uid) => *uid,
            GameEvent::Action(uid, _) => *uid,
            GameEvent::Stop(uid) => *uid,
            GameEvent::Hit { uid, .. } => *uid,
        }
    }

    /// Whether the notification may be handed to the state machine.
    pub fn well_formed(&self) -> (b: bool)
        ensures
            b == self@.wf(),
    {
        match self {
            GameEvent::Hit { impulse, .. } => match impulse {
                Some(v) => v.finite(),
                None => true,
            },
            _ => true,
        }
    }
}

/// A fault in authored data that shows only when the data is used.
#[derive(Debug, PartialEq, Eq)]
pub enum ContentError {
    /// The roster has no character of this name.
    MissingCharacter { character: String },
    /// The character has no action of this name.
    MissingAction { character: String, action: String },
    /// The action has no frame at this index.
    FrameOutOfRange { character: String, action: String, index: usize },
    /// The action has a hitbox that landed, but names no action for its
    /// victim.
    MissingHitAction { character: String, action: String },
}

pub enum ContentErrorView {
    MissingCharacter { character: Seq<char> },
    MissingAction { character: Seq<char>, action: Seq<char> },
    FrameOutOfRange { character: Seq<char>, action: Seq<char>, index: int },
    MissingHitAction { character: Seq<char>, action: Seq<char> },
}

impl View for ContentError {
    type V = ContentErrorView;

    open spec fn view(&self) -> ContentErrorView {
        match *self {
            ContentError::MissingCharacter { character } => ContentErrorView::MissingCharacter {
                character: character@,
            },
            ContentError::MissingAction { character, action } => ContentErrorView::MissingAction {
                character: character@,
                action: action@,
            },
            ContentError::FrameOutOfRange {
                character,
                action,
                index,
            } => ContentErrorView::FrameOutOfRange {
                character: character@,
                action: action@,
                index: index as int,
            },
            ContentError::MissingHitAction {
                character,
                action,
            } => ContentErrorView::MissingHitAction { character: character@, action: action@ },
        }
    }
}

} // verus!
