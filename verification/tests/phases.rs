use mia::action::{Action, ActionFrame, ActionStage};
use mia::character::{Character, Characters};
use mia::clock::Animation;
use mia::entity::Entity;
use mia::event::{CharacterState, ContentError, GameEvent, UID};
use mia::geometry::{Direction, Rectbox, Vec2};
use mia::resolve::{expose, mirror_box, Exposure};
use mia::state::{PlayDirective, Transition};

fn ph_rect(min_x: i32, min_y: i32, max_x: i32, max_y: i32) -> Rectbox {
    Rectbox::new(Vec2::new(min_x, min_y), Vec2::new(max_x, max_y))
}

fn ph_frame(id: usize, stage: ActionStage, hit: Option<Rectbox>, block: Option<Rectbox>) -> ActionFrame {
    ActionFrame { id, stage, hurtbox: ph_rect(-10, -20, 14, 20), hitbox: hit, blockbox: block }
}

fn ph_action(name: &str, repeat: bool, frames: Vec<ActionFrame>, next: Option<&str>) -> Action {
    let duration = 100 * frames.len() as u64;
    Action::new(
        name.to_string(),
        duration,
        repeat,
        frames,
        next.map(|n| n.to_string()),
        Some("hit".to_string()),
        Some(Vec2::new(100, 50)),
        Some(Vec2::new(30, 0)),
    )
    .unwrap()
}

fn ph_roster() -> Characters {
    let idle = ph_action(
        "idle",
        true,
        vec![
            ph_frame(0, ActionStage::Recovery, None, None),
            ph_frame(1, ActionStage::Recovery, None, None),
        ],
        None,
    );
    let walk = ph_action("walk", true, vec![ph_frame(0, ActionStage::Recovery, None, None)], None);
    let attack = ph_action(
        "attack",
        false,
        vec![
            ph_frame(0, ActionStage::Startup, None, Some(ph_rect(5, -10, 20, 10))),
            ph_frame(1, ActionStage::Active, Some(ph_rect(0, -10, 60, 10)), None),
            ph_frame(2, ActionStage::Recovery, None, None),
        ],
        Some("attack2"),
    );
    let attack2 = ph_action(
        "attack2",
        false,
        vec![ph_frame(0, ActionStage::Active, Some(ph_rect(0, 0, 80, 10)), None)],
        None,
    );
    let hit = ph_action(
        "hit",
        false,
        vec![
            ph_frame(0, ActionStage::Recovery, None, None),
            ph_frame(1, ActionStage::Recovery, None, None),
        ],
        None,
    );
    let skeleton =
        Character::new("skeleton".to_string(), vec![idle, walk, attack, attack2, hit]).unwrap();
    let statue = Character::new(
        "statue".to_string(),
        vec![ph_action("walk", true, vec![ph_frame(0, ActionStage::Recovery, None, None)], None)],
    )
    .unwrap();
    let mut roster = Characters::new();
    roster.insert(skeleton);
    roster.insert(statue);
    roster
}

fn ph_entity(uid: u32) -> Entity {
    Entity::spawn(UID(uid), "skeleton", Vec2::new(0, 0), &ph_roster()).unwrap()
}

#[test]
fn spawned_entity_is_idle_and_faces_left() {
    let e = Entity::spawn(UID(4), "skeleton", Vec2::new(7, -3), &ph_roster()).unwrap();
    assert_eq!(
        e,
        Entity {
            uid: UID(4),
            character: "skeleton".to_string(),
            state: CharacterState::Idle,
            direction: Direction::Left,
            position: Vec2::new(7, -3),
            velocity: Vec2::new(0, 0),
            animation: Animation {
                index: 0,
                frame_count: 2,
                repeat: true,
                frame_duration: 100,
                elapsed: 0,
                ended: false,
            },
            hurtbox: None,
            hitbox: None,
            blockbox: None,
            impulse: None,
        }
    );
}

#[test]
fn spawn_of_an_unknown_character_is_reported() {
    let e = Entity::spawn(UID(1), "wizard", Vec2::new(0, 0), &ph_roster()).unwrap_err();
    assert_eq!(e, ContentError::MissingCharacter { character: "wizard".to_string() });
}

#[test]
fn spawn_without_an_idle_action_is_reported() {
    let e = Entity::spawn(UID(1), "statue", Vec2::new(0, 0), &ph_roster()).unwrap_err();
    assert_eq!(
        e,
        ContentError::MissingAction { character: "statue".to_string(), action: "idle".to_string() }
    );
}

#[test]
fn take_puts_a_transition_into_effect() {
    let mut e = ph_entity(1);
    e.animation.index = 1;
    e.animation.elapsed = 55;
    e.take(Transition {
        state: CharacterState::Action("attack".to_string()),
        play: Some(PlayDirective {
            action_name: "attack".to_string(),
            frame_count: 3,
            repeat: false,
            frame_duration: 100,
        }),
        facing: Some(Direction::Right),
        velocity: Some(Vec2::new(1, 2)),
        impulse: Some(Vec2::new(30, 0)),
    });
    assert_eq!(e.state, CharacterState::Action("attack".to_string()));
    assert_eq!(e.direction, Direction::Right);
    assert_eq!(e.velocity, Vec2::new(1, 2));
    assert_eq!(e.impulse, Some(Vec2::new(30, 0)));
    assert_eq!(
        e.animation,
        Animation {
            index: 0,
            frame_count: 3,
            repeat: false,
            frame_duration: 100,
            elapsed: 0,
            ended: false
        }
    );
    let kept = e.clone();
    e.take(Transition {
        state: CharacterState::Action("attack".to_string()),
        play: None,
        facing: None,
        velocity: None,
        impulse: None,
    });
    assert_eq!(e, kept);
}

#[test]
fn attack_from_idle_resets_the_frame_index() {
    let roster = ph_roster();
    for prior in [0usize, 1, 5, 1000] {
        let mut e = ph_entity(1);
        e.animation.index = prior;
        e.animation.elapsed = 99;
        e.apply(&GameEvent::Action(UID(1), "attack".to_string()), &roster).unwrap();
        assert_eq!(e.state, CharacterState::Action("attack".to_string()));
        assert_eq!(e.animation.index, 0);
        assert_eq!(e.animation.elapsed, 0);
        assert_eq!(e.animation.frame_count, 3);
        assert!(!e.animation.repeat);
        assert_eq!(e.velocity, Vec2::new(0, 0));
        assert_eq!(e.impulse, Some(Vec2::new(-30, 0)));
    }
}

#[test]
fn apply_ignores_notifications_for_others() {
    let roster = ph_roster();
    let mut e = ph_entity(1);
    let kept = e.clone();
    e.apply(&GameEvent::Action(UID(2), "attack".to_string()), &roster).unwrap();
    assert_eq!(e, kept);
    // nothing is looked up for them either
    e.character = "wizard".to_string();
    let kept = e.clone();
    e.apply(&GameEvent::Left(UID(2)), &roster).unwrap();
    assert_eq!(e, kept);
}

#[test]
fn apply_reports_an_unknown_character_and_changes_nothing() {
    let roster = ph_roster();
    let mut e = ph_entity(1);
    e.character = "wizard".to_string();
    let kept = e.clone();
    let fault = e.apply(&GameEvent::Left(UID(1)), &roster).unwrap_err();
    assert_eq!(fault, ContentError::MissingCharacter { character: "wizard".to_string() });
    assert_eq!(e, kept);
}

#[test]
fn apply_reports_a_missing_action_and_changes_nothing() {
    let roster = ph_roster();
    let mut e = ph_entity(1);
    let kept = e.clone();
    let fault = e.apply(&GameEvent::Action(UID(1), "uppercut".to_string()), &roster).unwrap_err();
    assert_eq!(
        fault,
        ContentError::MissingAction {
            character: "skeleton".to_string(),
            action: "uppercut".to_string()
        }
    );
    assert_eq!(e, kept);
}

#[test]
fn apply_all_takes_the_notifications_in_order() {
    let roster = ph_roster();
    let mut e = ph_entity(1);
    let events = vec![
        GameEvent::Right(UID(1)),
        GameEvent::Left(UID(2)),
        GameEvent::Action(UID(1), "attack".to_string()),
        GameEvent::Action(UID(1), "attack".to_string()),
    ];
    e.apply_all(&events, &roster).unwrap();
    // walk to the right, then attack; the second input meets startup
    assert_eq!(e.state, CharacterState::Action("attack".to_string()));
    assert_eq!(e.direction, Direction::Right);
    assert_eq!(e.velocity, Vec2::new(0, 0));
    assert_eq!(e.impulse, Some(Vec2::new(30, 0)));
    assert_eq!(e.animation.frame_count, 3);
}

#[test]
fn apply_all_stops_at_the_first_fault() {
    let roster = ph_roster();
    let mut e = ph_entity(1);
    let events = vec![
        GameEvent::Right(UID(1)),
        GameEvent::Action(UID(1), "uppercut".to_string()),
        GameEvent::Idle(UID(1)),
    ];
    let fault = e.apply_all(&events, &roster).unwrap_err();
    assert_eq!(
        fault,
        ContentError::MissingAction {
            character: "skeleton".to_string(),
            action: "uppercut".to_string()
        }
    );
    assert_eq!(e.state, CharacterState::Walk);
    assert_eq!(e.direction, Direction::Right);
    assert_eq!(e.velocity, Vec2::new(200, 0));
}

#[test]
fn apply_all_of_nothing_changes_nothing() {
    let roster = ph_roster();
    let mut e = ph_entity(1);
    let kept = e.clone();
    e.apply_all(&vec![], &roster).unwrap();
    assert_eq!(e, kept);
}

#[test]
fn expose_mirrors_every_rectangle_of_the_frame() {
    let frame = ph_frame(
        1,
        ActionStage::Active,
        Some(ph_rect(0, -10, 60, 10)),
        Some(ph_rect(5, -8, 20, 8)),
    );
    assert_eq!(
        expose(&frame, Direction::Right),
        Exposure {
            hurtbox: ph_rect(-10, -20, 14, 20),
            hitbox: Some(ph_rect(0, -10, 60, 10)),
            blockbox: Some(ph_rect(5, -8, 20, 8)),
        }
    );
    assert_eq!(
        expose(&frame, Direction::Left),
        Exposure {
            hurtbox: ph_rect(-14, -20, 10, 20),
            hitbox: Some(ph_rect(-60, -10, 0, 10)),
            blockbox: Some(ph_rect(-20, -8, -5, 8)),
        }
    );
    assert_eq!(mirror_box(None, Direction::Left), None);
}

#[test]
fn resolve_attaches_and_detaches_rectangles() {
    let roster = ph_roster();
    let mut e = ph_entity(1);
    e.direction = Direction::Right;
    e.apply(&GameEvent::Action(UID(1), "attack".to_string()), &roster).unwrap();
    e.resolve(&roster).unwrap();
    assert_eq!(e.hurtbox, Some(ph_rect(-10, -20, 14, 20)));
    assert_eq!(e.hitbox, None);
    assert_eq!(e.blockbox, Some(ph_rect(5, -10, 20, 10)));
    e.animation.index = 1;
    e.resolve(&roster).unwrap();
    assert_eq!(e.hitbox, Some(ph_rect(0, -10, 60, 10)));
    assert_eq!(e.blockbox, None);
    e.animation.index = 2;
    e.resolve(&roster).unwrap();
    assert_eq!(e.hitbox, None);
    assert_eq!(e.blockbox, None);
    assert_eq!(e.hurtbox, Some(ph_rect(-10, -20, 14, 20)));
}

#[test]
fn resolve_mirrors_for_an_entity_that_faces_left() {
    let roster = ph_roster();
    let mut e = ph_entity(1);
    e.state = CharacterState::Action("attack".to_string());
    e.animation.index = 1;
    e.direction = Direction::Left;
    e.resolve(&roster).unwrap();
    assert_eq!(e.hurtbox, Some(ph_rect(-14, -20, 10, 20)));
    assert_eq!(e.hitbox, Some(ph_rect(-60, -10, 0, 10)));
}

#[test]
fn resolve_of_a_staggered_entity_shows_the_reaction() {
    let roster = ph_roster();
    let mut e = ph_entity(1);
    e.hitbox = Some(ph_rect(0, 0, 1, 1));
    e.state = CharacterState::Hit {
        attack_action: "attack".to_string(),
        hit_action: "hit".to_string(),
    };
    e.animation.index = 1;
    e.resolve(&roster).unwrap();
    assert_eq!(e.hurtbox, Some(ph_rect(-14, -20, 10, 20)));
    assert_eq!(e.hitbox, None);
}

#[test]
fn resolve_reports_faults_and_changes_nothing() {
    let roster = ph_roster();
    let mut e = ph_entity(1);
    e.hitbox = Some(ph_rect(0, 0, 1, 1));
    e.animation.index = 2;
    let kept = e.clone();
    assert_eq!(
        e.resolve(&roster).unwrap_err(),
        ContentError::FrameOutOfRange {
            character: "skeleton".to_string(),
            action: "idle".to_string(),
            index: 2
        }
    );
    assert_eq!(e, kept);
    e.state = CharacterState::Action("uppercut".to_string());
    assert_eq!(
        e.resolve(&roster).unwrap_err(),
        ContentError::MissingAction {
            character: "skeleton".to_string(),
            action: "uppercut".to_string()
        }
    );
    e.character = "wizard".to_string();
    assert_eq!(
        e.resolve(&roster).unwrap_err(),
        ContentError::MissingCharacter { character: "wizard".to_string() }
    );
}

#[test]
fn animate_tells_the_end_once() {
    let roster = ph_roster();
    let mut e = ph_entity(6);
    e.apply(&GameEvent::Action(UID(6), "attack".to_string()), &roster).unwrap();
    assert_eq!(e.animate(100), None);
    assert_eq!(e.animation.index, 1);
    assert_eq!(e.animate(100), None);
    assert_eq!(e.animation.index, 2);
    assert_eq!(e.animate(100), Some(GameEvent::Stop(UID(6))));
    assert_eq!(e.animate(100), None);
    assert_eq!(e.animate(100), None);
    assert_eq!(e.animation.index, 2);
    // the state machine reacts to the end, and the idle action loops
    e.apply(&GameEvent::Stop(UID(6)), &roster).unwrap();
    assert_eq!(e.state, CharacterState::Idle);
    assert_eq!(e.animation.index, 0);
    for _ in 0..10 {
        assert_eq!(e.animate(100), None);
    }
}

#[test]
fn changing_the_action_resets_index_and_clock() {
    let roster = ph_roster();
    let mut e = ph_entity(1);
    e.apply(&GameEvent::Action(UID(1), "attack".to_string()), &roster).unwrap();
    assert_eq!(e.animate(100), None);
    assert_eq!(e.animate(100), None);
    // the last frame is on show and has had part of its time
    assert_eq!(e.animate(60), None);
    assert_eq!((e.animation.index, e.animation.elapsed), (2, 60));
    e.apply(&GameEvent::Action(UID(1), "attack".to_string()), &roster).unwrap();
    assert_eq!(e.state, CharacterState::Action("attack2".to_string()));
    assert_eq!(
        e.animation,
        Animation {
            index: 0,
            frame_count: 1,
            repeat: false,
            frame_duration: 100,
            elapsed: 0,
            ended: false
        }
    );
}

#[test]
fn animate_waits_for_the_last_frame_to_have_its_time() {
    let roster = ph_roster();
    let mut e = ph_entity(3);
    e.apply(&GameEvent::Action(UID(3), "attack".to_string()), &roster).unwrap();
    assert_eq!(e.animate(100), None);
    assert_eq!(e.animate(100), None);
    assert_eq!(e.animation.index, 2);
    assert_eq!(e.animate(40), None);
    assert_eq!(e.animate(40), None);
    assert_eq!(e.animate(40), Some(GameEvent::Stop(UID(3))));
    assert_eq!(e.animate(40), None);
    assert_eq!(e.animation.index, 2);
}
