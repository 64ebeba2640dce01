use mia::action::{Action, ActionFrame, ActionStage};
use mia::character::Character;
use mia::event::{CharacterState, ContentError, GameEvent, UID};
use mia::geometry::{Direction, Rectbox, Vec2};
use mia::state::{in_same_family, play_directive, step, PlayDirective, Transition, WALK_SPEED};

fn sm_frame(id: usize, stage: ActionStage) -> ActionFrame {
    ActionFrame {
        id,
        stage,
        hurtbox: Rectbox::new(Vec2::new(-10, -20), Vec2::new(10, 20)),
        hitbox: None,
        blockbox: None,
    }
}

fn sm_action(
    name: &str,
    duration: u64,
    repeat: bool,
    stages: &[ActionStage],
    next: Option<&str>,
    internal: Option<Vec2>,
) -> Action {
    let mut frames = Vec::new();
    for (id, stage) in stages.iter().enumerate() {
        frames.push(sm_frame(id, *stage));
    }
    Action::new(
        name.to_string(),
        duration,
        repeat,
        frames,
        next.map(|n| n.to_string()),
        Some("hit".to_string()),
        Some(Vec2::new(100, 50)),
        internal,
    )
    .unwrap()
}

const STARTUP: ActionStage = ActionStage::Startup;
const ACTIVE: ActionStage = ActionStage::Active;
const RECOVERY: ActionStage = ActionStage::Recovery;

fn skeleton() -> Character {
    Character::new(
        "skeleton".to_string(),
        vec![
            sm_action("idle", 1_000, true, &[RECOVERY, RECOVERY], None, None),
            sm_action("walk", 800, true, &[RECOVERY, RECOVERY, RECOVERY, RECOVERY], None, None),
            sm_action(
                "attack",
                600,
                false,
                &[STARTUP, ACTIVE, RECOVERY],
                Some("attack2"),
                Some(Vec2::new(30, 5)),
            ),
            sm_action("attack2", 900, false, &[STARTUP, ACTIVE, RECOVERY], None, None),
            sm_action("kick", 400, false, &[STARTUP, RECOVERY], Some("missing"), None),
            sm_action("hit", 300, false, &[RECOVERY, RECOVERY, RECOVERY], None, None),
        ],
    )
    .unwrap()
}

fn play(name: &str, frame_count: usize, repeat: bool, frame_duration: u64) -> Option<PlayDirective> {
    Some(PlayDirective { action_name: name.to_string(), frame_count, repeat, frame_duration })
}

fn unchanged(state: CharacterState) -> Transition {
    Transition { state, play: None, facing: None, velocity: None, impulse: None }
}

fn attack_state(name: &str) -> CharacterState {
    CharacterState::Action(name.to_string())
}

fn hit_state(attack: &str, reaction: &str) -> CharacterState {
    CharacterState::Hit { attack_action: attack.to_string(), hit_action: reaction.to_string() }
}

fn hit_event(uid: u32, from: Direction, attack: &str, reaction: &str, impulse: Option<Vec2>) -> GameEvent {
    GameEvent::Hit {
        uid: UID(uid),
        direction: from,
        attack_action: attack.to_string(),
        hit_action: reaction.to_string(),
        impulse,
    }
}

const ME: UID = UID(1);

#[test]
fn state_names_the_action_it_plays() {
    assert_eq!(CharacterState::Idle.action_name(), "idle");
    assert_eq!(CharacterState::Walk.action_name(), "walk");
    assert_eq!(attack_state("attack2").action_name(), "attack2");
    assert_eq!(hit_state("attack", "stagger").action_name(), "stagger");
}

#[test]
fn play_directive_describes_the_action() {
    let c = skeleton();
    let d = play_directive(c.action("attack").unwrap());
    assert_eq!(
        d,
        PlayDirective {
            action_name: "attack".to_string(),
            frame_count: 3,
            repeat: false,
            frame_duration: 200
        }
    );
}

#[test]
fn walking_entity_without_input_goes_idle() {
    let c = skeleton();
    let t = step(&CharacterState::Walk, Direction::Right, 3, ME, &GameEvent::Idle(ME), &c).unwrap();
    assert_eq!(
        t,
        Transition {
            state: CharacterState::Idle,
            play: play("idle", 2, true, 500),
            facing: None,
            velocity: Some(Vec2::new(0, 0)),
            impulse: None,
        }
    );
}

#[test]
fn idle_entity_starts_to_walk() {
    let c = skeleton();
    let t = step(&CharacterState::Idle, Direction::Right, 1, ME, &GameEvent::Left(ME), &c).unwrap();
    assert_eq!(
        t,
        Transition {
            state: CharacterState::Walk,
            play: play("walk", 4, true, 200),
            facing: Some(Direction::Left),
            velocity: Some(Vec2::new(-WALK_SPEED, 0)),
            impulse: None,
        }
    );
    let t = step(&CharacterState::Idle, Direction::Left, 0, ME, &GameEvent::Right(ME), &c).unwrap();
    assert_eq!(t.state, CharacterState::Walk);
    assert_eq!(t.facing, Some(Direction::Right));
    assert_eq!(t.velocity, Some(Vec2::new(200, 0)));
}

#[test]
fn walking_entity_only_turns() {
    let c = skeleton();
    for (event, towards, speed) in [
        (GameEvent::Left(ME), Direction::Left, -200),
        (GameEvent::Right(ME), Direction::Right, 200),
    ] {
        for facing in [Direction::Left, Direction::Right] {
            let t = step(&CharacterState::Walk, facing, 2, ME, &event, &c).unwrap();
            assert_eq!(
                t,
                Transition {
                    state: CharacterState::Walk,
                    play: None,
                    facing: Some(towards),
                    velocity: Some(Vec2::new(speed, 0)),
                    impulse: None,
                }
            );
        }
    }
}

#[test]
fn attack_from_idle_always_starts_the_attack() {
    let c = skeleton();
    for frame_index in [0usize, 1, 7, usize::MAX] {
        let event = GameEvent::Action(ME, "attack".to_string());
        let t = step(&CharacterState::Idle, Direction::Right, frame_index, ME, &event, &c).unwrap();
        assert_eq!(
            t,
            Transition {
                state: attack_state("attack"),
                play: play("attack", 3, false, 200),
                facing: None,
                velocity: Some(Vec2::new(0, 0)),
                impulse: Some(Vec2::new(30, 5)),
            }
        );
    }
}

#[test]
fn attack_from_walk_mirrors_its_own_impulse() {
    let c = skeleton();
    let event = GameEvent::Action(ME, "attack".to_string());
    let t = step(&CharacterState::Walk, Direction::Left, 2, ME, &event, &c).unwrap();
    assert_eq!(t.state, attack_state("attack"));
    assert_eq!(t.velocity, Some(Vec2::new(0, 0)));
    assert_eq!(t.impulse, Some(Vec2::new(-30, 5)));
    let event = GameEvent::Action(ME, "attack2".to_string());
    let t = step(&CharacterState::Walk, Direction::Left, 2, ME, &event, &c).unwrap();
    assert_eq!(t.impulse, None);
}

#[test]
fn attack_during_startup_or_active_is_ignored() {
    let c = skeleton();
    for frame_index in [0usize, 1] {
        for wanted in ["attack", "attack2", "kick", "missing"] {
            let event = GameEvent::Action(ME, wanted.to_string());
            let t = step(&attack_state("attack"), Direction::Right, frame_index, ME, &event, &c)
                .unwrap();
            assert_eq!(t, unchanged(attack_state("attack")));
        }
    }
}

#[test]
fn same_attack_during_recovery_chains_to_the_next() {
    let c = skeleton();
    let event = GameEvent::Action(ME, "attack".to_string());
    let t = step(&attack_state("attack"), Direction::Right, 2, ME, &event, &c).unwrap();
    assert_eq!(
        t,
        Transition {
            state: attack_state("attack2"),
            play: play("attack2", 3, false, 300),
            facing: None,
            velocity: None,
            impulse: None,
        }
    );
}

#[test]
fn same_attack_during_recovery_repeats_where_nothing_follows() {
    let c = skeleton();
    let event = GameEvent::Action(ME, "attack2".to_string());
    let t = step(&attack_state("attack2"), Direction::Right, 2, ME, &event, &c).unwrap();
    assert_eq!(t.state, attack_state("attack2"));
    assert_eq!(t.play, play("attack2", 3, false, 300));
}

#[test]
fn family_input_during_recovery_of_a_later_step_continues_the_move() {
    // "attack" begins "attack2", so it is the same move: no next step is
    // named, and the step on show plays again.
    let c = skeleton();
    let event = GameEvent::Action(ME, "attack".to_string());
    let t = step(&attack_state("attack2"), Direction::Left, 2, ME, &event, &c).unwrap();
    assert_eq!(t.state, attack_state("attack2"));
}

#[test]
fn other_attack_during_recovery_replaces_the_attack() {
    let c = skeleton();
    let event = GameEvent::Action(ME, "kick".to_string());
    let t = step(&attack_state("attack"), Direction::Left, 2, ME, &event, &c).unwrap();
    assert_eq!(
        t,
        Transition {
            state: attack_state("kick"),
            play: play("kick", 2, false, 200),
            facing: None,
            velocity: None,
            impulse: None,
        }
    );
    // A longer name is not the same move either.
    let event = GameEvent::Action(ME, "attack2".to_string());
    let t = step(&attack_state("attack"), Direction::Left, 2, ME, &event, &c).unwrap();
    assert_eq!(t.state, attack_state("attack2"));
}

#[test]
fn chained_attack_reapplies_its_impulse() {
    let c = skeleton();
    let event = GameEvent::Action(ME, "attack".to_string());
    let t = step(&attack_state("kick"), Direction::Left, 1, ME, &event, &c).unwrap();
    assert_eq!(t.state, attack_state("attack"));
    assert_eq!(t.impulse, Some(Vec2::new(-30, 5)));
    assert_eq!(t.velocity, None);
}

#[test]
fn combo_scenario_reaches_the_second_attack() {
    let c = skeleton();
    let press = GameEvent::Action(ME, "attack".to_string());
    let first = step(&CharacterState::Idle, Direction::Right, 0, ME, &press, &c).unwrap();
    assert_eq!(first.state, attack_state("attack"));
    let last = first.play.unwrap().frame_count - 1;
    assert_eq!(c.action("attack").unwrap().frame(last).unwrap().stage, ActionStage::Recovery);
    let second = step(&first.state, Direction::Right, last, ME, &press, &c).unwrap();
    assert_eq!(second.state, attack_state("attack2"));
}

#[test]
fn stop_returns_to_idle() {
    let c = skeleton();
    for state in [attack_state("attack"), hit_state("attack", "hit")] {
        let t = step(&state, Direction::Left, 2, ME, &GameEvent::Stop(ME), &c).unwrap();
        assert_eq!(
            t,
            Transition {
                state: CharacterState::Idle,
                play: play("idle", 2, true, 500),
                facing: None,
                velocity: None,
                impulse: None,
            }
        );
    }
}

#[test]
fn hit_staggers_from_any_state() {
    let c = skeleton();
    let event = hit_event(1, Direction::Left, "attack", "hit", Some(Vec2::new(100, 50)));
    for state in [
        CharacterState::Idle,
        CharacterState::Walk,
        attack_state("attack"),
        hit_state("kick", "hit"),
    ] {
        let t = step(&state, Direction::Right, 0, ME, &event, &c).unwrap();
        assert_eq!(
            t,
            Transition {
                state: hit_state("attack", "hit"),
                play: play("hit", 3, false, 100),
                facing: None,
                velocity: None,
                impulse: Some(Vec2::new(-100, 50)),
            }
        );
    }
}

#[test]
fn hit_from_the_right_facing_attacker_keeps_the_impulse() {
    let c = skeleton();
    let event = hit_event(1, Direction::Right, "attack", "hit", Some(Vec2::new(100, 50)));
    let t = step(&CharacterState::Idle, Direction::Left, 0, ME, &event, &c).unwrap();
    assert_eq!(t.impulse, Some(Vec2::new(100, 50)));
    let event = hit_event(1, Direction::Right, "attack", "hit", None);
    let t = step(&CharacterState::Idle, Direction::Left, 0, ME, &event, &c).unwrap();
    assert_eq!(t.impulse, None);
}

#[test]
fn repeated_hit_by_the_same_attack_is_suppressed() {
    let c = skeleton();
    let state = hit_state("attack", "hit");
    for event in [
        hit_event(1, Direction::Left, "attack", "hit", Some(Vec2::new(100, 50))),
        hit_event(1, Direction::Right, "attack", "other", None),
    ] {
        let t = step(&state, Direction::Right, 1, ME, &event, &c).unwrap();
        assert_eq!(t, unchanged(hit_state("attack", "hit")));
    }
}

#[test]
fn hit_told_twice_staggers_once() {
    let c = skeleton();
    let event = hit_event(1, Direction::Left, "attack", "hit", Some(Vec2::new(100, 50)));
    let first = step(&CharacterState::Walk, Direction::Right, 0, ME, &event, &c).unwrap();
    let second = step(&first.state, Direction::Right, 0, ME, &event, &c).unwrap();
    assert_eq!(second.state, first.state);
    assert_eq!(second.play, None);
    assert_eq!(second.impulse, None);
}

#[test]
fn notification_for_someone_else_changes_nothing() {
    let c = skeleton();
    let other = UID(2);
    let events = vec![
        GameEvent::Idle(other),
        GameEvent::Left(other),
        GameEvent::Right(other),
        GameEvent::Action(other, "attack".to_string()),
        GameEvent::Action(other, "missing".to_string()),
        GameEvent::Stop(other),
        hit_event(2, Direction::Left, "attack", "hit", None),
    ];
    for state in [
        CharacterState::Idle,
        CharacterState::Walk,
        attack_state("attack"),
        attack_state("missing"),
        hit_state("kick", "hit"),
    ] {
        for event in &events {
            let t = step(&state, Direction::Left, 9, ME, event, &c).unwrap();
            assert_eq!(t, unchanged(state.clone()));
        }
    }
}

#[test]
fn unmatched_combinations_change_nothing() {
    let c = skeleton();
    let cases = vec![
        (CharacterState::Idle, GameEvent::Idle(ME)),
        (CharacterState::Idle, GameEvent::Stop(ME)),
        (CharacterState::Walk, GameEvent::Stop(ME)),
        (attack_state("attack"), GameEvent::Idle(ME)),
        (attack_state("attack"), GameEvent::Left(ME)),
        (attack_state("attack"), GameEvent::Right(ME)),
        (hit_state("attack", "hit"), GameEvent::Idle(ME)),
        (hit_state("attack", "hit"), GameEvent::Left(ME)),
        (hit_state("attack", "hit"), GameEvent::Action(ME, "attack".to_string())),
    ];
    for (state, event) in cases {
        let t = step(&state, Direction::Right, 0, ME, &event, &c).unwrap();
        assert_eq!(t, unchanged(state.clone()));
    }
}

#[test]
fn attack_that_the_table_lacks_is_reported() {
    let c = skeleton();
    let event = GameEvent::Action(ME, "uppercut".to_string());
    let e = step(&CharacterState::Idle, Direction::Right, 0, ME, &event, &c).unwrap_err();
    assert_eq!(
        e,
        ContentError::MissingAction {
            character: "skeleton".to_string(),
            action: "uppercut".to_string()
        }
    );
    let e = step(&attack_state("attack"), Direction::Right, 2, ME, &event, &c).unwrap_err();
    assert_eq!(
        e,
        ContentError::MissingAction {
            character: "skeleton".to_string(),
            action: "uppercut".to_string()
        }
    );
}

#[test]
fn next_action_that_the_table_lacks_is_reported() {
    let c = skeleton();
    let event = GameEvent::Action(ME, "kick".to_string());
    let e = step(&attack_state("kick"), Direction::Right, 1, ME, &event, &c).unwrap_err();
    assert_eq!(
        e,
        ContentError::MissingAction {
            character: "skeleton".to_string(),
            action: "missing".to_string()
        }
    );
}

#[test]
fn current_action_that_the_table_lacks_is_reported() {
    let c = skeleton();
    let event = GameEvent::Action(ME, "attack".to_string());
    let e = step(&attack_state("gone"), Direction::Right, 0, ME, &event, &c).unwrap_err();
    assert_eq!(
        e,
        ContentError::MissingAction { character: "skeleton".to_string(), action: "gone".to_string() }
    );
}

#[test]
fn frame_beyond_the_action_is_reported() {
    let c = skeleton();
    let event = GameEvent::Action(ME, "attack".to_string());
    let e = step(&attack_state("attack"), Direction::Right, 3, ME, &event, &c).unwrap_err();
    assert_eq!(
        e,
        ContentError::FrameOutOfRange {
            character: "skeleton".to_string(),
            action: "attack".to_string(),
            index: 3
        }
    );
}

#[test]
fn hit_reaction_that_the_table_lacks_is_reported() {
    let c = skeleton();
    let event = hit_event(1, Direction::Left, "attack", "stagger", None);
    let e = step(&CharacterState::Idle, Direction::Right, 0, ME, &event, &c).unwrap_err();
    assert_eq!(
        e,
        ContentError::MissingAction {
            character: "skeleton".to_string(),
            action: "stagger".to_string()
        }
    );
}

#[test]
fn idle_action_that_the_table_lacks_is_reported() {
    let bare = Character::new("bare".to_string(), vec![]).unwrap();
    let e = step(&CharacterState::Walk, Direction::Right, 0, ME, &GameEvent::Idle(ME), &bare)
        .unwrap_err();
    assert_eq!(
        e,
        ContentError::MissingAction { character: "bare".to_string(), action: "idle".to_string() }
    );
    let e = step(&CharacterState::Idle, Direction::Right, 0, ME, &GameEvent::Left(ME), &bare)
        .unwrap_err();
    assert_eq!(
        e,
        ContentError::MissingAction { character: "bare".to_string(), action: "walk".to_string() }
    );
}

#[test]
fn family_is_decided_by_how_the_name_begins() {
    assert!(in_same_family("attack", "attack"));
    assert!(in_same_family("attack2", "attack"));
    assert!(in_same_family("attack", ""));
    assert!(!in_same_family("attack", "attack2"));
    assert!(!in_same_family("attack", "kick"));
    assert!(!in_same_family("heavy_attack", "attack"));
    assert!(!in_same_family("", "a"));
    assert!(in_same_family("斬る2", "斬る"));
    assert!(!in_same_family("斬る2", "斬り"));
}

#[test]
fn event_knows_its_target_and_its_form() {
    assert_eq!(GameEvent::Stop(UID(7)).target(), UID(7));
    assert_eq!(GameEvent::Action(UID(3), "a".to_string()).target(), UID(3));
    assert_eq!(hit_event(9, Direction::Left, "a", "b", None).target(), UID(9));
    assert!(GameEvent::Idle(UID(1)).well_formed());
    assert!(hit_event(9, Direction::Left, "a", "b", Some(Vec2::new(1, 2))).well_formed());
    assert!(!hit_event(9, Direction::Left, "a", "b", Some(Vec2::new(i32::MIN, 2))).well_formed());
}
