use magical_hell::constants::{ENEMY_DAMAGE, PLAYER_HEALTH, PLAYER_SPEED};
use magical_hell::enemy::{EnemyType, SpawnDraw};
use magical_hell::math::Vec2;
use magical_hell::player::{ContactEvent, MoveKeys, PlayerState};
use magical_hell::world::{EntityKind, GameEntity, GameState, Health, World};

fn running() -> World {
    let mut w = World::new();
    assert!(w.request_state(GameState::MainMenu).is_some());
    assert!(w.request_state(GameState::GameInit).is_some());
    assert!(w.init_world());
    w
}

fn keys(up: bool, down: bool, left: bool, right: bool) -> MoveKeys {
    MoveKeys { up, down, left, right }
}

fn contact(a: EntityKind, b: EntityKind) -> ContactEvent {
    ContactEvent { first: GameEntity { id: 1, kind: a }, second: GameEntity { id: 2, kind: b } }
}

fn hit() -> ContactEvent {
    contact(EntityKind::Player, EntityKind::Enemy)
}

#[test]
fn the_default_player_state_is_idle() {
    assert_eq!(PlayerState::default(), PlayerState::Idle);
}

#[test]
fn one_key_moves_along_its_axis() {
    let mut w = running();
    let speed = PLAYER_SPEED as i32;
    assert_eq!(speed, 5000);
    w.handle_player_input(keys(false, false, false, true));
    assert_eq!(w.player().unwrap().intent, Vec2 { x: speed, y: 0 });
    assert_eq!(w.player().unwrap().state, PlayerState::Run);
    w.handle_player_input(keys(false, false, true, false));
    assert_eq!(w.player().unwrap().intent, Vec2 { x: -speed, y: 0 });
    w.handle_player_input(keys(true, false, false, false));
    assert_eq!(w.player().unwrap().intent, Vec2 { x: 0, y: speed });
    w.handle_player_input(keys(false, true, false, false));
    assert_eq!(w.player().unwrap().intent, Vec2 { x: 0, y: -speed });
    assert_eq!(w.player().unwrap().state, PlayerState::Run);
}

#[test]
fn two_keys_move_along_the_diagonal_at_the_same_speed() {
    let mut w = running();
    w.handle_player_input(keys(true, false, false, true));
    assert_eq!(w.player().unwrap().intent, Vec2 { x: 3535, y: 3535 });
    w.handle_player_input(keys(false, true, true, false));
    assert_eq!(w.player().unwrap().intent, Vec2 { x: -3535, y: -3535 });
    w.handle_player_input(keys(true, false, true, false));
    assert_eq!(w.player().unwrap().intent, Vec2 { x: -3535, y: 3535 });
    assert_eq!(w.player().unwrap().state, PlayerState::Run);
}

#[test]
fn no_keys_mean_no_movement() {
    let mut w = running();
    w.handle_player_input(keys(false, false, false, true));
    w.handle_player_input(keys(false, false, false, false));
    assert_eq!(w.player().unwrap().intent, Vec2 { x: 0, y: 0 });
    assert_eq!(w.player().unwrap().state, PlayerState::Idle);
}

#[test]
fn opposite_keys_cancel_out() {
    let mut w = running();
    w.handle_player_input(keys(true, true, true, true));
    assert_eq!(w.player().unwrap().intent, Vec2 { x: 0, y: 0 });
    assert_eq!(w.player().unwrap().state, PlayerState::Idle);
    w.handle_player_input(keys(true, true, false, true));
    assert_eq!(w.player().unwrap().intent, Vec2 { x: 5000, y: 0 });
    assert_eq!(w.player().unwrap().state, PlayerState::Run);
    w.handle_player_input(keys(false, true, true, true));
    assert_eq!(w.player().unwrap().intent, Vec2 { x: 0, y: -5000 });
}

#[test]
fn keys_change_nothing_but_intent_and_state() {
    let mut w = running();
    assert!(w.set_player_position(Vec2 { x: 4, y: 2 }));
    let before = w.player().unwrap();
    w.handle_player_input(keys(true, false, false, false));
    let after = w.player().unwrap();
    assert_eq!(after.id, before.id);
    assert_eq!(after.pos, Vec2 { x: 4, y: 2 });
    assert_eq!(after.health, before.health);
}

#[test]
fn systems_without_a_player_do_nothing() {
    let mut w = World::new();
    w.handle_player_input(keys(true, false, false, false));
    w.handle_player_enemy_collision_events(&vec![hit(); 3]);
    assert!(!w.set_player_position(Vec2 { x: 1, y: 1 }));
    assert_eq!(w.handle_player_death(), None);
    assert!(w.player().is_none());
    assert_eq!(w.state(), GameState::Loading);
}

#[test]
fn every_contact_with_an_enemy_costs_health() {
    let mut w = running();
    w.handle_player_enemy_collision_events(&vec![hit()]);
    assert_eq!(w.player().unwrap().health, Health(PLAYER_HEALTH - ENEMY_DAMAGE));
    assert_eq!(w.player().unwrap().health, Health(99));
    w.handle_player_enemy_collision_events(&vec![hit(); 7]);
    assert_eq!(w.player().unwrap().health, Health(92));
    w.handle_player_enemy_collision_events(&vec![]);
    assert_eq!(w.player().unwrap().health, Health(92));
}

#[test]
fn contacts_count_in_either_order() {
    let mut w = running();
    let events = vec![
        contact(EntityKind::Enemy, EntityKind::Player),
        contact(EntityKind::Player, EntityKind::Enemy),
    ];
    w.handle_player_enemy_collision_events(&events);
    assert_eq!(w.player().unwrap().health, Health(98));
    assert!(events[0].is_player_enemy() && events[1].is_player_enemy());
}

#[test]
fn the_same_enemy_touching_twice_hits_twice() {
    let mut w = running();
    let same = ContactEvent {
        first: GameEntity { id: 0, kind: EntityKind::Player },
        second: GameEntity { id: 9, kind: EntityKind::Enemy },
    };
    w.handle_player_enemy_collision_events(&vec![same, same, same]);
    assert_eq!(w.player().unwrap().health, Health(97));
}

#[test]
fn other_contacts_do_no_harm() {
    let mut w = running();
    let kinds = [
        EntityKind::Player,
        EntityKind::Gun,
        EntityKind::Enemy,
        EntityKind::Bullet,
        EntityKind::Decoration,
    ];
    let mut expected = PLAYER_HEALTH;
    for a in kinds {
        for b in kinds {
            let ev = contact(a, b);
            let counts = matches!(
                (a, b),
                (EntityKind::Player, EntityKind::Enemy) | (EntityKind::Enemy, EntityKind::Player)
            );
            assert_eq!(ev.is_player_enemy(), counts);
            w.handle_player_enemy_collision_events(&vec![ev]);
            if counts {
                expected -= ENEMY_DAMAGE;
            }
            assert_eq!(w.player().unwrap().health, Health(expected));
        }
    }
    assert_eq!(expected, 98);
}

#[test]
fn player_health_stops_at_zero() {
    let mut w = running();
    w.handle_player_enemy_collision_events(&vec![hit(); 99]);
    assert_eq!(w.player().unwrap().health, Health(1));
    w.handle_player_enemy_collision_events(&vec![hit(); 5]);
    assert_eq!(w.player().unwrap().health, Health(0));
    w.handle_player_enemy_collision_events(&vec![hit(); 5]);
    assert_eq!(w.player().unwrap().health, Health(0));

    let mut w = running();
    w.handle_player_enemy_collision_events(&vec![hit(); 100_000]);
    assert_eq!(w.player().unwrap().health, Health(0));
}

#[test]
fn a_living_player_keeps_the_match_running() {
    let mut w = running();
    w.handle_player_enemy_collision_events(&vec![hit(); 99]);
    assert_eq!(w.handle_player_death(), None);
    assert_eq!(w.state(), GameState::InGame);
    assert_eq!(w.player().unwrap().health, Health(1));
    assert!(w.gun().is_some());
}

#[test]
fn the_death_of_the_player_ends_the_match_once() {
    let mut w = running();
    let spawn = SpawnDraw { kind: EnemyType::Red, pos: Vec2 { x: 0, y: 0 } };
    assert_eq!(w.spawn_enemies_with(&vec![spawn; 3]), 3);
    let all = w.game_entities();
    assert_eq!(all.len(), 5);
    w.handle_player_enemy_collision_events(&vec![hit(); 100]);
    assert_eq!(w.player().unwrap().health, Health(0));
    assert_eq!(w.state(), GameState::InGame);

    assert_eq!(w.handle_player_death(), Some(all));
    assert_eq!(w.state(), GameState::MainMenu);
    assert!(w.player().is_none());
    assert!(w.gun().is_none());
    assert!(w.enemies().is_empty());
    assert!(w.game_entities().is_empty());

    for _ in 0..3 {
        assert_eq!(w.handle_player_death(), None);
        assert_eq!(w.state(), GameState::MainMenu);
    }
}
