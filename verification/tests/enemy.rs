use magical_hell::constants::{
    ENEMY_HEALTH, ENEMY_SPAWN_DISTANCE_MAX, ENEMY_SPAWN_DISTANCE_MIN, ENEMY_SPEED, MAX_NUM_ENEMIES,
};
use magical_hell::enemy::{random_spawn_draws, spawn_quota_for, EnemyType, SpawnDraw};
use magical_hell::math::Vec2;
use magical_hell::world::{EntityKind, GameEntity, GameState, Health, World};

fn running() -> World {
    let mut w = World::new();
    assert!(w.request_state(GameState::MainMenu).is_some());
    assert!(w.request_state(GameState::GameInit).is_some());
    assert!(w.init_world());
    w
}

fn draw_at(x: i32, y: i32) -> SpawnDraw {
    SpawnDraw { kind: EnemyType::Green, pos: Vec2 { x, y } }
}

#[test]
fn sprite_indices_of_the_three_looks() {
    assert_eq!(EnemyType::Green.get_base_sprite_index(), 8);
    assert_eq!(EnemyType::Red.get_base_sprite_index(), 12);
    assert_eq!(EnemyType::Skin.get_base_sprite_index(), 20);
}

#[test]
fn looks_by_index() {
    assert_eq!(EnemyType::from_index(0), EnemyType::Green);
    assert_eq!(EnemyType::from_index(1), EnemyType::Red);
    assert_eq!(EnemyType::from_index(2), EnemyType::Skin);
    assert_eq!(EnemyType::from_index(3), EnemyType::Skin);
    assert_eq!(EnemyType::from_index(u32::MAX), EnemyType::Skin);
}

#[test]
fn random_looks_cover_all_three() {
    let mut seen = [false; 3];
    for _ in 0..300 {
        match EnemyType::get_rand_enemy() {
            EnemyType::Green => seen[0] = true,
            EnemyType::Red => seen[1] = true,
            EnemyType::Skin => seen[2] = true,
        }
    }
    assert_eq!(seen, [true; 3]);
}

#[test]
fn quota_is_what_is_missing_to_the_cap() {
    assert_eq!(MAX_NUM_ENEMIES, 5);
    assert_eq!(spawn_quota_for(0), 5);
    assert_eq!(spawn_quota_for(1), 4);
    assert_eq!(spawn_quota_for(4), 1);
    assert_eq!(spawn_quota_for(5), 0);
    assert_eq!(spawn_quota_for(6), 0);
    assert_eq!(spawn_quota_for(usize::MAX), 0);
}

#[test]
fn a_wave_fills_up_to_the_cap() {
    let mut w = running();
    assert_eq!(w.spawn_enemies(), 5);
    assert_eq!(w.enemy_count(), 5);
    for e in w.enemies() {
        assert_eq!(e.health, Health(ENEMY_HEALTH));
        assert_eq!(e.intent, Vec2 { x: 0, y: 0 });
    }
}

#[test]
fn a_wave_at_the_cap_spawns_nothing() {
    let mut w = running();
    assert_eq!(w.spawn_enemies(), 5);
    let before: Vec<_> = w.enemies().clone();
    assert_eq!(w.spawn_enemies(), 0);
    assert_eq!(w.spawn_enemies_with(&vec![draw_at(1, 1); 10]), 0);
    assert_eq!(w.enemies(), &before);
}

#[test]
fn the_population_never_exceeds_the_cap() {
    let mut w = running();
    for round in 0..50 {
        w.spawn_enemies();
        assert!(w.enemy_count() <= MAX_NUM_ENEMIES);
        if round % 3 == 0 {
            w.damage_enemy(round % 5, ENEMY_HEALTH);
            w.despawn_dead_enemies();
        }
        w.spawn_enemies_with(&vec![draw_at(round as i32, -(round as i32)); 8]);
        assert!(w.enemy_count() <= MAX_NUM_ENEMIES);
    }
    assert_eq!(w.enemy_count(), MAX_NUM_ENEMIES);
}

#[test]
fn a_wave_refills_after_losses() {
    let mut w = running();
    assert_eq!(w.spawn_enemies(), 5);
    assert!(w.damage_enemy(1, ENEMY_HEALTH));
    assert!(w.damage_enemy(3, ENEMY_HEALTH));
    assert_eq!(w.despawn_dead_enemies().len(), 2);
    assert_eq!(w.enemy_count(), 3);
    assert_eq!(w.spawn_enemies(), 2);
    assert_eq!(w.enemy_count(), 5);
}

#[test]
fn a_wave_without_a_player_spawns_nothing() {
    let mut w = World::new();
    assert_eq!(w.spawn_enemies(), 0);
    assert_eq!(w.spawn_enemies_with(&vec![draw_at(0, 0)]), 0);
    assert!(w.request_state(GameState::MainMenu).is_some());
    assert_eq!(w.spawn_enemies(), 0);
    assert!(w.request_state(GameState::GameInit).is_some());
    assert_eq!(w.spawn_enemies_with(&vec![draw_at(0, 0)]), 0);
    assert_eq!(w.enemy_count(), 0);
    assert!(w.game_entities().is_empty());
}

#[test]
fn a_wave_uses_its_draws_in_order() {
    let mut w = running();
    let draws = vec![
        SpawnDraw { kind: EnemyType::Red, pos: Vec2 { x: 500_000, y: 1 } },
        SpawnDraw { kind: EnemyType::Skin, pos: Vec2 { x: -2, y: 550_000 } },
    ];
    assert_eq!(w.spawn_enemies_with(&draws), 2);
    let enemies = w.enemies();
    assert_eq!(enemies.len(), 2);
    assert_eq!(enemies[0].kind, EnemyType::Red);
    assert_eq!(enemies[0].pos, Vec2 { x: 500_000, y: 1 });
    assert_eq!(enemies[0].health, Health(100));
    assert_eq!(enemies[1].kind, EnemyType::Skin);
    assert_eq!(enemies[1].pos, Vec2 { x: -2, y: 550_000 });
    assert_eq!(enemies[1].id, enemies[0].id + 1);
}

#[test]
fn a_wave_takes_no_more_draws_than_its_quota() {
    let mut w = running();
    assert_eq!(w.spawn_enemies_with(&vec![draw_at(1, 0), draw_at(2, 0), draw_at(3, 0)]), 3);
    let more: Vec<_> = (10..20).map(|x| draw_at(x, 0)).collect();
    assert_eq!(w.spawn_enemies_with(&more), 2);
    let xs: Vec<i32> = w.enemies().iter().map(|e| e.pos.x).collect();
    assert_eq!(xs, vec![1, 2, 3, 10, 11]);
    assert_eq!(w.spawn_enemies_with(&vec![]), 0);
}

#[test]
fn random_spawn_draws_lie_in_the_ring_around_the_player() {
    let player = Vec2 { x: 40_000, y: -70_000 };
    let draws = random_spawn_draws(player, 300);
    assert_eq!(draws.len(), 300);
    for d in &draws {
        let dx = (d.pos.x - player.x) as f64;
        let dy = (d.pos.y - player.y) as f64;
        let dist = (dx * dx + dy * dy).sqrt();
        assert!(dist > ENEMY_SPAWN_DISTANCE_MIN as f64 - 3.0, "too near: {}", dist);
        assert!(dist < ENEMY_SPAWN_DISTANCE_MAX as f64 + 9.0, "too far: {}", dist);
    }
    assert!(random_spawn_draws(player, 0).is_empty());
}

#[test]
fn spawned_enemies_stand_around_the_player() {
    let mut w = running();
    assert!(w.set_player_position(Vec2 { x: 1_000_000, y: 2_000_000 }));
    assert_eq!(w.spawn_enemies(), 5);
    for e in w.enemies() {
        let dx = (e.pos.x - 1_000_000) as f64;
        let dy = (e.pos.y - 2_000_000) as f64;
        let dist = (dx * dx + dy * dy).sqrt();
        assert!(dist > 499_997.0 && dist < 600_009.0, "{}", dist);
    }
}

#[test]
fn an_enemy_left_of_the_player_moves_along_x() {
    let mut w = running();
    assert!(w.set_player_position(Vec2 { x: 10_000, y: 0 }));
    assert_eq!(w.spawn_enemies_with(&vec![draw_at(0, 0)]), 1);
    w.update_enemy_transform();
    assert_eq!(w.enemies()[0].intent, Vec2 { x: ENEMY_SPEED as i32, y: 0 });
    assert_eq!(w.enemies()[0].intent, Vec2 { x: 1000, y: 0 });
    assert_eq!(w.enemies()[0].pos, Vec2 { x: 0, y: 0 });
}

#[test]
fn enemies_are_steered_straight_at_the_player() {
    let mut w = running();
    assert!(w.set_player_position(Vec2 { x: 100, y: 100 }));
    let draws = vec![
        draw_at(100, 900),
        draw_at(-2900, -3900),
        draw_at(1100, 1100),
        draw_at(900_100, 100),
    ];
    assert_eq!(w.spawn_enemies_with(&draws), 4);
    w.update_enemy_transform();
    let intents: Vec<Vec2> = w.enemies().iter().map(|e| e.intent).collect();
    assert_eq!(
        intents,
        vec![
            Vec2 { x: 0, y: -1000 },
            Vec2 { x: 600, y: 800 },
            Vec2 { x: -707, y: -707 },
            Vec2 { x: -1000, y: 0 },
        ]
    );
}

#[test]
fn an_enemy_on_the_player_does_not_move() {
    let mut w = running();
    assert!(w.set_player_position(Vec2 { x: 77, y: -5 }));
    assert_eq!(w.spawn_enemies_with(&vec![draw_at(77, -5), draw_at(78, -5)]), 2);
    w.update_enemy_transform();
    assert_eq!(w.enemies()[0].intent, Vec2 { x: 0, y: 0 });
    assert_eq!(w.enemies()[1].intent, Vec2 { x: -1000, y: 0 });
    // once it has been steered, an enemy that reaches the player stops
    assert!(w.set_enemy_position(1, Vec2 { x: 77, y: -5 }));
    w.update_enemy_transform();
    assert_eq!(w.enemies()[1].intent, Vec2 { x: 0, y: 0 });
}

#[test]
fn steering_follows_the_player() {
    let mut w = running();
    assert_eq!(w.spawn_enemies_with(&vec![draw_at(0, 500_000)]), 1);
    w.update_enemy_transform();
    assert_eq!(w.enemies()[0].intent, Vec2 { x: 0, y: -1000 });
    assert!(w.set_player_position(Vec2 { x: 0, y: 900_000 }));
    w.update_enemy_transform();
    assert_eq!(w.enemies()[0].intent, Vec2 { x: 0, y: 1000 });
}

#[test]
fn steering_without_a_player_does_nothing() {
    let mut w = World::new();
    w.update_enemy_transform();
    assert_eq!(w.enemy_count(), 0);
    assert_eq!(w.state(), GameState::Loading);
}

#[test]
fn enemy_positions_are_recorded_by_index() {
    let mut w = running();
    assert_eq!(w.spawn_enemies_with(&vec![draw_at(1, 1), draw_at(2, 2)]), 2);
    assert!(w.set_enemy_position(1, Vec2 { x: -9, y: 9 }));
    assert!(!w.set_enemy_position(2, Vec2 { x: 5, y: 5 }));
    assert!(!w.set_enemy_position(usize::MAX, Vec2 { x: 5, y: 5 }));
    assert_eq!(w.enemies()[0].pos, Vec2 { x: 1, y: 1 });
    assert_eq!(w.enemies()[1].pos, Vec2 { x: -9, y: 9 });
}

#[test]
fn enemy_health_stops_at_zero() {
    let mut w = running();
    assert_eq!(w.spawn_enemies_with(&vec![draw_at(1, 1), draw_at(2, 2)]), 2);
    assert!(w.damage_enemy(0, 15));
    assert_eq!(w.enemies()[0].health, Health(85));
    assert!(w.damage_enemy(0, 85));
    assert_eq!(w.enemies()[0].health, Health(0));
    assert!(w.damage_enemy(0, 1));
    assert_eq!(w.enemies()[0].health, Health(0));
    assert!(w.damage_enemy(1, u32::MAX));
    assert_eq!(w.enemies()[1].health, Health(0));
    assert!(!w.damage_enemy(2, 1));
}

#[test]
fn dead_enemies_are_removed_and_the_living_keep_their_order() {
    let mut w = running();
    let draws: Vec<_> = (0..5).map(|x| draw_at(x, 0)).collect();
    assert_eq!(w.spawn_enemies_with(&draws), 5);
    let ids: Vec<u64> = w.enemies().iter().map(|e| e.id).collect();
    assert!(w.despawn_dead_enemies().is_empty());
    assert_eq!(w.enemy_count(), 5);
    assert!(w.damage_enemy(0, 100));
    assert!(w.damage_enemy(2, 99));
    assert!(w.damage_enemy(3, 250));
    let removed = w.despawn_dead_enemies();
    assert_eq!(
        removed,
        vec![
            GameEntity { id: ids[0], kind: EntityKind::Enemy },
            GameEntity { id: ids[3], kind: EntityKind::Enemy },
        ]
    );
    let left: Vec<u64> = w.enemies().iter().map(|e| e.id).collect();
    assert_eq!(left, vec![ids[1], ids[2], ids[4]]);
    assert_eq!(w.enemies()[1].health, Health(1));
    assert!(w.despawn_dead_enemies().is_empty());
}
