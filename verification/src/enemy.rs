//! The enemies: how many may spawn and where, how they chase the player, and
//! when they leave.

use crate::constants::{
    ENEMY_HEALTH, ENEMY_SPAWN_DISTANCE_MAX, ENEMY_SPAWN_DISTANCE_MIN, ENEMY_SPEED,
    MAX_NUM_ENEMIES, SPAWN_RATE_PER_SECOND,
};
use crate::math::{
    distance_squared, get_random_position_around, is_around, lemma_around_is_in_ring,
    lemma_scaled_along_x, lemma_scaled_along_y, lemma_scaled_bounded, scaled, uniform, Vec2,
};
use crate::world::{
    enemy_entities, id_after, lemma_id_after_next, EntityKind, GameEntity, Health, World,
    WorldView,
};
use vstd::prelude::*;

verus! {

/// The three looks of an enemy. They differ in nothing else.
#[derive(Clone, Copy, Debug, PartialEq, Eq, Structural)]
pub enum EnemyType {
    Green,
    Red,
    Skin,
}

/// An enemy. `intent` is the displacement it asks for this tick.
#[derive(Clone, Copy, Debug, PartialEq, Eq, Structural)]
pub struct Enemy {
    pub id: u64,
    pub pos: Vec2,
    pub health: Health,
    pub kind: EnemyType,
    pub intent: Vec2,
}

/// What is drawn for one new enemy: its look and its place.
#[derive(Clone, Copy, Debug, PartialEq, Eq, Structural)]
pub struct SpawnDraw {
    pub kind: EnemyType,
    pub pos: Vec2,
}

impl EnemyType {
    /// The look that a draw of `i` stands for.
    pub open spec fn of_index(i: int) -> EnemyType {
        if i == 0 {
            EnemyType::Green
        } else if i == 1 {
            EnemyType::Red
        } else {
            EnemyType::Skin
        }
    }

    /// The look that a draw of `i` stands for: 0 is green, 1 is red, anything
    /// else is skin.
    pub fn from_index(i: u32) -> (kind: EnemyType)
        ensures
            kind == Self::of_index(i as int),
    {
        match i {
            0 => EnemyType::Green,
            1 => EnemyType::Red,
            _ => EnemyType::Skin,
        }
    }

    /// Draws a look, each of the three as likely as the others.
    pub fn get_rand_enemy() -> (kind: EnemyType)
        ensures
            exists|i: int| 0 <= i < 3 && kind == #[trigger] Self::of_index(i),
    {
        let rand_index: i64 = uniform(0, 3);
        Self::from_index(rand_index as u32)
    }

    /// The first frame of this look on the sprite sheet.
    pub fn get_base_sprite_index(&self) -> (index: usize)
        ensures
            index == match *self {
                EnemyType::Green => 8usize,
                EnemyType::Red => 12usize,
                EnemyType::Skin => 20usize,
            },
    {
        match self {
            EnemyType::Green => 8,
            EnemyType::Red => 12,
            EnemyType::Skin => 20,
        }
    }
}

/// How many enemies one wave adds to `count` living ones: what is missing to
/// the cap, but no more than the rate allows, and nothing once the cap is
/// reached.
pub open spec fn spawn_quota(count: nat) -> nat {
    if count >= MAX_NUM_ENEMIES {
        0
    } else if MAX_NUM_ENEMIES - count < SPAWN_RATE_PER_SECOND {
        (MAX_NUM_ENEMIES - count) as nat
    } else {
        SPAWN_RATE_PER_SECOND as nat
    }
}

/// A draw that places an enemy in the ring around the player.
pub open spec fn is_spawn_draw(player: Vec2, draw: SpawnDraw) -> bool {
    is_around(player, draw.pos, ENEMY_SPAWN_DISTANCE_MIN, ENEMY_SPAWN_DISTANCE_MAX)
}

/// The enemy that a draw creates: unhurt, at the drawn place, not yet moving.
pub open spec fn spawned_enemy(id: u64, draw: SpawnDraw) -> Enemy {
    Enemy {
        id,
        pos: draw.pos,
        health: Health(ENEMY_HEALTH),
        kind: draw.kind,
        intent: Vec2 { x: 0, y: 0 },
    }
}

/// The enemy steered at the player: it asks to move by `ENEMY_SPEED` straight
/// toward `player`, or not at all if it stands on the player's very position.
pub open spec fn pursuing(enemy: Enemy, player: Vec2) -> Enemy {
    Enemy {
        intent: scaled(player.x - enemy.pos.x, player.y - enemy.pos.y, ENEMY_SPEED as nat),
        ..enemy
    }
}

/// The test that picks the living enemies.
pub open spec fn alive() -> spec_fn(Enemy) -> bool {
    |e: Enemy| e.health.0 != 0
}

/// The test that picks the dead enemies.
pub open spec fn dead() -> spec_fn(Enemy) -> bool {
    |e: Enemy| e.health.0 == 0
}

/// An enemy spawns in the ring around the player, up to rounding: no nearer
/// than 3 steps short of the least spawn distance and less than 9 steps
/// beyond the greatest, wherever the player is far enough from the edge of
/// the plane for the ring to fit.
pub proof fn lemma_spawn_draw_is_in_ring(player: Vec2, draw: SpawnDraw)
    requires
        is_spawn_draw(player, draw),
        -i32::MAX + ENEMY_SPAWN_DISTANCE_MAX <= player.x <= i32::MAX - ENEMY_SPAWN_DISTANCE_MAX,
        -i32::MAX + ENEMY_SPAWN_DISTANCE_MAX <= player.y <= i32::MAX - ENEMY_SPAWN_DISTANCE_MAX,
    ensures
        (ENEMY_SPAWN_DISTANCE_MIN - 3) * (ENEMY_SPAWN_DISTANCE_MIN - 3) < distance_squared(
            draw.pos,
            player,
        ),
        distance_squared(draw.pos, player) < (ENEMY_SPAWN_DISTANCE_MAX + 9) * (
        ENEMY_SPAWN_DISTANCE_MAX + 9),
{
    lemma_around_is_in_ring(
        player,
        draw.pos,
        ENEMY_SPAWN_DISTANCE_MIN,
        ENEMY_SPAWN_DISTANCE_MAX,
    );
}

/// A spawn wave never takes the enemies over the cap, whatever is drawn.
pub proof fn lemma_spawn_keeps_cap(w: WorldView, draws: Seq<SpawnDraw>)
    requires
        w.enemies.len() <= MAX_NUM_ENEMIES,
    ensures
        w.enemies_spawned(draws).enemies.len() <= MAX_NUM_ENEMIES,
        w.enemies_spawned(draws).enemies.len() == w.enemies.len() + w.spawn_count(draws.len()),
{
}

/// With as many enemies as the cap allows, a spawn wave creates none and
/// leaves the registry as it was.
pub proof fn lemma_spawn_at_cap_adds_nothing(w: WorldView, draws: Seq<SpawnDraw>)
    requires
        w.enemies.len() == MAX_NUM_ENEMIES,
    ensures
        spawn_quota(w.enemies.len()) == 0,
        w.spawn_count(draws.len()) == 0,
        w.enemies_spawned(draws) == w,
{
    assert(w.enemies_spawned(draws).enemies =~= w.enemies);
}

/// An enemy level with the player, to its left or right, asks to move
/// straight along x toward it, by the full enemy speed; an enemy straight
/// above or below it, along y. An enemy on the player's very position asks
/// for no movement.
pub proof fn lemma_pursuit_on_axis(enemy: Enemy, player: Vec2)
    ensures
        enemy.pos == player ==> pursuing(enemy, player).intent == (Vec2 { x: 0, y: 0 }),
        enemy.pos.y == player.y && enemy.pos.x < player.x ==> pursuing(enemy, player).intent == (
        Vec2 { x: ENEMY_SPEED as i32, y: 0 }),
        enemy.pos.y == player.y && enemy.pos.x > player.x ==> pursuing(enemy, player).intent == (
        Vec2 { x: (-ENEMY_SPEED) as i32, y: 0 }),
        enemy.pos.x == player.x && enemy.pos.y < player.y ==> pursuing(enemy, player).intent == (
        Vec2 { x: 0, y: ENEMY_SPEED as i32 }),
        enemy.pos.x == player.x && enemy.pos.y > player.y ==> pursuing(enemy, player).intent == (
        Vec2 { x: 0, y: (-ENEMY_SPEED) as i32 }),
{
    let dx = player.x - enemy.pos.x;
    let dy = player.y - enemy.pos.y;
    if dy == 0 && dx != 0 {
        lemma_scaled_along_x(dx, ENEMY_SPEED as nat);
    }
    if dx == 0 && dy != 0 {
        lemma_scaled_along_y(dy, ENEMY_SPEED as nat);
    }
}

/// Wherever enemy and player stand, the enemy asks to move no further than
/// the enemy speed along either axis, and never away from the player.
pub proof fn lemma_pursuit_bounded(enemy: Enemy, player: Vec2)
    ensures
        -ENEMY_SPEED <= pursuing(enemy, player).intent.x <= ENEMY_SPEED,
        -ENEMY_SPEED <= pursuing(enemy, player).intent.y <= ENEMY_SPEED,
        player.x >= enemy.pos.x ==> pursuing(enemy, player).intent.x >= 0,
        player.x <= enemy.pos.x ==> pursuing(enemy, player).intent.x <= 0,
        player.y >= enemy.pos.y ==> pursuing(enemy, player).intent.y >= 0,
        player.y <= enemy.pos.y ==> pursuing(enemy, player).intent.y <= 0,
{
    lemma_scaled_bounded(player.x - enemy.pos.x, player.y - enemy.pos.y, ENEMY_SPEED as nat);
}

/// How many enemies one wave adds to `count` living ones.
pub fn spawn_quota_for(count: usize) -> (quota: usize)
    ensures
        quota == spawn_quota(count as nat),
        count + quota <= MAX_NUM_ENEMIES || quota == 0,
{
    if count >= MAX_NUM_ENEMIES {
        0
    } else if MAX_NUM_ENEMIES - count < SPAWN_RATE_PER_SECOND {
        MAX_NUM_ENEMIES - count
    } else {
        SPAWN_RATE_PER_SECOND
    }
}

/// Draws look and place for `n` new enemies around `player`, each on its own.
pub fn random_spawn_draws(player: Vec2, n: usize) -> (draws: Vec<SpawnDraw>)
    ensures
        draws@.len() == n,
        forall|i: int| 0 <= i < draws@.len() ==> is_spawn_draw(player, #[trigger] draws@[i]),
{
    let mut draws: Vec<SpawnDraw> = Vec::new();
    let mut i: usize = 0;
    while i < n
        invariant
            i <= n,
            draws@.len() == i,
            forall|k: int| 0 <= k < draws@.len() ==> is_spawn_draw(player, #[trigger] draws@[k]),
        decreases n - i,
    {
        let kind = EnemyType::get_rand_enemy();
        let pos = get_random_position_around(
            player,
            ENEMY_SPAWN_DISTANCE_MIN,
            ENEMY_SPAWN_DISTANCE_MAX,
        );
        draws.push(SpawnDraw { kind, pos });
        i = i + 1;
    }
    draws
}

impl WorldView {
    /// How many enemies a spawn wave creates when `available` draws are at
    /// hand: none without a player, else one per draw up to the quota.
    pub open spec fn spawn_count(self, available: nat) -> nat {
        match self.player {
            Some(p) => if available < spawn_quota(self.enemies.len()) {
                available
            } else {
                spawn_quota(self.enemies.len())
            },
            None => 0,
        }
    }

    /// The registry after a spawn wave with the given draws: the new enemies
    /// follow the living ones, the `i`-th made from the `i`-th draw.
    pub open spec fn enemies_spawned(self, draws: Seq<SpawnDraw>) -> WorldView {
        let n = self.spawn_count(draws.len());
        WorldView {
            enemies: self.enemies + Seq::new(
                n,
                |i: int| spawned_enemy(id_after(self.next_id, i), draws[i]),
            ),
            next_id: id_after(self.next_id, n as int),
            ..self
        }
    }

    /// The registry after every enemy has been steered at the player.
    /// Without a player nothing changes.
    pub open spec fn enemies_steered(self) -> WorldView {
        match self.player {
            Some(p) => WorldView {
                enemies: Seq::new(self.enemies.len(), |i: int| pursuing(self.enemies[i], p.pos)),
                ..self
            },
            None => self,
        }
    }

    /// The registry after the dead enemies have been removed. The living
    /// stay, in their order.
    pub open spec fn dead_removed(self) -> WorldView {
        WorldView { enemies: self.enemies.filter(alive()), ..self }
    }

    /// The registry after the `index`-th enemy has taken a hit of `amount`.
    /// With no such enemy nothing changes.
    pub open spec fn enemy_damaged(self, index: int, amount: u32) -> WorldView {
        if 0 <= index < self.enemies.len() {
            let e = self.enemies[index];
            WorldView {
                enemies: self.enemies.update(
                    index,
                    Enemy { health: Health(crate::world::damaged(e.health.0, amount)), ..e },
                ),
                ..self
            }
        } else {
            self
        }
    }

    /// The registry after the `index`-th enemy has been found at `pos`.
    /// With no such enemy nothing changes.
    pub open spec fn enemy_moved(self, index: int, pos: Vec2) -> WorldView {
        if 0 <= index < self.enemies.len() {
            WorldView {
                enemies: self.enemies.update(index, Enemy { pos, ..self.enemies[index] }),
                ..self
            }
        } else {
            self
        }
    }
}

impl World {
    /// Runs a spawn wave with the draws given: creates enemies, unhurt, one
    /// per draw up to the quota, and none without a player. Returns how many
    /// were created; they are the last of the enemies.
    pub fn spawn_enemies_with(&mut self, draws: &Vec<SpawnDraw>) -> (spawned: usize)
        requires
            old(self)@.wf(),
        ensures
            final(self)@ == old(self)@.enemies_spawned(draws@),
            spawned == old(self)@.spawn_count(draws@.len()),
            final(self)@.enemies.len() <= MAX_NUM_ENEMIES,
            final(self)@.wf(),
    {
        let ghost target = old(self)@.enemies_spawned(draws@);
        if self.player.is_none() {
            assert(self@.enemies =~= target.enemies);
            return 0;
        }
        let quota: usize = spawn_quota_for(self.enemies.len());
        let count: usize = if draws.len() < quota {
            draws.len()
        } else {
            quota
        };
        let ghost first = old(self)@.next_id;
        let ghost had = old(self)@.enemies;
        proof {
            lemma_id_after_next(first, 0);
        }
        let mut i: usize = 0;
        while i < count
            invariant
                i <= count <= draws.len(),
                self@.next_id == id_after(first, i as int),
                self@.enemies.len() == had.len() + i,
                forall|k: int| 0 <= k < had.len() ==> self@.enemies[k] == had[k],
                forall|k: int|
                    0 <= k < i ==> self@.enemies[had.len() + k] == spawned_enemy(
                        id_after(first, k),
                        draws@[k],
                    ),
                self@ == (WorldView {
                    enemies: self@.enemies,
                    next_id: self@.next_id,
                    ..old(self)@
                }),
            decreases count - i,
        {
            proof {
                lemma_id_after_next(first, i as int);
            }
            let id: u64 = self.fresh_id();
            let draw = draws[i];
            self.enemies.push(
                Enemy {
                    id,
                    pos: draw.pos,
                    health: Health(ENEMY_HEALTH),
                    kind: draw.kind,
                    intent: Vec2 { x: 0, y: 0 },
                },
            );
            i = i + 1;
        }
        assert(self@.enemies =~= target.enemies);
        count
    }

    /// Runs a spawn wave: with a player present and fewer enemies than the
    /// cap, creates what is missing to the cap, but no more than the rate
    /// allows, each enemy unhurt, of a look drawn evenly from the three, at a
    /// place drawn in the ring around the player. Returns how many were
    /// created; they are the last of the enemies.
    pub fn spawn_enemies(&mut self) -> (spawned: usize)
        requires
            old(self)@.wf(),
        ensures
            exists|draws: Seq<SpawnDraw>|
                #![trigger old(self)@.enemies_spawned(draws)]
                draws.len() == old(self)@.spawn_count(spawn_quota(old(self)@.enemies.len()))
                    && (forall|i: int|
                    0 <= i < draws.len() ==> is_spawn_draw(
                        old(self)@.player->0.pos,
                        #[trigger] draws[i],
                    )) && final(self)@ == old(self)@.enemies_spawned(draws),
            spawned == old(self)@.spawn_count(spawn_quota(old(self)@.enemies.len())),
            final(self)@.enemies.len() <= MAX_NUM_ENEMIES,
            final(self)@.wf(),
    {
        match self.player {
            Some(p) => {
                let quota: usize = spawn_quota_for(self.enemies.len());
                let draws = random_spawn_draws(p.pos, quota);
                self.spawn_enemies_with(&draws)
            },
            None => {
                let draws: Vec<SpawnDraw> = Vec::new();
                self.spawn_enemies_with(&draws)
            },
        }
    }

    /// Steers every enemy at the player: its intent for this tick becomes the
    /// displacement of length `ENEMY_SPEED` straight toward the player, or no
    /// movement where the two stand on the same position. Without a player
    /// nothing changes.
    pub fn update_enemy_transform(&mut self)
        requires
            old(self)@.wf(),
        ensures
            final(self)@ == old(self)@.enemies_steered(),
            final(self)@.wf(),
    {
        let p = match self.player {
            Some(p) => p,
            None => {
                return ;
            },
        };
        let ghost target = old(self)@.enemies_steered();
        let mut i: usize = 0;
        while i < self.enemies.len()
            invariant
                i <= self.enemies.len(),
                self.enemies@.len() == old(self)@.enemies.len(),
                old(self)@.player == Some(p),
                old(self)@.wf(),
                target == old(self)@.enemies_steered(),
                forall|k: int| 0 <= k < i ==> self.enemies@[k] == target.enemies[k],
                forall|k: int|
                    i <= k < self.enemies@.len() ==> self.enemies@[k] == old(self)@.enemies[k],
                self@ == (WorldView { enemies: self@.enemies, ..old(self)@ }),
            decreases self.enemies.len() - i,
        {
            let e = self.enemies[i];
            let intent = e.pos.toward(p.pos, ENEMY_SPEED);
            self.enemies.set(
                i,
                Enemy { id: e.id, pos: e.pos, health: e.health, kind: e.kind, intent },
            );
            i = i + 1;
        }
        assert(self@.enemies =~= target.enemies);
    }

    /// Removes the enemies whose health is zero. The living stay, in their
    /// order. Returns the removed enemies, in their order.
    pub fn despawn_dead_enemies(&mut self) -> (removed: Vec<GameEntity>)
        requires
            old(self)@.wf(),
        ensures
            final(self)@ == old(self)@.dead_removed(),
            removed@ == enemy_entities(old(self)@.enemies.filter(dead())),
            forall|i: int|
                0 <= i < final(self)@.enemies.len() ==> 0 < (
                #[trigger] final(self)@.enemies[i]).health.0,
            final(self)@.wf(),
    {
        let mut kept: Vec<Enemy> = Vec::new();
        let mut removed: Vec<GameEntity> = Vec::new();
        let mut i: usize = 0;
        while i < self.enemies.len()
            invariant
                i <= self.enemies.len(),
                *self == *old(self),
                old(self)@.wf(),
                kept@ == self.enemies@.take(i as int).filter(alive()),
                removed@ == enemy_entities(self.enemies@.take(i as int).filter(dead())),
                kept@.len() <= i,
                forall|k: int|
                    0 <= k < kept@.len() ==> 0 < (#[trigger] kept@[k]).health.0 <= ENEMY_HEALTH,
            decreases self.enemies.len() - i,
        {
            let e = self.enemies[i];
            proof {
                let head = self.enemies@.take(i as int);
                assert(self.enemies@.take(i + 1) =~= head.push(e));
                head.lemma_filter_push(e, alive());
                head.lemma_filter_push(e, dead());
                assert(e == old(self)@.enemies[i as int]);
            }
            if e.health.0 == 0 {
                removed.push(GameEntity { id: e.id, kind: EntityKind::Enemy });
                assert(removed@ =~= enemy_entities(self.enemies@.take(i + 1).filter(dead())));
            } else {
                kept.push(e);
            }
            i = i + 1;
        }
        assert(self.enemies@.take(i as int) =~= self.enemies@);
        self.enemies = kept;
        removed
    }

    /// Takes `amount` off the health of the `index`-th enemy, stopping at
    /// zero, and says whether there is such an enemy.
    pub fn damage_enemy(&mut self, index: usize, amount: u32) -> (found: bool)
        requires
            old(self)@.wf(),
        ensures
            found == (index < old(self)@.enemies.len()),
            final(self)@ == old(self)@.enemy_damaged(index as int, amount),
            final(self)@.wf(),
    {
        if index >= self.enemies.len() {
            return false;
        }
        let e = self.enemies[index];
        let mut health = e.health;
        health.apply_damage(amount);
        self.enemies.set(
            index,
            Enemy { id: e.id, pos: e.pos, health, kind: e.kind, intent: e.intent },
        );
        assert(self@.enemies =~= old(self)@.enemy_damaged(index as int, amount).enemies);
        true
    }

    /// Records where the `index`-th enemy now stands, and says whether there
    /// is such an enemy.
    pub fn set_enemy_position(&mut self, index: usize, pos: Vec2) -> (found: bool)
        requires
            old(self)@.wf(),
        ensures
            found == (index < old(self)@.enemies.len()),
            final(self)@ == old(self)@.enemy_moved(index as int, pos),
            final(self)@.wf(),
    {
        if index >= self.enemies.len() {
            return false;
        }
        let e = self.enemies[index];
        self.enemies.set(
            index,
            Enemy { id: e.id, pos, health: e.health, kind: e.kind, intent: e.intent },
        );
        assert(self@.enemies =~= old(self)@.enemy_moved(index as int, pos).enemies);
        true
    }
}

} // verus!
