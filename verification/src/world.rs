//! The entity registry and the match lifecycle.
//!
//! A [`World`] holds every entity of the running match in typed tables, the
//! match state, and the simulation clock. The per-tick systems are methods of
//! `World` that live in the modules of the things they govern.

use crate::constants::{
    DECORATION_SPRITE_COUNT, DECORATION_SPRITE_FIRST, ENEMY_HEALTH, MAX_NUM_ENEMIES,
    NUM_WORLD_DECORATIONS, PLAYER_HEALTH, UNIT, WORLD_H, WORLD_W,
};
use crate::enemy::Enemy;
use crate::gun::{Bullet, Gun, GunTimer};
use crate::math::{uniform, Vec2};
use crate::player::{Player, PlayerState};
use crate::timer::Stopwatch;
use vstd::prelude::*;

verus! {

/// Where the game stands. The simulation runs only in `InGame`.
#[derive(Clone, Copy, Debug, PartialEq, Eq, Hash, Structural)]
pub enum GameState {
    Loading,
    MainMenu,
    GameInit,
    InGame,
}

impl Default for GameState {
    fn default() -> (s: GameState)
        ensures
            s == GameState::Loading,
    {
        GameState::Loading
    }
}

/// Remaining hit points. Zero is final: an entity at zero is dead.
#[derive(Clone, Copy, Debug, PartialEq, Eq, Structural)]
pub struct Health(pub u32);

/// Health `health` after a hit of `amount`: it never goes below zero.
pub open spec fn damaged(health: u32, amount: u32) -> u32 {
    if amount >= health {
        0
    } else {
        (health - amount) as u32
    }
}

impl Health {
    /// Takes `amount` off, stopping at zero.
    pub fn apply_damage(&mut self, amount: u32)
        ensures
            final(self).0 == damaged(old(self).0, amount),
            final(self).0 <= old(self).0,
    {
        self.0 = self.0.saturating_sub(amount);
    }

    pub fn is_dead(&self) -> (dead: bool)
        ensures
            dead == (self.0 == 0),
    {
        self.0 == 0
    }
}

/// What an entity of the match is.
#[derive(Clone, Copy, Debug, PartialEq, Eq, Hash, Structural)]
pub enum EntityKind {
    Player,
    Gun,
    Enemy,
    Bullet,
    Decoration,
}

/// An entity that belongs to the running match, named by its identifier.
/// Everything the registry holds is such an entity, and leaving the match
/// removes them all.
#[derive(Clone, Copy, Debug, PartialEq, Eq, Hash, Structural)]
pub struct GameEntity {
    pub id: u64,
    pub kind: EntityKind,
}

/// A piece of scenery. It takes no part in the simulation.
#[derive(Clone, Copy, Debug, PartialEq, Eq, Structural)]
pub struct Decoration {
    pub id: u64,
    pub pos: Vec2,
    pub sprite_index: usize,
}

/// What is drawn for one decoration: its place and its look.
#[derive(Clone, Copy, Debug, PartialEq, Eq, Structural)]
pub struct DecorationDraw {
    pub pos: Vec2,
    pub sprite_index: usize,
}

/// A draw that places a decoration on the playing field, with one of the
/// looks of a decoration.
pub open spec fn is_decoration_draw(d: DecorationDraw) -> bool {
    &&& -WORLD_W <= d.pos.x < WORLD_W
    &&& -WORLD_H <= d.pos.y < WORLD_H
    &&& DECORATION_SPRITE_FIRST <= d.sprite_index < DECORATION_SPRITE_FIRST
        + DECORATION_SPRITE_COUNT
}

/// The decoration that a draw creates.
pub open spec fn spawned_decoration(id: u64, draw: DecorationDraw) -> Decoration {
    Decoration { id, pos: draw.pos, sprite_index: draw.sprite_index }
}

/// The registry of a match, as a mathematical value.
pub struct WorldView {
    pub state: GameState,
    pub clock: u64,
    pub spawn_timer: Stopwatch,
    pub next_id: u64,
    pub player: Option<Player>,
    pub gun: Option<Gun>,
    pub enemies: Seq<Enemy>,
    pub bullets: Seq<Bullet>,
    pub decorations: Seq<Decoration>,
}

/// The identifier handed out `k` creations after `next`. Identifiers run in
/// sequence and start over only after `2^64` creations.
pub open spec fn id_after(next: u64, k: int) -> u64 {
    ((next + k) % 0x1_0000_0000_0000_0000) as u64
}

/// Identifiers are handed out one after the other.
pub proof fn lemma_id_after_next(next: u64, k: int)
    requires
        k >= 0,
    ensures
        id_after(next, 0) == next,
        id_after(id_after(next, k), 1) == id_after(next, k + 1),
{
    vstd::arithmetic::div_mod::lemma_add_mod_noop(next + k, 1, 0x1_0000_0000_0000_0000);
}

/// The player as a match begins: at the origin, unhurt, standing.
pub open spec fn fresh_player(id: u64) -> Player {
    Player {
        id,
        pos: Vec2 { x: 0, y: 0 },
        health: Health(PLAYER_HEALTH),
        state: PlayerState::Idle,
        intent: Vec2 { x: 0, y: 0 },
    }
}

/// The gun as a match begins: attached to its owner, aimed along +x, ready
/// after one fire interval.
pub open spec fn fresh_gun(id: u64, owner: u64) -> Gun {
    Gun {
        id,
        owner,
        aim: Vec2 { x: UNIT, y: 0 },
        offset: Vec2 { x: 0, y: 0 },
        timer: GunTimer(Stopwatch { elapsed: 0 }),
    }
}

/// The enemies as entities of the match, in their order.
pub open spec fn enemy_entities(enemies: Seq<Enemy>) -> Seq<GameEntity> {
    Seq::new(enemies.len(), |i: int| GameEntity { id: enemies[i].id, kind: EntityKind::Enemy })
}

/// The bullets as entities of the match, in their order.
pub open spec fn bullet_entities(bullets: Seq<Bullet>) -> Seq<GameEntity> {
    Seq::new(bullets.len(), |i: int| GameEntity { id: bullets[i].id, kind: EntityKind::Bullet })
}

/// The decorations as entities of the match, in their order.
pub open spec fn decoration_entities(decorations: Seq<Decoration>) -> Seq<GameEntity> {
    Seq::new(
        decorations.len(),
        |i: int| GameEntity { id: decorations[i].id, kind: EntityKind::Decoration },
    )
}

impl WorldView {
    /// The registry before any match: nothing in it.
    pub open spec fn empty(state: GameState, next_id: u64) -> WorldView {
        WorldView {
            state,
            clock: 0,
            spawn_timer: Stopwatch { elapsed: 0 },
            next_id,
            player: None,
            gun: None,
            enemies: Seq::empty(),
            bullets: Seq::empty(),
            decorations: Seq::empty(),
        }
    }

    /// No entity is registered.
    pub open spec fn is_empty(self) -> bool {
        &&& self.player is None
        &&& self.gun is None
        &&& self.enemies.len() == 0
        &&& self.bullets.len() == 0
        &&& self.decorations.len() == 0
    }

    /// What holds of every registry at every moment:
    /// the enemies never outnumber the cap; the player and the gun exist
    /// exactly while the match is running, and the gun is the player's;
    /// only a running match has enemies and bullets, and before a match is
    /// set up nothing exists at all; and nobody has more health than a fresh
    /// entity of its kind.
    pub open spec fn wf(self) -> bool {
        &&& self.enemies.len() <= MAX_NUM_ENEMIES
        &&& (self.state == GameState::InGame <==> self.player is Some)
        &&& (self.player is Some <==> self.gun is Some)
        &&& (self.gun is Some ==> self.gun->0.owner == self.player->0.id)
        &&& (self.state != GameState::InGame ==> self.enemies.len() == 0 && self.bullets.len()
            == 0)
        &&& (self.state == GameState::Loading || self.state == GameState::MainMenu
            ==> self.decorations.len() == 0)
        &&& (self.player is Some ==> self.player->0.health.0 <= PLAYER_HEALTH)
        &&& (forall|i: int|
            0 <= i < self.enemies.len() ==> (#[trigger] self.enemies[i]).health.0 <= ENEMY_HEALTH)
    }

    /// Every entity of the match: the player and its gun first, then the
    /// enemies, the bullets and the decorations, each table in its order.
    pub open spec fn game_entities(self) -> Seq<GameEntity> {
        let player = match self.player {
            Some(p) => seq![GameEntity { id: p.id, kind: EntityKind::Player }],
            None => Seq::empty(),
        };
        let gun = match self.gun {
            Some(g) => seq![GameEntity { id: g.id, kind: EntityKind::Gun }],
            None => Seq::empty(),
        };
        player + gun + enemy_entities(self.enemies) + bullet_entities(self.bullets)
            + decoration_entities(self.decorations)
    }

    /// The registry after every entity of the match has been removed.
    pub open spec fn cleared(self) -> WorldView {
        WorldView {
            player: None,
            gun: None,
            enemies: Seq::empty(),
            bullets: Seq::empty(),
            decorations: Seq::empty(),
            ..self
        }
    }

    /// The moves of the match lifecycle: loading ends in the menu, the menu
    /// starts the set-up of a match, and a match, running or still being set
    /// up, is left for the menu. A match starts running only by being set up.
    pub open spec fn may_move(from: GameState, to: GameState) -> bool {
        ||| (from == GameState::Loading && to == GameState::MainMenu)
        ||| (from == GameState::MainMenu && to == GameState::GameInit)
        ||| (from == GameState::GameInit && to == GameState::MainMenu)
        ||| (from == GameState::InGame && to == GameState::MainMenu)
    }

    /// The registry after the state store has been asked for `next`: a move
    /// that the lifecycle allows is made, and leaving a match clears the
    /// registry; any other request changes nothing.
    pub open spec fn moved(self, next: GameState) -> WorldView {
        if Self::may_move(self.state, next) {
            WorldView { state: next, ..self.cleared() }
        } else {
            self
        }
    }

    /// How many decorations the set-up scatters when `available` draws are
    /// at hand: none outside the set-up state, else one per draw up to the
    /// number of decorations of a match.
    pub open spec fn decoration_count(self, available: nat) -> nat {
        if self.state != GameState::GameInit {
            0
        } else if available < NUM_WORLD_DECORATIONS {
            available
        } else {
            NUM_WORLD_DECORATIONS as nat
        }
    }

    /// The registry after the decorations have been scattered with the given
    /// draws: they follow those already there, the `i`-th made from the
    /// `i`-th draw.
    pub open spec fn decorated(self, draws: Seq<DecorationDraw>) -> WorldView {
        let n = self.decoration_count(draws.len());
        WorldView {
            decorations: self.decorations + Seq::new(
                n,
                |i: int| spawned_decoration(id_after(self.next_id, i), draws[i]),
            ),
            next_id: id_after(self.next_id, n as int),
            ..self
        }
    }

    /// The registry after the set-up of a match: a new player and its gun,
    /// the clock and the spawn cadence at zero, the match running. Outside
    /// the set-up state nothing changes.
    pub open spec fn initialized(self) -> WorldView {
        if self.state == GameState::GameInit {
            WorldView {
                state: GameState::InGame,
                clock: 0,
                spawn_timer: Stopwatch { elapsed: 0 },
                next_id: id_after(self.next_id, 2),
                player: Some(fresh_player(self.next_id)),
                gun: Some(fresh_gun(id_after(self.next_id, 1), self.next_id)),
                ..self
            }
        } else {
            self
        }
    }
}

/// The registry of a match, its state and its clock.
pub struct World {
    pub(crate) state: GameState,
    pub(crate) clock: u64,
    pub(crate) spawn_timer: Stopwatch,
    pub(crate) next_id: u64,
    pub(crate) player: Option<Player>,
    pub(crate) gun: Option<Gun>,
    pub(crate) enemies: Vec<Enemy>,
    pub(crate) bullets: Vec<Bullet>,
    pub(crate) decorations: Vec<Decoration>,
}

impl View for World {
    type V = WorldView;

    open(crate) spec fn view(&self) -> WorldView {
        WorldView {
            state: self.state,
            clock: self.clock,
            spawn_timer: self.spawn_timer,
            next_id: self.next_id,
            player: self.player,
            gun: self.gun,
            enemies: self.enemies@,
            bullets: self.bullets@,
            decorations: self.decorations@,
        }
    }
}

/// Setting up a match creates exactly one player, unhurt, and one gun, and
/// nothing else; leaving the match then removes every entity, the gun
/// included.
pub proof fn lemma_setup_and_teardown(w: WorldView)
    requires
        w.wf(),
        w.state == GameState::GameInit,
    ensures
        w.initialized().wf(),
        w.initialized().state == GameState::InGame,
        w.initialized().player == Some(fresh_player(w.next_id)),
        w.initialized().player->0.health.0 == PLAYER_HEALTH,
        w.initialized().gun == Some(fresh_gun(id_after(w.next_id, 1), w.next_id)),
        w.initialized().gun->0.owner == w.initialized().player->0.id,
        w.initialized().game_entities() == seq![
            GameEntity { id: w.next_id, kind: EntityKind::Player },
            GameEntity { id: id_after(w.next_id, 1), kind: EntityKind::Gun },
        ] + decoration_entities(w.decorations),
        w.initialized().moved(GameState::MainMenu).state == GameState::MainMenu,
        w.initialized().moved(GameState::MainMenu).is_empty(),
        w.initialized().moved(GameState::MainMenu).game_entities().len() == 0,
{
    let started = w.initialized();
    assert(started.game_entities() =~= seq![
        GameEntity { id: w.next_id, kind: EntityKind::Player },
        GameEntity { id: id_after(w.next_id, 1), kind: EntityKind::Gun },
    ] + decoration_entities(w.decorations));
}

/// Leaving a match, however it is left, leaves nothing in the registry.
pub proof fn lemma_leaving_clears(w: WorldView)
    requires
        w.wf(),
        w.state == GameState::InGame,
    ensures
        w.moved(GameState::MainMenu).state == GameState::MainMenu,
        w.moved(GameState::MainMenu).is_empty(),
        w.moved(GameState::MainMenu).wf(),
{
}

/// Draws place and look for `n` decorations, each on its own: the place
/// evenly over the playing field, the look evenly from those of a decoration.
pub fn random_decoration_draws(n: u32) -> (draws: Vec<DecorationDraw>)
    ensures
        draws@.len() == n,
        forall|i: int| 0 <= i < draws@.len() ==> is_decoration_draw(#[trigger] draws@[i]),
{
    let mut draws: Vec<DecorationDraw> = Vec::new();
    let mut i: u32 = 0;
    while i < n
        invariant
            i <= n,
            draws@.len() == i,
            forall|k: int| 0 <= k < draws@.len() ==> is_decoration_draw(#[trigger] draws@[k]),
        decreases n - i,
    {
        let x: i64 = uniform(-(WORLD_W as i64), WORLD_W as i64);
        let y: i64 = uniform(-(WORLD_H as i64), WORLD_H as i64);
        let look: i64 = uniform(
            DECORATION_SPRITE_FIRST as i64,
            (DECORATION_SPRITE_FIRST + DECORATION_SPRITE_COUNT) as i64,
        );
        draws.push(
            DecorationDraw { pos: Vec2 { x: x as i32, y: y as i32 }, sprite_index: look as usize },
        );
        i = i + 1;
    }
    draws
}

impl World {
    /// A registry with nothing in it, in the loading state.
    pub fn new() -> (w: World)
        ensures
            w@ == WorldView::empty(GameState::Loading, 0),
            w@.wf(),
    {
        World {
            state: GameState::Loading,
            clock: 0,
            spawn_timer: Stopwatch { elapsed: 0 },
            next_id: 0,
            player: None,
            gun: None,
            enemies: Vec::new(),
            bullets: Vec::new(),
            decorations: Vec::new(),
        }
    }

    /// Hands out the next identifier.
    pub(crate) fn fresh_id(&mut self) -> (id: u64)
        ensures
            id == old(self).next_id,
            final(self)@ == (WorldView { next_id: id_after(old(self).next_id, 1), ..old(self)@ }),
    {
        let id: u64 = self.next_id;
        self.next_id = self.next_id.wrapping_add(1);
        id
    }

    /// Every entity of the match: the player and its gun first, then the
    /// enemies, the bullets and the decorations.
    pub fn game_entities(&self) -> (all: Vec<GameEntity>)
        ensures
            all@ == self@.game_entities(),
    {
        let mut all: Vec<GameEntity> = Vec::new();
        if let Some(p) = self.player {
            all.push(GameEntity { id: p.id, kind: EntityKind::Player });
        }
        if let Some(g) = self.gun {
            all.push(GameEntity { id: g.id, kind: EntityKind::Gun });
        }
        let ghost head = all@;
        let mut i: usize = 0;
        while i < self.enemies.len()
            invariant
                i <= self.enemies.len(),
                all@ == head + enemy_entities(self.enemies@.take(i as int)),
            decreases self.enemies.len() - i,
        {
            all.push(GameEntity { id: self.enemies[i].id, kind: EntityKind::Enemy });
            i = i + 1;
            assert(all@ =~= head + enemy_entities(self.enemies@.take(i as int)));
        }
        assert(self.enemies@.take(i as int) =~= self.enemies@);
        let ghost with_enemies = all@;
        let mut j: usize = 0;
        while j < self.bullets.len()
            invariant
                j <= self.bullets.len(),
                all@ == with_enemies + bullet_entities(self.bullets@.take(j as int)),
            decreases self.bullets.len() - j,
        {
            all.push(GameEntity { id: self.bullets[j].id, kind: EntityKind::Bullet });
            j = j + 1;
            assert(all@ =~= with_enemies + bullet_entities(self.bullets@.take(j as int)));
        }
        assert(self.bullets@.take(j as int) =~= self.bullets@);
        let ghost with_bullets = all@;
        let mut k: usize = 0;
        while k < self.decorations.len()
            invariant
                k <= self.decorations.len(),
                all@ == with_bullets + decoration_entities(self.decorations@.take(k as int)),
            decreases self.decorations.len() - k,
        {
            all.push(GameEntity { id: self.decorations[k].id, kind: EntityKind::Decoration });
            k = k + 1;
            assert(all@ =~= with_bullets + decoration_entities(
                self.decorations@.take(k as int),
            ));
        }
        assert(self.decorations@.take(k as int) =~= self.decorations@);
        assert(all@ =~= self@.game_entities());
        all
    }

    /// Removes every entity of the match, the gun with its player, and
    /// returns what was removed.
    pub(crate) fn despawn_all_game_entities(&mut self) -> (removed: Vec<GameEntity>)
        ensures
            removed@ == old(self)@.game_entities(),
            final(self)@ == old(self)@.cleared(),
    {
        let removed = self.game_entities();
        self.player = None;
        self.gun = None;
        self.enemies = Vec::new();
        self.bullets = Vec::new();
        self.decorations = Vec::new();
        removed
    }

    /// Whether the lifecycle allows the move from `from` to `to`.
    pub fn may_move(from: GameState, to: GameState) -> (r: bool)
        ensures
            r == WorldView::may_move(from, to),
    {
        match (from, to) {
            (GameState::Loading, GameState::MainMenu) => true,
            (GameState::MainMenu, GameState::GameInit) => true,
            (GameState::GameInit, GameState::MainMenu) => true,
            (GameState::InGame, GameState::MainMenu) => true,
            _ => false,
        }
    }

    /// Asks the state store for `next`. A move that the lifecycle allows is
    /// made, and the entities of the match that it ends are removed and
    /// returned; any other request is turned down and changes nothing.
    pub fn request_state(&mut self, next: GameState) -> (removed: Option<Vec<GameEntity>>)
        requires
            old(self)@.wf(),
        ensures
            final(self)@ == old(self)@.moved(next),
            final(self)@.wf(),
            removed is Some <==> WorldView::may_move(old(self)@.state, next),
            removed is Some ==> removed->0@ == old(self)@.game_entities(),
    {
        if !Self::may_move(self.state, next) {
            return None;
        }
        let removed = self.despawn_all_game_entities();
        self.state = next;
        Some(removed)
    }

    /// Scatters decorations with the draws given, during the set-up of a
    /// match only: one per draw up to the number of decorations of a match.
    /// Returns how many were created; they are the last of the decorations.
    pub fn spawn_world_decorations_with(
        &mut self,
        draws: &Vec<DecorationDraw>,
    ) -> (spawned: usize)
        requires
            old(self)@.wf(),
        ensures
            final(self)@ == old(self)@.decorated(draws@),
            spawned == old(self)@.decoration_count(draws@.len()),
            final(self)@.wf(),
    {
        let ghost target = old(self)@.decorated(draws@);
        if self.state != GameState::GameInit {
            assert(self@.decorations =~= target.decorations);
            return 0;
        }
        let count: usize = if draws.len() < NUM_WORLD_DECORATIONS as usize {
            draws.len()
        } else {
            NUM_WORLD_DECORATIONS as usize
        };
        let ghost first = old(self)@.next_id;
        let ghost had = old(self)@.decorations;
        proof {
            lemma_id_after_next(first, 0);
        }
        let mut i: usize = 0;
        while i < count
            invariant
                i <= count <= draws.len(),
                self@.next_id == id_after(first, i as int),
                self@.decorations.len() == had.len() + i,
                forall|k: int| 0 <= k < had.len() ==> self@.decorations[k] == had[k],
                forall|k: int|
                    0 <= k < i ==> self@.decorations[had.len() + k] == spawned_decoration(
                        id_after(first, k),
                        draws@[k],
                    ),
                self@ == (WorldView {
                    decorations: self@.decorations,
                    next_id: self@.next_id,
                    ..old(self)@
                }),
            decreases count - i,
        {
            proof {
                lemma_id_after_next(first, i as int);
            }
            let id: u64 = self.fresh_id();
            let draw = draws[i];
            self.decorations.push(
                Decoration { id, pos: draw.pos, sprite_index: draw.sprite_index },
            );
            i = i + 1;
        }
        assert(self@.decorations =~= target.decorations);
        count
    }

    /// Scatters the decorations of a match, during its set-up only: each at
    /// a place drawn evenly over the playing field, with a look drawn evenly
    /// from those of a decoration. Returns how many were created; they are
    /// the last of the decorations.
    pub fn spawn_world_decorations(&mut self) -> (spawned: usize)
        requires
            old(self)@.wf(),
        ensures
            exists|draws: Seq<DecorationDraw>|
                #![trigger old(self)@.decorated(draws)]
                draws.len() == NUM_WORLD_DECORATIONS && (forall|i: int|
                    0 <= i < draws.len() ==> is_decoration_draw(#[trigger] draws[i]))
                    && final(self)@ == old(self)@.decorated(draws),
            spawned == old(self)@.decoration_count(NUM_WORLD_DECORATIONS as nat),
            final(self)@.wf(),
    {
        let draws = random_decoration_draws(NUM_WORLD_DECORATIONS);
        self.spawn_world_decorations_with(&draws)
    }

    /// Sets up the match: creates the player, unhurt, and the gun attached to
    /// it, starts the clock, and lets the match run. Does this only in the
    /// set-up state, and says whether it did.
    pub fn init_world(&mut self) -> (done: bool)
        requires
            old(self)@.wf(),
        ensures
            done == (old(self)@.state == GameState::GameInit),
            final(self)@ == old(self)@.initialized(),
            final(self)@.wf(),
    {
        if self.state != GameState::GameInit {
            return false;
        }
        let player_id: u64 = self.fresh_id();
        let gun_id: u64 = self.fresh_id();
        self.player = Some(
            Player {
                id: player_id,
                pos: Vec2 { x: 0, y: 0 },
                health: Health(PLAYER_HEALTH),
                state: PlayerState::Idle,
                intent: Vec2 { x: 0, y: 0 },
            },
        );
        self.gun = Some(
            Gun {
                id: gun_id,
                owner: player_id,
                aim: Vec2 { x: UNIT, y: 0 },
                offset: Vec2 { x: 0, y: 0 },
                timer: GunTimer(Stopwatch { elapsed: 0 }),
            },
        );
        self.clock = 0;
        self.spawn_timer = Stopwatch { elapsed: 0 };
        self.state = GameState::InGame;
        true
    }

    pub fn state(&self) -> (s: GameState)
        ensures
            s == self@.state,
    {
        self.state
    }

    /// Nanoseconds of simulation since the match began.
    pub fn clock(&self) -> (t: u64)
        ensures
            t == self@.clock,
    {
        self.clock
    }

    pub fn player(&self) -> (p: Option<Player>)
        ensures
            p == self@.player,
    {
        self.player
    }

    pub fn gun(&self) -> (g: Option<Gun>)
        ensures
            g == self@.gun,
    {
        self.gun
    }

    pub fn enemies(&self) -> (r: &Vec<Enemy>)
        ensures
            r@ == self@.enemies,
    {
        &self.enemies
    }

    pub fn bullets(&self) -> (r: &Vec<Bullet>)
        ensures
            r@ == self@.bullets,
    {
        &self.bullets
    }

    pub fn decorations(&self) -> (r: &Vec<Decoration>)
        ensures
            r@ == self@.decorations,
    {
        &self.decorations
    }

    pub fn enemy_count(&self) -> (n: usize)
        ensures
            n == self@.enemies.len(),
    {
        self.enemies.len()
    }
}

} // verus!
