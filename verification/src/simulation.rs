//! One tick of the simulation: the systems in their fixed order, behind the
//! guard that lets them run only while a match is running.

use crate::constants::{
    BULLET_TIME, ENEMY_HEALTH, ENEMY_SPAWN_INTERVAL, MAX_NUM_ENEMIES, NUM_BULLETS_PER_SHOT,
};
use crate::enemy::{
    alive, dead, is_spawn_draw, random_spawn_draws, spawn_quota, spawn_quota_for, SpawnDraw,
};
use crate::gun::{expired_at, is_jitter, lemma_aged_bullets_are_young, random_jitters};
use crate::math::Vec2;
use crate::player::{hits, lemma_hits_stop_at_zero, ContactEvent, MoveKeys};
use crate::timer::add_time;
use crate::world::{bullet_entities, enemy_entities, GameEntity, GameState, World, WorldView};
use vstd::prelude::*;

verus! {

/// What the outside hands the simulation for one tick.
pub struct TickInput {
    /// Nanoseconds since the last tick.
    pub delta: u64,
    pub keys: MoveKeys,
    /// Whether the fire button is held.
    pub fire: bool,
    /// Where the cursor points in the world, if that is known.
    pub cursor: Option<Vec2>,
    /// The contacts that began since the last tick.
    pub contacts: Vec<ContactEvent>,
}

/// The random draws of one tick.
pub struct TickDraws {
    /// Look and place of the enemies of a spawn wave.
    pub spawns: Vec<SpawnDraw>,
    /// Jitter of the bullets of a shot.
    pub jitters: Vec<Vec2>,
}

/// What one tick did, for the outside to carry out.
pub struct TickReport {
    /// Whether the simulation ran at all: it does only in a running match.
    pub ran: bool,
    /// How many enemies were created; they are the last of the enemies.
    pub spawned: usize,
    /// How many bullets were created; they are the last of the bullets.
    pub fired: usize,
    /// The bullets removed because their time was over.
    pub expired: Vec<GameEntity>,
    /// The enemies removed because they died.
    pub fallen: Vec<GameEntity>,
    /// If the player died: every entity that the end of the match removed.
    pub ended: Option<Vec<GameEntity>>,
}

impl WorldView {
    /// The registry with the clock advanced by `delta` nanoseconds.
    pub open spec fn clock_advanced(self, delta: u64) -> WorldView {
        WorldView { clock: add_time(self.clock, delta), ..self }
    }

    /// The registry with the spawn cadence advanced by `delta` nanoseconds.
    pub open spec fn cadence_advanced(self, delta: u64) -> WorldView {
        WorldView { spawn_timer: self.spawn_timer.lapped(delta, ENEMY_SPAWN_INTERVAL), ..self }
    }

    /// Whether a tick of `delta` nanoseconds completes a spawn interval.
    pub open spec fn wave_due(self, delta: u64) -> bool {
        self.spawn_timer.laps(delta, ENEMY_SPAWN_INTERVAL)
    }

    /// The registry after the spawn director's turn: the cadence advances,
    /// and a spawn wave runs if the tick completes a spawn interval.
    pub open spec fn wave_run(self, delta: u64, spawns: Seq<SpawnDraw>) -> WorldView {
        if self.wave_due(delta) {
            self.cadence_advanced(delta).enemies_spawned(spawns)
        } else {
            self.cadence_advanced(delta)
        }
    }

    /// The registry of a running match after the first half of a tick:
    /// clock, keys, spawn wave, pursuit and aim, in this order.
    pub open spec fn prepared(self, input: TickInput, draws: TickDraws) -> WorldView {
        self.clock_advanced(input.delta).player_steered(input.keys).wave_run(
            input.delta,
            draws.spawns@,
        ).enemies_steered().gun_aimed(input.cursor)
    }

    /// The registry of a running match after the trigger has been handled.
    pub open spec fn shot(self, input: TickInput, draws: TickDraws) -> WorldView {
        self.prepared(input, draws).gun_handled(input.delta, input.fire, draws.jitters@)
    }

    /// The registry of a running match after old bullets have gone and the
    /// contacts have been resolved.
    pub open spec fn struck(self, input: TickInput, draws: TickDraws) -> WorldView {
        self.shot(input, draws).bullets_aged().contacts_resolved(input.contacts@)
    }

    /// The registry after one tick. Outside a running match a tick changes
    /// nothing. In a running match the systems take their turns in a fixed
    /// order: clock, keys, spawn wave, pursuit, aim, trigger, bullet expiry,
    /// contacts, removal of the dead, and last the check that ends the match
    /// if the player has died.
    pub open spec fn simulated(self, input: TickInput, draws: TickDraws) -> WorldView {
        if self.state != GameState::InGame {
            self
        } else {
            self.struck(input, draws).dead_removed().death_handled()
        }
    }

    /// What the report of a tick on this registry says: whether the
    /// simulation ran, and if it did, how many enemies the wave spawned and
    /// how many bullets the gun fired, which bullets had outlived their time
    /// and which enemies had died when their turn to go came, and, if the
    /// player was dead at the end, every entity that the match still had.
    /// The report of a tick that did not run is empty.
    pub open spec fn reports(self, input: TickInput, draws: TickDraws, report: TickReport) -> bool {
        let start = self.clock_advanced(input.delta).player_steered(input.keys);
        let prepared = self.prepared(input, draws);
        let shot = self.shot(input, draws);
        let struck = self.struck(input, draws);
        if self.state != GameState::InGame {
            &&& !report.ran
            &&& report.spawned == 0
            &&& report.fired == 0
            &&& report.expired@.len() == 0
            &&& report.fallen@.len() == 0
            &&& report.ended is None
        } else {
            &&& report.ran
            &&& report.spawned == if start.wave_due(input.delta) {
                start.spawn_count(draws.spawns@.len())
            } else {
                0
            }
            &&& report.fired == prepared.shots(input.delta, input.fire, draws.jitters@.len())
            &&& report.expired@ == bullet_entities(shot.bullets.filter(expired_at(shot.clock)))
            &&& report.fallen@ == enemy_entities(struck.enemies.filter(dead()))
            &&& report.ended is Some <==> struck.dead_removed().player_dead()
            &&& report.ended is Some ==> report.ended->0@ == struck.dead_removed().game_entities()
        }
    }

    /// The draws are fit for a tick on this registry: a place in the ring
    /// around the player for each enemy that a wave may add, and a jitter
    /// from the jitter range for each bullet of a shot.
    pub open spec fn fit_draws(self, draws: TickDraws) -> bool {
        &&& draws.spawns@.len() == spawn_quota(self.enemies.len())
        &&& forall|i: int|
            0 <= i < draws.spawns@.len() ==> is_spawn_draw(
                self.player->0.pos,
                #[trigger] draws.spawns@[i],
            )
        &&& draws.jitters@.len() == NUM_BULLETS_PER_SHOT
        &&& forall|i: int| 0 <= i < draws.jitters@.len() ==> is_jitter(#[trigger] draws.jitters@[i])
    }
}

/// Outside a running match a tick changes nothing, whatever it is handed.
pub proof fn lemma_tick_is_gated(w: WorldView, input: TickInput, draws: TickDraws)
    requires
        w.state != GameState::InGame,
    ensures
        w.simulated(input, draws) == w,
{
}

/// A tick keeps the registry well formed, whatever it is handed. So after
/// every tick the enemies are no more than the cap allows, the player and
/// its gun exist exactly while the match runs, and nobody's health is out of
/// range.
pub proof fn lemma_tick_keeps_wf(w: WorldView, input: TickInput, draws: TickDraws)
    requires
        w.wf(),
    ensures
        w.simulated(input, draws).wf(),
        w.simulated(input, draws).enemies.len() <= MAX_NUM_ENEMIES,
{
    if w.state == GameState::InGame {
        let start = w.clock_advanced(input.delta).player_steered(input.keys);
        assert(start.wf());
        let waved = start.wave_run(input.delta, draws.spawns@);
        assert(waved.wf());
        let prepared = w.prepared(input, draws);
        assert(prepared.wf());
        let shot = w.shot(input, draws);
        assert(shot.wf());
        let aged = shot.bullets_aged();
        assert(aged.wf());
        let struck = w.struck(input, draws);
        lemma_hits_stop_at_zero(aged.player->0.health.0, hits(input.contacts@));
        assert(struck.wf());
        let settled = struck.dead_removed();
        struck.enemies.lemma_filter_len(alive());
        assert forall|i: int| 0 <= i < settled.enemies.len() implies (
        #[trigger] settled.enemies[i]).health.0 <= ENEMY_HEALTH by {
            assert(settled.enemies.contains(settled.enemies[i]));
            struck.enemies.lemma_filter_contains_rev(alive(), settled.enemies[i]);
        }
        assert(settled.wf());
    }
}

/// After every tick no bullet is older than a bullet's time: a bullet is gone
/// by the end of the first tick in which it is found to have outlived it.
pub proof fn lemma_tick_leaves_young_bullets(w: WorldView, input: TickInput, draws: TickDraws)
    requires
        w.wf(),
    ensures
        forall|i: int|
            0 <= i < w.simulated(input, draws).bullets.len() ==> w.simulated(input, draws).clock
                - (#[trigger] w.simulated(input, draws).bullets[i]).spawned.0 <= BULLET_TIME,
{
    if w.state == GameState::InGame {
        let shot = w.shot(input, draws);
        lemma_aged_bullets_are_young(shot);
        let settled = w.struck(input, draws).dead_removed();
        assert(settled.bullets == shot.bullets_aged().bullets);
        assert(settled.clock == shot.clock);
    }
}

/// A tick in which the player dies ends the match, and every tick after it
/// changes nothing: the game is back in the menu, where the simulation does
/// not run.
pub proof fn lemma_match_ends_once(
    w: WorldView,
    input: TickInput,
    draws: TickDraws,
    next_input: TickInput,
    next_draws: TickDraws,
)
    requires
        w.wf(),
        w.state == GameState::InGame,
        w.struck(input, draws).dead_removed().player_dead(),
    ensures
        w.simulated(input, draws).state == GameState::MainMenu,
        w.simulated(input, draws).is_empty(),
        w.simulated(input, draws).simulated(next_input, next_draws) == w.simulated(input, draws),
{
    let settled = w.struck(input, draws).dead_removed();
    assert(settled.state == GameState::InGame);
}

impl World {
    /// Advances the simulation clock by `delta` nanoseconds.
    pub fn advance_clock(&mut self, delta: u64)
        requires
            old(self)@.wf(),
        ensures
            final(self)@ == old(self)@.clock_advanced(delta),
            final(self)@.wf(),
    {
        self.clock = self.clock.saturating_add(delta);
    }

    /// Advances the spawn cadence by `delta` nanoseconds and says whether the
    /// tick completes a spawn interval, so that a wave is due.
    pub fn advance_spawn_cadence(&mut self, delta: u64) -> (due: bool)
        requires
            old(self)@.wf(),
        ensures
            due == old(self)@.wave_due(delta),
            final(self)@ == old(self)@.cadence_advanced(delta),
            final(self)@.wf(),
    {
        self.spawn_timer.tick_repeating(delta, ENEMY_SPAWN_INTERVAL)
    }

    /// Runs one tick with the draws given. Outside a running match nothing
    /// happens. In a running match the systems take their turns in their
    /// fixed order, and the report says what they created and removed.
    pub fn tick_with(&mut self, input: &TickInput, draws: &TickDraws) -> (report: TickReport)
        requires
            old(self)@.wf(),
        ensures
            final(self)@ == old(self)@.simulated(*input, *draws),
            final(self)@.wf(),
            final(self)@.enemies.len() <= MAX_NUM_ENEMIES,
            old(self)@.reports(*input, *draws, report),
    {
        if self.state != GameState::InGame {
            return TickReport {
                ran: false,
                spawned: 0,
                fired: 0,
                expired: Vec::new(),
                fallen: Vec::new(),
                ended: None,
            };
        }
        self.advance_clock(input.delta);
        self.handle_player_input(input.keys);
        let mut spawned: usize = 0;
        if self.advance_spawn_cadence(input.delta) {
            spawned = self.spawn_enemies_with(&draws.spawns);
        }
        self.update_enemy_transform();
        self.update_gun_transform(input.cursor);
        let fired = self.handle_gun_input_with(input.delta, input.fire, &draws.jitters);
        let expired = self.despawn_old_bullets();
        self.handle_player_enemy_collision_events(&input.contacts);
        let fallen = self.despawn_dead_enemies();
        let ended = self.handle_player_death();
        TickReport { ran: true, spawned, fired, expired, fallen, ended }
    }

    /// Runs one tick, drawing what is left to chance: look and place of the
    /// enemies of a spawn wave, and the jitter of each bullet.
    pub fn tick(&mut self, input: &TickInput) -> (report: TickReport)
        requires
            old(self)@.wf(),
        ensures
            exists|draws: TickDraws|
                #![trigger old(self)@.simulated(*input, draws)]
                (old(self)@.state == GameState::InGame ==> old(self)@.fit_draws(draws))
                    && final(self)@ == old(self)@.simulated(*input, draws) && old(self)@.reports(
                    *input,
                    draws,
                    report,
                ),
            final(self)@.wf(),
            final(self)@.enemies.len() <= MAX_NUM_ENEMIES,
            report.ran == (old(self)@.state == GameState::InGame),
            old(self)@.state != GameState::InGame ==> final(self)@ == old(self)@,
    {
        let spawns = match self.player {
            Some(p) => random_spawn_draws(p.pos, spawn_quota_for(self.enemies.len())),
            None => Vec::new(),
        };
        let jitters = random_jitters(NUM_BULLETS_PER_SHOT);
        let draws = TickDraws { spawns, jitters };
        self.tick_with(input, &draws)
    }
}

} // verus!
