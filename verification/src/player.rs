//! The player: movement intent from the keys, damage from contacts, death.

use crate::constants::{ENEMY_DAMAGE, PLAYER_SPEED};
use crate::math::{scaled, Vec2};
use crate::world::{EntityKind, GameEntity, GameState, Health, World, WorldView};
use vstd::prelude::*;

verus! {

/// What the player is doing.
#[derive(Clone, Copy, Debug, PartialEq, Eq, Structural)]
pub enum PlayerState {
    Idle,
    Run,
}

impl Default for PlayerState {
    fn default() -> (s: PlayerState)
        ensures
            s == PlayerState::Idle,
    {
        PlayerState::Idle
    }
}

/// The player character. `intent` is the displacement it asks for this tick.
#[derive(Clone, Copy, Debug, PartialEq, Eq, Structural)]
pub struct Player {
    pub id: u64,
    pub pos: Vec2,
    pub health: Health,
    pub state: PlayerState,
    pub intent: Vec2,
}

/// The four movement keys, as polled this tick.
#[derive(Clone, Copy, Debug, PartialEq, Eq, Structural)]
pub struct MoveKeys {
    pub up: bool,
    pub down: bool,
    pub left: bool,
    pub right: bool,
}

/// Two entities have begun to touch.
#[derive(Clone, Copy, Debug, PartialEq, Eq, Structural)]
pub struct ContactEvent {
    pub first: GameEntity,
    pub second: GameEntity,
}

/// What two opposite keys ask for along their axis: 1, -1, or 0 where both
/// or neither is held.
pub open spec fn key_axis(positive: bool, negative: bool) -> int {
    (if positive {
        1int
    } else {
        0int
    }) - (if negative {
        1int
    } else {
        0int
    })
}

/// The player after the keys have been read: it asks to move by
/// `PLAYER_SPEED` in the direction of the keys and runs, or asks for no
/// movement and idles where the keys cancel out.
pub open spec fn steered(p: Player, keys: MoveKeys) -> Player {
    let dx = key_axis(keys.right, keys.left);
    let dy = key_axis(keys.up, keys.down);
    Player {
        intent: scaled(dx, dy, PLAYER_SPEED as nat),
        state: if dx == 0 && dy == 0 {
            PlayerState::Idle
        } else {
            PlayerState::Run
        },
        ..p
    }
}

/// Whether a contact is one between the player and an enemy, in either order.
pub open spec fn is_hit(ev: ContactEvent) -> bool {
    (ev.first.kind == EntityKind::Player && ev.second.kind == EntityKind::Enemy) || (ev.first.kind
        == EntityKind::Enemy && ev.second.kind == EntityKind::Player)
}

/// The test that picks the contacts between the player and an enemy.
pub open spec fn hit() -> spec_fn(ContactEvent) -> bool {
    |ev: ContactEvent| is_hit(ev)
}

/// How many of the contacts are between the player and an enemy. Each one
/// counts, also where one enemy touches twice or several touch at once.
pub open spec fn hits(events: Seq<ContactEvent>) -> nat {
    events.filter(hit()).len()
}

/// Health `health` after `count` hits by an enemy: it never goes below zero.
pub open spec fn after_hits(health: u32, count: nat) -> u32 {
    if count * ENEMY_DAMAGE >= health {
        0
    } else {
        (health - count * ENEMY_DAMAGE) as u32
    }
}

impl ContactEvent {
    /// Whether this is a contact between the player and an enemy.
    pub fn is_player_enemy(&self) -> (r: bool)
        ensures
            r == is_hit(*self),
    {
        match (self.first.kind, self.second.kind) {
            (EntityKind::Player, EntityKind::Enemy) => true,
            (EntityKind::Enemy, EntityKind::Player) => true,
            _ => false,
        }
    }
}

impl WorldView {
    /// Whether the player is there and has no health left.
    pub open spec fn player_dead(self) -> bool {
        self.player is Some && self.player->0.health.0 == 0
    }

    /// The registry after the keys have been read. Without a player nothing
    /// changes.
    pub open spec fn player_steered(self, keys: MoveKeys) -> WorldView {
        match self.player {
            Some(p) => WorldView { player: Some(steered(p, keys)), ..self },
            None => self,
        }
    }

    /// The registry after the player has been found at `pos`. Without a
    /// player nothing changes.
    pub open spec fn player_moved(self, pos: Vec2) -> WorldView {
        match self.player {
            Some(p) => WorldView { player: Some(Player { pos, ..p }), ..self },
            None => self,
        }
    }

    /// The registry after the contacts of one tick have been resolved: the
    /// player has lost `ENEMY_DAMAGE` for each contact with an enemy, down to
    /// zero at most. Without a player nothing changes.
    pub open spec fn contacts_resolved(self, events: Seq<ContactEvent>) -> WorldView {
        match self.player {
            Some(p) => WorldView {
                player: Some(Player { health: Health(after_hits(p.health.0, hits(events))), ..p }),
                ..self
            },
            None => self,
        }
    }

    /// The registry after the death check: a player without health ends the
    /// match, which returns to the menu with nothing left in the registry.
    /// Otherwise nothing changes.
    pub open spec fn death_handled(self) -> WorldView {
        if self.player_dead() {
            self.moved(GameState::MainMenu)
        } else {
            self
        }
    }
}

/// However many enemies touch the player in one tick, its health does not
/// go below zero, and it never grows.
pub proof fn lemma_hits_stop_at_zero(health: u32, count: nat)
    ensures
        0 <= after_hits(health, count) <= health,
        after_hits(health, count) as int == if health - count * ENEMY_DAMAGE < 0 {
            0
        } else {
            health - count * ENEMY_DAMAGE
        },
{
    assert(count * ENEMY_DAMAGE >= 0) by (nonlinear_arith)
        requires
            count >= 0,
            ENEMY_DAMAGE >= 0,
    ;
}

/// The death of the player ends the match exactly once: the death check
/// returns the game to the menu with nothing left in the registry, and after
/// that neither another death check nor another tick finds a dead player or
/// changes anything.
pub proof fn lemma_death_ends_match_once(w: WorldView)
    requires
        w.wf(),
        w.player_dead(),
    ensures
        w.death_handled().state == GameState::MainMenu,
        w.death_handled().is_empty(),
        w.death_handled().wf(),
        !w.death_handled().player_dead(),
        w.death_handled().death_handled() == w.death_handled(),
{
}

/// While the player lives, the death check changes nothing.
pub proof fn lemma_living_player_stays(w: WorldView)
    requires
        !w.player_dead(),
    ensures
        w.death_handled() == w,
{
}

impl World {
    /// Reads the movement keys: the player asks to move by `PLAYER_SPEED` in
    /// their direction and runs, or asks for no movement and idles where they
    /// cancel out. Without a player nothing changes.
    pub fn handle_player_input(&mut self, keys: MoveKeys)
        requires
            old(self)@.wf(),
        ensures
            final(self)@ == old(self)@.player_steered(keys),
            final(self)@.wf(),
    {
        if let Some(p) = self.player {
            let dx: i32 = (if keys.right {
                1i32
            } else {
                0i32
            }) - (if keys.left {
                1i32
            } else {
                0i32
            });
            let dy: i32 = (if keys.up {
                1i32
            } else {
                0i32
            }) - (if keys.down {
                1i32
            } else {
                0i32
            });
            let intent = Vec2 { x: dx, y: dy }.with_length(PLAYER_SPEED);
            let state = if dx == 0 && dy == 0 {
                PlayerState::Idle
            } else {
                PlayerState::Run
            };
            self.player = Some(Player { id: p.id, pos: p.pos, health: p.health, state, intent });
        }
    }

    /// Records where the player now stands, and says whether there is a
    /// player.
    pub fn set_player_position(&mut self, pos: Vec2) -> (found: bool)
        requires
            old(self)@.wf(),
        ensures
            found == old(self)@.player is Some,
            final(self)@ == old(self)@.player_moved(pos),
            final(self)@.wf(),
    {
        match self.player {
            Some(p) => {
                self.player = Some(
                    Player { id: p.id, pos, health: p.health, state: p.state, intent: p.intent },
                );
                true
            },
            None => false,
        }
    }

    /// Resolves the contacts of one tick: the player loses `ENEMY_DAMAGE` for
    /// every contact between it and an enemy, each one counted, and its
    /// health stops at zero. Contacts between other entities do nothing, and
    /// without a player nothing changes.
    pub fn handle_player_enemy_collision_events(&mut self, events: &Vec<ContactEvent>)
        requires
            old(self)@.wf(),
        ensures
            final(self)@ == old(self)@.contacts_resolved(events@),
            final(self)@.wf(),
    {
        let p = match self.player {
            Some(p) => p,
            None => {
                return ;
            },
        };
        let mut health = p.health;
        let mut i: usize = 0;
        while i < events.len()
            invariant
                i <= events.len(),
                health.0 == after_hits(p.health.0, hits(events@.take(i as int))),
            decreases events.len() - i,
        {
            let ev = events[i];
            proof {
                let head = events@.take(i as int);
                assert(events@.take(i + 1) =~= head.push(ev));
                head.lemma_filter_push(ev, hit());
                let n = hits(head);
                assert((n + 1) * ENEMY_DAMAGE == n * ENEMY_DAMAGE + ENEMY_DAMAGE)
                    by (nonlinear_arith);
            }
            if ev.is_player_enemy() {
                health.apply_damage(ENEMY_DAMAGE);
            }
            i = i + 1;
        }
        assert(events@.take(i as int) =~= events@);
        self.player = Some(
            Player { id: p.id, pos: p.pos, health, state: p.state, intent: p.intent },
        );
    }

    /// Checks whether the player has died. If its health is zero the match
    /// ends: the state returns to the menu and every entity of the match is
    /// removed and returned. Otherwise nothing changes.
    pub fn handle_player_death(&mut self) -> (ended: Option<Vec<GameEntity>>)
        requires
            old(self)@.wf(),
        ensures
            ended is Some <==> old(self)@.player_dead(),
            ended is Some ==> ended->0@ == old(self)@.game_entities(),
            final(self)@ == old(self)@.death_handled(),
            final(self)@.wf(),
    {
        match self.player {
            Some(p) => {
                if p.health.is_dead() {
                    self.request_state(GameState::MainMenu)
                } else {
                    None
                }
            },
            None => None,
        }
    }
}

} // verus!
