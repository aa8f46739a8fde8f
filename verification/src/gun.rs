//! The gun and its bullets: aim, fire cadence, and how long a bullet lives.

use crate::constants::{
    BULLET_DAMAGE, BULLET_JITTER, BULLET_SPAWN_INTERVAL, BULLET_SPEED, BULLET_TIME, GUN_RADIUS,
    MUZZLE_OFFSET, NUM_BULLETS_PER_SHOT, UNIT,
};
use crate::math::{
    clamp_i32, clamp_to_i32, lemma_scaled_along_x, lemma_scaled_along_y, scaled, shifted, uniform,
    Vec2,
};
use crate::timer::Stopwatch;
use crate::world::{
    bullet_entities, id_after, lemma_id_after_next, EntityKind, GameEntity, World, WorldView,
};
use vstd::prelude::*;

verus! {

/// The gun's cooldown: time since the last shot.
#[derive(Clone, Copy, Debug, PartialEq, Eq, Structural)]
pub struct GunTimer(pub Stopwatch);

/// The moment on the simulation clock at which a bullet was created.
#[derive(Clone, Copy, Debug, PartialEq, Eq, Structural)]
pub struct SpawnInstant(pub u64);

/// The gun, attached to the pivot of the player that `owner` names. `aim` is
/// the direction it points in, of length `UNIT`; `offset` is its place
/// relative to the pivot.
#[derive(Clone, Copy, Debug, PartialEq, Eq, Structural)]
pub struct Gun {
    pub id: u64,
    pub owner: u64,
    pub aim: Vec2,
    pub offset: Vec2,
    pub timer: GunTimer,
}

/// A bullet in flight. `velocity` is in steps per second.
#[derive(Clone, Copy, Debug, PartialEq, Eq, Structural)]
pub struct Bullet {
    pub id: u64,
    pub pos: Vec2,
    pub velocity: Vec2,
    pub damage: u32,
    pub spawned: SpawnInstant,
}

/// The direction from the player to what it aims at, of length `UNIT`. With
/// no cursor, or with the cursor on the player itself, there is no such
/// direction and the gun points along -x.
pub open spec fn aim_toward(player: Vec2, cursor: Option<Vec2>) -> Vec2 {
    let target = match cursor {
        Some(c) => c,
        None => player,
    };
    if target == player {
        Vec2 { x: (-UNIT) as i32, y: 0 }
    } else {
        scaled(target.x - player.x, target.y - player.y, UNIT as nat)
    }
}

/// A draw by which one axis pair of a bullet's direction may be shifted.
pub open spec fn is_jitter(j: Vec2) -> bool {
    -BULLET_JITTER <= j.x < BULLET_JITTER && -BULLET_JITTER <= j.y < BULLET_JITTER
}

/// The velocity of a bullet fired along `aim` with the given jitter: the aim
/// shifted by the jitter on each axis, times the bullet speed.
pub open spec fn bullet_velocity(aim: Vec2, jitter: Vec2) -> Vec2 {
    Vec2 {
        x: clamp_i32((aim.x + jitter.x) * BULLET_SPEED),
        y: clamp_i32((aim.y + jitter.y) * BULLET_SPEED),
    }
}

/// Where a bullet leaves the gun of a player at `pivot`: at the gun, moved on
/// along the aim, without jitter, by the muzzle offset.
pub open spec fn muzzle(pivot: Vec2, gun: Gun) -> Vec2 {
    shifted(
        shifted(pivot, gun.offset.x as int, gun.offset.y as int),
        gun.aim.x * MUZZLE_OFFSET,
        gun.aim.y * MUZZLE_OFFSET,
    )
}

/// The bullet that `gun` fires at time `now`.
pub open spec fn fired_bullet(id: u64, pivot: Vec2, gun: Gun, jitter: Vec2, now: u64) -> Bullet {
    Bullet {
        id,
        pos: muzzle(pivot, gun),
        velocity: bullet_velocity(gun.aim, jitter),
        damage: BULLET_DAMAGE,
        spawned: SpawnInstant(now),
    }
}

/// Whether a bullet created at `spawned` has outlived its time at `now`.
pub open spec fn bullet_expired(b: Bullet, now: u64) -> bool {
    now - b.spawned.0 > BULLET_TIME
}

/// The test that picks the bullets that have outlived their time at `now`.
pub open spec fn expired_at(now: u64) -> spec_fn(Bullet) -> bool {
    |b: Bullet| bullet_expired(b, now)
}

/// The test that picks the bullets that are still within their time at `now`.
pub open spec fn live_at(now: u64) -> spec_fn(Bullet) -> bool {
    |b: Bullet| !bullet_expired(b, now)
}

impl GunTimer {
    /// Whether the gun fires on a tick of `delta` nanoseconds: the trigger
    /// must be held and the cooldown, this tick included, must have reached
    /// the fire interval.
    pub open spec fn fires(self, delta: u64, held: bool, interval: u64) -> bool {
        held && self.0.ticked(delta).reached(interval)
    }

    /// The cooldown after a tick of `delta` nanoseconds: it has advanced by
    /// the tick, held or not, and starts again from zero if the gun fired.
    pub open spec fn stepped(self, delta: u64, held: bool, interval: u64) -> GunTimer {
        if self.fires(delta, held, interval) {
            GunTimer(Stopwatch { elapsed: 0 })
        } else {
            GunTimer(self.0.ticked(delta))
        }
    }

    /// Advances the cooldown by one tick and says whether the gun fires.
    pub fn step(&mut self, delta: u64, held: bool, interval: u64) -> (fire: bool)
        ensures
            fire == old(self).fires(delta, held, interval),
            *final(self) == old(self).stepped(delta, held, interval),
    {
        self.0.tick(delta);
        if held && self.0.finished(interval) {
            self.0.reset();
            true
        } else {
            false
        }
    }
}

impl Gun {
    /// The gun turned toward the cursor: it points from the player to the
    /// cursor and sits `GUN_RADIUS` world units from the pivot in that
    /// direction.
    pub open spec fn aimed(self, player: Vec2, cursor: Option<Vec2>) -> Gun {
        let aim = aim_toward(player, cursor);
        Gun {
            aim,
            offset: Vec2 { x: clamp_i32(aim.x * GUN_RADIUS), y: clamp_i32(aim.y * GUN_RADIUS) },
            ..self
        }
    }
}

/// The cooldown after `n` ticks of `delta` nanoseconds each, the trigger held
/// all the while.
pub open spec fn held_for(timer: GunTimer, delta: u64, interval: u64, n: nat) -> GunTimer
    decreases n,
{
    if n == 0 {
        timer
    } else {
        held_for(timer, delta, interval, (n - 1) as nat).stepped(delta, true, interval)
    }
}

/// How many shots are fired in `n` ticks of `delta` nanoseconds each, the
/// trigger held all the while.
pub open spec fn shots_while_held(timer: GunTimer, delta: u64, interval: u64, n: nat) -> nat
    decreases n,
{
    if n == 0 {
        0
    } else {
        shots_while_held(timer, delta, interval, (n - 1) as nat) + if held_for(
            timer,
            delta,
            interval,
            (n - 1) as nat,
        ).fires(delta, true, interval) {
            1nat
        } else {
            0nat
        }
    }
}

/// Fire cadence. With the trigger held and ticks of a length that divides
/// the fire interval, a gun that starts with its cooldown at zero fires
/// exactly once for every full interval of simulated time: after `n` ticks
/// of `delta`, where the interval is `per_shot` ticks long, it has fired
/// `n / per_shot` times, and its cooldown holds the time since the last shot.
pub proof fn lemma_fire_cadence(delta: u64, per_shot: nat, n: nat)
    requires
        delta > 0,
        per_shot > 0,
        per_shot * delta <= u64::MAX,
    ensures
        shots_while_held(
            GunTimer(Stopwatch { elapsed: 0 }),
            delta,
            (per_shot * delta) as u64,
            n,
        ) == n / per_shot,
        held_for(GunTimer(Stopwatch { elapsed: 0 }), delta, (per_shot * delta) as u64, n).0.elapsed
            == (n % per_shot) * delta,
    decreases n,
{
    let start = GunTimer(Stopwatch { elapsed: 0 });
    let interval = (per_shot * delta) as u64;
    if n == 0 {
        assert(0nat / per_shot == 0 && 0nat % per_shot == 0) by (nonlinear_arith)
            requires
                per_shot > 0,
        ;
        assert((0nat % per_shot) * delta == 0) by (nonlinear_arith)
            requires
                0nat % per_shot == 0,
        ;
    } else {
        let m = (n - 1) as nat;
        lemma_fire_cadence(delta, per_shot, m);
        let before = held_for(start, delta, interval, m);
        let r = m % per_shot;
        let q = m / per_shot;
        assert(m == per_shot * q + r && 0 <= r < per_shot) by (nonlinear_arith)
            requires
                per_shot > 0,
                r == m % per_shot,
                q == m / per_shot,
        ;
        assert(r * delta + delta == (r + 1) * delta && (r + 1) * delta <= per_shot * delta)
            by (nonlinear_arith)
            requires
                r + 1 <= per_shot,
                delta > 0,
        ;
        if r + 1 == per_shot {
            assert(per_shot * (q + 1) == per_shot * q + per_shot) by (nonlinear_arith);
            assert(n / per_shot == q + 1 && n % per_shot == 0) by (nonlinear_arith)
                requires
                    n == per_shot * (q + 1),
                    per_shot > 0,
            ;
            assert((n % per_shot) * delta == 0) by (nonlinear_arith)
                requires
                    n % per_shot == 0,
            ;
        } else {
            assert((r + 1) * delta < per_shot * delta) by (nonlinear_arith)
                requires
                    r + 1 < per_shot,
                    delta > 0,
            ;
            assert(n / per_shot == q && n % per_shot == r + 1) by (nonlinear_arith)
                requires
                    n == per_shot * q + (r + 1),
                    0 <= r + 1 < per_shot,
            ;
        }
    }
}

/// The fire cadence of the gun of this game: with the trigger held and ticks
/// of which `per_shot` make up the fire interval, it fires once for every
/// full interval of simulated time.
pub proof fn lemma_gun_fire_cadence(delta: u64, per_shot: nat, n: nat)
    requires
        delta > 0,
        per_shot * delta == BULLET_SPAWN_INTERVAL,
    ensures
        shots_while_held(GunTimer(Stopwatch { elapsed: 0 }), delta, BULLET_SPAWN_INTERVAL, n) == n
            / per_shot,
        shots_while_held(GunTimer(Stopwatch { elapsed: 0 }), delta, BULLET_SPAWN_INTERVAL, n) == (n
            * delta) / (BULLET_SPAWN_INTERVAL as int),
{
    assert(per_shot > 0) by (nonlinear_arith)
        requires
            per_shot * delta == 200_000_000,
            delta > 0,
            per_shot >= 0,
    ;
    lemma_fire_cadence(delta, per_shot, n);
    // n ticks of delta are n / per_shot whole intervals
    let q = n / per_shot;
    let r = n % per_shot;
    assert(n == per_shot * q + r && 0 <= r < per_shot) by (nonlinear_arith)
        requires
            per_shot > 0,
            q == n / per_shot,
            r == n % per_shot,
    ;
    let interval = BULLET_SPAWN_INTERVAL as int;
    assert(n * delta == interval * q + r * delta && 0 <= r * delta < interval) by (nonlinear_arith)
        requires
            n == per_shot * q + r,
            0 <= r < per_shot,
            per_shot * delta == interval,
            delta > 0,
    ;
    vstd::arithmetic::div_mod::lemma_fundamental_div_mod_converse(
        n * delta,
        interval,
        q as int,
        r * delta,
    );
}

/// A cursor level with the player, to its left or right, turns the gun
/// straight along x toward it; a cursor straight above or below it, along y.
pub proof fn lemma_aim_on_axis(player: Vec2, cursor: Vec2)
    ensures
        cursor.y == player.y && cursor.x > player.x ==> aim_toward(player, Some(cursor)) == (Vec2 {
            x: UNIT,
            y: 0,
        }),
        cursor.y == player.y && cursor.x < player.x ==> aim_toward(player, Some(cursor)) == (Vec2 {
            x: (-UNIT) as i32,
            y: 0,
        }),
        cursor.x == player.x && cursor.y > player.y ==> aim_toward(player, Some(cursor)) == (Vec2 {
            x: 0,
            y: UNIT,
        }),
        cursor.x == player.x && cursor.y < player.y ==> aim_toward(player, Some(cursor)) == (Vec2 {
            x: 0,
            y: (-UNIT) as i32,
        }),
{
    let dx = cursor.x - player.x;
    let dy = cursor.y - player.y;
    if dy == 0 && dx != 0 {
        lemma_scaled_along_x(dx, UNIT as nat);
    }
    if dx == 0 && dy != 0 {
        lemma_scaled_along_y(dy, UNIT as nat);
    }
}

/// Once the old bullets have been removed, no bullet is older than a
/// bullet's time, and every bullet that is left was there before.
pub proof fn lemma_aged_bullets_are_young(w: WorldView)
    ensures
        forall|i: int|
            0 <= i < w.bullets_aged().bullets.len() ==> w.clock - (
            #[trigger] w.bullets_aged().bullets[i]).spawned.0 <= BULLET_TIME,
        forall|i: int|
            0 <= i < w.bullets_aged().bullets.len() ==> w.bullets.contains(
                #[trigger] w.bullets_aged().bullets[i],
            ),
        w.bullets_aged().bullets.len() <= w.bullets.len(),
{
    broadcast use vstd::seq_lib::group_filter_ensures;

    let kept = w.bullets.filter(live_at(w.clock));
    assert forall|i: int| 0 <= i < kept.len() implies w.clock - (#[trigger] kept[i]).spawned.0
        <= BULLET_TIME && w.bullets.contains(kept[i]) by {
        w.bullets.lemma_filter_pred(live_at(w.clock), i);
        assert(kept.contains(kept[i]));
        w.bullets.lemma_filter_contains_rev(live_at(w.clock), kept[i]);
    }
    w.bullets.lemma_filter_len(live_at(w.clock));
}

/// The direction from the player to what it aims at.
pub fn take_aim(player: Vec2, cursor: Option<Vec2>) -> (aim: Vec2)
    ensures
        aim == aim_toward(player, cursor),
{
    let target = match cursor {
        Some(c) => c,
        None => player,
    };
    if target.x == player.x && target.y == player.y {
        Vec2 { x: -UNIT, y: 0 }
    } else {
        player.toward(target, UNIT as u32)
    }
}

/// The velocity of a bullet fired along `aim` with the given jitter.
pub fn velocity_of(aim: Vec2, jitter: Vec2) -> (v: Vec2)
    ensures
        v == bullet_velocity(aim, jitter),
{
    let sx: i128 = aim.x as i128 + jitter.x as i128;
    let sy: i128 = aim.y as i128 + jitter.y as i128;
    assert(-0x1_0000_0000_0000 <= sx * BULLET_SPEED <= 0x1_0000_0000_0000 && -0x1_0000_0000_0000
        <= sy * BULLET_SPEED <= 0x1_0000_0000_0000) by (nonlinear_arith)
        requires
            -0x1_0000_0000 <= sx <= 0x1_0000_0000,
            -0x1_0000_0000 <= sy <= 0x1_0000_0000,
            BULLET_SPEED == 300,
    ;
    Vec2 {
        x: clamp_to_i32(sx * (BULLET_SPEED as i128)),
        y: clamp_to_i32(sy * (BULLET_SPEED as i128)),
    }
}

/// Draws the jitter of one bullet: each axis evenly from
/// `-BULLET_JITTER .. BULLET_JITTER`, the two independently.
pub fn random_jitter() -> (j: Vec2)
    ensures
        is_jitter(j),
{
    let x: i64 = uniform(-(BULLET_JITTER as i64), BULLET_JITTER as i64);
    let y: i64 = uniform(-(BULLET_JITTER as i64), BULLET_JITTER as i64);
    Vec2 { x: x as i32, y: y as i32 }
}

/// Draws the jitter of `n` bullets, each on its own.
pub fn random_jitters(n: u32) -> (jitters: Vec<Vec2>)
    ensures
        jitters@.len() == n,
        forall|i: int| 0 <= i < jitters@.len() ==> is_jitter(#[trigger] jitters@[i]),
{
    let mut jitters: Vec<Vec2> = Vec::new();
    let mut i: u32 = 0;
    while i < n
        invariant
            i <= n,
            jitters@.len() == i,
            forall|k: int| 0 <= k < jitters@.len() ==> is_jitter(#[trigger] jitters@[k]),
        decreases n - i,
    {
        jitters.push(random_jitter());
        i = i + 1;
    }
    jitters
}

impl WorldView {
    /// How many bullets a tick of `delta` nanoseconds creates when
    /// `available` jitter draws are at hand: none unless the gun fires, else
    /// one per draw up to the bullets of one shot.
    pub open spec fn shots(self, delta: u64, held: bool, available: nat) -> nat {
        match (self.player, self.gun) {
            (Some(p), Some(g)) => if g.timer.fires(delta, held, BULLET_SPAWN_INTERVAL) {
                if available < NUM_BULLETS_PER_SHOT {
                    available
                } else {
                    NUM_BULLETS_PER_SHOT as nat
                }
            } else {
                0
            },
            _ => 0,
        }
    }

    /// The registry after the gun has been turned toward the cursor. Without
    /// a player and its gun nothing changes.
    pub open spec fn gun_aimed(self, cursor: Option<Vec2>) -> WorldView {
        match (self.player, self.gun) {
            (Some(p), Some(g)) => WorldView { gun: Some(g.aimed(p.pos, cursor)), ..self },
            _ => self,
        }
    }

    /// The registry after the trigger has been handled for a tick of `delta`
    /// nanoseconds: the cooldown has advanced, and if the gun fired, its
    /// bullets, stamped with the present time, follow the bullets in flight,
    /// the `i`-th with the `i`-th jitter. Without a player and its gun nothing
    /// changes.
    pub open spec fn gun_handled(self, delta: u64, held: bool, jitters: Seq<Vec2>) -> WorldView {
        match (self.player, self.gun) {
            (Some(p), Some(g)) => {
                let n = self.shots(delta, held, jitters.len());
                WorldView {
                    gun: Some(
                        Gun { timer: g.timer.stepped(delta, held, BULLET_SPAWN_INTERVAL), ..g },
                    ),
                    bullets: self.bullets + Seq::new(
                        n,
                        |i: int|
                            fired_bullet(
                                id_after(self.next_id, i),
                                p.pos,
                                g,
                                jitters[i],
                                self.clock,
                            ),
                    ),
                    next_id: id_after(self.next_id, n as int),
                    ..self
                }
            },
            _ => self,
        }
    }

    /// The registry after the bullets that have outlived their time have been
    /// removed. The others stay, in their order.
    pub open spec fn bullets_aged(self) -> WorldView {
        WorldView { bullets: self.bullets.filter(live_at(self.clock)), ..self }
    }
}

/// The registry after the trigger has been handled for `n` ticks of `delta`
/// nanoseconds each, held all the while, the `i`-th tick with the jitter
/// draws `jitters(i)`.
pub open spec fn fire_held(
    w: WorldView,
    delta: u64,
    jitters: spec_fn(nat) -> Seq<Vec2>,
    n: nat,
) -> WorldView
    decreases n,
{
    if n == 0 {
        w
    } else {
        fire_held(w, delta, jitters, (n - 1) as nat).gun_handled(
            delta,
            true,
            jitters((n - 1) as nat),
        )
    }
}

/// Held fire spawns bullets on the cadence of the gun: with the trigger held
/// for `n` ticks of which `per_shot` make up the fire interval, a gun that
/// starts with its cooldown at zero has added one shot's bullets to those in
/// flight for every full interval of simulated time, and none in between.
pub proof fn lemma_held_fire_spawns_on_cadence(
    w: WorldView,
    delta: u64,
    per_shot: nat,
    jitters: spec_fn(nat) -> Seq<Vec2>,
    n: nat,
)
    requires
        w.player is Some,
        w.gun is Some,
        w.gun->0.timer.0.elapsed == 0,
        delta > 0,
        per_shot * delta == BULLET_SPAWN_INTERVAL,
        forall|i: nat| (#[trigger] jitters(i)).len() == NUM_BULLETS_PER_SHOT,
    ensures
        fire_held(w, delta, jitters, n).bullets.len() == w.bullets.len() + (n / per_shot)
            * NUM_BULLETS_PER_SHOT,
        fire_held(w, delta, jitters, n).player == w.player,
        fire_held(w, delta, jitters, n).gun is Some,
        fire_held(w, delta, jitters, n).gun->0.timer == held_for(
            w.gun->0.timer,
            delta,
            BULLET_SPAWN_INTERVAL,
            n,
        ),
    decreases n,
{
    let start = GunTimer(Stopwatch { elapsed: 0 });
    assert(w.gun->0.timer == start);
    lemma_gun_fire_cadence(delta, per_shot, n);
    if n > 0 {
        let m = (n - 1) as nat;
        lemma_held_fire_spawns_on_cadence(w, delta, per_shot, jitters, m);
        lemma_gun_fire_cadence(delta, per_shot, m);
        let before = fire_held(w, delta, jitters, m);
        let fires = before.gun->0.timer.fires(delta, true, BULLET_SPAWN_INTERVAL);
        let shots = before.shots(delta, true, jitters(m).len());
        assert(shots == if fires {
            NUM_BULLETS_PER_SHOT as nat
        } else {
            0nat
        });
        let step: nat = if fires {
            1
        } else {
            0
        };
        assert(n / per_shot == m / per_shot + step);
        let whole = (m / per_shot) as int;
        let per: int = NUM_BULLETS_PER_SHOT as int;
        assert(shots == step * per);
        assert((whole + step) * per == whole * per + step * per) by (nonlinear_arith);
    }
}

impl World {
    /// Turns the gun toward the cursor, or along -x where there is no cursor
    /// to turn to, and keeps it at its fixed distance from the pivot.
    pub fn update_gun_transform(&mut self, cursor: Option<Vec2>)
        requires
            old(self)@.wf(),
        ensures
            final(self)@ == old(self)@.gun_aimed(cursor),
            final(self)@.wf(),
    {
        if let (Some(p), Some(g)) = (self.player, self.gun) {
            let aim = take_aim(p.pos, cursor);
            let offset = Vec2 {
                x: clamp_to_i32(aim.x as i128 * GUN_RADIUS as i128),
                y: clamp_to_i32(aim.y as i128 * GUN_RADIUS as i128),
            };
            self.gun = Some(Gun { id: g.id, owner: g.owner, aim, offset, timer: g.timer });
        }
    }

    /// Handles the trigger for one tick with the jitter draws given: advances
    /// the cooldown, and if the gun fires, creates its bullets, one per draw
    /// up to the bullets of one shot. Returns how many were created; they are
    /// the last of the bullets.
    pub fn handle_gun_input_with(
        &mut self,
        delta: u64,
        fire_held: bool,
        jitters: &Vec<Vec2>,
    ) -> (fired: usize)
        requires
            old(self)@.wf(),
        ensures
            final(self)@ == old(self)@.gun_handled(delta, fire_held, jitters@),
            fired == old(self)@.shots(delta, fire_held, jitters@.len()),
            final(self)@.wf(),
    {
        let (p, g) = match (self.player, self.gun) {
            (Some(p), Some(g)) => (p, g),
            _ => {
                return 0;
            },
        };
        let mut timer = g.timer;
        let fire = timer.step(delta, fire_held, BULLET_SPAWN_INTERVAL);
        self.gun = Some(Gun { id: g.id, owner: g.owner, aim: g.aim, offset: g.offset, timer });
        let ghost target = old(self)@.gun_handled(delta, fire_held, jitters@);
        if !fire {
            assert(self@.bullets =~= target.bullets);
            return 0;
        }
        let count: usize = if jitters.len() < NUM_BULLETS_PER_SHOT as usize {
            jitters.len()
        } else {
            NUM_BULLETS_PER_SHOT as usize
        };
        let gun_pos = p.pos.shift(g.offset.x as i64, g.offset.y as i64);
        let pos = gun_pos.shift(
            g.aim.x as i64 * MUZZLE_OFFSET as i64,
            g.aim.y as i64 * MUZZLE_OFFSET as i64,
        );
        let ghost before = self@;
        let ghost first = old(self)@.next_id;
        let ghost had = old(self)@.bullets;
        let now: u64 = self.clock;
        proof {
            lemma_id_after_next(first, 0);
        }
        let mut i: usize = 0;
        while i < count
            invariant
                i <= count <= jitters.len(),
                pos == muzzle(p.pos, g),
                now == before.clock,
                self@.next_id == id_after(first, i as int),
                self@.bullets.len() == had.len() + i,
                forall|k: int| 0 <= k < had.len() ==> self@.bullets[k] == had[k],
                forall|k: int|
                    0 <= k < i ==> self@.bullets[had.len() + k] == fired_bullet(
                        id_after(first, k),
                        p.pos,
                        g,
                        jitters@[k],
                        now,
                    ),
                self@ == (WorldView { bullets: self@.bullets, next_id: self@.next_id, ..before }),
            decreases count - i,
        {
            proof {
                lemma_id_after_next(first, i as int);
            }
            let id: u64 = self.fresh_id();
            let bullet = Bullet {
                id,
                pos,
                velocity: velocity_of(g.aim, jitters[i]),
                damage: BULLET_DAMAGE,
                spawned: SpawnInstant(now),
            };
            self.bullets.push(bullet);
            i = i + 1;
        }
        assert(self@.bullets =~= target.bullets);
        count
    }

    /// Handles the trigger for one tick: advances the cooldown by `delta`
    /// nanoseconds, held or not, and if the trigger is held and the cooldown
    /// has reached the fire interval, starts it again from zero and fires one
    /// shot, each bullet with a jitter drawn for it. Returns how many bullets
    /// were created; they are the last of the bullets.
    pub fn handle_gun_input(&mut self, delta: u64, fire_held: bool) -> (fired: usize)
        requires
            old(self)@.wf(),
        ensures
            exists|jitters: Seq<Vec2>|
                #![trigger old(self)@.gun_handled(delta, fire_held, jitters)]
                jitters.len() == NUM_BULLETS_PER_SHOT && (forall|i: int|
                    0 <= i < jitters.len() ==> is_jitter(#[trigger] jitters[i])) && final(self)@
                    == old(self)@.gun_handled(delta, fire_held, jitters),
            fired == old(self)@.shots(delta, fire_held, NUM_BULLETS_PER_SHOT as nat),
            final(self)@.wf(),
    {
        let jitters = random_jitters(NUM_BULLETS_PER_SHOT);
        self.handle_gun_input_with(delta, fire_held, &jitters)
    }

    /// Removes the bullets whose time is over: those created more than
    /// `BULLET_TIME` before the present. The others stay, in their order.
    /// Returns the removed bullets, in their order.
    pub fn despawn_old_bullets(&mut self) -> (removed: Vec<GameEntity>)
        requires
            old(self)@.wf(),
        ensures
            final(self)@ == old(self)@.bullets_aged(),
            removed@ == bullet_entities(
                old(self)@.bullets.filter(expired_at(old(self)@.clock)),
            ),
            forall|i: int|
                0 <= i < final(self)@.bullets.len() ==> final(self)@.clock - (
                #[trigger] final(self)@.bullets[i]).spawned.0 <= BULLET_TIME,
            final(self)@.wf(),
    {
        let now: u64 = self.clock;
        let mut kept: Vec<Bullet> = Vec::new();
        let mut removed: Vec<GameEntity> = Vec::new();
        let mut i: usize = 0;
        while i < self.bullets.len()
            invariant
                i <= self.bullets.len(),
                now == self.clock,
                *self == *old(self),
                kept@ == self.bullets@.take(i as int).filter(live_at(now)),
                removed@ == bullet_entities(self.bullets@.take(i as int).filter(expired_at(now))),
                kept@.len() <= i,
                forall|k: int| 0 <= k < kept@.len() ==> !bullet_expired(#[trigger] kept@[k], now),
            decreases self.bullets.len() - i,
        {
            let b = self.bullets[i];
            proof {
                let head = self.bullets@.take(i as int);
                assert(self.bullets@.take(i + 1) =~= head.push(b));
                head.lemma_filter_push(b, live_at(now));
                head.lemma_filter_push(b, expired_at(now));
            }
            if now > b.spawned.0 && now - b.spawned.0 > BULLET_TIME {
                removed.push(GameEntity { id: b.id, kind: EntityKind::Bullet });
                assert(removed@ =~= bullet_entities(
                    self.bullets@.take(i + 1).filter(expired_at(now)),
                ));
            } else {
                kept.push(b);
            }
            i = i + 1;
        }
        assert(self.bullets@.take(i as int) =~= self.bullets@);
        self.bullets = kept;
        removed
    }
}

} // verus!
