//! Per-room simulation state and its fixed-step update.
//!
//! A game holds the registered players, one bird per player (keyed by the
//! player's session id), and the walls scrolling across the field. `update`
//! is one tick: move everything, kill birds that touch a wall, drop walls
//! that scrolled past the left edge, and keep at least a pair of walls
//! coming by spawning a fresh one when fewer than two remain.

use vstd::prelude::*;

use crate::bird::Bird;
use crate::collision::{circle_rect_collide, collision_circle_rectange};
use crate::entropy::sample_range;
use crate::fixed::{DT_MAX, SCALE};
use crate::player::Player;
use crate::wall::Wall;

verus! {

/// Where a new bird appears: x coordinate.
pub const BIRD_SPAWN_X: i64 = 200_000;

/// Where a new bird appears: y coordinate.
pub const BIRD_SPAWN_Y: i64 = 500_000;

/// Radius of a new bird.
pub const BIRD_RADIUS: i64 = 25_000;

/// A wall at or left of this x coordinate is dropped.
pub const WALL_CULL_X: i64 = -200_000;

/// Horizontal speed of every wall.
pub const WALL_VX: i64 = -500_000;

/// Width of every spawned wall.
pub const WALL_WIDTH: i64 = 50_000;

/// Height of every spawned wall.
pub const WALL_HEIGHT: i64 = 200_000;

/// Lowest x coordinate a wall can spawn at.
pub const WALL_SPAWN_MIN_X: i64 = 1_200_000;

/// Exclusive upper bound on the x coordinate a wall can spawn at.
pub const WALL_SPAWN_MAX_X: i64 = 1_500_000;

/// One room's simulation.
#[derive(Debug)]
pub struct Game {
    /// Whether the simulation steps; set once, never cleared.
    pub running: bool,
    /// The registered participants, ids pairwise distinct.
    pub players: Vec<Player>,
    /// One bird per participant, keyed by the participant's id.
    pub birds: Vec<(u128, Bird)>,
    /// The live walls, oldest first.
    pub walls: Vec<Wall>,
}

/// Whether some player in `s` carries `id`.
pub open spec fn has_player(s: Seq<Player>, id: u128) -> bool {
    exists|i: int| 0 <= i < s.len() && s[i].id == id
}

/// Whether every player in `s` is ready.
pub open spec fn all_ready(s: Seq<Player>) -> bool {
    forall|i: int| 0 <= i < s.len() ==> s[i].ready
}

/// Whether some bird in `s` is keyed by `id`.
pub open spec fn has_bird(s: Seq<(u128, Bird)>, id: u128) -> bool {
    exists|i: int| 0 <= i < s.len() && s[i].0 == id
}

/// Whether the moved bird touches any of the moved walls.
pub open spec fn hits_any(b: Bird, walls: Seq<Wall>) -> bool {
    exists|j: int| 0 <= j < walls.len() && circle_rect_collide(b, walls[j])
}

/// Every wall of `s`, moved one step of `dt`.
pub open spec fn walls_moved(s: Seq<Wall>, dt: i64) -> Seq<Wall> {
    Seq::new(s.len(), |i: int| s[i].stepped(dt))
}

/// What one tick makes of one keyed bird, given the already-moved walls:
/// the bird moves, and goes (or stays) inactive exactly when the moved bird
/// touches a moved wall.
pub open spec fn tick_bird(kb: (u128, Bird), walls: Seq<Wall>, dt: i64) -> (u128, Bird) {
    let m = kb.1.stepped(dt);
    (kb.0, Bird { active: m.active && !hits_any(m, walls), ..m })
}

/// The walls of `s` that survive the cull: exactly those strictly right of
/// `WALL_CULL_X`, in their original order.
pub open spec fn cull_walls(s: Seq<Wall>) -> Seq<Wall>
    decreases s.len(),
{
    if s.len() == 0 {
        Seq::empty()
    } else {
        let rest = cull_walls(s.drop_last());
        if s.last().px > WALL_CULL_X {
            rest.push(s.last())
        } else {
            rest
        }
    }
}

/// What a freshly spawned wall looks like: x uniform in the spawn band,
/// y uniform over the field height, fixed velocity and size.
pub open spec fn spawned_wall_ok(w: Wall) -> bool {
    &&& WALL_SPAWN_MIN_X <= w.px < WALL_SPAWN_MAX_X
    &&& 0 <= w.py < SCALE
    &&& w.vx == WALL_VX && w.vy == 0
    &&& w.width == WALL_WIDTH && w.height == WALL_HEIGHT
}

/// The whole effect of one tick. When the game is not running, nothing at
/// all changes. When it runs: players are untouched; every bird is moved
/// and collision-tested against the moved walls (the test sees every moved
/// wall, culled or not); then the walls are culled; and if fewer than two
/// remain, exactly one spawned wall is appended.
pub open spec fn tick_post(pre: Game, post: Game, dt: i64) -> bool {
    if !pre.running {
        post == pre
    } else {
        let mw = walls_moved(pre.walls@, dt);
        let culled = cull_walls(mw);
        &&& post.running
        &&& post.players@ == pre.players@
        &&& post.birds@ == Seq::new(pre.birds@.len(), |i: int| tick_bird(pre.birds@[i], mw, dt))
        &&& if culled.len() < 2 {
            &&& post.walls@.len() == culled.len() + 1
            &&& post.walls@.drop_last() == culled
            &&& spawned_wall_ok(post.walls@.last())
        } else {
            post.walls@ == culled
        }
    }
}

/// The effect of `add_player`: the player is registered under its id
/// (replacing any same-id record), a fresh bird appears for that id at the
/// spawn state, everything else is kept, and `r` is the new bird's own id.
pub open spec fn add_player_post(pre: Game, post: Game, player: Player, r: u128) -> bool {
    &&& post.running == pre.running
    &&& post.walls@ == pre.walls@
    &&& if has_player(pre.players@, player.id) {
        exists|i: int|
            0 <= i < pre.players@.len() && pre.players@[i].id == player.id && post.players@
                == pre.players@.update(i, player)
    } else {
        post.players@ == pre.players@.push(player)
    }
    &&& exists|b: Bird|
        {
            &&& #[trigger] spawn_bird_ok(b)
            &&& b.id == r
            &&& if has_bird(pre.birds@, player.id) {
                exists|i: int|
                    0 <= i < pre.birds@.len() && pre.birds@[i].0 == player.id && post.birds@
                        == pre.birds@.update(i, (player.id, b))
            } else {
                post.birds@ == pre.birds@.push((player.id, b))
            }
        }
}

/// The effect of `set_input` when a bird keyed by `id` exists: only that
/// bird's jump intent changes. When none exists, nothing changes at all.
pub open spec fn set_input_post(pre: Game, post: Game, id: u128, input: bool) -> bool {
    &&& post.running == pre.running
    &&& post.players@ == pre.players@
    &&& post.walls@ == pre.walls@
    &&& post.birds@.len() == pre.birds@.len()
    &&& forall|i: int|
        0 <= i < pre.birds@.len() ==> post.birds@[i] == (if pre.birds@[i].0 == id {
            (id, Bird { jump: input, ..pre.birds@[i].1 })
        } else {
            pre.birds@[i]
        })
}

/// The effect of `ready`: the player keyed by `id` (if any) becomes ready,
/// nobody else changes, and the game is running afterwards exactly when it
/// already was or when somebody is registered and everybody is now ready.
pub open spec fn ready_post(pre: Game, post: Game, id: u128) -> bool {
    &&& post.birds@ == pre.birds@
    &&& post.walls@ == pre.walls@
    &&& post.players@.len() == pre.players@.len()
    &&& forall|i: int|
        0 <= i < pre.players@.len() ==> post.players@[i] == (if pre.players@[i].id == id {
            Player { ready: true, ..pre.players@[i] }
        } else {
            pre.players@[i]
        })
    &&& post.running == (pre.running || (post.players@.len() > 0 && all_ready(post.players@)))
}

/// What a freshly spawned bird looks like.
pub open spec fn spawn_bird_ok(b: Bird) -> bool {
    &&& b.px == BIRD_SPAWN_X && b.py == BIRD_SPAWN_Y
    &&& b.vx == 0 && b.vy == 0
    &&& b.radius == BIRD_RADIUS
    &&& !b.jump
    &&& b.active
}

impl Game {
    /// Structural soundness: player ids pairwise distinct, bird keys
    /// pairwise distinct, and every bird and wall within the model bounds.
    pub open spec fn wf(self) -> bool {
        &&& forall|i: int, j: int|
            0 <= i < j < self.players@.len() ==> self.players@[i].id != self.players@[j].id
        &&& forall|i: int, j: int|
            0 <= i < j < self.birds@.len() ==> self.birds@[i].0 != self.birds@[j].0
        &&& forall|i: int| 0 <= i < self.birds@.len() ==> (#[trigger] self.birds@[i]).1.wf()
        &&& forall|i: int| 0 <= i < self.walls@.len() ==> (#[trigger] self.walls@[i]).wf()
    }

    /// A fresh game: not running, nobody registered, no walls.
    pub fn new() -> (g: Game)
        ensures
            !g.running,
            g.players@.len() == 0,
            g.birds@.len() == 0,
            g.walls@.len() == 0,
            g.wf(),
    {
        Game { running: false, players: Vec::new(), birds: Vec::new(), walls: Vec::new() }
    }

    /// Registers a player and gives it a bird at the spawn state; returns
    /// the bird's id.
    pub fn add_player(&mut self, player: Player) -> (r: u128)
        requires
            old(self).wf(),
        ensures
            final(self).wf(),
            add_player_post(*old(self), *final(self), player, r),
    {
        let bird = Bird::new((BIRD_SPAWN_X, BIRD_SPAWN_Y), (0, 0), BIRD_RADIUS);
        match find_player(&self.players, player.id) {
            Some(i) => {
                let _ = self.players.remove(i);
                self.players.insert(i, player);
                proof {
                    assert(self.players@ =~= old(self).players@.update(i as int, player));
                }
            },
            None => {
                self.players.push(player);
            },
        }
        match find_bird(&self.birds, player.id) {
            Some(i) => {
                let _ = self.birds.remove(i);
                self.birds.insert(i, (player.id, bird));
                proof {
                    assert(self.birds@ =~= old(self).birds@.update(i as int, (player.id, bird)));
                }
            },
            None => {
                self.birds.push((player.id, bird));
            },
        }
        proof {
            assert(spawn_bird_ok(bird));
        }
        bird.id()
    }

    /// Sets the jump intent of the bird keyed by `id`; present means a bird
    /// was found, absent means the caller has to register the player first.
    pub fn set_input(&mut self, id: u128, input: bool) -> (r: Option<()>)
        requires
            old(self).wf(),
        ensures
            final(self).wf(),
            r is Some <==> has_bird(old(self).birds@, id),
            set_input_post(*old(self), *final(self), id, input),
    {
        match find_bird(&self.birds, id) {
            Some(i) => {
                let kb = self.birds[i];
                let mut b = kb.1;
                b.set_input(input);
                let _ = self.birds.remove(i);
                self.birds.insert(i, (kb.0, b));
                proof {
                    assert(self.birds@ =~= old(self).birds@.update(i as int, (kb.0, b)));
                }
                Some(())
            },
            None => None,
        }
    }

    /// Whether the game may start: somebody is registered and everybody is
    /// ready.
    fn check_start(&self) -> (r: bool)
        ensures
            r == (self.players@.len() > 0 && all_ready(self.players@)),
    {
        if self.players.len() == 0 {
            return false;
        }
        let mut i: usize = 0;
        while i < self.players.len()
            invariant
                0 <= i <= self.players@.len(),
                forall|j: int| 0 <= j < i ==> self.players@[j].ready,
            decreases self.players@.len() - i,
        {
            if !self.players[i].ready {
                return false;
            }
            i = i + 1;
        }
        true
    }

    /// Marks the player `id` ready (if registered; the result says whether
    /// one was found), then starts the game if everybody registered is
    /// ready and somebody is.
    pub fn ready(&mut self, id: u128) -> (r: bool)
        requires
            old(self).wf(),
        ensures
            final(self).wf(),
            r == has_player(old(self).players@, id),
            ready_post(*old(self), *final(self), id),
    {
        let r = match find_player(&self.players, id) {
            Some(i) => {
                let mut p = self.players[i];
                p.set_ready(true);
                let _ = self.players.remove(i);
                self.players.insert(i, p);
                proof {
                    assert(self.players@ =~= old(self).players@.update(i as int, p));
                }
                true
            },
            None => false,
        };
        if self.check_start() {
            self.start();
        }
        r
    }

    /// Sets the game running.
    pub fn start(&mut self)
        ensures
            *final(self) == (Game { running: true, ..*old(self) }),
    {
        self.running = true;
    }

    /// One tick of `dt`: exactly `tick_post`.
    pub fn update(&mut self, dt: i64)
        requires
            old(self).wf(),
            0 < dt <= DT_MAX,
        ensures
            final(self).wf(),
            tick_post(*old(self), *final(self), dt),
    {
        if !self.running {
            return ;
        }
        let ghost pre = *old(self);
        let mut moved: Vec<Wall> = Vec::new();
        let mut i: usize = 0;
        while i < self.walls.len()
            invariant
                *self == pre,
                pre.wf(),
                0 < dt <= DT_MAX,
                0 <= i <= pre.walls@.len(),
                moved@ =~= walls_moved(pre.walls@, dt).subrange(0, i as int),
                forall|j: int| 0 <= j < moved@.len() ==> (#[trigger] moved@[j]).wf(),
            decreases pre.walls@.len() - i,
        {
            let mut w = self.walls[i];
            w.update(dt);
            moved.push(w);
            proof {
                assert(moved@ =~= walls_moved(pre.walls@, dt).subrange(0, i + 1 as int));
            }
            i = i + 1;
        }
        proof {
            assert(moved@ =~= walls_moved(pre.walls@, dt));
        }
        let mut new_birds: Vec<(u128, Bird)> = Vec::new();
        let mut i: usize = 0;
        while i < self.birds.len()
            invariant
                *self == pre,
                pre.wf(),
                0 < dt <= DT_MAX,
                moved@ == walls_moved(pre.walls@, dt),
                forall|j: int| 0 <= j < moved@.len() ==> (#[trigger] moved@[j]).wf(),
                0 <= i <= pre.birds@.len(),
                new_birds@ =~= Seq::new(i as nat, |j: int| tick_bird(pre.birds@[j], moved@, dt)),
                forall|j: int| 0 <= j < new_birds@.len() ==> (#[trigger] new_birds@[j]).1.wf(),
            decreases pre.birds@.len() - i,
        {
            let kb = self.birds[i];
            let mut b = kb.1;
            b.update(dt);
            if b.active {
                if hits_any_walls(&b, &moved) {
                    b.active = false;
                }
            }
            proof {
                assert((kb.0, b) == tick_bird(pre.birds@[i as int], moved@, dt));
            }
            new_birds.push((kb.0, b));
            i = i + 1;
        }
        let mut kept: Vec<Wall> = Vec::new();
        let mut i: usize = 0;
        while i < moved.len()
            invariant
                0 <= i <= moved@.len(),
                forall|j: int| 0 <= j < moved@.len() ==> (#[trigger] moved@[j]).wf(),
                kept@ =~= cull_walls(moved@.subrange(0, i as int)),
                forall|j: int| 0 <= j < kept@.len() ==> (#[trigger] kept@[j]).wf(),
            decreases moved@.len() - i,
        {
            let w = moved[i];
            proof {
                assert(moved@.subrange(0, i + 1 as int).drop_last() =~= moved@.subrange(
                    0,
                    i as int,
                ));
            }
            if w.px > WALL_CULL_X {
                kept.push(w);
            }
            i = i + 1;
        }
        proof {
            assert(moved@.subrange(0, moved@.len() as int) =~= moved@);
        }
        if kept.len() < 2 {
            let x = sample_range(WALL_SPAWN_MIN_X, WALL_SPAWN_MAX_X);
            let y = sample_range(0, SCALE);
            let w = Wall::new((x, y), (WALL_VX, 0), WALL_WIDTH, WALL_HEIGHT);
            kept.push(w);
            proof {
                assert(kept@.drop_last() =~= cull_walls(moved@));
            }
        }
        self.walls = kept;
        self.birds = new_birds;
    }
}

/// Whether the bird touches any wall of the vector; exactly `hits_any`.
fn hits_any_walls(b: &Bird, walls: &Vec<Wall>) -> (r: bool)
    requires
        b.wf(),
        forall|j: int| 0 <= j < walls@.len() ==> (#[trigger] walls@[j]).wf(),
    ensures
        r == hits_any(*b, walls@),
{
    let mut i: usize = 0;
    while i < walls.len()
        invariant
            b.wf(),
            forall|j: int| 0 <= j < walls@.len() ==> (#[trigger] walls@[j]).wf(),
            0 <= i <= walls@.len(),
            forall|j: int| 0 <= j < i ==> !circle_rect_collide(*b, walls@[j]),
        decreases walls@.len() - i,
    {
        if collision_circle_rectange(b, &walls[i]) {
            return true;
        }
        i = i + 1;
    }
    false
}

/// First index of the player carrying `id`, if any.
fn find_player(players: &Vec<Player>, id: u128) -> (r: Option<usize>)
    ensures
        match r {
            Some(i) => i < players@.len() && players@[i as int].id == id,
            None => !has_player(players@, id),
        },
{
    let mut i: usize = 0;
    while i < players.len()
        invariant
            0 <= i <= players@.len(),
            forall|j: int| 0 <= j < i ==> players@[j].id != id,
        decreases players@.len() - i,
    {
        if players[i].id == id {
            return Some(i);
        }
        i = i + 1;
    }
    None
}

/// First index of the bird keyed by `id`, if any.
fn find_bird(birds: &Vec<(u128, Bird)>, id: u128) -> (r: Option<usize>)
    ensures
        match r {
            Some(i) => i < birds@.len() && birds@[i as int].0 == id,
            None => !has_bird(birds@, id),
        },
{
    let mut i: usize = 0;
    while i < birds.len()
        invariant
            0 <= i <= birds@.len(),
            forall|j: int| 0 <= j < i ==> birds@[j].0 != id,
        decreases birds@.len() - i,
    {
        if birds[i].0 == id {
            return Some(i);
        }
        i = i + 1;
    }
    None
}

} // verus!
