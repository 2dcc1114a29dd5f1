//! The game: one level, the level counters, and the boss health, together
//! with collision classification, the interaction rule set, enemy motion,
//! and level progression.

use vstd::prelude::*;

use crate::level::Level;
use crate::level::LevelView;
use crate::level::spec_load;
use crate::player::Player;
use crate::types::BlockingType;
use crate::types::CollisionType;
use crate::types::InteractiveType;
use crate::types::ItemType;
use crate::types::Position;
use crate::types::TileType;
use crate::types::tile_outcome;
use crate::types::tile_to_outcome;

verus! {

/// Classification of a candidate position against bounds, the tiles, and a
/// given enemy list: out of bounds blocks like a wall; otherwise the tile's
/// own outcome wins; otherwise a cell on the enemy list is an enemy
/// encounter; otherwise the cell is free.
pub open spec fn spec_classify_with(lv: LevelView, enemies: Seq<Position>, pos: Position) -> CollisionType {
    if !lv.in_bounds(pos) {
        CollisionType::Blocking(BlockingType::Wall)
    } else {
        match tile_outcome(lv.tile_at(pos)) {
            Some(c) => c,
            None => if enemies.contains(pos) {
                CollisionType::Interactive(InteractiveType::Enemy)
            } else {
                CollisionType::NoCollision
            },
        }
    }
}

/// Classification against the level's own enemy list.
pub open spec fn spec_classify(lv: LevelView, pos: Position) -> CollisionType {
    spec_classify_with(lv, lv.enemies, pos)
}

/// Whether any cell of the grid holds the tile.
pub open spec fn grid_has_tile(grid: Seq<Seq<TileType>>, t: TileType) -> bool {
    exists|i: int, j: int| 0 <= i < grid.len() && 0 <= j < grid[i].len() && grid[i][j] == t
}

/// The position of the first cell holding the tile, in row-major order.
pub open spec fn spec_find_tile(grid: Seq<Seq<TileType>>, t: TileType) -> Option<Position>
    decreases grid.len(),
{
    if grid.len() == 0 {
        None
    } else {
        match grid[0].index_of_first(t) {
            Some(c) => Some(Position { row: 0 as i16, col: c as i16 }),
            None => match spec_find_tile(grid.drop_first(), t) {
                Some(p) => Some(Position { row: (p.row + 1) as i16, col: p.col }),
                None => None,
            },
        }
    }
}

/// `(i, j)` lies strictly before `p` in row-major order.
pub open spec fn row_major_before(i: int, j: int, p: Position) -> bool {
    i < p.row || (i == p.row && j < p.col)
}

/// What [`spec_find_tile`] finds: a cell holding the tile with no earlier
/// one in row-major order, or nothing when no cell holds it.
pub proof fn lemma_find_tile_props(grid: Seq<Seq<TileType>>, t: TileType)
    requires
        grid.len() <= u8::MAX as int,
        forall|i: int| 0 <= i < grid.len() ==> (#[trigger] grid[i]).len() <= u8::MAX as int,
    ensures
        match spec_find_tile(grid, t) {
            Some(p) => {
                &&& 0 <= p.row < grid.len()
                &&& 0 <= p.col < grid[p.row as int].len()
                &&& grid[p.row as int][p.col as int] == t
                &&& forall|i: int, j: int|
                    0 <= i < grid.len() && 0 <= j < grid[i].len() && row_major_before(i, j, p)
                        ==> #[trigger] grid[i][j] != t
            },
            None => forall|i: int, j: int|
                0 <= i < grid.len() && 0 <= j < grid[i].len() ==> #[trigger] grid[i][j] != t,
        },
    decreases grid.len(),
{
    if grid.len() > 0 {
        grid[0].index_of_first_ensures(t);
        match grid[0].index_of_first(t) {
            Some(c) => {},
            None => {
                let rest = grid.drop_first();
                lemma_find_tile_props(rest, t);
                assert(forall|i: int| 0 <= i < rest.len() ==> (#[trigger] rest[i]) == grid[i + 1]);
                match spec_find_tile(rest, t) {
                    Some(p0) => {
                        let p = Position { row: (p0.row + 1) as i16, col: p0.col };
                        assert forall|i: int, j: int|
                            0 <= i < grid.len() && 0 <= j < grid[i].len() && row_major_before(
                                i,
                                j,
                                p,
                            ) implies #[trigger] grid[i][j] != t by {
                            if i == 0 {
                                assert(!grid[0].contains(t));
                            } else {
                                assert(grid[i] == rest[i - 1]);
                                assert(row_major_before(i - 1, j, p0));
                            }
                        }
                    },
                    None => {
                        assert forall|i: int, j: int|
                            0 <= i < grid.len() && 0 <= j < grid[i].len() implies #[trigger] grid[i][j]
                            != t by {
                            if i == 0 {
                                assert(!grid[0].contains(t));
                            } else {
                                assert(grid[i] == rest[i - 1]);
                            }
                        }
                    },
                }
            },
        }
    }
}

/// The cell immediately to the right of `pos`.
pub open spec fn right_of(pos: Position) -> Position {
    Position { row: pos.row, col: (pos.col + 1) as i16 }
}

/// Holds of positions other than `pos`.
pub open spec fn not_at(pos: Position) -> spec_fn(Position) -> bool {
    |e: Position| e != pos
}

/// The enemy list without every enemy standing at `pos`.
pub open spec fn spec_remove_enemies(enemies: Seq<Position>, pos: Position) -> Seq<Position> {
    enemies.filter(not_at(pos))
}

pub struct Game {
    pub current_level: usize,
    pub max_levels: usize,
    pub level: Level,
    pub boss_health: u8,
}

/// Item pickup: the item joins the inventory, its cell empties, and the
/// move commits.
pub open spec fn pickup_effect(
    g0: Game,
    p0: Player,
    g1: Game,
    p1: Player,
    pos: Position,
    item: ItemType,
) -> bool {
    &&& Game::same_meta(g0, g1)
    &&& g1.level@ == g0.level@.with_tile(pos, TileType::Empty)
    &&& p1.inventory@ == p0.inventory@.push(item)
    &&& p1.pos == pos
    &&& p1.pending_move is None
}

/// Wood log: with an axe and water directly to the right, the water becomes
/// a canoe, the log cell empties, the axe is consumed and the move cancels;
/// with an axe and no such water, the log cell empties, the axe is consumed
/// and the move commits; without an axe nothing changes and the move
/// cancels.
pub open spec fn wood_log_effect(g0: Game, p0: Player, g1: Game, p1: Player, pos: Position) -> bool {
    &&& Game::same_meta(g0, g1)
    &&& p1.pending_move is None
    &&& if p0.inventory@.contains(ItemType::Axe) {
        let wpos = right_of(pos);
        if g0.level@.in_bounds(wpos) && g0.level@.tile_at(wpos) == TileType::Water {
            &&& g1.level@ == g0.level@.with_tile(wpos, TileType::Canoe).with_tile(
                pos,
                TileType::Empty,
            )
            &&& p1.inventory@ == p0.inventory@.remove_value(ItemType::Axe)
            &&& p1.pos == p0.pos
        } else {
            &&& g1.level@ == g0.level@.with_tile(pos, TileType::Empty)
            &&& p1.inventory@ == p0.inventory@.remove_value(ItemType::Axe)
            &&& p1.pos == pos
        }
    } else {
        &&& g1.level@ == g0.level@
        &&& p1.inventory@ == p0.inventory@
        &&& p1.pos == p0.pos
    }
}

/// Door: a key opens it in place and is consumed; either way the move
/// cancels.
pub open spec fn door_effect(g0: Game, p0: Player, g1: Game, p1: Player, pos: Position) -> bool {
    &&& Game::same_meta(g0, g1)
    &&& p1.pending_move is None
    &&& p1.pos == p0.pos
    &&& if p0.inventory@.contains(ItemType::Key) {
        &&& g1.level@ == g0.level@.with_tile(pos, TileType::DoorOpen)
        &&& p1.inventory@ == p0.inventory@.remove_value(ItemType::Key)
    } else {
        &&& g1.level@ == g0.level@
        &&& p1.inventory@ == p0.inventory@
    }
}

/// Cottage: it collapses to a tomb, a bomb is found, and the move cancels.
pub open spec fn cottage_effect(g0: Game, p0: Player, g1: Game, p1: Player, pos: Position) -> bool {
    &&& Game::same_meta(g0, g1)
    &&& p1.pending_move is None
    &&& p1.pos == p0.pos
    &&& g1.level@ == g0.level@.with_tile(pos, TileType::Tomb)
    &&& p1.inventory@ == p0.inventory@.push(ItemType::Bomb)
}

/// Rock: a bomb clears it and is consumed; either way the move cancels.
pub open spec fn rock_effect(g0: Game, p0: Player, g1: Game, p1: Player, pos: Position) -> bool {
    &&& Game::same_meta(g0, g1)
    &&& p1.pending_move is None
    &&& p1.pos == p0.pos
    &&& if p0.inventory@.contains(ItemType::Bomb) {
        &&& g1.level@ == g0.level@.with_tile(pos, TileType::Empty)
        &&& p1.inventory@ == p0.inventory@.remove_value(ItemType::Bomb)
    } else {
        &&& g1.level@ == g0.level@
        &&& p1.inventory@ == p0.inventory@
    }
}

/// The grid after a hook conversion from `start` toward `end`: with the end
/// on the same row, every cell of that row between the two columns,
/// inclusive, becomes a link; on the same column, likewise for rows;
/// unaligned, only the start cell becomes a link.
pub open spec fn hook_converted_grid(
    grid: Seq<Seq<TileType>>,
    start: Position,
    end: Position,
) -> Seq<Seq<TileType>> {
    if start.row == end.row {
        let lo = if start.col <= end.col {
            start.col as int
        } else {
            end.col as int
        };
        let hi = if start.col <= end.col {
            end.col as int
        } else {
            start.col as int
        };
        grid.update(
            start.row as int,
            Seq::new(
                grid[start.row as int].len(),
                |j: int|
                    if lo <= j <= hi {
                        TileType::Link
                    } else {
                        grid[start.row as int][j]
                    },
            ),
        )
    } else if start.col == end.col {
        let lo = if start.row <= end.row {
            start.row as int
        } else {
            end.row as int
        };
        let hi = if start.row <= end.row {
            end.row as int
        } else {
            start.row as int
        };
        Seq::new(
            grid.len(),
            |i: int|
                if lo <= i <= hi {
                    grid[i].update(start.col as int, TileType::Link)
                } else {
                    grid[i]
                },
        )
    } else {
        grid.update(
            start.row as int,
            grid[start.row as int].update(start.col as int, TileType::Link),
        )
    }
}

/// `q` lies on the straight segment a hook conversion from `start` toward
/// `end` covers: the cells between the two, inclusive, when they share a row
/// or a column, and the start cell alone otherwise.
pub open spec fn on_hook_segment(start: Position, end: Position, q: Position) -> bool {
    if start.row == end.row {
        &&& q.row == start.row
        &&& if start.col <= end.col {
            start.col <= q.col <= end.col
        } else {
            end.col <= q.col <= start.col
        }
    } else if start.col == end.col {
        &&& q.col == start.col
        &&& if start.row <= end.row {
            start.row <= q.row <= end.row
        } else {
            end.row <= q.row <= start.row
        }
    } else {
        q == start
    }
}

/// Hook start: with a hook held and a hook end present, the straight segment
/// between them (when aligned; the start cell alone otherwise) converts to
/// links; the hook is consumed whenever it was held; with no hook end no
/// cell changes; the move cancels in every case.
pub open spec fn hook_effect(g0: Game, p0: Player, g1: Game, p1: Player, pos: Position) -> bool {
    &&& Game::same_meta(g0, g1)
    &&& p1.pending_move is None
    &&& p1.pos == p0.pos
    &&& if p0.inventory@.contains(ItemType::Hook) {
        &&& p1.inventory@ == p0.inventory@.remove_value(ItemType::Hook)
        &&& match spec_find_tile(g0.level@.grid, TileType::HookEnd) {
            Some(end) => g1.level@ == g0.level@.with_grid(
                hook_converted_grid(g0.level@.grid, pos, end),
            ),
            None => g1.level@ == g0.level@,
        }
    } else {
        &&& g1.level@ == g0.level@
        &&& p1.inventory@ == p0.inventory@
    }
}

/// The flame paired with a crystal.
pub open spec fn flame_of(crystal: TileType) -> TileType {
    if crystal == TileType::CrystalA {
        TileType::FlameA
    } else if crystal == TileType::CrystalB {
        TileType::FlameB
    } else {
        TileType::FlameC
    }
}

/// No flame of any of the three kinds remains on the grid.
pub open spec fn no_flames(grid: Seq<Seq<TileType>>) -> bool {
    &&& !grid_has_tile(grid, TileType::FlameA)
    &&& !grid_has_tile(grid, TileType::FlameB)
    &&& !grid_has_tile(grid, TileType::FlameC)
}

/// Crystal: the matching flame, if present anywhere, vanishes; the crystal
/// cell becomes an alembic; removing the last flame of all three kinds
/// grants the wind chime, exactly once; the move cancels.
pub open spec fn crystal_effect(g0: Game, p0: Player, g1: Game, p1: Player, pos: Position) -> bool {
    let crystal = g0.level@.tile_at(pos);
    let lv1 = (match spec_find_tile(g0.level@.grid, flame_of(crystal)) {
        Some(fp) => g0.level@.with_tile(fp, TileType::Empty),
        None => g0.level@,
    });
    let lv2 = lv1.with_tile(pos, TileType::Alembic);
    &&& Game::same_meta(g0, g1)
    &&& p1.pending_move is None
    &&& p1.pos == p0.pos
    &&& g1.level@ == lv2
    &&& p1.inventory@ == (if no_flames(lv2.grid) {
        p0.inventory@.push(ItemType::WindChime)
    } else {
        p0.inventory@
    })
}

/// The single-cell step an enemy attempts: right, left, down, or up, by the
/// drawn direction.
pub open spec fn step_target(p: Position, dir: u32) -> Position {
    if dir == 0 {
        Position { row: p.row, col: (p.col + 1) as i16 }
    } else if dir == 1 {
        Position { row: p.row, col: (p.col - 1) as i16 }
    } else if dir == 2 {
        Position { row: (p.row + 1) as i16, col: p.col }
    } else {
        Position { row: (p.row - 1) as i16, col: p.col }
    }
}

/// `q` is exactly one orthogonal cell away from `p`.
pub open spec fn one_step_away(p: Position, q: Position) -> bool {
    ||| q == step_target(p, 0)
    ||| q == step_target(p, 1)
    ||| q == step_target(p, 2)
    ||| q == step_target(p, 3)
}

/// One enemy's tick: with the coin down, it stays; with the coin up, it
/// steps to the drawn neighbouring cell exactly when that cell classifies as
/// free against the tiles and bounds alone (the enemy list is detached
/// during a tick, so enemies may stack).
pub open spec fn enemy_step(lv: LevelView, p: Position, do_move: bool, dir: u32) -> Position {
    if !do_move {
        p
    } else {
        let target = step_target(p, dir);
        if spec_classify_with(lv, Seq::empty(), target) == CollisionType::NoCollision {
            target
        } else {
            p
        }
    }
}

/// Death: the actor is relocated to the level spawn point; the level, the
/// inventory and the boss state are untouched.
pub open spec fn death_effect(g0: Game, p0: Player, g1: Game, p1: Player) -> bool {
    &&& Game::same_meta(g0, g1)
    &&& g1.level@ == g0.level@
    &&& p1.inventory@ == p0.inventory@
    &&& p1.pos == g0.level@.spawn
    &&& p1.pending_move is None
}

/// Enemy: a sword slays it (every enemy on that cell leaves the list, the
/// sword is consumed, the move commits); without a sword the player dies.
pub open spec fn enemy_effect(
    g0: Game,
    p0: Player,
    g1: Game,
    p1: Player,
    pos: Position,
    died: bool,
) -> bool {
    if p0.inventory@.contains(ItemType::Sword) {
        &&& !died
        &&& Game::same_meta(g0, g1)
        &&& g1.level@ == g0.level@.with_enemies(spec_remove_enemies(g0.level@.enemies, pos))
        &&& p1.inventory@ == p0.inventory@.remove_value(ItemType::Sword)
        &&& p1.pos == pos
        &&& p1.pending_move is None
    } else {
        &&& died
        &&& death_effect(g0, p0, g1, p1)
    }
}

/// Oni: a wind chime cleanses it (its cell empties, the chime is exchanged
/// for the dragon sword, the move commits); without one the player dies.
pub open spec fn oni_effect(
    g0: Game,
    p0: Player,
    g1: Game,
    p1: Player,
    pos: Position,
    died: bool,
) -> bool {
    if p0.inventory@.contains(ItemType::WindChime) {
        &&& !died
        &&& Game::same_meta(g0, g1)
        &&& g1.level@ == g0.level@.with_tile(pos, TileType::Empty)
        &&& p1.inventory@ == p0.inventory@.remove_value(ItemType::WindChime).push(
            ItemType::DragonSword,
        )
        &&& p1.pos == pos
        &&& p1.pending_move is None
    } else {
        &&& died
        &&& death_effect(g0, p0, g1, p1)
    }
}

/// Boss: with the dragon sword a clash decrements the health counter; while
/// health remains the actor is pushed back to spawn, and the final clash
/// clears the boss cell and commits the move. Without the dragon sword the
/// player dies, and the boss health is untouched.
pub open spec fn boss_effect(
    g0: Game,
    p0: Player,
    g1: Game,
    p1: Player,
    pos: Position,
    died: bool,
) -> bool {
    if p0.inventory@.contains(ItemType::DragonSword) {
        &&& !died
        &&& p1.inventory@ == p0.inventory@
        &&& g1.current_level == g0.current_level
        &&& g1.max_levels == g0.max_levels
        &&& p1.pending_move is None
        &&& if g0.boss_health == 1 {
            &&& g1.boss_health == 0
            &&& g1.level@ == g0.level@.with_tile(pos, TileType::Empty)
            &&& p1.pos == pos
        } else {
            &&& g1.boss_health == (if g0.boss_health > 0 {
                (g0.boss_health - 1) as u8
            } else {
                0u8
            })
            &&& g1.level@ == g0.level@
            &&& p1.pos == g0.level@.spawn
        }
    } else {
        &&& died
        &&& death_effect(g0, p0, g1, p1)
    }
}

impl Game {
    /// A well-formed level.
    pub open spec fn wf(self) -> bool {
        self.level@.wf()
    }

    /// The counters and the boss state agree.
    pub open spec fn same_meta(g0: Game, g1: Game) -> bool {
        &&& g1.current_level == g0.current_level
        &&& g1.max_levels == g0.max_levels
        &&& g1.boss_health == g0.boss_health
    }

    /// Create the game at the first built-in level, with the boss at full
    /// health: the level is exactly what `spec_load` gives for level one.
    /// Yields nothing if that layout cannot be decoded; the caller treats
    /// that as fatal.
    pub fn new() -> (r: Option<Game>)
        ensures
            (match r {
                Some(g) => g.wf() && g.current_level == 1 && g.max_levels == 10
                    && g.boss_health == 3 && spec_load(1) == Some(g.level@),
                None => spec_load(1) is None,
            }),
    {
        let current_level: usize = 1;
        let max_levels: usize = 10;
        match Level::load(current_level) {
            Some(level) => Some(Game { current_level, max_levels, level, boss_health: 3 }),
            None => None,
        }
    }

    /// A fresh player standing at the level's spawn point.
    pub fn init_player(&self) -> (player: Player)
        requires
            self.wf(),
        ensures
            player.pos == self.level@.spawn,
            player.pending_move is None,
            player.inventory@ == Seq::<ItemType>::empty(),
    {
        let mut player = Player::new();
        player.reset_position(self.level.player_start);
        player
    }

    pub fn get_player_start(&self) -> (r: Position)
        ensures
            r == self.level@.spawn,
    {
        self.level.player_start
    }

    /// Classify a candidate position. Pure: no mutation.
    #[verifier::loop_isolation(false)]
    pub fn check_collision(&self, pos: &Position) -> (r: CollisionType)
        requires
            self.wf(),
        ensures
            r == spec_classify(self.level@, *pos),
    {
        if pos.row < 0 || pos.row >= self.level.map_size.0 as i16 || pos.col < 0 || pos.col
            >= self.level.map_size.1 as i16 {
            return CollisionType::Blocking(BlockingType::Wall);
        }
        proof {
            assert(self.level@.grid[pos.row as int] == self.level.map@[pos.row as int]@);
        }
        let tile = self.level.map[pos.row as usize][pos.col as usize];
        if let Some(outcome) = tile_to_outcome(tile) {
            return outcome;
        }
        let n = self.level.enemies.len();
        let mut i: usize = 0;
        while i < n
            invariant
                i <= n,
                n == self.level.enemies@.len(),
                forall|j: int| 0 <= j < i ==> self.level.enemies@[j] != *pos,
            decreases n - i,
        {
            if self.level.enemies[i] == *pos {
                assert(self.level@.enemies[i as int] == *pos);
                return CollisionType::Interactive(InteractiveType::Enemy);
            }
            i = i + 1;
        }
        CollisionType::NoCollision
    }

    /// Find the first cell holding the tile, scanning row-major.
    #[verifier::loop_isolation(false)]
    fn find_tile(&self, tile_type: TileType) -> (r: Option<Position>)
        requires
            self.wf(),
        ensures
            r == spec_find_tile(self.level@.grid, tile_type),
    {
        let ghost grid = self.level@.grid;
        proof {
            lemma_find_tile_props(grid, tile_type);
        }
        let nrows = self.level.map_size.0 as usize;
        let ncols = self.level.map_size.1 as usize;
        let mut row: usize = 0;
        while row < nrows
            invariant
                row <= nrows,
                forall|i: int, j: int|
                    0 <= i < row && 0 <= j < ncols ==> #[trigger] grid[i][j] != tile_type,
            decreases nrows - row,
        {
            let mut col: usize = 0;
            while col < ncols
                invariant
                    col <= ncols,
                    row < nrows,
                    forall|j: int| 0 <= j < col ==> grid[row as int][j] != tile_type,
                decreases ncols - col,
            {
                proof {
                    assert(grid[row as int] == self.level.map@[row as int]@);
                }
                if self.level.map[row][col] == tile_type {
                    let p = Position { row: row as i16, col: col as i16 };
                    proof {
                        match spec_find_tile(grid, tile_type) {
                            Some(q) => {
                                if row_major_before(q.row as int, q.col as int, p) {
                                    assert(grid[q.row as int][q.col as int] != tile_type);
                                    assert(false);
                                } else if p != q {
                                    assert(row_major_before(row as int, col as int, q));
                                    assert(grid[row as int][col as int] != tile_type);
                                    assert(false);
                                }
                            },
                            None => {
                                assert(grid[row as int][col as int] == tile_type);
                                assert(false);
                            },
                        }
                    }
                    return Some(p);
                }
                col = col + 1;
            }
            row = row + 1;
        }
        proof {
            match spec_find_tile(grid, tile_type) {
                Some(q) => {
                    assert(grid[q.row as int][q.col as int] != tile_type);
                    assert(false);
                },
                None => {},
            }
        }
        None
    }

    /// Whether any cell holds one of the given tiles.
    #[verifier::loop_isolation(false)]
    fn has_any_tile(&self, tile_types: &[TileType]) -> (r: bool)
        requires
            self.wf(),
        ensures
            r == exists|k: int|
                0 <= k < tile_types@.len() && grid_has_tile(
                    self.level@.grid,
                    #[trigger] tile_types@[k],
                ),
    {
        let ghost grid = self.level@.grid;
        let n = tile_types.len();
        let mut k: usize = 0;
        while k < n
            invariant
                k <= n,
                n == tile_types@.len(),
                forall|kk: int|
                    0 <= kk < k ==> !grid_has_tile(grid, #[trigger] tile_types@[kk]),
            decreases n - k,
        {
            proof {
                lemma_find_tile_props(grid, tile_types@[k as int]);
            }
            if self.find_tile(tile_types[k]).is_some() {
                proof {
                    let p = spec_find_tile(grid, tile_types@[k as int])->Some_0;
                    assert(grid[p.row as int][p.col as int] == tile_types@[k as int]);
                }
                return true;
            }
            proof {
                assert(!grid_has_tile(grid, tile_types@[k as int]));
            }
            k = k + 1;
        }
        false
    }

    fn handle_item_pickup(&mut self, player: &mut Player, pos: &Position, item_type: ItemType)
        requires
            old(self).wf(),
            old(self).level@.in_bounds(*pos),
            old(player).pending_move == Some(*pos),
        ensures
            final(self).wf(),
            pickup_effect(*old(self), *old(player), *final(self), *final(player), *pos, item_type),
    {
        player.add_item(item_type);
        self.level.set_tile(pos, TileType::Empty);
        player.commit_move();
    }

    fn handle_wood_log(&mut self, player: &mut Player, pos: &Position)
        requires
            old(self).wf(),
            old(self).level@.in_bounds(*pos),
            old(player).pending_move == Some(*pos),
        ensures
            final(self).wf(),
            wood_log_effect(*old(self), *old(player), *final(self), *final(player), *pos),
    {
        if player.has_item(ItemType::Axe) {
            assert(pos.col < i16::MAX);
            let water_pos = Position { row: pos.row, col: pos.col + 1 };
            let is_water_to_right = match self.level.get_tile(&water_pos) {
                Some(t) => t == TileType::Water,
                None => false,
            };
            if is_water_to_right {
                self.level.set_tile(&water_pos, TileType::Canoe);
                self.level.set_tile(pos, TileType::Empty);
                player.remove_item(ItemType::Axe);
                player.cancel_move();
            } else {
                self.level.set_tile(pos, TileType::Empty);
                player.remove_item(ItemType::Axe);
                player.commit_move();
            }
        } else {
            player.cancel_move();
        }
    }

    fn handle_door(&mut self, player: &mut Player, pos: &Position)
        requires
            old(self).wf(),
            old(self).level@.in_bounds(*pos),
            old(player).pending_move == Some(*pos),
        ensures
            final(self).wf(),
            door_effect(*old(self), *old(player), *final(self), *final(player), *pos),
    {
        if player.has_item(ItemType::Key) {
            self.level.set_tile(pos, TileType::DoorOpen);
            player.remove_item(ItemType::Key);
            player.cancel_move();
        } else {
            player.cancel_move();
        }
    }

    fn handle_cottage(&mut self, player: &mut Player, pos: &Position)
        requires
            old(self).wf(),
            old(self).level@.in_bounds(*pos),
            old(player).pending_move == Some(*pos),
        ensures
            final(self).wf(),
            cottage_effect(*old(self), *old(player), *final(self), *final(player), *pos),
    {
        self.level.set_tile(pos, TileType::Tomb);
        player.add_item(ItemType::Bomb);
        player.cancel_move();
    }

    fn handle_rock(&mut self, player: &mut Player, pos: &Position)
        requires
            old(self).wf(),
            old(self).level@.in_bounds(*pos),
            old(player).pending_move == Some(*pos),
        ensures
            final(self).wf(),
            rock_effect(*old(self), *old(player), *final(self), *final(player), *pos),
    {
        if player.has_item(ItemType::Bomb) {
            self.level.set_tile(pos, TileType::Empty);
            player.remove_item(ItemType::Bomb);
            player.cancel_move();
        } else {
            player.cancel_move();
        }
    }

    /// Remove every enemy standing at `pos` from the enemy list.
    #[verifier::loop_isolation(false)]
    pub fn remove_enemy(&mut self, pos: &Position)
        requires
            old(self).wf(),
        ensures
            final(self).wf(),
            Game::same_meta(*old(self), *final(self)),
            final(self).level@ == old(self).level@.with_enemies(
                spec_remove_enemies(old(self).level@.enemies, *pos),
            ),
    {
        let ghost enemies0 = self.level.enemies@;
        let ghost pred = not_at(*pos);
        let n = self.level.enemies.len();
        let mut kept: Vec<Position> = Vec::new();
        let mut i: usize = 0;
        proof {
            assert(enemies0.take(0) =~= Seq::<Position>::empty());
            assert(kept@ =~= enemies0.take(0).filter(pred));
        }
        while i < n
            invariant
                i <= n,
                n == self.level.enemies@.len(),
                self.level.enemies@ == enemies0,
                kept@ == enemies0.take(i as int).filter(pred),
                forall|k: int|
                    0 <= k < kept@.len() ==> old(self).level@.in_bounds(#[trigger] kept@[k]),
            decreases n - i,
        {
            let e = self.level.enemies[i];
            proof {
                assert(enemies0.take(i as int + 1) =~= enemies0.take(i as int) + seq![e]);
                assert(seq![e].drop_last() =~= Seq::<Position>::empty());
                assert(Seq::<Position>::empty().filter(pred) =~= Seq::<Position>::empty());
                assert(seq![e].last() == e);
                assert(seq![e].filter(pred) == (if pred(e) {
                    seq![e]
                } else {
                    Seq::<Position>::empty()
                })) by {
                    reveal_with_fuel(Seq::filter, 2);
                }
                Seq::<Position>::filter_distributes_over_add(
                    enemies0.take(i as int),
                    seq![e],
                    pred,
                );
            }
            if !(e == *pos) {
                kept.push(e);
                proof {
                    assert(e == old(self).level@.enemies[i as int]);
                    assert(old(self).level@.in_bounds(e));
                    assert(kept@ =~= enemies0.take(i as int + 1).filter(pred));
                }
            } else {
                proof {
                    assert(kept@ =~= enemies0.take(i as int + 1).filter(pred));
                }
            }
            i = i + 1;
        }
        proof {
            assert(enemies0.take(n as int) =~= enemies0);
        }
        self.level.enemies = kept;
        proof {
            broadcast use vstd::seq_lib::group_filter_ensures;

            assert(final(self).level@ =~~= old(self).level@.with_enemies(enemies0.filter(pred)));
        }
    }

    #[verifier::loop_isolation(false)]
    fn handle_hook_start(&mut self, player: &mut Player, pos: &Position)
        requires
            old(self).wf(),
            old(self).level@.in_bounds(*pos),
            old(player).pending_move == Some(*pos),
        ensures
            final(self).wf(),
            hook_effect(*old(self), *old(player), *final(self), *final(player), *pos),
    {
        if player.has_item(ItemType::Hook) {
            let ghost g0 = old(self).level@;
            proof {
                lemma_find_tile_props(g0.grid, TileType::HookEnd);
            }
            let hook_end = self.find_tile(TileType::HookEnd);
            if let Some(end_pos) = hook_end {
                self.level.set_tile(pos, TileType::Link);
                if pos.row == end_pos.row {
                    let start_col = if pos.col <= end_pos.col {
                        pos.col
                    } else {
                        end_pos.col
                    };
                    let end_col = if pos.col <= end_pos.col {
                        end_pos.col
                    } else {
                        pos.col
                    };
                    proof {
                        assert(self.level@ =~~= g0.with_grid(
                            g0.grid.update(
                                pos.row as int,
                                Seq::new(
                                    g0.grid[pos.row as int].len(),
                                    |j: int|
                                        if (start_col <= j < start_col) || j == pos.col {
                                            TileType::Link
                                        } else {
                                            g0.grid[pos.row as int][j]
                                        },
                                ),
                            ),
                        ));
                    }
                    let mut col: i16 = start_col;
                    while col <= end_col
                        invariant
                            start_col <= col <= end_col + 1,
                            Game::same_meta(*old(self), *self),
                            self.level@.wf(),
                            self.level@ == g0.with_grid(
                                g0.grid.update(
                                    pos.row as int,
                                    Seq::new(
                                        g0.grid[pos.row as int].len(),
                                        |j: int|
                                            if (start_col <= j < col) || j == pos.col {
                                                TileType::Link
                                            } else {
                                                g0.grid[pos.row as int][j]
                                            },
                                    ),
                                ),
                            ),
                        decreases end_col + 1 - col,
                    {
                        let current = Position { row: pos.row, col };
                        self.level.set_tile(&current, TileType::Link);
                        proof {
                            assert(self.level@ =~~= g0.with_grid(
                                g0.grid.update(
                                    pos.row as int,
                                    Seq::new(
                                        g0.grid[pos.row as int].len(),
                                        |j: int|
                                            if (start_col <= j < col + 1) || j == pos.col {
                                                TileType::Link
                                            } else {
                                                g0.grid[pos.row as int][j]
                                            },
                                    ),
                                ),
                            ));
                        }
                        col = col + 1;
                    }
                    proof {
                        assert(self.level@ =~~= g0.with_grid(
                            hook_converted_grid(g0.grid, *pos, end_pos),
                        ));
                    }
                } else if pos.col == end_pos.col {
                    let start_row = if pos.row <= end_pos.row {
                        pos.row
                    } else {
                        end_pos.row
                    };
                    let end_row = if pos.row <= end_pos.row {
                        end_pos.row
                    } else {
                        pos.row
                    };
                    proof {
                        assert(self.level@ =~~= g0.with_grid(
                            Seq::new(
                                g0.grid.len(),
                                |i: int|
                                    if (start_row <= i < start_row) || i == pos.row {
                                        g0.grid[i].update(pos.col as int, TileType::Link)
                                    } else {
                                        g0.grid[i]
                                    },
                            ),
                        ));
                    }
                    let mut row: i16 = start_row;
                    while row <= end_row
                        invariant
                            start_row <= row <= end_row + 1,
                            Game::same_meta(*old(self), *self),
                            self.level@.wf(),
                            self.level@ == g0.with_grid(
                                Seq::new(
                                    g0.grid.len(),
                                    |i: int|
                                        if (start_row <= i < row) || i == pos.row {
                                            g0.grid[i].update(pos.col as int, TileType::Link)
                                        } else {
                                            g0.grid[i]
                                        },
                                ),
                            ),
                        decreases end_row + 1 - row,
                    {
                        let current = Position { row, col: pos.col };
                        self.level.set_tile(&current, TileType::Link);
                        proof {
                            assert(self.level@ =~~= g0.with_grid(
                                Seq::new(
                                    g0.grid.len(),
                                    |i: int|
                                        if (start_row <= i < row + 1) || i == pos.row {
                                            g0.grid[i].update(pos.col as int, TileType::Link)
                                        } else {
                                            g0.grid[i]
                                        },
                                ),
                            ));
                        }
                        row = row + 1;
                    }
                    proof {
                        assert(self.level@ =~~= g0.with_grid(
                            hook_converted_grid(g0.grid, *pos, end_pos),
                        ));
                    }
                } else {
                    proof {
                        assert(self.level@ =~~= g0.with_grid(
                            hook_converted_grid(g0.grid, *pos, end_pos),
                        ));
                    }
                }
            }
            player.remove_item(ItemType::Hook);
            player.cancel_move();
        } else {
            player.cancel_move();
        }
    }

    fn handle_crystal(&mut self, player: &mut Player, pos: &Position)
        requires
            old(self).wf(),
            old(self).level@.in_bounds(*pos),
            old(player).pending_move == Some(*pos),
            old(self).level@.tile_at(*pos) == TileType::CrystalA || old(self).level@.tile_at(*pos)
                == TileType::CrystalB || old(self).level@.tile_at(*pos) == TileType::CrystalC,
        ensures
            final(self).wf(),
            crystal_effect(*old(self), *old(player), *final(self), *final(player), *pos),
    {
        proof {
            assert(self.level@.grid[pos.row as int] == self.level.map@[pos.row as int]@);
            lemma_find_tile_props(
                self.level@.grid,
                flame_of(old(self).level@.tile_at(*pos)),
            );
        }
        let crystal_type = self.level.map[pos.row as usize][pos.col as usize];
        let flame_type = if crystal_type == TileType::CrystalA {
            TileType::FlameA
        } else if crystal_type == TileType::CrystalB {
            TileType::FlameB
        } else {
            TileType::FlameC
        };
        if let Some(flame_pos) = self.find_tile(flame_type) {
            self.level.set_tile(&flame_pos, TileType::Empty);
        }
        self.level.set_tile(pos, TileType::Alembic);
        let flame_types = [TileType::FlameA, TileType::FlameB, TileType::FlameC];
        let all_flames_removed = !self.has_any_tile(&flame_types);
        proof {
            assert(flame_types@[0] == TileType::FlameA);
            assert(flame_types@[1] == TileType::FlameB);
            assert(flame_types@[2] == TileType::FlameC);
            assert(all_flames_removed == no_flames(self.level@.grid));
        }
        if all_flames_removed {
            player.add_item(ItemType::WindChime);
        }
        player.cancel_move();
    }

    fn handle_enemy(&mut self, player: &mut Player, pos: &Position) -> (died: bool)
        requires
            old(self).wf(),
            old(player).pending_move == Some(*pos),
        ensures
            final(self).wf(),
            enemy_effect(*old(self), *old(player), *final(self), *final(player), *pos, died),
    {
        if player.has_item(ItemType::Sword) {
            self.remove_enemy(pos);
            player.remove_item(ItemType::Sword);
            player.commit_move();
            false
        } else {
            let start = self.get_player_start();
            player.reset_position(start);
            true
        }
    }

    fn handle_oni(&mut self, player: &mut Player, pos: &Position) -> (died: bool)
        requires
            old(self).wf(),
            old(self).level@.in_bounds(*pos),
            old(player).pending_move == Some(*pos),
        ensures
            final(self).wf(),
            oni_effect(*old(self), *old(player), *final(self), *final(player), *pos, died),
    {
        if player.has_item(ItemType::WindChime) {
            self.level.set_tile(pos, TileType::Empty);
            player.remove_item(ItemType::WindChime);
            player.add_item(ItemType::DragonSword);
            player.commit_move();
            false
        } else {
            let start = self.get_player_start();
            player.reset_position(start);
            true
        }
    }

    fn handle_boss(&mut self, player: &mut Player, pos: &Position) -> (died: bool)
        requires
            old(self).wf(),
            old(self).level@.in_bounds(*pos),
            old(player).pending_move == Some(*pos),
        ensures
            final(self).wf(),
            boss_effect(*old(self), *old(player), *final(self), *final(player), *pos, died),
    {
        if player.has_item(ItemType::DragonSword) {
            if self.boss_health > 0 {
                self.boss_health = self.boss_health - 1;
                if self.boss_health == 0 {
                    self.level.set_tile(pos, TileType::Empty);
                    player.commit_move();
                    return false;
                }
            }
            let start = self.get_player_start();
            player.reset_position(start);
            false
        } else {
            let start = self.get_player_start();
            player.reset_position(start);
            true
        }
    }

    /// Resolve the player's pending move against an interactive cell,
    /// applying the rule of the cell's kind. With no pending move, or with a
    /// pending move whose classification is not interactive, nothing
    /// changes. Yields whether the player died: an enemy, oni or boss
    /// encounter without the required item.
    pub fn handle_interaction(&mut self, player: &mut Player) -> (died: bool)
        requires
            old(self).wf(),
        ensures
            final(self).wf(),
            (match old(player).pending_move {
                Some(pos) => match spec_classify(old(self).level@, pos) {
                    CollisionType::Interactive(it) => match it {
                        InteractiveType::Item(item) => !died && pickup_effect(
                            *old(self),
                            *old(player),
                            *final(self),
                            *final(player),
                            pos,
                            item,
                        ),
                        InteractiveType::WoodLog => !died && wood_log_effect(
                            *old(self),
                            *old(player),
                            *final(self),
                            *final(player),
                            pos,
                        ),
                        InteractiveType::Door => !died && door_effect(
                            *old(self),
                            *old(player),
                            *final(self),
                            *final(player),
                            pos,
                        ),
                        InteractiveType::Cottage => !died && cottage_effect(
                            *old(self),
                            *old(player),
                            *final(self),
                            *final(player),
                            pos,
                        ),
                        InteractiveType::Rock => !died && rock_effect(
                            *old(self),
                            *old(player),
                            *final(self),
                            *final(player),
                            pos,
                        ),
                        InteractiveType::HookStart => !died && hook_effect(
                            *old(self),
                            *old(player),
                            *final(self),
                            *final(player),
                            pos,
                        ),
                        InteractiveType::CrystalA => !died && crystal_effect(
                            *old(self),
                            *old(player),
                            *final(self),
                            *final(player),
                            pos,
                        ),
                        InteractiveType::CrystalB => !died && crystal_effect(
                            *old(self),
                            *old(player),
                            *final(self),
                            *final(player),
                            pos,
                        ),
                        InteractiveType::CrystalC => !died && crystal_effect(
                            *old(self),
                            *old(player),
                            *final(self),
                            *final(player),
                            pos,
                        ),
                        InteractiveType::Enemy => enemy_effect(
                            *old(self),
                            *old(player),
                            *final(self),
                            *final(player),
                            pos,
                            died,
                        ),
                        InteractiveType::Oni => oni_effect(
                            *old(self),
                            *old(player),
                            *final(self),
                            *final(player),
                            pos,
                            died,
                        ),
                        InteractiveType::Boss => boss_effect(
                            *old(self),
                            *old(player),
                            *final(self),
                            *final(player),
                            pos,
                            died,
                        ),
                    },
                    _ => !died && *final(self) == *old(self) && *final(player) == *old(player),
                },
                None => !died && *final(self) == *old(self) && *final(player) == *old(player),
            }),
    {
        let pending = player.get_pending_move();
        if let Some(new_pos) = pending {
            let outcome = self.check_collision(&new_pos);
            if let CollisionType::Interactive(interactive_type) = outcome {
                proof {
                    assert(old(self).level@.in_bounds(new_pos));
                }
                match interactive_type {
                    InteractiveType::Item(item_type) => {
                        self.handle_item_pickup(player, &new_pos, item_type);
                        false
                    },
                    InteractiveType::WoodLog => {
                        self.handle_wood_log(player, &new_pos);
                        false
                    },
                    InteractiveType::Door => {
                        self.handle_door(player, &new_pos);
                        false
                    },
                    InteractiveType::Cottage => {
                        self.handle_cottage(player, &new_pos);
                        false
                    },
                    InteractiveType::Rock => {
                        self.handle_rock(player, &new_pos);
                        false
                    },
                    InteractiveType::HookStart => {
                        self.handle_hook_start(player, &new_pos);
                        false
                    },
                    InteractiveType::CrystalA => {
                        proof {
                            assert(old(self).level@.tile_at(new_pos) == TileType::CrystalA);
                        }
                        self.handle_crystal(player, &new_pos);
                        false
                    },
                    InteractiveType::CrystalB => {
                        proof {
                            assert(old(self).level@.tile_at(new_pos) == TileType::CrystalB);
                        }
                        self.handle_crystal(player, &new_pos);
                        false
                    },
                    InteractiveType::CrystalC => {
                        proof {
                            assert(old(self).level@.tile_at(new_pos) == TileType::CrystalC);
                        }
                        self.handle_crystal(player, &new_pos);
                        false
                    },
                    InteractiveType::Enemy => self.handle_enemy(player, &new_pos),
                    InteractiveType::Oni => self.handle_oni(player, &new_pos),
                    InteractiveType::Boss => self.handle_boss(player, &new_pos),
                }
            } else {
                false
            }
        } else {
            false
        }
    }

    /// One enemy tick from injected choices: for each enemy, a coin and a
    /// direction. Every enemy's move is validated against the tile and
    /// bounds state with the enemy list detached, exactly one choice pair
    /// per enemy.
    #[verifier::loop_isolation(false)]
    pub fn tick_enemies(&mut self, moves: &Vec<(bool, u32)>)
        requires
            old(self).wf(),
            moves@.len() == old(self).level.enemies@.len(),
        ensures
            final(self).wf(),
            Game::same_meta(*old(self), *final(self)),
            final(self).level@.grid == old(self).level@.grid,
            final(self).level@.spawn == old(self).level@.spawn,
            final(self).level@.rows == old(self).level@.rows,
            final(self).level@.cols == old(self).level@.cols,
            final(self).level@.enemies.len() == old(self).level@.enemies.len(),
            forall|j: int|
                0 <= j < old(self).level@.enemies.len() ==> final(self).level@.enemies[j]
                    == enemy_step(
                    old(self).level@,
                    old(self).level@.enemies[j],
                    moves@[j].0,
                    moves@[j].1,
                ),
    {
        let ghost lv0 = old(self).level@;
        let mut enemies: Vec<Position> = Vec::new();
        std::mem::swap(&mut enemies, &mut self.level.enemies);
        let ghost enemies0 = enemies@;
        proof {
            assert(self.level@ =~~= lv0.with_enemies(Seq::<Position>::empty()));
        }
        let n = enemies.len();
        let mut i: usize = 0;
        while i < n
            invariant
                i <= n,
                n == enemies@.len(),
                n == enemies0.len(),
                Game::same_meta(*old(self), *self),
                self.level@ == lv0.with_enemies(Seq::<Position>::empty()),
                forall|j: int| i <= j < n ==> enemies@[j] == enemies0[j],
                forall|j: int|
                    0 <= j < i ==> enemies@[j] == enemy_step(
                        lv0,
                        enemies0[j],
                        moves@[j].0,
                        moves@[j].1,
                    ),
            decreases n - i,
        {
            let (do_move, dir) = moves[i];
            if do_move {
                let e = enemies[i];
                proof {
                    assert(e == enemies0[i as int]);
                    assert(lv0.in_bounds(e));
                }
                let new_pos = if dir == 0 {
                    Position { row: e.row, col: e.col + 1 }
                } else if dir == 1 {
                    Position { row: e.row, col: e.col - 1 }
                } else if dir == 2 {
                    Position { row: e.row + 1, col: e.col }
                } else {
                    Position { row: e.row - 1, col: e.col }
                };
                proof {
                    assert(new_pos == step_target(e, dir));
                }
                if self.check_collision(&new_pos) == CollisionType::NoCollision {
                    enemies[i] = new_pos;
                }
            }
            i = i + 1;
        }
        std::mem::swap(&mut enemies, &mut self.level.enemies);
        proof {
            assert(final(self).level@ =~~= lv0.with_enemies(final(self).level@.enemies));
            assert forall|j: int|
                0 <= j < final(self).level@.enemies.len() implies lv0.in_bounds(
                #[trigger] final(self).level@.enemies[j],
            ) by {
                let stepped = enemy_step(lv0, enemies0[j], moves@[j].0, moves@[j].1);
                if stepped != enemies0[j] {
                    assert(spec_classify_with(lv0, Seq::empty(), stepped)
                        == CollisionType::NoCollision);
                }
            }
        }
    }

    /// One enemy tick with drawn randomness: with 80% probability each enemy
    /// attempts a single-cell move in one of the four orthogonal directions,
    /// chosen uniformly; rejected attempts leave it stationary. Whatever was
    /// drawn, every enemy either stays or makes one step onto a free cell.
    #[verifier::loop_isolation(false)]
    pub fn update_enemies(&mut self)
        requires
            old(self).wf(),
        ensures
            final(self).wf(),
            Game::same_meta(*old(self), *final(self)),
            final(self).level@.grid == old(self).level@.grid,
            final(self).level@.spawn == old(self).level@.spawn,
            final(self).level@.rows == old(self).level@.rows,
            final(self).level@.cols == old(self).level@.cols,
            final(self).level@.enemies.len() == old(self).level@.enemies.len(),
            forall|j: int|
                #![trigger old(self).level@.enemies[j]]
                0 <= j < old(self).level@.enemies.len() ==> {
                    ||| final(self).level@.enemies[j] == old(self).level@.enemies[j]
                    ||| (one_step_away(old(self).level@.enemies[j], final(self).level@.enemies[j])
                        && spec_classify_with(
                        old(self).level@,
                        Seq::empty(),
                        final(self).level@.enemies[j],
                    ) == CollisionType::NoCollision)
                },
    {
        let mut rng = crate::rng::new_rng();
        let n = self.level.enemies.len();
        let mut moves: Vec<(bool, u32)> = Vec::new();
        let mut i: usize = 0;
        while i < n
            invariant
                i <= n,
                moves@.len() == i,
                *self == *old(self),
                n == self.level.enemies@.len(),
            decreases n - i,
        {
            if crate::rng::rng_ratio(&mut rng, 4, 5) {
                let d = crate::rng::rng_below(&mut rng, 4);
                moves.push((true, d));
            } else {
                moves.push((false, 0));
            }
            i = i + 1;
        }
        self.tick_enemies(&moves);
        proof {
            assert forall|j: int|
                #![trigger old(self).level@.enemies[j]]
                0 <= j < old(self).level@.enemies.len() implies {
                ||| self.level@.enemies[j] == old(self).level@.enemies[j]
                ||| (one_step_away(old(self).level@.enemies[j], self.level@.enemies[j])
                    && spec_classify_with(old(self).level@, Seq::empty(), self.level@.enemies[j])
                    == CollisionType::NoCollision)
            } by {
                let b0 = moves@[j].0;
                let d0 = moves@[j].1;
                assert(self.level@.enemies[j] == enemy_step(
                    old(self).level@,
                    old(self).level@.enemies[j],
                    b0,
                    d0,
                ));
            }
        }
    }

    /// Advance to the next level. The level counter increments on every
    /// call; with the new counter within range and its level decodable, the
    /// map is replaced wholesale and `true` comes back. `false` means no
    /// further level (out of range, or a level that failed to decode,
    /// collapsed together); the current map is then left unchanged.
    pub fn advance_level(&mut self) -> (r: bool)
        requires
            old(self).wf(),
            old(self).current_level < usize::MAX,
        ensures
            final(self).wf(),
            final(self).current_level == old(self).current_level + 1,
            final(self).max_levels == old(self).max_levels,
            final(self).boss_health == old(self).boss_health,
            r <==> (old(self).current_level + 1 <= old(self).max_levels && spec_load(
                old(self).current_level as int + 1,
            ) is Some),
            r ==> spec_load(old(self).current_level as int + 1) == Some(final(self).level@),
            !r ==> final(self).level == old(self).level,
    {
        self.current_level = self.current_level + 1;
        if self.current_level <= self.max_levels {
            match Level::load(self.current_level) {
                Some(new_level) => {
                    self.level = new_level;
                    true
                },
                None => false,
            }
        } else {
            false
        }
    }
}

} // verus!
