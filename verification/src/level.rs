//! The level: a rectangular grid of tiles, the enemy positions, and the
//! player spawn point, decoded from a line-oriented textual layout with one
//! character per cell.
//!
//! The abstract model of a level is [`LevelView`]: the grid as a sequence of
//! rows, the enemy list, the spawn point, and the stored dimensions. A
//! well-formed level is rectangular, at most 255 by 255, and keeps its spawn
//! point and every enemy inside the grid.

use vstd::prelude::*;

use crate::types::Position;
use crate::types::TileType;

verus! {

// The bytes of the layout format, by their ASCII codes.
pub const CH_WALL: u8 = 116; // 't'
pub const CH_BAMBOO: u8 = 98; // 'b'
pub const CH_MOUNTAIN: u8 = 109; // 'm'
pub const CH_VOLCANO: u8 = 118; // 'v'
pub const CH_SNOW_MOUNTAIN: u8 = 110; // 'n'
pub const CH_COTTAGE: u8 = 104; // 'h'
pub const CH_WATER: u8 = 119; // 'w'
pub const CH_LAVA: u8 = 122; // 'z'
pub const CH_AXE: u8 = 97; // 'a'
pub const CH_WOOD_LOG: u8 = 108; // 'l'
pub const CH_CANOE: u8 = 99; // 'c'
pub const CH_SWORD: u8 = 43; // '+'
pub const CH_KEY: u8 = 107; // 'k'
pub const CH_DOOR: u8 = 100; // 'd'
pub const CH_DOOR_OPEN: u8 = 68; // 'D'
pub const CH_ROCK: u8 = 114; // 'r'
pub const CH_BOMB: u8 = 64; // '@'
pub const CH_HOOK: u8 = 106; // 'j'
pub const CH_HOOK_START: u8 = 49; // '1'
pub const CH_HOOK_END: u8 = 50; // '2'
pub const CH_LINK: u8 = 45; // '-'
pub const CH_CRYSTAL_A: u8 = 65; // 'A'
pub const CH_CRYSTAL_B: u8 = 66; // 'B'
pub const CH_CRYSTAL_C: u8 = 67; // 'C'
pub const CH_FLAME_A: u8 = 51; // '3'
pub const CH_FLAME_B: u8 = 52; // '4'
pub const CH_FLAME_C: u8 = 53; // '5'
pub const CH_WIND_CHIME: u8 = 105; // 'i'
pub const CH_DRAGON_SWORD: u8 = 120; // 'x'
pub const CH_LANTERN: u8 = 79; // 'O'
pub const CH_ONI: u8 = 111; // 'o'
pub const CH_BOSS: u8 = 48; // '0'
pub const CH_PRINCESS: u8 = 36; // '$'
pub const CH_GOAL: u8 = 103; // 'g'
pub const CH_SPAWN_MARKER: u8 = 112; // 'p'
pub const CH_ENEMY_MARKER: u8 = 101; // 'e'
pub const CH_NEWLINE: u8 = 10; // '\n'
pub const CH_CARRIAGE_RETURN: u8 = 13; // '\r'

/// The fixed character table of the layout format. The spawn marker `p` and
/// the enemy marker `e` are positional markers, not tiles: their cells decode
/// to `Empty` and the position is recorded separately. Unrecognized bytes
/// (among them `s`, the explicit empty cell) decode to `Empty` as a
/// deliberate leniency.
pub open spec fn tile_of_byte(b: u8) -> TileType {
    if b == CH_WALL {
        TileType::Wall
    } else if b == CH_BAMBOO {
        TileType::Bamboo
    } else if b == CH_MOUNTAIN {
        TileType::Mountain
    } else if b == CH_VOLCANO {
        TileType::Volcano
    } else if b == CH_SNOW_MOUNTAIN {
        TileType::SnowMountain
    } else if b == CH_COTTAGE {
        TileType::Cottage
    } else if b == CH_WATER {
        TileType::Water
    } else if b == CH_LAVA {
        TileType::Lava
    } else if b == CH_AXE {
        TileType::Axe
    } else if b == CH_WOOD_LOG {
        TileType::WoodLog
    } else if b == CH_CANOE {
        TileType::Canoe
    } else if b == CH_SWORD {
        TileType::Sword
    } else if b == CH_KEY {
        TileType::Key
    } else if b == CH_DOOR {
        TileType::Door
    } else if b == CH_DOOR_OPEN {
        TileType::DoorOpen
    } else if b == CH_ROCK {
        TileType::Rock
    } else if b == CH_BOMB {
        TileType::Bomb
    } else if b == CH_HOOK {
        TileType::Hook
    } else if b == CH_HOOK_START {
        TileType::HookStart
    } else if b == CH_HOOK_END {
        TileType::HookEnd
    } else if b == CH_LINK {
        TileType::Link
    } else if b == CH_CRYSTAL_A {
        TileType::CrystalA
    } else if b == CH_CRYSTAL_B {
        TileType::CrystalB
    } else if b == CH_CRYSTAL_C {
        TileType::CrystalC
    } else if b == CH_FLAME_A {
        TileType::FlameA
    } else if b == CH_FLAME_B {
        TileType::FlameB
    } else if b == CH_FLAME_C {
        TileType::FlameC
    } else if b == CH_WIND_CHIME {
        TileType::WindChime
    } else if b == CH_DRAGON_SWORD {
        TileType::DragonSword
    } else if b == CH_LANTERN {
        TileType::Lantern
    } else if b == CH_ONI {
        TileType::Oni
    } else if b == CH_BOSS {
        TileType::Boss
    } else if b == CH_PRINCESS {
        TileType::Princess
    } else if b == CH_GOAL {
        TileType::Goal
    } else {
        TileType::Empty
    }
}

/// Executable counterpart of [`tile_of_byte`].
pub fn byte_to_tile(b: u8) -> (t: TileType)
    ensures
        t == tile_of_byte(b),
{
    if b == CH_WALL {
        TileType::Wall
    } else if b == CH_BAMBOO {
        TileType::Bamboo
    } else if b == CH_MOUNTAIN {
        TileType::Mountain
    } else if b == CH_VOLCANO {
        TileType::Volcano
    } else if b == CH_SNOW_MOUNTAIN {
        TileType::SnowMountain
    } else if b == CH_COTTAGE {
        TileType::Cottage
    } else if b == CH_WATER {
        TileType::Water
    } else if b == CH_LAVA {
        TileType::Lava
    } else if b == CH_AXE {
        TileType::Axe
    } else if b == CH_WOOD_LOG {
        TileType::WoodLog
    } else if b == CH_CANOE {
        TileType::Canoe
    } else if b == CH_SWORD {
        TileType::Sword
    } else if b == CH_KEY {
        TileType::Key
    } else if b == CH_DOOR {
        TileType::Door
    } else if b == CH_DOOR_OPEN {
        TileType::DoorOpen
    } else if b == CH_ROCK {
        TileType::Rock
    } else if b == CH_BOMB {
        TileType::Bomb
    } else if b == CH_HOOK {
        TileType::Hook
    } else if b == CH_HOOK_START {
        TileType::HookStart
    } else if b == CH_HOOK_END {
        TileType::HookEnd
    } else if b == CH_LINK {
        TileType::Link
    } else if b == CH_CRYSTAL_A {
        TileType::CrystalA
    } else if b == CH_CRYSTAL_B {
        TileType::CrystalB
    } else if b == CH_CRYSTAL_C {
        TileType::CrystalC
    } else if b == CH_FLAME_A {
        TileType::FlameA
    } else if b == CH_FLAME_B {
        TileType::FlameB
    } else if b == CH_FLAME_C {
        TileType::FlameC
    } else if b == CH_WIND_CHIME {
        TileType::WindChime
    } else if b == CH_DRAGON_SWORD {
        TileType::DragonSword
    } else if b == CH_LANTERN {
        TileType::Lantern
    } else if b == CH_ONI {
        TileType::Oni
    } else if b == CH_BOSS {
        TileType::Boss
    } else if b == CH_PRINCESS {
        TileType::Princess
    } else if b == CH_GOAL {
        TileType::Goal
    } else {
        TileType::Empty
    }
}

/// Index of the first newline byte in `s`, or `s.len()` if there is none.
pub open spec fn newline_at(s: Seq<u8>) -> int
    decreases s.len(),
{
    if s.len() == 0 {
        0
    } else if s[0] == CH_NEWLINE {
        0
    } else {
        1 + newline_at(s.drop_first())
    }
}

pub proof fn lemma_newline_at(s: Seq<u8>)
    ensures
        0 <= newline_at(s) <= s.len(),
        newline_at(s) < s.len() ==> s[newline_at(s)] == CH_NEWLINE,
        forall|j: int| 0 <= j < newline_at(s) ==> s[j] != CH_NEWLINE,
    decreases s.len(),
{
    if s.len() > 0 && s[0] != CH_NEWLINE {
        lemma_newline_at(s.drop_first());
        assert forall|j: int| 0 <= j < newline_at(s) implies s[j] != CH_NEWLINE by {
            if j > 0 {
                assert(s.drop_first()[j - 1] == s[j]);
            }
        }
    }
}

/// A line with one trailing carriage return removed, as `str::lines` does.
pub open spec fn trim_carriage_return(line: Seq<u8>) -> Seq<u8> {
    if line.len() > 0 && line.last() == CH_CARRIAGE_RETURN {
        line.drop_last()
    } else {
        line
    }
}

/// The lines of `s`: maximal runs between newline bytes, each with one
/// trailing carriage return removed; a trailing newline ends the last line
/// rather than opening an empty one.
pub open spec fn spec_lines(s: Seq<u8>) -> Seq<Seq<u8>>
    decreases s.len(),
{
    if s.len() == 0 {
        Seq::empty()
    } else {
        let i = newline_at(s);
        if 0 <= i < s.len() {
            seq![trim_carriage_return(s.take(i))] + spec_lines(s.skip(i + 1))
        } else {
            seq![trim_carriage_return(s)]
        }
    }
}

/// The views of a vector of byte rows.
pub open spec fn row_views(rows: Seq<Vec<u8>>) -> Seq<Seq<u8>> {
    rows.map_values(|v: Vec<u8>| v@)
}

/// Remove one trailing carriage return, if present.
fn trim_cr_vec(line: &mut Vec<u8>)
    ensures
        final(line)@ == trim_carriage_return(old(line)@),
{
    let n = line.len();
    if n > 0 {
        if line[n - 1] == CH_CARRIAGE_RETURN {
            line.pop();
            assert(line@ =~= old(line)@.drop_last());
        }
    }
}

/// Split a byte text into its lines.
pub fn split_lines(text: &[u8]) -> (r: Vec<Vec<u8>>)
    ensures
        row_views(r@) == spec_lines(text@),
{
    let n = text.len();
    let mut out: Vec<Vec<u8>> = Vec::new();
    let mut cur: Vec<u8> = Vec::new();
    // Start of the line being accumulated.
    let mut ls: usize = 0;
    let mut i: usize = 0;
    proof {
        assert(cur@ =~= text@.subrange(0, 0));
        assert(text@.skip(0) =~= text@);
        assert(row_views(out@) + spec_lines(text@) =~= spec_lines(text@));
    }
    while i < n
        invariant
            ls <= i <= n,
            n == text@.len(),
            cur@ == text@.subrange(ls as int, i as int),
            forall|j: int| ls <= j < i ==> text@[j] != CH_NEWLINE,
            spec_lines(text@) == row_views(out@) + spec_lines(text@.skip(ls as int)),
        decreases n - i,
    {
        let b = text[i];
        if b == CH_NEWLINE {
            proof {
                let rest = text@.skip(ls as int);
                lemma_newline_at(rest);
                assert forall|j: int| 0 <= j < i - ls implies rest[j] != CH_NEWLINE by {
                    assert(rest[j] == text@[ls + j]);
                }
                assert(rest[i - ls] == CH_NEWLINE);
                // `newline_at(rest)` can be neither before nor after `i - ls`.
                assert(newline_at(rest) == i - ls);
                assert(rest.take(i - ls) =~= text@.subrange(ls as int, i as int));
                assert(rest.skip(i - ls + 1) =~= text@.skip(i as int + 1));
            }
            trim_cr_vec(&mut cur);
            out.push(cur);
            cur = Vec::new();
            proof {
                assert(row_views(out@) =~= row_views(out@.drop_last()) + seq![
                    out@.last()@,
                ]);
            }
            ls = i + 1;
        } else {
            cur.push(b);
            proof {
                assert(cur@ =~= text@.subrange(ls as int, i as int + 1));
            }
        }
        i = i + 1;
    }
    if ls < n {
        proof {
            let rest = text@.skip(ls as int);
            lemma_newline_at(rest);
            if newline_at(rest) < rest.len() {
                assert(rest[newline_at(rest)] == text@[ls + newline_at(rest)]);
                assert(false);
            }
            assert(rest =~= text@.subrange(ls as int, n as int));
        }
        trim_cr_vec(&mut cur);
        out.push(cur);
        proof {
            assert(row_views(out@) =~= row_views(out@.drop_last()) + seq![out@.last()@]);
            assert(row_views(out@) =~= spec_lines(text@));
        }
    } else {
        proof {
            assert(text@.skip(ls as int).len() == 0);
            assert(row_views(out@) =~= spec_lines(text@));
        }
    }
    out
}

/// A decodable layout: at least one row, rows and columns at most 255, and
/// every row of the same length as the first.
pub open spec fn layout_ok(rows: Seq<Seq<u8>>) -> bool {
    &&& 1 <= rows.len() <= u8::MAX as int
    &&& 1 <= rows[0].len() <= u8::MAX as int
    &&& forall|i: int| 0 <= i < rows.len() ==> (#[trigger] rows[i]).len() == rows[0].len()
}

/// The decoded grid: each byte through the character table.
pub open spec fn spec_grid(rows: Seq<Seq<u8>>) -> Seq<Seq<TileType>> {
    Seq::new(rows.len(), |i: int| Seq::new(rows[0].len(), |j: int| tile_of_byte(rows[i][j])))
}

/// Positions of the enemy markers of one row, leftmost first.
pub open spec fn row_enemies(line: Seq<u8>, r: int) -> Seq<Position>
    decreases line.len(),
{
    if line.len() == 0 {
        Seq::empty()
    } else {
        row_enemies(line.drop_last(), r) + (if line.last() == CH_ENEMY_MARKER {
            seq![Position { row: r as i16, col: (line.len() - 1) as i16 }]
        } else {
            Seq::empty()
        })
    }
}

/// Positions of all enemy markers, in row-major order; duplicates permitted.
pub open spec fn spec_enemies(rows: Seq<Seq<u8>>) -> Seq<Position>
    decreases rows.len(),
{
    if rows.len() == 0 {
        Seq::empty()
    } else {
        spec_enemies(rows.drop_last()) + row_enemies(rows.last(), rows.len() - 1)
    }
}

/// Column of the last spawn marker in one row, if any.
pub open spec fn last_spawn_in_row(line: Seq<u8>) -> Option<int>
    decreases line.len(),
{
    if line.len() == 0 {
        None
    } else if line.last() == CH_SPAWN_MARKER {
        Some(line.len() - 1)
    } else {
        last_spawn_in_row(line.drop_last())
    }
}

/// The last spawn marker in row-major order, if any.
pub open spec fn spec_spawn_opt(rows: Seq<Seq<u8>>) -> Option<Position>
    decreases rows.len(),
{
    if rows.len() == 0 {
        None
    } else {
        match last_spawn_in_row(rows.last()) {
            Some(c) => Some(Position { row: (rows.len() - 1) as i16, col: c as i16 }),
            None => spec_spawn_opt(rows.drop_last()),
        }
    }
}

/// The decoded spawn point: the last spawn marker wins; a layout without one
/// spawns at the origin.
pub open spec fn spec_spawn(rows: Seq<Seq<u8>>) -> Position {
    match spec_spawn_opt(rows) {
        Some(p) => p,
        None => Position { row: 0 as i16, col: 0 as i16 },
    }
}

/// What decoding a split layout yields: nothing for a malformed layout, and
/// otherwise the grid, enemy list, spawn point and dimensions.
pub open spec fn spec_decode(rows: Seq<Seq<u8>>) -> Option<LevelView> {
    if layout_ok(rows) {
        Some(
            LevelView {
                grid: spec_grid(rows),
                enemies: spec_enemies(rows),
                spawn: spec_spawn(rows),
                rows: rows.len() as int,
                cols: rows[0].len() as int,
            },
        )
    } else {
        None
    }
}

proof fn lemma_last_spawn_in_row_bounds(line: Seq<u8>)
    ensures
        match last_spawn_in_row(line) {
            Some(c) => 0 <= c < line.len(),
            None => true,
        },
    decreases line.len(),
{
    if line.len() > 0 && line.last() != CH_SPAWN_MARKER {
        lemma_last_spawn_in_row_bounds(line.drop_last());
    }
}

proof fn lemma_spawn_opt_bounds(rows: Seq<Seq<u8>>)
    requires
        layout_ok(rows),
    ensures
        match spec_spawn_opt(rows) {
            Some(p) => 0 <= p.row < rows.len() && 0 <= p.col < rows[0].len(),
            None => true,
        },
    decreases rows.len(),
{
    let last = rows.last();
    assert(last.len() == rows[0].len());
    match last_spawn_in_row(last) {
        Some(c) => {
            lemma_last_spawn_in_row_bounds(last);
        },
        None => {
            if rows.len() > 1 {
                assert(rows.drop_last()[0] == rows[0]);
                assert(forall|i: int|
                    0 <= i < rows.drop_last().len() ==> (#[trigger] rows.drop_last()[i])
                        == rows[i]);
                lemma_spawn_opt_bounds(rows.drop_last());
            }
        },
    }
}

proof fn lemma_row_enemies_bounds(line: Seq<u8>, r: int)
    requires
        0 <= r < u8::MAX as int,
        line.len() <= u8::MAX as int,
    ensures
        forall|k: int|
            0 <= k < row_enemies(line, r).len() ==> (#[trigger] row_enemies(line, r)[k]).row == r
                && 0 <= row_enemies(line, r)[k].col < line.len(),
    decreases line.len(),
{
    if line.len() > 0 {
        lemma_row_enemies_bounds(line.drop_last(), r);
        let left = row_enemies(line.drop_last(), r);
        assert forall|k: int|
            0 <= k < row_enemies(line, r).len() implies (#[trigger] row_enemies(line, r)[k]).row
            == r && 0 <= row_enemies(line, r)[k].col < line.len() by {
            if k < left.len() {
                assert(row_enemies(line, r)[k] == left[k]);
            } else {
                assert(line.last() == CH_ENEMY_MARKER);
                assert(row_enemies(line, r)[k] == Position {
                    row: r as i16,
                    col: (line.len() - 1) as i16,
                });
            }
        }
    }
}

proof fn lemma_enemies_bounds(rows: Seq<Seq<u8>>)
    requires
        layout_ok(rows),
    ensures
        forall|k: int|
            0 <= k < spec_enemies(rows).len() ==> 0 <= (#[trigger] spec_enemies(rows)[k]).row
                < rows.len() && 0 <= spec_enemies(rows)[k].col < rows[0].len(),
    decreases rows.len(),
{
    let last = rows.last();
    assert(last.len() == rows[0].len());
    lemma_row_enemies_bounds(last, rows.len() - 1);
    if rows.len() > 1 {
        assert(rows.drop_last()[0] == rows[0]);
        assert(forall|i: int|
            0 <= i < rows.drop_last().len() ==> (#[trigger] rows.drop_last()[i]) == rows[i]);
        lemma_enemies_bounds(rows.drop_last());
    }
    let left = spec_enemies(rows.drop_last());
    let right = row_enemies(last, rows.len() - 1);
    assert forall|k: int|
        0 <= k < spec_enemies(rows).len() implies 0 <= (#[trigger] spec_enemies(rows)[k]).row
        < rows.len() && 0 <= spec_enemies(rows)[k].col < rows[0].len() by {
        if k < left.len() {
            assert(spec_enemies(rows)[k] == left[k]);
        } else {
            assert(spec_enemies(rows)[k] == right[k - left.len()]);
        }
    }
}

/// What loading a built-in level yields: the decode of its layout text's
/// bytes; numbers outside the built-in range yield nothing.
pub open spec fn spec_load(level_number: int) -> Option<LevelView> {
    if 1 <= level_number <= 10 {
        spec_decode(spec_lines(vstd::utf8::encode_utf8(crate::maps::spec_layout(level_number))))
    } else {
        None
    }
}

/// A decoded layout is always a well-formed level: the spawn point and every
/// enemy lie within the declared, rectangular dimensions.
pub proof fn lemma_decode_well_formed(rows: Seq<Seq<u8>>)
    ensures
        spec_decode(rows) matches Some(lv) ==> lv.wf(),
{
    if layout_ok(rows) {
        let lv = spec_decode(rows)->Some_0;
        lemma_spawn_opt_bounds(rows);
        lemma_enemies_bounds(rows);
        assert(forall|i: int| 0 <= i < lv.grid.len() ==> (#[trigger] lv.grid[i]).len() == lv.cols);
    }
}

/// The abstract state of a level.
#[verifier::ext_equal]
pub struct LevelView {
    pub grid: Seq<Seq<TileType>>,
    pub enemies: Seq<Position>,
    pub spawn: Position,
    pub rows: int,
    pub cols: int,
}

impl LevelView {
    pub open spec fn in_bounds(self, pos: Position) -> bool {
        &&& 0 <= pos.row
        &&& (pos.row as int) < self.rows
        &&& 0 <= pos.col
        &&& (pos.col as int) < self.cols
    }

    pub open spec fn tile_at(self, pos: Position) -> TileType {
        self.grid[pos.row as int][pos.col as int]
    }

    /// Rectangular, within the dimension limits, and with the spawn point
    /// and every enemy inside the grid.
    pub open spec fn wf(self) -> bool {
        &&& 1 <= self.rows <= u8::MAX as int
        &&& 1 <= self.cols <= u8::MAX as int
        &&& self.grid.len() == self.rows
        &&& forall|i: int| 0 <= i < self.grid.len() ==> (#[trigger] self.grid[i]).len() == self.cols
        &&& self.in_bounds(self.spawn)
        &&& forall|i: int|
            0 <= i < self.enemies.len() ==> self.in_bounds(#[trigger] self.enemies[i])
    }

    /// The level with one cell replaced.
    pub open spec fn with_tile(self, pos: Position, t: TileType) -> LevelView {
        LevelView {
            grid: self.grid.update(
                pos.row as int,
                self.grid[pos.row as int].update(pos.col as int, t),
            ),
            ..self
        }
    }

    /// The level with its enemy list replaced.
    pub open spec fn with_enemies(self, enemies: Seq<Position>) -> LevelView {
        LevelView { enemies, ..self }
    }

    /// The level with its grid replaced.
    pub open spec fn with_grid(self, grid: Seq<Seq<TileType>>) -> LevelView {
        LevelView { grid, ..self }
    }

    /// `other` holds the same tile as `self` on every cell except perhaps
    /// `a` and `b`.
    pub open spec fn same_tiles_except(self, other: LevelView, a: Position, b: Position) -> bool {
        forall|q: Position|
            self.in_bounds(q) && q != a && q != b ==> #[trigger] other.tile_at(q) == self.tile_at(
                q,
            )
    }

    /// Replacing one cell puts the tile there, keeps every other cell, and
    /// keeps well-formedness.
    pub proof fn lemma_with_tile(self, pos: Position, t: TileType)
        requires
            self.wf(),
            self.in_bounds(pos),
        ensures
            self.with_tile(pos, t).wf(),
            self.with_tile(pos, t).tile_at(pos) == t,
            self.same_tiles_except(self.with_tile(pos, t), pos, pos),
    {
        let lv1 = self.with_tile(pos, t);
        assert forall|q: Position| self.in_bounds(q) && q != pos && q != pos implies #[trigger] lv1
            .tile_at(q) == self.tile_at(q) by {
            if q.row == pos.row {
                assert(q.col != pos.col);
            }
        }
    }
}

pub struct Level {
    pub map: Vec<Vec<TileType>>,
    pub enemies: Vec<Position>,
    pub player_start: Position,
    pub map_size: (u8, u8),
}

impl View for Level {
    type V = LevelView;

    open spec fn view(&self) -> LevelView {
        LevelView {
            grid: self.map@.map_values(|row: Vec<TileType>| row@),
            enemies: self.enemies@,
            spawn: self.player_start,
            rows: self.map_size.0 as int,
            cols: self.map_size.1 as int,
        }
    }
}

impl Level {
    pub open spec fn wf(self) -> bool {
        self@.wf()
    }

    /// Decode a layout already split into rows of bytes.
    pub fn decode_rows(rows: &Vec<Vec<u8>>) -> (r: Option<Level>)
        ensures
            (match r {
                Some(l) => spec_decode(row_views(rows@)) == Some(l@) && l.wf(),
                None => spec_decode(row_views(rows@)) is None,
            }),
    {
        let ghost rv = row_views(rows@);
        let nrows = rows.len();
        if nrows == 0 || nrows > 255 {
            return None;
        }
        let ncols = rows[0].len();
        proof {
            assert(rv[0] == rows@[0]@);
        }
        if ncols == 0 || ncols > 255 {
            return None;
        }
        let mut i: usize = 0;
        while i < nrows
            invariant
                i <= nrows,
                nrows == rows@.len(),
                rv == row_views(rows@),
                ncols == rv[0].len(),
                forall|j: int| 0 <= j < i ==> (#[trigger] rv[j]).len() == ncols,
            decreases nrows - i,
        {
            proof {
                assert(rv[i as int] == rows@[i as int]@);
            }
            if rows[i].len() != ncols {
                proof {
                    assert(rv[i as int].len() != rv[0].len());
                }
                return None;
            }
            i = i + 1;
        }
        assert(layout_ok(rv));
        let mut map: Vec<Vec<TileType>> = Vec::new();
        let mut enemies: Vec<Position> = Vec::new();
        let mut spawn = Position { row: 0, col: 0 };
        let mut r: usize = 0;
        proof {
            assert(rv.take(0) =~= Seq::<Seq<u8>>::empty());
            assert(enemies@ =~= spec_enemies(rv.take(0)));
        }
        while r < nrows
            invariant
                r <= nrows,
                nrows == rows@.len(),
                rv == row_views(rows@),
                1 <= nrows <= 255,
                1 <= ncols <= 255,
                ncols == rv[0].len(),
                forall|j: int| 0 <= j < nrows ==> (#[trigger] rv[j]).len() == ncols,
                map@.len() == r,
                forall|ii: int| 0 <= ii < r ==> (#[trigger] map@[ii])@.len() == ncols,
                forall|ii: int, jj: int|
                    0 <= ii < r && 0 <= jj < ncols ==> (#[trigger] map@[ii]@[jj]) == tile_of_byte(
                        rv[ii][jj],
                    ),
                enemies@ == spec_enemies(rv.take(r as int)),
                spawn == spec_spawn(rv.take(r as int)),
            decreases nrows - r,
        {
            let ghost line = rv[r as int];
            let mut map_row: Vec<TileType> = Vec::new();
            let mut c: usize = 0;
            proof {
                assert(line.take(0) =~= Seq::<u8>::empty());
                assert(enemies@ =~= spec_enemies(rv.take(r as int)) + row_enemies(
                    line.take(0),
                    r as int,
                ));
            }
            while c < ncols
                invariant
                    c <= ncols,
                    r < nrows,
                    nrows == rows@.len(),
                    rv == row_views(rows@),
                    1 <= nrows <= 255,
                    1 <= ncols <= 255,
                    line == rv[r as int],
                    line.len() == ncols,
                    map_row@.len() == c,
                    forall|jj: int| 0 <= jj < c ==> map_row@[jj] == tile_of_byte(line[jj]),
                    enemies@ == spec_enemies(rv.take(r as int)) + row_enemies(
                        line.take(c as int),
                        r as int,
                    ),
                    spawn == (match last_spawn_in_row(line.take(c as int)) {
                        Some(cc) => Position { row: r as i16, col: cc as i16 },
                        None => spec_spawn(rv.take(r as int)),
                    }),
                decreases ncols - c,
            {
                proof {
                    assert(rv[r as int] == rows@[r as int]@);
                }
                let b = rows[r][c];
                proof {
                    assert(b == line[c as int]);
                    assert(line.take(c as int + 1).drop_last() =~= line.take(c as int));
                    assert(line.take(c as int + 1).last() == line[c as int]);
                }
                map_row.push(byte_to_tile(b));
                if b == CH_SPAWN_MARKER {
                    spawn = Position { row: r as i16, col: c as i16 };
                    proof {
                        assert(row_enemies(line.take(c as int + 1), r as int) =~= row_enemies(
                            line.take(c as int),
                            r as int,
                        ));
                    }
                } else if b == CH_ENEMY_MARKER {
                    enemies.push(Position { row: r as i16, col: c as i16 });
                    proof {
                        assert(enemies@ =~= spec_enemies(rv.take(r as int)) + row_enemies(
                            line.take(c as int + 1),
                            r as int,
                        ));
                    }
                } else {
                    proof {
                        assert(row_enemies(line.take(c as int + 1), r as int) =~= row_enemies(
                            line.take(c as int),
                            r as int,
                        ));
                    }
                }
                c = c + 1;
            }
            proof {
                assert(line.take(ncols as int) =~= line);
            }
            map.push(map_row);
            proof {
                let t = rv.take(r as int + 1);
                assert(t.drop_last() =~= rv.take(r as int));
                assert(t.last() == line);
                assert(enemies@ =~= spec_enemies(t));
            }
            r = r + 1;
        }
        let level = Level {
            map,
            enemies,
            player_start: spawn,
            map_size: (nrows as u8, ncols as u8),
        };
        proof {
            assert(rv.take(nrows as int) =~= rv);
            lemma_decode_well_formed(rv);
            assert(level@.grid =~~= spec_grid(rv));
            assert(level@ =~~= spec_decode(rv)->Some_0);
        }
        Some(level)
    }

    /// Decode a line-oriented textual layout, one byte per cell. Reading
    /// byte-wise is deliberate: the whole character table is ASCII, so on
    /// ASCII text a byte is a character; each byte of a multi-byte character
    /// would fall through the table to `Empty` and widen its row.
    pub fn decode(text: &[u8]) -> (r: Option<Level>)
        ensures
            (match r {
                Some(l) => spec_decode(spec_lines(text@)) == Some(l@) && l.wf(),
                None => spec_decode(spec_lines(text@)) is None,
            }),
    {
        let rows = split_lines(text);
        Self::decode_rows(&rows)
    }

    /// Load a built-in level by its number: exactly [`spec_load`] of that
    /// number.
    pub fn load(level_number: usize) -> (r: Option<Level>)
        ensures
            (match r {
                Some(l) => spec_load(level_number as int) == Some(l@) && l.wf(),
                None => spec_load(level_number as int) is None,
            }),
    {
        match crate::maps::builtin_layout(level_number) {
            Some(text) => {
                let bytes = text.as_bytes();
                proof {
                    assert(bytes@ == vstd::utf8::encode_utf8(
                        crate::maps::spec_layout(level_number as int),
                    ));
                }
                Self::decode(bytes)
            },
            None => None,
        }
    }

    /// Bounds-checked read; positions outside the grid yield nothing.
    pub fn get_tile(&self, pos: &Position) -> (r: Option<TileType>)
        requires
            self.wf(),
        ensures
            self@.in_bounds(*pos) ==> r == Some(self@.tile_at(*pos)),
            !self@.in_bounds(*pos) ==> r is None,
    {
        if pos.row >= 0 && pos.row < self.map_size.0 as i16 && pos.col >= 0 && pos.col
            < self.map_size.1 as i16 {
            Some(self.map[pos.row as usize][pos.col as usize])
        } else {
            None
        }
    }

    /// Bounds-checked write; writes outside the grid are silently ignored.
    pub fn set_tile(&mut self, pos: &Position, tile_type: TileType)
        requires
            old(self).wf(),
        ensures
            final(self).wf(),
            old(self)@.in_bounds(*pos) ==> final(self)@ == old(self)@.with_tile(*pos, tile_type),
            !old(self)@.in_bounds(*pos) ==> final(self)@ == old(self)@,
    {
        if pos.row >= 0 && pos.row < self.map_size.0 as i16 && pos.col >= 0 && pos.col
            < self.map_size.1 as i16 {
            let r = pos.row as usize;
            let c = pos.col as usize;
            proof {
                assert(self@.grid.len() == self.map@.len());
                assert(self@.grid[r as int] == self.map@[r as int]@);
                assert(self@.grid[r as int].len() == self@.cols);
            }
            self.map[r][c] = tile_type;
            proof {
                assert(self@ =~~= old(self)@.with_tile(*pos, tile_type));
            }
        }
    }
}

} // verus!
