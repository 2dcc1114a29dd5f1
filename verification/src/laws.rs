//! Laws of the rule set, stated over all inputs and proved once: what each
//! interaction leaves on the grid and in the inventory, cell by cell, and
//! how the rules compose across calls.

use vstd::prelude::*;

use crate::game::boss_effect;
use crate::game::crystal_effect;
use crate::game::enemy_step;
use crate::game::flame_of;
use crate::game::hook_effect;
use crate::game::lemma_find_tile_props;
use crate::game::no_flames;
use crate::game::on_hook_segment;
use crate::game::pickup_effect;
use crate::game::right_of;
use crate::game::spec_classify;
use crate::game::spec_classify_with;
use crate::game::spec_find_tile;
use crate::game::wood_log_effect;
use crate::game::Game;
use crate::level::LevelView;
use crate::player::Player;
use crate::types::BlockingType;
use crate::types::CollisionType;
use crate::types::InteractiveType;
use crate::types::ItemType;
use crate::types::Position;
use crate::types::TileType;

verus! {

/// Every position outside the grid classifies as blocking, like a wall,
/// whatever the tiles and the enemy list hold.
pub proof fn lemma_out_of_bounds_blocks(lv: LevelView, pos: Position)
    requires
        !lv.in_bounds(pos),
    ensures
        spec_classify(lv, pos) == CollisionType::Blocking(BlockingType::Wall),
{
}

/// Item pickup: the item joins the inventory, the cell empties while every
/// other cell keeps its tile, the move commits — and picking up the same
/// cell twice is impossible: the emptied cell classifies as free afterwards
/// (or as an enemy encounter, where an enemy already stood on it), never as
/// a pickup again.
pub proof fn lemma_pickup_not_repeatable(
    g0: Game,
    p0: Player,
    g1: Game,
    p1: Player,
    pos: Position,
    item: ItemType,
)
    requires
        g0.wf(),
        g0.level@.in_bounds(pos),
        pickup_effect(g0, p0, g1, p1, pos, item),
    ensures
        g1.level@.tile_at(pos) == TileType::Empty,
        g0.level@.same_tiles_except(g1.level@, pos, pos),
        p1.inventory@ == p0.inventory@.push(item),
        p1.pos == pos,
        p1.pending_move is None,
        !g0.level@.enemies.contains(pos) ==> spec_classify(g1.level@, pos)
            == CollisionType::NoCollision,
        g0.level@.enemies.contains(pos) ==> spec_classify(g1.level@, pos)
            == CollisionType::Interactive(InteractiveType::Enemy),
{
    g0.level@.lemma_with_tile(pos, TileType::Empty);
    assert(g1.level@.enemies == g0.level@.enemies);
}

/// Wood log, all three cases of the rule. With an axe and water directly to
/// the right: the water becomes a canoe, the log cell empties, every other
/// cell keeps its tile, the axe is consumed, and the move is not applied.
/// With an axe and no such water: the log cell empties, other cells keep
/// their tiles, the axe is consumed, and the move is applied. Without an
/// axe: no tile changes, the inventory is untouched, and the move is not
/// applied.
pub proof fn lemma_wood_log_rules(g0: Game, p0: Player, g1: Game, p1: Player, pos: Position)
    requires
        g0.wf(),
        g0.level@.in_bounds(pos),
        wood_log_effect(g0, p0, g1, p1, pos),
    ensures
        p1.pending_move is None,
        (p0.inventory@.contains(ItemType::Axe) && g0.level@.in_bounds(right_of(pos))
            && g0.level@.tile_at(right_of(pos)) == TileType::Water) ==> {
            &&& g1.level@.tile_at(right_of(pos)) == TileType::Canoe
            &&& g1.level@.tile_at(pos) == TileType::Empty
            &&& g0.level@.same_tiles_except(g1.level@, pos, right_of(pos))
            &&& p1.inventory@ == p0.inventory@.remove_value(ItemType::Axe)
            &&& p1.pos == p0.pos
        },
        (p0.inventory@.contains(ItemType::Axe) && !(g0.level@.in_bounds(right_of(pos))
            && g0.level@.tile_at(right_of(pos)) == TileType::Water)) ==> {
            &&& g1.level@.tile_at(pos) == TileType::Empty
            &&& g0.level@.same_tiles_except(g1.level@, pos, pos)
            &&& p1.inventory@ == p0.inventory@.remove_value(ItemType::Axe)
            &&& p1.pos == pos
        },
        !p0.inventory@.contains(ItemType::Axe) ==> g1.level@ == g0.level@ && p1.inventory@
            == p0.inventory@ && p1.pos == p0.pos,
{
    if p0.inventory@.contains(ItemType::Axe) {
        let wpos = right_of(pos);
        if g0.level@.in_bounds(wpos) && g0.level@.tile_at(wpos) == TileType::Water {
            let lv1 = g0.level@.with_tile(wpos, TileType::Canoe);
            g0.level@.lemma_with_tile(wpos, TileType::Canoe);
            lv1.lemma_with_tile(pos, TileType::Empty);
            assert(wpos.col == pos.col + 1);
        } else {
            g0.level@.lemma_with_tile(pos, TileType::Empty);
        }
    }
}

/// Crystal, the whole rule. The crystal cell becomes an alembic; the first
/// matching flame, if one stands anywhere, vanishes; every other cell keeps
/// its tile; exactly one wind chime is granted precisely when no flame of
/// any kind is left on the resulting grid; the move is not applied.
pub proof fn lemma_crystal_rules(g0: Game, p0: Player, g1: Game, p1: Player, pos: Position)
    requires
        g0.wf(),
        g0.level@.in_bounds(pos),
        g0.level@.tile_at(pos) == TileType::CrystalA || g0.level@.tile_at(pos)
            == TileType::CrystalB || g0.level@.tile_at(pos) == TileType::CrystalC,
        crystal_effect(g0, p0, g1, p1, pos),
    ensures
        g1.level@.tile_at(pos) == TileType::Alembic,
        p1.pos == p0.pos,
        p1.pending_move is None,
        (match spec_find_tile(g0.level@.grid, flame_of(g0.level@.tile_at(pos))) {
            Some(fp) => g1.level@.tile_at(fp) == TileType::Empty && g0.level@.same_tiles_except(
                g1.level@,
                fp,
                pos,
            ),
            None => g0.level@.same_tiles_except(g1.level@, pos, pos),
        }),
        no_flames(g1.level@.grid) ==> p1.inventory@ == p0.inventory@.push(ItemType::WindChime),
        !no_flames(g1.level@.grid) ==> p1.inventory@ == p0.inventory@,
{
    let flame = flame_of(g0.level@.tile_at(pos));
    lemma_find_tile_props(g0.level@.grid, flame);
    match spec_find_tile(g0.level@.grid, flame) {
        Some(fp) => {
            assert(g0.level@.tile_at(fp) == flame);
            assert(fp != pos);
            let lv1 = g0.level@.with_tile(fp, TileType::Empty);
            g0.level@.lemma_with_tile(fp, TileType::Empty);
            lv1.lemma_with_tile(pos, TileType::Alembic);
        },
        None => {
            g0.level@.lemma_with_tile(pos, TileType::Alembic);
        },
    }
}

/// Hook start with the hook held: the hook is consumed whether or not a hook
/// end exists; with a hook end anywhere, every cell on the straight segment
/// between start and end, inclusive (the start cell alone when unaligned),
/// becomes a link and every cell off the segment keeps its tile; with no
/// hook end, no cell changes at all; the move is not applied.
pub proof fn lemma_hook_rules(g0: Game, p0: Player, g1: Game, p1: Player, pos: Position)
    requires
        g0.wf(),
        g0.level@.in_bounds(pos),
        p0.inventory@.contains(ItemType::Hook),
        hook_effect(g0, p0, g1, p1, pos),
    ensures
        p1.pending_move is None,
        p1.pos == p0.pos,
        p1.inventory@ == p0.inventory@.remove_value(ItemType::Hook),
        (match spec_find_tile(g0.level@.grid, TileType::HookEnd) {
            Some(end) => forall|q: Position|
                g0.level@.in_bounds(q) ==> #[trigger] g1.level@.tile_at(q) == (if on_hook_segment(
                    pos,
                    end,
                    q,
                ) {
                    TileType::Link
                } else {
                    g0.level@.tile_at(q)
                }),
            None => g1.level@ == g0.level@,
        }),
{
    lemma_find_tile_props(g0.level@.grid, TileType::HookEnd);
    match spec_find_tile(g0.level@.grid, TileType::HookEnd) {
        Some(end) => {
            assert forall|q: Position| g0.level@.in_bounds(q) implies #[trigger] g1.level@.tile_at(
                q,
            ) == (if on_hook_segment(pos, end, q) {
                TileType::Link
            } else {
                g0.level@.tile_at(q)
            }) by {}
        },
        None => {},
    }
}

/// One boss clash with the dragon sword held: never a death, the inventory
/// untouched. While more than one health point remains, the counter drops by
/// one, the map is unchanged, and the actor is pushed back to the spawn
/// point; at exactly one, the counter reaches zero, the boss cell empties
/// while every other cell keeps its tile, and the move commits.
pub proof fn lemma_boss_clash(
    g0: Game,
    p0: Player,
    g1: Game,
    p1: Player,
    pos: Position,
    died: bool,
)
    requires
        g0.wf(),
        g0.level@.in_bounds(pos),
        p0.inventory@.contains(ItemType::DragonSword),
        boss_effect(g0, p0, g1, p1, pos, died),
    ensures
        !died,
        p1.inventory@ == p0.inventory@,
        p1.pending_move is None,
        g0.boss_health > 1 ==> g1.boss_health == g0.boss_health - 1 && g1.level@ == g0.level@
            && p1.pos == g0.level@.spawn,
        g0.boss_health == 1 ==> g1.boss_health == 0 && g1.level@.tile_at(pos) == TileType::Empty
            && g0.level@.same_tiles_except(g1.level@, pos, pos) && p1.pos == pos,
{
    if g0.boss_health == 1 {
        g0.level@.lemma_with_tile(pos, TileType::Empty);
    }
}

/// Three consecutive clashes with the dragon sword held: the boss health
/// moves 3 to 2 to 1 to 0; the first two clashes reset the actor to the
/// spawn point and leave the map unchanged; the third clears the boss cell
/// and puts the actor on it; none of the three is a death.
pub proof fn lemma_boss_sequence(
    g0: Game,
    p0: Player,
    g1: Game,
    p1: Player,
    g2: Game,
    p2: Player,
    g3: Game,
    p3: Player,
    pos: Position,
    d1: bool,
    d2: bool,
    d3: bool,
)
    requires
        g0.boss_health == 3,
        p0.inventory@.contains(ItemType::DragonSword),
        boss_effect(g0, p0, g1, p1, pos, d1),
        boss_effect(g1, p1, g2, p2, pos, d2),
        boss_effect(g2, p2, g3, p3, pos, d3),
    ensures
        !d1 && !d2 && !d3,
        g1.boss_health == 2 && g1.level@ == g0.level@ && p1.pos == g0.level@.spawn,
        g2.boss_health == 1 && g2.level@ == g0.level@ && p2.pos == g0.level@.spawn,
        g3.boss_health == 0 && g3.level@ == g0.level@.with_tile(pos, TileType::Empty) && p3.pos
            == pos,
{
}

/// An enemy tick never enters an occupied or blocked cell: whatever was
/// drawn, each enemy either stays where it was or steps onto a cell that
/// classifies as free against tiles and bounds; and with the coin down it
/// always stays.
pub proof fn lemma_enemy_step_safe(lv: LevelView, p: Position, do_move: bool, dir: u32)
    ensures
        enemy_step(lv, p, do_move, dir) == p || spec_classify_with(
            lv,
            Seq::empty(),
            enemy_step(lv, p, do_move, dir),
        ) == CollisionType::NoCollision,
        !do_move ==> enemy_step(lv, p, do_move, dir) == p,
{
}

} // verus!
