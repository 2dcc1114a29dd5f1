//! Core value types of the engine: grid positions, tile kinds, item kinds,
//! and the outcome of classifying a candidate position.

use vstd::prelude::*;

verus! {

/// A cell address on the grid. Signed so that candidate moves may step
/// outside the map and be classified as blocked rather than wrap around.
#[derive(Debug, Clone, Copy, PartialEq, Eq, Structural)]
pub struct Position {
    pub row: i16,
    pub col: i16,
}

/// Everything a grid cell can hold. Each cell holds exactly one tile.
#[derive(Debug, Clone, Copy, PartialEq, Eq, Structural)]
pub enum TileType {
    Empty,
    Wall,
    Bamboo,
    Mountain,
    Water,
    Volcano,
    Lava,
    SnowMountain,
    Axe,
    WoodLog,
    Canoe,
    Sword,
    Key,
    Door,
    DoorOpen,
    Cottage,
    Tomb,
    Bomb,
    Rock,
    Goal,
    Hook,
    HookStart,
    HookEnd,
    Link,
    CrystalA,
    CrystalB,
    CrystalC,
    FlameA,
    FlameB,
    FlameC,
    Alembic,
    WindChime,
    Lantern,
    DragonSword,
    Oni,
    Boss,
    Princess,
}

/// Items the player can carry. Distinct from tiles, even though several
/// tiles represent pickups of the same items.
#[derive(Debug, Clone, Copy, PartialEq, Eq, Structural)]
pub enum ItemType {
    Axe,
    Sword,
    Key,
    Bomb,
    Hook,
    WindChime,
    DragonSword,
}

/// Terrain kinds that refuse entry.
#[derive(Debug, Clone, Copy, PartialEq, Eq, Structural)]
pub enum BlockingType {
    Wall,
    Bamboo,
    Mountain,
    Water,
    Volcano,
    Lava,
    SnowMountain,
    FlameA,
    FlameB,
    FlameC,
    Lantern,
}

/// Which interaction rule a cell triggers.
#[derive(Debug, Clone, Copy, PartialEq, Eq, Structural)]
pub enum InteractiveType {
    Item(ItemType),
    WoodLog,
    Door,
    Cottage,
    Rock,
    HookStart,
    CrystalA,
    CrystalB,
    CrystalC,
    Enemy,
    Oni,
    Boss,
}

/// The classification of a candidate position. `NoCollision` means the
/// cell is free to enter.
#[derive(Debug, Clone, Copy, PartialEq, Eq, Structural)]
pub enum CollisionType {
    NoCollision,
    Interactive(InteractiveType),
    Blocking(BlockingType),
    Goal,
    Princess,
}

/// The exhaustive mapping from a tile to the outcome it forces, before the
/// enemy check. `Option::None` means the tile neither blocks nor interacts,
/// so classification falls through to the enemy list.
pub open spec fn tile_outcome(t: TileType) -> Option<CollisionType> {
    match t {
        TileType::Wall => Some(CollisionType::Blocking(BlockingType::Wall)),
        TileType::Bamboo => Some(CollisionType::Blocking(BlockingType::Bamboo)),
        TileType::Mountain => Some(CollisionType::Blocking(BlockingType::Mountain)),
        TileType::Water => Some(CollisionType::Blocking(BlockingType::Water)),
        TileType::Volcano => Some(CollisionType::Blocking(BlockingType::Volcano)),
        TileType::Lava => Some(CollisionType::Blocking(BlockingType::Lava)),
        TileType::SnowMountain => Some(CollisionType::Blocking(BlockingType::SnowMountain)),
        TileType::FlameA => Some(CollisionType::Blocking(BlockingType::FlameA)),
        TileType::FlameB => Some(CollisionType::Blocking(BlockingType::FlameB)),
        TileType::FlameC => Some(CollisionType::Blocking(BlockingType::FlameC)),
        TileType::Lantern => Some(CollisionType::Blocking(BlockingType::Lantern)),
        TileType::Goal => Some(CollisionType::Goal),
        TileType::Princess => Some(CollisionType::Princess),
        TileType::Axe => Some(CollisionType::Interactive(InteractiveType::Item(ItemType::Axe))),
        TileType::Sword => Some(CollisionType::Interactive(InteractiveType::Item(ItemType::Sword))),
        TileType::Key => Some(CollisionType::Interactive(InteractiveType::Item(ItemType::Key))),
        TileType::Bomb => Some(CollisionType::Interactive(InteractiveType::Item(ItemType::Bomb))),
        TileType::Hook => Some(CollisionType::Interactive(InteractiveType::Item(ItemType::Hook))),
        TileType::WindChime => Some(
            CollisionType::Interactive(InteractiveType::Item(ItemType::WindChime)),
        ),
        TileType::DragonSword => Some(
            CollisionType::Interactive(InteractiveType::Item(ItemType::DragonSword)),
        ),
        TileType::WoodLog => Some(CollisionType::Interactive(InteractiveType::WoodLog)),
        TileType::Door => Some(CollisionType::Interactive(InteractiveType::Door)),
        TileType::Cottage => Some(CollisionType::Interactive(InteractiveType::Cottage)),
        TileType::Rock => Some(CollisionType::Interactive(InteractiveType::Rock)),
        TileType::HookStart => Some(CollisionType::Interactive(InteractiveType::HookStart)),
        TileType::CrystalA => Some(CollisionType::Interactive(InteractiveType::CrystalA)),
        TileType::CrystalB => Some(CollisionType::Interactive(InteractiveType::CrystalB)),
        TileType::CrystalC => Some(CollisionType::Interactive(InteractiveType::CrystalC)),
        TileType::Oni => Some(CollisionType::Interactive(InteractiveType::Oni)),
        TileType::Boss => Some(CollisionType::Interactive(InteractiveType::Boss)),
        TileType::Empty => None,
        TileType::Canoe => None,
        TileType::DoorOpen => None,
        TileType::Tomb => None,
        TileType::HookEnd => None,
        TileType::Link => None,
        TileType::Alembic => None,
    }
}

/// Executable counterpart of [`tile_outcome`]: the exhaustive dispatch from
/// a tile to the outcome it forces, before the enemy check.
pub fn tile_to_outcome(t: TileType) -> (r: Option<CollisionType>)
    ensures
        r == tile_outcome(t),
{
    match t {
        TileType::Wall => Some(CollisionType::Blocking(BlockingType::Wall)),
        TileType::Bamboo => Some(CollisionType::Blocking(BlockingType::Bamboo)),
        TileType::Mountain => Some(CollisionType::Blocking(BlockingType::Mountain)),
        TileType::Water => Some(CollisionType::Blocking(BlockingType::Water)),
        TileType::Volcano => Some(CollisionType::Blocking(BlockingType::Volcano)),
        TileType::Lava => Some(CollisionType::Blocking(BlockingType::Lava)),
        TileType::SnowMountain => Some(CollisionType::Blocking(BlockingType::SnowMountain)),
        TileType::FlameA => Some(CollisionType::Blocking(BlockingType::FlameA)),
        TileType::FlameB => Some(CollisionType::Blocking(BlockingType::FlameB)),
        TileType::FlameC => Some(CollisionType::Blocking(BlockingType::FlameC)),
        TileType::Lantern => Some(CollisionType::Blocking(BlockingType::Lantern)),
        TileType::Goal => Some(CollisionType::Goal),
        TileType::Princess => Some(CollisionType::Princess),
        TileType::Axe => Some(CollisionType::Interactive(InteractiveType::Item(ItemType::Axe))),
        TileType::Sword => Some(
            CollisionType::Interactive(InteractiveType::Item(ItemType::Sword)),
        ),
        TileType::Key => Some(CollisionType::Interactive(InteractiveType::Item(ItemType::Key))),
        TileType::Bomb => Some(CollisionType::Interactive(InteractiveType::Item(ItemType::Bomb))),
        TileType::Hook => Some(CollisionType::Interactive(InteractiveType::Item(ItemType::Hook))),
        TileType::WindChime => Some(
            CollisionType::Interactive(InteractiveType::Item(ItemType::WindChime)),
        ),
        TileType::DragonSword => Some(
            CollisionType::Interactive(InteractiveType::Item(ItemType::DragonSword)),
        ),
        TileType::WoodLog => Some(CollisionType::Interactive(InteractiveType::WoodLog)),
        TileType::Door => Some(CollisionType::Interactive(InteractiveType::Door)),
        TileType::Cottage => Some(CollisionType::Interactive(InteractiveType::Cottage)),
        TileType::Rock => Some(CollisionType::Interactive(InteractiveType::Rock)),
        TileType::HookStart => Some(CollisionType::Interactive(InteractiveType::HookStart)),
        TileType::CrystalA => Some(CollisionType::Interactive(InteractiveType::CrystalA)),
        TileType::CrystalB => Some(CollisionType::Interactive(InteractiveType::CrystalB)),
        TileType::CrystalC => Some(CollisionType::Interactive(InteractiveType::CrystalC)),
        TileType::Oni => Some(CollisionType::Interactive(InteractiveType::Oni)),
        TileType::Boss => Some(CollisionType::Interactive(InteractiveType::Boss)),
        TileType::Empty => None,
        TileType::Canoe => None,
        TileType::DoorOpen => None,
        TileType::Tomb => None,
        TileType::HookEnd => None,
        TileType::Link => None,
        TileType::Alembic => None,
    }
}

} // verus!
