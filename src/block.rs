use vstd::prelude::*;

use crate::player::{rank, PlayerType};

verus! {

/// The level of custom blocks supported by the server.
pub const CUSTOM_BLOCKS_SUPPORT_LEVEL: u8 = 1;
/// The highest id of the blocks every classic client knows.
pub const MAX_CLASSIC_ID: u8 = 0x31;
/// The highest id that the catalog holds.
pub const MAX_BLOCK_ID: u8 = 0x41;

pub const ID_AIR: u8 = 0x00;
pub const ID_STONE: u8 = 0x01;
pub const ID_GRASS: u8 = 0x02;
pub const ID_DIRT: u8 = 0x03;
pub const ID_BEDROCK: u8 = 0x07;
pub const ID_WATER_FLOWING: u8 = 0x08;
pub const ID_WATER_STATIONARY: u8 = 0x09;
pub const ID_LAVA_FLOWING: u8 = 0x0a;
pub const ID_LAVA_STATIONARY: u8 = 0x0b;

/// The kinds of blocks.
#[derive(Debug, Clone, Copy, PartialEq, Eq, Structural)]
pub enum BlockType {
    /// a regular solid block
    Solid,
    /// a block which has no collision
    NonSolid,
    /// a slab
    Slab,
    /// fluid which is actively flowing
    FluidFlowing { stationary: u8, ticks_to_spread: usize },
    /// fluid which is stationary
    FluidStationary { moving: u8 },
    /// a block which is climbable like the rope block
    Rope,
}

impl BlockType {
    /// Whether a block of this kind needs an update right after being placed.
    pub fn needs_update_on_place(&self) -> (r: bool)
        ensures
            r == (*self is FluidFlowing),
    {
        match self {
            BlockType::FluidFlowing { .. } => true,
            _ => false,
        }
    }

    /// Whether a block of this kind needs an update when a neighbouring block changes.
    pub fn needs_update_when_neighbor_changed(&self) -> (r: bool)
        ensures
            r == (*self is FluidStationary),
    {
        match self {
            BlockType::FluidStationary { .. } => true,
            _ => false,
        }
    }

    /// Whether this kind is a fluid, flowing or stationary.
    pub fn is_fluid(&self) -> (r: bool)
        ensures
            r == (*self is FluidFlowing || *self is FluidStationary),
    {
        match self {
            BlockType::FluidFlowing { .. } | BlockType::FluidStationary { .. } => true,
            _ => false,
        }
    }
}

/// Information about one block id.
#[derive(Debug, Clone, Copy, PartialEq, Eq, Structural)]
pub struct BlockInfo {
    /// the kind of block
    pub block_type: BlockType,
    /// permissions needed to place this block
    pub place_permissions: PlayerType,
    /// permissions needed to break this block (includes replacing fluids)
    pub break_permissions: PlayerType,
    /// the block shown instead to clients without custom block support
    pub fallback: Option<u8>,
    /// whether the block may be picked for random tick updates
    pub may_receive_random_ticks: bool,
}

impl BlockInfo {
    /// A solid block that anyone may place and break, with no fallback.
    pub fn new() -> (r: BlockInfo)
        ensures
            r.block_type == BlockType::Solid,
            r.place_permissions == PlayerType::Normal,
            r.break_permissions == PlayerType::Normal,
            r.fallback is None,
            !r.may_receive_random_ticks,
    {
        BlockInfo {
            block_type: BlockType::Solid,
            place_permissions: PlayerType::Normal,
            break_permissions: PlayerType::Normal,
            fallback: None,
            may_receive_random_ticks: false,
        }
    }

    /// The same block with another kind.
    pub fn block_type(self, block_type: BlockType) -> (r: BlockInfo)
        ensures
            r == (BlockInfo { block_type, ..self }),
    {
        BlockInfo { block_type, ..self }
    }

    /// The same block with other placing and breaking permissions.
    pub fn perm(self, place: PlayerType, brk: PlayerType) -> (r: BlockInfo)
        ensures
            r == (BlockInfo { place_permissions: place, break_permissions: brk, ..self }),
    {
        BlockInfo { place_permissions: place, break_permissions: brk, ..self }
    }

    /// The same block with a fallback, which must be a classic block.
    pub fn fallback(self, fallback: u8) -> (r: BlockInfo)
        requires
            fallback <= MAX_CLASSIC_ID,
        ensures
            r == (BlockInfo { fallback: Some(fallback), ..self }),
    {
        BlockInfo { fallback: Some(fallback), ..self }
    }
}

/// The kind of each catalogued block id.
pub open spec fn kind_of(id: u8) -> BlockType {
    if id == ID_WATER_FLOWING {
        BlockType::FluidFlowing { stationary: ID_WATER_STATIONARY, ticks_to_spread: 3 }
    } else if id == ID_WATER_STATIONARY {
        BlockType::FluidStationary { moving: ID_WATER_FLOWING }
    } else if id == ID_LAVA_FLOWING {
        BlockType::FluidFlowing { stationary: ID_LAVA_STATIONARY, ticks_to_spread: 15 }
    } else if id == ID_LAVA_STATIONARY {
        BlockType::FluidStationary { moving: ID_LAVA_FLOWING }
    } else if id == 0x00 || id == 0x06 || (0x25 <= id <= 0x28) || id == 0x35 || id == 0x36 {
        BlockType::NonSolid
    } else if id == 0x2c || id == 0x32 {
        BlockType::Slab
    } else if id == 0x33 {
        BlockType::Rope
    } else {
        BlockType::Solid
    }
}

/// The level needed to place each catalogued block id.
pub open spec fn place_perm_of(id: u8) -> PlayerType {
    if id == ID_BEDROCK {
        PlayerType::Operator
    } else if ID_WATER_FLOWING <= id <= ID_LAVA_STATIONARY {
        PlayerType::Moderator
    } else {
        PlayerType::Normal
    }
}

/// The level needed to break each catalogued block id.
pub open spec fn break_perm_of(id: u8) -> PlayerType {
    if id == ID_BEDROCK {
        PlayerType::Operator
    } else {
        PlayerType::Normal
    }
}

/// The fallback of each custom block id; the classic ids have none.
pub open spec fn fallback_of(id: u8) -> Option<u8> {
    if id <= MAX_CLASSIC_ID {
        None
    } else {
        Some(
            if id == 0x32 { 0x2cu8 }
            else if id == 0x33 { 0x27u8 }
            else if id == 0x34 { 0x0cu8 }
            else if id == 0x35 { 0x00u8 }
            else if id == 0x36 { 0x0au8 }
            else if id == 0x37 { 0x21u8 }
            else if id == 0x38 { 0x19u8 }
            else if id == 0x39 { 0x03u8 }
            else if id == 0x3a { 0x1du8 }
            else if id == 0x3b { 0x1cu8 }
            else if id == 0x3c { 0x14u8 }
            else if id == 0x3d { 0x2au8 }
            else if id == 0x3e { 0x31u8 }
            else if id == 0x3f { 0x24u8 }
            else if id == 0x40 { 0x05u8 }
            else { 0x01u8 },
        )
    }
}

/// The catalog: ids `0x00..=0x41` are known, each with its record.
pub open spec fn catalog(id: u8) -> Option<BlockInfo> {
    if id <= MAX_BLOCK_ID {
        Some(
            BlockInfo {
                block_type: kind_of(id),
                place_permissions: place_perm_of(id),
                break_permissions: break_perm_of(id),
                fallback: fallback_of(id),
                may_receive_random_ticks: id == ID_GRASS || id == ID_DIRT,
            },
        )
    } else {
        None
    }
}

/// The kind of a block id, as a plain function total over all bytes.
pub open spec fn kind_or_solid(id: u8) -> BlockType {
    match catalog(id) {
        Some(info) => info.block_type,
        None => BlockType::Solid,
    }
}

fn kind_of_exec(id: u8) -> (r: BlockType)
    ensures
        r == kind_of(id),
{
    if id == ID_WATER_FLOWING {
        BlockType::FluidFlowing { stationary: ID_WATER_STATIONARY, ticks_to_spread: 3 }
    } else if id == ID_WATER_STATIONARY {
        BlockType::FluidStationary { moving: ID_WATER_FLOWING }
    } else if id == ID_LAVA_FLOWING {
        BlockType::FluidFlowing { stationary: ID_LAVA_STATIONARY, ticks_to_spread: 15 }
    } else if id == ID_LAVA_STATIONARY {
        BlockType::FluidStationary { moving: ID_LAVA_FLOWING }
    } else if id == 0x00 || id == 0x06 || (0x25 <= id && id <= 0x28) || id == 0x35 || id == 0x36 {
        BlockType::NonSolid
    } else if id == 0x2c || id == 0x32 {
        BlockType::Slab
    } else if id == 0x33 {
        BlockType::Rope
    } else {
        BlockType::Solid
    }
}

fn fallback_of_exec(id: u8) -> (r: Option<u8>)
    ensures
        r == fallback_of(id),
{
    if id <= MAX_CLASSIC_ID {
        None
    } else {
        Some(
            if id == 0x32 { 0x2c }
            else if id == 0x33 { 0x27 }
            else if id == 0x34 { 0x0c }
            else if id == 0x35 { 0x00 }
            else if id == 0x36 { 0x0a }
            else if id == 0x37 { 0x21 }
            else if id == 0x38 { 0x19 }
            else if id == 0x39 { 0x03 }
            else if id == 0x3a { 0x1d }
            else if id == 0x3b { 0x1c }
            else if id == 0x3c { 0x14 }
            else if id == 0x3d { 0x2a }
            else if id == 0x3e { 0x31 }
            else if id == 0x3f { 0x24 }
            else if id == 0x40 { 0x05 }
            else { 0x01 },
        )
    }
}

/// Looks up a block id in the catalog.
pub fn block_info(id: u8) -> (r: Option<BlockInfo>)
    ensures
        r == catalog(id),
{
    if id <= MAX_BLOCK_ID {
        let place = if id == ID_BEDROCK {
            PlayerType::Operator
        } else if ID_WATER_FLOWING <= id && id <= ID_LAVA_STATIONARY {
            PlayerType::Moderator
        } else {
            PlayerType::Normal
        };
        let brk = if id == ID_BEDROCK { PlayerType::Operator } else { PlayerType::Normal };
        Some(
            BlockInfo {
                block_type: kind_of_exec(id),
                place_permissions: place,
                break_permissions: brk,
                fallback: fallback_of_exec(id),
                may_receive_random_ticks: id == ID_GRASS || id == ID_DIRT,
            },
        )
    } else {
        None
    }
}

/// The kind of a block id, `Solid` for ids outside the catalog.
pub fn block_kind(id: u8) -> (r: BlockType)
    ensures
        r == kind_or_solid(id),
{
    match block_info(id) {
        Some(info) => info.block_type,
        None => BlockType::Solid,
    }
}

/// Fallbacks always name a classic block.
pub proof fn lemma_fallback_is_classic(id: u8)
    ensures
        fallback_of(id) matches Some(f) ==> f <= MAX_CLASSIC_ID,
        id > MAX_CLASSIC_ID ==> fallback_of(id) is Some,
{
}

/// What a client that knows only the classic blocks sees in place of `id`.
pub open spec fn classic_view(id: u8) -> u8 {
    if id <= MAX_CLASSIC_ID {
        id
    } else {
        match catalog(id) {
            Some(info) => match info.fallback {
                Some(f) => f,
                None => 0,
            },
            None => 0,
        }
    }
}

/// Replaces a custom block id by its fallback, or by air if it has none.
pub fn classic_block(id: u8) -> (r: u8)
    ensures
        r == classic_view(id),
        r <= MAX_CLASSIC_ID,
{
    if id <= MAX_CLASSIC_ID {
        id
    } else {
        match block_info(id) {
            Some(info) => match info.fallback {
                Some(f) => f,
                None => 0,
            },
            None => 0,
        }
    }
}

/// Every catalogued block has the permissions of the catalog's spec functions.
pub proof fn lemma_catalog_perms(id: u8)
    ensures
        catalog(id) matches Some(info) ==> info.place_permissions == place_perm_of(id)
            && info.break_permissions == break_perm_of(id),
{
}

/// Whether a player of level `p` may replace `old_id` by `new_id`.
pub open spec fn may_replace(p: PlayerType, old_id: u8, new_id: u8) -> bool {
    &&& catalog(new_id) is Some
    &&& rank(p) >= rank(place_perm_of(new_id))
    &&& rank(p) >= rank(break_perm_of(old_id))
}

} // verus!
