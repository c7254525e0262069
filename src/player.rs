use vstd::prelude::*;

verus! {

/// The permission levels of players, from least to most trusted.
#[derive(Debug, Clone, Copy, PartialEq, Eq, Structural)]
pub enum PlayerType {
    /// a normal player
    Normal,
    /// a moderator of the server
    Moderator,
    /// an operator of the server
    Operator,
}

/// The position of a permission level in the order `Normal < Moderator < Operator`.
pub open spec fn rank(p: PlayerType) -> nat {
    match p {
        PlayerType::Normal => 0,
        PlayerType::Moderator => 1,
        PlayerType::Operator => 2,
    }
}

impl PlayerType {
    /// The position of this level in the permission order.
    pub fn rank(&self) -> (r: u8)
        ensures
            r as nat == rank(*self),
    {
        match self {
            PlayerType::Normal => 0,
            PlayerType::Moderator => 1,
            PlayerType::Operator => 2,
        }
    }

    /// Whether a player of this level holds the `required` level.
    pub fn allows(&self, required: PlayerType) -> (r: bool)
        ensures
            r == (rank(*self) >= rank(required)),
    {
        self.rank() >= required.rank()
    }

    /// The byte that the protocol sends for this level: operators and moderators both get 0x64.
    pub fn to_byte(&self) -> (r: u8)
        ensures
            r == (if *self == PlayerType::Normal { 0u8 } else { 0x64u8 }),
    {
        match self {
            PlayerType::Normal => 0,
            _ => 0x64,
        }
    }

    /// The level that a fresh player gets.
    pub fn default_type() -> (r: PlayerType)
        ensures
            r == PlayerType::Normal,
    {
        PlayerType::Normal
    }
}

impl Default for PlayerType {
    fn default() -> (r: PlayerType)
        ensures
            r == PlayerType::Normal,
    {
        PlayerType::Normal
    }
}

/// Permission levels are totally ordered: each level allows exactly the levels at or below it,
/// so `Operator` allows everything, `Moderator` allows all but `Operator`, and `Normal` only itself.
pub proof fn lemma_permission_order(a: PlayerType, b: PlayerType)
    ensures
        rank(PlayerType::Normal) < rank(PlayerType::Moderator) < rank(PlayerType::Operator),
        rank(a) >= rank(b) || rank(b) >= rank(a),
        rank(a) == rank(b) <==> a == b,
        rank(PlayerType::Operator) >= rank(b),
        rank(a) >= rank(PlayerType::Normal),
        rank(PlayerType::Moderator) >= rank(b) <==> b != PlayerType::Operator,
        rank(PlayerType::Normal) >= rank(b) <==> b == PlayerType::Normal,
{
}

} // verus!
