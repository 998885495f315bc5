use vstd::prelude::*;
use crate::entity::EntityType;
use crate::geometry::Size;
use crate::random::random_between;

verus! {

/// The kinds of collectible; touching one applies its effect to the player.
#[derive(Clone, Copy, Debug, PartialEq, Eq, Hash, Structural)]
pub enum ItemType {
    /// Restores health.
    Portion,
    /// Raises the player's speed (its effect is not implemented yet).
    SpeedUp,
    /// Enlarges the player (its effect is not implemented yet).
    Big,
}

/// Marks a falling entity as a collectible of the given kind.
#[derive(Clone, Copy, Debug, PartialEq, Eq, Structural)]
pub struct Item(pub ItemType);

impl EntityType for ItemType {
    open spec fn variant_count() -> nat {
        3
    }

    open spec fn variant_of(roll: int) -> ItemType {
        if roll == 0 {
            ItemType::Portion
        } else if roll == 1 {
            ItemType::SpeedUp
        } else {
            ItemType::Big
        }
    }

    open spec fn speed_of(&self) -> int {
        match self {
            ItemType::Portion => 70,
            ItemType::SpeedUp => 100,
            ItemType::Big => 50,
        }
    }

    open spec fn scale_of(&self) -> Size {
        match self {
            ItemType::Portion => Size { w: 250, h: 250 },
            ItemType::SpeedUp => Size { w: 300, h: 300 },
            ItemType::Big => Size { w: 450, h: 450 },
        }
    }

    open spec fn sound_key_of(&self) -> Seq<char> {
        match self {
            ItemType::Portion => "recovery"@,
            ItemType::SpeedUp => "powerup"@,
            ItemType::Big => "big"@,
        }
    }

    /// `Big` has no image yet, so it is never spawned while its key is empty.
    open spec fn image_key_of(&self) -> Seq<char> {
        match self {
            ItemType::Portion => "portion"@,
            ItemType::SpeedUp => "powerup"@,
            ItemType::Big => ""@,
        }
    }

    fn speed(&self) -> (r: i64) {
        match self {
            ItemType::Portion => 70,
            ItemType::SpeedUp => 100,
            ItemType::Big => 50,
        }
    }

    fn scale(&self) -> (r: Size) {
        match self {
            ItemType::Portion => Size { w: 250, h: 250 },
            ItemType::SpeedUp => Size { w: 300, h: 300 },
            ItemType::Big => Size { w: 450, h: 450 },
        }
    }

    fn from_roll(roll: u64) -> (r: ItemType) {
        if roll == 0 {
            ItemType::Portion
        } else if roll == 1 {
            ItemType::SpeedUp
        } else {
            ItemType::Big
        }
    }

    fn random() -> (r: ItemType) {
        let roll = random_between(0, 2);
        ItemType::from_roll(roll)
    }

    fn sound_key(&self) -> (r: String) {
        match self {
            ItemType::Portion => "recovery".to_owned(),
            ItemType::SpeedUp => "powerup".to_owned(),
            ItemType::Big => "big".to_owned(),
        }
    }

    fn image_key(&self) -> (r: String) {
        match self {
            ItemType::Portion => "portion".to_owned(),
            ItemType::SpeedUp => "powerup".to_owned(),
            ItemType::Big => "".to_owned(),
        }
    }
}

/// Every collectible kind falls at a positive speed and has a collider of
/// positive width and height.
pub proof fn lemma_item_kinds_positive(k: ItemType)
    ensures
        k.speed_of() > 0,
        k.scale_of().w > 0,
        k.scale_of().h > 0,
{
}

} // verus!
