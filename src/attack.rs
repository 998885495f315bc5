use vstd::prelude::*;
use crate::entity::EntityType;
use crate::geometry::Size;
use crate::random::random_between;

verus! {

/// The kinds of hazard; touching one costs the player health.
#[derive(Clone, Copy, Debug, PartialEq, Eq, Hash, Structural)]
pub enum AttackType {
    Normal,
    First,
}

/// Marks a falling entity as a hazard of the given kind.
#[derive(Clone, Copy, Debug, PartialEq, Eq, Structural)]
pub struct Attack(pub AttackType);

impl EntityType for AttackType {
    open spec fn variant_count() -> nat {
        2
    }

    open spec fn variant_of(roll: int) -> AttackType {
        if roll == 0 {
            AttackType::Normal
        } else {
            AttackType::First
        }
    }

    open spec fn speed_of(&self) -> int {
        match self {
            AttackType::Normal => 70,
            AttackType::First => 100,
        }
    }

    open spec fn scale_of(&self) -> Size {
        match self {
            AttackType::Normal => Size { w: 250, h: 250 },
            AttackType::First => Size { w: 300, h: 300 },
        }
    }

    open spec fn sound_key_of(&self) -> Seq<char> {
        match self {
            AttackType::Normal => "normal"@,
            AttackType::First => "first"@,
        }
    }

    open spec fn image_key_of(&self) -> Seq<char> {
        match self {
            AttackType::Normal => "normal"@,
            AttackType::First => "first"@,
        }
    }

    fn speed(&self) -> (r: i64) {
        match self {
            AttackType::Normal => 70,
            AttackType::First => 100,
        }
    }

    fn scale(&self) -> (r: Size) {
        match self {
            AttackType::Normal => Size { w: 250, h: 250 },
            AttackType::First => Size { w: 300, h: 300 },
        }
    }

    fn from_roll(roll: u64) -> (r: AttackType) {
        if roll == 0 {
            AttackType::Normal
        } else {
            AttackType::First
        }
    }

    fn random() -> (r: AttackType) {
        let roll = random_between(0, 1);
        AttackType::from_roll(roll)
    }

    fn sound_key(&self) -> (r: String) {
        match self {
            AttackType::Normal => "normal".to_owned(),
            AttackType::First => "first".to_owned(),
        }
    }

    fn image_key(&self) -> (r: String) {
        match self {
            AttackType::Normal => "normal".to_owned(),
            AttackType::First => "first".to_owned(),
        }
    }
}

/// Every hazard kind falls at a positive speed and has a collider of
/// positive width and height.
pub proof fn lemma_attack_kinds_positive(k: AttackType)
    ensures
        k.speed_of() > 0,
        k.scale_of().w > 0,
        k.scale_of().h > 0,
{
}

} // verus!
