use vstd::prelude::*;
use crate::entity::EntityKind;
use crate::geometry::{Point, Size};
use crate::item::{Item, ItemType};

verus! {

/// Leftmost horizontal position the player can reach.
pub const PLAYER_MOVE_LIMIT_LEFT: i64 = -3750;

/// Rightmost horizontal position the player can reach.
pub const PLAYER_MOVE_LIMIT_RIGHT: i64 = 3750;

/// Horizontal distance the player moves per tick while a direction is held.
pub const PLAYER_SPEED: i64 = 75;

/// Height of the line the player moves along.
pub const INITIAL_PLAYER_Y: i64 = -3000;

/// Side length of the player's square collider.
pub const PLAYER_SIDE: i64 = 400;

/// Health at the start of a session, and its ceiling.
pub const MAX_HP: i32 = 100;

/// Health lost on touching a hazard, and restored by a potion.
pub const HP_STEP: i32 = 10;

/// The directions held during one tick.
#[derive(Clone, Copy, Debug, PartialEq, Eq, Structural)]
pub struct MoveInput {
    pub right: bool,
    pub left: bool,
}

/// The player's avatar: where it stands on the bottom line of the field.
#[derive(Clone, Copy, Debug, PartialEq, Eq, Structural)]
pub struct Player {
    pub position: Point,
}

pub open spec fn clamp_x(x: int) -> int {
    if x < PLAYER_MOVE_LIMIT_LEFT {
        PLAYER_MOVE_LIMIT_LEFT as int
    } else if x > PLAYER_MOVE_LIMIT_RIGHT {
        PLAYER_MOVE_LIMIT_RIGHT as int
    } else {
        x
    }
}

impl Player {
    /// On the bottom line and within the horizontal limits.
    pub open spec fn wf(self) -> bool {
        &&& PLAYER_MOVE_LIMIT_LEFT <= self.position.x <= PLAYER_MOVE_LIMIT_RIGHT
        &&& self.position.y == INITIAL_PLAYER_Y
    }

    /// Each held direction contributes one step and the sum is clamped to the
    /// limits, so holding both directions leaves the player in place.
    pub open spec fn moved(self, input: MoveInput) -> Player {
        let dx: int = (if input.right { PLAYER_SPEED as int } else { 0 }) - (if input.left {
            PLAYER_SPEED as int
        } else {
            0
        });
        Player { position: Point { x: clamp_x(self.position.x + dx) as i64, y: self.position.y } }
    }

    /// The player after one tick for each input, in order.
    pub open spec fn moved_all(self, inputs: Seq<MoveInput>) -> Player
        decreases inputs.len(),
    {
        if inputs.len() == 0 {
            self
        } else {
            self.moved_all(inputs.drop_last()).moved(inputs.last())
        }
    }

    pub open spec fn collider(self) -> Size {
        Size { w: PLAYER_SIDE, h: PLAYER_SIDE }
    }

    pub open spec fn new_spec() -> Player {
        Player { position: Point { x: 0, y: INITIAL_PLAYER_Y } }
    }

    /// The player at the centre of the bottom line.
    pub fn new() -> (r: Player)
        ensures
            r.wf(),
            r == Player::new_spec(),
    {
        Player { position: Point { x: 0, y: INITIAL_PLAYER_Y } }
    }

    /// The player on the bottom line at horizontal position `x`.
    pub fn at(x: i64) -> (r: Player)
        requires
            PLAYER_MOVE_LIMIT_LEFT <= x <= PLAYER_MOVE_LIMIT_RIGHT,
        ensures
            r.wf(),
            r.position == (Point { x, y: INITIAL_PLAYER_Y }),
    {
        Player { position: Point { x, y: INITIAL_PLAYER_Y } }
    }

    pub fn collider_size(&self) -> (r: Size)
        ensures
            r == self.collider(),
    {
        Size { w: PLAYER_SIDE, h: PLAYER_SIDE }
    }

    /// Moves the player one step for each held direction, within the limits.
    pub fn move_player(&mut self, input: MoveInput)
        requires
            old(self).wf(),
        ensures
            *final(self) == old(self).moved(input),
            final(self).wf(),
    {
        let mut x = self.position.x;
        if input.right {
            x = x + PLAYER_SPEED;
        }
        if input.left {
            x = x - PLAYER_SPEED;
        }
        if x < PLAYER_MOVE_LIMIT_LEFT {
            x = PLAYER_MOVE_LIMIT_LEFT;
        } else if x > PLAYER_MOVE_LIMIT_RIGHT {
            x = PLAYER_MOVE_LIMIT_RIGHT;
        }
        self.position.x = x;
    }
}

/// Whatever the inputs, the player stays within the horizontal limits.
pub proof fn lemma_moves_stay_in_bounds(p: Player, inputs: Seq<MoveInput>)
    requires
        p.wf(),
    ensures
        p.moved_all(inputs).wf(),
    decreases inputs.len(),
{
    if inputs.len() > 0 {
        lemma_moves_stay_in_bounds(p, inputs.drop_last());
    }
}

/// A lasting state of the player.
#[derive(Clone, Copy, Debug, PartialEq, Eq, Default, Structural)]
pub enum Condition {
    #[default]
    Normal,
}

/// The player's health and conditions.
#[derive(Debug)]
pub struct PlayerDate {
    pub hp: i32,
    pub condition: Vec<Condition>,
}

/// Health after touching a hazard: ten less, never below zero.
pub open spec fn damaged(hp: int) -> int {
    if hp - HP_STEP < 0 {
        0
    } else {
        hp - HP_STEP
    }
}

/// Health after a potion: ten more, never above the ceiling.
pub open spec fn healed(hp: int) -> int {
    if hp + HP_STEP > MAX_HP {
        MAX_HP as int
    } else {
        hp + HP_STEP
    }
}

/// Health after touching an entity of kind `k`; the speed-up and enlarging
/// items leave health as it is.
pub open spec fn hit_effect(hp: int, k: EntityKind) -> int {
    match k {
        EntityKind::Attack(_) => damaged(hp),
        EntityKind::Item(Item(ItemType::Portion)) => healed(hp),
        EntityKind::Item(_) => hp,
    }
}

/// Health after touching the given kinds, in order.
pub open spec fn after_hits(hp: int, kinds: Seq<EntityKind>) -> int
    decreases kinds.len(),
{
    if kinds.len() == 0 {
        hp
    } else {
        hit_effect(after_hits(hp, kinds.drop_last()), kinds.last())
    }
}

pub open spec fn hp_in_range(hp: int) -> bool {
    0 <= hp <= MAX_HP
}

impl PlayerDate {
    pub open spec fn wf(&self) -> bool {
        hp_in_range(self.hp as int)
    }

    /// Full health and no conditions.
    pub fn new() -> (r: PlayerDate)
        ensures
            r.hp == MAX_HP,
            r.condition@ == Seq::<Condition>::empty(),
            r.wf(),
    {
        PlayerDate { hp: MAX_HP, condition: Vec::new() }
    }

    /// Loses ten health, down to zero.
    pub fn take_damage(&mut self)
        requires
            old(self).wf(),
        ensures
            final(self).hp == damaged(old(self).hp as int),
            final(self).condition == old(self).condition,
            final(self).wf(),
    {
        if self.hp < HP_STEP {
            self.hp = 0;
        } else {
            self.hp = self.hp - HP_STEP;
        }
    }

    /// Gains ten health, up to the ceiling.
    pub fn heal(&mut self)
        requires
            old(self).wf(),
        ensures
            final(self).hp == healed(old(self).hp as int),
            final(self).condition == old(self).condition,
            final(self).wf(),
    {
        if self.hp > MAX_HP - HP_STEP {
            self.hp = MAX_HP;
        } else {
            self.hp = self.hp + HP_STEP;
        }
    }

    /// Applies the effect of touching an entity of kind `k`.
    pub fn apply_hit(&mut self, k: EntityKind)
        requires
            old(self).wf(),
        ensures
            final(self).hp == hit_effect(old(self).hp as int, k),
            final(self).condition == old(self).condition,
            final(self).wf(),
    {
        match k {
            EntityKind::Attack(_) => self.take_damage(),
            EntityKind::Item(Item(ItemType::Portion)) => self.heal(),
            EntityKind::Item(_) => {},
        }
    }
}

impl Default for PlayerDate {
    fn default() -> (r: PlayerDate)
        ensures
            r.hp == MAX_HP,
            r.condition@ == Seq::<Condition>::empty(),
    {
        PlayerDate::new()
    }
}

/// Whatever entities the player touches, health stays between zero and the
/// ceiling.
pub proof fn lemma_health_in_range(hp: int, kinds: Seq<EntityKind>)
    requires
        hp_in_range(hp),
    ensures
        hp_in_range(after_hits(hp, kinds)),
    decreases kinds.len(),
{
    if kinds.len() > 0 {
        lemma_health_in_range(hp, kinds.drop_last());
    }
}

} // verus!
