use vstd::prelude::*;
use crate::attack::Attack;
use crate::geometry::{Point, Size};
use crate::item::Item;

verus! {

/// Marker for the records that make up one spawned falling entity.
pub trait EntityBundle {}

/// What every kind of falling entity defines: its descent speed, its collider
/// size, the keys of its sound and image, and a uniform random draw.
pub trait EntityType: Sized {
    /// Number of kinds a draw chooses among.
    spec fn variant_count() -> nat;

    /// The kind that a draw of `roll` (below `variant_count`) selects.
    spec fn variant_of(roll: int) -> Self;

    /// Distance descended per tick, in tenths of a pixel.
    spec fn speed_of(&self) -> int;

    spec fn scale_of(&self) -> Size;

    spec fn sound_key_of(&self) -> Seq<char>;

    spec fn image_key_of(&self) -> Seq<char>;

    fn speed(&self) -> (r: i64)
        ensures
            r == self.speed_of(),
    ;

    fn scale(&self) -> (r: Size)
        ensures
            r == self.scale_of(),
    ;

    /// The kind selected by `roll`.
    fn from_roll(roll: u64) -> (r: Self)
        requires
            roll < Self::variant_count(),
        ensures
            r == Self::variant_of(roll as int),
    ;

    /// A kind drawn uniformly at random.
    fn random() -> (r: Self)
        ensures
            exists|i: int| 0 <= i < Self::variant_count() && r == Self::variant_of(i),
    ;

    fn sound_key(&self) -> (r: String)
        ensures
            r@ == self.sound_key_of(),
    ;

    fn image_key(&self) -> (r: String)
        ensures
            r@ == self.image_key_of(),
    ;
}

} // verus!

verus! {

/// What a falling entity is: a hazard or a collectible, with its kind.
#[derive(Clone, Copy, Debug, PartialEq, Eq, Structural)]
pub enum EntityKind {
    Attack(Attack),
    Item(Item),
}

impl EntityKind {
    pub open spec fn speed_of(self) -> int {
        match self {
            EntityKind::Attack(Attack(k)) => k.speed_of(),
            EntityKind::Item(Item(k)) => k.speed_of(),
        }
    }

    pub open spec fn scale_of(self) -> Size {
        match self {
            EntityKind::Attack(Attack(k)) => k.scale_of(),
            EntityKind::Item(Item(k)) => k.scale_of(),
        }
    }

    pub open spec fn sound_key_of(self) -> Seq<char> {
        match self {
            EntityKind::Attack(Attack(k)) => k.sound_key_of(),
            EntityKind::Item(Item(k)) => k.sound_key_of(),
        }
    }

    pub open spec fn image_key_of(self) -> Seq<char> {
        match self {
            EntityKind::Attack(Attack(k)) => k.image_key_of(),
            EntityKind::Item(Item(k)) => k.image_key_of(),
        }
    }

    pub fn speed(&self) -> (r: i64)
        ensures
            r == self.speed_of(),
    {
        match self {
            EntityKind::Attack(Attack(k)) => k.speed(),
            EntityKind::Item(Item(k)) => k.speed(),
        }
    }

    pub fn scale(&self) -> (r: Size)
        ensures
            r == self.scale_of(),
    {
        match self {
            EntityKind::Attack(Attack(k)) => k.scale(),
            EntityKind::Item(Item(k)) => k.scale(),
        }
    }

    pub fn sound_key(&self) -> (r: String)
        ensures
            r@ == self.sound_key_of(),
    {
        match self {
            EntityKind::Attack(Attack(k)) => k.sound_key(),
            EntityKind::Item(Item(k)) => k.sound_key(),
        }
    }

    pub fn image_key(&self) -> (r: String)
        ensures
            r@ == self.image_key_of(),
    {
        match self {
            EntityKind::Attack(Attack(k)) => k.image_key(),
            EntityKind::Item(Item(k)) => k.image_key(),
        }
    }
}

/// A hazard or collectible in the play-field, identified by `id`.
#[derive(Clone, Copy, Debug, PartialEq, Eq, Structural)]
pub struct FallingEntity {
    pub id: u64,
    pub kind: EntityKind,
    pub position: Point,
}

impl EntityBundle for FallingEntity {}

impl FallingEntity {
    /// An entity placed at `position`, before any tick has moved it.
    pub fn new(id: u64, kind: EntityKind, position: Point) -> (r: FallingEntity)
        ensures
            r == (FallingEntity { id, kind, position }),
    {
        FallingEntity { id, kind, position }
    }

    /// The entity's collider, sized by its kind.
    pub open spec fn collider(self) -> Size {
        self.kind.scale_of()
    }

    /// One more tick of descent stays representable.
    pub open spec fn can_fall(self) -> bool {
        self.position.y - self.kind.speed_of() >= i64::MIN
    }

    /// The entity after one tick: lowered by its kind's speed.
    pub open spec fn fallen(self) -> FallingEntity {
        FallingEntity {
            position: Point { x: self.position.x, y: (self.position.y - self.kind.speed_of()) as i64 },
            ..self
        }
    }

    /// The entity after `n` ticks of descent.
    pub open spec fn fallen_by(self, n: nat) -> FallingEntity
        decreases n,
    {
        if n == 0 {
            self
        } else {
            self.fallen_by((n - 1) as nat).fallen()
        }
    }

    pub fn collider_size(&self) -> (r: Size)
        ensures
            r == self.collider(),
    {
        self.kind.scale()
    }

    /// Lowers the entity by its kind's speed.
    pub fn fall(&mut self)
        requires
            old(self).can_fall(),
        ensures
            *final(self) == old(self).fallen(),
    {
        let s = self.kind.speed();
        self.position.y = self.position.y - s;
    }
}

/// Moves every entity down by one tick of its kind's speed.
pub fn advance(entities: &mut Vec<FallingEntity>)
    requires
        forall|i: int| 0 <= i < old(entities).len() ==> #[trigger] old(entities)[i].can_fall(),
    ensures
        final(entities)@ == old(entities)@.map_values(|e: FallingEntity| e.fallen()),
{
    let n = entities.len();
    let mut i: usize = 0;
    while i < n
        invariant
            n == entities.len(),
            old(entities).len() == n,
            0 <= i <= n,
            forall|j: int| 0 <= j < i ==> #[trigger] entities[j] == old(entities)[j].fallen(),
            forall|j: int| i <= j < n ==> #[trigger] entities[j] == old(entities)[j],
            forall|j: int| 0 <= j < n ==> #[trigger] old(entities)[j].can_fall(),
        decreases n - i,
    {
        let mut e = entities[i];
        e.fall();
        entities.set(i, e);
        i = i + 1;
    }
    assert(entities@ =~= old(entities)@.map_values(|e: FallingEntity| e.fallen()));
}

/// Descent is linear: after `n` ticks an entity that started at `y` sits at
/// `y - n * speed`, its horizontal position unchanged.
pub proof fn lemma_descent(e: FallingEntity, n: nat)
    requires
        e.position.y - n * e.kind.speed_of() >= i64::MIN,
    ensures
        e.fallen_by(n).position.y == e.position.y - n * e.kind.speed_of(),
        e.fallen_by(n).position.x == e.position.x,
        e.fallen_by(n).kind == e.kind,
        e.fallen_by(n).id == e.id,
    decreases n,
{
    if n > 0 {
        assert(e.kind.speed_of() > 0);
        assert(e.position.y - (n - 1) * e.kind.speed_of() >= i64::MIN) by (nonlinear_arith)
            requires
                e.position.y - n * e.kind.speed_of() >= i64::MIN,
                e.kind.speed_of() > 0,
                n > 0,
        ;
        lemma_descent(e, (n - 1) as nat);
        let s = e.kind.speed_of();
        let prev = e.fallen_by((n - 1) as nat);
        assert((n - 1) * s + s == n * s) by (nonlinear_arith);
        assert(prev.position.y - s == e.position.y - n * s);
        assert(e.fallen_by(n) == prev.fallen());
        assert(i64::MIN <= prev.position.y - s <= i64::MAX);
        assert(prev.fallen().position.y == prev.position.y - s);
    } else {
        assert(n * e.kind.speed_of() == 0);
    }
}

} // verus!
