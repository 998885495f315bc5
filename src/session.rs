use vstd::prelude::*;
use crate::assets::AssetRegistry;
use crate::attack::{Attack, AttackType};
use crate::collision::{
    distinct_ids, hits, kinds_of, lemma_filter_distinct, lemma_removed_ids_gone, not_touching,
    reports, resolve_collisions, survivors, touching, Hit,
};
use crate::entity::{advance, EntityKind, EntityType, FallingEntity};
use crate::geometry::Point;
use crate::item::{Item, ItemType};
use crate::player::{
    after_hits, MoveInput, Player, PlayerDate, PLAYER_MOVE_LIMIT_LEFT, PLAYER_MOVE_LIMIT_RIGHT,
};
use crate::random::random_between;
use crate::spawn::{
    SpawnTimer, ATTACK_INTERVAL_MAX_MS, ATTACK_INTERVAL_MIN_MS, INITIAL_ATTACK_INTERVAL_MS,
    ITEM_INTERVAL_MS,
};

verus! {

/// Height at which new entities appear, at the top of the field.
pub const ENTITY_START_POSITION_Y: i64 = 3900;

/// Entities whose centre falls below this height have left the field.
pub const FIELD_BOTTOM_Y: i64 = -3600;

/// A fresh entity's place: somewhere across the player's range, at the top.
pub fn random_translation() -> (r: Point)
    ensures
        PLAYER_MOVE_LIMIT_LEFT <= r.x <= PLAYER_MOVE_LIMIT_RIGHT,
        r.y == ENTITY_START_POSITION_Y,
{
    let offset = random_between(0, (PLAYER_MOVE_LIMIT_RIGHT - PLAYER_MOVE_LIMIT_LEFT) as u64);
    Point { x: PLAYER_MOVE_LIMIT_LEFT + offset as i64, y: ENTITY_START_POSITION_Y }
}

/// The chance outcomes behind one hazard spawn: its kind, its horizontal
/// position, and the delay until the next one.
#[derive(Clone, Copy, Debug, PartialEq, Eq, Structural)]
pub struct AttackRoll {
    pub kind: AttackType,
    pub x: i64,
    pub next_interval_ms: u64,
}

impl AttackRoll {
    pub open spec fn valid(self) -> bool {
        &&& PLAYER_MOVE_LIMIT_LEFT <= self.x <= PLAYER_MOVE_LIMIT_RIGHT
        &&& ATTACK_INTERVAL_MIN_MS <= self.next_interval_ms <= ATTACK_INTERVAL_MAX_MS
    }

    /// Draws each outcome uniformly at random.
    pub fn draw() -> (r: AttackRoll)
        ensures
            r.valid(),
    {
        let kind = AttackType::random();
        let at = random_translation();
        let next_interval_ms = random_between(ATTACK_INTERVAL_MIN_MS, ATTACK_INTERVAL_MAX_MS);
        AttackRoll { kind, x: at.x, next_interval_ms }
    }
}

/// The chance outcomes behind one collectible spawn: its kind and its
/// horizontal position.
#[derive(Clone, Copy, Debug, PartialEq, Eq, Structural)]
pub struct ItemRoll {
    pub kind: ItemType,
    pub x: i64,
}

impl ItemRoll {
    pub open spec fn valid(self) -> bool {
        PLAYER_MOVE_LIMIT_LEFT <= self.x <= PLAYER_MOVE_LIMIT_RIGHT
    }

    /// Draws each outcome uniformly at random.
    pub fn draw() -> (r: ItemRoll)
        ensures
            r.valid(),
    {
        let kind = ItemType::random();
        let at = random_translation();
        ItemRoll { kind, x: at.x }
    }
}

/// Within the player's horizontal range and between the field's top and bottom.
pub open spec fn entity_wf(e: FallingEntity) -> bool {
    &&& PLAYER_MOVE_LIMIT_LEFT <= e.position.x <= PLAYER_MOVE_LIMIT_RIGHT
    &&& FIELD_BOTTOM_Y <= e.position.y <= ENTITY_START_POSITION_Y
}

pub open spec fn still_on_field() -> spec_fn(FallingEntity) -> bool {
    |e: FallingEntity| e.position.y >= FIELD_BOTTOM_Y
}

/// The entities that have not left the field at the bottom, in order.
pub open spec fn on_field(es: Seq<FallingEntity>) -> Seq<FallingEntity> {
    es.filter(still_on_field())
}

/// Every entity after one tick of descent, in order.
pub open spec fn all_fallen(es: Seq<FallingEntity>) -> Seq<FallingEntity> {
    es.map_values(|e: FallingEntity| e.fallen())
}

/// The hazard that `roll` spawns under `id`.
pub open spec fn attack_spawn(id: u64, roll: AttackRoll) -> FallingEntity {
    FallingEntity {
        id,
        kind: EntityKind::Attack(Attack(roll.kind)),
        position: Point { x: roll.x, y: ENTITY_START_POSITION_Y },
    }
}

/// The collectible that `roll` spawns under `id`.
pub open spec fn item_spawn(id: u64, roll: ItemRoll) -> FallingEntity {
    FallingEntity {
        id,
        kind: EntityKind::Item(Item(roll.kind)),
        position: Point { x: roll.x, y: ENTITY_START_POSITION_Y },
    }
}

/// One game session: the player, the active entities and the spawn timers.
pub struct Session {
    pub player: Player,
    pub data: PlayerDate,
    pub entities: Vec<FallingEntity>,
    pub attack_timer: SpawnTimer,
    pub item_timer: SpawnTimer,
    /// Id for the next entity spawned; every active entity's id is smaller.
    pub next_id: u64,
}

/// What one tick of the game produced.
pub struct TickReport {
    /// The collisions resolved, in order.
    pub hits: Vec<Hit>,
    /// The entities spawned, in order.
    pub spawned: Vec<FallingEntity>,
}

/// Sound in the field, with an id below `next_id`.
pub open spec fn entity_ok(e: FallingEntity, next_id: u64) -> bool {
    entity_wf(e) && e.id < next_id
}

pub open spec fn all_ok(es: Seq<FallingEntity>, next_id: u64) -> bool {
    forall|i: int| 0 <= i < es.len() ==> #[trigger] entity_ok(es[i], next_id)
}

/// Drops the entities that have left the field at the bottom.
pub fn retain_on_field(entities: &mut Vec<FallingEntity>)
    ensures
        final(entities)@ == on_field(old(entities)@),
{
    let ghost es = entities@;
    let mut kept: Vec<FallingEntity> = Vec::new();
    let n = entities.len();
    let mut i: usize = 0;
    while i < n
        invariant
            n == entities.len(),
            entities@ == es,
            0 <= i <= n,
            kept@ == on_field(es.take(i as int)),
        decreases n - i,
    {
        let e = entities[i];
        proof {
            reveal(Seq::filter);
            assert(es.take(i + 1).drop_last() =~= es.take(i as int));
        }
        if e.position.y >= FIELD_BOTTOM_Y {
            kept.push(e);
        }
        i = i + 1;
    }
    proof {
        assert(es.take(n as int) =~= es);
    }
    *entities = kept;
}

impl Session {
    /// The player and its health are valid, every entity is in the field with
    /// an id below `next_id`, and no two entities share an id.
    pub open spec fn wf(&self) -> bool {
        &&& self.player.wf()
        &&& self.data.wf()
        &&& all_ok(self.entities@, self.next_id)
        &&& distinct_ids(self.entities@)
    }

    /// A hazard falls due within `dt_ms`.
    pub open spec fn attack_fires(&self, dt_ms: u64) -> bool {
        self.attack_timer.fires(dt_ms)
    }

    /// A hazard falls due within `dt_ms` and its image was loaded.
    pub open spec fn spawns_attack(&self, dt_ms: u64, assets: AssetRegistry, roll: AttackRoll) -> bool {
        self.attack_fires(dt_ms) && assets.has_image_spec(roll.kind.image_key_of())
    }

    /// The hazard timer after `dt_ms`: when it fires it starts over with the
    /// interval that was drawn.
    pub open spec fn attack_timer_after(&self, dt_ms: u64, roll: AttackRoll) -> SpawnTimer {
        if self.attack_fires(dt_ms) {
            SpawnTimer { interval_ms: roll.next_interval_ms, elapsed_ms: 0 }
        } else {
            self.attack_timer.ticked(dt_ms)
        }
    }

    /// A collectible falls due within `dt_ms` and its image was loaded.
    pub open spec fn spawns_item(&self, dt_ms: u64, assets: AssetRegistry, roll: ItemRoll) -> bool {
        self.item_timer.fires(dt_ms) && assets.has_image_spec(roll.kind.image_key_of())
    }

    /// A session at its start: the player at the centre with full health, no
    /// entities, and both timers at zero.
    pub fn new() -> (r: Session)
        ensures
            r.wf(),
            r.player == Player::new_spec(),
            r.data.hp == crate::player::MAX_HP,
            r.data.condition@ == Seq::<crate::player::Condition>::empty(),
            r.entities@ == Seq::<FallingEntity>::empty(),
            r.attack_timer == (SpawnTimer { interval_ms: INITIAL_ATTACK_INTERVAL_MS, elapsed_ms: 0 }),
            r.item_timer == (SpawnTimer { interval_ms: ITEM_INTERVAL_MS, elapsed_ms: 0 }),
            r.next_id == 0,
    {
        Session {
            player: Player::new(),
            data: PlayerDate::new(),
            entities: Vec::new(),
            attack_timer: SpawnTimer::new(INITIAL_ATTACK_INTERVAL_MS),
            item_timer: SpawnTimer::new(ITEM_INTERVAL_MS),
            next_id: 0,
        }
    }

    /// Moves the player for the held directions.
    pub fn move_player(&mut self, input: MoveInput)
        requires
            old(self).wf(),
        ensures
            final(self).wf(),
            final(self).player == old(self).player.moved(input),
            final(self).data == old(self).data,
            final(self).entities == old(self).entities,
            final(self).attack_timer == old(self).attack_timer,
            final(self).item_timer == old(self).item_timer,
            final(self).next_id == old(self).next_id,
    {
        self.player.move_player(input);
    }

    /// Lowers every entity by its speed and drops those that left the field.
    pub fn advance_entities(&mut self)
        requires
            old(self).wf(),
        ensures
            final(self).wf(),
            final(self).entities@ == on_field(all_fallen(old(self).entities@)),
            final(self).player == old(self).player,
            final(self).data == old(self).data,
            final(self).attack_timer == old(self).attack_timer,
            final(self).item_timer == old(self).item_timer,
            final(self).next_id == old(self).next_id,
    {
        let ghost es = self.entities@;
        let ghost next = self.next_id;
        proof {
            assert forall|i: int| 0 <= i < es.len() implies #[trigger] es[i].can_fall() by {
                assert(entity_ok(es[i], next));
            }
        }
        advance(&mut self.entities);
        let ghost fallen = self.entities@;
        assert(fallen == all_fallen(es));
        retain_on_field(&mut self.entities);
        proof {
            broadcast use vstd::seq_lib::group_filter_ensures;

            assert(distinct_ids(fallen)) by {
                assert forall|i: int, j: int| 0 <= i < j < fallen.len() implies #[trigger] fallen[i].id
                    != #[trigger] fallen[j].id by {
                    assert(fallen[i].id == es[i].id && fallen[j].id == es[j].id);
                }
            }
            lemma_filter_distinct(fallen, still_on_field());
            let kept = self.entities@;
            assert forall|i: int| 0 <= i < kept.len() implies #[trigger] entity_ok(kept[i], next) by {
                assert(fallen.contains(kept[i]));
                let j = choose|j: int| 0 <= j < fallen.len() && fallen[j] == kept[i];
                assert(entity_ok(es[j], next));
                assert(still_on_field()(kept[i]));
            }
        }
    }

    /// Resolves every collision with the player: the touched entities are
    /// removed, their effects applied to health, and reported in order.
    pub fn resolve_collisions(&mut self, assets: &AssetRegistry) -> (r: Vec<Hit>)
        requires
            old(self).wf(),
        ensures
            final(self).wf(),
            final(self).entities@ == survivors(old(self).player, old(self).entities@),
            final(self).data.hp == after_hits(
                old(self).data.hp as int,
                kinds_of(hits(old(self).player, old(self).entities@)),
            ),
            final(self).data.condition == old(self).data.condition,
            r.len() == hits(old(self).player, old(self).entities@).len(),
            forall|i: int|
                0 <= i < r.len() ==> reports(
                    #[trigger] r[i],
                    hits(old(self).player, old(self).entities@)[i],
                    *assets,
                ),
            forall|i: int, j: int|
                0 <= i < r.len() && 0 <= j < final(self).entities.len() ==> #[trigger] r[i].id
                    != #[trigger] final(self).entities[j].id,
            forall|i: int| 0 <= i < r.len() ==> #[trigger] r[i].id < old(self).next_id,
            final(self).player == old(self).player,
            final(self).attack_timer == old(self).attack_timer,
            final(self).item_timer == old(self).item_timer,
            final(self).next_id == old(self).next_id,
    {
        let ghost es = self.entities@;
        let ghost next = self.next_id;
        let ghost p = self.player;
        proof {
            assert forall|i: int| 0 <= i < es.len() implies #[trigger] crate::collision::within_limits(es[i]) by {
                assert(entity_ok(es[i], next));
            }
        }
        let r = resolve_collisions(&self.player, &mut self.data, &mut self.entities, assets);
        proof {
            broadcast use vstd::seq_lib::group_filter_ensures;

            lemma_removed_ids_gone(p, es);
            lemma_filter_distinct(es, not_touching(p));
            let kept = self.entities@;
            assert forall|i: int| 0 <= i < kept.len() implies #[trigger] entity_ok(kept[i], next) by {
                assert(es.contains(kept[i]));
                let j = choose|j: int| 0 <= j < es.len() && es[j] == kept[i];
                assert(entity_ok(es[j], next));
            }
            assert forall|i: int, j: int| 0 <= i < r.len() && 0 <= j < kept.len() implies #[trigger] r[i].id
                != #[trigger] self.entities[j].id by {
                assert(r[i].id == hits(p, es)[i].id);
            }
            lemma_filter_distinct(es, touching(p));
            assert forall|i: int| 0 <= i < r.len() implies #[trigger] r[i].id < next by {
                assert(r[i].id == hits(p, es)[i].id);
                assert(es.contains(hits(p, es)[i]));
                let j = choose|j: int| 0 <= j < es.len() && es[j] == hits(p, es)[i];
                assert(entity_ok(es[j], next));
            }
        }
        r
    }

    /// Adds an entity of `kind` at the top of the field under the next id.
    fn spawn(&mut self, kind: EntityKind, x: i64) -> (r: FallingEntity)
        requires
            old(self).wf(),
            PLAYER_MOVE_LIMIT_LEFT <= x <= PLAYER_MOVE_LIMIT_RIGHT,
            old(self).next_id < u64::MAX,
        ensures
            final(self).wf(),
            r == (FallingEntity {
                id: old(self).next_id,
                kind,
                position: Point { x, y: ENTITY_START_POSITION_Y },
            }),
            final(self).entities@ == old(self).entities@.push(r),
            final(self).next_id == old(self).next_id + 1,
            final(self).player == old(self).player,
            final(self).data == old(self).data,
            final(self).attack_timer == old(self).attack_timer,
            final(self).item_timer == old(self).item_timer,
    {
        let e = FallingEntity::new(self.next_id, kind, Point { x, y: ENTITY_START_POSITION_Y });
        let ghost es = self.entities@;
        let ghost next = self.next_id;
        self.entities.push(e);
        self.next_id = self.next_id + 1;
        proof {
            let all = self.entities@;
            assert forall|i: int| 0 <= i < all.len() implies #[trigger] entity_ok(all[i], self.next_id) by {
                if i < es.len() {
                    assert(entity_ok(es[i], next));
                }
            }
            assert forall|i: int, j: int| 0 <= i < j < all.len() implies #[trigger] all[i].id
                != #[trigger] all[j].id by {
                assert(entity_ok(es[i], next));
                if j < es.len() {
                    assert(entity_ok(es[j], next));
                }
            }
        }
        e
    }

    /// Advances the hazard timer by `dt_ms`. When it fires, a hazard of the
    /// rolled kind and position is spawned if its image was loaded, and the
    /// timer starts over with the rolled interval either way.
    pub fn tick_attack_spawner(&mut self, dt_ms: u64, assets: &AssetRegistry, roll: AttackRoll) -> (r: Option<FallingEntity>)
        requires
            old(self).wf(),
            roll.valid(),
            old(self).next_id < u64::MAX,
        ensures
            final(self).wf(),
            final(self).attack_timer == old(self).attack_timer_after(dt_ms, roll),
            r == if old(self).spawns_attack(dt_ms, *assets, roll) {
                Some(attack_spawn(old(self).next_id, roll))
            } else {
                None::<FallingEntity>
            },
            final(self).entities@ == if old(self).spawns_attack(dt_ms, *assets, roll) {
                old(self).entities@.push(attack_spawn(old(self).next_id, roll))
            } else {
                old(self).entities@
            },
            final(self).next_id == if old(self).spawns_attack(dt_ms, *assets, roll) {
                old(self).next_id + 1
            } else {
                old(self).next_id as int
            },
            final(self).player == old(self).player,
            final(self).data == old(self).data,
            final(self).item_timer == old(self).item_timer,
    {
        if !self.attack_timer.tick(dt_ms) {
            return None;
        }
        let key = roll.kind.image_key();
        let spawned = if assets.has_image(&key) {
            Some(self.spawn(EntityKind::Attack(Attack(roll.kind)), roll.x))
        } else {
            None
        };
        self.attack_timer.set_interval(roll.next_interval_ms);
        spawned
    }

    /// Advances the collectible timer by `dt_ms`. When it fires, a collectible
    /// of the rolled kind and position is spawned if its image was loaded.
    pub fn tick_item_spawner(&mut self, dt_ms: u64, assets: &AssetRegistry, roll: ItemRoll) -> (r: Option<FallingEntity>)
        requires
            old(self).wf(),
            roll.valid(),
            old(self).next_id < u64::MAX,
        ensures
            final(self).wf(),
            final(self).item_timer == old(self).item_timer.ticked(dt_ms),
            r == if old(self).spawns_item(dt_ms, *assets, roll) {
                Some(item_spawn(old(self).next_id, roll))
            } else {
                None::<FallingEntity>
            },
            final(self).entities@ == if old(self).spawns_item(dt_ms, *assets, roll) {
                old(self).entities@.push(item_spawn(old(self).next_id, roll))
            } else {
                old(self).entities@
            },
            final(self).next_id == if old(self).spawns_item(dt_ms, *assets, roll) {
                old(self).next_id + 1
            } else {
                old(self).next_id as int
            },
            final(self).player == old(self).player,
            final(self).data == old(self).data,
            final(self).attack_timer == old(self).attack_timer,
    {
        if !self.item_timer.tick(dt_ms) {
            return None;
        }
        let key = roll.kind.image_key();
        if assets.has_image(&key) {
            Some(self.spawn(EntityKind::Item(Item(roll.kind)), roll.x))
        } else {
            None
        }
    }

    /// The entities after this tick's descent, before collisions.
    pub open spec fn fallen_entities(&self) -> Seq<FallingEntity> {
        on_field(all_fallen(self.entities@))
    }

    /// What one tick spawns, given which timers fire and whether the images
    /// were loaded: the hazard first, then the collectible, under fresh ids.
    pub open spec fn spawned_by_tick(
        &self,
        dt_ms: u64,
        assets: AssetRegistry,
        attack_roll: AttackRoll,
        item_roll: ItemRoll,
    ) -> Seq<FallingEntity> {
        let a = self.spawns_attack(dt_ms, assets, attack_roll);
        let first: Seq<FallingEntity> = if a {
            seq![attack_spawn(self.next_id, attack_roll)]
        } else {
            Seq::empty()
        };
        let item_id: u64 = if a {
            (self.next_id + 1) as u64
        } else {
            self.next_id
        };
        let second: Seq<FallingEntity> = if self.spawns_item(dt_ms, assets, item_roll) {
            seq![item_spawn(item_id, item_roll)]
        } else {
            Seq::empty()
        };
        first + second
    }

    /// One tick of the game, in a fixed order: the player moves, the entities
    /// fall, collisions are resolved against the new positions, and then the
    /// spawn timers advance, so a new entity is not tested in its first tick.
    pub fn step(
        &mut self,
        input: MoveInput,
        dt_ms: u64,
        assets: &AssetRegistry,
        attack_roll: AttackRoll,
        item_roll: ItemRoll,
    ) -> (r: TickReport)
        requires
            old(self).wf(),
            attack_roll.valid(),
            item_roll.valid(),
            old(self).next_id < u64::MAX - 1,
        ensures
            final(self).wf(),
            final(self).player == old(self).player.moved(input),
            final(self).data.hp == after_hits(
                old(self).data.hp as int,
                kinds_of(hits(old(self).player.moved(input), old(self).fallen_entities())),
            ),
            final(self).data.condition == old(self).data.condition,
            r.hits.len() == hits(old(self).player.moved(input), old(self).fallen_entities()).len(),
            forall|i: int|
                0 <= i < r.hits.len() ==> reports(
                    #[trigger] r.hits[i],
                    hits(old(self).player.moved(input), old(self).fallen_entities())[i],
                    *assets,
                ),
            r.spawned@ == old(self).spawned_by_tick(dt_ms, *assets, attack_roll, item_roll),
            final(self).entities@ == survivors(old(self).player.moved(input), old(self).fallen_entities())
                + r.spawned@,
            final(self).next_id == old(self).next_id + r.spawned.len(),
            forall|i: int| 0 <= i < r.hits.len() ==> #[trigger] r.hits[i].id < old(self).next_id,
            forall|i: int, j: int|
                0 <= i < r.hits.len() && 0 <= j < final(self).entities.len() ==> #[trigger] r.hits[i].id
                    != #[trigger] final(self).entities[j].id,
            final(self).attack_timer == old(self).attack_timer_after(dt_ms, attack_roll),
            final(self).item_timer == old(self).item_timer.ticked(dt_ms),
    {
        let ghost s0 = *self;
        self.move_player(input);
        self.advance_entities();
        let hits = self.resolve_collisions(assets);
        let ghost kept = self.entities@;
        let mut spawned: Vec<FallingEntity> = Vec::new();
        let a = self.tick_attack_spawner(dt_ms, assets, attack_roll);
        if let Some(e) = a {
            spawned.push(e);
        }
        let b = self.tick_item_spawner(dt_ms, assets, item_roll);
        if let Some(e) = b {
            spawned.push(e);
        }
        proof {
            assert(spawned@ =~= s0.spawned_by_tick(dt_ms, *assets, attack_roll, item_roll));
            assert(self.entities@ =~= kept + spawned@);
            assert forall|i: int, j: int|
                0 <= i < hits.len() && 0 <= j < self.entities.len() implies #[trigger] hits[i].id
                    != #[trigger] self.entities[j].id by {
                if j >= kept.len() {
                    assert(self.entities[j] == spawned@[j - kept.len()]);
                } else {
                    assert(self.entities[j] == kept[j]);
                }
            }
        }
        TickReport { hits, spawned }
    }
}

} // verus!
