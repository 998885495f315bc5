use vstd::prelude::*;
use vstd::multiset::Multiset;
use crate::assets::AssetRegistry;
use crate::attack::{Attack, AttackType};
use crate::entity::{EntityKind, FallingEntity};
use crate::geometry::{boxes_overlap, collide, in_limit};
use crate::item::{Item, ItemType};
use crate::player::{after_hits, hp_in_range, Player, PlayerDate, HP_STEP, MAX_HP};

verus! {

/// What touching an entity does to the player.
#[derive(Clone, Copy, Debug, PartialEq, Eq, Structural)]
pub enum Effect {
    DamagePlayer(AttackType),
    ApplyItem(ItemType),
}

/// One resolved collision: the entity removed, its effect, and the key of the
/// sound to play once, where that sound was loaded.
#[derive(Debug)]
pub struct Hit {
    pub id: u64,
    pub effect: Effect,
    pub sound: Option<String>,
}

pub open spec fn effect_of(k: EntityKind) -> Effect {
    match k {
        EntityKind::Attack(Attack(a)) => Effect::DamagePlayer(a),
        EntityKind::Item(Item(i)) => Effect::ApplyItem(i),
    }
}

/// The player's collider overlaps the entity's.
pub open spec fn touches(p: Player, e: FallingEntity) -> bool {
    boxes_overlap(p.position, p.collider(), e.position, e.collider())
}

pub open spec fn touching(p: Player) -> spec_fn(FallingEntity) -> bool {
    |e: FallingEntity| touches(p, e)
}

pub open spec fn not_touching(p: Player) -> spec_fn(FallingEntity) -> bool {
    |e: FallingEntity| !touches(p, e)
}

/// The entities that touch the player, in order.
pub open spec fn hits(p: Player, es: Seq<FallingEntity>) -> Seq<FallingEntity> {
    es.filter(touching(p))
}

/// The entities that do not touch the player, in order.
pub open spec fn survivors(p: Player, es: Seq<FallingEntity>) -> Seq<FallingEntity> {
    es.filter(not_touching(p))
}

pub open spec fn kinds_of(es: Seq<FallingEntity>) -> Seq<EntityKind> {
    es.map_values(|e: FallingEntity| e.kind)
}

/// Coordinates small enough for the collision test.
pub open spec fn within_limits(e: FallingEntity) -> bool {
    in_limit(e.position.x as int) && in_limit(e.position.y as int)
}

/// `h` reports the collision with `e`.
pub open spec fn reports(h: Hit, e: FallingEntity, assets: AssetRegistry) -> bool {
    &&& h.id == e.id
    &&& h.effect == effect_of(e.kind)
    &&& match h.sound {
        Some(s) => assets.has_sound_spec(e.kind.sound_key_of()) && s@ == e.kind.sound_key_of(),
        None => !assets.has_sound_spec(e.kind.sound_key_of()),
    }
}

fn effect_for(k: EntityKind) -> (r: Effect)
    ensures
        r == effect_of(k),
{
    match k {
        EntityKind::Attack(Attack(a)) => Effect::DamagePlayer(a),
        EntityKind::Item(Item(i)) => Effect::ApplyItem(i),
    }
}

proof fn lemma_resolve_step(p: Player, s: Seq<FallingEntity>, i: int)
    requires
        0 <= i < s.len(),
    ensures
        hits(p, s.take(i + 1)) == (if touches(p, s[i]) {
            hits(p, s.take(i)).push(s[i])
        } else {
            hits(p, s.take(i))
        }),
        survivors(p, s.take(i + 1)) == (if touches(p, s[i]) {
            survivors(p, s.take(i))
        } else {
            survivors(p, s.take(i)).push(s[i])
        }),
{
    reveal(Seq::filter);
    assert(s.take(i + 1).drop_last() =~= s.take(i));
    assert(s.take(i + 1).last() == s[i]);
}

/// Tests every entity against the player. Each one touched is removed, its
/// effect is applied to the player's health, and it is reported, in order.
pub fn resolve_collisions(
    player: &Player,
    data: &mut PlayerDate,
    entities: &mut Vec<FallingEntity>,
    assets: &AssetRegistry,
) -> (r: Vec<Hit>)
    requires
        player.wf(),
        old(data).wf(),
        forall|i: int| 0 <= i < old(entities).len() ==> #[trigger] within_limits(old(entities)[i]),
    ensures
        final(entities)@ == survivors(*player, old(entities)@),
        final(data).hp == after_hits(old(data).hp as int, kinds_of(hits(*player, old(entities)@))),
        final(data).condition == old(data).condition,
        final(data).wf(),
        r.len() == hits(*player, old(entities)@).len(),
        forall|i: int| 0 <= i < r.len() ==> reports(#[trigger] r[i], hits(*player, old(entities)@)[i], *assets),
{
    let ghost es = entities@;
    let ghost hp0 = data.hp as int;
    let mut kept: Vec<FallingEntity> = Vec::new();
    let mut out: Vec<Hit> = Vec::new();
    let n = entities.len();
    let psize = player.collider_size();
    let mut i: usize = 0;
    while i < n
        invariant
            n == entities.len(),
            entities@ == es,
            0 <= i <= n,
            player.wf(),
            data.wf(),
            data.condition == old(data).condition,
            psize == player.collider(),
            forall|j: int| 0 <= j < n ==> #[trigger] within_limits(es[j]),
            kept@ == survivors(*player, es.take(i as int)),
            data.hp == after_hits(hp0, kinds_of(hits(*player, es.take(i as int)))),
            out.len() == hits(*player, es.take(i as int)).len(),
            forall|j: int| 0 <= j < out.len() ==> reports(#[trigger] out[j], hits(*player, es.take(i as int))[j], *assets),
        decreases n - i,
    {
        let e = entities[i];
        proof {
            lemma_resolve_step(*player, es, i as int);
            assert(within_limits(es[i as int]));
        }
        let esize = e.collider_size();
        if collide(player.position, psize, e.position, esize) {
            let ghost before = hits(*player, es.take(i as int));
            let key = e.kind.sound_key();
            let sound = if assets.has_sound(&key) {
                Some(key)
            } else {
                None
            };
            data.apply_hit(e.kind);
            out.push(Hit { id: e.id, effect: effect_for(e.kind), sound });
            proof {
                assert(kinds_of(before.push(e)).drop_last() =~= kinds_of(before));
            }
        } else {
            kept.push(e);
        }
        i = i + 1;
    }
    proof {
        assert(es.take(n as int) =~= es);
    }
    *entities = kept;
    out
}

pub open spec fn is_attack() -> spec_fn(FallingEntity) -> bool {
    |e: FallingEntity| e.kind is Attack
}

pub open spec fn is_potion() -> spec_fn(FallingEntity) -> bool {
    |e: FallingEntity| e.kind == EntityKind::Item(Item(ItemType::Portion))
}

/// The hazards among `es`.
pub open spec fn attacks(es: Seq<FallingEntity>) -> Seq<FallingEntity> {
    es.filter(is_attack())
}

/// The health potions among `es`.
pub open spec fn potions(es: Seq<FallingEntity>) -> Seq<FallingEntity> {
    es.filter(is_potion())
}

proof fn lemma_filter_counts(s: Seq<FallingEntity>, f: spec_fn(FallingEntity) -> bool)
    ensures
        forall|x: FallingEntity|
            #[trigger] s.filter(f).to_multiset().count(x) == if f(x) {
                s.to_multiset().count(x)
            } else {
                0
            },
    decreases s.len(),
{
    broadcast use vstd::seq_lib::group_to_multiset_ensures;

    reveal(Seq::filter);
    if s.len() > 0 {
        let t = s.drop_last();
        let l = s.last();
        lemma_filter_counts(t, f);
        assert(s =~= t.push(l));
        assert(s.to_multiset() =~= t.to_multiset().insert(l));
        if f(l) {
            assert(s.filter(f) == t.filter(f).push(l));
            assert(s.filter(f).to_multiset() =~= t.filter(f).to_multiset().insert(l));
        } else {
            assert(s.filter(f) == t.filter(f));
        }
    } else {
        assert(s.filter(f) =~= s);
        assert(s =~= Seq::<FallingEntity>::empty());
        assert(s.to_multiset() =~= Multiset::<FallingEntity>::empty());
    }
}

proof fn lemma_filter_same_multiset(s1: Seq<FallingEntity>, s2: Seq<FallingEntity>, f: spec_fn(FallingEntity) -> bool)
    requires
        s1.to_multiset() == s2.to_multiset(),
    ensures
        s1.filter(f).to_multiset() == s2.filter(f).to_multiset(),
        s1.filter(f).len() == s2.filter(f).len(),
{
    broadcast use vstd::seq_lib::group_to_multiset_ensures;

    lemma_filter_counts(s1, f);
    lemma_filter_counts(s2, f);
    assert(s1.filter(f).to_multiset() =~= s2.filter(f).to_multiset());
    assert(s1.filter(f).len() == s1.filter(f).to_multiset().len());
    assert(s2.filter(f).len() == s2.filter(f).to_multiset().len());
}

proof fn lemma_filter_last(s: Seq<FallingEntity>, f: spec_fn(FallingEntity) -> bool)
    requires
        s.len() > 0,
    ensures
        s.filter(f) == (if f(s.last()) {
            s.drop_last().filter(f).push(s.last())
        } else {
            s.drop_last().filter(f)
        }),
{
    reveal(Seq::filter);
}

/// With no potion among them, the touched entities lower health by ten for
/// each hazard, down to zero.
proof fn lemma_damage_only(hp: int, hs: Seq<FallingEntity>)
    requires
        0 <= hp,
        potions(hs).len() == 0,
    ensures
        after_hits(hp, kinds_of(hs)) == if hp - HP_STEP * attacks(hs).len() < 0 {
            0
        } else {
            hp - HP_STEP * attacks(hs).len()
        },
    decreases hs.len(),
{
    if hs.len() > 0 {
        let t = hs.drop_last();
        lemma_filter_last(hs, is_potion());
        lemma_filter_last(hs, is_attack());
        lemma_damage_only(hp, t);
        assert(kinds_of(hs).drop_last() =~= kinds_of(t));
    }
}

/// With no hazard among them, the touched entities raise health by ten for
/// each potion, up to the ceiling.
proof fn lemma_healing_only(hp: int, hs: Seq<FallingEntity>)
    requires
        hp <= MAX_HP,
        attacks(hs).len() == 0,
    ensures
        after_hits(hp, kinds_of(hs)) == if hp + HP_STEP * potions(hs).len() > MAX_HP {
            MAX_HP as int
        } else {
            hp + HP_STEP * potions(hs).len()
        },
    decreases hs.len(),
{
    if hs.len() > 0 {
        let t = hs.drop_last();
        lemma_filter_last(hs, is_potion());
        lemma_filter_last(hs, is_attack());
        lemma_healing_only(hp, t);
        assert(kinds_of(hs).drop_last() =~= kinds_of(t));
    }
}

/// Resolving the same entities in any order removes the same entities and
/// keeps the same ones.
pub proof fn lemma_removal_order_independent(p: Player, es1: Seq<FallingEntity>, es2: Seq<FallingEntity>)
    requires
        es1.to_multiset() == es2.to_multiset(),
    ensures
        hits(p, es1).to_multiset() == hits(p, es2).to_multiset(),
        survivors(p, es1).to_multiset() == survivors(p, es2).to_multiset(),
{
    lemma_filter_same_multiset(es1, es2, touching(p));
    lemma_filter_same_multiset(es1, es2, not_touching(p));
}

/// Resolving the same entities in any order leaves the same health, provided
/// the entities touched are not a mix of hazards and potions (damage is
/// floored at zero and healing capped at the ceiling, so a mix can depend on
/// the order).
pub proof fn lemma_health_order_independent(
    p: Player,
    es1: Seq<FallingEntity>,
    es2: Seq<FallingEntity>,
    hp: int,
)
    requires
        es1.to_multiset() == es2.to_multiset(),
        hp_in_range(hp),
        attacks(hits(p, es1)).len() == 0 || potions(hits(p, es1)).len() == 0,
    ensures
        after_hits(hp, kinds_of(hits(p, es1))) == after_hits(hp, kinds_of(hits(p, es2))),
{
    broadcast use vstd::seq_lib::group_to_multiset_ensures;

    lemma_filter_same_multiset(es1, es2, touching(p));
    let h1 = hits(p, es1);
    let h2 = hits(p, es2);
    lemma_filter_same_multiset(h1, h2, is_attack());
    lemma_filter_same_multiset(h1, h2, is_potion());
    if potions(h1).len() == 0 {
        lemma_damage_only(hp, h1);
        lemma_damage_only(hp, h2);
    } else {
        lemma_healing_only(hp, h1);
        lemma_healing_only(hp, h2);
    }
}

/// No two entities share an id.
pub open spec fn distinct_ids(es: Seq<FallingEntity>) -> bool {
    forall|i: int, j: int| 0 <= i < j < es.len() ==> #[trigger] es[i].id != #[trigger] es[j].id
}

/// Filtering keeps ids distinct, and keeps only entities of the sequence
/// filtered.
pub proof fn lemma_filter_distinct(s: Seq<FallingEntity>, f: spec_fn(FallingEntity) -> bool)
    requires
        distinct_ids(s),
    ensures
        distinct_ids(s.filter(f)),
        forall|i: int| 0 <= i < s.filter(f).len() ==> #[trigger] s.contains(s.filter(f)[i]),
    decreases s.len(),
{
    broadcast use vstd::seq_lib::group_filter_ensures;

    if s.len() > 0 {
        let t = s.drop_last();
        let l = s.last();
        lemma_filter_last(s, f);
        assert(distinct_ids(t)) by {
            assert forall|i: int, j: int| 0 <= i < j < t.len() implies #[trigger] t[i].id != #[trigger] t[j].id by {
                assert(t[i] == s[i] && t[j] == s[j]);
            }
        }
        lemma_filter_distinct(t, f);
        let ft = t.filter(f);
        assert forall|i: int| 0 <= i < ft.len() implies #[trigger] s.contains(ft[i]) by {
            assert(t.contains(ft[i]));
            let j = choose|j: int| 0 <= j < t.len() && t[j] == ft[i];
            assert(s[j] == ft[i]);
        }
        if f(l) {
            let fs = s.filter(f);
            assert forall|i: int, j: int| 0 <= i < j < fs.len() implies #[trigger] fs[i].id != #[trigger] fs[j].id by {
                if j == fs.len() - 1 {
                    assert(fs[i] == ft[i]);
                    assert(t.contains(ft[i]));
                    let k = choose|k: int| 0 <= k < t.len() && t[k] == ft[i];
                    assert(s[k] == ft[i] && s[s.len() - 1] == l);
                } else {
                    assert(fs[i] == ft[i] && fs[j] == ft[j]);
                }
            }
            assert forall|i: int| 0 <= i < fs.len() implies #[trigger] s.contains(fs[i]) by {
                if i == fs.len() - 1 {
                    assert(s[s.len() - 1] == fs[i]);
                } else {
                    assert(fs[i] == ft[i]);
                }
            }
        }
    } else {
        reveal(Seq::filter);
    }
}

proof fn lemma_none_touch(p: Player, t: Seq<FallingEntity>)
    requires
        forall|i: int| 0 <= i < t.len() ==> !touches(p, #[trigger] t[i]),
    ensures
        hits(p, t) == Seq::<FallingEntity>::empty(),
        survivors(p, t) == t,
    decreases t.len(),
{
    if t.len() > 0 {
        lemma_filter_last(t, touching(p));
        lemma_filter_last(t, not_touching(p));
        lemma_none_touch(p, t.drop_last());
        assert(t.drop_last().push(t.last()) =~= t);
    } else {
        reveal(Seq::filter);
        assert(t =~= Seq::<FallingEntity>::empty());
    }
}

/// Once collisions are resolved nothing left touches the player, so resolving
/// again removes nothing and leaves health as it is; resolving over no
/// entities changes nothing.
pub proof fn lemma_resolution_idempotent(p: Player, es: Seq<FallingEntity>, hp: int)
    ensures
        hits(p, survivors(p, es)) == Seq::<FallingEntity>::empty(),
        survivors(p, survivors(p, es)) == survivors(p, es),
        after_hits(hp, kinds_of(hits(p, survivors(p, es)))) == hp,
        hits(p, Seq::<FallingEntity>::empty()) == Seq::<FallingEntity>::empty(),
        survivors(p, Seq::<FallingEntity>::empty()) == Seq::<FallingEntity>::empty(),
{
    broadcast use vstd::seq_lib::group_filter_ensures;

    let sv = survivors(p, es);
    assert forall|i: int| 0 <= i < sv.len() implies !touches(p, #[trigger] sv[i]) by {
        assert(not_touching(p)(sv[i]));
    }
    lemma_none_touch(p, sv);
    lemma_none_touch(p, Seq::<FallingEntity>::empty());
    assert(kinds_of(Seq::<FallingEntity>::empty()) =~= Seq::<EntityKind>::empty());
}

/// With distinct ids, no entity that stays carries the id of one removed.
pub proof fn lemma_removed_ids_gone(p: Player, es: Seq<FallingEntity>)
    requires
        distinct_ids(es),
    ensures
        distinct_ids(survivors(p, es)),
        forall|i: int, j: int|
            0 <= i < hits(p, es).len() && 0 <= j < survivors(p, es).len() ==> #[trigger] hits(p, es)[i].id
                != #[trigger] survivors(p, es)[j].id,
{
    broadcast use vstd::seq_lib::group_filter_ensures;

    lemma_filter_distinct(es, touching(p));
    lemma_filter_distinct(es, not_touching(p));
    let h = hits(p, es);
    let sv = survivors(p, es);
    assert forall|i: int, j: int| 0 <= i < h.len() && 0 <= j < sv.len() implies #[trigger] h[i].id
        != #[trigger] sv[j].id by {
        assert(es.contains(h[i]));
        assert(es.contains(sv[j]));
        let a = choose|a: int| 0 <= a < es.len() && es[a] == h[i];
        let b = choose|b: int| 0 <= b < es.len() && es[b] == sv[j];
        assert(touching(p)(h[i]));
        assert(not_touching(p)(sv[j]));
        assert(a != b);
    }
}

} // verus!
