use dodge_game::geometry::collide;
use dodge_game::player::{MAX_HP, PLAYER_MOVE_LIMIT_LEFT, PLAYER_MOVE_LIMIT_RIGHT, PLAYER_SPEED};
use dodge_game::session::{ENTITY_START_POSITION_Y, FIELD_BOTTOM_Y};
use dodge_game::spawn::{ATTACK_INTERVAL_MAX_MS, ATTACK_INTERVAL_MIN_MS};
use dodge_game::{
    advance, random_translation, resolve_collisions, AssetRegistry, Attack, AttackRoll,
    AttackType, Effect, EntityKind, FallingEntity, Item, ItemRoll, ItemType, MoveInput, Player,
    PlayerDate, Point, Session, Size, SpawnTimer,
};

fn assets() -> AssetRegistry {
    AssetRegistry::new(
        vec!["normal".to_string(), "first".to_string(), "portion".to_string(), "powerup".to_string()],
        vec!["normal".to_string(), "first".to_string(), "recovery".to_string()],
    )
}

fn attack_at(id: u64, x: i64, y: i64) -> FallingEntity {
    FallingEntity::new(id, EntityKind::Attack(Attack(AttackType::Normal)), Point { x, y })
}

fn item_at(id: u64, kind: ItemType, x: i64, y: i64) -> FallingEntity {
    FallingEntity::new(id, EntityKind::Item(Item(kind)), Point { x, y })
}

fn idle() -> MoveInput {
    MoveInput { right: false, left: false }
}

fn quiet_rolls() -> (AttackRoll, ItemRoll) {
    (
        AttackRoll { kind: AttackType::Normal, x: 0, next_interval_ms: 200 },
        ItemRoll { kind: ItemType::Portion, x: 0 },
    )
}

#[test]
fn attack_descends_onto_player_and_costs_ten_health() {
    let reg = assets();
    let mut s = Session::new();
    s.attack_timer = SpawnTimer::new(100);
    let (ar, ir) = quiet_rolls();
    let first = s.step(idle(), 100, &reg, ar, ir);
    assert_eq!(first.spawned.len(), 1);
    assert_eq!(s.entities.len(), 1);
    assert_eq!(s.data.hp, 100);
    let mut ticks = 0;
    loop {
        let report = s.step(idle(), 0, &reg, ar, ir);
        ticks += 1;
        if !report.hits.is_empty() {
            assert_eq!(report.hits.len(), 1);
            assert_eq!(report.hits[0].effect, Effect::DamagePlayer(AttackType::Normal));
            assert_eq!(report.hits[0].sound, Some("normal".to_string()));
            break;
        }
        assert!(ticks < 200);
    }
    assert_eq!(s.data.hp, 90);
    assert!(s.entities.is_empty());
    // overlap starts once the centre is below -2675: (3900 + 2675) / 70 ticks
    assert_eq!(ticks, 94);
}

#[test]
fn potion_heals_up_to_ceiling() {
    let reg = assets();
    let player = Player::new();
    let mut data = PlayerDate::new();
    data.hp = 95;
    let mut es = vec![item_at(1, ItemType::Portion, 0, -3000)];
    let hits = resolve_collisions(&player, &mut data, &mut es, &reg);
    assert_eq!(hits.len(), 1);
    assert_eq!(hits[0].effect, Effect::ApplyItem(ItemType::Portion));
    assert_eq!(hits[0].sound, Some("recovery".to_string()));
    assert_eq!(data.hp, 100);
    assert!(es.is_empty());
}

#[test]
fn potion_at_full_health_keeps_ceiling() {
    let reg = assets();
    let player = Player::new();
    let mut data = PlayerDate::new();
    let mut es = vec![item_at(1, ItemType::Portion, 0, -3000)];
    resolve_collisions(&player, &mut data, &mut es, &reg);
    assert_eq!(data.hp, MAX_HP);
}

#[test]
fn attack_timer_redraws_interval_once_per_fire() {
    let reg = assets();
    let mut s = Session::new();
    s.attack_timer = SpawnTimer::new(200);
    let roll = AttackRoll::draw();
    assert!(roll.next_interval_ms >= ATTACK_INTERVAL_MIN_MS && roll.next_interval_ms <= ATTACK_INTERVAL_MAX_MS);
    let spawned = s.tick_attack_spawner(200, &reg, roll);
    assert!(spawned.is_some());
    assert_eq!(s.entities.len(), 1);
    assert_eq!(s.attack_timer, SpawnTimer { interval_ms: roll.next_interval_ms, elapsed_ms: 0 });
    let other = AttackRoll { kind: AttackType::First, x: 0, next_interval_ms: 300 };
    let none = s.tick_attack_spawner(ATTACK_INTERVAL_MIN_MS - 1, &reg, other);
    assert!(none.is_none());
    assert_eq!(s.entities.len(), 1);
    assert_eq!(s.attack_timer.interval_ms, roll.next_interval_ms);
    assert_eq!(s.attack_timer.elapsed_ms, ATTACK_INTERVAL_MIN_MS - 1);
}

#[test]
fn both_directions_cancel() {
    let mut p = Player::new();
    p.move_player(MoveInput { right: true, left: true });
    assert_eq!(p.position.x, 0);
}

#[test]
fn player_moves_one_step_per_direction() {
    let mut p = Player::new();
    p.move_player(MoveInput { right: true, left: false });
    assert_eq!(p.position.x, PLAYER_SPEED);
    p.move_player(MoveInput { right: false, left: true });
    p.move_player(MoveInput { right: false, left: true });
    assert_eq!(p.position.x, -PLAYER_SPEED);
}

#[test]
fn player_clamped_at_limits() {
    let mut p = Player::at(PLAYER_MOVE_LIMIT_RIGHT - 10);
    p.move_player(MoveInput { right: true, left: false });
    assert_eq!(p.position.x, PLAYER_MOVE_LIMIT_RIGHT);
    p.move_player(MoveInput { right: true, left: false });
    assert_eq!(p.position.x, PLAYER_MOVE_LIMIT_RIGHT);
    let mut q = Player::at(PLAYER_MOVE_LIMIT_LEFT);
    q.move_player(MoveInput { right: false, left: true });
    assert_eq!(q.position.x, PLAYER_MOVE_LIMIT_LEFT);
}

#[test]
fn player_stays_in_bounds_over_many_inputs() {
    let mut p = Player::new();
    let mut seed: u64 = 12345;
    for _ in 0..2000 {
        seed = seed.wrapping_mul(6364136223846793005).wrapping_add(1442695040888963407);
        let bits = seed >> 60;
        let input = MoveInput { right: bits & 1 == 1 || bits > 11, left: bits & 2 == 2 && bits < 12 };
        p.move_player(input);
        assert!(p.position.x >= PLAYER_MOVE_LIMIT_LEFT && p.position.x <= PLAYER_MOVE_LIMIT_RIGHT);
    }
}

#[test]
fn damage_floors_at_zero() {
    let mut d = PlayerDate::new();
    for _ in 0..15 {
        d.take_damage();
        assert!(d.hp >= 0 && d.hp <= 100);
    }
    assert_eq!(d.hp, 0);
    d.hp = 5;
    d.take_damage();
    assert_eq!(d.hp, 0);
}

#[test]
fn speed_up_and_big_leave_health_unchanged() {
    let mut d = PlayerDate::new();
    d.hp = 50;
    d.apply_hit(EntityKind::Item(Item(ItemType::SpeedUp)));
    d.apply_hit(EntityKind::Item(Item(ItemType::Big)));
    assert_eq!(d.hp, 50);
    d.apply_hit(EntityKind::Attack(Attack(AttackType::First)));
    assert_eq!(d.hp, 40);
}

#[test]
fn resolution_order_does_not_matter() {
    let reg = assets();
    let player = Player::new();
    let a = attack_at(1, -100, -3000);
    let b = attack_at(2, 100, -2900);
    let c = attack_at(3, 3000, 0);
    let d = FallingEntity::new(4, EntityKind::Attack(Attack(AttackType::First)), Point { x: 0, y: -3100 });
    let orders = [vec![a, b, c, d], vec![d, c, b, a], vec![c, a, d, b]];
    let mut results = Vec::new();
    for order in orders.iter() {
        let mut data = PlayerDate::new();
        let mut es = order.clone();
        let hits = resolve_collisions(&player, &mut data, &mut es, &reg);
        let mut removed: Vec<u64> = hits.iter().map(|h| h.id).collect();
        removed.sort();
        results.push((data.hp, removed, es.iter().map(|e| e.id).collect::<Vec<u64>>()));
    }
    for r in results.iter() {
        assert_eq!(r.0, 70);
        assert_eq!(r.1, vec![1, 2, 4]);
        assert_eq!(r.2, vec![3]);
    }
}

#[test]
fn resolving_again_is_a_no_op() {
    let reg = assets();
    let player = Player::new();
    let mut data = PlayerDate::new();
    let mut es = vec![attack_at(1, 0, -3000), attack_at(2, 2000, 1000)];
    let first = resolve_collisions(&player, &mut data, &mut es, &reg);
    assert_eq!(first.len(), 1);
    assert_eq!(es.len(), 1);
    assert_eq!(es[0].id, 2);
    let second = resolve_collisions(&player, &mut data, &mut es, &reg);
    assert!(second.is_empty());
    assert_eq!(es.len(), 1);
    assert_eq!(data.hp, 90);
    let mut empty: Vec<FallingEntity> = Vec::new();
    let none = resolve_collisions(&player, &mut data, &mut empty, &reg);
    assert!(none.is_empty());
    assert!(empty.is_empty());
    assert_eq!(data.hp, 90);
}

#[test]
fn entity_descends_by_speed_each_tick() {
    let start = Point { x: 120, y: ENTITY_START_POSITION_Y };
    let e = FallingEntity::new(7, EntityKind::Item(Item(ItemType::Big)), start);
    assert_eq!(e.position, start);
    let mut es = vec![e];
    for _ in 0..10 {
        advance(&mut es);
    }
    assert_eq!(es[0].position, Point { x: 120, y: ENTITY_START_POSITION_Y - 10 * 50 });
    assert_eq!(es[0].id, 7);
}

#[test]
fn entities_leave_at_field_bottom() {
    let mut s = Session::new();
    s.entities.push(attack_at(0, 3000, FIELD_BOTTOM_Y + 69));
    s.entities.push(attack_at(1, 3000, FIELD_BOTTOM_Y + 70));
    s.next_id = 2;
    s.advance_entities();
    assert_eq!(s.entities.len(), 1);
    assert_eq!(s.entities[0].id, 1);
    assert_eq!(s.entities[0].position.y, FIELD_BOTTOM_Y);
}

#[test]
fn missing_image_skips_spawn_but_redraws_interval() {
    let reg = AssetRegistry::new(Vec::new(), Vec::new());
    let mut s = Session::new();
    let roll = AttackRoll { kind: AttackType::First, x: -500, next_interval_ms: 250 };
    let r = s.tick_attack_spawner(500, &reg, roll);
    assert!(r.is_none());
    assert!(s.entities.is_empty());
    assert_eq!(s.next_id, 0);
    assert_eq!(s.attack_timer, SpawnTimer { interval_ms: 250, elapsed_ms: 0 });
}

#[test]
fn missing_sound_reports_no_sound() {
    let reg = AssetRegistry::new(Vec::new(), Vec::new());
    let player = Player::new();
    let mut data = PlayerDate::new();
    let mut es = vec![attack_at(1, 0, -3000)];
    let hits = resolve_collisions(&player, &mut data, &mut es, &reg);
    assert_eq!(hits.len(), 1);
    assert_eq!(hits[0].sound, None);
    assert_eq!(hits[0].id, 1);
}

#[test]
fn item_timer_fires_on_fixed_interval() {
    let reg = assets();
    let mut s = Session::new();
    let roll = ItemRoll { kind: ItemType::SpeedUp, x: 100 };
    assert!(s.tick_item_spawner(2999, &reg, roll).is_none());
    let e = s.tick_item_spawner(1, &reg, roll).unwrap();
    assert_eq!(e.kind, EntityKind::Item(Item(ItemType::SpeedUp)));
    assert_eq!(e.position, Point { x: 100, y: ENTITY_START_POSITION_Y });
    assert_eq!(s.item_timer, SpawnTimer { interval_ms: 3000, elapsed_ms: 0 });
    let big = ItemRoll { kind: ItemType::Big, x: 0 };
    assert!(s.tick_item_spawner(3000, &reg, big).is_none());
    assert_eq!(s.entities.len(), 1);
}

#[test]
fn step_spawns_attack_then_item_with_fresh_ids() {
    let reg = assets();
    let mut s = Session::new();
    let ar = AttackRoll { kind: AttackType::First, x: -3750, next_interval_ms: 100 };
    let ir = ItemRoll { kind: ItemType::Portion, x: 3750 };
    let r = s.step(MoveInput { right: true, left: false }, 3000, &reg, ar, ir);
    assert_eq!(r.spawned.len(), 2);
    assert_eq!(r.spawned[0].id, 0);
    assert_eq!(r.spawned[1].id, 1);
    assert_eq!(s.next_id, 2);
    assert_eq!(s.player.position.x, PLAYER_SPEED);
    assert_eq!(s.entities.len(), 2);
    assert_eq!(s.entities[0].position.y, ENTITY_START_POSITION_Y);
}

#[test]
fn random_draws_stay_in_range_and_vary() {
    let mut xs = Vec::new();
    for _ in 0..200 {
        let p = random_translation();
        assert!(p.x >= PLAYER_MOVE_LIMIT_LEFT && p.x <= PLAYER_MOVE_LIMIT_RIGHT);
        assert_eq!(p.y, ENTITY_START_POSITION_Y);
        xs.push(p.x);
        let r = ItemRoll::draw();
        assert!(r.x >= PLAYER_MOVE_LIMIT_LEFT && r.x <= PLAYER_MOVE_LIMIT_RIGHT);
    }
    assert!(xs.iter().any(|x| *x != xs[0]));
    let mut seen_first = false;
    let mut seen_normal = false;
    for _ in 0..200 {
        match AttackRoll::draw().kind {
            AttackType::First => seen_first = true,
            AttackType::Normal => seen_normal = true,
        }
    }
    assert!(seen_first && seen_normal);
}

#[test]
fn collider_edges_touching_do_not_overlap() {
    let s = Size { w: 400, h: 400 };
    let t = Size { w: 250, h: 250 };
    assert!(!collide(Point { x: 0, y: 0 }, s, Point { x: 325, y: 0 }, t));
    assert!(collide(Point { x: 0, y: 0 }, s, Point { x: 324, y: 0 }, t));
    assert!(!collide(Point { x: 0, y: 0 }, s, Point { x: 0, y: -325 }, t));
}

#[test]
fn registry_lookups() {
    let reg = assets();
    assert!(reg.has_image(&"portion".to_string()));
    assert!(!reg.has_image(&"big".to_string()));
    assert!(reg.has_sound(&"recovery".to_string()));
    assert!(!reg.has_sound(&"powerup".to_string()));
}
