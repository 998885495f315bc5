use dodge_game::{AttackType, EntityType, ItemType, Size};

#[test]
fn attack_kinds_have_positive_speed_and_scale() {
    for k in [AttackType::Normal, AttackType::First] {
        assert!(k.speed() > 0);
        let s = k.scale();
        assert!(s.w > 0 && s.h > 0);
    }
    assert_eq!(AttackType::Normal.speed(), 70);
    assert_eq!(AttackType::First.speed(), 100);
    assert_eq!(AttackType::Normal.scale(), Size { w: 250, h: 250 });
    assert_eq!(AttackType::First.scale(), Size { w: 300, h: 300 });
}

#[test]
fn item_kind_table() {
    assert_eq!(ItemType::Portion.speed(), 70);
    assert_eq!(ItemType::SpeedUp.speed(), 100);
    assert_eq!(ItemType::Big.speed(), 50);
    assert_eq!(ItemType::Big.scale(), Size { w: 450, h: 450 });
    assert_eq!(ItemType::Portion.sound_key(), "recovery");
    assert_eq!(ItemType::SpeedUp.sound_key(), "powerup");
    assert_eq!(ItemType::Big.sound_key(), "big");
    assert_eq!(ItemType::Portion.image_key(), "portion");
    assert_eq!(ItemType::SpeedUp.image_key(), "powerup");
}
