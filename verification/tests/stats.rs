use veloren_server::stats::{
    Dying, Energy, EnergySource, Exp, Health, HealthSource, Level, Stats,
};

#[test]
fn exp_getters_return_fields() {
    let exp = Exp::new(3, 50);
    assert_eq!(exp.current(), 3);
    assert_eq!(exp.maximum(), 50);
}

#[test]
fn exp_set_current_overwrites() {
    let mut exp = Exp::new(3, 50);
    exp.set_current(41);
    assert_eq!(exp.current(), 41);
    assert_eq!(exp.maximum(), 50);
}

#[test]
fn exp_change_by_adds_and_subtracts() {
    let mut exp = Exp::new(10, 50);
    exp.change_by(5);
    assert_eq!(exp.current(), 15);
    exp.change_by(-15);
    assert_eq!(exp.current(), 0);
}

#[test]
fn exp_change_by_keeps_low_32_bits() {
    let mut exp = Exp::new(0, 50);
    exp.change_by(-1);
    assert_eq!(exp.current(), u32::MAX);
    let mut exp = Exp::new(u32::MAX, 50);
    exp.change_by(2);
    assert_eq!(exp.current(), 1);
    let mut exp = Exp::new(7, 50);
    exp.change_by(0x1_0000_0000 * 3 + 5);
    assert_eq!(exp.current(), 12);
}

#[test]
fn exp_change_maximum_by_keeps_low_32_bits() {
    let mut exp = Exp::new(7, 50);
    exp.change_maximum_by(25);
    assert_eq!(exp.maximum(), 75);
    assert_eq!(exp.current(), 7);
    exp.change_maximum_by(-76);
    assert_eq!(exp.maximum(), u32::MAX);
}

#[test]
fn level_change_by_adds() {
    let mut level = Level::new(1);
    assert_eq!(level.level(), 1);
    level.change_by(4);
    assert_eq!(level.level(), 5);
}

#[test]
fn health_set_to_caps_at_maximum_and_records_difference() {
    let mut health = Health::new(40, 100);
    health.set_to(250, HealthSource::Command);
    assert_eq!(health.current(), 100);
    assert_eq!(health.maximum(), 100);
    assert_eq!(health.last_change, Some((60, HealthSource::Command)));
    health.set_to(30, HealthSource::World);
    assert_eq!(health.current(), 30);
    assert_eq!(health.last_change, Some((-70, HealthSource::World)));
}

#[test]
fn health_change_by_stays_between_zero_and_maximum() {
    let mut health = Health::new(40, 100);
    health.change_by(-50, HealthSource::Attack { by: 9 });
    assert_eq!(health.current(), 0);
    assert_eq!(health.last_change, Some((-50, HealthSource::Attack { by: 9 })));
    health.change_by(500, HealthSource::LevelUp);
    assert_eq!(health.current(), 100);
    assert_eq!(health.last_change, Some((500, HealthSource::LevelUp)));
    health.change_by(-1, HealthSource::Unknown);
    assert_eq!(health.current(), 99);
}

#[test]
fn health_change_by_is_exact_for_every_amount() {
    let mut health = Health::new(u32::MAX, u32::MAX);
    health.change_by(-1, HealthSource::World);
    assert_eq!(health.current(), u32::MAX - 1);
    health.change_by(i32::MAX, HealthSource::World);
    assert_eq!(health.current(), u32::MAX);
    health.change_by(i32::MIN, HealthSource::World);
    assert_eq!(health.current(), u32::MAX - (1 << 31));
    let mut health = Health::new(5, 10);
    health.change_by(i32::MIN, HealthSource::World);
    assert_eq!(health.current(), 0);
    health.change_by(i32::MAX, HealthSource::World);
    assert_eq!(health.current(), 10);
    let mut energy = Energy::new(3_000_000_000, 4_000_000_000);
    energy.change_by(500_000_000, EnergySource::Unknown);
    assert_eq!(energy.current(), 3_500_000_000);
}

#[test]
fn health_set_maximum_lowers_current() {
    let mut health = Health::new(80, 100);
    health.set_maximum(50);
    assert_eq!(health.maximum(), 50);
    assert_eq!(health.current(), 50);
    health.set_maximum(70);
    assert_eq!(health.maximum(), 70);
    assert_eq!(health.current(), 50);
    assert_eq!(health.last_change, None);
}

#[test]
fn energy_behaves_like_health() {
    let mut energy = Energy::new(200, 200);
    energy.change_by(-30, EnergySource::CastSpell);
    assert_eq!(energy.current(), 170);
    assert_eq!(energy.last_change, Some((-30, EnergySource::CastSpell)));
    energy.set_to(500, EnergySource::LevelUp);
    assert_eq!(energy.current(), 200);
    assert_eq!(energy.last_change, Some((30, EnergySource::LevelUp)));
    energy.set_maximum(10);
    assert_eq!(energy.current(), 10);
    assert_eq!(energy.maximum(), 10);
}

#[test]
fn stats_new_has_the_starting_values() {
    let stats = Stats::new("Bob".to_string());
    assert_eq!(stats.name, "Bob");
    assert_eq!(stats.health.current(), 100);
    assert_eq!(stats.health.maximum(), 100);
    assert_eq!(stats.health.last_change, None);
    assert_eq!(stats.energy.current(), 200);
    assert_eq!(stats.energy.maximum(), 200);
    assert_eq!(stats.level.level(), 1);
    assert_eq!(stats.exp.current(), 0);
    assert_eq!(stats.exp.maximum(), 50);
    assert!(!stats.is_dead);
    assert!(!stats.should_die());
}

#[test]
fn stats_with_max_health_and_energy() {
    let stats = Stats::new("Boss".to_string()).with_max_health(750).with_max_energy(30);
    assert_eq!(stats.health.current(), 750);
    assert_eq!(stats.health.maximum(), 750);
    assert_eq!(stats.energy.current(), 30);
    assert_eq!(stats.energy.maximum(), 30);
    assert_eq!(stats.name, "Boss");
}

#[test]
fn stats_should_die_and_revive() {
    let mut stats = Stats::new("Bob".to_string());
    stats.health.change_by(-100, HealthSource::Suicide);
    stats.is_dead = true;
    assert!(stats.should_die());
    stats.revive();
    assert!(!stats.should_die());
    assert!(!stats.is_dead);
    assert_eq!(stats.health.current(), 100);
    assert_eq!(stats.health.last_change, Some((100, HealthSource::Revive)));
}

#[test]
fn dying_carries_its_cause() {
    let dying = Dying { cause: HealthSource::Attack { by: 3 } };
    assert_eq!(dying.cause, HealthSource::Attack { by: 3 });
}
