use particles::rng::next_state;
use particles::{ParticlesSystem, Settings};

#[test]
fn next_state_is_xorshift32() {
    assert_eq!(next_state(1), 270369);
    assert_eq!(next_state(0x12345678), 2274908837);
    assert_eq!(next_state(0xffff_ffff), 253983);
}

#[test]
fn zero_is_a_fixed_point() {
    assert_eq!(next_state(0), 0);
}

#[test]
fn random_walks_the_sequence_of_the_seed() {
    let mut system: ParticlesSystem<1, 1> = ParticlesSystem::new(Settings::default());
    let expected: [u32; 12] = [
        2274908837, 358294691, 1210119364, 2176035992, 1882851208, 698933837, 2311737117,
        3306712617, 3547882151, 984697617, 1774140920, 1309615608,
    ];
    for word in expected {
        assert_eq!(system.random(), word);
        assert_eq!(system.rng_state(), word);
    }
}

#[test]
fn same_seed_gives_the_same_words() {
    let mut settings = Settings::default();
    settings.rng_seed = 0xdead_beef;
    let mut a: ParticlesSystem<4, 4> = ParticlesSystem::new(settings);
    let mut b: ParticlesSystem<4, 4> = ParticlesSystem::new(settings);
    for _ in 0..1000 {
        assert_eq!(a.random(), b.random());
    }
}

#[test]
fn nonzero_seed_never_reaches_zero() {
    let mut settings = Settings::default();
    settings.rng_seed = 1;
    let mut system: ParticlesSystem<1, 1> = ParticlesSystem::new(settings);
    for _ in 0..10000 {
        assert_ne!(system.random(), 0);
    }
}

#[test]
fn random_changes_nothing_but_the_generator() {
    let mut system: ParticlesSystem<3, 3> = ParticlesSystem::new(Settings::default());
    system.activate_dust();
    system.record_collision(12);
    let dust = system.active_dust();
    system.random();
    assert_eq!(system.active_dust(), dust);
    assert_eq!(system.active_particles(), 0);
    assert_eq!(system.get_outputs(), (0, 12));
    assert_eq!(system.message(), "Collision Output: 12, Trigger: HIGH");
}
