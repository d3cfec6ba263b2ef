use particles::{DustSeed, ParticlesSystem, Settings};

fn count_dust<const P: usize, const D: usize>(system: &ParticlesSystem<P, D>) -> usize {
    (0..D).filter(|&i| system.dust_active(i)).count()
}

#[test]
fn activate_dust_draws_six_words_in_order() {
    let mut system: ParticlesSystem<12, 50> = ParticlesSystem::new(Settings::default());
    let seed = system.activate_dust();
    assert_eq!(
        seed,
        Some(DustSeed {
            slot: 0,
            x: 2274908837,
            y: 358294691,
            dx: 1210119364,
            dy: 2176035992,
            brightness: 1882851208,
            life: 698933837,
        })
    );
    assert_eq!(system.rng_state(), 698933837);
    assert!(system.dust_active(0));
    assert_eq!(system.active_dust(), 1);
}

#[test]
fn activate_dust_on_a_full_pool_does_nothing() {
    let mut system: ParticlesSystem<1, 1> = ParticlesSystem::new(Settings::default());
    assert!(system.activate_dust().is_some());
    let state = system.rng_state();
    assert_eq!(system.activate_dust(), None);
    assert_eq!(system.rng_state(), state);
    assert_eq!(system.active_dust(), 1);
}

#[test]
fn dust_pass_tops_up_to_the_target() {
    let mut system: ParticlesSystem<12, 50> = ParticlesSystem::new(Settings::default());
    let pass = system.update_dust(&[false; 50]);
    assert_eq!(pass.expired, 0);
    assert_eq!(system.active_dust(), 48);
    for slot in 0..48 {
        assert!(system.dust_active(slot));
        assert_eq!(pass.spawned[slot].unwrap().slot, slot);
    }
    assert!(!system.dust_active(48));
    assert!(!system.dust_active(49));
    assert_eq!(pass.spawned[48], None);
    assert_eq!(pass.spawned[49], None);
    assert_eq!(pass.spawned[0].unwrap().x, 2274908837);
    assert_eq!(pass.spawned[0].unwrap().life, 698933837);
    assert_eq!(pass.spawned[1].unwrap().x, 2311737117);
    assert_eq!(pass.spawned[1].unwrap().life, 1309615608);
    assert_eq!(pass.spawned[4].unwrap().x, 4153759446);
    assert_eq!(pass.spawned[4].unwrap().life, 1290640251);
    assert_eq!(system.rng_state(), pass.spawned[47].unwrap().life);
}

#[test]
fn dust_pass_at_the_target_spawns_nothing() {
    let mut system: ParticlesSystem<12, 50> = ParticlesSystem::new(Settings::default());
    system.update_dust(&[false; 50]);
    let state = system.rng_state();
    let pass = system.update_dust(&[false; 50]);
    assert_eq!(pass.expired, 0);
    assert!(pass.spawned.iter().all(|s| s.is_none()));
    assert_eq!(system.rng_state(), state);
    assert_eq!(system.active_dust(), 48);
}

#[test]
fn faded_dust_is_removed_once() {
    let mut settings = Settings::default();
    settings.max_particles = 0;
    let mut system: ParticlesSystem<4, 4> = ParticlesSystem::new(settings);
    system.activate_dust();
    system.activate_dust();
    assert_eq!(system.active_dust(), 2);
    let state = system.rng_state();
    let pass = system.update_dust(&[false, true, false, false]);
    assert_eq!(pass.expired, 1);
    assert_eq!(system.active_dust(), 1);
    assert!(system.dust_active(0));
    assert!(!system.dust_active(1));
    assert!(pass.spawned.iter().all(|s| s.is_none()));
    assert_eq!(system.rng_state(), state);
    let again = system.update_dust(&[false, true, false, false]);
    assert_eq!(again.expired, 0);
    assert_eq!(system.active_dust(), 1);
}

#[test]
fn faded_dust_is_replaced_in_the_lowest_free_slots() {
    let mut settings = Settings::default();
    settings.max_particles = 1;
    let mut system: ParticlesSystem<12, 10> = ParticlesSystem::new(settings);
    system.update_dust(&[false; 10]);
    assert_eq!(system.active_dust(), 8);
    let state = system.rng_state();
    let mut expired = [false; 10];
    expired[2] = true;
    expired[5] = true;
    expired[9] = true;
    let pass = system.update_dust(&expired);
    assert_eq!(pass.expired, 2);
    assert_eq!(system.active_dust(), 8);
    let first = pass.spawned[2].unwrap();
    let second = pass.spawned[5].unwrap();
    assert_eq!(first.slot, 2);
    assert_eq!(second.slot, 5);
    assert_eq!(first.x, particles::rng::next_state(state));
    assert_eq!(second.x, particles::rng::next_state(first.life));
    assert_eq!(system.rng_state(), second.life);
    for slot in 0..10 {
        assert_eq!(system.dust_active(slot), slot < 8);
        if slot != 2 && slot != 5 {
            assert_eq!(pass.spawned[slot], None);
        }
    }
}

#[test]
fn dust_pass_fills_a_pool_smaller_than_the_target() {
    let mut system: ParticlesSystem<12, 5> = ParticlesSystem::new(Settings::default());
    let pass = system.update_dust(&[false; 5]);
    assert_eq!(system.active_dust(), 5);
    assert!(pass.spawned.iter().all(|s| s.is_some()));
    let state = system.rng_state();
    let pass = system.update_dust(&[false; 5]);
    assert!(pass.spawned.iter().all(|s| s.is_none()));
    assert_eq!(system.rng_state(), state);
}

#[test]
fn dust_target_follows_the_particle_target() {
    let mut settings = Settings::default();
    settings.max_particles = 2;
    let mut system: ParticlesSystem<12, 50> = ParticlesSystem::new(settings);
    system.update_dust(&[false; 50]);
    assert_eq!(system.active_dust(), 16);
    settings.max_particles = 1;
    system.update_settings(settings);
    let pass = system.update_dust(&[false; 50]);
    assert_eq!(system.active_dust(), 16);
    assert!(pass.spawned.iter().all(|s| s.is_none()));
    settings.max_particles = 100;
    system.update_settings(settings);
    system.update_dust(&[false; 50]);
    assert_eq!(system.active_dust(), 50);
}

#[test]
fn dust_counter_equals_the_number_of_active_slots() {
    let mut settings = Settings::default();
    settings.max_particles = 1;
    let mut system: ParticlesSystem<4, 12> = ParticlesSystem::new(settings);
    for frame in 0..50usize {
        let mut expired = [false; 12];
        expired[frame % 12] = true;
        expired[(frame * 5) % 12] = true;
        let before = system.active_dust();
        let pass = system.update_dust(&expired);
        let spawned = pass.spawned.iter().filter(|s| s.is_some()).count();
        assert_eq!(system.active_dust(), before - pass.expired + spawned);
        assert_eq!(system.active_dust(), count_dust(&system));
        assert!(system.active_dust() <= 12);
        assert_eq!(system.active_dust(), 8);
    }
}

#[test]
fn dust_pass_leaves_particles_and_outputs_alone() {
    let mut system: ParticlesSystem<4, 4> = ParticlesSystem::new(Settings::default());
    system.activate_particle();
    system.update_particles(&[Some(31), None, None, None]);
    system.activate_particle();
    let text = String::from(system.message());
    system.update_dust(&[true; 4]);
    assert_eq!(system.active_particles(), 1);
    assert_eq!(system.get_outputs(), (31, 0));
    assert_eq!(system.message(), text);
}
