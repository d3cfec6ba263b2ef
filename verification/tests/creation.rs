use particles::{ParticlesSystem, Settings};

#[test]
fn test_particle_system_creation() {
    let settings = Settings::default();
    let _system: ParticlesSystem<12, 50> = ParticlesSystem::new(settings);
}

#[test]
fn new_system_is_at_rest() {
    let settings = Settings::default();
    let system: ParticlesSystem<12, 50> = ParticlesSystem::new(settings);
    assert_eq!(system.active_particles(), 0);
    assert_eq!(system.active_dust(), 0);
    assert_eq!(system.get_outputs(), (0, 0));
    assert_eq!(system.message(), "");
    assert_eq!(system.rng_state(), 0x12345678);
    assert_eq!(system.settings(), settings);
    assert!(!system.verbose);
    for i in 0..12 {
        assert!(!system.particle_active(i));
    }
    for i in 0..50 {
        assert!(!system.dust_active(i));
    }
}

#[test]
fn slots_past_the_pool_are_not_active() {
    let mut system: ParticlesSystem<2, 3> = ParticlesSystem::new(Settings::default());
    assert!(system.activate_particle().is_some());
    assert!(system.activate_dust().is_some());
    assert!(system.particle_active(0));
    assert!(!system.particle_active(2));
    assert!(!system.particle_active(usize::MAX));
    assert!(system.dust_active(0));
    assert!(!system.dust_active(3));
}

#[test]
fn update_settings_replaces_settings_only() {
    let mut system: ParticlesSystem<4, 4> = ParticlesSystem::new(Settings::default());
    let seed = system.activate_particle().unwrap();
    let state = system.rng_state();
    let mut changed = Settings::default();
    changed.max_particles = 1;
    changed.rng_seed = 99;
    changed.ground_level = 10;
    system.update_settings(changed);
    assert_eq!(system.settings(), changed);
    assert_eq!(system.rng_state(), state);
    assert!(system.particle_active(seed.slot));
    assert_eq!(system.active_particles(), 1);
    assert_eq!(system.get_outputs(), (0, 0));
}

#[test]
fn verbose_flag_is_kept() {
    let mut system: ParticlesSystem<4, 4> = ParticlesSystem::new(Settings::default());
    system.verbose = true;
    let _ = system.update_particles(&[None; 4]);
    let _ = system.update_dust(&[false; 4]);
    assert!(system.verbose);
}
