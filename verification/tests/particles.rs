use particles::{ParticleSeed, ParticlesSystem, Settings};

fn count_particles<const P: usize, const D: usize>(system: &ParticlesSystem<P, D>) -> usize {
    (0..P).filter(|&i| system.particle_active(i)).count()
}

#[test]
fn activate_particle_draws_five_words_in_order() {
    let mut system: ParticlesSystem<12, 50> = ParticlesSystem::new(Settings::default());
    let seed = system.activate_particle();
    assert_eq!(
        seed,
        Some(ParticleSeed {
            slot: 0,
            size: 2274908837,
            x: 358294691,
            sway: 1210119364,
            sway_speed: 2176035992,
            particle_type: 1882851208,
        })
    );
    assert_eq!(system.rng_state(), 1882851208);
    assert!(system.particle_active(0));
    assert_eq!(system.active_particles(), 1);
    let second = system.activate_particle().unwrap();
    assert_eq!(second.slot, 1);
    assert_eq!(second.size, 698933837);
    assert_eq!(second.particle_type, 984697617);
    assert_eq!(system.rng_state(), 984697617);
}

#[test]
fn activate_particle_on_a_full_pool_does_nothing() {
    let mut system: ParticlesSystem<2, 2> = ParticlesSystem::new(Settings::default());
    assert!(system.activate_particle().is_some());
    assert!(system.activate_particle().is_some());
    let state = system.rng_state();
    assert_eq!(system.activate_particle(), None);
    assert_eq!(system.rng_state(), state);
    assert_eq!(system.active_particles(), 2);
}

#[test]
fn activate_particle_reuses_the_lowest_free_slot() {
    let mut system: ParticlesSystem<4, 4> = ParticlesSystem::new(Settings::default());
    for _ in 0..3 {
        system.activate_particle();
    }
    system.update_particles(&[None, Some(5), None, None]);
    assert_eq!(system.activate_particle().unwrap().slot, 1);
    assert_eq!(system.activate_particle().unwrap().slot, 3);
}

#[test]
fn landed_particles_are_removed_and_the_last_leaves_its_output() {
    let mut system: ParticlesSystem<5, 5> = ParticlesSystem::new(Settings::default());
    for _ in 0..3 {
        system.activate_particle();
    }
    assert_eq!(system.rng_state(), 2361839302);
    let pass = system.update_particles(&[Some(100), None, Some(200), Some(300), None]);
    assert_eq!(pass.landed, 2);
    assert!(!system.particle_active(0));
    assert!(system.particle_active(1));
    assert!(!system.particle_active(2));
    assert!(!system.particle_active(3));
    assert_eq!(system.active_particles(), 1);
    assert_eq!(system.get_outputs(), (200, 0));
    assert_eq!(system.message(), "Particle Output: 200, Trigger: HIGH");
    assert_eq!(pass.spawn_roll, Some(4141526377));
    assert_eq!(system.rng_state(), 4141526377);
}

#[test]
fn landing_in_a_free_slot_is_ignored() {
    let mut system: ParticlesSystem<3, 3> = ParticlesSystem::new(Settings::default());
    system.activate_particle();
    let pass = system.update_particles(&[None, Some(9), Some(8)]);
    assert_eq!(pass.landed, 0);
    assert_eq!(system.get_outputs(), (0, 0));
    assert_eq!(system.message(), "");
    assert_eq!(system.active_particles(), 1);
}

#[test]
fn pass_without_landing_keeps_output_and_message() {
    let mut system: ParticlesSystem<3, 3> = ParticlesSystem::new(Settings::default());
    system.activate_particle();
    system.activate_particle();
    system.update_particles(&[Some(77), None, None]);
    let pass = system.update_particles(&[None, None, None]);
    assert_eq!(pass.landed, 0);
    assert_eq!(system.get_outputs(), (77, 0));
    assert_eq!(system.message(), "Particle Output: 77, Trigger: HIGH");
    assert!(system.particle_active(1));
}

#[test]
fn spawn_roll_is_drawn_only_below_the_target() {
    let mut settings = Settings::default();
    settings.max_particles = 2;
    let mut system: ParticlesSystem<4, 4> = ParticlesSystem::new(settings);
    system.activate_particle();
    system.activate_particle();
    let state = system.rng_state();
    let pass = system.update_particles(&[None; 4]);
    assert_eq!(pass.spawn_roll, None);
    assert_eq!(system.rng_state(), state);
    let pass = system.update_particles(&[Some(1), None, None, None]);
    assert_eq!(pass.landed, 1);
    assert_eq!(pass.spawn_roll, Some(1774140920));
    assert_eq!(system.rng_state(), 1774140920);
}

#[test]
fn spawn_roll_with_a_target_of_zero_is_never_drawn() {
    let mut settings = Settings::default();
    settings.max_particles = 0;
    let mut system: ParticlesSystem<4, 4> = ParticlesSystem::new(settings);
    for _ in 0..10 {
        assert_eq!(system.update_particles(&[None; 4]).spawn_roll, None);
    }
    assert_eq!(system.rng_state(), 0x12345678);
}

#[test]
fn population_settles_at_the_target() {
    let mut settings = Settings::default();
    settings.max_particles = 3;
    let mut system: ParticlesSystem<12, 50> = ParticlesSystem::new(settings);
    for frame in 0..200usize {
        let mut landings = [None; 12];
        if frame % 7 == 3 {
            landings[frame % 12] = Some(frame as u16);
            landings[(frame + 5) % 12] = Some(1);
        }
        let before = system.active_particles();
        let pass = system.update_particles(&landings);
        assert_eq!(system.active_particles() + pass.landed, before);
        if pass.spawn_roll.is_some() {
            assert!(system.active_particles() < 3);
            assert!(system.activate_particle().is_some());
        } else {
            assert!(system.active_particles() >= 3);
        }
        assert!(system.active_particles() <= 3);
        assert_eq!(system.active_particles(), count_particles(&system));
    }
    assert_eq!(system.active_particles(), 3);
}

#[test]
fn lowering_the_target_stops_spawns_until_particles_land() {
    let mut system: ParticlesSystem<12, 50> = ParticlesSystem::new(Settings::default());
    for _ in 0..6 {
        system.activate_particle();
    }
    let mut settings = Settings::default();
    settings.max_particles = 2;
    system.update_settings(settings);
    let mut landings = [None; 12];
    assert_eq!(system.update_particles(&landings).spawn_roll, None);
    assert_eq!(system.active_particles(), 6);
    for slot in 0..5 {
        landings[slot] = Some(3);
    }
    let pass = system.update_particles(&landings);
    assert_eq!(pass.landed, 5);
    assert!(pass.spawn_roll.is_some());
    assert_eq!(system.active_particles(), 1);
}

#[test]
fn particle_counter_equals_the_number_of_active_slots() {
    let mut system: ParticlesSystem<6, 6> = ParticlesSystem::new(Settings::default());
    for frame in 0..60usize {
        let mut landings = [None; 6];
        landings[frame % 6] = Some(1);
        if frame % 4 == 0 {
            landings[(frame / 4) % 6] = Some(2);
        }
        if system.update_particles(&landings).spawn_roll.is_some() {
            system.activate_particle();
            system.activate_particle();
        }
        assert_eq!(system.active_particles(), count_particles(&system));
        assert!(system.active_particles() <= 6);
    }
}
