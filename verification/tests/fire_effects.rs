use flick_effects::{FireEffect, FireParticle, step_particle, heat_to_color, FIRE_PARTICLE_CAP};

fn dummy_particle() -> FireParticle {
    FireParticle {
        x: 0,
        y: 0,
        vx: 0,
        vy: 0,
        life: 1000,
        max_life: 500,
        size: 10000,
        heat: 1000,
        wobble: 0,
    }
}

#[test]
fn new_emitter_starts_active_and_empty() {
    let f = FireEffect::new(100_000, 200_000, 0);
    assert!(f.is_active);
    assert_eq!(f.intensity, 0);
    assert_eq!(f.particles.len(), 0);
    assert!(!f.is_done());
}

#[test]
fn spawn_ramps_intensity_and_emits_particles() {
    let mut f = FireEffect::new(0, 0, 0);
    // 25 ms after creation: intensity = min(8 * 0.025, 1) = 0.2.
    f.spawn_particles(25, 25);
    assert_eq!(f.intensity, 200);
    // Base count 900 * 200 * 25 / 1e6 = 4; sparks may add up to as many.
    assert!(f.particles.len() >= 4);
    assert!(f.particles.len() <= 8);
    for p in &f.particles {
        assert_eq!(p.life, 1000);
        assert!(p.max_life >= 100 && p.max_life < 900);
        assert!(p.heat >= 700 && p.heat <= 1000);
    }
}

#[test]
fn intensity_saturates_after_an_eighth_of_a_second() {
    let mut f = FireEffect::new(0, 0, 0);
    f.spawn_particles(25, 500);
    assert_eq!(f.intensity, 1000);
}

#[test]
fn spawning_stops_above_the_cap() {
    let over = FIRE_PARTICLE_CAP + 1;
    let mut f = FireEffect {
        x: 0,
        y: 0,
        particles: vec![dummy_particle(); over],
        is_active: true,
        intensity: 700,
        start_time: 0,
    };
    f.spawn_particles(100, 200);
    assert_eq!(f.particles.len(), over);
    // The intensity ramp is skipped too while over the cap.
    assert_eq!(f.intensity, 700);
}

#[test]
fn inactive_emitter_spawns_nothing() {
    let mut f = FireEffect {
        x: 0,
        y: 0,
        particles: Vec::new(),
        is_active: false,
        intensity: 900,
        start_time: 0,
    };
    f.spawn_particles(100, 200);
    assert_eq!(f.particles.len(), 0);
    assert_eq!(f.intensity, 900);
}

#[test]
fn particle_step_matches_the_kinematics() {
    let p = dummy_particle();
    // A centered jitter draw (500) contributes nothing to vx.
    let q = step_particle(&p, 100, 0, 500);
    assert_eq!(q.x, 0);
    // Upward-phase turbulence pushes down-screen by 15 px/s for 0.1 s.
    assert_eq!(q.y, 1500);
    assert_eq!(q.vx, 0);
    assert_eq!(q.vy, -8000);
    assert_eq!(q.life, 800);
    assert_eq!(q.heat, 920);
    assert_eq!(q.size, 9500);
    assert_eq!(q.max_life, 500);
}

#[test]
fn update_removes_exhausted_particles() {
    let mut spent = dummy_particle();
    spent.max_life = 100;
    let mut f = FireEffect {
        x: 0,
        y: 0,
        particles: vec![spent],
        is_active: true,
        intensity: 1000,
        start_time: 0,
    };
    // 0.2 s on a 0.1 s lifetime: the particle's life goes negative.
    f.update(200, 0);
    assert_eq!(f.particles.len(), 0);
}

#[test]
fn intensity_decays_to_zero_after_end() {
    let mut f = FireEffect {
        x: 0,
        y: 0,
        particles: Vec::new(),
        is_active: false,
        intensity: 1000,
        start_time: 0,
    };
    f.update(200, 0);
    assert_eq!(f.intensity, 400);
    f.update(200, 0);
    assert_eq!(f.intensity, 0);
    assert!(f.is_done());
}

#[test]
fn intensity_is_gone_within_a_third_of_a_second() {
    let mut f = FireEffect {
        x: 0,
        y: 0,
        particles: Vec::new(),
        is_active: false,
        intensity: 1000,
        start_time: 0,
    };
    f.update(111, 0);
    f.update(111, 0);
    f.update(112, 0);
    assert_eq!(f.intensity, 0);
}

#[test]
fn active_emitter_keeps_its_intensity_through_update() {
    let mut f = FireEffect {
        x: 0,
        y: 0,
        particles: Vec::new(),
        is_active: true,
        intensity: 600,
        start_time: 0,
    };
    f.update(200, 0);
    assert_eq!(f.intensity, 600);
}

#[test]
fn heat_maps_through_the_fixed_ramp() {
    assert_eq!(heat_to_color(1000, 800), (1000, 1000, 900, 800));
    // heat 0.8: t = 0.5 within the 0.7..0.9 band.
    assert_eq!(heat_to_color(800, 1000), (1000, 950, 600, 1000));
    // heat 0.6: t = 0.5 within the 0.5..0.7 band.
    assert_eq!(heat_to_color(600, 1000), (1000, 700, 200, 1000));
    // Ember floor: fixed gray at 30% of the alpha.
    assert_eq!(heat_to_color(50, 1000), (200, 200, 200, 300));
}
