use flick_effects::{Config, EffectsState, FireEffect, LivingKind, LivingPixel, step_pixel,
    PIXEL_POPULATION_CAP, default_true};

fn all_on_config() -> Config {
    Config {
        fire_touch_enabled: true,
        living_pixels_enabled: true,
        lp_stars: true,
        lp_shooting_stars: true,
        lp_fireflies: true,
    }
}

fn star_at(x: i64, y: i64) -> LivingPixel {
    LivingPixel { x, y, vx: 0, vy: 0, life: 1000, kind: LivingKind::Star, phase: 0 }
}

#[test]
fn defaults_enable_fire_but_not_ambient() {
    let c = Config::default_config();
    assert!(c.fire_touch_enabled);
    assert!(!c.living_pixels_enabled);
    assert!(c.lp_stars);
    assert!(c.lp_shooting_stars);
    assert!(c.lp_fireflies);
    assert!(default_true());
}

#[test]
fn touch_start_creates_an_emitter_at_the_point() {
    let mut s = EffectsState::new(Config::default_config());
    s.add_touch(120_000, 340_000);
    assert_eq!(s.fires.len(), 1);
    assert_eq!(s.fires[0].x, 120_000);
    assert_eq!(s.fires[0].y, 340_000);
    assert!(s.fires[0].is_active);
}

#[test]
fn touch_start_is_ignored_when_fire_is_disabled() {
    let mut c = Config::default_config();
    c.fire_touch_enabled = false;
    let mut s = EffectsState::new(c);
    s.add_touch(0, 0);
    assert_eq!(s.fires.len(), 0);
}

#[test]
fn moves_route_to_the_first_active_emitter() {
    let mut s = EffectsState::new(Config::default_config());
    s.add_touch(0, 0);
    s.add_touch(10_000, 10_000);
    // Freeze the first emitter; the second is now the first active one.
    s.fires[0].is_active = false;
    s.update_touch(77_000, 88_000);
    assert_eq!(s.fires[0].x, 0);
    assert_eq!(s.fires[1].x, 77_000);
    assert_eq!(s.fires[1].y, 88_000);
}

#[test]
fn end_freezes_the_first_active_emitter() {
    let mut s = EffectsState::new(Config::default_config());
    s.add_touch(5_000, 6_000);
    s.end_touch(5_000, 6_000);
    assert!(!s.fires[0].is_active);
    // The anchor stays where it was.
    assert_eq!(s.fires[0].x, 5_000);
    // A second end with no active emitter changes nothing.
    s.end_touch(0, 0);
    assert!(!s.fires[0].is_active);
}

#[test]
fn tick_accumulates_the_clock() {
    let mut s = EffectsState::new(Config::default_config());
    s.tick(25);
    s.tick(30);
    assert_eq!(s.time, 55);
}

#[test]
fn finished_emitters_are_removed_on_tick() {
    let mut s = EffectsState::new(Config::default_config());
    s.fires.push(FireEffect {
        x: 0,
        y: 0,
        particles: Vec::new(),
        is_active: false,
        intensity: 0,
        start_time: 0,
    });
    s.tick(25);
    assert_eq!(s.fires.len(), 0);
}

#[test]
fn active_emitters_survive_the_tick() {
    let mut s = EffectsState::new(Config::default_config());
    s.add_touch(100_000, 100_000);
    s.tick(25);
    assert_eq!(s.fires.len(), 1);
}

#[test]
fn full_population_spawns_no_new_pixels() {
    let mut s = EffectsState::new(all_on_config());
    for _ in 0..PIXEL_POPULATION_CAP {
        s.living_pixels.push(star_at(0, 0));
    }
    // However favorable the draws, a full population stays full.
    for _ in 0..50 {
        s.spawn_living_pixels();
        assert_eq!(s.living_pixels.len(), PIXEL_POPULATION_CAP);
    }
}

#[test]
fn population_growth_is_capped() {
    let mut s = EffectsState::new(all_on_config());
    for _ in 0..400 {
        s.spawn_living_pixels();
        // One spawn phase below the cap adds at most three pixels, so the
        // population can never pass the cap by more than that.
        assert!(s.living_pixels.len() <= PIXEL_POPULATION_CAP + 3);
    }
}

#[test]
fn disabled_kinds_never_spawn() {
    let mut c = all_on_config();
    c.lp_stars = false;
    c.lp_shooting_stars = false;
    c.lp_fireflies = false;
    let mut s = EffectsState::new(c);
    for _ in 0..100 {
        s.spawn_living_pixels();
    }
    assert_eq!(s.living_pixels.len(), 0);
}

#[test]
fn ambient_subsystem_is_inert_when_disabled() {
    let mut s = EffectsState::new(Config::default_config());
    s.living_pixels.push(star_at(0, 0));
    s.tick(1000);
    // Disabled: the pixel was neither updated nor swept.
    assert_eq!(s.living_pixels.len(), 1);
    assert_eq!(s.living_pixels[0].life, 1000);
    assert_eq!(s.last_spawn, 0);
}

#[test]
fn spawn_phase_runs_at_most_once_per_interval() {
    let mut s = EffectsState::new(all_on_config());
    s.tick(50);
    assert_eq!(s.last_spawn, 0);
    s.tick(60);
    // The clock is at 110 now, past the 100 ms spawn interval.
    assert_eq!(s.last_spawn, 110);
    s.tick(50);
    assert_eq!(s.last_spawn, 110);
}

#[test]
fn dead_pixels_are_swept_on_tick() {
    let mut s = EffectsState::new(all_on_config());
    let mut dying = star_at(0, 0);
    dying.life = 3;
    s.living_pixels.push(dying);
    // A star fades at 0.05/s: 0.1 s costs 5 milli-units of life.
    s.tick(100);
    assert_eq!(s.living_pixels.iter().filter(|p| p.life <= 0).count(), 0);
}

#[test]
fn star_step_only_fades_and_twinkles() {
    let p = star_at(40_000, 50_000);
    let q = step_pixel(&p, 100, 540_000, 1_170_000, 500, 500);
    assert_eq!(q.x, 40_000);
    assert_eq!(q.y, 50_000);
    assert_eq!(q.life, 995);
    assert_eq!(q.phase, 500);
}

#[test]
fn shooting_star_step_moves_ballistically() {
    let p = LivingPixel {
        x: 0,
        y: 0,
        vx: 400_000,
        vy: 200_000,
        life: 1000,
        kind: LivingKind::ShootingStar,
        phase: 0,
    };
    let q = step_pixel(&p, 100, 540_000, 1_170_000, 500, 500);
    assert_eq!(q.x, 40_000);
    assert_eq!(q.y, 20_000);
    assert_eq!(q.life, 960);
}

#[test]
fn firefly_step_bounces_off_the_left_edge() {
    let p = LivingPixel {
        x: 0,
        y: 500_000,
        vx: -1_000_000,
        vy: 0,
        life: 1000,
        kind: LivingKind::Firefly,
        phase: 0,
    };
    // Centered draws add no acceleration; damping leaves -950 px/s.
    let q = step_pixel(&p, 1000, 540_000, 1_170_000, 500, 500);
    assert_eq!(q.x, 0);
    assert_eq!(q.vx, 950_000);
    assert_eq!(q.life, 850);
}

#[test]
fn ended_emitter_decays_and_is_then_removed() {
    let mut s = EffectsState::new(Config::default_config());
    s.add_touch(100_000, 100_000);
    // Let the emitter ramp up and spawn a batch of particles.
    s.tick(100);
    assert_eq!(s.fires.len(), 1);
    assert!(!s.fires[0].particles.is_empty());
    s.end_touch(100_000, 100_000);
    // Still present right after the end: particles decay independently.
    assert_eq!(s.fires.len(), 1);
    // A full second outlives every particle lifetime and the intensity
    // decay, so the emitter is gone after the sweep.
    s.tick(1000);
    s.tick(1000);
    assert_eq!(s.fires.len(), 0);
}
