//! Touch-driven particle effects: a multi-touch protocol decoder, a
//! rate-limited screen-brightness analyzer, and a fixed-tick particle
//! simulator (fire emitters on touch, ambient "living pixels").
//!
//! All quantities that the model treats as real numbers are held here in
//! milli-units (a fixed-point representation with denominator 1000), so
//! that every state transition has an exact arithmetic meaning.

mod capture;
mod config;
mod effects;
mod fire;
mod fixed;
mod rng;
mod touch;

pub use config::Config;
pub use config::default_true;
pub use fixed::{FX_MAX, MILLI, fx_ok, fx_clip, div_trunc};
pub use fixed::{fx_add, fx_sub, fx_mul, fx_div, fx_min, fx_max};
pub use fixed::{fx_add_spec, fx_sub_spec, fx_mul_spec, fx_div_spec};
pub use fixed::{PI_MILLI, TAU_MILLI, HALF_PI_MILLI, sin_milli, cos_milli, sin_milli_spec,
    cos_milli_spec, sin_half_wave};
pub use capture::{ScreenAnalyzer, AnalysisData, parse_ppm_header, parse_ppm_brightness, ppm_header,
    ppm_ok, grid_cell_value, avg_value, token_u32, grid_coord, request_transition,
    finish_transition, lemma_uniform_white_brightness, lemma_overlapping_request_rejected,
    lemma_rapid_request_rejected, lemma_spaced_request_accepted,
    lemma_failed_capture_keeps_snapshot, LUMA_ONE, LUMA_HALF, GRID, GRID_CELLS, MAX_DIM,
    CAPTURE_INTERVAL_MS};
pub use effects::{EffectsState, LivingPixel, LivingKind, pixel_step, step_pixel, star_spawn,
    shooting_star_spawn, firefly_spawn, pixel_spawned_ok, retained_fires, retained_pixels, iabs,
    PIXEL_POPULATION_CAP, PIXEL_SPAWN_INTERVAL, MAX_CANVAS};
pub use fire::{FireParticle, FireEffect, particle_step, stepped_live, intensity_ramp,
    spawn_count_spec, regular_spawn, spark_spawn, fire_spawned_ok, step_particle, fire_spawn_rel,
    fire_update_rel, fire_tick_rel, decay_step, decay_run, seq_sum, lemma_decay_monotone,
    lemma_decay_run_zero, lemma_end_intensity_zero_within_third_second, lemma_fire_spawn_cap,
    lemma_ended_emitter_intensity,
    heat_to_color, heat_color_spec, FIRE_PARTICLE_CAP};
pub use rng::rand_milli;
pub use touch::{TouchEvent, TouchSlot, TouchDecoder, parse_event_record, decoder_step, le16, le32,
    is_touch_device_name, touch_name_spec, contains_bytes, lower_bytes, ascii_lower,
    le32_signed, clamp_slot, normal_milli, lemma_move_end_needs_tracking,
    lemma_event_coords_fx_ok, EV_ABS, ABS_MT_SLOT, ABS_MT_TRACKING_ID, ABS_MT_POSITION_X,
    ABS_MT_POSITION_Y, SLOT_COUNT, RECORD_LEN, DISPLAY_SCALE, MILLI_PER_RAW};
