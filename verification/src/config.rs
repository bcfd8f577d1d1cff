use vstd::prelude::*;

verus! {

/// The fixed default used for most of the effect toggles.
pub fn default_true() -> (r: bool)
    ensures
        r,
{
    true
}

/// Effect-enable configuration. The surrounding program reads it from a JSON
/// document; each field falls back to a fixed default when missing, and the
/// whole document falls back to `Config::default_config()` when malformed.
pub struct Config {
    pub fire_touch_enabled: bool,
    pub living_pixels_enabled: bool,
    pub lp_stars: bool,
    pub lp_shooting_stars: bool,
    pub lp_fireflies: bool,
}

impl Config {
    /// Whether every field holds its fixed default.
    pub open spec fn is_default(self) -> bool {
        &&& self.fire_touch_enabled
        &&& !self.living_pixels_enabled
        &&& self.lp_stars
        &&& self.lp_shooting_stars
        &&& self.lp_fireflies
    }

    /// The all-defaults configuration: fire on touch and every living-pixel
    /// kind enabled, but the ambient living-pixel subsystem itself off.
    pub fn default_config() -> (r: Config)
        ensures
            r.is_default(),
    {
        Config {
            fire_touch_enabled: true,
            living_pixels_enabled: false,
            lp_stars: true,
            lp_shooting_stars: true,
            lp_fireflies: true,
        }
    }
}

impl Clone for Config {
    fn clone(&self) -> (r: Config)
        ensures
            r == *self,
    {
        Config {
            fire_touch_enabled: self.fire_touch_enabled,
            living_pixels_enabled: self.living_pixels_enabled,
            lp_stars: self.lp_stars,
            lp_shooting_stars: self.lp_shooting_stars,
            lp_fireflies: self.lp_fireflies,
        }
    }
}

} // verus!
