//! The aggregate simulation state: fire emitters driven by touch events
//! and the ambient living-pixel effects, advanced on a fixed-dt tick.
//!
//! Times are milli-seconds of the simulation clock, which accumulates the
//! elapsed time handed to `tick`; positions are milli-pixels.

use vstd::prelude::*;
use crate::config::Config;
use crate::fire::{FireEffect, fire_tick_rel, fire_spawn_rel, fire_update_rel};
use crate::fixed::{fx_ok, fx_add, fx_sub, fx_mul, fx_add_spec, fx_sub_spec, fx_mul_spec,
    TAU_MILLI};
use crate::rng::rand_milli;

verus! {

/// Living-pixel population cap: spawn attempts at or above it are
/// silently dropped.
pub const PIXEL_POPULATION_CAP: usize = 100;

/// Spacing of living-pixel spawn phases, in milliseconds.
pub const PIXEL_SPAWN_INTERVAL: i64 = 100;

/// Largest canvas edge the simulation accepts, in pixels.
pub const MAX_CANVAS: i32 = 1000000;

/// The kind of an ambient living pixel.
#[derive(Clone, Copy)]
pub enum LivingKind {
    Star,
    ShootingStar,
    Firefly,
}

/// One ambient living pixel.
#[derive(Clone, Copy)]
pub struct LivingPixel {
    pub x: i64,
    pub y: i64,
    pub vx: i64,
    pub vy: i64,
    pub life: i64,
    pub kind: LivingKind,
    pub phase: i64,
}

impl LivingPixel {
    /// In-range fields.
    pub open spec fn wf(self) -> bool {
        &&& fx_ok(self.x)
        &&& fx_ok(self.y)
        &&& fx_ok(self.vx)
        &&& fx_ok(self.vy)
        &&& fx_ok(self.life)
        &&& fx_ok(self.phase)
    }
}

/// The magnitude of a velocity component, used when a firefly bounces.
pub open spec fn iabs(v: int) -> int {
    if v >= 0 {
        v
    } else {
        -v
    }
}

/// One tick of a living pixel, on a `w` by `h` milli-pixel canvas. The
/// phase always advances. A star only fades slowly; a shooting star
/// moves ballistically and fades fast; a firefly takes a random
/// acceleration from the two draws, is damped, moves, fades at the
/// middle rate and bounces off the four canvas edges.
pub open spec fn pixel_step(p: LivingPixel, dt: int, w: int, h: int, r1: int, r2: int)
    -> LivingPixel {
    let phase2 = fx_add_spec(p.phase as int, fx_mul_spec(dt, 5000));
    match p.kind {
        LivingKind::Star => LivingPixel {
            life: fx_sub_spec(p.life as int, fx_mul_spec(dt, 50)) as i64,
            phase: phase2 as i64,
            ..p
        },
        LivingKind::ShootingStar => LivingPixel {
            x: fx_add_spec(p.x as int, fx_mul_spec(p.vx as int, dt)) as i64,
            y: fx_add_spec(p.y as int, fx_mul_spec(p.vy as int, dt)) as i64,
            life: fx_sub_spec(p.life as int, fx_mul_spec(dt, 400)) as i64,
            phase: phase2 as i64,
            ..p
        },
        LivingKind::Firefly => {
            let vxa = fx_mul_spec(
                fx_add_spec(
                    p.vx as int,
                    fx_mul_spec(fx_mul_spec(fx_sub_spec(r1, 500), 100000), dt),
                ),
                950,
            );
            let vya = fx_mul_spec(
                fx_add_spec(
                    p.vy as int,
                    fx_mul_spec(fx_mul_spec(fx_sub_spec(r2, 500), 100000), dt),
                ),
                950,
            );
            let xa = fx_add_spec(p.x as int, fx_mul_spec(vxa, dt));
            let ya = fx_add_spec(p.y as int, fx_mul_spec(vya, dt));
            let x2 = if xa < 0 {
                0
            } else if xa > w {
                w
            } else {
                xa
            };
            let vx2 = if xa < 0 {
                iabs(vxa)
            } else if xa > w {
                -iabs(vxa)
            } else {
                vxa
            };
            let y2 = if ya < 0 {
                0
            } else if ya > h {
                h
            } else {
                ya
            };
            let vy2 = if ya < 0 {
                iabs(vya)
            } else if ya > h {
                -iabs(vya)
            } else {
                vya
            };
            LivingPixel {
                x: x2 as i64,
                y: y2 as i64,
                vx: vx2 as i64,
                vy: vy2 as i64,
                life: fx_sub_spec(p.life as int, fx_mul_spec(dt, 150)) as i64,
                kind: p.kind,
                phase: phase2 as i64,
            }
        },
    }
}

/// A star spawned from three draws: anywhere across the width, in the
/// upper three fifths, stationary, full life, random twinkle phase.
pub open spec fn star_spawn(w: int, h: int, d1: int, d2: int, d3: int) -> LivingPixel {
    LivingPixel {
        x: fx_mul_spec(d1, w) as i64,
        y: fx_mul_spec(fx_mul_spec(d2, h), 600) as i64,
        vx: 0,
        vy: 0,
        life: 1000,
        kind: LivingKind::Star,
        phase: fx_mul_spec(d3, TAU_MILLI as int) as i64,
    }
}

/// A shooting star spawned from four draws: upper-left region, fast
/// down-right velocity, full life.
pub open spec fn shooting_star_spawn(w: int, h: int, e1: int, e2: int, e3: int, e4: int)
    -> LivingPixel {
    LivingPixel {
        x: fx_mul_spec(fx_mul_spec(e1, w), 500) as i64,
        y: fx_mul_spec(fx_mul_spec(e2, h), 300) as i64,
        vx: fx_add_spec(fx_mul_spec(e3, 400000), 200000) as i64,
        vy: fx_add_spec(fx_mul_spec(e4, 200000), 100000) as i64,
        life: 1000,
        kind: LivingKind::ShootingStar,
        phase: 0,
    }
}

/// A firefly spawned from five draws: anywhere on the canvas, slow
/// random drift, full life, random glow phase.
pub open spec fn firefly_spawn(w: int, h: int, f1: int, f2: int, f3: int, f4: int, f5: int)
    -> LivingPixel {
    LivingPixel {
        x: fx_mul_spec(f1, w) as i64,
        y: fx_mul_spec(f2, h) as i64,
        vx: fx_mul_spec(fx_sub_spec(f3, 500), 30000) as i64,
        vy: fx_mul_spec(fx_sub_spec(f4, 500), 30000) as i64,
        life: 1000,
        kind: LivingKind::Firefly,
        phase: fx_mul_spec(f5, TAU_MILLI as int) as i64,
    }
}

/// What a spawn phase may append: one of the three spawn forms, for some
/// draws, and only of a kind the configuration enables.
pub open spec fn pixel_spawned_ok(cfg: Config, w: int, h: int, p: LivingPixel) -> bool {
    ||| (cfg.lp_stars && exists|d1: int, d2: int, d3: int|
        {
            &&& 0 <= d1 < 1000
            &&& 0 <= d2 < 1000
            &&& 0 <= d3 < 1000
            &&& p == star_spawn(w, h, d1, d2, d3)
        })
    ||| (cfg.lp_shooting_stars && exists|e1: int, e2: int, e3: int, e4: int|
        {
            &&& 0 <= e1 < 1000
            &&& 0 <= e2 < 1000
            &&& 0 <= e3 < 1000
            &&& 0 <= e4 < 1000
            &&& p == shooting_star_spawn(w, h, e1, e2, e3, e4)
        })
    ||| (cfg.lp_fireflies && exists|f1: int, f2: int, f3: int, f4: int, f5: int|
        {
            &&& 0 <= f1 < 1000
            &&& 0 <= f2 < 1000
            &&& 0 <= f3 < 1000
            &&& 0 <= f4 < 1000
            &&& 0 <= f5 < 1000
            &&& p == firefly_spawn(w, h, f1, f2, f3, f4, f5)
        })
}

/// The emitters of a tick's outcome that are not yet done, in order.
pub open spec fn retained_fires(fs: Seq<FireEffect>) -> Seq<FireEffect>
    decreases fs.len(),
{
    if fs.len() == 0 {
        Seq::empty()
    } else {
        retained_fires(fs.drop_last()) + if !(!fs.last().is_active && fs.last().particles@.len()
            == 0) {
            seq![fs.last()]
        } else {
            Seq::empty()
        }
    }
}

/// The pixels still alive after a tick, in order.
pub open spec fn retained_pixels(ps: Seq<LivingPixel>) -> Seq<LivingPixel>
    decreases ps.len(),
{
    if ps.len() == 0 {
        Seq::empty()
    } else {
        retained_pixels(ps.drop_last()) + if ps.last().life > 0 {
            seq![ps.last()]
        } else {
            Seq::empty()
        }
    }
}

/// The aggregate simulation state.
pub struct EffectsState {
    pub fires: Vec<FireEffect>,
    pub living_pixels: Vec<LivingPixel>,
    pub last_spawn: i64,
    pub config: Config,
    pub width: i32,
    pub height: i32,
    pub time: i64,
}

impl EffectsState {
    /// Well-formed state: every emitter and pixel in range, the clocks in
    /// the fixed-point band, the canvas within the accepted size.
    pub open spec fn wf(self) -> bool {
        &&& forall|k: int| 0 <= k < self.fires@.len() ==> (#[trigger] self.fires@[k]).wf()
        &&& forall|k: int|
            0 <= k < self.fires@.len() ==> 0 <= (#[trigger] self.fires@[k]).start_time
                <= self.time
        &&& forall|k: int|
            0 <= k < self.living_pixels@.len() ==> (#[trigger] self.living_pixels@[k]).wf()
        &&& fx_ok(self.time)
        &&& fx_ok(self.last_spawn)
        &&& 0 <= self.width <= MAX_CANVAS
        &&& 0 <= self.height <= MAX_CANVAS
        &&& 0 <= self.time
        &&& 0 <= self.last_spawn
    }

    /// A fresh state under the given configuration: no effects yet, the
    /// default portrait canvas, the clock at zero.
    pub fn new(config: Config) -> (r: EffectsState)
        ensures
            r.wf(),
            r.fires@.len() == 0,
            r.living_pixels@.len() == 0,
            r.config == config,
            r.width == 540,
            r.height == 1170,
            r.time == 0,
            r.last_spawn == 0,
    {
        EffectsState {
            fires: Vec::new(),
            living_pixels: Vec::new(),
            last_spawn: 0,
            config,
            width: 540,
            height: 1170,
            time: 0,
        }
    }

    /// Adopt the canvas size reported by the surrounding program.
    pub fn set_canvas_size(&mut self, width: i32, height: i32)
        requires
            old(self).wf(),
            0 <= width <= MAX_CANVAS,
            0 <= height <= MAX_CANVAS,
        ensures
            final(self).wf(),
            *final(self) == (EffectsState { width, height, ..*old(self) }),
    {
        self.width = width;
        self.height = height;
    }

    /// A touch began: when fire is enabled, a fresh emitter appears at
    /// the touch point; otherwise nothing changes.
    pub fn add_touch(&mut self, x: i64, y: i64)
        requires
            old(self).wf(),
            fx_ok(x),
            fx_ok(y),
        ensures
            final(self).wf(),
            final(self).living_pixels == old(self).living_pixels,
            final(self).config == old(self).config,
            final(self).time == old(self).time,
            final(self).last_spawn == old(self).last_spawn,
            final(self).width == old(self).width,
            final(self).height == old(self).height,
            !old(self).config.fire_touch_enabled ==> final(self).fires == old(self).fires,
            old(self).config.fire_touch_enabled ==> {
                &&& final(self).fires@.len() == old(self).fires@.len() + 1
                &&& final(self).fires@.subrange(0, old(self).fires@.len() as int) == old(self).fires@
                &&& final(self).fires@.last() == (FireEffect {
                    x,
                    y,
                    particles: final(self).fires@.last().particles,
                    is_active: true,
                    intensity: 0,
                    start_time: old(self).time,
                })
                &&& final(self).fires@.last().particles@.len() == 0
            },
    {
        if self.config.fire_touch_enabled {
            let t = self.time;
            let f = FireEffect::new(x, y, t);
            self.fires.push(f);
            proof {
                assert(self.fires@.subrange(0, old(self).fires@.len() as int) =~= old(self).fires@);
            }
        }
    }

    /// A touch moved: the first currently active emitter follows it;
    /// with no active emitter nothing changes. Under this routing policy
    /// only one touch-driven emitter is tracked at a time.
    pub fn update_touch(&mut self, x: i64, y: i64)
        requires
            old(self).wf(),
            fx_ok(x),
            fx_ok(y),
        ensures
            final(self).wf(),
            final(self).living_pixels == old(self).living_pixels,
            final(self).config == old(self).config,
            final(self).time == old(self).time,
            final(self).last_spawn == old(self).last_spawn,
            final(self).width == old(self).width,
            final(self).height == old(self).height,
            (forall|k: int|
                0 <= k < old(self).fires@.len() ==> !(#[trigger] old(self).fires@[k]).is_active)
                ==> final(self).fires == old(self).fires,
            forall|i: int|
                {
                    &&& 0 <= i < old(self).fires@.len()
                    &&& (#[trigger] old(self).fires@[i]).is_active
                    &&& forall|k: int| 0 <= k < i ==> !(#[trigger] old(self).fires@[k]).is_active
                } ==> final(self).fires@ == old(self).fires@.update(
                    i,
                    FireEffect { x, y, ..old(self).fires@[i] },
                ),
    {
        let n = self.fires.len();
        let mut i: usize = 0;
        while i < n
            invariant
                i <= n,
                n == self.fires@.len(),
                self.fires@ == old(self).fires@,
                self.living_pixels == old(self).living_pixels,
                forall|k: int| 0 <= k < i ==> !(#[trigger] self.fires@[k]).is_active,
                old(self).wf(),
                *self == *old(self),
                fx_ok(x),
                fx_ok(y),
            decreases n - i,
        {
            if self.fires[i].is_active {
                let fire = &mut self.fires[i];
                fire.x = x;
                fire.y = y;
                return ;
            }
            i = i + 1;
        }
    }

    /// A touch ended: the first currently active emitter is frozen (its
    /// anchor stays, it only decays from here); with no active emitter
    /// nothing changes.
    pub fn end_touch(&mut self, x: i64, y: i64)
        requires
            old(self).wf(),
        ensures
            final(self).wf(),
            final(self).living_pixels == old(self).living_pixels,
            final(self).config == old(self).config,
            final(self).time == old(self).time,
            final(self).last_spawn == old(self).last_spawn,
            final(self).width == old(self).width,
            final(self).height == old(self).height,
            (forall|k: int|
                0 <= k < old(self).fires@.len() ==> !(#[trigger] old(self).fires@[k]).is_active)
                ==> final(self).fires == old(self).fires,
            forall|i: int|
                {
                    &&& 0 <= i < old(self).fires@.len()
                    &&& (#[trigger] old(self).fires@[i]).is_active
                    &&& forall|k: int| 0 <= k < i ==> !(#[trigger] old(self).fires@[k]).is_active
                } ==> final(self).fires@ == old(self).fires@.update(
                    i,
                    FireEffect { is_active: false, ..old(self).fires@[i] },
                ),
    {
        let n = self.fires.len();
        let mut i: usize = 0;
        while i < n
            invariant
                i <= n,
                n == self.fires@.len(),
                self.fires@ == old(self).fires@,
                forall|k: int| 0 <= k < i ==> !(#[trigger] self.fires@[k]).is_active,
                old(self).wf(),
                *self == *old(self),
            decreases n - i,
        {
            if self.fires[i].is_active {
                let fire = &mut self.fires[i];
                fire.is_active = false;
                return ;
            }
            i = i + 1;
        }
    }

    /// Advance every living pixel one tick; the population itself does
    /// not change here (removal happens in the tick's sweep).
    #[verifier::loop_isolation(false)]
    pub fn update_living_pixels(&mut self, dt: i64)
        requires
            old(self).wf(),
            0 <= dt <= 1000000,
        ensures
            final(self).wf(),
            final(self).fires == old(self).fires,
            final(self).config == old(self).config,
            final(self).time == old(self).time,
            final(self).last_spawn == old(self).last_spawn,
            final(self).width == old(self).width,
            final(self).height == old(self).height,
            final(self).living_pixels@.len() == old(self).living_pixels@.len(),
            exists|rs1: Seq<int>, rs2: Seq<int>|
                #![trigger rs1.len(), rs2.len()]
                {
                    &&& rs1.len() == old(self).living_pixels@.len()
                    &&& rs2.len() == old(self).living_pixels@.len()
                    &&& (forall|k: int| 0 <= k < rs1.len() ==> 0 <= #[trigger] rs1[k] < 1000)
                    &&& (forall|k: int| 0 <= k < rs2.len() ==> 0 <= #[trigger] rs2[k] < 1000)
                    &&& (forall|i: int|
                        0 <= i < old(self).living_pixels@.len() ==> final(self).living_pixels@[i] == #[trigger] pixel_step(
                            old(self).living_pixels@[i],
                            dt as int,
                            old(self).width as int * 1000,
                            old(self).height as int * 1000,
                            rs1[i],
                            rs2[i],
                        ))
                },
    {
        let w: i64 = (self.width as i64) * 1000;
        let h: i64 = (self.height as i64) * 1000;
        let n = self.living_pixels.len();
        let ghost mut rs1: Seq<int> = Seq::empty();
        let ghost mut rs2: Seq<int> = Seq::empty();
        let mut i: usize = 0;
        while i < n
            invariant
                i <= n,
                n == self.living_pixels@.len(),
                rs1.len() == i,
                rs2.len() == i,
                forall|k: int| 0 <= k < rs1.len() ==> 0 <= #[trigger] rs1[k] < 1000,
                forall|k: int| 0 <= k < rs2.len() ==> 0 <= #[trigger] rs2[k] < 1000,
                forall|k: int|
                    i <= k < n ==> #[trigger] self.living_pixels@[k] == old(self).living_pixels@[k],
                forall|k: int|
                    0 <= k < n ==> (#[trigger] self.living_pixels@[k]).wf(),
                forall|k: int|
                    0 <= k < i ==> #[trigger] self.living_pixels@[k] == pixel_step(
                        old(self).living_pixels@[k],
                        dt as int,
                        w as int,
                        h as int,
                        rs1[k],
                        rs2[k],
                    ),
                self.fires == old(self).fires,
                self.config == old(self).config,
                self.time == old(self).time,
                self.last_spawn == old(self).last_spawn,
                self.width == old(self).width,
                self.height == old(self).height,
            decreases n - i,
        {
            let p = self.living_pixels[i];
            let r1 = rand_milli();
            let r2 = rand_milli();
            let q = step_pixel(&p, dt, w, h, r1, r2);
            let ghost prev = self.living_pixels@;
            self.living_pixels[i] = q;
            proof {
                rs1 = rs1.push(r1 as int);
                rs2 = rs2.push(r2 as int);
                assert(self.living_pixels@ == prev.update(i as int, q));
            }
            i = i + 1;
        }
    }

    /// One probabilistic spawn phase: at most one pixel of each enabled
    /// kind, with its fixed per-kind probability; at or above the
    /// population cap every attempt is silently dropped.
    #[verifier::loop_isolation(false)]
    pub fn spawn_living_pixels(&mut self)
        requires
            old(self).wf(),
        ensures
            final(self).wf(),
            final(self).fires == old(self).fires,
            final(self).config == old(self).config,
            final(self).time == old(self).time,
            final(self).last_spawn == old(self).last_spawn,
            final(self).width == old(self).width,
            final(self).height == old(self).height,
            old(self).living_pixels@.len() >= PIXEL_POPULATION_CAP ==> final(self).living_pixels
                == old(self).living_pixels,
            old(self).living_pixels@.len() < PIXEL_POPULATION_CAP ==> {
                &&& final(self).living_pixels@.len() >= old(self).living_pixels@.len()
                &&& final(self).living_pixels@.len() <= old(self).living_pixels@.len() + 3
                &&& final(self).living_pixels@.subrange(
                    0,
                    old(self).living_pixels@.len() as int,
                ) == old(self).living_pixels@
                &&& forall|j: int|
                    old(self).living_pixels@.len() <= j < final(self).living_pixels@.len()
                        ==> pixel_spawned_ok(
                        old(self).config,
                        old(self).width as int * 1000,
                        old(self).height as int * 1000,
                        #[trigger] final(self).living_pixels@[j],
                    )
            },
    {
        if self.living_pixels.len() >= PIXEL_POPULATION_CAP {
            return ;
        }
        let w: i64 = (self.width as i64) * 1000;
        let h: i64 = (self.height as i64) * 1000;
        let ghost base = self.living_pixels@;
        let g1 = rand_milli();
        if self.config.lp_stars && g1 < 300 {
            let d1 = rand_milli();
            let d2 = rand_milli();
            let d3 = rand_milli();
            let p = LivingPixel {
                x: fx_mul(d1, w),
                y: fx_mul(fx_mul(d2, h), 600),
                vx: 0,
                vy: 0,
                life: 1000,
                kind: LivingKind::Star,
                phase: fx_mul(d3, TAU_MILLI),
            };
            proof {
                assert(p == star_spawn(w as int, h as int, d1 as int, d2 as int, d3 as int));
                assert(pixel_spawned_ok(self.config, w as int, h as int, p));
            }
            self.living_pixels.push(p);
            proof {
                assert(self.living_pixels@.subrange(0, base.len() as int) =~= base);
            }
        }
        let g2 = rand_milli();
        if self.config.lp_shooting_stars && g2 < 20 {
            let e1 = rand_milli();
            let e2 = rand_milli();
            let e3 = rand_milli();
            let e4 = rand_milli();
            let p = LivingPixel {
                x: fx_mul(fx_mul(e1, w), 500),
                y: fx_mul(fx_mul(e2, h), 300),
                vx: fx_add(fx_mul(e3, 400000), 200000),
                vy: fx_add(fx_mul(e4, 200000), 100000),
                life: 1000,
                kind: LivingKind::ShootingStar,
                phase: 0,
            };
            proof {
                assert(p == shooting_star_spawn(
                    w as int,
                    h as int,
                    e1 as int,
                    e2 as int,
                    e3 as int,
                    e4 as int,
                ));
                assert(pixel_spawned_ok(self.config, w as int, h as int, p));
            }
            self.living_pixels.push(p);
            proof {
                assert(self.living_pixels@.subrange(0, base.len() as int) =~= base);
            }
        }
        let g3 = rand_milli();
        if self.config.lp_fireflies && g3 < 80 {
            let f1 = rand_milli();
            let f2 = rand_milli();
            let f3 = rand_milli();
            let f4 = rand_milli();
            let f5 = rand_milli();
            let p = LivingPixel {
                x: fx_mul(f1, w),
                y: fx_mul(f2, h),
                vx: fx_mul(fx_sub(f3, 500), 30000),
                vy: fx_mul(fx_sub(f4, 500), 30000),
                life: 1000,
                kind: LivingKind::Firefly,
                phase: fx_mul(f5, TAU_MILLI),
            };
            proof {
                assert(p == firefly_spawn(
                    w as int,
                    h as int,
                    f1 as int,
                    f2 as int,
                    f3 as int,
                    f4 as int,
                    f5 as int,
                ));
                assert(pixel_spawned_ok(self.config, w as int, h as int, p));
            }
            self.living_pixels.push(p);
            proof {
                assert(self.living_pixels@.subrange(0, base.len() as int) =~= base);
            }
        }
    }

    /// One simulation tick: the clock advances by the actual elapsed
    /// time, every emitter runs its spawn and update phases and finished
    /// emitters are removed; when the ambient subsystem is enabled the
    /// living pixels advance, a spawn phase runs at most once per spawn
    /// interval, and dead pixels are swept out.
    pub fn tick(&mut self, dt: i64)
        requires
            old(self).wf(),
            0 <= dt <= 1000000,
        ensures
            final(self).wf(),
            final(self).config == old(self).config,
            final(self).width == old(self).width,
            final(self).height == old(self).height,
            final(self).time == fx_add_spec(old(self).time as int, dt as int),
            exists|ticked: Seq<FireEffect>|
                {
                    &&& ticked.len() == old(self).fires@.len()
                    &&& (forall|k: int|
                        0 <= k < ticked.len() ==> fire_tick_rel(
                            old(self).fires@[k],
                            #[trigger] ticked[k],
                            dt as int,
                            fx_add_spec(old(self).time as int, dt as int),
                        ))
                    &&& final(self).fires@ == retained_fires(ticked)
                },
            forall|k: int|
                0 <= k < final(self).fires@.len() ==> !(!(#[trigger] final(self).fires@[k]).is_active
                    && final(self).fires@[k].particles@.len() == 0),
            !old(self).config.living_pixels_enabled ==> final(self).living_pixels == old(self).living_pixels && final(self).last_spawn == old(self).last_spawn,
            old(self).config.living_pixels_enabled ==> {
                let t2 = fx_add_spec(old(self).time as int, dt as int);
                &&& final(self).living_pixels@.len() <= old(self).living_pixels@.len() + 3
                &&& (old(self).living_pixels@.len() >= PIXEL_POPULATION_CAP ==> final(self).living_pixels@.len() <= old(self).living_pixels@.len())
                &&& forall|k: int|
                    0 <= k < final(self).living_pixels@.len() ==> (#[trigger] final(self).living_pixels@[k]).life > 0
                &&& (t2 - old(self).last_spawn > PIXEL_SPAWN_INTERVAL ==> final(self).last_spawn
                    == t2)
                &&& (t2 - old(self).last_spawn <= PIXEL_SPAWN_INTERVAL ==> final(self).last_spawn
                    == old(self).last_spawn && final(self).living_pixels@.len() <= old(self).living_pixels@.len())
            },
    {
        self.time = fx_add(self.time, dt);
        let now = self.time;
        self.tick_fires(dt, now);
        if self.config.living_pixels_enabled {
            self.tick_pixels(dt, now);
        }
    }

    /// The fire phase of one tick: each emitter spawns and updates, then
    /// the finished ones are removed.
    #[verifier::loop_isolation(false)]
    #[verifier::rlimit(100)]
    fn tick_fires(&mut self, dt: i64, now: i64)
        requires
            0 <= dt <= 1000000,
            now == old(self).time,
            fx_ok(now),
            0 <= now,
            forall|k: int| 0 <= k < old(self).fires@.len() ==> (#[trigger] old(self).fires@[k]).wf(),
            forall|k: int|
                0 <= k < old(self).fires@.len() ==> 0 <= (#[trigger] old(self).fires@[k]).start_time <= now,
        ensures
            final(self).living_pixels == old(self).living_pixels,
            final(self).config == old(self).config,
            final(self).time == old(self).time,
            final(self).last_spawn == old(self).last_spawn,
            final(self).width == old(self).width,
            final(self).height == old(self).height,
            forall|k: int| 0 <= k < final(self).fires@.len() ==> (#[trigger] final(self).fires@[k]).wf(),
            forall|k: int|
                0 <= k < final(self).fires@.len() ==> 0 <= (#[trigger] final(self).fires@[k]).start_time <= now,
            exists|ticked: Seq<FireEffect>|
                {
                    &&& ticked.len() == old(self).fires@.len()
                    &&& (forall|k: int|
                        0 <= k < ticked.len() ==> fire_tick_rel(
                            old(self).fires@[k],
                            #[trigger] ticked[k],
                            dt as int,
                            now as int,
                        ))
                    &&& final(self).fires@ == retained_fires(ticked)
                },
            forall|k: int|
                0 <= k < final(self).fires@.len() ==> !(!(#[trigger] final(self).fires@[k]).is_active
                    && final(self).fires@[k].particles@.len() == 0),
    {
        let ghost fires0 = self.fires@;
        let n = self.fires.len();
        let mut i: usize = 0;
        while i < n
            invariant
                i <= n,
                n == self.fires@.len(),
                forall|k: int| 0 <= k < n ==> (#[trigger] self.fires@[k]).wf(),
                forall|k: int| 0 <= k < n ==> 0 <= (#[trigger] self.fires@[k]).start_time <= now,
                forall|k: int| i <= k < n ==> #[trigger] self.fires@[k] == fires0[k],
                forall|k: int|
                    0 <= k < i ==> fire_tick_rel(
                        fires0[k],
                        #[trigger] self.fires@[k],
                        dt as int,
                        now as int,
                    ),
                self.living_pixels == old(self).living_pixels,
                self.config == old(self).config,
                self.time == old(self).time,
                self.last_spawn == old(self).last_spawn,
                self.width == old(self).width,
                self.height == old(self).height,
            decreases n - i,
        {
            self.fires[i].spawn_particles(dt, now);
            let ghost midf = self.fires@[i as int];
            self.fires[i].update(dt, now);
            proof {
                assert(fire_spawn_rel(fires0[i as int], midf, dt as int, now as int));
                assert(fire_update_rel(midf, self.fires@[i as int], dt as int, now as int));
                assert(fire_tick_rel(fires0[i as int], self.fires@[i as int], dt as int,
                    now as int));
            }
            i = i + 1;
        }
        let ghost ticked = self.fires@;
        let mut kept: Vec<FireEffect> = Vec::new();
        let ghost mut j: int = 0;
        while self.fires.len() > 0
            invariant
                0 <= j <= ticked.len(),
                self.fires@ == ticked.subrange(j, ticked.len() as int),
                kept@ == retained_fires(ticked.subrange(0, j)),
                forall|k: int| 0 <= k < ticked.len() ==> (#[trigger] ticked[k]).wf(),
                forall|k: int|
                    0 <= k < ticked.len() ==> 0 <= (#[trigger] ticked[k]).start_time <= now,
                forall|k: int| 0 <= k < kept@.len() ==> (#[trigger] kept@[k]).wf(),
                forall|k: int|
                    0 <= k < kept@.len() ==> 0 <= (#[trigger] kept@[k]).start_time <= now,
                forall|k: int|
                    0 <= k < kept@.len() ==> !(!(#[trigger] kept@[k]).is_active
                        && kept@[k].particles@.len() == 0),
                self.living_pixels == old(self).living_pixels,
                self.config == old(self).config,
                self.time == old(self).time,
                self.last_spawn == old(self).last_spawn,
                self.width == old(self).width,
                self.height == old(self).height,
            decreases self.fires@.len(),
        {
            let f = self.fires.remove(0);
            proof {
                assert(f == ticked[j]);
                assert(self.fires@ =~= ticked.subrange(j + 1, ticked.len() as int));
            }
            let keep = !(!f.is_active && f.particles.len() == 0);
            if keep {
                kept.push(f);
            }
            proof {
                let pre = ticked.subrange(0, j);
                let cur = ticked.subrange(0, j + 1);
                assert(cur.drop_last() =~= pre);
                assert(cur.last() == ticked[j]);
                assert(kept@ =~= retained_fires(cur));
                j = j + 1;
            }
        }
        self.fires = kept;
        proof {
            assert(ticked.subrange(0, ticked.len() as int) =~= ticked);
        }
    }

    /// The ambient phase of one tick: pixels advance, at most one spawn
    /// phase per interval runs, and dead pixels are swept out.
    #[verifier::loop_isolation(false)]
    #[verifier::rlimit(60)]
    fn tick_pixels(&mut self, dt: i64, now: i64)
        requires
            old(self).wf(),
            0 <= dt <= 1000000,
            now == old(self).time,
        ensures
            final(self).wf(),
            final(self).fires == old(self).fires,
            final(self).config == old(self).config,
            final(self).time == old(self).time,
            final(self).width == old(self).width,
            final(self).height == old(self).height,
            final(self).living_pixels@.len() <= old(self).living_pixels@.len() + 3,
            old(self).living_pixels@.len() >= PIXEL_POPULATION_CAP ==> final(self).living_pixels@.len() <= old(self).living_pixels@.len(),
            forall|k: int|
                0 <= k < final(self).living_pixels@.len() ==> (#[trigger] final(self).living_pixels@[k]).life > 0,
            now - old(self).last_spawn > PIXEL_SPAWN_INTERVAL ==> final(self).last_spawn == now,
            now - old(self).last_spawn <= PIXEL_SPAWN_INTERVAL ==> final(self).last_spawn == old(self).last_spawn && final(self).living_pixels@.len() <= old(self).living_pixels@.len(),
    {
        self.update_living_pixels(dt);
        let gap: i64 = now - self.last_spawn;
        if gap > PIXEL_SPAWN_INTERVAL {
            self.spawn_living_pixels();
            self.last_spawn = now;
        }
        let ghost px = self.living_pixels@;
        let ghost mid_last = self.last_spawn;
        let mut kept_px: Vec<LivingPixel> = Vec::new();
        let ghost mut jp: int = 0;
        while self.living_pixels.len() > 0
            invariant
                self.fires == old(self).fires,
                self.config == old(self).config,
                self.time == old(self).time,
                self.last_spawn == mid_last,
                self.width == old(self).width,
                self.height == old(self).height,
                forall|k: int| 0 <= k < self.fires@.len() ==> (#[trigger] self.fires@[k]).wf(),
                forall|k: int|
                    0 <= k < self.fires@.len() ==> 0 <= (#[trigger] self.fires@[k]).start_time
                        <= self.time,
                0 <= jp <= px.len(),
                self.living_pixels@ == px.subrange(jp, px.len() as int),
                kept_px@ == retained_pixels(px.subrange(0, jp)),
                forall|k: int| 0 <= k < px.len() ==> (#[trigger] px[k]).wf(),
                forall|k: int| 0 <= k < kept_px@.len() ==> (#[trigger] kept_px@[k]).wf(),
                forall|k: int| 0 <= k < kept_px@.len() ==> (#[trigger] kept_px@[k]).life > 0,
                kept_px@.len() <= jp,
            decreases self.living_pixels@.len(),
        {
            let p = self.living_pixels.remove(0);
            proof {
                assert(p == px[jp]);
                assert(self.living_pixels@ =~= px.subrange(jp + 1, px.len() as int));
            }
            if p.life > 0 {
                kept_px.push(p);
            }
            proof {
                let pre = px.subrange(0, jp);
                let cur = px.subrange(0, jp + 1);
                assert(cur.drop_last() =~= pre);
                assert(cur.last() == px[jp]);
                assert(kept_px@ =~= retained_pixels(cur));
                jp = jp + 1;
            }
        }
        self.living_pixels = kept_px;
        proof {
            assert(px.subrange(0, px.len() as int) =~= px);
        }
    }
}

/// One living pixel advanced by one tick, executably.
pub fn step_pixel(p: &LivingPixel, dt: i64, w: i64, h: i64, r1: i64, r2: i64) -> (r: LivingPixel)
    requires
        p.wf(),
        0 <= dt <= 1000000,
        0 <= w,
        fx_ok(w),
        0 <= h,
        fx_ok(h),
        0 <= r1 < 1000,
        0 <= r2 < 1000,
    ensures
        r == pixel_step(*p, dt as int, w as int, h as int, r1 as int, r2 as int),
        r.wf(),
{
    let phase2 = fx_add(p.phase, fx_mul(dt, 5000));
    match p.kind {
        LivingKind::Star => LivingPixel {
            life: fx_sub(p.life, fx_mul(dt, 50)),
            phase: phase2,
            ..*p
        },
        LivingKind::ShootingStar => LivingPixel {
            x: fx_add(p.x, fx_mul(p.vx, dt)),
            y: fx_add(p.y, fx_mul(p.vy, dt)),
            life: fx_sub(p.life, fx_mul(dt, 400)),
            phase: phase2,
            ..*p
        },
        LivingKind::Firefly => {
            let vxa = fx_mul(fx_add(p.vx, fx_mul(fx_mul(fx_sub(r1, 500), 100000), dt)), 950);
            let vya = fx_mul(fx_add(p.vy, fx_mul(fx_mul(fx_sub(r2, 500), 100000), dt)), 950);
            let xa = fx_add(p.x, fx_mul(vxa, dt));
            let ya = fx_add(p.y, fx_mul(vya, dt));
            let avx: i64 = if vxa >= 0 {
                vxa
            } else {
                -vxa
            };
            let avy: i64 = if vya >= 0 {
                vya
            } else {
                -vya
            };
            let x2: i64 = if xa < 0 {
                0
            } else if xa > w {
                w
            } else {
                xa
            };
            let vx2: i64 = if xa < 0 {
                avx
            } else if xa > w {
                -avx
            } else {
                vxa
            };
            let y2: i64 = if ya < 0 {
                0
            } else if ya > h {
                h
            } else {
                ya
            };
            let vy2: i64 = if ya < 0 {
                avy
            } else if ya > h {
                -avy
            } else {
                vya
            };
            LivingPixel {
                x: x2,
                y: y2,
                vx: vx2,
                vy: vy2,
                life: fx_sub(p.life, fx_mul(dt, 150)),
                kind: p.kind,
                phase: phase2,
            }
        },
    }
}

} // verus!
