//! Fire-on-touch emitters.
//!
//! A `FireEffect` is created at a touch point, follows the touch while it
//! is active, and decays once the touch ends. All quantities are
//! milli-unit fixed point: positions in milli-pixels, velocities in
//! milli-pixels per second, times in milli-seconds (equally, milli-units
//! of seconds), life, heat and intensity in milli-units of `[0, 1]`.

use vstd::prelude::*;
use crate::fixed::{fx_ok, fx_add, fx_sub, fx_mul, fx_div, fx_max, fx_add_spec,
    fx_sub_spec, fx_mul_spec, fx_div_spec, sin_milli, cos_milli, sin_milli_spec, cos_milli_spec,
    smin, smax, MILLI, TAU_MILLI, HALF_PI_MILLI};
use crate::rng::rand_milli;

verus! {

/// Spawning stops once an emitter holds more than this many particles.
pub const FIRE_PARTICLE_CAP: usize = 50;

/// One fire particle.
#[derive(Clone, Copy)]
pub struct FireParticle {
    pub x: i64,
    pub y: i64,
    pub vx: i64,
    pub vy: i64,
    pub life: i64,
    pub max_life: i64,
    pub size: i64,
    pub heat: i64,
    pub wobble: i64,
}

impl FireParticle {
    /// In-range fields and a positive lifetime divisor.
    pub open spec fn wf(self) -> bool {
        &&& fx_ok(self.x)
        &&& fx_ok(self.y)
        &&& fx_ok(self.vx)
        &&& fx_ok(self.vy)
        &&& fx_ok(self.life)
        &&& fx_ok(self.size)
        &&& fx_ok(self.heat)
        &&& fx_ok(self.wobble)
        &&& 0 < self.max_life <= MILLI
    }

    /// A particle the per-tick sweep keeps.
    pub open spec fn alive(self) -> bool {
        self.life > 0 && self.size > 500
    }
}

/// One tick of particle kinematics: sinusoidal turbulence displaces the
/// position, velocity is damped and pulled down by constant gravity with
/// a random horizontal jitter `jit` (a draw in `[0, 1000)`), life drains
/// by `dt` over the particle's lifetime, heat cools linearly, and the
/// size follows the two-phase curve (swell through the first fifth of
/// life, shrink afterward).
pub open spec fn particle_step(p: FireParticle, dt: int, time: int, jit: int) -> FireParticle {
    let turb_x = fx_mul_spec(
        fx_mul_spec(sin_milli_spec(fx_add_spec(p.wobble as int, fx_mul_spec(time, 8000))), 30000),
        fx_sub_spec(1000, p.life as int),
    );
    let turb_y = fx_mul_spec(
        cos_milli_spec(fx_add_spec(fx_mul_spec(p.wobble as int, 1300), fx_mul_spec(time, 6000))),
        15000,
    );
    let x2 = fx_add_spec(p.x as int, fx_mul_spec(fx_add_spec(p.vx as int, turb_x), dt));
    let y2 = fx_add_spec(p.y as int, fx_mul_spec(fx_add_spec(p.vy as int, turb_y), dt));
    let vx2 = fx_add_spec(
        fx_mul_spec(p.vx as int, 980),
        fx_mul_spec(fx_mul_spec(fx_sub_spec(jit, 500), 100000), dt),
    );
    let vy2 = fx_sub_spec(p.vy as int, fx_mul_spec(80000, dt));
    let life2 = fx_sub_spec(p.life as int, fx_div_spec(dt, p.max_life as int));
    let heat2 = smax(fx_sub_spec(p.heat as int, fx_mul_spec(dt, 800)), 0);
    let size2 = if 1000 - life2 < 200 {
        fx_mul_spec(p.size as int, fx_add_spec(1000, fx_mul_spec(dt, 2000)))
    } else {
        fx_mul_spec(p.size as int, fx_sub_spec(1000, fx_mul_spec(dt, 500)))
    };
    FireParticle {
        x: x2 as i64,
        y: y2 as i64,
        vx: vx2 as i64,
        vy: vy2 as i64,
        life: life2 as i64,
        max_life: p.max_life,
        size: size2 as i64,
        heat: heat2 as i64,
        wobble: p.wobble,
    }
}

/// The stepped particles that stay alive, in order: each particle of `ps`
/// advanced by `particle_step` with its jitter draw from `js`, keeping
/// those still alive.
pub open spec fn stepped_live(ps: Seq<FireParticle>, dt: int, time: int, js: Seq<int>) -> Seq<
    FireParticle,
>
    decreases ps.len(),
{
    if ps.len() == 0 {
        Seq::empty()
    } else {
        let q = particle_step(ps.last(), dt, time, js[ps.len() - 1]);
        stepped_live(ps.drop_last(), dt, time, js) + if q.alive() {
            seq![q]
        } else {
            Seq::empty()
        }
    }
}

/// The intensity ramp: eases in over the first eighth of a second after
/// creation, then saturates at one.
pub open spec fn intensity_ramp(elapsed: int) -> int {
    smin(elapsed * 8, 1000)
}

/// How many particles one spawn phase emits before sparks: proportional
/// to intensity and elapsed time.
pub open spec fn spawn_count_spec(intensity: int, dt: int) -> int {
    (900 * intensity * dt) / 1000000
}

/// A regular flame particle spawned at intensity `i` from anchor
/// `(x, y)`, built from eight draws in `[0, 1000)`: position offset
/// within the intensity-scaled spread, speed and upward-biased angle,
/// lifetime, size, high-biased heat and wobble phase.
pub open spec fn regular_spawn(
    x: int,
    y: int,
    i: int,
    u1: int,
    u2: int,
    u3: int,
    u4: int,
    u5: int,
    u6: int,
    u7: int,
    u8: int,
) -> FireParticle {
    let spread = fx_mul_spec(i, 25000);
    let speed = fx_add_spec(fx_mul_spec(u3, 250000), 150000);
    let angle = fx_add_spec(-(HALF_PI_MILLI as int), fx_mul_spec(fx_sub_spec(u4, 500), 800));
    FireParticle {
        x: fx_add_spec(x, fx_mul_spec(fx_sub_spec(u1, 500), spread)) as i64,
        y: fx_add_spec(y, fx_mul_spec(fx_mul_spec(fx_sub_spec(u2, 500), spread), 500)) as i64,
        vx: fx_mul_spec(fx_mul_spec(cos_milli_spec(angle), speed), 300) as i64,
        vy: fx_mul_spec(sin_milli_spec(angle), speed) as i64,
        life: 1000,
        max_life: (fx_mul_spec(u5, 600) + 300) as i64,
        size: fx_add_spec(fx_mul_spec(u6, 15000), 8000) as i64,
        heat: fx_add_spec(fx_mul_spec(u7, 300), 700) as i64,
        wobble: fx_mul_spec(u8, TAU_MILLI as int) as i64,
    }
}

/// A spark: rarer, faster, smaller and hotter, with a wider angular
/// spread, built from six draws in `[0, 1000)`.
pub open spec fn spark_spawn(
    x: int,
    y: int,
    v1: int,
    v2: int,
    v3: int,
    v4: int,
    v5: int,
    v6: int,
) -> FireParticle {
    let angle = fx_add_spec(-(HALF_PI_MILLI as int), fx_mul_spec(fx_sub_spec(v1, 500), 1500));
    let speed = fx_add_spec(fx_mul_spec(v2, 300000), 150000);
    FireParticle {
        x: fx_add_spec(x, fx_mul_spec(fx_sub_spec(v3, 500), 20000)) as i64,
        y: y as i64,
        vx: fx_mul_spec(cos_milli_spec(angle), speed) as i64,
        vy: fx_mul_spec(sin_milli_spec(angle), speed) as i64,
        life: 1000,
        max_life: (fx_mul_spec(v4, 300) + 100) as i64,
        size: fx_add_spec(fx_mul_spec(v5, 3000), 1000) as i64,
        heat: 1000,
        wobble: fx_mul_spec(v6, TAU_MILLI as int) as i64,
    }
}

/// What a spawn phase may add: a regular particle or a spark of this
/// emitter, for some draws.
pub open spec fn fire_spawned_ok(x: int, y: int, i: int, p: FireParticle) -> bool {
    ||| exists|u1: int, u2: int, u3: int, u4: int, u5: int, u6: int, u7: int, u8: int|
        {
            &&& 0 <= u1 < 1000
            &&& 0 <= u2 < 1000
            &&& 0 <= u3 < 1000
            &&& 0 <= u4 < 1000
            &&& 0 <= u5 < 1000
            &&& 0 <= u6 < 1000
            &&& 0 <= u7 < 1000
            &&& 0 <= u8 < 1000
            &&& p == regular_spawn(x, y, i, u1, u2, u3, u4, u5, u6, u7, u8)
        }
    ||| exists|v1: int, v2: int, v3: int, v4: int, v5: int, v6: int|
        {
            &&& 0 <= v1 < 1000
            &&& 0 <= v2 < 1000
            &&& 0 <= v3 < 1000
            &&& 0 <= v4 < 1000
            &&& 0 <= v5 < 1000
            &&& 0 <= v6 < 1000
            &&& p == spark_spawn(x, y, v1, v2, v3, v4, v5, v6)
        }
}

/// What the spawn phase of one tick does to an emitter: nothing when
/// inactive or over the particle cap, else the intensity ramp and the
/// proportional batch of new particles, each possibly with a spark.
pub open spec fn fire_spawn_rel(pre: FireEffect, post: FireEffect, dt: int, now: int) -> bool {
    &&& post.x == pre.x
    &&& post.y == pre.y
    &&& post.is_active == pre.is_active
    &&& post.start_time == pre.start_time
    &&& (!pre.is_active ==> post == pre)
    &&& (pre.is_active && pre.particles@.len() > FIRE_PARTICLE_CAP ==> post == pre)
    &&& (pre.is_active && pre.particles@.len() <= FIRE_PARTICLE_CAP ==> {
        let ramped = intensity_ramp(now - pre.start_time);
        let count = spawn_count_spec(ramped, dt);
        &&& post.intensity == ramped
        &&& post.particles@.len() >= pre.particles@.len() + count
        &&& post.particles@.len() <= pre.particles@.len() + 2 * count
        &&& post.particles@.subrange(0, pre.particles@.len() as int) == pre.particles@
        &&& forall|j: int|
            pre.particles@.len() <= j < post.particles@.len() ==> fire_spawned_ok(
                pre.x as int,
                pre.y as int,
                ramped,
                #[trigger] post.particles@[j],
            )
    })
}

/// What the update phase of one tick does to an emitter: every particle
/// steps with some jitter draw, the dead are swept, and an inactive
/// emitter's intensity decays one step.
pub open spec fn fire_update_rel(pre: FireEffect, post: FireEffect, dt: int, time: int) -> bool {
    &&& post.x == pre.x
    &&& post.y == pre.y
    &&& post.is_active == pre.is_active
    &&& post.start_time == pre.start_time
    &&& post.particles@.len() <= pre.particles@.len()
    &&& exists|js: Seq<int>|
        {
            &&& js.len() == pre.particles@.len()
            &&& (forall|k: int| 0 <= k < js.len() ==> 0 <= #[trigger] js[k] < 1000)
            &&& post.particles@ == stepped_live(pre.particles@, dt, time, js)
        }
    &&& post.intensity == if pre.is_active {
        pre.intensity as int
    } else {
        decay_step(pre.intensity as int, dt)
    }
}

/// One whole tick of an emitter: the spawn phase then the update phase.
pub open spec fn fire_tick_rel(pre: FireEffect, post: FireEffect, dt: int, now: int) -> bool {
    exists|mid: FireEffect| #[trigger]
        fire_spawn_rel(pre, mid, dt, now) && fire_update_rel(mid, post, dt, now)
}

/// An emitter already holding more than the particle cap spawns nothing
/// at all in its spawn phase — the one checkpoint that sparks cannot
/// bypass either, since they are emitted inside the same phase.
pub proof fn lemma_fire_spawn_cap(pre: FireEffect, post: FireEffect, dt: int, now: int)
    requires
        fire_spawn_rel(pre, post, dt, now),
        pre.particles@.len() > FIRE_PARTICLE_CAP,
    ensures
        post == pre,
{
}

/// One fire emitter: the anchor, its particles, whether the touch is
/// still down, the spawn-vigor intensity and the creation time.
pub struct FireEffect {
    pub x: i64,
    pub y: i64,
    pub particles: Vec<FireParticle>,
    pub is_active: bool,
    pub intensity: i64,
    pub start_time: i64,
}

impl FireEffect {
    /// In-range anchor and intensity, and well-formed particles.
    pub open spec fn wf(self) -> bool {
        &&& fx_ok(self.x)
        &&& fx_ok(self.y)
        &&& fx_ok(self.start_time)
        &&& 0 <= self.intensity <= 1000
        &&& forall|k: int| 0 <= k < self.particles@.len() ==> (#[trigger] self.particles@[k]).wf()
    }

    /// A fresh emitter at the touch point, active, at zero intensity.
    pub fn new(x: i64, y: i64, now: i64) -> (r: FireEffect)
        requires
            fx_ok(x),
            fx_ok(y),
            fx_ok(now),
        ensures
            r.wf(),
            r.x == x,
            r.y == y,
            r.is_active,
            r.intensity == 0,
            r.start_time == now,
            r.particles@.len() == 0,
    {
        FireEffect {
            x,
            y,
            particles: Vec::new(),
            is_active: true,
            intensity: 0,
            start_time: now,
        }
    }

    /// An emitter is done once the touch has ended and its particles have
    /// all decayed away; only then may it be removed.
    pub fn is_done(&self) -> (r: bool)
        ensures
            r == (!self.is_active && self.particles@.len() == 0),
    {
        !self.is_active && self.particles.len() == 0
    }

    /// The spawn phase of one tick. An inactive emitter spawns nothing;
    /// so does one holding more than the particle cap — the cap check
    /// that sparks cannot bypass. Otherwise the intensity ramps with the
    /// time since creation and the emitter appends the proportional
    /// count of regular particles, each with a chance of one extra
    /// spark.
    #[verifier::loop_isolation(false)]
    pub fn spawn_particles(&mut self, dt: i64, now: i64)
        requires
            old(self).wf(),
            0 <= dt <= 1000000,
            fx_ok(now),
            old(self).start_time <= now,
        ensures
            final(self).wf(),
            fire_spawn_rel(*old(self), *final(self), dt as int, now as int),
    {
        if !self.is_active {
            return ;
        }
        if self.particles.len() > FIRE_PARTICLE_CAP {
            return ;
        }
        let elapsed: i64 = now - self.start_time;
        let ramped: i64 = if elapsed >= 125 {
            1000
        } else {
            elapsed * 8
        };
        self.intensity = ramped;
        proof {
            assert(ramped == intensity_ramp(now - self.start_time));
        }
        proof {
            assert(900 * (ramped as int) * (dt as int) <= 900000000000int) by (nonlinear_arith)
                requires
                    0 <= ramped <= 1000,
                    0 <= dt <= 1000000,
            ;
            assert(900 * (ramped as int) * (dt as int) >= 0) by (nonlinear_arith)
                requires
                    0 <= ramped,
                    0 <= dt,
            ;
        }
        let count_u64: u64 = 900 * (ramped as u64) * (dt as u64) / 1000000;
        proof {
            assert(count_u64 as int == spawn_count_spec(ramped as int, dt as int));
        }
        let count: usize = count_u64 as usize;
        let ghost base_len = self.particles@.len() as int;
        let ghost anchor_x = self.x as int;
        let ghost anchor_y = self.y as int;
        let mut k: usize = 0;
        while k < count
            invariant
                self.x == old(self).x,
                self.y == old(self).y,
                self.is_active == old(self).is_active,
                self.start_time == old(self).start_time,
                self.intensity == ramped,
                0 <= ramped <= 1000,
                fx_ok(self.x),
                fx_ok(self.y),
                k <= count,
                self.particles@.len() >= base_len + k,
                self.particles@.len() <= base_len + 2 * k,
                self.particles@.subrange(0, base_len) == old(self).particles@,
                base_len == old(self).particles@.len(),
                forall|j: int|
                    0 <= j < self.particles@.len() ==> (#[trigger] self.particles@[j]).wf(),
                forall|j: int|
                    base_len <= j < self.particles@.len() ==> fire_spawned_ok(
                        anchor_x,
                        anchor_y,
                        ramped as int,
                        #[trigger] self.particles@[j],
                    ),
            decreases count - k,
        {
            let u1 = rand_milli();
            let u2 = rand_milli();
            let u3 = rand_milli();
            let u4 = rand_milli();
            let u5 = rand_milli();
            let u6 = rand_milli();
            let u7 = rand_milli();
            let u8 = rand_milli();
            let spread: i64 = fx_mul(ramped, 25000);
            let speed: i64 = fx_add(fx_mul(u3, 250000), 150000);
            let angle: i64 = fx_add(-HALF_PI_MILLI, fx_mul(fx_sub(u4, 500), 800));
            let p = FireParticle {
                x: fx_add(self.x, fx_mul(fx_sub(u1, 500), spread)),
                y: fx_add(self.y, fx_mul(fx_mul(fx_sub(u2, 500), spread), 500)),
                vx: fx_mul(fx_mul(cos_milli(angle), speed), 300),
                vy: fx_mul(sin_milli(angle), speed),
                life: 1000,
                max_life: fx_mul(u5, 600) + 300,
                size: fx_add(fx_mul(u6, 15000), 8000),
                heat: fx_add(fx_mul(u7, 300), 700),
                wobble: fx_mul(u8, TAU_MILLI),
            };
            proof {
                assert(p == regular_spawn(
                    anchor_x,
                    anchor_y,
                    ramped as int,
                    u1 as int,
                    u2 as int,
                    u3 as int,
                    u4 as int,
                    u5 as int,
                    u6 as int,
                    u7 as int,
                    u8 as int,
                ));
                assert(fire_spawned_ok(anchor_x, anchor_y, ramped as int, p));
            }
            self.particles.push(p);
            proof {
                assert(self.particles@.subrange(0, base_len) == old(self).particles@) by {
                    assert(self.particles@.subrange(0, base_len) =~= old(self).particles@);
                };
            }
            let spark_draw = rand_milli();
            if spark_draw < fx_mul(ramped, 100) {
                let v1 = rand_milli();
                let v2 = rand_milli();
                let v3 = rand_milli();
                let v4 = rand_milli();
                let v5 = rand_milli();
                let v6 = rand_milli();
                let spark_angle: i64 = fx_add(-HALF_PI_MILLI, fx_mul(fx_sub(v1, 500), 1500));
                let spark_speed: i64 = fx_add(fx_mul(v2, 300000), 150000);
                let q = FireParticle {
                    x: fx_add(self.x, fx_mul(fx_sub(v3, 500), 20000)),
                    y: self.y,
                    vx: fx_mul(cos_milli(spark_angle), spark_speed),
                    vy: fx_mul(sin_milli(spark_angle), spark_speed),
                    life: 1000,
                    max_life: fx_mul(v4, 300) + 100,
                    size: fx_add(fx_mul(v5, 3000), 1000),
                    heat: 1000,
                    wobble: fx_mul(v6, TAU_MILLI),
                };
                proof {
                    assert(q == spark_spawn(
                        anchor_x,
                        anchor_y,
                        v1 as int,
                        v2 as int,
                        v3 as int,
                        v4 as int,
                        v5 as int,
                        v6 as int,
                    ));
                    assert(fire_spawned_ok(anchor_x, anchor_y, ramped as int, q));
                }
                self.particles.push(q);
                proof {
                    assert(self.particles@.subrange(0, base_len) == old(self).particles@) by {
                        assert(self.particles@.subrange(0, base_len) =~= old(self).particles@);
                    };
                }
            }
            k = k + 1;
        }
    }

    /// The update phase of one tick: every particle advances one
    /// kinematic step with its own jitter draw, dead and shrunk
    /// particles are swept out, and an inactive emitter's intensity
    /// decays at the fixed rate toward zero.
    #[verifier::loop_isolation(false)]
    pub fn update(&mut self, dt: i64, time: i64)
        requires
            old(self).wf(),
            0 <= dt <= 1000000,
            fx_ok(time),
        ensures
            final(self).wf(),
            fire_update_rel(*old(self), *final(self), dt as int, time as int),
    {
        let ghost ps = self.particles@;
        let mut out: Vec<FireParticle> = Vec::new();
        let ghost mut js: Seq<int> = Seq::empty();
        let mut i: usize = 0;
        let n = self.particles.len();
        while i < n
            invariant
                i <= n,
                n == ps.len(),
                self.particles@ == ps,
                forall|k: int| 0 <= k < ps.len() ==> (#[trigger] ps[k]).wf(),
                0 <= dt,
                fx_ok(dt),
                fx_ok(time),
                js.len() == i,
                forall|k: int| 0 <= k < js.len() ==> 0 <= #[trigger] js[k] < 1000,
                out@ == stepped_live(ps.subrange(0, i as int), dt as int, time as int, js),
                out@.len() <= i,
                forall|k: int| 0 <= k < out@.len() ==> (#[trigger] out@[k]).wf(),
            decreases n - i,
        {
            let p = self.particles[i];
            let jit = rand_milli();
            let q = step_particle(&p, dt, time, jit);
            let ghost js_old = js;
            proof {
                js = js.push(jit as int);
            }
            if q.life > 0 && q.size > 500 {
                out.push(q);
            }
            proof {
                let pre = ps.subrange(0, i as int);
                let cur = ps.subrange(0, i as int + 1);
                assert(cur.drop_last() =~= pre);
                assert(cur.last() == ps[i as int]);
                assert(js.drop_last() =~= js_old);
                assert(js[i as int] == jit as int);
                lemma_stepped_live_extra_draws(pre, dt as int, time as int, js);
                assert(stepped_live(pre, dt as int, time as int, js) == stepped_live(
                    pre,
                    dt as int,
                    time as int,
                    js_old,
                ));
                assert(q == particle_step(cur.last(), dt as int, time as int, js[cur.len() - 1]));
                assert(out@ =~= stepped_live(cur, dt as int, time as int, js));
            }
            i = i + 1;
        }
        proof {
            assert(ps.subrange(0, n as int) =~= ps);
        }
        self.particles = out;
        if !self.is_active {
            let decayed = fx_sub(self.intensity, fx_mul(dt, 3000));
            self.intensity = fx_max(decayed, 0);
        }
    }
}

/// One tick of intensity decay after the touch has ended.
pub open spec fn decay_step(i: int, dt: int) -> int {
    smax(fx_sub_spec(i, fx_mul_spec(dt, 3000)), 0)
}

/// Intensity after a run of ticks with the given elapsed times.
pub open spec fn decay_run(i0: int, dts: Seq<int>) -> int
    decreases dts.len(),
{
    if dts.len() == 0 {
        i0
    } else {
        decay_run(decay_step(i0, dts[0]), dts.skip(1))
    }
}

/// Sum of a sequence of tick times.
pub open spec fn seq_sum(dts: Seq<int>) -> int
    decreases dts.len(),
{
    if dts.len() == 0 {
        0
    } else {
        dts[0] + seq_sum(dts.skip(1))
    }
}

/// Tick times are nonnegative, so their sum is too.
proof fn lemma_seq_sum_nonneg(dts: Seq<int>)
    requires
        forall|k: int| 0 <= k < dts.len() ==> 0 <= #[trigger] dts[k],
    ensures
        seq_sum(dts) >= 0,
    decreases dts.len(),
{
    if dts.len() > 0 {
        assert(forall|k: int| 0 <= k < dts.skip(1).len() ==> 0 <= #[trigger] dts.skip(1)[k]) by {
            assert(forall|k: int| 0 <= k < dts.skip(1).len() ==> dts.skip(1)[k] == dts[k + 1]);
        };
        lemma_seq_sum_nonneg(dts.skip(1));
    }
}

/// Three thousandths of a tick time is exactly three times it, inside
/// the fixed-point band.
proof fn lemma_decay_amount_exact(dt: int)
    requires
        0 <= dt <= 1000000,
    ensures
        fx_mul_spec(dt, 3000) == 3 * dt,
{
    assert(dt * 3000 == 1000 * (3 * dt)) by (nonlinear_arith);
    vstd::arithmetic::div_mod::lemma_div_multiples_vanish(3 * dt, 1000);
}

/// After a touch ends the intensity never rises: any run of decay ticks
/// leaves it between zero and where it started.
pub proof fn lemma_decay_monotone(i0: int, dts: Seq<int>)
    requires
        0 <= i0 <= 1000,
        forall|k: int| 0 <= k < dts.len() ==> 0 <= #[trigger] dts[k] <= 1000000,
    ensures
        0 <= decay_run(i0, dts) <= i0,
    decreases dts.len(),
{
    if dts.len() > 0 {
        let i1 = decay_step(i0, dts[0]);
        assert(0 <= i1 <= i0);
        assert(forall|k: int| 0 <= k < dts.skip(1).len() ==> 0 <= #[trigger] dts.skip(1)[k]
            <= 1000000) by {
            assert(forall|k: int|
                0 <= k < dts.skip(1).len() ==> dts.skip(1)[k] == dts[k + 1]);
        };
        lemma_decay_monotone(i1, dts.skip(1));
    }
}

/// Once the decay ticks have covered enough time that three times their
/// sum reaches the starting intensity, the intensity is exactly zero.
pub proof fn lemma_decay_run_zero(i0: int, dts: Seq<int>)
    requires
        0 <= i0 <= 1000,
        forall|k: int| 0 <= k < dts.len() ==> 0 <= #[trigger] dts[k] <= 1000000,
        3 * seq_sum(dts) >= i0,
    ensures
        decay_run(i0, dts) == 0,
    decreases dts.len(),
{
    if dts.len() == 0 {
        assert(i0 <= 0);
    } else {
        let i1 = decay_step(i0, dts[0]);
        assert(forall|k: int| 0 <= k < dts.skip(1).len() ==> 0 <= #[trigger] dts.skip(1)[k]
            <= 1000000) by {
            assert(forall|k: int|
                0 <= k < dts.skip(1).len() ==> dts.skip(1)[k] == dts[k + 1]);
        };
        lemma_decay_amount_exact(dts[0]);
        lemma_seq_sum_nonneg(dts.skip(1));
        assert(3 * seq_sum(dts.skip(1)) >= i1);
        lemma_decay_run_zero(i1, dts.skip(1));
    }
}

/// After a touch ends the intensity reaches exactly zero within one third
/// of a second of simulated time, whatever particles remain: 334
/// milliseconds of decay ticks clear any starting intensity.
pub proof fn lemma_end_intensity_zero_within_third_second(i0: int, dts: Seq<int>)
    requires
        0 <= i0 <= 1000,
        forall|k: int| 0 <= k < dts.len() ==> 0 <= #[trigger] dts[k] <= 1000000,
        seq_sum(dts) >= 334,
    ensures
        decay_run(i0, dts) == 0,
{
    lemma_decay_run_zero(i0, dts);
}

/// Across any run of update phases of an ended emitter the intensity
/// follows `decay_run` of the tick times, whatever its particles do: so
/// with `lemma_decay_monotone` it never rises, and with
/// `lemma_end_intensity_zero_within_third_second` it is exactly zero
/// once the ticks cover a third of a second.
pub proof fn lemma_ended_emitter_intensity(sts: Seq<FireEffect>, dts: Seq<int>, ts: Seq<int>)
    requires
        sts.len() == dts.len() + 1,
        ts.len() == dts.len(),
        forall|i: int| 0 <= i < dts.len() ==> 0 <= #[trigger] dts[i] <= 1000000,
        forall|i: int| 0 <= i < sts.len() ==> !(#[trigger] sts[i]).is_active,
        forall|i: int|
            0 <= i < dts.len() ==> fire_update_rel(sts[i], sts[i + 1], #[trigger] dts[i], ts[i]),
        0 <= sts[0].intensity <= 1000,
    ensures
        sts.last().intensity == decay_run(sts[0].intensity as int, dts),
    decreases dts.len(),
{
    if dts.len() == 0 {
        assert(sts.last() == sts[0]);
    } else {
        assert(fire_update_rel(sts[0], sts[1], dts[0], ts[0]));
        lemma_decay_amount_exact(dts[0]);
        assert(sts[1].intensity as int == decay_step(sts[0].intensity as int, dts[0]));
        assert(0 <= sts[1].intensity <= 1000);
        let sts1 = sts.skip(1);
        let dts1 = dts.skip(1);
        let ts1 = ts.skip(1);
        assert(forall|i: int| 0 <= i < dts1.len() ==> dts1[i] == dts[i + 1]);
        assert(forall|i: int| 0 <= i < sts1.len() ==> sts1[i] == sts[i + 1]);
        assert(forall|i: int| 0 <= i < ts1.len() ==> ts1[i] == ts[i + 1]);
        assert(forall|i: int| 0 <= i < dts1.len() ==> 0 <= #[trigger] dts1[i] <= 1000000);
        assert(forall|i: int| 0 <= i < sts1.len() ==> !(#[trigger] sts1[i]).is_active);
        assert(forall|i: int|
            0 <= i < dts1.len() ==> fire_update_rel(sts1[i], sts1[i + 1], #[trigger] dts1[i],
                ts1[i]));
        lemma_ended_emitter_intensity(sts1, dts1, ts1);
        assert(sts1.last() == sts.last());
        assert(decay_run(sts[0].intensity as int, dts) == decay_run(
            decay_step(sts[0].intensity as int, dts[0]),
            dts1,
        ));
    }
}

/// The fixed piecewise-linear heat ramp from dark ember through red and
/// orange to yellow-white, with the low band fading out.
pub open spec fn heat_color_spec(heat: int, alpha: int) -> (int, int, int, int) {
    if heat > 900 {
        (1000int, 1000int, 900int, alpha)
    } else if heat > 700 {
        let t = (heat - 700) * 5;
        (1000int, 900 + fx_mul_spec(t, 100), 300 + fx_mul_spec(t, 600), alpha)
    } else if heat > 500 {
        let t = (heat - 500) * 5;
        (1000int, 500 + fx_mul_spec(t, 400), 100 + fx_mul_spec(t, 200), alpha)
    } else if heat > 300 {
        let t = (heat - 300) * 5;
        (900 + fx_mul_spec(t, 100), 200 + fx_mul_spec(t, 300), 50 + fx_mul_spec(t, 50), alpha)
    } else if heat > 100 {
        let t = (heat - 100) * 5;
        (
            500 + fx_mul_spec(t, 400),
            50 + fx_mul_spec(t, 150),
            20 + fx_mul_spec(t, 30),
            fx_mul_spec(alpha, 500 + fx_mul_spec(t, 500)),
        )
    } else {
        (200int, 200int, 200int, fx_mul_spec(alpha, 300))
    }
}

/// Map a particle's heat to its render color (red, green, blue, alpha,
/// all in milli-units). Part of the snapshot contract for the external
/// paint routine.
pub fn heat_to_color(heat: i64, alpha: i64) -> (r: (i64, i64, i64, i64))
    requires
        0 <= heat <= 1000,
        0 <= alpha <= 1000,
    ensures
        r.0 as int == heat_color_spec(heat as int, alpha as int).0,
        r.1 as int == heat_color_spec(heat as int, alpha as int).1,
        r.2 as int == heat_color_spec(heat as int, alpha as int).2,
        r.3 as int == heat_color_spec(heat as int, alpha as int).3,
{
    if heat > 900 {
        (1000, 1000, 900, alpha)
    } else if heat > 700 {
        let t: i64 = (heat - 700) * 5;
        (1000, 900 + fx_mul(t, 100), 300 + fx_mul(t, 600), alpha)
    } else if heat > 500 {
        let t: i64 = (heat - 500) * 5;
        (1000, 500 + fx_mul(t, 400), 100 + fx_mul(t, 200), alpha)
    } else if heat > 300 {
        let t: i64 = (heat - 300) * 5;
        (900 + fx_mul(t, 100), 200 + fx_mul(t, 300), 50 + fx_mul(t, 50), alpha)
    } else if heat > 100 {
        let t: i64 = (heat - 100) * 5;
        (
            500 + fx_mul(t, 400),
            50 + fx_mul(t, 150),
            20 + fx_mul(t, 30),
            fx_mul(alpha, 500 + fx_mul(t, 500)),
        )
    } else {
        (200, 200, 200, fx_mul(alpha, 300))
    }
}

/// Trailing draws beyond the particles do not change the stepped result.
proof fn lemma_stepped_live_extra_draws(ps: Seq<FireParticle>, dt: int, time: int, js: Seq<int>)
    requires
        ps.len() < js.len(),
    ensures
        stepped_live(ps, dt, time, js) == stepped_live(ps, dt, time, js.drop_last()),
    decreases ps.len(),
{
    if ps.len() > 0 {
        assert(js.drop_last()[ps.len() - 1] == js[ps.len() - 1]);
        lemma_stepped_live_extra_draws(ps.drop_last(), dt, time, js);
    }
}

/// One particle advanced by one tick, executably.
pub fn step_particle(p: &FireParticle, dt: i64, time: i64, jit: i64) -> (r: FireParticle)
    requires
        p.wf(),
        0 <= dt,
        fx_ok(dt),
        fx_ok(time),
        0 <= jit < 1000,
    ensures
        r == particle_step(*p, dt as int, time as int, jit as int),
        r.wf(),
{
    let turb_x = fx_mul(
        fx_mul(sin_milli(fx_add(p.wobble, fx_mul(time, 8000))), 30000),
        fx_sub(1000, p.life),
    );
    let turb_y = fx_mul(cos_milli(fx_add(fx_mul(p.wobble, 1300), fx_mul(time, 6000))), 15000);
    let x2 = fx_add(p.x, fx_mul(fx_add(p.vx, turb_x), dt));
    let y2 = fx_add(p.y, fx_mul(fx_add(p.vy, turb_y), dt));
    let vx2 = fx_add(fx_mul(p.vx, 980), fx_mul(fx_mul(fx_sub(jit, 500), 100000), dt));
    let vy2 = fx_sub(p.vy, fx_mul(80000, dt));
    let life2 = fx_sub(p.life, fx_div(dt, p.max_life));
    let heat2 = fx_max(fx_sub(p.heat, fx_mul(dt, 800)), 0);
    let size2 = if 1000 - life2 < 200 {
        fx_mul(p.size, fx_add(1000, fx_mul(dt, 2000)))
    } else {
        fx_mul(p.size, fx_sub(1000, fx_mul(dt, 500)))
    };
    FireParticle {
        x: x2,
        y: y2,
        vx: vx2,
        vy: vy2,
        life: life2,
        max_life: p.max_life,
        size: size2,
        heat: heat2,
        wobble: p.wobble,
    }
}

} // verus!
