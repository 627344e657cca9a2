//! Camera and renderer: viewport geometry derived once from the
//! configuration, per-sample ray generation with optional depth of
//! field, the depth-bounded recursive radiance estimator, and the
//! full-image render loop that emits the plain-text raster.

use vstd::prelude::*;
use crate::fixed::{
    SCALE, clip, div_t, fx_add, fx_sub, fx_mul, fx_div, add_fx, sub_fx, mul_fx, div_fx,
    div_trunc,
};
use crate::vec3::{
    Vec3, Point3, TWO_FX, SAMPLE_ATTEMPTS, s_zero, s_add, s_sub, s_neg, s_mul, s_scale, s_div,
    s_cross, s_normalized, s_disk_draw,
};
use crate::ray::Ray;
use crate::interval::{Interval, FX_INF};
use crate::color::{Color, write_color, s_color_line};
use crate::hittable::Sphere;
use crate::hittable_list::{HittableList, s_list_hit};
use crate::material::s_scatter;
use crate::rng::{Rng, SEED_FALLBACK, unit_of, next_state};
use crate::rtweekend::{degrees_to_radians, tan_fx, s_degrees_to_radians, s_tan};

verus! {

/// Fixed-point scalar for one half.
pub const HALF_FX: i64 = 500_000;

/// The self-intersection epsilon: hits nearer than this along a ray are
/// ignored, so a scattered ray cannot re-hit its own origin surface.
pub const EPS_FX: i64 = 1_000;

/// Image height derived from width and aspect ratio: the rounded
/// quotient, floored at one row and capped at the pixel-count range.
pub open spec fn s_image_height(aspect_ratio: int, image_width: int) -> int {
    let ratio = fx_div(image_width * (SCALE as int), aspect_ratio);
    let rounded = clip(div_t(fx_add(ratio, HALF_FX as int), SCALE as int));
    if rounded < 1 {
        1
    } else if rounded > u32::MAX as int {
        u32::MAX as int
    } else {
        rounded
    }
}

/// The camera a configuration derives: orthonormal basis, viewport
/// spans, pixel deltas, the location of pixel zero, and the defocus
/// disk basis.
pub open spec fn s_camera(
    aspect_ratio: int,
    image_width: u32,
    samples_per_pixel: u32,
    max_depth: u32,
    vfov: int,
    lookfrom: Point3,
    lookat: Point3,
    vup: Vec3,
    defocus_angle: int,
    focus_dist: int,
) -> Camera {
    let image_height = s_image_height(aspect_ratio, image_width as int);
    let w_fx = (image_width as int) * (SCALE as int);
    let h_fx = image_height * (SCALE as int);
    let center = lookfrom;
    let theta = s_degrees_to_radians(vfov);
    let h_tan = s_tan(fx_div(theta, TWO_FX as int));
    let viewport_height = fx_mul(fx_mul(TWO_FX as int, h_tan), focus_dist);
    let viewport_width = fx_mul(viewport_height, fx_div(w_fx, h_fx));
    let wb = s_normalized(s_sub(lookfrom, lookat));
    let ub = s_normalized(s_cross(vup, wb));
    let vb = s_cross(wb, ub);
    let viewport_u = s_scale(ub, viewport_width);
    let viewport_v = s_scale(s_neg(vb), viewport_height);
    let pixel_delta_u = s_div(viewport_u, w_fx);
    let pixel_delta_v = s_div(viewport_v, h_fx);
    let viewport_upper_left = s_sub(
        s_sub(s_sub(center, s_scale(wb, focus_dist)), s_div(viewport_u, TWO_FX as int)),
        s_div(viewport_v, TWO_FX as int),
    );
    let pixel00_loc = s_add(
        viewport_upper_left,
        s_scale(s_add(pixel_delta_u, pixel_delta_v), HALF_FX as int),
    );
    let defocus_radius = fx_mul(
        focus_dist,
        s_tan(s_degrees_to_radians(fx_div(defocus_angle, TWO_FX as int))),
    );
    Camera {
        aspect_ratio: aspect_ratio as i64,
        image_width,
        samples_per_pixel,
        max_depth,
        vfov: vfov as i64,
        lookfrom,
        lookat,
        vup,
        defocus_angle: defocus_angle as i64,
        focus_dist: focus_dist as i64,
        u: ub,
        v: vb,
        w: wb,
        pixel_sample_scale: fx_div(SCALE as int, (samples_per_pixel as int) * (SCALE as int)) as i64,
        image_height: image_height as u32,
        center,
        pixel00_loc,
        pixel_delta_u,
        pixel_delta_v,
        defocus_disk_u: s_scale(ub, defocus_radius),
        defocus_disk_v: s_scale(vb, defocus_radius),
    }
}

/// The ray through the exact center of pixel `(i, j)` from the camera
/// center: what `get_ray` builds when there is one sample per pixel and
/// no defocus.
pub open spec fn s_primary_ray(cam: Camera, i: u32, j: u32) -> Ray {
    let sample = s_add(
        s_add(cam.pixel00_loc, s_scale(cam.pixel_delta_u, (i as int) * (SCALE as int))),
        s_scale(cam.pixel_delta_v, (j as int) * (SCALE as int)),
    );
    Ray { orig: cam.center, dir: s_sub(sample, cam.center) }
}

/// The sky gradient a missing ray returns: white at the horizon blended
/// toward sky blue at the zenith by `0.5 * (unit_dir.y + 1)`.
pub open spec fn s_sky(r: Ray) -> Vec3 {
    let unit = s_normalized(r.dir);
    let a = fx_mul(fx_add(unit.y as int, SCALE as int), HALF_FX as int);
    s_add(
        s_scale(Vec3 { x: SCALE, y: SCALE, z: SCALE }, fx_sub(SCALE as int, a)),
        s_scale(Vec3 { x: HALF_FX, y: 700_000, z: SCALE }, a),
    )
}

/// The sky gradient at the poles: a ray pointing straight up yields the
/// sky blue exactly, one pointing straight down yields pure white, both
/// before gamma correction.
pub proof fn lemma_sky_poles(orig: Point3)
    ensures
        s_sky(Ray { orig, dir: Vec3 { x: 0, y: SCALE, z: 0 } }) == (Vec3 {
            x: HALF_FX,
            y: 700_000,
            z: SCALE,
        }),
        s_sky(Ray { orig, dir: Vec3 { x: 0, y: -1_000_000i64, z: 0 } }) == (Vec3 {
            x: SCALE,
            y: SCALE,
            z: SCALE,
        }),
{
    assert(0int * 0int == 0int) by (nonlinear_arith);
    assert(0int / 1_000_000int == 0int);
    assert(1_000_000int * 1_000_000int == 1_000_000_000_000int);
    assert((-1_000_000int) * (-1_000_000int) == 1_000_000_000_000int);
    assert(1_000_000_000_000int / 1_000_000int == 1_000_000int);
    assert(1_000_001int * 1_000_001int == 1_000_002_000_001int);
    crate::fixed::lemma_sqrt_floor_unique(1_000_000_000_000nat, 1_000_000nat);
    assert(0int * 1_000_000int == 0int) by (nonlinear_arith);
    assert(1_000_000int * 1_000_000int / 1_000_000int == 1_000_000int);
    assert(2_000_000int * 500_000int == 1_000_000_000_000int);
    assert(500_000int * 1_000_000int == 500_000_000_000int);
    assert(500_000_000_000int / 1_000_000int == 500_000int);
    assert(700_000int * 1_000_000int == 700_000_000_000int);
    assert(700_000_000_000int / 1_000_000int == 700_000int);
    assert(1_000_000int * 0int == 0int) by (nonlinear_arith);
    assert(500_000int * 0int == 0int) by (nonlinear_arith);
    assert(700_000int * 0int == 0int) by (nonlinear_arith);
    let up = Ray { orig, dir: Vec3 { x: 0, y: SCALE, z: 0 } };
    let down = Ray { orig, dir: Vec3 { x: 0, y: -1_000_000i64, z: 0 } };
    assert(crate::vec3::s_length_squared(up.dir) == SCALE as int);
    assert(crate::vec3::s_length(up.dir) == SCALE as int);
    assert(crate::vec3::s_normalized(up.dir) == (Vec3 { x: 0, y: SCALE, z: 0 }));
    assert(crate::vec3::s_length_squared(down.dir) == SCALE as int);
    assert(crate::vec3::s_length(down.dir) == SCALE as int);
    assert((-1_000_000_000_000int) / 1_000_000int == -1_000_000int)
        by {
            assert(vstd::math::abs(-1_000_000_000_000int) == 1_000_000_000_000nat);
        }
    assert(crate::fixed::div_t(-1_000_000_000_000, 1_000_000) == -1_000_000int);
    assert(crate::vec3::s_normalized(down.dir) == (Vec3 { x: 0, y: -1_000_000i64, z: 0 }));
}

/// The jitter of one pixel sample: zero when a single sample is taken,
/// else two unit draws offset into the centered half-open unit square.
pub open spec fn s_square_draw(samples_per_pixel: u32, st: u64) -> (Vec3, u64) {
    if samples_per_pixel == 1 {
        (s_zero(), st)
    } else {
        let st1 = next_state(st);
        (
            Vec3 {
                x: fx_sub(unit_of(st), HALF_FX as int) as i64,
                y: fx_sub(unit_of(st1), HALF_FX as int) as i64,
                z: 0,
            },
            next_state(st1),
        )
    }
}

/// A defocus ray origin: a unit-disk draw projected onto the defocus
/// disk basis around the camera center.
pub open spec fn s_defocus_draw(cam: Camera, st: u64) -> (Vec3, u64) {
    let d = s_disk_draw(st, SAMPLE_ATTEMPTS as nat);
    (
        s_add(
            s_add(cam.center, s_scale(cam.defocus_disk_u, d.0.x as int)),
            s_scale(cam.defocus_disk_v, d.0.y as int),
        ),
        d.1,
    )
}

/// The camera ray one state draws for pixel `(i, j)`: the pixel center
/// jittered by the sample offset, shot from the camera center, or from
/// the defocus disk when depth of field is on.
pub open spec fn s_ray_draw(cam: Camera, i: u32, j: u32, st: u64) -> (Ray, u64) {
    let o = s_square_draw(cam.samples_per_pixel, st);
    let i_fx = fx_add((i as int) * (SCALE as int), o.0.x as int);
    let j_fx = fx_add((j as int) * (SCALE as int), o.0.y as int);
    let sample = s_add(
        s_add(cam.pixel00_loc, s_scale(cam.pixel_delta_u, i_fx)),
        s_scale(cam.pixel_delta_v, j_fx),
    );
    let og = if cam.defocus_angle <= 0 {
        (cam.center, o.1)
    } else {
        s_defocus_draw(cam, o.1)
    };
    (Ray { orig: og.0, dir: s_sub(sample, og.0) }, og.1)
}

/// The radiance estimate one state draws: black once the depth bound is
/// spent; on a hit, the scattered estimate tinted by the attenuation, or
/// black when the material absorbs; on a miss, the sky.
pub open spec fn s_radiance(objs: Seq<Sphere>, r: Ray, depth: u32, st: u64) -> (Vec3, u64)
    decreases depth,
{
    if depth == 0 {
        (s_zero(), st)
    } else {
        match s_list_hit(objs, r, Interval { min: EPS_FX, max: FX_INF }) {
            Some(rec) => {
                let sc = s_scatter(rec.mat, r, rec, st);
                match sc.0 {
                    Some(pair) => {
                        let rest = s_radiance(objs, pair.0, (depth - 1) as u32, sc.1);
                        (s_mul(pair.1, rest.0), rest.1)
                    },
                    None => (s_zero(), sc.1),
                }
            },
            None => (s_sky(r), st),
        }
    }
}

/// The generator state of one pixel: the render seed scrambled by the
/// pixel's row-major index.
pub open spec fn s_pixel_state(seed: u64, image_width: u32, i: u32, j: u32) -> u64 {
    let idx = (j as u64).wrapping_mul(image_width as u64).wrapping_add(i as u64);
    let k = seed ^ idx.wrapping_mul(SEED_FALLBACK);
    if k == 0 {
        SEED_FALLBACK
    } else {
        k
    }
}

/// `k` remaining estimator calls of one pixel, folded left onto `acc`.
pub open spec fn s_sample_sum(
    cam: Camera,
    objs: Seq<Sphere>,
    i: u32,
    j: u32,
    st: u64,
    acc: Vec3,
    k: u32,
) -> (Vec3, u64)
    decreases k,
{
    if k == 0 {
        (acc, st)
    } else {
        let g = s_ray_draw(cam, i, j, st);
        let c = s_radiance(objs, g.0, cam.max_depth, g.1);
        s_sample_sum(cam, objs, i, j, c.1, s_add(acc, c.0), (k - 1) as u32)
    }
}

/// The averaged radiance of pixel `(i, j)` under a render seed.
pub open spec fn s_render_pixel(cam: Camera, objs: Seq<Sphere>, i: u32, j: u32, seed: u64) -> Vec3 {
    let sum = s_sample_sum(
        cam,
        objs,
        i,
        j,
        s_pixel_state(seed, cam.image_width, i, j),
        s_zero(),
        cam.samples_per_pixel,
    );
    s_scale(sum.0, cam.pixel_sample_scale as int)
}

/// The raster lines of row `j`, columns below `i`, left to right.
pub open spec fn s_render_row(cam: Camera, objs: Seq<Sphere>, seed: u64, j: u32, i: int) -> Seq<u8>
    decreases i,
{
    if i <= 0 {
        Seq::empty()
    } else {
        s_render_row(cam, objs, seed, j, i - 1) + s_color_line(
            s_render_pixel(cam, objs, (i - 1) as u32, j, seed),
        )
    }
}

/// The raster lines of the rows above `j`, top row first.
pub open spec fn s_render_rows(cam: Camera, objs: Seq<Sphere>, seed: u64, j: int) -> Seq<u8>
    decreases j,
{
    if j <= 0 {
        Seq::empty()
    } else {
        s_render_rows(cam, objs, seed, j - 1) + s_render_row(
            cam,
            objs,
            seed,
            (j - 1) as u32,
            cam.image_width as int,
        )
    }
}

/// Decimal digits of a non-negative pixel count.
pub open spec fn s_dec_u32(n: int) -> Seq<u8>
    decreases n,
{
    if n < 10 {
        seq![(48 + n) as u8]
    } else {
        s_dec_u32(n / 10) + seq![(48 + n % 10) as u8]
    }
}

/// The raster header: the two-byte magic token of the plain-text RGB
/// raster format, the image dimensions, and the maximum channel value.
pub open spec fn s_header(w: int, h: int) -> Seq<u8> {
    seq![80u8, 51u8, 10u8] + s_dec_u32(w) + seq![32u8] + s_dec_u32(h) + seq![10u8] + seq![
        50u8,
        53u8,
        53u8,
        10u8,
    ]
}

pub struct Camera {
    pub aspect_ratio: i64,
    pub image_width: u32,
    pub samples_per_pixel: u32,
    pub max_depth: u32,
    pub vfov: i64,
    pub lookfrom: Point3,
    pub lookat: Point3,
    pub vup: Vec3,
    pub defocus_angle: i64,
    pub focus_dist: i64,

    pub u: Vec3,
    pub v: Vec3,
    pub w: Vec3,
    pub pixel_sample_scale: i64,
    pub image_height: u32,
    pub center: Point3,
    pub pixel00_loc: Point3,
    pub pixel_delta_u: Vec3,
    pub pixel_delta_v: Vec3,
    pub defocus_disk_u: Vec3,
    pub defocus_disk_v: Vec3,
}

impl Camera {
    pub fn new(
        aspect_ratio: i64,
        image_width: u32,
        samples_per_pixel: u32,
        max_depth: u32,
        vfov: i64,
        lookfrom: Point3,
        lookat: Point3,
        vup: Vec3,
        defocus_angle: i64,
        focus_dist: i64,
    ) -> (cam: Camera)
        ensures
            cam == s_camera(
                aspect_ratio as int,
                image_width,
                samples_per_pixel,
                max_depth,
                vfov as int,
                lookfrom,
                lookat,
                vup,
                defocus_angle as int,
                focus_dist as int,
            ),
    {
        let mut cam = Camera {
            aspect_ratio,
            image_width,
            samples_per_pixel,
            max_depth,
            vfov,
            lookfrom,
            lookat,
            vup,
            defocus_angle,
            focus_dist,
            u: Vec3::zero(),
            v: Vec3::zero(),
            w: Vec3::zero(),
            pixel_sample_scale: 0,
            image_height: 0,
            center: Vec3::zero(),
            pixel00_loc: Vec3::zero(),
            pixel_delta_u: Vec3::zero(),
            pixel_delta_v: Vec3::zero(),
            defocus_disk_u: Vec3::zero(),
            defocus_disk_v: Vec3::zero(),
        };
        cam.initialize();
        cam
    }

    /// Derive the viewport geometry from the configuration fields.
    pub fn initialize(&mut self)
        ensures
            *final(self) == s_camera(
                old(self).aspect_ratio as int,
                old(self).image_width,
                old(self).samples_per_pixel,
                old(self).max_depth,
                old(self).vfov as int,
                old(self).lookfrom,
                old(self).lookat,
                old(self).vup,
                old(self).defocus_angle as int,
                old(self).focus_dist as int,
            ),
    {
        let w_px = (self.image_width as i64) * SCALE;
        let ratio = div_fx(w_px, self.aspect_ratio);
        let rounded = div_trunc(add_fx(ratio, HALF_FX), SCALE);
        let hh: i64 = if rounded < 1 {
            1
        } else if rounded > u32::MAX as i64 {
            u32::MAX as i64
        } else {
            rounded
        };
        self.image_height = hh as u32;
        let h_px = (self.image_height as i64) * SCALE;

        self.pixel_sample_scale = div_fx(SCALE, (self.samples_per_pixel as i64) * SCALE);
        self.center = self.lookfrom;

        let theta = degrees_to_radians(self.vfov);
        let h_tan = tan_fx(div_fx(theta, TWO_FX));
        let viewport_height = mul_fx(mul_fx(TWO_FX, h_tan), self.focus_dist);
        let viewport_width = mul_fx(viewport_height, div_fx(w_px, h_px));

        self.w = self.lookfrom.sub(self.lookat).normalized();
        self.u = self.vup.cross(self.w).normalized();
        self.v = self.w.cross(self.u);

        let viewport_u = self.u.scale(viewport_width);
        let viewport_v = self.v.neg().scale(viewport_height);

        self.pixel_delta_u = viewport_u.div_scalar(w_px);
        self.pixel_delta_v = viewport_v.div_scalar(h_px);

        let viewport_upper_left = self.center.sub(self.w.scale(self.focus_dist)).sub(
            viewport_u.div_scalar(TWO_FX),
        ).sub(viewport_v.div_scalar(TWO_FX));
        self.pixel00_loc = viewport_upper_left.add(
            self.pixel_delta_u.add(self.pixel_delta_v).scale(HALF_FX),
        );

        let defocus_radius = mul_fx(
            self.focus_dist,
            tan_fx(degrees_to_radians(div_fx(self.defocus_angle, TWO_FX))),
        );
        self.defocus_disk_u = self.u.scale(defocus_radius);
        self.defocus_disk_v = self.v.scale(defocus_radius);
    }

    /// The jitter of one pixel sample: zero when a single sample is
    /// taken, else uniform in the half-open unit square centered at the
    /// origin.
    fn sample_square(&self, rng: &mut Rng) -> (r: Vec3)
        ensures
            r == s_square_draw(self.samples_per_pixel, old(rng).state).0,
            final(rng).state == s_square_draw(self.samples_per_pixel, old(rng).state).1,
            self.samples_per_pixel == 1 ==> r == s_zero(),
            -HALF_FX <= r.x < HALF_FX,
            -HALF_FX <= r.y < HALF_FX,
            r.z == 0,
    {
        if self.samples_per_pixel == 1 {
            return Vec3::zero();
        }
        let x = sub_fx(rng.next_unit(), HALF_FX);
        let y = sub_fx(rng.next_unit(), HALF_FX);
        Vec3 { x, y, z: 0 }
    }

    /// A ray origin on the defocus disk around the camera center.
    fn defocus_disk_sample(&self, rng: &mut Rng) -> (r: Point3)
        ensures
            r == s_defocus_draw(*self, old(rng).state).0,
            final(rng).state == s_defocus_draw(*self, old(rng).state).1,
    {
        let p = Vec3::random_in_unit_disk(rng);
        self.center.add(self.defocus_disk_u.scale(p.x)).add(self.defocus_disk_v.scale(p.y))
    }

    /// One camera ray for pixel `(i, j)`: the pixel center jittered by a
    /// sample offset, shot from the camera center, or from the defocus
    /// disk when depth of field is on.
    pub fn get_ray(&self, i: u32, j: u32, rng: &mut Rng) -> (r: Ray)
        ensures
            r == s_ray_draw(*self, i, j, old(rng).state).0,
            final(rng).state == s_ray_draw(*self, i, j, old(rng).state).1,
            self.defocus_angle <= 0 ==> r.orig == self.center,
            self.samples_per_pixel == 1 && self.defocus_angle <= 0 ==> r == s_primary_ray(
                *self,
                i,
                j,
            ),
    {
        let offset = self.sample_square(rng);
        let i_fx = add_fx((i as i64) * SCALE, offset.x);
        let j_fx = add_fx((j as i64) * SCALE, offset.y);
        let pixel_sample = self.pixel00_loc.add(self.pixel_delta_u.scale(i_fx)).add(
            self.pixel_delta_v.scale(j_fx),
        );
        let ray_origin = if self.defocus_angle <= 0 {
            self.center
        } else {
            self.defocus_disk_sample(rng)
        };
        let ray_direction = pixel_sample.sub(ray_origin);
        Ray::new(ray_origin, ray_direction)
    }

    /// The radiance estimate along a ray: black once the depth bound is
    /// spent; on a hit, the scattered estimate tinted by the material's
    /// attenuation, or black when the material absorbs; on a miss, the
    /// sky gradient.
    pub fn ray_color(&self, r: &Ray, depth: u32, world: &HittableList, rng: &mut Rng) -> (c:
        Color)
        ensures
            c == s_radiance(world.objects@, *r, depth, old(rng).state).0,
            final(rng).state == s_radiance(world.objects@, *r, depth, old(rng).state).1,
            depth == 0 ==> c == s_zero(),
            depth > 0 && s_list_hit(
                world.objects@,
                *r,
                Interval { min: EPS_FX, max: FX_INF },
            ) is None ==> c == s_sky(*r),
            depth > 0 ==> (s_list_hit(
                world.objects@,
                *r,
                Interval { min: EPS_FX, max: FX_INF },
            ) matches Some(rec) ==> (rec.mat matches crate::material::Material::Null(_) ==> c
                == s_zero())),
        decreases depth,
    {
        if depth == 0 {
            return Vec3::zero();
        }

        let hit_interval = Interval::new(EPS_FX, FX_INF);
        match world.hit(r, hit_interval) {
            Some(rec) => {
                match rec.mat.scatter(r, &rec, rng) {
                    Some((scattered, attenuation)) => {
                        let bounced = self.ray_color(&scattered, depth - 1, world, rng);
                        attenuation.comp_mul(bounced)
                    },
                    None => Vec3::zero(),
                }
            },
            None => {
                let unit_direction = r.dir.normalized();
                let a = mul_fx(add_fx(unit_direction.y, SCALE), HALF_FX);
                let white = Vec3::new(SCALE, SCALE, SCALE);
                let blue = Vec3::new(HALF_FX, 700_000, SCALE);
                white.scale(sub_fx(SCALE, a)).add(blue.scale(a))
            },
        }
    }

    /// The averaged radiance of one pixel: `samples_per_pixel` estimator
    /// calls on jittered rays, accumulated and scaled by the sample
    /// scale.  Each pixel draws from its own generator, seeded from the
    /// render seed and the pixel index, so pixels are independent.
    pub fn render_pixel(&self, world: &HittableList, i: u32, j: u32, seed: u64) -> (c: Color)
        ensures
            c == s_render_pixel(*self, world.objects@, i, j, seed),
    {
        let idx = (j as u64).wrapping_mul(self.image_width as u64).wrapping_add(i as u64);
        let mut rng = Rng::for_pixel(seed, idx);
        let ghost st0 = s_pixel_state(seed, self.image_width, i, j);
        proof {
            assert(rng.state == st0);
        }
        let mut accumulated = Vec3::zero();
        let mut s: u32 = 0;
        while s < self.samples_per_pixel
            invariant
                s <= self.samples_per_pixel,
                s_sample_sum(
                    *self,
                    world.objects@,
                    i,
                    j,
                    st0,
                    s_zero(),
                    self.samples_per_pixel,
                ) == s_sample_sum(
                    *self,
                    world.objects@,
                    i,
                    j,
                    rng.state,
                    accumulated,
                    (self.samples_per_pixel - s) as u32,
                ),
            decreases self.samples_per_pixel - s,
        {
            let ghost st = rng.state;
            let ghost acc0 = accumulated;
            let ghost k = (self.samples_per_pixel - s) as u32;
            let ray = self.get_ray(i, j, &mut rng);
            let sample = self.ray_color(&ray, self.max_depth, world, &mut rng);
            accumulated = accumulated.add(sample);
            proof {
                assert(s_sample_sum(*self, world.objects@, i, j, st, acc0, k) == s_sample_sum(
                    *self,
                    world.objects@,
                    i,
                    j,
                    rng.state,
                    accumulated,
                    (k - 1) as u32,
                ));
            }
            s = s + 1;
        }
        accumulated.scale(self.pixel_sample_scale)
    }

    /// Render the scene to the plain-text raster byte stream: the
    /// header, then exactly one line per pixel in row-major order, top
    /// row first, each line the encoded averaged estimate of its pixel.
    /// The stream is a function of the camera, the scene and the seed
    /// alone, so one seed renders the same bytes on every run, whatever
    /// order the pixels are drawn in.
    pub fn render(&self, world: &HittableList, seed: u64) -> (out: Vec<u8>)
        ensures
            out@ == s_header(self.image_width as int, self.image_height as int) + s_render_rows(
                *self,
                world.objects@,
                seed,
                self.image_height as int,
            ),
    {
        let ghost header = s_header(self.image_width as int, self.image_height as int);
        let mut out: Vec<u8> = Vec::new();
        push_header(&mut out, self.image_width, self.image_height);
        proof {
            assert(out@ =~= header + s_render_rows(*self, world.objects@, seed, 0));
        }
        let mut j: u32 = 0;
        while j < self.image_height
            invariant
                header == s_header(self.image_width as int, self.image_height as int),
                j <= self.image_height,
                out@ == header + s_render_rows(*self, world.objects@, seed, j as int),
            decreases self.image_height - j,
        {
            let ghost rows = s_render_rows(*self, world.objects@, seed, j as int);
            let mut i: u32 = 0;
            proof {
                assert(out@ =~= header + rows + s_render_row(*self, world.objects@, seed, j, 0));
            }
            while i < self.image_width
                invariant
                    header == s_header(self.image_width as int, self.image_height as int),
                    rows == s_render_rows(*self, world.objects@, seed, j as int),
                    i <= self.image_width,
                    out@ == header + rows + s_render_row(*self, world.objects@, seed, j, i as int),
                decreases self.image_width - i,
            {
                let pixel = self.render_pixel(world, i, j, seed);
                write_color(&mut out, pixel);
                proof {
                    assert(((i + 1) as int - 1) as u32 == i);
                    assert(out@ =~= header + rows + s_render_row(
                        *self,
                        world.objects@,
                        seed,
                        j,
                        i as int + 1,
                    ));
                }
                i = i + 1;
            }
            proof {
                assert(((j + 1) as int - 1) as u32 == j);
                assert(out@ =~= header + s_render_rows(
                    *self,
                    world.objects@,
                    seed,
                    j as int + 1,
                ));
            }
            j = j + 1;
        }
        out
    }
}

/// Decimal digits of a pixel count, most significant first.
fn push_u32_decimal(out: &mut Vec<u8>, n: u32)
    ensures
        final(out)@ == old(out)@ + s_dec_u32(n as int),
    decreases n,
{
    if n >= 10 {
        push_u32_decimal(out, n / 10);
    }
    out.push(48 + (n % 10) as u8);
    proof {
        if n < 10 {
            assert(out@ =~= old(out)@ + s_dec_u32(n as int));
        } else {
            assert(out@ =~= old(out)@ + s_dec_u32(n as int));
        }
    }
}

/// The raster header for an image of the given dimensions.
pub fn push_header(out: &mut Vec<u8>, w: u32, h: u32)
    ensures
        final(out)@ == old(out)@ + s_header(w as int, h as int),
{
    out.push(80);
    out.push(51);
    out.push(10);
    push_u32_decimal(out, w);
    out.push(32);
    push_u32_decimal(out, h);
    out.push(10);
    out.push(50);
    out.push(53);
    out.push(53);
    out.push(10);
    proof {
        assert(out@ =~= old(out)@ + s_header(w as int, h as int));
    }
}

} // verus!
