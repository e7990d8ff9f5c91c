//! The ray caster: for one screen column it marches a ray from the viewer in
//! fixed steps until the ray enters a wall cell or a hard distance cap is
//! passed, then reports the traveled distance, which boundary orientation was
//! crossed last, and the hit position. The whole march is mirrored by a
//! recursive specification function, so the loop's result is pinned exactly.
use vstd::prelude::*;

use crate::fixed::{cell_index, div_trunc, spec_cell_index, trunc_div, FP};
use crate::framebuffer::Framebuffer;
use crate::map::{lemma_open_position_inside, GridMap};
use crate::player::Player;
use crate::texture::Texture;

verus! {

broadcast use vstd::arithmetic::mul::lemma_mul_is_commutative;

/// Hard cap on traveled distance: 100 world units.
pub const DIST_CAP: i64 = 100_000_000;

/// Fine step while the ray is within 5 world units of the viewer: 0.01 units.
pub const STEP_NEAR: i64 = 10_000;

/// Default step between 5 and 50 world units: 0.05 units.
pub const STEP_MID: i64 = 50_000;

/// Coarse step beyond 50 world units: 0.1 units.
pub const STEP_FAR: i64 = 100_000;

/// Distances below 0.01 world units are clamped up before the height
/// projection divides by them.
pub const MIN_DIST: i64 = 10_000;

/// The step size used at a given traveled distance: fine near the viewer,
/// default in the middle band, coarse far out.
pub open spec fn spec_step_size(dist: int) -> int {
    if dist > 50 * (FP as int) {
        STEP_FAR as int
    } else if dist < 5 * (FP as int) {
        STEP_NEAR as int
    } else {
        STEP_MID as int
    }
}

/// Executable form of [`spec_step_size`].
pub fn step_size(dist: i64) -> (s: i64)
    ensures
        s == spec_step_size(dist as int),
        STEP_NEAR <= s <= STEP_FAR,
{
    if dist > 50 * FP {
        STEP_FAR
    } else if dist < 5 * FP {
        STEP_NEAR
    } else {
        STEP_MID
    }
}

/// One whole ray march, as a function: from position `(x, y)` with traveled
/// distance `dist` and last crossed orientation `side`, march by
/// distance-dependent steps along `(cos, sin)` until the position lies in a
/// wall cell or the distance cap is passed. Returns
/// `(distance, side, hit x, hit y)`.
pub open spec fn spec_march(
    map: GridMap,
    x: int,
    y: int,
    cos: int,
    sin: int,
    side: int,
    dist: int,
) -> (int, int, int, int)
    decreases (if dist >= DIST_CAP { 0int } else { DIST_CAP - dist }),
{
    if map.spec_is_wall(x, y) || dist >= DIST_CAP {
        (dist, side, x, y)
    } else {
        let step = spec_step_size(dist);
        let nx = x + trunc_div(cos * step, FP as int);
        let ny = y + trunc_div(sin * step, FP as int);
        let nside = if spec_cell_index(nx) != spec_cell_index(x) {
            0int
        } else if spec_cell_index(ny) != spec_cell_index(y) {
            1int
        } else {
            side
        };
        spec_march(map, nx, ny, cos, sin, nside, dist + step)
    }
}

/// The ray cast for a viewer position and a ray direction given by its cosine
/// and sine: a march that starts at distance 0 with orientation flag 0.
pub open spec fn spec_cast_ray(map: GridMap, x0: int, y0: int, cos: int, sin: int) -> (
    int,
    int,
    int,
    int,
) {
    spec_march(map, x0, y0, cos, sin, 0, 0)
}

/// The perpendicular distance used for height projection: the raw traveled
/// distance is scaled by the cosine of the ray-to-facing angle when the hit
/// crossed a vertical boundary (the fisheye correction; a horizontal hit
/// keeps the raw distance), and the result is clamped up to `MIN_DIST` so the
/// height projection never divides by a vanishing distance.
pub open spec fn spec_perp_distance(raw: int, side: int, fisheye_cos: int) -> int {
    let corrected = if side == 0 {
        trunc_div(raw * fisheye_cos, FP as int)
    } else {
        raw
    };
    if corrected < MIN_DIST {
        MIN_DIST as int
    } else {
        corrected
    }
}

/// The height in pixels of a wall strip seen at the given perpendicular
/// distance: surface height over distance.
pub open spec fn spec_wall_height(fbh: int, dist: int) -> int {
    fbh * (FP as int) / dist
}

/// First row of a wall strip: centered, clamped at the surface's top edge.
pub open spec fn spec_strip_start(fbh: int, wh: int) -> int {
    if fbh / 2 >= wh / 2 {
        fbh / 2 - wh / 2
    } else {
        0
    }
}

/// One past the last row of a wall strip.
pub open spec fn spec_strip_end(fbh: int, wh: int) -> int {
    fbh / 2 + wh / 2
}

/// The fixed-point cosine and sine of one column's ray direction, and the
/// cosine of the angle between the ray and the viewer's facing (used by the
/// fisheye correction).
#[derive(Clone, Copy)]
pub struct ColumnTrig {
    pub dir_cos: i64,
    pub dir_sin: i64,
    pub fisheye_cos: i64,
}

impl ColumnTrig {
    /// Cosine and sine are genuine trigonometric values, so they are bounded
    /// by one; the ray-to-facing angle stays under a third of a turn, so its
    /// cosine is at least one half.
    pub open spec fn wf(self) -> bool {
        &&& -FP <= self.dir_cos <= FP
        &&& -FP <= self.dir_sin <= FP
        &&& FP / 2 <= self.fisheye_cos <= FP
    }
}

/// The ray cast for one column: the viewer's position marched along the
/// column's ray direction.
pub open spec fn spec_column_ray(map: GridMap, player: Player, t: ColumnTrig) -> (int, int, int, int) {
    spec_cast_ray(map, player.x as int, player.y as int, t.dir_cos as int, t.dir_sin as int)
}

/// The perpendicular distance of one column's wall hit.
pub open spec fn spec_column_dist(map: GridMap, player: Player, t: ColumnTrig) -> int {
    let r = spec_column_ray(map, player, t);
    spec_perp_distance(r.0, r.1, t.fisheye_cos as int)
}

/// The texture column one column's wall strip samples: the fractional part of
/// the hit's y coordinate for a vertical-boundary hit, of its x coordinate
/// otherwise.
pub open spec fn spec_column_tex_x(map: GridMap, player: Player, t: ColumnTrig, texw: int) -> int {
    let r = spec_column_ray(map, player, t);
    Texture::spec_world_to_texel(if r.1 == 0 { r.3 } else { r.2 }, texw)
}

/// The color of flat pixel `i` after the wall pass: if the pixel's row falls
/// in its column's wall strip, the strip's texel, sampled at the column's
/// texture column and at the row interpolated over the texture height;
/// otherwise the pixel keeps its previous color.
pub open spec fn spec_wall_pixel(
    map: GridMap,
    player: Player,
    trig: Seq<ColumnTrig>,
    tex: Texture,
    fbw: int,
    fbh: int,
    old: Seq<u32>,
    i: int,
) -> u32 {
    let x = i % fbw;
    let y = i / fbw;
    let t = trig[x];
    let dist = spec_column_dist(map, player, t);
    let wh = spec_wall_height(fbh, dist);
    let start = spec_strip_start(fbh, wh);
    let end = spec_strip_end(fbh, wh);
    if start <= y < end {
        tex.spec_texel(
            spec_column_tex_x(map, player, t, tex.width as int),
            (y - start) * tex.height / wh,
        )
    } else {
        old[i]
    }
}

/// The whole surface after the wall pass, pixel by pixel.
pub open spec fn spec_wall_pass(
    map: GridMap,
    player: Player,
    trig: Seq<ColumnTrig>,
    tex: Texture,
    fbw: int,
    fbh: int,
    old: Seq<u32>,
) -> Seq<u32> {
    Seq::new(old.len(), |i: int| spec_wall_pixel(map, player, trig, tex, fbw, fbh, old, i))
}

/// The normalized camera-plane coordinate of screen column `x`: it sweeps the
/// fixed-point range [-1, 1) left to right across the surface.
pub fn camera_x(x: usize, width: usize) -> (c: i64)
    requires
        0 < width <= 16384,
        x < width,
    ensures
        c == 2 * (FP as int) * x / (width as int) - FP,
        -FP <= c < FP,
{
    proof {
        assert(0 <= 2 * (FP as int) * x && 2 * (FP as int) * x < (width as int) * (2 * FP))
            by (nonlinear_arith)
            requires
                0 <= x < width,
        ;
        vstd::arithmetic::div_mod::lemma_multiply_divide_lt(
            2 * (FP as int) * x,
            width as int,
            2 * FP as int,
        );
        vstd::arithmetic::div_mod::lemma_div_pos_is_pos(2 * (FP as int) * x, width as int);
    }
    let num = (x as i64) * 2_000_000;
    proof {
        assert(num == 2 * (FP as int) * x);
    }
    num / (width as i64) - FP
}

/// The ray direction of one screen column: the viewer's facing plus half the
/// field of view scaled by the column's camera coordinate (a linear sweep of
/// the field of view across the surface).
pub fn ray_direction(direction: i64, fov: i64, cam_x: i64) -> (d: i64)
    requires
        -1000 * FP <= direction <= 1000 * FP,
        0 < fov <= 3 * FP,
        -FP <= cam_x <= FP,
    ensures
        d == direction + trunc_div((fov / 2) * cam_x, FP as int),
        direction - fov / 2 <= d <= direction + fov / 2,
{
    proof {
        assert(-((fov / 2) * (FP as int)) <= (fov / 2) * cam_x <= (fov / 2) * (FP as int) && (fov
            / 2) * (FP as int) <= 1_500_000_000_000) by (nonlinear_arith)
            requires
                0 < fov <= 3 * FP,
                -FP <= cam_x <= FP,
        ;
    }
    let prod = (fov / 2) * cam_x;
    let offset = div_trunc(prod, FP);
    proof {
        vstd::arithmetic::div_mod::lemma_div_by_multiple(fov as int / 2, FP as int);
        if prod >= 0 {
            vstd::arithmetic::div_mod::lemma_div_is_ordered(
                prod as int,
                (fov as int / 2) * FP,
                FP as int,
            );
        } else {
            vstd::arithmetic::div_mod::lemma_div_is_ordered(
                -prod as int,
                (fov as int / 2) * FP,
                FP as int,
            );
        }
    }
    direction + offset
}

/// Induction over the march: the march always ends at a wall or at the cap,
/// the distance never shrinks, and along any axis whose direction component
/// is at least an eighth in magnitude, the position advances that way by at
/// least an eighth of the traveled distance while staying within one step of
/// the walled border it is heading for.
proof fn lemma_march_progress(
    map: GridMap,
    x: int,
    y: int,
    cos: int,
    sin: int,
    side: int,
    dist: int,
)
    requires
        map.wf(),
        -FP <= cos <= FP,
        -FP <= sin <= FP,
        0 <= dist,
    ensures
        ({
            let r = spec_march(map, x, y, cos, sin, side, dist);
            &&& map.spec_is_wall(r.2, r.3) || r.0 >= DIST_CAP
            &&& r.0 >= dist
            &&& cos >= FP as int / 8 ==> 8 * (r.2 - x) >= r.0 - dist && r.2 <= (if x < map.width
                * FP {
                map.width * FP + STEP_FAR
            } else {
                x
            })
            &&& cos <= -(FP as int) / 8 ==> 8 * (x - r.2) >= r.0 - dist && r.2 >= (if x >= FP {
                -STEP_FAR as int
            } else {
                x
            })
            &&& sin >= FP as int / 8 ==> 8 * (r.3 - y) >= r.0 - dist && r.3 <= (if y < map.height
                * FP {
                map.height * FP + STEP_FAR
            } else {
                y
            })
            &&& sin <= -(FP as int) / 8 ==> 8 * (y - r.3) >= r.0 - dist && r.3 >= (if y >= FP {
                -STEP_FAR as int
            } else {
                y
            })
        }),
    decreases (if dist >= DIST_CAP { 0int } else { DIST_CAP - dist }),
{
    if map.spec_is_wall(x, y) || dist >= DIST_CAP {
        // The march is already over.
    } else {
        lemma_open_position_inside(map, x, y);
        let step = spec_step_size(dist);
        let dx = trunc_div(cos * step, FP as int);
        let dy = trunc_div(sin * step, FP as int);
        let nx = x + dx;
        let ny = y + dy;
        assert((step / 8) * (FP as int) == (FP as int / 8) * step && step == 8 * (step / 8)) by (
        nonlinear_arith)
            requires
                step == 10_000 || step == 50_000 || step == 100_000,
        ;
        lemma_component_step_bounds(cos, step, dx);
        lemma_component_step_bounds(sin, step, dy);
        let nside = if spec_cell_index(nx) != spec_cell_index(x) {
            0int
        } else if spec_cell_index(ny) != spec_cell_index(y) {
            1int
        } else {
            side
        };
        lemma_march_progress(map, nx, ny, cos, sin, nside, dist + step);
    }
}

/// Bounds on one step's displacement along one axis: never more than the
/// step size in magnitude, and at least an eighth of it in the component's
/// direction whenever the component is at least an eighth in magnitude.
proof fn lemma_component_step_bounds(trig: int, step: int, d: int)
    requires
        -FP <= trig <= FP,
        step == 10_000 || step == 50_000 || step == 100_000,
        d == trunc_div(trig * step, FP as int),
    ensures
        -step <= d <= step,
        trig >= FP as int / 8 ==> d >= step / 8,
        trig <= -(FP as int) / 8 ==> d <= -(step / 8),
{
    assert(-(FP as int) * step <= trig * step <= (FP as int) * step && (FP as int) * step == step
        * (FP as int) && (step / 8) * (FP as int) == (FP as int / 8) * step) by (nonlinear_arith)
        requires
            -FP <= trig <= FP,
            step == 10_000 || step == 50_000 || step == 100_000,
    ;
    let prod = trig * step;
    vstd::arithmetic::div_mod::lemma_div_by_multiple(step, FP as int);
    vstd::arithmetic::div_mod::lemma_div_by_multiple(step / 8, FP as int);
    if prod >= 0 {
        vstd::arithmetic::div_mod::lemma_div_is_ordered(prod, step * (FP as int), FP as int);
        vstd::arithmetic::div_mod::lemma_div_pos_is_pos(prod, FP as int);
        if trig >= FP as int / 8 {
            assert((FP as int / 8) * step <= trig * step) by (nonlinear_arith)
                requires
                    FP as int / 8 <= trig,
                    0 < step,
            ;
            vstd::arithmetic::div_mod::lemma_div_is_ordered(
                (step / 8) * (FP as int),
                prod,
                FP as int,
            );
        }
    } else {
        vstd::arithmetic::div_mod::lemma_div_is_ordered(-prod, step * (FP as int), FP as int);
        vstd::arithmetic::div_mod::lemma_div_pos_is_pos(-prod, FP as int);
        if trig <= -(FP as int) / 8 {
            assert((FP as int / 8) * step <= -(trig * step)) by (nonlinear_arith)
                requires
                    trig <= -(FP as int) / 8,
                    0 < step,
            ;
            vstd::arithmetic::div_mod::lemma_div_is_ordered(
                (step / 8) * (FP as int),
                -prod,
                FP as int,
            );
        }
    }
}

/// From a position strictly inside an open cell of a small enough map, a ray
/// whose direction has at least one component of magnitude one eighth or
/// more -- which every genuine unit direction has -- ends its march strictly
/// under the distance cap, at a position that lies in a wall cell.
pub proof fn lemma_ray_hits_wall(map: GridMap, player: Player, cos: int, sin: int)
    requires
        map.wf(),
        player.wf(),
        !map.spec_is_wall(player.x as int, player.y as int),
        -FP <= cos <= FP,
        -FP <= sin <= FP,
        cos >= FP as int / 8 || cos <= -(FP as int) / 8 || sin >= FP as int / 8 || sin <= -(
        FP as int) / 8,
        8 * (map.width * FP + STEP_FAR) < DIST_CAP,
        8 * (map.height * FP + STEP_FAR) < DIST_CAP,
    ensures
        ({
            let r = spec_cast_ray(map, player.x as int, player.y as int, cos, sin);
            &&& 0 <= r.0 < DIST_CAP
            &&& map.spec_is_wall(r.2, r.3)
        }),
{
    lemma_march_progress(map, player.x as int, player.y as int, cos, sin, 0, 0);
    lemma_open_position_inside(map, player.x as int, player.y as int);
}

/// A ray aligned with the viewer's facing loses nothing to the fisheye
/// correction: when the correction cosine is exactly one, the perpendicular
/// distance of a vertical-boundary hit equals the raw traveled distance.
pub proof fn lemma_centered_ray_distance(raw: int)
    requires
        MIN_DIST <= raw,
    ensures
        spec_perp_distance(raw, 0, FP as int) == raw,
{
    vstd::arithmetic::div_mod::lemma_div_by_multiple(raw, FP as int);
    assert(trunc_div(raw * (FP as int), FP as int) == raw);
}

/// The wall strip's height never grows with distance, and doubling the
/// distance exactly halves the projected height (in integer division).
pub proof fn lemma_wall_height_monotone(fbh: int, d1: int, d2: int)
    requires
        0 <= fbh,
        0 < d1 <= d2,
    ensures
        spec_wall_height(fbh, d2) <= spec_wall_height(fbh, d1),
        spec_wall_height(fbh, 2 * d1) == spec_wall_height(fbh, d1) / 2,
{
    vstd::arithmetic::div_mod::lemma_div_is_ordered_by_denominator(fbh * (FP as int), d1, d2);
    vstd::arithmetic::div_mod::lemma_div_denominator(fbh * (FP as int), d1, 2);
}

pub struct Raycaster;

impl Raycaster {
    pub fn new() -> (r: Raycaster) {
        Raycaster
    }

    /// March one ray from the viewer's position along `(dir_cos, dir_sin)`.
    /// Returns exactly what [`spec_cast_ray`] computes: traveled distance,
    /// the orientation flag of the last cell boundary crossed (0 vertical,
    /// 1 horizontal), and the hit position.
    pub fn cast_ray(&self, map: &GridMap, player: &Player, dir_cos: i64, dir_sin: i64) -> (r: (
        i64,
        i32,
        i64,
        i64,
    ))
        requires
            map.wf(),
            player.wf(),
            -FP <= dir_cos <= FP,
            -FP <= dir_sin <= FP,
        ensures
            (r.0 as int, r.1 as int, r.2 as int, r.3 as int) == spec_cast_ray(
                *map,
                player.x as int,
                player.y as int,
                dir_cos as int,
                dir_sin as int,
            ),
            0 <= r.0 <= DIST_CAP + STEP_FAR,
            r.1 == 0 || r.1 == 1,
            player.x - r.0 <= r.2 <= player.x + r.0,
            player.y - r.0 <= r.3 <= player.y + r.0,
    {
        let mut cx: i64 = player.x;
        let mut cy: i64 = player.y;
        let mut dist: i64 = 0;
        let mut side: i32 = 0;

        while !map.is_wall(cx, cy) && dist < DIST_CAP
            invariant
                map.wf(),
                player.wf(),
                -FP <= dir_cos <= FP,
                -FP <= dir_sin <= FP,
                0 <= dist <= DIST_CAP + STEP_FAR,
                side == 0 || side == 1,
                player.x - dist <= cx <= player.x + dist,
                player.y - dist <= cy <= player.y + dist,
                spec_march(
                    *map,
                    cx as int,
                    cy as int,
                    dir_cos as int,
                    dir_sin as int,
                    side as int,
                    dist as int,
                ) == spec_cast_ray(
                    *map,
                    player.x as int,
                    player.y as int,
                    dir_cos as int,
                    dir_sin as int,
                ),
            decreases DIST_CAP + STEP_FAR - dist,
        {
            let step = step_size(dist);
            let dx = Self::dir_step(dir_cos, step);
            let dy = Self::dir_step(dir_sin, step);
            let nx = cx + dx;
            let ny = cy + dy;

            if cell_index(nx) != cell_index(cx) {
                side = 0;
            } else if cell_index(ny) != cell_index(cy) {
                side = 1;
            }

            cx = nx;
            cy = ny;
            dist = dist + step;
        }

        (dist, side, cx, cy)
    }

    /// Render one wall strip per screen column: cast the column's ray, derive
    /// the perpendicular distance and the strip's extent, and texture-map the
    /// strip into the framebuffer. `trig` holds one entry per column: the
    /// ray direction's cosine and sine and the fisheye cosine.
    pub fn cast_rays(
        &self,
        map: &GridMap,
        player: &Player,
        framebuffer: &mut Framebuffer,
        wall_texture: &Texture,
        trig: &Vec<ColumnTrig>,
    )
        requires
            map.wf(),
            player.wf(),
            old(framebuffer).wf(),
            wall_texture.wf(),
            trig@.len() == old(framebuffer).width,
            forall|j: int| 0 <= j < trig@.len() ==> (#[trigger] trig@[j]).wf(),
        ensures
            final(framebuffer).wf(),
            final(framebuffer).width == old(framebuffer).width,
            final(framebuffer).height == old(framebuffer).height,
            final(framebuffer).buffer@ == spec_wall_pass(
                *map,
                *player,
                trig@,
                *wall_texture,
                old(framebuffer).width as int,
                old(framebuffer).height as int,
                old(framebuffer).buffer@,
            ),
    {
        let w = framebuffer.width;
        let h = framebuffer.height;
        let ghost old_buf = framebuffer.buffer@;
        let mut x: usize = 0;
        while x < w
            invariant
                map.wf(),
                player.wf(),
                wall_texture.wf(),
                framebuffer.wf(),
                framebuffer.width == w,
                framebuffer.height == h,
                trig@.len() == w,
                forall|j: int| 0 <= j < trig@.len() ==> (#[trigger] trig@[j]).wf(),
                x <= w,
                framebuffer.buffer@.len() == old_buf.len(),
                old_buf.len() == w * h,
                forall|i: int|
                    0 <= i < old_buf.len() ==> framebuffer.buffer@[i] == (if i % (w as int) < x {
                        spec_wall_pixel(
                            *map,
                            *player,
                            trig@,
                            *wall_texture,
                            w as int,
                            h as int,
                            old_buf,
                            i,
                        )
                    } else {
                        old_buf[i]
                    }),
            decreases w - x,
        {
            let t = trig[x];
            let ray = self.cast_ray(map, player, t.dir_cos, t.dir_sin);
            let raw = ray.0;
            let side = ray.1;
            let corrected = if side == 0 {
                Self::fisheye(raw, t.fisheye_cos)
            } else {
                raw
            };
            let dist = if corrected < MIN_DIST {
                MIN_DIST
            } else {
                corrected
            };
            proof {
                assert(dist == spec_column_dist(*map, *player, t));
            }
            let wh_wide = (h as i64) * FP / dist;
            proof {
                vstd::arithmetic::div_mod::lemma_div_is_ordered(
                    (h as i64) * FP,
                    16384 * (FP as int),
                    dist as int,
                );
                vstd::arithmetic::div_mod::lemma_div_is_ordered_by_denominator(
                    16384 * (FP as int),
                    MIN_DIST as int,
                    dist as int,
                );
                vstd::arithmetic::div_mod::lemma_div_pos_is_pos((h as i64) * FP, dist as int);
            }
            let wh = wh_wide as usize;
            let start = if h / 2 >= wh / 2 {
                h / 2 - wh / 2
            } else {
                0
            };
            let end = h / 2 + wh / 2;
            let tex_x = Texture::world_to_texel(
                if side == 0 {
                    ray.3
                } else {
                    ray.2
                },
                wall_texture.width,
            );
            let ghost before = framebuffer.buffer@;
            Self::draw_strip(framebuffer, x, start, end, wall_texture, tex_x, wh);
            proof {
                let wi = w as int;
                let pix = |i: int|
                    spec_wall_pixel(
                        *map,
                        *player,
                        trig@,
                        *wall_texture,
                        wi,
                        h as int,
                        old_buf,
                        i,
                    );
                assert(wh as int == spec_wall_height(
                    h as int,
                    spec_column_dist(*map, *player, t),
                ));
                assert(start as int == spec_strip_start(h as int, wh as int));
                assert(end as int == spec_strip_end(h as int, wh as int));
                assert(tex_x as int == spec_column_tex_x(
                    *map,
                    *player,
                    t,
                    wall_texture.width as int,
                ));
                assert forall|i: int| 0 <= i < old_buf.len() implies framebuffer.buffer@[i] == (
                if i % wi < x + 1 {
                    pix(i)
                } else {
                    old_buf[i]
                }) by {
                    vstd::arithmetic::div_mod::lemma_mod_division_less_than_divisor(i, wi);
                    if i % wi == x {
                        assert(trig@[i % wi] == t);
                    }
                }
            }
            x = x + 1;
        }
        proof {
            assert(framebuffer.buffer@ =~= spec_wall_pass(
                *map,
                *player,
                trig@,
                *wall_texture,
                w as int,
                h as int,
                old_buf,
            ));
        }
    }

    /// Apply the fisheye correction factor to a raw traveled distance.
    fn fisheye(dist: i64, fcos: i64) -> (r: i64)
        requires
            0 <= dist <= DIST_CAP + STEP_FAR,
            FP / 2 <= fcos <= FP,
        ensures
            r == trunc_div(dist * fcos, FP as int),
            0 <= r <= dist,
    {
        proof {
            assert(0 <= dist * fcos <= dist * (FP as int) <= (DIST_CAP + STEP_FAR) * (FP as int))
                by (nonlinear_arith)
                requires
                    0 <= dist <= DIST_CAP + STEP_FAR,
                    FP / 2 <= fcos <= FP,
            ;
            vstd::arithmetic::div_mod::lemma_div_pos_is_pos(dist * fcos, FP as int);
            vstd::arithmetic::div_mod::lemma_div_is_ordered(
                dist * fcos,
                dist * (FP as int),
                FP as int,
            );
            vstd::arithmetic::div_mod::lemma_div_by_multiple(dist as int, FP as int);
        }
        dist * fcos / FP
    }

    /// Fill rows `start..end` of column `x` with texels from texture column
    /// `tex_x`, the row index interpolated over the texture height. Rows
    /// beyond the surface are dropped by the pixel primitive.
    fn draw_strip(
        fb: &mut Framebuffer,
        x: usize,
        start: usize,
        end: usize,
        tex: &Texture,
        tex_x: usize,
        wh: usize,
    )
        requires
            old(fb).wf(),
            tex.wf(),
            x < old(fb).width,
            tex_x < tex.width,
            start <= end,
            end - start <= wh,
            wh <= 10_000_000,
        ensures
            final(fb).wf(),
            final(fb).width == old(fb).width,
            final(fb).height == old(fb).height,
            final(fb).buffer@ == Seq::new(
                old(fb).buffer@.len(),
                |i: int|
                    if i % (old(fb).width as int) == x && start <= i / (old(fb).width as int)
                        < end {
                        tex.spec_texel(
                            tex_x as int,
                            (i / (old(fb).width as int) - start) * tex.height / (wh as int),
                        )
                    } else {
                        old(fb).buffer@[i]
                    },
            ),
    {
        let w = fb.width;
        let h = fb.height;
        let ghost old_buf = fb.buffer@;
        let mut y = start;
        while y < end
            invariant
                fb.wf(),
                tex.wf(),
                fb.width == w,
                fb.height == h,
                x < w,
                tex_x < tex.width,
                start <= y <= end,
                end - start <= wh,
                wh <= 10_000_000,
                fb.buffer@.len() == old_buf.len(),
                old_buf.len() == w * h,
                forall|i: int|
                    0 <= i < old_buf.len() ==> fb.buffer@[i] == (if i % (w as int) == x && start
                        <= i / (w as int) < y {
                        tex.spec_texel(
                            tex_x as int,
                            (i / (w as int) - start) * tex.height / (wh as int),
                        )
                    } else {
                        old_buf[i]
                    }),
            decreases end - y,
        {
            proof {
                assert((y - start) * tex.height < wh * tex.height && (y - start) * tex.height
                    <= 10_000_000 * 4096) by (nonlinear_arith)
                    requires
                        start <= y,
                        y - start < wh,
                        wh <= 10_000_000,
                        1 <= tex.height <= 4096,
                ;
                vstd::arithmetic::div_mod::lemma_multiply_divide_lt(
                    (y - start) * tex.height,
                    wh as int,
                    tex.height as int,
                );
            }
            let tex_y = (((y - start) as i64) * (tex.height as i64) / (wh as i64)) as usize;
            let color = tex.texel(tex_x, tex_y);
            fb.point(x, y, color);
            proof {
                let wi = w as int;
                if y < h {
                    let idx = (y as int) * wi + x;
                    vstd::arithmetic::div_mod::lemma_fundamental_div_mod_converse(
                        idx,
                        wi,
                        y as int,
                        x as int,
                    );
                    assert((y as int) * wi + x < (h as int) * wi) by (nonlinear_arith)
                        requires
                            0 <= y < h,
                            0 <= x < wi,
                    ;
                    assert(idx < old_buf.len());
                }
                assert forall|i: int| 0 <= i < old_buf.len() implies fb.buffer@[i] == (if i % wi
                    == x && start <= i / wi < y + 1 {
                    tex.spec_texel(
                        tex_x as int,
                        (i / wi - start) * tex.height / (wh as int),
                    )
                } else {
                    old_buf[i]
                }) by {
                    vstd::arithmetic::div_mod::lemma_fundamental_div_mod(i, wi);
                    vstd::arithmetic::div_mod::lemma_mod_division_less_than_divisor(i, wi);
                    if i / wi >= h {
                        assert((h as int) * wi <= (i / wi) * wi <= i) by (nonlinear_arith)
                            requires
                                h as int <= i / wi,
                                wi > 0,
                                i >= 0,
                                i % wi >= 0,
                                i == (i / wi) * wi + i % wi,
                        ;
                    }
                    if i % wi == x && i / wi == y {
                        assert(i == (y as int) * wi + x);
                    }
                }
            }
            y = y + 1;
        }
        proof {
            assert(fb.buffer@ =~= Seq::new(
                old_buf.len(),
                |i: int|
                    if i % (w as int) == x && start <= i / (w as int) < end {
                        tex.spec_texel(
                            tex_x as int,
                            (i / (w as int) - start) * tex.height / (wh as int),
                        )
                    } else {
                        old_buf[i]
                    },
            ));
        }
    }

    /// One step's displacement along one axis: the direction component scaled
    /// by the step size. Its magnitude never exceeds the step size.
    fn dir_step(trig: i64, step: i64) -> (d: i64)
        requires
            -FP <= trig <= FP,
            0 < step <= STEP_FAR,
        ensures
            d == trunc_div(trig * step, FP as int),
            -step <= d <= step,
    {
        proof {
            assert(-100_000_000_000 <= trig * step <= 100_000_000_000 && trig * step <= step * (
            FP as int) && -(trig * step) <= step * (FP as int)) by (nonlinear_arith)
                requires
                    -FP <= trig <= FP,
                    0 < step <= 100_000,
            ;
        }
        let prod = trig * step;
        let d = div_trunc(prod, FP);
        proof {
            vstd::arithmetic::div_mod::lemma_div_by_multiple(step as int, FP as int);
            if prod >= 0 {
                vstd::arithmetic::div_mod::lemma_div_is_ordered(
                    prod as int,
                    step * (FP as int),
                    FP as int,
                );
            } else {
                vstd::arithmetic::div_mod::lemma_div_is_ordered(
                    -prod as int,
                    step * (FP as int),
                    FP as int,
                );
            }
        }
        d
    }
}

} // verus!
