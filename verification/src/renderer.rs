//! The scene renderer: one frame is a fixed pipeline over the pixel surface.
//! Clear to the sky color, draw the floor by inverse perspective, cast one
//! ray per column and texture-map the wall strips, overlay the goal as a
//! through-wall billboard, and overlay the minimap with the player marker.
//! Every pass has a pixel-exact contract, and the frame is their composition.
use vstd::prelude::*;

use crate::fixed::{div_trunc, trunc_div, FP};
use crate::framebuffer::Framebuffer;
use crate::map::GridMap;
use crate::player::Player;
use crate::raycaster::{spec_wall_pass, ColumnTrig, Raycaster};
use crate::texture::Texture;

verus! {

broadcast use vstd::arithmetic::mul::lemma_mul_is_commutative;

/// Sky color: the clear value of every frame.
pub const SKY_COLOR: u32 = 0x87CEEB;

/// The goal billboard's color.
pub const GOAL_COLOR: u32 = 0x00FF00;

/// Minimap color of a wall cell.
pub const MINIMAP_WALL_COLOR: u32 = 0xFFFFFF;

/// Minimap color of an open cell.
pub const MINIMAP_FLOOR_COLOR: u32 = 0x000000;

/// Minimap color of the player marker.
pub const MINIMAP_PLAYER_COLOR: u32 = 0xFF0000;

/// Side length in pixels of one minimap cell.
pub const MINIMAP_SCALE: usize = 4;

/// The distance the floor pass attributes to pixel row `y`: surface height
/// over twice the row's offset from the horizon row.
pub open spec fn spec_row_distance(fbh: int, y: int, center: int) -> int {
    fbh * (FP as int) / (2 * (y - center))
}

/// One per-column texture-coordinate step of the floor pass: the row distance
/// scaled by the leftmost ray direction's cosine or sine.
pub open spec fn spec_floor_step(rd: int, trig: int) -> int {
    trunc_div(rd * trig, FP as int)
}

/// The color of flat pixel `i` after the floor pass: rows strictly below the
/// horizon sample the floor texture at world coordinates that advance by a
/// fixed per-row step for each column; other rows keep their previous color.
pub open spec fn spec_floor_pixel(
    player: Player,
    tex: Texture,
    lcos: int,
    lsin: int,
    fbw: int,
    fbh: int,
    old: Seq<u32>,
    i: int,
) -> u32 {
    let x = i % fbw;
    let y = i / fbw;
    let center = fbh / 2;
    if y >= center + 1 {
        let rd = spec_row_distance(fbh, y, center);
        let sx = spec_floor_step(rd, lcos);
        let sy = spec_floor_step(rd, lsin);
        tex.spec_texel(
            Texture::spec_world_to_texel(player.x + (x + 1) * sx, tex.width as int),
            Texture::spec_world_to_texel(player.y + (x + 1) * sy, tex.height as int),
        )
    } else {
        old[i]
    }
}

/// The whole surface after the floor pass, pixel by pixel.
pub open spec fn spec_floor_pass(
    player: Player,
    tex: Texture,
    lcos: int,
    lsin: int,
    fbw: int,
    fbh: int,
    old: Seq<u32>,
) -> Seq<u32> {
    Seq::new(old.len(), |i: int| spec_floor_pixel(player, tex, lcos, lsin, fbw, fbh, old, i))
}

/// Straight-line distance from the viewer to the goal position.
pub open spec fn spec_goal_dist(map: GridMap, player: Player) -> int {
    let dx = map.end_x - player.x;
    let dy = map.end_y - player.y;
    crate::fixed::spec_isqrt(dx * dx + dy * dy)
}

/// The screen column the goal projects to: a linear sweep of the bearing
/// across the field of view, centered on the middle column.
pub open spec fn spec_goal_screen_x(fbw: int, rel: int, fov: int) -> int {
    trunc_div(fbw * ((FP as int) + trunc_div(rel * (FP as int), fov)), 2 * (FP as int))
}

/// Whether the goal billboard is drawn at all: the goal is not almost on top
/// of the viewer, its bearing lies within the field of view, and its
/// projected column lies on the surface.
pub open spec fn spec_goal_visible(map: GridMap, player: Player, rel: int, fbw: int) -> bool {
    let sx = spec_goal_screen_x(fbw, rel, player.fov as int);
    &&& spec_goal_dist(map, player) >= (FP as int) / 10
    &&& -((player.fov as int) / 2) < rel < (player.fov as int) / 2
    &&& 0 <= sx < fbw
}

/// The color of flat pixel `i` after the goal pass: a square of side equal to
/// the goal's projected height, centered on the goal's column and the horizon
/// row, drawn over whatever was there; everything else keeps its color. The
/// square is drawn even over walls: the goal acts as a through-wall beacon.
pub open spec fn spec_goal_pixel(
    map: GridMap,
    player: Player,
    rel: int,
    fbw: int,
    fbh: int,
    old: Seq<u32>,
    i: int,
) -> u32 {
    let x = i % fbw;
    let y = i / fbw;
    let sx = spec_goal_screen_x(fbw, rel, player.fov as int);
    let gh = crate::raycaster::spec_wall_height(fbh, spec_goal_dist(map, player));
    let sy0 = crate::raycaster::spec_strip_start(fbh, gh);
    let ey = sy0 + gh;
    let sx0 = if sx >= gh / 2 {
        sx - gh / 2
    } else {
        0
    };
    let ex = sx + gh / 2;
    if spec_goal_visible(map, player, rel, fbw) && sx0 <= x < ex && sy0 <= y < ey {
        GOAL_COLOR
    } else {
        old[i]
    }
}

/// The whole surface after the goal pass, pixel by pixel.
pub open spec fn spec_goal_pass(
    map: GridMap,
    player: Player,
    rel: int,
    fbw: int,
    fbh: int,
    old: Seq<u32>,
) -> Seq<u32> {
    Seq::new(old.len(), |i: int| spec_goal_pixel(map, player, rel, fbw, fbh, old, i))
}

/// Minimap color of grid cell `(cx, cy)`: light for a wall, dark for floor,
/// probed through the map's own occupancy query at the cell's world position.
pub open spec fn spec_minimap_cell_color(map: GridMap, cx: int, cy: int) -> u32 {
    if map.spec_is_wall(cx * (FP as int), cy * (FP as int)) {
        MINIMAP_WALL_COLOR
    } else {
        MINIMAP_FLOOR_COLOR
    }
}

/// Leftmost pixel column of the player marker: the player's x scaled to
/// minimap pixels.
pub open spec fn spec_marker_x(player: Player) -> int {
    player.x * (MINIMAP_SCALE as int) / (FP as int)
}

/// Topmost pixel row of the player marker.
pub open spec fn spec_marker_y(player: Player) -> int {
    player.y * (MINIMAP_SCALE as int) / (FP as int)
}

/// The color of flat pixel `i` after the minimap pass: the player marker
/// block wins, then the scaled map cells, and every pixel outside the minimap
/// region keeps its color.
pub open spec fn spec_minimap_pixel(
    map: GridMap,
    player: Player,
    fbw: int,
    fbh: int,
    old: Seq<u32>,
    i: int,
) -> u32 {
    let x = i % fbw;
    let y = i / fbw;
    let mx = spec_marker_x(player);
    let my = spec_marker_y(player);
    if mx <= x < mx + MINIMAP_SCALE && my <= y < my + MINIMAP_SCALE {
        MINIMAP_PLAYER_COLOR
    } else if x < map.width * MINIMAP_SCALE && y < map.height * MINIMAP_SCALE {
        spec_minimap_cell_color(map, x / (MINIMAP_SCALE as int), y / (MINIMAP_SCALE as int))
    } else {
        old[i]
    }
}

/// The whole surface after the minimap pass, pixel by pixel.
pub open spec fn spec_minimap_pass(
    map: GridMap,
    player: Player,
    fbw: int,
    fbh: int,
    old: Seq<u32>,
) -> Seq<u32> {
    Seq::new(old.len(), |i: int| spec_minimap_pixel(map, player, fbw, fbh, old, i))
}

/// The per-frame trigonometric inputs of one rendered scene: one entry per
/// screen column for the wall pass, the leftmost ray direction for the floor
/// pass, and the goal's bearing relative to the viewer's facing.
pub struct FrameTrig {
    pub columns: Vec<ColumnTrig>,
    pub left_cos: i64,
    pub left_sin: i64,
    pub goal_rel: i64,
}

impl FrameTrig {
    /// One well-formed entry per column, direction components bounded by one,
    /// and a sane goal bearing.
    pub open spec fn wf(self, width: int) -> bool {
        &&& self.columns@.len() == width
        &&& forall|j: int| 0 <= j < self.columns@.len() ==> (#[trigger] self.columns@[j]).wf()
        &&& -FP <= self.left_cos <= FP
        &&& -FP <= self.left_sin <= FP
        &&& -10 * FP <= self.goal_rel <= 10 * FP
    }
}

/// One whole frame: clear to the sky color, then the floor pass, the wall
/// pass, the goal overlay and the minimap overlay, in that order.
pub open spec fn spec_render_scene(
    map: GridMap,
    player: Player,
    ft: FrameTrig,
    wall_tex: Texture,
    floor_tex: Texture,
    sky: u32,
    fbw: int,
    fbh: int,
    old: Seq<u32>,
) -> Seq<u32> {
    let cleared = Seq::new(old.len(), |i: int| sky);
    let floored = spec_floor_pass(
        player,
        floor_tex,
        ft.left_cos as int,
        ft.left_sin as int,
        fbw,
        fbh,
        cleared,
    );
    let walled = spec_wall_pass(map, player, ft.columns@, wall_tex, fbw, fbh, floored);
    let goaled = spec_goal_pass(map, player, ft.goal_rel as int, fbw, fbh, walled);
    spec_minimap_pass(map, player, fbw, fbh, goaled)
}

pub struct Renderer {
    pub framebuffer: Framebuffer,
    pub raycaster: Raycaster,
    pub wall_texture: Texture,
    pub floor_texture: Texture,
    pub sky_color: u32,
}

impl Renderer {
    /// Surface and both textures are well formed.
    pub open spec fn wf(self) -> bool {
        &&& self.framebuffer.wf()
        &&& self.wall_texture.wf()
        &&& self.floor_texture.wf()
    }

    /// A renderer drawing to a fresh surface of the given dimensions, with
    /// the two decoded textures it will sample for the rest of its life.
    pub fn new(width: usize, height: usize, wall_texture: Texture, floor_texture: Texture) -> (r:
        Renderer)
        requires
            width <= 16384,
            height <= 16384,
            wall_texture.wf(),
            floor_texture.wf(),
        ensures
            r.wf(),
            r.framebuffer.width == width,
            r.framebuffer.height == height,
            r.wall_texture == wall_texture,
            r.floor_texture == floor_texture,
            r.sky_color == SKY_COLOR,
    {
        Renderer {
            framebuffer: Framebuffer::new(width, height),
            raycaster: Raycaster::new(),
            wall_texture,
            floor_texture,
            sky_color: SKY_COLOR,
        }
    }

    /// Render one frame: clear the surface to the sky color, draw the floor,
    /// cast one ray per column and draw the wall strips, overlay the goal
    /// billboard, and overlay the minimap last. The resulting buffer is
    /// exactly the composition of the five per-pixel pass specifications.
    pub fn render_scene(&mut self, map: &GridMap, player: &Player, trig: &FrameTrig)
        requires
            old(self).wf(),
            map.wf(),
            player.wf(),
            trig.wf(old(self).framebuffer.width as int),
        ensures
            final(self).wf(),
            final(self).framebuffer.width == old(self).framebuffer.width,
            final(self).framebuffer.height == old(self).framebuffer.height,
            final(self).wall_texture == old(self).wall_texture,
            final(self).floor_texture == old(self).floor_texture,
            final(self).sky_color == old(self).sky_color,
            final(self).framebuffer.buffer@ == spec_render_scene(
                *map,
                *player,
                *trig,
                old(self).wall_texture,
                old(self).floor_texture,
                old(self).sky_color,
                old(self).framebuffer.width as int,
                old(self).framebuffer.height as int,
                old(self).framebuffer.buffer@,
            ),
    {
        let sky = self.sky_color;
        self.framebuffer.clear(sky);
        self.render_floor(player, trig.left_cos, trig.left_sin);
        self.raycaster.cast_rays(
            map,
            player,
            &mut self.framebuffer,
            &self.wall_texture,
            &trig.columns,
        );
        self.render_goal_3d(map, player, trig.goal_rel);
        self.render_minimap(map, player);
    }

    /// Draw the floor: for every pixel row strictly below the horizon row,
    /// derive the row's inverse-perspective distance, turn it into one
    /// texture step per column along the leftmost ray direction (given by
    /// its cosine and sine), and sample the floor texture across the row.
    pub fn render_floor(&mut self, player: &Player, left_cos: i64, left_sin: i64)
        requires
            old(self).wf(),
            player.wf(),
            -FP <= left_cos <= FP,
            -FP <= left_sin <= FP,
        ensures
            final(self).wf(),
            final(self).framebuffer.width == old(self).framebuffer.width,
            final(self).framebuffer.height == old(self).framebuffer.height,
            final(self).wall_texture == old(self).wall_texture,
            final(self).floor_texture == old(self).floor_texture,
            final(self).sky_color == old(self).sky_color,
            final(self).framebuffer.buffer@ == spec_floor_pass(
                *player,
                old(self).floor_texture,
                left_cos as int,
                left_sin as int,
                old(self).framebuffer.width as int,
                old(self).framebuffer.height as int,
                old(self).framebuffer.buffer@,
            ),
    {
        let w = self.framebuffer.width;
        let h = self.framebuffer.height;
        let ghost old_buf = self.framebuffer.buffer@;
        let center = h / 2;
        let mut y = center + 1;
        while y < h
            invariant
                self.wf(),
                player.wf(),
                -FP <= left_cos <= FP,
                -FP <= left_sin <= FP,
                self.framebuffer.width == w,
                self.framebuffer.height == h,
                self.wall_texture == old(self).wall_texture,
                self.floor_texture == old(self).floor_texture,
                self.sky_color == old(self).sky_color,
                w <= 16384,
                h <= 16384,
                center == h / 2,
                center + 1 <= y,
                y <= h || y == center + 1,
                self.framebuffer.buffer@.len() == old_buf.len(),
                old_buf.len() == w * h,
                forall|i: int|
                    0 <= i < old_buf.len() ==> self.framebuffer.buffer@[i] == (if center + 1 <= i
                        / (w as int) < y {
                        spec_floor_pixel(
                            *player,
                            self.floor_texture,
                            left_cos as int,
                            left_sin as int,
                            w as int,
                            h as int,
                            old_buf,
                            i,
                        )
                    } else {
                        old_buf[i]
                    }),
            decreases h - y,
        {
            let rd = (h as i64) * FP / (2 * ((y - center) as i64));
            proof {
                vstd::arithmetic::div_mod::lemma_div_pos_is_pos(
                    (h as int) * (FP as int),
                    2 * (y - center),
                );
                vstd::arithmetic::div_mod::lemma_div_is_ordered_by_denominator(
                    (h as int) * (FP as int),
                    2,
                    2 * (y - center),
                );
            }
            let sx = Self::floor_step(rd, left_cos);
            let sy = Self::floor_step(rd, left_sin);
            let mut fx = player.x + sx;
            let mut fy = player.y + sy;
            let mut x: usize = 0;
            while x < w
                invariant
                    self.wf(),
                    player.wf(),
                    -FP <= left_cos <= FP,
                    -FP <= left_sin <= FP,
                    self.framebuffer.width == w,
                    self.framebuffer.height == h,
                    self.wall_texture == old(self).wall_texture,
                    self.floor_texture == old(self).floor_texture,
                    self.sky_color == old(self).sky_color,
                    w <= 16384,
                    h <= 16384,
                    center == h / 2,
                    center + 1 <= y < h,
                    x <= w,
                    0 <= rd <= 10_000_000_000,
                    rd == spec_row_distance(h as int, y as int, center as int),
                    sx == spec_floor_step(rd as int, left_cos as int),
                    sy == spec_floor_step(rd as int, left_sin as int),
                    -rd <= sx <= rd,
                    -rd <= sy <= rd,
                    fx == player.x + (x + 1) * sx,
                    fy == player.y + (x + 1) * sy,
                    self.framebuffer.buffer@.len() == old_buf.len(),
                    old_buf.len() == w * h,
                    forall|i: int|
                        0 <= i < old_buf.len() ==> self.framebuffer.buffer@[i] == (if (center + 1
                            <= i / (w as int) < y) || (i / (w as int) == y && i % (w as int)
                            < x) {
                            spec_floor_pixel(
                                *player,
                                self.floor_texture,
                                left_cos as int,
                                left_sin as int,
                                w as int,
                                h as int,
                                old_buf,
                                i,
                            )
                        } else {
                            old_buf[i]
                        }),
                decreases w - x,
            {
                proof {
                    let xi = x as int;
                    let sxi = sx as int;
                    let syi = sy as int;
                    assert((xi + 2) * sxi == (xi + 1) * sxi + sxi) by (nonlinear_arith);
                    assert((xi + 2) * syi == (xi + 1) * syi + syi) by (nonlinear_arith);
                    assert(-200000000000000 <= (xi + 2) * sxi <= 200000000000000) by (
                    nonlinear_arith)
                        requires
                            0 <= xi <= 16384,
                            -10_000_000_000 <= sxi <= 10_000_000_000,
                    ;
                    assert(-200000000000000 <= (xi + 2) * syi <= 200000000000000) by (
                    nonlinear_arith)
                        requires
                            0 <= xi <= 16384,
                            -10_000_000_000 <= syi <= 10_000_000_000,
                    ;
                }
                let color = self.floor_texture.sample_world(fx, fy);
                self.framebuffer.point(x, y, color);
                proof {
                    let wi = w as int;
                    let idx = (y as int) * wi + x;
                    vstd::arithmetic::div_mod::lemma_fundamental_div_mod_converse(
                        idx,
                        wi,
                        y as int,
                        x as int,
                    );
                    assert((y as int) * wi + x < (h as int) * wi) by (nonlinear_arith)
                        requires
                            0 <= y < h,
                            0 <= x < wi,
                    ;
                    assert(idx < old_buf.len());
                    assert forall|i: int| 0 <= i < old_buf.len() implies self.framebuffer.buffer@[i]
                        == (if (center + 1 <= i / wi < y) || (i / wi == y && i % wi < x + 1) {
                        spec_floor_pixel(
                            *player,
                            self.floor_texture,
                            left_cos as int,
                            left_sin as int,
                            wi,
                            h as int,
                            old_buf,
                            i,
                        )
                    } else {
                        old_buf[i]
                    }) by {
                        vstd::arithmetic::div_mod::lemma_fundamental_div_mod(i, wi);
                        vstd::arithmetic::div_mod::lemma_mod_division_less_than_divisor(i, wi);
                        if i % wi == x && i / wi == y {
                            assert(i == idx);
                            assert(self.framebuffer.buffer@[i] == color);
                        }
                    }
                }
                fx = fx + sx;
                fy = fy + sy;
                x = x + 1;
            }
            y = y + 1;
        }
        proof {
            let wi = w as int;
            if h > 0 {
                vstd::arithmetic::div_mod::lemma_div_decreases(h as int, 2);
            }
            assert forall|i: int| 0 <= i < old_buf.len() implies 0 <= #[trigger] (i / wi) < h by {
                vstd::arithmetic::div_mod::lemma_fundamental_div_mod(i, wi);
                vstd::arithmetic::div_mod::lemma_mod_division_less_than_divisor(i, wi);
                vstd::arithmetic::div_mod::lemma_div_pos_is_pos(i, wi);
                if i / wi >= h {
                    assert((h as int) * wi <= (i / wi) * wi <= i) by (nonlinear_arith)
                        requires
                            h as int <= i / wi,
                            wi > 0,
                            i >= 0,
                            i % wi >= 0,
                            i == (i / wi) * wi + i % wi,
                    ;
                }
            }
            assert(self.framebuffer.buffer@ =~= spec_floor_pass(
                *player,
                old(self).floor_texture,
                left_cos as int,
                left_sin as int,
                w as int,
                h as int,
                old_buf,
            ));
        }
    }

    /// Overlay the goal billboard: from the goal's distance and its bearing
    /// relative to the viewer's facing (`rel_angle`, fixed-point radians),
    /// project the goal to a screen column and draw a square sized by inverse
    /// distance, clipped to the surface. The square overwrites wall pixels by
    /// design: the goal is a through-wall waypoint beacon.
    pub fn render_goal_3d(&mut self, map: &GridMap, player: &Player, rel_angle: i64)
        requires
            old(self).wf(),
            map.wf(),
            player.wf(),
            -10 * FP <= rel_angle <= 10 * FP,
        ensures
            final(self).wf(),
            final(self).framebuffer.width == old(self).framebuffer.width,
            final(self).framebuffer.height == old(self).framebuffer.height,
            final(self).wall_texture == old(self).wall_texture,
            final(self).floor_texture == old(self).floor_texture,
            final(self).sky_color == old(self).sky_color,
            final(self).framebuffer.buffer@ == spec_goal_pass(
                *map,
                *player,
                rel_angle as int,
                old(self).framebuffer.width as int,
                old(self).framebuffer.height as int,
                old(self).framebuffer.buffer@,
            ),
    {
        let w = self.framebuffer.width;
        let h = self.framebuffer.height;
        let ghost old_buf = self.framebuffer.buffer@;
        let ghost gpix = |i: int|
            spec_goal_pixel(
                *map,
                *player,
                rel_angle as int,
                w as int,
                h as int,
                old_buf,
                i,
            );

        let dx = map.end_x - player.x;
        let dy = map.end_y - player.y;
        proof {
            assert(0 <= dx * dx <= 4000000000000000000 && 0 <= dy * dy <= 4000000000000000000)
                by (nonlinear_arith)
                requires
                    -2000000000 <= dx <= 2000000000,
                    -2000000000 <= dy <= 2000000000,
            ;
        }
        let dist = crate::fixed::isqrt(dx * dx + dy * dy);

        if dist < FP / 10 {
            proof {
                assert(self.framebuffer.buffer@ =~= spec_goal_pass(
                    *map,
                    *player,
                    rel_angle as int,
                    w as int,
                    h as int,
                    old_buf,
                ));
            }
            return ;
        }
        let neg_half_fov = -(player.fov / 2);
        if rel_angle > neg_half_fov && rel_angle < player.fov / 2 {
            let frac = div_trunc(rel_angle * FP, player.fov);
            proof {
                assert(-10000000000000 <= rel_angle * FP <= 10000000000000) by (nonlinear_arith)
                    requires
                        -10 * FP <= rel_angle <= 10 * FP,
                ;
                assert(-327680000000000000 <= (w as int) * ((FP as int) + frac)
                    <= 327680000000000000) by (nonlinear_arith)
                    requires
                        0 <= w <= 16384,
                        -10000000000000 <= frac <= 10000000000000,
                ;
            }
            let num = (w as i64) * (FP + frac);
            let screen_x = div_trunc(num, 2 * FP);
            if screen_x >= 0 && screen_x < w as i64 {
                let gh_wide = (h as i64) * FP / dist;
                proof {
                    vstd::arithmetic::div_mod::lemma_div_pos_is_pos((h as int) * (FP as int),
                        dist as int);
                    vstd::arithmetic::div_mod::lemma_div_is_ordered_by_denominator(
                        (h as int) * (FP as int),
                        FP as int / 10,
                        dist as int,
                    );
                    vstd::arithmetic::div_mod::lemma_div_is_ordered(
                        (h as int) * (FP as int),
                        16384 * (FP as int),
                        FP as int / 10,
                    );
                }
                let gh = gh_wide as usize;
                let sy0 = if h / 2 >= gh / 2 {
                    h / 2 - gh / 2
                } else {
                    0
                };
                let ey = sy0 + gh;
                let sxu = screen_x as usize;
                let sx0 = if sxu >= gh / 2 {
                    sxu - gh / 2
                } else {
                    0
                };
                let ex = sxu + gh / 2;
                let mut y = sy0;
                while y < ey
                    invariant
                        self.wf(),
                        self.framebuffer.width == w,
                        self.framebuffer.height == h,
                        self.wall_texture == old(self).wall_texture,
                        self.floor_texture == old(self).floor_texture,
                        self.sky_color == old(self).sky_color,
                        w <= 16384,
                        h <= 16384,
                        sy0 <= y <= ey,
                        ex <= 120000,
                        spec_goal_visible(*map, *player, rel_angle as int, w as int),
                        sy0 == crate::raycaster::spec_strip_start(h as int, gh as int),
                        ey == sy0 + gh,
                        sx0 == ({
                            let sx = spec_goal_screen_x(
                                w as int,
                                rel_angle as int,
                                player.fov as int,
                            );
                            if sx >= gh as int / 2 {
                                sx - gh as int / 2
                            } else {
                                0int
                            }
                        }),
                        ex == spec_goal_screen_x(w as int, rel_angle as int, player.fov as int)
                            + gh as int / 2,
                        gh == crate::raycaster::spec_wall_height(
                            h as int,
                            spec_goal_dist(*map, *player),
                        ),
                        self.framebuffer.buffer@.len() == old_buf.len(),
                        old_buf.len() == w * h,
                        forall|i: int|
                            0 <= i < old_buf.len() ==> self.framebuffer.buffer@[i] == (if sy0 <= i
                                / (w as int) < y && sx0 <= i % (w as int) < ex {
                                GOAL_COLOR
                            } else {
                                old_buf[i]
                            }),
                    decreases ey - y,
                {
                    let mut x = sx0;
                    while x < ex
                        invariant
                            self.wf(),
                            self.framebuffer.width == w,
                            self.framebuffer.height == h,
                            self.wall_texture == old(self).wall_texture,
                            self.floor_texture == old(self).floor_texture,
                            self.sky_color == old(self).sky_color,
                            w <= 16384,
                            h <= 16384,
                            sy0 <= y < ey,
                            sx0 <= x <= ex,
                            ex <= 120000,
                            self.framebuffer.buffer@.len() == old_buf.len(),
                            old_buf.len() == w * h,
                            forall|i: int|
                                0 <= i < old_buf.len() ==> self.framebuffer.buffer@[i] == (if (sy0
                                    <= i / (w as int) < y && sx0 <= i % (w as int) < ex) || (i / (
                                w as int) == y && sx0 <= i % (w as int) < x) {
                                    GOAL_COLOR
                                } else {
                                    old_buf[i]
                                }),
                        decreases ex - x,
                    {
                        if x < w && y < h {
                            self.framebuffer.point(x, y, GOAL_COLOR);
                            proof {
                                let wi = w as int;
                                let idx = (y as int) * wi + x;
                                vstd::arithmetic::div_mod::lemma_fundamental_div_mod_converse(
                                    idx,
                                    wi,
                                    y as int,
                                    x as int,
                                );
                                assert((y as int) * wi + x < (h as int) * wi) by (nonlinear_arith)
                                    requires
                                        0 <= y < h,
                                        0 <= x < wi,
                                ;
                                assert(idx < old_buf.len());
                                assert forall|i: int|
                                    0 <= i < old_buf.len() implies self.framebuffer.buffer@[i] == (
                                if (sy0 <= i / wi < y && sx0 <= i % wi < ex) || (i / wi == y && sx0
                                    <= i % wi < x + 1) {
                                    GOAL_COLOR
                                } else {
                                    old_buf[i]
                                }) by {
                                    vstd::arithmetic::div_mod::lemma_fundamental_div_mod(i, wi);
                                    vstd::arithmetic::div_mod::lemma_mod_division_less_than_divisor(
                                        i,
                                        wi,
                                    );
                                }
                            }
                        } else {
                            proof {
                                let wi = w as int;
                                assert forall|i: int|
                                    0 <= i < old_buf.len() implies self.framebuffer.buffer@[i] == (
                                if (sy0 <= i / wi < y && sx0 <= i % wi < ex) || (i / wi == y && sx0
                                    <= i % wi < x + 1) {
                                    GOAL_COLOR
                                } else {
                                    old_buf[i]
                                }) by {
                                    vstd::arithmetic::div_mod::lemma_fundamental_div_mod(i, wi);
                                    vstd::arithmetic::div_mod::lemma_mod_division_less_than_divisor(
                                        i,
                                        wi,
                                    );
                                    if i % wi == x && i / wi == y {
                                        assert((h as int) * wi <= (i / wi) * wi <= i) by (
                                        nonlinear_arith)
                                            requires
                                                h as int <= i / wi,
                                                wi > 0,
                                                i >= 0,
                                                i % wi >= 0,
                                                i == (i / wi) * wi + i % wi,
                                        ;
                                    }
                                }
                            }
                        }
                        x = x + 1;
                    }
                    y = y + 1;
                }
                proof {
                    let wi = w as int;
                    assert forall|i: int| 0 <= i < old_buf.len() implies self.framebuffer.buffer@[i]
                        == gpix(i) by {
                        vstd::arithmetic::div_mod::lemma_fundamental_div_mod(i, wi);
                        vstd::arithmetic::div_mod::lemma_mod_division_less_than_divisor(i, wi);
                    }
                    assert(self.framebuffer.buffer@ =~= spec_goal_pass(
                        *map,
                        *player,
                        rel_angle as int,
                        w as int,
                        h as int,
                        old_buf,
                    ));
                }
                return ;
            }
        }
        proof {
            assert(self.framebuffer.buffer@ =~= spec_goal_pass(
                *map,
                *player,
                rel_angle as int,
                w as int,
                h as int,
                old_buf,
            ));
        }
    }

    /// Overlay the minimap: every map cell as a filled square of side
    /// `MINIMAP_SCALE` anchored at the surface's top-left corner (light for
    /// walls, dark for floor), then the player marker square at the viewer's
    /// scaled position. This pass runs last and overwrites whatever the 3D
    /// passes left in that corner.
    pub fn render_minimap(&mut self, map: &GridMap, player: &Player)
        requires
            old(self).wf(),
            map.wf(),
            player.wf(),
        ensures
            final(self).wf(),
            final(self).framebuffer.width == old(self).framebuffer.width,
            final(self).framebuffer.height == old(self).framebuffer.height,
            final(self).wall_texture == old(self).wall_texture,
            final(self).floor_texture == old(self).floor_texture,
            final(self).sky_color == old(self).sky_color,
            final(self).framebuffer.buffer@ == spec_minimap_pass(
                *map,
                *player,
                old(self).framebuffer.width as int,
                old(self).framebuffer.height as int,
                old(self).framebuffer.buffer@,
            ),
    {
        let w = self.framebuffer.width;
        let h = self.framebuffer.height;
        let ghost old_buf = self.framebuffer.buffer@;
        let mw = map.width * MINIMAP_SCALE;
        let mh = map.height * MINIMAP_SCALE;

        // The scaled map cells.
        let mut sy: usize = 0;
        while sy < mh
            invariant
                self.wf(),
                map.wf(),
                player.wf(),
                self.framebuffer.width == w,
                self.framebuffer.height == h,
                self.wall_texture == old(self).wall_texture,
                self.floor_texture == old(self).floor_texture,
                self.sky_color == old(self).sky_color,
                w <= 16384,
                h <= 16384,
                mw == map.width * MINIMAP_SCALE,
                mh == map.height * MINIMAP_SCALE,
                mw <= 4000,
                mh <= 4000,
                sy <= mh,
                self.framebuffer.buffer@.len() == old_buf.len(),
                old_buf.len() == w * h,
                forall|i: int|
                    0 <= i < old_buf.len() ==> self.framebuffer.buffer@[i] == (if i / (w as int)
                        < sy && i % (w as int) < mw {
                        spec_minimap_cell_color(
                            *map,
                            (i % (w as int)) / (MINIMAP_SCALE as int),
                            (i / (w as int)) / (MINIMAP_SCALE as int),
                        )
                    } else {
                        old_buf[i]
                    }),
            decreases mh - sy,
        {
            let mut sx: usize = 0;
            while sx < mw
                invariant
                    self.wf(),
                    map.wf(),
                    player.wf(),
                    self.framebuffer.width == w,
                    self.framebuffer.height == h,
                    self.wall_texture == old(self).wall_texture,
                    self.floor_texture == old(self).floor_texture,
                    self.sky_color == old(self).sky_color,
                    w <= 16384,
                    h <= 16384,
                    mw == map.width * MINIMAP_SCALE,
                    mh == map.height * MINIMAP_SCALE,
                    mw <= 4000,
                    mh <= 4000,
                    sy < mh,
                    sx <= mw,
                    self.framebuffer.buffer@.len() == old_buf.len(),
                    old_buf.len() == w * h,
                    forall|i: int|
                        0 <= i < old_buf.len() ==> self.framebuffer.buffer@[i] == (if (i / (
                        w as int) < sy && i % (w as int) < mw) || (i / (w as int) == sy && i % (
                        w as int) < sx) {
                            spec_minimap_cell_color(
                                *map,
                                (i % (w as int)) / (MINIMAP_SCALE as int),
                                (i / (w as int)) / (MINIMAP_SCALE as int),
                            )
                        } else {
                            old_buf[i]
                        }),
                decreases mw - sx,
            {
                let color = if map.is_wall(
                    ((sx / MINIMAP_SCALE) as i64) * FP,
                    ((sy / MINIMAP_SCALE) as i64) * FP,
                ) {
                    MINIMAP_WALL_COLOR
                } else {
                    MINIMAP_FLOOR_COLOR
                };
                self.framebuffer.point(sx, sy, color);
                proof {
                    let wi = w as int;
                    if sy < h {
                        let idx = (sy as int) * wi + sx;
                        if sx < w {
                            vstd::arithmetic::div_mod::lemma_fundamental_div_mod_converse(
                                idx,
                                wi,
                                sy as int,
                                sx as int,
                            );
                            assert((sy as int) * wi + sx < (h as int) * wi) by (nonlinear_arith)
                                requires
                                    0 <= sy < h,
                                    0 <= sx < wi,
                            ;
                            assert(idx < old_buf.len());
                        }
                    }
                    assert forall|i: int|
                        0 <= i < old_buf.len() implies self.framebuffer.buffer@[i] == (if (i / wi
                        < sy && i % wi < mw) || (i / wi == sy && i % wi < sx + 1) {
                        spec_minimap_cell_color(
                            *map,
                            (i % wi) / (MINIMAP_SCALE as int),
                            (i / wi) / (MINIMAP_SCALE as int),
                        )
                    } else {
                        old_buf[i]
                    }) by {
                        vstd::arithmetic::div_mod::lemma_fundamental_div_mod(i, wi);
                        vstd::arithmetic::div_mod::lemma_mod_division_less_than_divisor(i, wi);
                        if i % wi == sx && i / wi == sy {
                            if sy < h {
                                assert(i == (sy as int) * wi + sx);
                            } else {
                                assert((h as int) * wi <= (i / wi) * wi <= i) by (nonlinear_arith)
                                    requires
                                        h as int <= i / wi,
                                        wi > 0,
                                        i >= 0,
                                        i % wi >= 0,
                                        i == (i / wi) * wi + i % wi,
                                ;
                            }
                        }
                    }
                }
                sx = sx + 1;
            }
            sy = sy + 1;
        }

        // The player marker.
        let ghost cells_buf = self.framebuffer.buffer@;
        let mpx = ((player.x * (MINIMAP_SCALE as i64)) / FP) as usize;
        let mpy = ((player.y * (MINIMAP_SCALE as i64)) / FP) as usize;
        let mut py: usize = 0;
        while py < MINIMAP_SCALE
            invariant
                self.wf(),
                map.wf(),
                player.wf(),
                self.framebuffer.width == w,
                self.framebuffer.height == h,
                self.wall_texture == old(self).wall_texture,
                self.floor_texture == old(self).floor_texture,
                self.sky_color == old(self).sky_color,
                w <= 16384,
                h <= 16384,
                py <= MINIMAP_SCALE,
                mpx == spec_marker_x(*player),
                mpy == spec_marker_y(*player),
                mpx <= 4000,
                mpy <= 4000,
                self.framebuffer.buffer@.len() == old_buf.len(),
                cells_buf.len() == old_buf.len(),
                old_buf.len() == w * h,
                forall|i: int|
                    0 <= i < old_buf.len() ==> self.framebuffer.buffer@[i] == (if mpx <= i % (
                    w as int) < mpx + MINIMAP_SCALE && mpy <= i / (w as int) < mpy + py {
                        MINIMAP_PLAYER_COLOR
                    } else {
                        cells_buf[i]
                    }),
            decreases MINIMAP_SCALE - py,
        {
            let mut px: usize = 0;
            while px < MINIMAP_SCALE
                invariant
                    self.wf(),
                    self.framebuffer.width == w,
                    self.framebuffer.height == h,
                    self.wall_texture == old(self).wall_texture,
                    self.floor_texture == old(self).floor_texture,
                    self.sky_color == old(self).sky_color,
                    w <= 16384,
                    h <= 16384,
                    py < MINIMAP_SCALE,
                    px <= MINIMAP_SCALE,
                    mpx <= 4000,
                    mpy <= 4000,
                    self.framebuffer.buffer@.len() == old_buf.len(),
                    cells_buf.len() == old_buf.len(),
                    old_buf.len() == w * h,
                    forall|i: int|
                        0 <= i < old_buf.len() ==> self.framebuffer.buffer@[i] == (if (mpx <= i % (
                        w as int) < mpx + MINIMAP_SCALE && mpy <= i / (w as int) < mpy + py) || (i
                            / (w as int) == mpy + py && mpx <= i % (w as int) < mpx + px) {
                            MINIMAP_PLAYER_COLOR
                        } else {
                            cells_buf[i]
                        }),
                decreases MINIMAP_SCALE - px,
            {
                let tx = mpx + px;
                let ty = mpy + py;
                self.framebuffer.point(tx, ty, MINIMAP_PLAYER_COLOR);
                proof {
                    let wi = w as int;
                    if ty < h && tx < w {
                        let idx = (ty as int) * wi + tx;
                        vstd::arithmetic::div_mod::lemma_fundamental_div_mod_converse(
                            idx,
                            wi,
                            ty as int,
                            tx as int,
                        );
                        assert((ty as int) * wi + tx < (h as int) * wi) by (nonlinear_arith)
                            requires
                                0 <= ty < h,
                                0 <= tx < wi,
                        ;
                        assert(idx < old_buf.len());
                    }
                    assert forall|i: int|
                        0 <= i < old_buf.len() implies self.framebuffer.buffer@[i] == (if (mpx <= i
                        % wi < mpx + MINIMAP_SCALE && mpy <= i / wi < mpy + py) || (i / wi == mpy
                        + py && mpx <= i % wi < mpx + px + 1) {
                        MINIMAP_PLAYER_COLOR
                    } else {
                        cells_buf[i]
                    }) by {
                        vstd::arithmetic::div_mod::lemma_fundamental_div_mod(i, wi);
                        vstd::arithmetic::div_mod::lemma_mod_division_less_than_divisor(i, wi);
                        if i % wi == tx && i / wi == ty {
                            if ty < h {
                                assert(i == (ty as int) * wi + tx);
                            } else {
                                assert((h as int) * wi <= (i / wi) * wi <= i) by (nonlinear_arith)
                                    requires
                                        h as int <= i / wi,
                                        wi > 0,
                                        i >= 0,
                                        i % wi >= 0,
                                        i == (i / wi) * wi + i % wi,
                                ;
                            }
                        }
                    }
                }
                px = px + 1;
            }
            py = py + 1;
        }

        proof {
            let wi = w as int;
            assert forall|i: int| 0 <= i < old_buf.len() implies self.framebuffer.buffer@[i]
                == spec_minimap_pixel(*map, *player, wi, h as int, old_buf, i) by {
                vstd::arithmetic::div_mod::lemma_fundamental_div_mod(i, wi);
                vstd::arithmetic::div_mod::lemma_mod_division_less_than_divisor(i, wi);
                let x = i % wi;
                let y = i / wi;
                if !(spec_marker_x(*player) <= x < spec_marker_x(*player) + MINIMAP_SCALE
                    && spec_marker_y(*player) <= y < spec_marker_y(*player) + MINIMAP_SCALE) {
                    if x < map.width * MINIMAP_SCALE && y < map.height * MINIMAP_SCALE {
                        assert(x / (MINIMAP_SCALE as int) < map.width) by (nonlinear_arith)
                            requires
                                0 <= x,
                                x < map.width * MINIMAP_SCALE,
                                MINIMAP_SCALE == 4,
                        ;
                        assert(y / (MINIMAP_SCALE as int) < map.height) by (nonlinear_arith)
                            requires
                                0 <= y,
                                y < map.height * MINIMAP_SCALE,
                                MINIMAP_SCALE == 4,
                        ;
                    }
                }
            }
            assert(self.framebuffer.buffer@ =~= spec_minimap_pass(
                *map,
                *player,
                w as int,
                h as int,
                old_buf,
            ));
        }
    }

    /// One floor texture step: the row distance scaled by a direction
    /// component, never larger in magnitude than the distance itself.
    fn floor_step(rd: i64, trig: i64) -> (s: i64)
        requires
            0 <= rd <= 10_000_000_000,
            -FP <= trig <= FP,
        ensures
            s == spec_floor_step(rd as int, trig as int),
            -rd <= s <= rd,
    {
        proof {
            assert(-(rd as int) * (FP as int) <= rd * trig <= (rd as int) * (FP as int) && rd * (
            FP as int) <= 10_000_000_000_000_000) by (nonlinear_arith)
                requires
                    0 <= rd <= 10_000_000_000,
                    -FP <= trig <= FP,
            ;
        }
        let prod = rd * trig;
        let s = div_trunc(prod, FP);
        proof {
            vstd::arithmetic::div_mod::lemma_div_by_multiple(rd as int, FP as int);
            if prod >= 0 {
                vstd::arithmetic::div_mod::lemma_div_is_ordered(
                    prod as int,
                    rd * (FP as int),
                    FP as int,
                );
            } else {
                vstd::arithmetic::div_mod::lemma_div_is_ordered(
                    -prod as int,
                    rd * (FP as int),
                    FP as int,
                );
            }
        }
        s
    }
}

} // verus!
