//! The viewer: position, facing angle and field of view, all fixed-point.
//! Movement is collision-checked against the map per axis, so a viewer that
//! starts outside a wall never ends up inside one. The cosine and sine of the
//! facing angle are taken as fixed-point arguments, since the library keeps
//! all arithmetic in integers.
use vstd::prelude::*;

use crate::fixed::{div_trunc, trunc_div, FP};
use crate::map::GridMap;

verus! {

/// Field of view: 60 degrees, in fixed-point radians.
pub const FOV: i64 = 1_047_198;

/// Coordinates are kept within this many world units of the origin, and
/// angles within this many radians, so that products with `FP`-scaled factors
/// stay far from overflow.
pub const MAX_WORLD: i64 = 1000;

pub struct Player {
    pub x: i64,
    pub y: i64,
    pub direction: i64,
    pub fov: i64,
}

impl Player {
    /// Position and facing bounded as `MAX_WORLD` asks, field of view
    /// positive but well under a half turn.
    pub open spec fn wf(self) -> bool {
        &&& 0 <= self.x <= MAX_WORLD * FP
        &&& 0 <= self.y <= MAX_WORLD * FP
        &&& -MAX_WORLD * FP <= self.direction <= MAX_WORLD * FP
        &&& 0 < self.fov <= 3 * FP
    }

    /// A viewer at `(x, y)` facing `direction`, with the fixed 60-degree
    /// field of view.
    pub fn new(x: i64, y: i64, direction: i64) -> (p: Player)
        requires
            0 <= x <= MAX_WORLD * FP,
            0 <= y <= MAX_WORLD * FP,
            -MAX_WORLD * FP <= direction <= MAX_WORLD * FP,
        ensures
            p.wf(),
            p.x == x && p.y == y && p.direction == direction && p.fov == FOV,
    {
        Player { x, y, direction, fov: FOV }
    }

    /// The displacement of one movement step: direction component times
    /// distance at half speed, rounded toward zero.
    pub open spec fn spec_step(trig: int, distance: int) -> int {
        trunc_div(trig * distance, 2 * FP as int)
    }

    /// Compute one movement step component and bound it by half a world unit.
    fn scaled_step(trig: i64, distance: i64) -> (s: i64)
        requires
            -FP <= trig <= FP,
            0 <= distance <= FP,
        ensures
            s == Self::spec_step(trig as int, distance as int),
            -FP / 2 <= s <= FP / 2,
    {
        proof {
            assert(-(FP as int) * FP <= trig * distance <= (FP as int) * FP) by (nonlinear_arith)
                requires
                    -FP <= trig <= FP,
                    0 <= distance <= FP,
            ;
        }
        let prod = trig * distance;
        let s = div_trunc(prod, 2 * FP);
        proof {
            if prod >= 0 {
                vstd::arithmetic::div_mod::lemma_div_is_ordered(
                    prod as int,
                    (FP as int) * FP,
                    2 * FP as int,
                );
                assert((FP as int) * FP / (2 * FP as int) == FP as int / 2);
            } else {
                vstd::arithmetic::div_mod::lemma_div_is_ordered(
                    -prod as int,
                    (FP as int) * FP,
                    2 * FP as int,
                );
                assert((FP as int) * FP / (2 * FP as int) == FP as int / 2);
            }
        }
        s
    }

    /// Where a movement lands: each axis moves only if both the new position
    /// and a probe half a world unit further are free of walls; the x axis
    /// moves first and the y check runs at the updated x.
    pub open spec fn spec_moved(self, map: GridMap, step_x: int, step_y: int) -> Player {
        let nx = self.x + step_x;
        let ny = self.y + step_y;
        let x1 = if !map.spec_is_wall(nx, self.y as int) && !map.spec_is_wall(
            nx + FP as int / 2,
            self.y as int,
        ) {
            nx
        } else {
            self.x as int
        };
        let y1 = if !map.spec_is_wall(x1, ny) && !map.spec_is_wall(x1, ny + FP as int / 2) {
            ny
        } else {
            self.y as int
        };
        Player { x: x1 as i64, y: y1 as i64, direction: self.direction, fov: self.fov }
    }

    /// Move `distance` forward along the facing direction, at half speed,
    /// sliding along walls: each axis is checked against the map on its own.
    /// `dir_cos` and `dir_sin` are the fixed-point cosine and sine of the
    /// facing angle.
    pub fn move_forward(&mut self, distance: i64, dir_cos: i64, dir_sin: i64, map: &GridMap)
        requires
            old(self).wf(),
            map.wf(),
            -FP <= dir_cos <= FP,
            -FP <= dir_sin <= FP,
            0 <= distance <= FP,
        ensures
            final(self).wf(),
            *final(self) == old(self).spec_moved(
                *map,
                Self::spec_step(dir_cos as int, distance as int),
                Self::spec_step(dir_sin as int, distance as int),
            ),
            !map.spec_is_wall(old(self).x as int, old(self).y as int) ==> !map.spec_is_wall(
                final(self).x as int,
                final(self).y as int,
            ),
    {
        let step_x = Self::scaled_step(dir_cos, distance);
        let step_y = Self::scaled_step(dir_sin, distance);
        self.advance(step_x, step_y, map);
    }

    /// Move `distance` backward, against the facing direction, with the same
    /// collision rules as `move_forward`.
    pub fn move_backward(&mut self, distance: i64, dir_cos: i64, dir_sin: i64, map: &GridMap)
        requires
            old(self).wf(),
            map.wf(),
            -FP <= dir_cos <= FP,
            -FP <= dir_sin <= FP,
            0 <= distance <= FP,
        ensures
            final(self).wf(),
            *final(self) == old(self).spec_moved(
                *map,
                -Self::spec_step(dir_cos as int, distance as int),
                -Self::spec_step(dir_sin as int, distance as int),
            ),
            !map.spec_is_wall(old(self).x as int, old(self).y as int) ==> !map.spec_is_wall(
                final(self).x as int,
                final(self).y as int,
            ),
    {
        let step_x = Self::scaled_step(dir_cos, distance);
        let step_y = Self::scaled_step(dir_sin, distance);
        self.advance(-step_x, -step_y, map);
    }

    /// Shared movement core: try the x axis, then the y axis at the updated
    /// x, each gated by the wall checks of `spec_moved`.
    fn advance(&mut self, step_x: i64, step_y: i64, map: &GridMap)
        requires
            old(self).wf(),
            map.wf(),
            -FP <= step_x <= FP,
            -FP <= step_y <= FP,
        ensures
            final(self).wf(),
            *final(self) == old(self).spec_moved(*map, step_x as int, step_y as int),
            !map.spec_is_wall(old(self).x as int, old(self).y as int) ==> !map.spec_is_wall(
                final(self).x as int,
                final(self).y as int,
            ),
    {
        let new_x = self.x + step_x;
        let new_y = self.y + step_y;

        if !map.is_wall(new_x, self.y) && !map.is_wall(new_x + FP / 2, self.y) {
            proof {
                crate::map::lemma_open_position_inside(*map, new_x as int, self.y as int);
            }
            self.x = new_x;
        }
        if !map.is_wall(self.x, new_y) && !map.is_wall(self.x, new_y + FP / 2) {
            proof {
                crate::map::lemma_open_position_inside(*map, self.x as int, new_y as int);
            }
            self.y = new_y;
        }
    }

    /// Turn left by `angle` fixed-point radians.
    pub fn turn_left(&mut self, angle: i64)
        requires
            old(self).wf(),
            0 <= angle <= FP,
            -MAX_WORLD * FP <= old(self).direction - angle,
        ensures
            final(self).wf(),
            final(self).direction == old(self).direction - angle,
            final(self).x == old(self).x && final(self).y == old(self).y && final(self).fov == old(
                self,
            ).fov,
    {
        self.direction = self.direction - angle;
    }

    /// Turn right by `angle` fixed-point radians.
    pub fn turn_right(&mut self, angle: i64)
        requires
            old(self).wf(),
            0 <= angle <= FP,
            old(self).direction + angle <= MAX_WORLD * FP,
        ensures
            final(self).wf(),
            final(self).direction == old(self).direction + angle,
            final(self).x == old(self).x && final(self).y == old(self).y && final(self).fov == old(
                self,
            ).fov,
    {
        self.direction = self.direction + angle;
    }

    /// Per-frame update hook; the viewer has no time-dependent state of its
    /// own, so this changes nothing.
    pub fn update(&mut self, map: &GridMap, delta_time: i64)
        ensures
            *final(self) == *old(self),
    {
        let _ = delta_time;
        let _ = map;
    }
}

} // verus!
