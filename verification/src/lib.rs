//! A first-person maze renderer: a tile-grid map, a fixed-step ray caster,
//! and a software rendering pipeline (floor, walls, goal marker, minimap)
//! drawing into a packed-RGB pixel buffer.
//!
//! World coordinates and angles are fixed-point numbers: `fixed::FP` units
//! stand for one world unit (one tile width) or one radian. Trigonometric
//! values (cosine and sine of ray angles) are taken as fixed-point inputs,
//! so every geometric and pixel-level computation here is exact integer
//! arithmetic with a proved contract.

pub mod fixed;
pub mod framebuffer;
pub mod game;
pub mod map;
pub mod player;
pub mod raycaster;
pub mod renderer;
pub mod texture;
