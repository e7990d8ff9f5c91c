use raycaster::fixed::FP;
use raycaster::framebuffer::Framebuffer;
use raycaster::map::GridMap;
use raycaster::player::Player;
use raycaster::raycaster::{camera_x, ray_direction, step_size, ColumnTrig, Raycaster};
use raycaster::texture::Texture;

fn solid_texture(color: (u8, u8, u8)) -> Texture {
    let bytes: Vec<u8> = vec![color.0, color.1, color.2, 255];
    Texture::from_rgba(1, 1, &bytes).unwrap()
}

fn packed(color: (u8, u8, u8)) -> u32 {
    ((color.0 as u32) << 16) | ((color.1 as u32) << 8) | (color.2 as u32)
}

#[test]
fn step_size_bands() {
    assert_eq!(step_size(0), 10_000);
    assert_eq!(step_size(4_999_999), 10_000);
    assert_eq!(step_size(5_000_000), 50_000);
    assert_eq!(step_size(50_000_000), 50_000);
    assert_eq!(step_size(50_000_001), 100_000);
}

#[test]
fn camera_x_sweeps_minus_one_to_one() {
    assert_eq!(camera_x(0, 640), -FP);
    assert_eq!(camera_x(320, 640), 0);
    assert_eq!(camera_x(480, 640), FP / 2);
    assert_eq!(camera_x(639, 640), 996_875);
}

#[test]
fn ray_direction_is_linear_fov_sweep() {
    let fov = 1_047_198;
    assert_eq!(ray_direction(0, fov, 0), 0);
    assert_eq!(ray_direction(0, fov, FP), fov / 2);
    assert_eq!(ray_direction(0, fov, -FP), -(fov / 2));
    assert_eq!(ray_direction(200_000, fov, 0), 200_000);
}

#[test]
fn ray_from_open_cell_hits_wall_within_cap() {
    let m = GridMap::new_level_1();
    let p = Player::new(FP + FP / 2, FP + FP / 2, 0);
    let rc = Raycaster::new();
    // Straight along +x from (1.5, 1.5): the first wall cell on that row is
    // at x = 4, so the march travels exactly 2.5 world units in 0.01 steps.
    let (dist, side, hx, hy) = rc.cast_ray(&m, &p, FP, 0);
    assert_eq!(dist, 2_500_000);
    assert_eq!(side, 0);
    assert_eq!(hx, 4_000_000);
    assert_eq!(hy, FP + FP / 2);
    assert!(dist <= 100 * FP);
    assert!(m.is_wall(hx, hy));
}

#[test]
fn ray_against_the_axis_hits_the_left_border() {
    let m = GridMap::new_level_1();
    let p = Player::new(3 * FP + FP / 2, FP + FP / 2, 0);
    let rc = Raycaster::new();
    // Straight along -x from (3.5, 1.5): the march crosses into the border
    // column when x drops below 1, after 251 fine steps.
    let (dist, side, hx, hy) = rc.cast_ray(&m, &p, -FP, 0);
    assert_eq!(dist, 2_510_000);
    assert_eq!(side, 0);
    assert_eq!(hx, 990_000);
    assert_eq!(hy, FP + FP / 2);
    assert!(m.is_wall(hx, hy));
}

#[test]
fn centered_ray_strip_uses_raw_distance() {
    // One column, fisheye cosine exactly one: the corrected distance equals
    // the raw traveled distance, so the strip extent follows directly.
    let m = GridMap::new_level_1();
    let p = Player::new(FP + FP / 2, FP + FP / 2, 0);
    let rc = Raycaster::new();
    let (raw, side, _, _) = rc.cast_ray(&m, &p, FP, 0);
    assert_eq!(side, 0);
    let h: usize = 1000;
    let mut fb = Framebuffer::new(1, h);
    let tex = solid_texture((9, 8, 7));
    let trig = vec![ColumnTrig { dir_cos: FP, dir_sin: 0, fisheye_cos: FP }];
    rc.cast_rays(&m, &p, &mut fb, &tex, &trig);
    // Correction first (cosine one leaves the raw distance), then the clamp.
    let corrected = raw;
    let dist = if corrected < 10_000 { 10_000 } else { corrected };
    let wh = ((h as i64) * FP / dist) as usize;
    let start = (h / 2).saturating_sub(wh / 2);
    let end = h / 2 + wh / 2;
    for y in 0..h {
        if y >= start && y < end {
            assert_eq!(fb.buffer[y], packed((9, 8, 7)));
        } else {
            assert_eq!(fb.buffer[y], 0);
        }
    }
}

#[test]
fn doubling_distance_halves_strip_height() {
    let m = GridMap::new_level_1();
    let rc = Raycaster::new();
    let tex = solid_texture((1, 1, 1));
    let trig = vec![ColumnTrig { dir_cos: FP, dir_sin: 0, fisheye_cos: FP }];
    let h: usize = 4000;

    // From (2.75, 1.5) the wall at x = 4 is 1.25 units away; from (1.5, 1.5)
    // it is exactly twice as far.
    let near = Player::new(2 * FP + 3 * FP / 4, FP + FP / 2, 0);
    let far = Player::new(FP + FP / 2, FP + FP / 2, 0);

    let mut fb_near = Framebuffer::new(1, h);
    rc.cast_rays(&m, &near, &mut fb_near, &tex, &trig);
    let mut fb_far = Framebuffer::new(1, h);
    rc.cast_rays(&m, &far, &mut fb_far, &tex, &trig);

    let count_near = fb_near.buffer.iter().filter(|&&c| c != 0).count();
    let count_far = fb_far.buffer.iter().filter(|&&c| c != 0).count();
    assert_eq!(count_near, 3200);
    assert_eq!(count_far, 1600);
    assert_eq!(count_near, 2 * count_far);
}
