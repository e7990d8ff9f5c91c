use raycaster::fixed::FP;
use raycaster::map::GridMap;
use raycaster::player::Player;
use raycaster::raycaster::{camera_x, ray_direction, ColumnTrig};
use raycaster::renderer::{FrameTrig, Renderer};
use raycaster::texture::Texture;

fn solid_texture(color: (u8, u8, u8)) -> Texture {
    let bytes: Vec<u8> = vec![color.0, color.1, color.2, 255];
    Texture::from_rgba(1, 1, &bytes).unwrap()
}

fn packed(color: (u8, u8, u8)) -> u32 {
    ((color.0 as u32) << 16) | ((color.1 as u32) << 8) | (color.2 as u32)
}

fn to_fx(v: f64) -> i64 {
    (v * 1e6) as i64
}

fn frame_trig(map: &GridMap, player: &Player, width: usize) -> FrameTrig {
    let dir = player.direction as f64 / 1e6;
    let fov = player.fov;
    let mut columns = Vec::new();
    for x in 0..width {
        let cam = camera_x(x, width);
        let ray_fx = ray_direction(player.direction, fov, cam);
        let ray = ray_fx as f64 / 1e6;
        columns.push(ColumnTrig {
            dir_cos: to_fx(ray.cos()),
            dir_sin: to_fx(ray.sin()),
            fisheye_cos: to_fx((ray - dir).cos()),
        });
    }
    let left = dir + (fov as f64 / 1e6) / 2.0;
    let dx = (map.end_x - player.x) as f64 / 1e6;
    let dy = (map.end_y - player.y) as f64 / 1e6;
    FrameTrig {
        columns,
        left_cos: to_fx(left.cos()),
        left_sin: to_fx(left.sin()),
        goal_rel: to_fx(dy.atan2(dx)) - player.direction,
    }
}

#[test]
fn minimap_marks_player_block() {
    // Viewer at (1, 1) with minimap scale 4: the marker block starts at
    // pixel (4, 4).
    let m = GridMap::new_level_1();
    let p = Player::new(FP, FP, 0);
    let mut r = Renderer::new(64, 64, solid_texture((1, 1, 1)), solid_texture((2, 2, 2)));
    r.render_minimap(&m, &p);
    for py in 0..4 {
        for px in 0..4 {
            assert_eq!(r.framebuffer.buffer[(4 + py) * 64 + (4 + px)], 0xFF0000);
        }
    }
    // Cell (0, 0) is a wall, cell (2, 1) is open floor.
    assert_eq!(r.framebuffer.buffer[0], 0xFFFFFF);
    assert_eq!(r.framebuffer.buffer[4 * 64 + 8], 0x000000);
    // Pixels outside the minimap region are untouched.
    assert_eq!(r.framebuffer.buffer[63 * 64 + 63], 0);
}

#[test]
fn goal_billboard_draws_through_walls() {
    // One unit straight ahead of the viewer: the goal projects to the middle
    // column and paints a large green square.
    let m = GridMap::new_level_1();
    let p = Player::new(7 * FP, 8 * FP, 0);
    let mut r = Renderer::new(100, 100, solid_texture((1, 1, 1)), solid_texture((2, 2, 2)));
    r.render_goal_3d(&m, &p, 0);
    assert_eq!(r.framebuffer.buffer[50 * 100 + 50], 0x00FF00);
}

#[test]
fn goal_billboard_skipped_when_too_close() {
    let m = GridMap::new_level_1();
    let p = Player::new(8 * FP, 8 * FP, 0);
    let mut r = Renderer::new(100, 100, solid_texture((1, 1, 1)), solid_texture((2, 2, 2)));
    r.render_goal_3d(&m, &p, 0);
    assert!(r.framebuffer.buffer.iter().all(|&c| c == 0));
}

#[test]
fn floor_fills_rows_below_horizon() {
    let m = GridMap::new_level_1();
    let p = Player::new(FP + FP / 2, FP + FP / 2, 0);
    let mut r = Renderer::new(8, 10, solid_texture((1, 1, 1)), solid_texture((3, 4, 5)));
    let trig = frame_trig(&m, &p, 8);
    r.render_floor(&p, trig.left_cos, trig.left_sin);
    let floor = packed((3, 4, 5));
    for y in 0..10 {
        for x in 0..8 {
            let c = r.framebuffer.buffer[y * 8 + x];
            if y >= 6 {
                assert_eq!(c, floor);
            } else {
                assert_eq!(c, 0);
            }
        }
    }
}

#[test]
fn full_scene_shows_walls_and_minimap() {
    // Rendering level 1 at the start cell, facing along +x: the frame holds
    // at least one wall-textured strip, and the top-left minimap region is
    // fully overwritten by map-derived colors.
    let m = GridMap::new_level_1();
    let p = Player::new(FP, FP, 0);
    let wall = (10, 20, 30);
    let floor = (7, 7, 7);
    let mut r = Renderer::new(640, 480, solid_texture(wall), solid_texture(floor));
    let trig = frame_trig(&m, &p, 640);
    r.render_scene(&m, &p, &trig);

    let wall_color = packed(wall);
    let wall_pixels = r.framebuffer.buffer.iter().filter(|&&c| c == wall_color).count();
    assert!(wall_pixels > 0);

    let map_colors = [0xFFFFFF, 0x000000, 0xFF0000];
    for y in 0..40 {
        for x in 0..40 {
            let c = r.framebuffer.buffer[y * 640 + x];
            assert!(map_colors.contains(&c));
        }
    }
}
