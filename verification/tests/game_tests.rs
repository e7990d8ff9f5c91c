use raycaster::fixed::FP;
use raycaster::game::{Game, GameState};
use raycaster::texture::Texture;

fn solid_texture(color: (u8, u8, u8)) -> Texture {
    let bytes: Vec<u8> = vec![color.0, color.1, color.2, 255];
    Texture::from_rgba(1, 1, &bytes).unwrap()
}

fn fresh_game() -> Game {
    Game::new(320, 240, solid_texture((1, 1, 1)), solid_texture((2, 2, 2)))
}

#[test]
fn goal_reached_is_a_half_unit_circle() {
    let g = fresh_game();
    // Just under half a unit away (diagonal 0.495): reached.
    assert!(g.check_goal_reached(8 * FP, 8 * FP, 7_650_000, 7_650_000));
    // Diagonal of about 0.566: not reached.
    assert!(!g.check_goal_reached(8 * FP, 8 * FP, 7_600_000, 7_600_000));
    // A whole diagonal cell away (about 1.41): not reached.
    assert!(!g.check_goal_reached(8 * FP, 8 * FP, 7 * FP, 7 * FP));
    // Exactly on the goal: reached.
    assert!(g.check_goal_reached(8 * FP, 8 * FP, 8 * FP, 8 * FP));
}

#[test]
fn new_game_starts_on_welcome_screen() {
    let g = fresh_game();
    assert_eq!(g.state, GameState::WelcomeScreen);
    assert_eq!(g.width, 320);
    assert_eq!(g.height, 240);
    assert_eq!(g.target_fps, 160);
    assert_eq!(g.player.x, 3 * FP);
    assert_eq!(g.player.y, 3 * FP);
    assert_eq!(g.map.width, 10);
}

#[test]
fn update_goal_state_enters_success_screen() {
    let mut g = fresh_game();
    g.state = GameState::Level1;
    g.player.x = 7_700_000;
    g.player.y = 7_700_000;
    let reached = g.update_goal_state();
    assert!(reached);
    assert_eq!(g.state, GameState::SuccessScreen);

    let mut g2 = fresh_game();
    g2.state = GameState::Level1;
    let reached2 = g2.update_goal_state();
    assert!(!reached2);
    assert_eq!(g2.state, GameState::Level1);
}

#[test]
fn start_level_loads_map_and_start_position() {
    let mut g = fresh_game();
    g.start_level(2);
    assert_eq!(g.state, GameState::Level2);
    assert_eq!(g.player.x, FP);
    assert_eq!(g.player.y, FP);
    assert_eq!(g.map.grid[6][6], '#');
    g.start_level(7);
    assert_eq!(g.state, GameState::Level2);
}

#[test]
fn menu_click_selects_level() {
    // The level buttons sit at (100, 150) and (100, 250), 200 x 50 each;
    // mouse coordinates are fixed-point pixels.
    let mut g = fresh_game();
    g.select_level_from_menu(150 * FP, 170 * FP);
    assert_eq!(g.state, GameState::Level1);
    // The welcome screen does not move the player.
    assert_eq!(g.player.x, 3 * FP);

    let mut g2 = fresh_game();
    g2.select_level_from_menu(299 * FP, 299 * FP);
    assert_eq!(g2.state, GameState::Level2);

    let mut g3 = fresh_game();
    g3.select_level_from_menu(50 * FP, 50 * FP);
    assert_eq!(g3.state, GameState::WelcomeScreen);
}

#[test]
fn success_click_restarts_at_level_start() {
    let mut g = fresh_game();
    g.state = GameState::SuccessScreen;
    g.player.x = 7_700_000;
    g.player.y = 7_700_000;
    g.select_level_after_success(150 * FP, 170 * FP);
    assert_eq!(g.state, GameState::Level1);
    assert_eq!(g.player.x, FP);
    assert_eq!(g.player.y, FP);
}

#[test]
fn button_test_is_edge_inclusive() {
    let g = fresh_game();
    assert!(g.is_inside_button(100 * FP, 150 * FP, 100, 150, 200, 50));
    assert!(g.is_inside_button(300 * FP, 200 * FP, 100, 150, 200, 50));
    assert!(!g.is_inside_button(300 * FP + 1, 200 * FP, 100, 150, 200, 50));
    assert!(!g.is_inside_button(100 * FP - 1, 170 * FP, 100, 150, 200, 50));
}

#[test]
fn draw_text_draws_glyph_pixels_exactly() {
    let mut g = Game::new(64, 64, solid_texture((1, 1, 1)), solid_texture((2, 2, 2)));
    g.renderer.framebuffer.clear(0x123456);
    g.draw_text(0, 0, "A", 0xFFFFFF);
    // The top row of 'A' is " 000 ": doubled, that is columns 2..8 of pixel
    // rows 0..2; everything else on those rows keeps the old color.
    for y in 0..2 {
        for x in 0..12 {
            let c = g.renderer.framebuffer.buffer[y * 64 + x];
            if (2..8).contains(&x) {
                assert_eq!(c, 0xFFFFFF);
            } else {
                assert_eq!(c, 0x123456);
            }
        }
    }
    // Rows 1 and 2 of 'A' are "0   0": columns 0..2 and 8..10 on rows 2..6.
    for y in 2..6 {
        for x in 0..12 {
            let c = g.renderer.framebuffer.buffer[y * 64 + x];
            if x < 2 || (8..10).contains(&x) {
                assert_eq!(c, 0xFFFFFF);
            } else {
                assert_eq!(c, 0x123456);
            }
        }
    }
    // A character outside the font takes up its slot but draws nothing.
    let mut g2 = Game::new(64, 64, solid_texture((1, 1, 1)), solid_texture((2, 2, 2)));
    g2.renderer.framebuffer.clear(0x123456);
    g2.draw_text(0, 0, " A", 0xFFFFFF);
    for x in 0..12 {
        assert_eq!(g2.renderer.framebuffer.buffer[x], 0x123456);
    }
    assert_eq!(g2.renderer.framebuffer.buffer[14], 0xFFFFFF);
}

#[test]
fn welcome_screen_uses_menu_palette() {
    let mut g = Game::new(400, 400, solid_texture((1, 1, 1)), solid_texture((2, 2, 2)));
    g.compose_welcome_screen();
    let palette = [0x000000, 0xFFFFFF, 0x007BFF, 0xFF5722];
    for &c in g.renderer.framebuffer.buffer.iter() {
        assert!(palette.contains(&c));
    }
    // The top-left corner of the first button is its background color, and
    // a pixel outside everything is the clear color.
    assert_eq!(g.renderer.framebuffer.buffer[150 * 400 + 100], 0x007BFF);
    assert_eq!(g.renderer.framebuffer.buffer[0], 0x000000);
    // The prompt put some text pixels on screen.
    let white = g.renderer.framebuffer.buffer.iter().filter(|&&c| c == 0xFFFFFF).count();
    assert!(white > 0);
}

#[test]
fn success_screen_uses_menu_palette() {
    let mut g = Game::new(400, 400, solid_texture((1, 1, 1)), solid_texture((2, 2, 2)));
    g.state = GameState::SuccessScreen;
    g.compose_success_screen();
    let palette = [0x000000, 0xFFFFFF, 0x007BFF, 0xFF5722];
    for &c in g.renderer.framebuffer.buffer.iter() {
        assert!(palette.contains(&c));
    }
    assert_eq!(g.renderer.framebuffer.buffer[250 * 400 + 100], 0xFF5722);
}
