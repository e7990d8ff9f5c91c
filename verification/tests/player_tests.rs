use raycaster::fixed::FP;
use raycaster::map::GridMap;
use raycaster::player::Player;

#[test]
fn new_player_has_sixty_degree_fov() {
    let p = Player::new(3 * FP, 3 * FP, 0);
    assert_eq!(p.x, 3 * FP);
    assert_eq!(p.y, 3 * FP);
    assert_eq!(p.direction, 0);
    assert_eq!(p.fov, 1_047_198);
}

#[test]
fn forward_moves_at_half_speed_and_stops_at_walls() {
    let m = GridMap::new_level_1();
    // Facing along +x: cosine one, sine zero.
    let (c, s) = (FP, 0);
    let mut p = Player::new(FP + FP / 2, FP + FP / 2, 0);
    // One step of distance 1.0 at speed 0.5 advances half a unit.
    p.move_forward(FP, c, s, &m);
    assert_eq!(p.x, 2 * FP);
    assert_eq!(p.y, FP + FP / 2);
    p.move_forward(FP, c, s, &m);
    assert_eq!(p.x, 2 * FP + FP / 2);
    p.move_forward(FP, c, s, &m);
    assert_eq!(p.x, 3 * FP);
    // The next step's half-unit probe would reach the wall at x = 4, so the
    // x axis stops moving half a unit short of the wall face.
    p.move_forward(FP, c, s, &m);
    assert_eq!(p.x, 3 * FP);
    p.move_forward(FP, c, s, &m);
    assert_eq!(p.x, 3 * FP);
    assert_eq!(p.y, FP + FP / 2);
}

#[test]
fn backward_is_forward_reversed() {
    let m = GridMap::new_level_1();
    let mut p = Player::new(3 * FP, FP + FP / 2, 0);
    p.move_backward(FP, FP, 0, &m);
    assert_eq!(p.x, 2 * FP + FP / 2);
    assert_eq!(p.y, FP + FP / 2);
}

#[test]
fn diagonal_move_advances_both_axes() {
    let m = GridMap::new_level_1();
    // Facing diagonally down-right from the middle of cell (1, 1): both axes
    // are free (the probes land in open cells), so both advance by the
    // cosine and sine components at half speed.
    let ang = std::f64::consts::FRAC_PI_4;
    let c = (ang.cos() * 1e6) as i64;
    let s = (ang.sin() * 1e6) as i64;
    let mut p = Player::new(FP + FP / 2, FP + FP / 2, 785_398);
    p.move_forward(FP, c, s, &m);
    assert_eq!(p.x, FP + FP / 2 + c / 2);
    assert_eq!(p.y, FP + FP / 2 + c / 2);
    assert!(!m.is_wall(p.x, p.y));
}

#[test]
fn turns_adjust_direction() {
    let m = GridMap::new_level_1();
    let mut p = Player::new(3 * FP, 3 * FP, 100_000);
    p.turn_left(50_000);
    assert_eq!(p.direction, 50_000);
    p.turn_right(75_000);
    assert_eq!(p.direction, 125_000);
    let before = (p.x, p.y, p.direction, p.fov);
    p.update(&m, 16_000);
    assert_eq!((p.x, p.y, p.direction, p.fov), before);
}
