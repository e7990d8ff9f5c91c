//! Game state and the screen-flow logic around the renderer: which screen is
//! active, level selection and (re)start, the distance-based goal test the
//! level loop runs every frame, and the text and button drawing of the
//! welcome and success screens. The windowing, input and timing around these
//! live outside the library; everything here is deterministic and proved.
use vstd::prelude::*;

use crate::fixed::FP;
use crate::framebuffer::Framebuffer;
use crate::map::{is_level_1, is_level_2, GridMap};
use crate::player::Player;
use crate::renderer::Renderer;
use crate::texture::Texture;

verus! {

/// Which screen the game is showing.
#[derive(Clone, Copy, Debug, PartialEq, Eq, Structural)]
pub enum GameState {
    WelcomeScreen,
    Level1,
    Level2,
    SuccessScreen,
}

/// Background color of the menu screens.
pub const MENU_CLEAR_COLOR: u32 = 0x000000;

/// Text color of the menu screens.
pub const MENU_TEXT_COLOR: u32 = 0xFFFFFF;

/// Background color of the first level's button.
pub const BUTTON_1_COLOR: u32 = 0x007BFF;

/// Background color of the second level's button.
pub const BUTTON_2_COLOR: u32 = 0xFF5722;

/// Squared distance between two fixed-point positions.
pub open spec fn spec_dist_sq(ax: int, ay: int, bx: int, by: int) -> int {
    (ax - bx) * (ax - bx) + (ay - by) * (ay - by)
}

/// The goal-reached test: the player is within half a world unit of the goal.
pub open spec fn spec_goal_reached(gx: int, gy: int, px: int, py: int) -> bool {
    spec_dist_sq(gx, gy, px, py) < ((FP as int) / 2) * ((FP as int) / 2)
}

/// Whether a fixed-point point lies on a pixel-rectangle button (bounds
/// inclusive on all four edges, as the mouse test of the menu screens has it).
pub open spec fn spec_inside_button(
    mx: int,
    my: int,
    bx: int,
    by: int,
    bw: int,
    bh: int,
) -> bool {
    &&& bx * (FP as int) <= mx <= (bx + bw) * (FP as int)
    &&& by * (FP as int) <= my <= (by + bh) * (FP as int)
}

/// The rows of one font glyph, as [`glyph_rows`] returns them: the spec-level
/// form of the same table.
pub open spec fn spec_glyph_rows(index: int) -> Seq<u8> {
    if index == 0 {
        seq![0b01110u8, 0b10001u8, 0b10001u8, 0b11111u8, 0b10001u8, 0b10001u8, 0b10001u8]
    } else if index == 1 {
        seq![0b11110u8, 0b10001u8, 0b11110u8, 0b10001u8, 0b10001u8, 0b10001u8, 0b11110u8]
    } else if index == 2 {
        seq![0b01111u8, 0b10000u8, 0b10000u8, 0b10000u8, 0b10000u8, 0b10000u8, 0b01111u8]
    } else if index == 3 {
        seq![0b11110u8, 0b10001u8, 0b10001u8, 0b10001u8, 0b10001u8, 0b10001u8, 0b11110u8]
    } else if index == 4 {
        seq![0b11111u8, 0b10000u8, 0b11110u8, 0b10000u8, 0b10000u8, 0b10000u8, 0b11111u8]
    } else if index == 5 {
        seq![0b11111u8, 0b10000u8, 0b11110u8, 0b10000u8, 0b10000u8, 0b10000u8, 0b10000u8]
    } else if index == 6 {
        seq![0b01111u8, 0b10000u8, 0b10011u8, 0b10001u8, 0b10001u8, 0b10001u8, 0b01111u8]
    } else if index == 7 {
        seq![0b10001u8, 0b10001u8, 0b11111u8, 0b10001u8, 0b10001u8, 0b10001u8, 0b10001u8]
    } else if index == 8 {
        seq![0b01110u8, 0b00100u8, 0b00100u8, 0b00100u8, 0b00100u8, 0b00100u8, 0b01110u8]
    } else if index == 9 {
        seq![0b00011u8, 0b00001u8, 0b00001u8, 0b00001u8, 0b10001u8, 0b10001u8, 0b01110u8]
    } else if index == 10 {
        seq![0b10001u8, 0b10010u8, 0b11100u8, 0b10100u8, 0b10010u8, 0b10001u8, 0b10001u8]
    } else if index == 11 {
        seq![0b10000u8, 0b10000u8, 0b10000u8, 0b10000u8, 0b10000u8, 0b10000u8, 0b11111u8]
    } else if index == 12 {
        seq![0b10001u8, 0b11011u8, 0b10101u8, 0b10001u8, 0b10001u8, 0b10001u8, 0b10001u8]
    } else if index == 13 {
        seq![0b10001u8, 0b11001u8, 0b10101u8, 0b10011u8, 0b10001u8, 0b10001u8, 0b10001u8]
    } else if index == 14 {
        seq![0b01110u8, 0b10001u8, 0b10001u8, 0b10001u8, 0b10001u8, 0b10001u8, 0b01110u8]
    } else if index == 15 {
        seq![0b11110u8, 0b10001u8, 0b10001u8, 0b11110u8, 0b10000u8, 0b10000u8, 0b10000u8]
    } else if index == 16 {
        seq![0b01110u8, 0b10001u8, 0b10001u8, 0b10001u8, 0b10101u8, 0b10011u8, 0b01111u8]
    } else if index == 17 {
        seq![0b11110u8, 0b10001u8, 0b10001u8, 0b11110u8, 0b10010u8, 0b10001u8, 0b10001u8]
    } else if index == 18 {
        seq![0b01111u8, 0b10000u8, 0b10000u8, 0b01110u8, 0b00001u8, 0b00001u8, 0b11110u8]
    } else if index == 19 {
        seq![0b11111u8, 0b00100u8, 0b00100u8, 0b00100u8, 0b00100u8, 0b00100u8, 0b00100u8]
    } else if index == 20 {
        seq![0b10001u8, 0b10001u8, 0b10001u8, 0b10001u8, 0b10001u8, 0b10001u8, 0b01110u8]
    } else if index == 21 {
        seq![0b10001u8, 0b10001u8, 0b10001u8, 0b10001u8, 0b10001u8, 0b01010u8, 0b00100u8]
    } else if index == 22 {
        seq![0b10001u8, 0b10001u8, 0b10001u8, 0b10101u8, 0b10101u8, 0b10101u8, 0b01010u8]
    } else if index == 23 {
        seq![0b10001u8, 0b10001u8, 0b01010u8, 0b00100u8, 0b01010u8, 0b10001u8, 0b10001u8]
    } else if index == 24 {
        seq![0b10001u8, 0b10001u8, 0b01010u8, 0b00100u8, 0b00100u8, 0b00100u8, 0b00100u8]
    } else if index == 25 {
        seq![0b11111u8, 0b00001u8, 0b00010u8, 0b00100u8, 0b01000u8, 0b10000u8, 0b11111u8]
    } else if index == 26 {
        seq![0b00100u8, 0b01100u8, 0b00100u8, 0b00100u8, 0b00100u8, 0b00100u8, 0b01110u8]
    } else if index == 27 {
        seq![0b01110u8, 0b10001u8, 0b00001u8, 0b00010u8, 0b00100u8, 0b01000u8, 0b11111u8]
    } else {
        seq![0u8, 0u8, 0u8, 0u8, 0u8, 0u8, 0u8]
    }
}

/// Whether the doubled glyph `index` covers pixel offset `(dx, dy)` from its
/// anchor: inside the 10 x 14 box, with the bit for pixel column `dx / 2` set
/// in glyph row `dy / 2`.
pub open spec fn spec_glyph_covers(index: int, dx: int, dy: int) -> bool {
    &&& 0 <= dx < 10
    &&& 0 <= dy < 14
    &&& ((spec_glyph_rows(index)[dy / 2] as u32) >> ((4 - dx / 2) as u32)) & 1 == 1
}

/// The font index a character draws with: 0 to 25 for 'A' to 'Z', 26 and 27
/// for the digits '1' and '2', and -1 for every other character, whose glyph
/// is blank.
pub open spec fn spec_font_index(c: char) -> int {
    if 65 <= c as u32 <= 90 {
        c as u32 - 65
    } else if c == '1' {
        26
    } else if c == '2' {
        27
    } else {
        -1
    }
}

/// Whether one of the first `upto` characters of `text`, laid out in glyph
/// slots twelve pixels apart from the anchor `(x, y)`, covers pixel
/// `(px, py)`.
pub open spec fn spec_text_covers(
    text: Seq<char>,
    upto: int,
    x: int,
    y: int,
    px: int,
    py: int,
) -> bool {
    exists|i: int|
        0 <= i < upto && #[trigger] spec_glyph_covers(
            spec_font_index(text[i]),
            px - (x + 12 * i),
            py - y,
        )
}

/// The blank glyph covers nothing: a character outside the font draws no
/// pixel.
proof fn lemma_blank_glyph(dx: int, dy: int)
    ensures
        !spec_glyph_covers(-1, dx, dy),
{
    if 0 <= dx < 10 && 0 <= dy < 14 {
        assert(spec_glyph_rows(-1)[dy / 2] == 0u8);
        assert(forall|sh: u32| (#[trigger] ((0u8 as u32) >> sh)) & 1u32 == 0u32) by (bit_vector);
    }
}

/// The 5 x 7 pixel pattern of one font glyph, one row per entry, the leftmost
/// column in the highest of the five used bits. Indices 0 to 25 are 'A' to
/// 'Z'; 26 and 27 are the digits '1' and '2'.
fn glyph_rows(index: usize) -> (r: [u8; 7])
    ensures
        r@ == spec_glyph_rows(index as int),
{
    match index {
        0 => [0b01110, 0b10001, 0b10001, 0b11111, 0b10001, 0b10001, 0b10001],
        1 => [0b11110, 0b10001, 0b11110, 0b10001, 0b10001, 0b10001, 0b11110],
        2 => [0b01111, 0b10000, 0b10000, 0b10000, 0b10000, 0b10000, 0b01111],
        3 => [0b11110, 0b10001, 0b10001, 0b10001, 0b10001, 0b10001, 0b11110],
        4 => [0b11111, 0b10000, 0b11110, 0b10000, 0b10000, 0b10000, 0b11111],
        5 => [0b11111, 0b10000, 0b11110, 0b10000, 0b10000, 0b10000, 0b10000],
        6 => [0b01111, 0b10000, 0b10011, 0b10001, 0b10001, 0b10001, 0b01111],
        7 => [0b10001, 0b10001, 0b11111, 0b10001, 0b10001, 0b10001, 0b10001],
        8 => [0b01110, 0b00100, 0b00100, 0b00100, 0b00100, 0b00100, 0b01110],
        9 => [0b00011, 0b00001, 0b00001, 0b00001, 0b10001, 0b10001, 0b01110],
        10 => [0b10001, 0b10010, 0b11100, 0b10100, 0b10010, 0b10001, 0b10001],
        11 => [0b10000, 0b10000, 0b10000, 0b10000, 0b10000, 0b10000, 0b11111],
        12 => [0b10001, 0b11011, 0b10101, 0b10001, 0b10001, 0b10001, 0b10001],
        13 => [0b10001, 0b11001, 0b10101, 0b10011, 0b10001, 0b10001, 0b10001],
        14 => [0b01110, 0b10001, 0b10001, 0b10001, 0b10001, 0b10001, 0b01110],
        15 => [0b11110, 0b10001, 0b10001, 0b11110, 0b10000, 0b10000, 0b10000],
        16 => [0b01110, 0b10001, 0b10001, 0b10001, 0b10101, 0b10011, 0b01111],
        17 => [0b11110, 0b10001, 0b10001, 0b11110, 0b10010, 0b10001, 0b10001],
        18 => [0b01111, 0b10000, 0b10000, 0b01110, 0b00001, 0b00001, 0b11110],
        19 => [0b11111, 0b00100, 0b00100, 0b00100, 0b00100, 0b00100, 0b00100],
        20 => [0b10001, 0b10001, 0b10001, 0b10001, 0b10001, 0b10001, 0b01110],
        21 => [0b10001, 0b10001, 0b10001, 0b10001, 0b10001, 0b01010, 0b00100],
        22 => [0b10001, 0b10001, 0b10001, 0b10101, 0b10101, 0b10101, 0b01010],
        23 => [0b10001, 0b10001, 0b01010, 0b00100, 0b01010, 0b10001, 0b10001],
        24 => [0b10001, 0b10001, 0b01010, 0b00100, 0b00100, 0b00100, 0b00100],
        25 => [0b11111, 0b00001, 0b00010, 0b00100, 0b01000, 0b10000, 0b11111],
        26 => [0b00100, 0b01100, 0b00100, 0b00100, 0b00100, 0b00100, 0b01110],
        27 => [0b01110, 0b10001, 0b00001, 0b00010, 0b00100, 0b01000, 0b11111],
        _ => [0, 0, 0, 0, 0, 0, 0],
    }
}

/// The font index a character draws with, if the font has it: letters 'A' to
/// 'Z' and the digits '1' and '2'; anything else is skipped.
fn font_index(c: char) -> (r: Option<usize>)
    ensures
        r is Some <==> spec_font_index(c) >= 0,
        r is Some ==> r->Some_0 == spec_font_index(c) && r->Some_0 < 28,
{
    let cu = c as u32;
    if cu >= 65 && cu <= 90 {
        Some((cu - 65) as usize)
    } else if c == '1' {
        Some(26)
    } else if c == '2' {
        Some(27)
    } else {
        None
    }
}

/// Draw one font glyph at pixel position `(x, y)`, doubled in size: every set
/// bit of the glyph's rows becomes a 2 x 2 block of `color`, and no other
/// pixel changes.
fn draw_glyph_block(fb: &mut Framebuffer, x: usize, y: usize, index: usize, color: u32)
    requires
        old(fb).wf(),
        x <= 200_000,
        y <= 200_000,
    ensures
        final(fb).wf(),
        final(fb).width == old(fb).width,
        final(fb).height == old(fb).height,
        final(fb).buffer@ == Seq::new(
            old(fb).buffer@.len(),
            |j: int|
                (if spec_glyph_covers(
                    index as int,
                    j % (old(fb).width as int) - x,
                    j / (old(fb).width as int) - y,
                ) {
                    color
                } else {
                    old(fb).buffer@[j]
                }),
        ),
{
    let w = fb.width;
    let ghost wi = w as int;
    let ghost old_buf = fb.buffer@;
    let rows = glyph_rows(index);
    let mut row: usize = 0;
    while row < 7
        invariant
            fb.wf(),
            fb.width == w,
            fb.height == old(fb).height,
            fb.buffer@.len() == old_buf.len(),
            wi == w as int,
            x <= 200_000,
            y <= 200_000,
            row <= 7,
            rows@ == spec_glyph_rows(index as int),
            forall|j: int|
                0 <= j < old_buf.len() ==> fb.buffer@[j] == (if spec_glyph_covers(
                    index as int,
                    j % wi - x,
                    j / wi - y,
                ) && j / wi - y < 2 * row {
                    color
                } else {
                    old_buf[j]
                }),
        decreases 7 - row,
    {
        let bits = rows[row];
        let mut col: usize = 0;
        while col < 5
            invariant
                fb.wf(),
                fb.width == w,
                fb.height == old(fb).height,
                fb.buffer@.len() == old_buf.len(),
                wi == w as int,
                x <= 200_000,
                y <= 200_000,
                row < 7,
                col <= 5,
                rows@ == spec_glyph_rows(index as int),
                bits == spec_glyph_rows(index as int)[row as int],
                forall|j: int|
                    0 <= j < old_buf.len() ==> fb.buffer@[j] == (if spec_glyph_covers(
                        index as int,
                        j % wi - x,
                        j / wi - y,
                    ) && (j / wi - y < 2 * row || (j / wi - y < 2 * row + 2 && j % wi - x < 2
                        * col)) {
                        color
                    } else {
                        old_buf[j]
                    }),
            decreases 5 - col,
        {
            if ((bits as u32) >> ((4 - col) as u32)) & 1 == 1 {
                fb.point(x + 2 * col, y + 2 * row, color);
                fb.point(x + 2 * col + 1, y + 2 * row, color);
                fb.point(x + 2 * col, y + 2 * row + 1, color);
                fb.point(x + 2 * col + 1, y + 2 * row + 1, color);
            }
            proof {
                assert forall|j: int| 0 <= j < old_buf.len() implies fb.buffer@[j] == (
                if spec_glyph_covers(index as int, j % wi - x, j / wi - y) && (j / wi - y < 2 * row
                    || (j / wi - y < 2 * row + 2 && j % wi - x < 2 * (col + 1))) {
                    color
                } else {
                    old_buf[j]
                }) by {
                    let dx = j % wi - x;
                    let dy = j / wi - y;
                    if 2 * row <= dy < 2 * row + 2 && 2 * col <= dx < 2 * col + 2 {
                        vstd::arithmetic::div_mod::lemma_fundamental_div_mod_converse(
                            dy,
                            2,
                            row as int,
                            dy - 2 * row,
                        );
                        vstd::arithmetic::div_mod::lemma_fundamental_div_mod_converse(
                            dx,
                            2,
                            col as int,
                            dx - 2 * col,
                        );
                    }
                }
            }
            col = col + 1;
        }
        row = row + 1;
    }
    proof {
        assert(fb.buffer@ =~= Seq::new(
            old_buf.len(),
            |j: int|
                (if spec_glyph_covers(index as int, j % wi - x, j / wi - y) {
                    color
                } else {
                    old_buf[j]
                }),
        ));
    }
}

/// The color of flat pixel `j` after a button is drawn over `old`: the
/// label's glyph pixels in the text color win, then the button rectangle in
/// the background color, and every other pixel keeps its value.
pub open spec fn spec_button_pixel(
    old: Seq<u32>,
    w: int,
    x: int,
    y: int,
    bw: int,
    bh: int,
    label: Seq<char>,
    text_color: u32,
    background_color: u32,
    j: int,
) -> u32 {
    let px = j % w;
    let py = j / w;
    if spec_text_covers(label, label.len() as int, x + 20, y + 15, px, py) {
        text_color
    } else if x <= px < x + bw && y <= py < y + bh {
        background_color
    } else {
        old[j]
    }
}

/// A whole menu screen, pixel by pixel: a black background, the title text
/// at (100, 50), the first level's button at (100, 150) and the second's at
/// (100, 250), each 200 x 50 with its digit label, later layers drawn over
/// earlier ones.
pub open spec fn spec_menu_screen(w: int, len: nat, title: Seq<char>) -> Seq<u32> {
    let cleared = Seq::new(len, |j: int| MENU_CLEAR_COLOR);
    let titled = Seq::new(
        len,
        |j: int|
            (if spec_text_covers(title, title.len() as int, 100, 50, j % w, j / w) {
                MENU_TEXT_COLOR
            } else {
                cleared[j]
            }),
    );
    let first_button = Seq::new(
        len,
        |j: int|
            spec_button_pixel(titled, w, 100, 150, 200, 50, "1"@, MENU_TEXT_COLOR, BUTTON_1_COLOR, j),
    );
    Seq::new(
        len,
        |j: int|
            spec_button_pixel(
                first_button,
                w,
                100,
                250,
                200,
                50,
                "2"@,
                MENU_TEXT_COLOR,
                BUTTON_2_COLOR,
                j,
            ),
    )
}

pub struct Game {
    pub width: usize,
    pub height: usize,
    pub renderer: Renderer,
    pub player: Player,
    pub map: GridMap,
    pub target_fps: usize,
    pub state: GameState,
}

impl Game {
    /// Renderer, map and player are well formed, and the recorded dimensions
    /// are the surface's.
    pub open spec fn wf(self) -> bool {
        &&& self.renderer.wf()
        &&& self.map.wf()
        &&& self.player.wf()
        &&& self.width == self.renderer.framebuffer.width
        &&& self.height == self.renderer.framebuffer.height
    }

    /// A fresh game session: level 1 loaded, the player parked at (3, 3)
    /// facing along the x axis, and the welcome screen up. The two decoded
    /// textures are handed in by whoever loaded them.
    pub fn new(width: usize, height: usize, wall_texture: Texture, floor_texture: Texture) -> (g:
        Game)
        requires
            width <= 16384,
            height <= 16384,
            wall_texture.wf(),
            floor_texture.wf(),
        ensures
            g.wf(),
            g.width == width,
            g.height == height,
            is_level_1(g.map),
            g.player.x == 3 * FP && g.player.y == 3 * FP && g.player.direction == 0,
            g.player.fov == crate::player::FOV,
            g.target_fps == 160,
            g.state == GameState::WelcomeScreen,
            g.renderer.wall_texture == wall_texture,
            g.renderer.floor_texture == floor_texture,
    {
        let renderer = Renderer::new(width, height, wall_texture, floor_texture);
        let map = GridMap::new_level_1();
        let player = Player::new(3 * FP, 3 * FP, 0);
        Game { width, height, renderer, player, map, target_fps: 160, state: GameState::WelcomeScreen }
    }

    /// The distance-based goal test the level loop runs every frame: true iff
    /// the player position is within half a world unit of the goal position.
    /// (The map's cell-equality test `is_end_position` is a separate,
    /// deliberately different predicate.)
    pub fn check_goal_reached(&self, goal_x: i64, goal_y: i64, player_x: i64, player_y: i64) -> (r:
        bool)
        requires
            -1000 * FP <= goal_x <= 1000 * FP,
            -1000 * FP <= goal_y <= 1000 * FP,
            -1000 * FP <= player_x <= 1000 * FP,
            -1000 * FP <= player_y <= 1000 * FP,
        ensures
            r == spec_goal_reached(goal_x as int, goal_y as int, player_x as int, player_y as int),
    {
        let dx = goal_x - player_x;
        let dy = goal_y - player_y;
        proof {
            assert(0 <= dx * dx <= 4000000000000000000 && 0 <= dy * dy <= 4000000000000000000)
                by (nonlinear_arith)
                requires
                    -2000000000 <= dx <= 2000000000,
                    -2000000000 <= dy <= 2000000000,
            ;
        }
        dx * dx + dy * dy < (FP / 2) * (FP / 2)
    }

    /// One frame's goal bookkeeping in a running level: report whether the
    /// player has reached the goal, and switch to the success screen when so.
    pub fn update_goal_state(&mut self) -> (reached: bool)
        requires
            old(self).wf(),
        ensures
            final(self).wf(),
            reached == spec_goal_reached(
                old(self).map.end_x as int,
                old(self).map.end_y as int,
                old(self).player.x as int,
                old(self).player.y as int,
            ),
            reached ==> *final(self) == (Game { state: GameState::SuccessScreen, ..*old(self) }),
            !reached ==> *final(self) == *old(self),
    {
        let reached = self.check_goal_reached(
            self.map.end_x,
            self.map.end_y,
            self.player.x,
            self.player.y,
        );
        if reached {
            self.state = GameState::SuccessScreen;
        }
        reached
    }

    /// Load a level by number and put the player at its start: level 1 or 2;
    /// any other number changes nothing.
    pub fn start_level(&mut self, level: usize)
        requires
            old(self).wf(),
        ensures
            final(self).wf(),
            level == 1 ==> is_level_1(final(self).map) && final(self).state == GameState::Level1,
            level == 2 ==> is_level_2(final(self).map) && final(self).state == GameState::Level2,
            level == 1 || level == 2 ==> final(self).player.x == final(self).map.start_x,
            level == 1 || level == 2 ==> final(self).player.y == final(self).map.start_y,
            level == 1 || level == 2 ==> final(self).player.direction == old(self).player.direction,
            level == 1 || level == 2 ==> final(self).player.fov == old(self).player.fov,
            !(level == 1 || level == 2) ==> *final(self) == *old(self),
            final(self).renderer == old(self).renderer,
            final(self).width == old(self).width && final(self).height == old(self).height,
    {
        match level {
            1 => {
                self.map = GridMap::new_level_1();
                self.player.x = self.map.start_x;
                self.player.y = self.map.start_y;
                self.state = GameState::Level1;
            },
            2 => {
                self.map = GridMap::new_level_2();
                self.player.x = self.map.start_x;
                self.player.y = self.map.start_y;
                self.state = GameState::Level2;
            },
            _ => {},
        }
    }

    /// Draw `text` at pixel position `(x, y)` with the built-in 5 x 7 font at
    /// twice its size, one glyph slot every twelve pixels: exactly the pixels
    /// covered by the glyphs of the text's characters take `color` (a
    /// character the font lacks takes up its slot but draws nothing), and
    /// every other pixel keeps its value.
    pub fn draw_text(&mut self, x: usize, y: usize, text: &str, color: u32)
        requires
            old(self).wf(),
            x <= 100_000,
            y <= 100_000,
            text@.len() <= 1000,
        ensures
            final(self).wf(),
            final(self).map == old(self).map,
            final(self).player == old(self).player,
            final(self).state == old(self).state,
            final(self).target_fps == old(self).target_fps,
            final(self).width == old(self).width,
            final(self).height == old(self).height,
            final(self).renderer.wall_texture == old(self).renderer.wall_texture,
            final(self).renderer.floor_texture == old(self).renderer.floor_texture,
            final(self).renderer.sky_color == old(self).renderer.sky_color,
            final(self).renderer.framebuffer.width == old(self).renderer.framebuffer.width,
            final(self).renderer.framebuffer.height == old(self).renderer.framebuffer.height,
            final(self).renderer.framebuffer.buffer@ == Seq::new(
                old(self).renderer.framebuffer.buffer@.len(),
                |j: int|
                    (if spec_text_covers(
                        text@,
                        text@.len() as int,
                        x as int,
                        y as int,
                        j % (old(self).renderer.framebuffer.width as int),
                        j / (old(self).renderer.framebuffer.width as int),
                    ) {
                        color
                    } else {
                        old(self).renderer.framebuffer.buffer@[j]
                    }),
            ),
    {
        let n = text.unicode_len();
        let ghost wi = self.renderer.framebuffer.width as int;
        let ghost old_buf = self.renderer.framebuffer.buffer@;
        let ghost t = text@;
        let mut i: usize = 0;
        while i < n
            invariant
                self.wf(),
                self.map == old(self).map,
                self.player == old(self).player,
                self.state == old(self).state,
                self.target_fps == old(self).target_fps,
                self.width == old(self).width,
                self.height == old(self).height,
                self.renderer.wall_texture == old(self).renderer.wall_texture,
                self.renderer.floor_texture == old(self).renderer.floor_texture,
                self.renderer.sky_color == old(self).renderer.sky_color,
                self.renderer.framebuffer.width == old(self).renderer.framebuffer.width,
                self.renderer.framebuffer.height == old(self).renderer.framebuffer.height,
                self.renderer.framebuffer.buffer@.len() == old_buf.len(),
                wi == old(self).renderer.framebuffer.width as int,
                old_buf == old(self).renderer.framebuffer.buffer@,
                t == text@,
                x <= 100_000,
                y <= 100_000,
                i <= n,
                n == t.len(),
                n <= 1000,
                forall|j: int|
                    0 <= j < old_buf.len() ==> self.renderer.framebuffer.buffer@[j] == (
                    if spec_text_covers(t, i as int, x as int, y as int, j % wi, j / wi) {
                        color
                    } else {
                        old_buf[j]
                    }),
            decreases n - i,
        {
            let ghost before = self.renderer.framebuffer.buffer@;
            let c = text.get_char(i);
            match font_index(c) {
                Some(fi) => {
                    draw_glyph_block(&mut self.renderer.framebuffer, x + i * 12, y, fi, color);
                },
                None => {},
            }
            proof {
                let ii = i as int;
                assert forall|j: int| 0 <= j < old_buf.len() implies
                    self.renderer.framebuffer.buffer@[j] == (if spec_text_covers(
                    t,
                    ii + 1,
                    x as int,
                    y as int,
                    j % wi,
                    j / wi,
                ) {
                    color
                } else {
                    old_buf[j]
                }) by {
                    let px = j % wi;
                    let py = j / wi;
                    let fidx = spec_font_index(t[ii]);
                    if spec_glyph_covers(fidx, px - (x + 12 * ii), py - y) {
                        // The slot just drawn covers this pixel: it is a
                        // witness for the prefix one longer.
                        assert(fidx >= 0) by {
                            lemma_blank_glyph(px - (x + 12 * ii), py - y);
                        }
                        assert(spec_text_covers(t, ii + 1, x as int, y as int, px, py));
                    } else {
                        // The pixel kept its previous value; any witness for
                        // the longer prefix is a witness for the shorter one.
                        if spec_text_covers(t, ii + 1, x as int, y as int, px, py) {
                            let k = choose|k: int|
                                0 <= k < ii + 1 && #[trigger] spec_glyph_covers(
                                    spec_font_index(t[k]),
                                    px - (x + 12 * k),
                                    py - y,
                                );
                            assert(k < ii);
                            assert(spec_text_covers(t, ii, x as int, y as int, px, py));
                        }
                    }
                }
            }
            i = i + 1;
        }
        proof {
            assert(self.renderer.framebuffer.buffer@ =~= Seq::new(
                old_buf.len(),
                |j: int|
                    (if spec_text_covers(t, t.len() as int, x as int, y as int, j % wi, j / wi) {
                        color
                    } else {
                        old_buf[j]
                    }),
            ));
        }
    }

    /// Draw a filled button rectangle and its label text. The whole
    /// rectangle (clipped to the surface) takes the background color, the
    /// label's glyph pixels, anchored twenty pixels right and fifteen down
    /// from the button corner, take the text color over it, and every other
    /// pixel keeps its value.
    pub fn draw_button(
        &mut self,
        x: usize,
        y: usize,
        width: usize,
        height: usize,
        text: &str,
        text_color: u32,
        background_color: u32,
    )
        requires
            old(self).wf(),
            x <= 90_000,
            y <= 90_000,
            width <= 20_000,
            height <= 20_000,
            text@.len() <= 1000,
        ensures
            final(self).wf(),
            final(self).map == old(self).map,
            final(self).player == old(self).player,
            final(self).state == old(self).state,
            final(self).target_fps == old(self).target_fps,
            final(self).width == old(self).width,
            final(self).height == old(self).height,
            final(self).renderer.wall_texture == old(self).renderer.wall_texture,
            final(self).renderer.floor_texture == old(self).renderer.floor_texture,
            final(self).renderer.sky_color == old(self).renderer.sky_color,
            final(self).renderer.framebuffer.width == old(self).renderer.framebuffer.width,
            final(self).renderer.framebuffer.height == old(self).renderer.framebuffer.height,
            final(self).renderer.framebuffer.buffer@ == Seq::new(
                old(self).renderer.framebuffer.buffer@.len(),
                |j: int|
                    spec_button_pixel(
                        old(self).renderer.framebuffer.buffer@,
                        old(self).renderer.framebuffer.width as int,
                        x as int,
                        y as int,
                        width as int,
                        height as int,
                        text@,
                        text_color,
                        background_color,
                        j,
                    ),
            ),
    {
        let ghost wi = self.renderer.framebuffer.width as int;
        let ghost old_buf = self.renderer.framebuffer.buffer@;
        let mut py: usize = 0;
        while py < height
            invariant
                self.wf(),
                self.map == old(self).map,
                self.player == old(self).player,
                self.state == old(self).state,
                self.target_fps == old(self).target_fps,
                self.width == old(self).width,
                self.height == old(self).height,
                self.renderer.wall_texture == old(self).renderer.wall_texture,
                self.renderer.floor_texture == old(self).renderer.floor_texture,
                self.renderer.sky_color == old(self).renderer.sky_color,
                self.renderer.framebuffer.width == old(self).renderer.framebuffer.width,
                self.renderer.framebuffer.height == old(self).renderer.framebuffer.height,
                self.renderer.framebuffer.buffer@.len() == old_buf.len(),
                wi == old(self).renderer.framebuffer.width as int,
                old_buf == old(self).renderer.framebuffer.buffer@,
                x <= 90_000,
                y <= 90_000,
                width <= 20_000,
                height <= 20_000,
                py <= height,
                forall|j: int|
                    0 <= j < old_buf.len() ==> self.renderer.framebuffer.buffer@[j] == (if x <= j
                        % wi < x + width && y <= j / wi < y + py {
                        background_color
                    } else {
                        old_buf[j]
                    }),
            decreases height - py,
        {
            let mut px: usize = 0;
            while px < width
                invariant
                    self.wf(),
                    self.map == old(self).map,
                    self.player == old(self).player,
                    self.state == old(self).state,
                    self.target_fps == old(self).target_fps,
                    self.width == old(self).width,
                    self.height == old(self).height,
                    self.renderer.wall_texture == old(self).renderer.wall_texture,
                    self.renderer.floor_texture == old(self).renderer.floor_texture,
                    self.renderer.sky_color == old(self).renderer.sky_color,
                    self.renderer.framebuffer.width == old(self).renderer.framebuffer.width,
                    self.renderer.framebuffer.height == old(self).renderer.framebuffer.height,
                    self.renderer.framebuffer.buffer@.len() == old_buf.len(),
                    wi == old(self).renderer.framebuffer.width as int,
                    old_buf == old(self).renderer.framebuffer.buffer@,
                    x <= 90_000,
                    y <= 90_000,
                    width <= 20_000,
                    height <= 20_000,
                    py < height,
                    px <= width,
                    forall|j: int|
                        0 <= j < old_buf.len() ==> self.renderer.framebuffer.buffer@[j] == (if (x
                            <= j % wi < x + width && y <= j / wi < y + py) || (j / wi == y + py
                            && x <= j % wi < x + px) {
                            background_color
                        } else {
                            old_buf[j]
                        }),
                decreases width - px,
            {
                self.renderer.framebuffer.point(x + px, y + py, background_color);
                px = px + 1;
            }
            py = py + 1;
        }
        let ghost filled = self.renderer.framebuffer.buffer@;
        self.draw_text(x + 20, y + 15, text, text_color);
        proof {
            assert(self.renderer.framebuffer.buffer@ =~= Seq::new(
                old_buf.len(),
                |j: int|
                    spec_button_pixel(
                        old_buf,
                        wi,
                        x as int,
                        y as int,
                        width as int,
                        height as int,
                        text@,
                        text_color,
                        background_color,
                        j,
                    ),
            ));
        }
    }

    /// Compose the welcome screen into the framebuffer: a black background,
    /// the level-select prompt and the two level buttons, exactly as
    /// [`spec_menu_screen`] lays them out. Every pixel ends up in one of the
    /// four menu colors.
    pub fn compose_welcome_screen(&mut self)
        requires
            old(self).wf(),
        ensures
            final(self).wf(),
            final(self).map == old(self).map,
            final(self).player == old(self).player,
            final(self).state == old(self).state,
            final(self).target_fps == old(self).target_fps,
            final(self).width == old(self).width,
            final(self).height == old(self).height,
            final(self).renderer.framebuffer.buffer@ == spec_menu_screen(
                old(self).renderer.framebuffer.width as int,
                old(self).renderer.framebuffer.buffer@.len(),
                "WELCOME SELECCIONE UN NIVEL"@,
            ),
            forall|j: int|
                0 <= j < final(self).renderer.framebuffer.buffer@.len() ==> final(self).renderer.framebuffer.buffer@[j] == MENU_CLEAR_COLOR || final(self).renderer.framebuffer.buffer@[j] == MENU_TEXT_COLOR || final(self).renderer.framebuffer.buffer@[j] == BUTTON_1_COLOR || final(self).renderer.framebuffer.buffer@[j] == BUTTON_2_COLOR,
    {
        proof {
            reveal_strlit("WELCOME SELECCIONE UN NIVEL");
            reveal_strlit("1");
            reveal_strlit("2");
        }
        self.renderer.framebuffer.clear(MENU_CLEAR_COLOR);
        self.draw_text(100, 50, "WELCOME SELECCIONE UN NIVEL", MENU_TEXT_COLOR);
        self.draw_button(100, 150, 200, 50, "1", MENU_TEXT_COLOR, BUTTON_1_COLOR);
        self.draw_button(100, 250, 200, 50, "2", MENU_TEXT_COLOR, BUTTON_2_COLOR);
        proof {
            assert(self.renderer.framebuffer.buffer@ =~= spec_menu_screen(
                old(self).renderer.framebuffer.width as int,
                old(self).renderer.framebuffer.buffer@.len(),
                "WELCOME SELECCIONE UN NIVEL"@,
            ));
        }
    }

    /// Compose the success screen into the framebuffer: a black background,
    /// the completion message and the two level buttons, exactly as
    /// [`spec_menu_screen`] lays them out. Every pixel ends up in one of the
    /// four menu colors.
    pub fn compose_success_screen(&mut self)
        requires
            old(self).wf(),
        ensures
            final(self).wf(),
            final(self).map == old(self).map,
            final(self).player == old(self).player,
            final(self).state == old(self).state,
            final(self).target_fps == old(self).target_fps,
            final(self).width == old(self).width,
            final(self).height == old(self).height,
            final(self).renderer.framebuffer.buffer@ == spec_menu_screen(
                old(self).renderer.framebuffer.width as int,
                old(self).renderer.framebuffer.buffer@.len(),
                "!FELICIDADES! NIVEL COMPLETADO"@,
            ),
            forall|j: int|
                0 <= j < final(self).renderer.framebuffer.buffer@.len() ==> final(self).renderer.framebuffer.buffer@[j] == MENU_CLEAR_COLOR || final(self).renderer.framebuffer.buffer@[j] == MENU_TEXT_COLOR || final(self).renderer.framebuffer.buffer@[j] == BUTTON_1_COLOR || final(self).renderer.framebuffer.buffer@[j] == BUTTON_2_COLOR,
    {
        proof {
            reveal_strlit("!FELICIDADES! NIVEL COMPLETADO");
            reveal_strlit("1");
            reveal_strlit("2");
        }
        self.renderer.framebuffer.clear(MENU_CLEAR_COLOR);
        self.draw_text(100, 50, "!FELICIDADES! NIVEL COMPLETADO", MENU_TEXT_COLOR);
        self.draw_button(100, 150, 200, 50, "1", MENU_TEXT_COLOR, BUTTON_1_COLOR);
        self.draw_button(100, 250, 200, 50, "2", MENU_TEXT_COLOR, BUTTON_2_COLOR);
        proof {
            assert(self.renderer.framebuffer.buffer@ =~= spec_menu_screen(
                old(self).renderer.framebuffer.width as int,
                old(self).renderer.framebuffer.buffer@.len(),
                "!FELICIDADES! NIVEL COMPLETADO"@,
            ));
        }
    }

    /// The mouse test of the menu buttons: whether a fixed-point mouse
    /// position lies on the button rectangle, all edges inclusive.
    pub fn is_inside_button(
        &self,
        mouse_x: i64,
        mouse_y: i64,
        button_x: usize,
        button_y: usize,
        button_width: usize,
        button_height: usize,
    ) -> (r: bool)
        requires
            button_x + button_width <= 100_000,
            button_y + button_height <= 100_000,
        ensures
            r == spec_inside_button(
                mouse_x as int,
                mouse_y as int,
                button_x as int,
                button_y as int,
                button_width as int,
                button_height as int,
            ),
    {
        mouse_x >= (button_x as i64) * FP && mouse_x <= ((button_x + button_width) as i64) * FP
            && mouse_y >= (button_y as i64) * FP && mouse_y <= ((button_y + button_height) as i64)
            * FP
    }

    /// A click on the welcome screen: load the level whose button the mouse
    /// is on, if any, and enter it. The welcome screen leaves the player
    /// where it was.
    pub fn select_level_from_menu(&mut self, mouse_x: i64, mouse_y: i64)
        requires
            old(self).wf(),
        ensures
            final(self).wf(),
            spec_inside_button(mouse_x as int, mouse_y as int, 100, 150, 200, 50)
                ==> is_level_1(final(self).map) && final(self).state == GameState::Level1,
            !spec_inside_button(mouse_x as int, mouse_y as int, 100, 150, 200, 50)
                && spec_inside_button(mouse_x as int, mouse_y as int, 100, 250, 200, 50)
                ==> is_level_2(final(self).map) && final(self).state == GameState::Level2,
            !spec_inside_button(mouse_x as int, mouse_y as int, 100, 150, 200, 50)
                && !spec_inside_button(mouse_x as int, mouse_y as int, 100, 250, 200, 50)
                ==> *final(self) == *old(self),
            final(self).player == old(self).player,
            final(self).renderer == old(self).renderer,
            final(self).width == old(self).width && final(self).height == old(self).height,
    {
        if self.is_inside_button(mouse_x, mouse_y, 100, 150, 200, 50) {
            self.map = GridMap::new_level_1();
            self.state = GameState::Level1;
        } else if self.is_inside_button(mouse_x, mouse_y, 100, 250, 200, 50) {
            self.map = GridMap::new_level_2();
            self.state = GameState::Level2;
        }
    }

    /// A click on the success screen: load the chosen level, put the player
    /// back at its start, and enter it.
    pub fn select_level_after_success(&mut self, mouse_x: i64, mouse_y: i64)
        requires
            old(self).wf(),
        ensures
            final(self).wf(),
            spec_inside_button(mouse_x as int, mouse_y as int, 100, 150, 200, 50)
                ==> is_level_1(final(self).map) && final(self).state == GameState::Level1
                && final(self).player.x == final(self).map.start_x
                && final(self).player.y == final(self).map.start_y,
            !spec_inside_button(mouse_x as int, mouse_y as int, 100, 150, 200, 50)
                && spec_inside_button(mouse_x as int, mouse_y as int, 100, 250, 200, 50)
                ==> is_level_2(final(self).map) && final(self).state == GameState::Level2
                && final(self).player.x == final(self).map.start_x
                && final(self).player.y == final(self).map.start_y,
            !spec_inside_button(mouse_x as int, mouse_y as int, 100, 150, 200, 50)
                && !spec_inside_button(mouse_x as int, mouse_y as int, 100, 250, 200, 50)
                ==> *final(self) == *old(self),
            final(self).renderer == old(self).renderer,
            final(self).width == old(self).width && final(self).height == old(self).height,
    {
        if self.is_inside_button(mouse_x, mouse_y, 100, 150, 200, 50) {
            self.map = GridMap::new_level_1();
            self.player.x = self.map.start_x;
            self.player.y = self.map.start_y;
            self.state = GameState::Level1;
        } else if self.is_inside_button(mouse_x, mouse_y, 100, 250, 200, 50) {
            self.map = GridMap::new_level_2();
            self.player.x = self.map.start_x;
            self.player.y = self.map.start_y;
            self.state = GameState::Level2;
        }
    }
}

} // verus!

