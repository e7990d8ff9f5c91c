//! The tile-grid map: a rectangular grid of cells ('#' wall, ' ' open,
//! 'E' goal marker) with a start and a goal position in fixed-point world
//! coordinates. Border cells are walls, so a ray march or a movement check
//! always meets a wall before leaving the grid.
use vstd::prelude::*;

use crate::fixed::{cell_index, spec_cell_index, FP};

verus! {

/// The grid of the first built-in level.
pub open spec fn level_1_rows() -> Seq<Seq<char>> {
    seq![
        seq!['#', '#', '#', '#', '#', '#', '#', '#', '#', '#'],
        seq!['#', ' ', ' ', ' ', '#', ' ', ' ', ' ', ' ', '#'],
        seq!['#', ' ', '#', '#', '#', ' ', '#', ' ', '#', '#'],
        seq!['#', ' ', ' ', ' ', ' ', ' ', ' ', ' ', ' ', '#'],
        seq!['#', '#', '#', ' ', '#', '#', ' ', '#', ' ', '#'],
        seq!['#', ' ', ' ', ' ', '#', ' ', ' ', '#', ' ', '#'],
        seq!['#', ' ', '#', ' ', '#', '#', ' ', '#', ' ', '#'],
        seq!['#', ' ', '#', ' ', ' ', ' ', ' ', ' ', ' ', '#'],
        seq!['#', ' ', ' ', ' ', '#', ' ', ' ', ' ', 'E', '#'],
        seq!['#', '#', '#', '#', '#', '#', '#', '#', '#', '#'],
    ]
}

/// The grid of the second built-in level.
pub open spec fn level_2_rows() -> Seq<Seq<char>> {
    seq![
        seq!['#', '#', '#', '#', '#', '#', '#', '#', '#', '#'],
        seq!['#', ' ', ' ', ' ', ' ', ' ', ' ', ' ', ' ', '#'],
        seq!['#', ' ', '#', '#', '#', ' ', '#', '#', ' ', '#'],
        seq!['#', ' ', '#', ' ', ' ', ' ', '#', ' ', ' ', '#'],
        seq!['#', ' ', '#', ' ', '#', '#', ' ', '#', ' ', '#'],
        seq!['#', ' ', ' ', ' ', '#', ' ', ' ', ' ', ' ', '#'],
        seq!['#', '#', '#', ' ', '#', ' ', '#', '#', '#', '#'],
        seq!['#', ' ', ' ', ' ', ' ', ' ', ' ', ' ', ' ', '#'],
        seq!['#', ' ', ' ', ' ', '#', ' ', ' ', ' ', 'E', '#'],
        seq!['#', '#', '#', '#', '#', '#', '#', '#', '#', '#'],
    ]
}

/// Whether a map is exactly the first built-in level.
pub open spec fn is_level_1(m: GridMap) -> bool {
    &&& m.wf()
    &&& m.width == 10
    &&& m.height == 10
    &&& m.grid.deep_view() == level_1_rows()
    &&& m.start_x == FP && m.start_y == FP
    &&& m.end_x == 8 * FP && m.end_y == 8 * FP
}

/// Whether a map is exactly the second built-in level.
pub open spec fn is_level_2(m: GridMap) -> bool {
    &&& m.wf()
    &&& m.width == 10
    &&& m.height == 10
    &&& m.grid.deep_view() == level_2_rows()
    &&& m.start_x == FP && m.start_y == FP
    &&& m.end_x == 8 * FP && m.end_y == 8 * FP
}

pub struct GridMap {
    pub width: usize,
    pub height: usize,
    pub grid: Vec<Vec<char>>,
    pub start_x: i64,
    pub start_y: i64,
    pub end_x: i64,
    pub end_y: i64,
}

impl GridMap {
    /// Grid dimensions match the row and column counts, both border rows and
    /// border columns are walls, the dimensions are small enough for every
    /// pixel and coordinate computation to stay in range, and the start and
    /// goal positions lie inside the grid.
    pub open spec fn wf(self) -> bool {
        &&& self.grid.len() == self.height
        &&& forall|r: int|
            0 <= r < self.height ==> (#[trigger] self.grid@[r]).len() == self.width
        &&& 2 <= self.width <= 1000
        &&& 2 <= self.height <= 1000
        &&& forall|r: int|
            0 <= r < self.height ==> #[trigger] self.grid@[r]@[0] == '#'
                && self.grid@[r]@[self.width - 1] == '#'
        &&& forall|c: int|
            0 <= c < self.width ==> #[trigger] self.grid@[0]@[c] == '#'
                && self.grid@[self.height - 1]@[c] == '#'
        &&& 0 <= self.start_x <= self.width * FP
        &&& 0 <= self.start_y <= self.height * FP
        &&& 0 <= self.end_x <= self.width * FP
        &&& 0 <= self.end_y <= self.height * FP
    }

    /// The first built-in level: a 10 x 10 maze with start cell (1, 1) and
    /// goal cell (8, 8).
    pub fn new_level_1() -> (m: GridMap)
        ensures
            is_level_1(m),
    {
        let grid: Vec<Vec<char>> = vec![
            vec!['#', '#', '#', '#', '#', '#', '#', '#', '#', '#'],
            vec!['#', ' ', ' ', ' ', '#', ' ', ' ', ' ', ' ', '#'],
            vec!['#', ' ', '#', '#', '#', ' ', '#', ' ', '#', '#'],
            vec!['#', ' ', ' ', ' ', ' ', ' ', ' ', ' ', ' ', '#'],
            vec!['#', '#', '#', ' ', '#', '#', ' ', '#', ' ', '#'],
            vec!['#', ' ', ' ', ' ', '#', ' ', ' ', '#', ' ', '#'],
            vec!['#', ' ', '#', ' ', '#', '#', ' ', '#', ' ', '#'],
            vec!['#', ' ', '#', ' ', ' ', ' ', ' ', ' ', ' ', '#'],
            vec!['#', ' ', ' ', ' ', '#', ' ', ' ', ' ', 'E', '#'],
            vec!['#', '#', '#', '#', '#', '#', '#', '#', '#', '#'],
        ];
        let m = GridMap {
            width: 10,
            height: 10,
            grid,
            start_x: FP,
            start_y: FP,
            end_x: 8 * FP,
            end_y: 8 * FP,
        };
        proof {
            assert(m.grid.deep_view() =~~= level_1_rows());
        }
        m
    }

    /// The second built-in level: a 10 x 10 maze with start cell (1, 1) and
    /// goal cell (8, 8).
    pub fn new_level_2() -> (m: GridMap)
        ensures
            is_level_2(m),
    {
        let grid: Vec<Vec<char>> = vec![
            vec!['#', '#', '#', '#', '#', '#', '#', '#', '#', '#'],
            vec!['#', ' ', ' ', ' ', ' ', ' ', ' ', ' ', ' ', '#'],
            vec!['#', ' ', '#', '#', '#', ' ', '#', '#', ' ', '#'],
            vec!['#', ' ', '#', ' ', ' ', ' ', '#', ' ', ' ', '#'],
            vec!['#', ' ', '#', ' ', '#', '#', ' ', '#', ' ', '#'],
            vec!['#', ' ', ' ', ' ', '#', ' ', ' ', ' ', ' ', '#'],
            vec!['#', '#', '#', ' ', '#', ' ', '#', '#', '#', '#'],
            vec!['#', ' ', ' ', ' ', ' ', ' ', ' ', ' ', ' ', '#'],
            vec!['#', ' ', ' ', ' ', '#', ' ', ' ', ' ', 'E', '#'],
            vec!['#', '#', '#', '#', '#', '#', '#', '#', '#', '#'],
        ];
        let m = GridMap {
            width: 10,
            height: 10,
            grid,
            start_x: FP,
            start_y: FP,
            end_x: 8 * FP,
            end_y: 8 * FP,
        };
        proof {
            assert(m.grid.deep_view() =~~= level_2_rows());
        }
        m
    }

    /// What `is_wall` returns: out-of-range cell indices count as wall,
    /// otherwise the cell must hold '#'.
    pub open spec fn spec_is_wall(self, x: int, y: int) -> bool {
        let xi = spec_cell_index(x);
        let yi = spec_cell_index(y);
        if xi >= self.width || yi >= self.height {
            true
        } else {
            self.grid@[yi]@[xi] == '#'
        }
    }

    /// True iff the fixed-point position `(x, y)` lies in a wall cell, where
    /// everything outside the grid is treated as wall.
    pub fn is_wall(&self, x: i64, y: i64) -> (r: bool)
        requires
            self.wf(),
        ensures
            r == self.spec_is_wall(x as int, y as int),
    {
        let xi = cell_index(x);
        let yi = cell_index(y);

        if xi >= self.width as i64 || yi >= self.height as i64 {
            return true;
        }

        self.grid[yi as usize][xi as usize] == '#'
    }

    /// True iff the position `(x, y)` falls in the same grid cell as the goal
    /// position. This cell test is independent of the distance-based test the
    /// game driver uses; both are kept deliberately.
    pub fn is_end_position(&self, x: i64, y: i64) -> (r: bool)
        requires
            self.wf(),
        ensures
            r == (spec_cell_index(x as int) == spec_cell_index(self.end_x as int)
                && spec_cell_index(y as int) == spec_cell_index(self.end_y as int)),
    {
        cell_index(x) == cell_index(self.end_x) && cell_index(y) == cell_index(self.end_y)
    }
}

/// A position that is not in a wall lies strictly inside the walled border of
/// a well-formed map: at least one world unit from each edge.
pub proof fn lemma_open_position_inside(m: GridMap, x: int, y: int)
    requires
        m.wf(),
        !m.spec_is_wall(x, y),
    ensures
        FP <= x < (m.width - 1) * FP,
        FP <= y < (m.height - 1) * FP,
{
    let xi = spec_cell_index(x);
    let yi = spec_cell_index(y);
    assert(xi < m.width && yi < m.height);
    assert(m.grid@[yi]@[0] == '#' && m.grid@[yi]@[m.width - 1] == '#');
    assert(m.grid@[0]@[xi] == '#' && m.grid@[m.height - 1]@[xi] == '#');
    assert(xi >= 1 && yi >= 1);
    assert(x >= 0 && y >= 0);
    assert(xi <= m.width - 2 && yi <= m.height - 2);
    assert(x >= FP) by {
        if x < FP {
            vstd::arithmetic::div_mod::lemma_basic_div(x, FP as int);
        }
    }
    assert(y >= FP) by {
        if y < FP {
            vstd::arithmetic::div_mod::lemma_basic_div(y, FP as int);
        }
    }
    assert(x < (m.width - 1) * FP) by {
        vstd::arithmetic::div_mod::lemma_fundamental_div_mod(x, FP as int);
        vstd::arithmetic::div_mod::lemma_mod_division_less_than_divisor(x, FP as int);
        assert(FP * xi <= FP * (m.width - 2)) by (nonlinear_arith)
            requires
                xi <= m.width - 2,
        ;
    }
    assert(y < (m.height - 1) * FP) by {
        vstd::arithmetic::div_mod::lemma_fundamental_div_mod(y, FP as int);
        vstd::arithmetic::div_mod::lemma_mod_division_less_than_divisor(y, FP as int);
        assert(FP * yi <= FP * (m.height - 2)) by (nonlinear_arith)
            requires
                yi <= m.height - 2,
        ;
    }
}

/// Every position outside the grid area resolves to a wall: coordinates at or
/// beyond an edge land in an out-of-range cell, and negative coordinates land
/// in a border cell, which a well-formed map keeps walled.
pub proof fn lemma_outside_grid_is_wall(m: GridMap, x: int, y: int)
    requires
        m.wf(),
        x < 0 || x >= m.width * FP || y < 0 || y >= m.height * FP,
    ensures
        m.spec_is_wall(x, y),
{
    let xi = spec_cell_index(x);
    let yi = spec_cell_index(y);
    if x >= m.width * FP {
        assert(xi >= m.width) by {
            vstd::arithmetic::div_mod::lemma_div_is_ordered(m.width * FP, x, FP as int);
            vstd::arithmetic::div_mod::lemma_div_by_multiple(m.width as int, FP as int);
        }
    } else if y >= m.height * FP {
        assert(yi >= m.height) by {
            vstd::arithmetic::div_mod::lemma_div_is_ordered(m.height * FP, y, FP as int);
            vstd::arithmetic::div_mod::lemma_div_by_multiple(m.height as int, FP as int);
        }
    } else if xi < m.width && yi < m.height {
        // A negative coordinate saturates to cell index 0, a border cell.
        assert(x < 0 ==> xi == 0);
        assert(y < 0 ==> yi == 0);
    }
}

} // verus!
