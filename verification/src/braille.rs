use crate::matrix::BoolMatrix;
use vstd::prelude::*;

verus! {

/// Code point of the empty braille glyph, the base of the braille block.
pub const OFF_0: u32 = 0x2800;

/// The (dy, dx) offset of dot `i` within a 2-column, 4-row cell,
/// in bit-index order 0..8.
pub open spec fn dot_offset(i: int) -> (int, int) {
    if i == 0 {
        (0, 0)
    } else if i == 1 {
        (1, 0)
    } else if i == 2 {
        (2, 0)
    } else if i == 3 {
        (0, 1)
    } else if i == 4 {
        (1, 1)
    } else if i == 5 {
        (2, 1)
    } else if i == 6 {
        (3, 0)
    } else {
        (3, 1)
    }
}

/// The weight that dot `i` contributes when set: two to the power `i`.
pub open spec fn dot_weight(i: int) -> int {
    if i == 0 {
        1
    } else if i == 1 {
        2
    } else if i == 2 {
        4
    } else if i == 3 {
        8
    } else if i == 4 {
        16
    } else if i == 5 {
        32
    } else if i == 6 {
        64
    } else {
        128
    }
}

/// The braille code point for eight dot states: the base glyph plus the
/// weight of every set dot.
pub open spec fn braille_code(dots: Seq<bool>) -> int
    recommends
        dots.len() == 8,
{
    0x2800 + (if dots[0] {
        1int
    } else {
        0int
    }) + (if dots[1] {
        2int
    } else {
        0int
    }) + (if dots[2] {
        4int
    } else {
        0int
    }) + (if dots[3] {
        8int
    } else {
        0int
    }) + (if dots[4] {
        16int
    } else {
        0int
    }) + (if dots[5] {
        32int
    } else {
        0int
    }) + (if dots[6] {
        64int
    } else {
        0int
    }) + (if dots[7] {
        128int
    } else {
        0int
    })
}

/// Packs eight dot states into one braille code point.
pub fn braille_from_dots(dots: [bool; 8]) -> (code: u32)
    ensures
        code == braille_code(dots@),
        0x2800 <= code <= 0x28FF,
{
    let mut code: u32 = OFF_0;
    if dots[0] {
        code = code + 1;
    }
    if dots[1] {
        code = code + 2;
    }
    if dots[2] {
        code = code + 4;
    }
    if dots[3] {
        code = code + 8;
    }
    if dots[4] {
        code = code + 16;
    }
    if dots[5] {
        code = code + 32;
    }
    if dots[6] {
        code = code + 64;
    }
    if dots[7] {
        code = code + 128;
    }
    code
}

/// The state of a position in a grid of rows of booleans: off whenever
/// the position is outside the grid.
pub open spec fn grid_sample(grid: Seq<Seq<bool>>, row: int, col: int) -> bool {
    &&& 0 <= row < grid.len()
    &&& 0 <= col < grid[row].len()
    &&& grid[row][col]
}

/// The eight dot states of the cell at cell coordinate (x, y): dot `i`
/// samples the grid at the cell's top-left pixel plus the dot's offset.
pub open spec fn cell_dots(grid: Seq<Seq<bool>>, x: int, y: int) -> Seq<bool> {
    Seq::new(8, |i: int| grid_sample(grid, y * 4 + dot_offset(i).0, x * 2 + dot_offset(i).1))
}

/// The braille code point of the cell at cell coordinate (x, y).
pub open spec fn region_code(grid: Seq<Seq<bool>>, x: int, y: int) -> int {
    braille_code(cell_dots(grid, x, y))
}

/// Packs the 2-column, 4-row block of grid entries at cell coordinate
/// (x, y) into one braille code point; positions past the grid's edge
/// count as off.
pub fn region_braille(x: u32, y: u32, m: &BoolMatrix) -> (code: u32)
    requires
        m.wf(),
    ensures
        code == region_code(m.grid(), x as int, y as int),
        0x2800 <= code <= 0x28FF,
{
    let base_row: u64 = (y as u64) * 4;
    let base_col: u64 = (x as u64) * 2;
    let d0 = m.lookup(base_row, base_col);
    let d1 = m.lookup(base_row + 1, base_col);
    let d2 = m.lookup(base_row + 2, base_col);
    let d3 = m.lookup(base_row, base_col + 1);
    let d4 = m.lookup(base_row + 1, base_col + 1);
    let d5 = m.lookup(base_row + 2, base_col + 1);
    let d6 = m.lookup(base_row + 3, base_col);
    let d7 = m.lookup(base_row + 3, base_col + 1);
    let dots: [bool; 8] = [d0, d1, d2, d3, d4, d5, d6, d7];
    proof {
        crate::matrix::lemma_sample_is_grid_sample(*m);
        assert(dots@ =~= cell_dots(m.grid(), x as int, y as int));
    }
    braille_from_dots(dots)
}

/// A cell's code point depends on nothing but its eight sampled states:
/// two grids that agree at the cell's eight dot positions give the cell
/// the same code point, however their other entries differ.
pub proof fn lemma_region_code_depends_on_dots(
    g1: Seq<Seq<bool>>,
    g2: Seq<Seq<bool>>,
    x: int,
    y: int,
)
    requires
        forall|i: int| 0 <= i < 8 ==> cell_dots(g1, x, y)[i] == cell_dots(g2, x, y)[i],
    ensures
        region_code(g1, x, y) == region_code(g2, x, y),
{
    lemma_braille_code_extensional(cell_dots(g1, x, y), cell_dots(g2, x, y));
}

/// The braille code point always lands in the braille block.
pub proof fn lemma_braille_code_in_block(dots: Seq<bool>)
    ensures
        0x2800 <= braille_code(dots) <= 0x28FF,
{
}

/// The code point depends on nothing but the eight dot states: two dot
/// sequences equal at every position encode to the same code point.
pub proof fn lemma_braille_code_extensional(dots1: Seq<bool>, dots2: Seq<bool>)
    requires
        dots1.len() == 8,
        dots2.len() == 8,
        forall|i: int| 0 <= i < 8 ==> dots1[i] == dots2[i],
    ensures
        braille_code(dots1) == braille_code(dots2),
{
}

/// Flipping exactly dot `i` moves the code point by exactly the weight of
/// dot `i`: up when the dot turns on, down when it turns off.
pub proof fn lemma_braille_code_flip(dots: Seq<bool>, i: int)
    requires
        dots.len() == 8,
        0 <= i < 8,
    ensures
        braille_code(dots.update(i, !dots[i])) == braille_code(dots) + (if dots[i] {
            -dot_weight(i)
        } else {
            dot_weight(i)
        }),
{
    let flipped = dots.update(i, !dots[i]);
    assert(forall|j: int| 0 <= j < 8 && j != i ==> flipped[j] == dots[j]);
    assert(flipped[i] == !dots[i]);
}

/// All dots off encodes to exactly the base glyph.
pub proof fn lemma_braille_code_all_off(dots: Seq<bool>)
    requires
        dots.len() == 8,
        forall|i: int| 0 <= i < 8 ==> !dots[i],
    ensures
        braille_code(dots) == 0x2800,
{
}

/// All dots on encodes to exactly the last glyph of the block.
pub proof fn lemma_braille_code_all_on(dots: Seq<bool>)
    requires
        dots.len() == 8,
        forall|i: int| 0 <= i < 8 ==> dots[i],
    ensures
        braille_code(dots) == 0x28FF,
{
}

} // verus!
