use crate::braille::{region_braille, region_code};
use crate::image_data::Image;
use crate::matrix::{decision_grid, evaluate_parallel, lemma_evaluates_decision_grid, BoolMatrix};
use crate::rule::OnOffRule;
use vstd::prelude::*;

verus! {

/// Relies on char::from_u32: for a value that is no surrogate and at most
/// 0x10FFFF it returns Some of the character with that scalar value.
#[verifier::external_body]
fn char_from_code(v: u32) -> (c: char)
    requires
        v < 0xD800 || 0xE000 <= v <= 0x10FFFF,
    ensures
        c as u32 == v,
{
    char::from_u32(v).unwrap()
}

/// Relies on String::push: it appends exactly the given character.
#[verifier::external_body]
fn push_char(s: &mut String, c: char)
    ensures
        final(s)@ == old(s)@.push(c),
{
    s.push(c);
}

/// Every text line a grid renders to: line `cy` holds, for each cell
/// column `cx`, the glyph of the cell's braille code point.
pub open spec fn rendered_lines(lines: Seq<Seq<char>>, grid: Seq<Seq<bool>>, width: int, height: int) -> bool {
    &&& lines.len() == height / 4 + 1
    &&& forall|cy: int| 0 <= cy < lines.len() ==> lines[cy].len() == width / 2 + 1
    &&& forall|cy: int, cx: int|
        0 <= cy < lines.len() && 0 <= cx < lines[cy].len() ==> (lines[cy][cx] as u32) as int
            == region_code(grid, cx, cy)
}

/// Renders one row of cells into a line of braille glyphs.
fn render_line(m: &BoolMatrix, cy: u32, cells: u32) -> (line: String)
    requires
        m.wf(),
    ensures
        line@.len() == cells,
        forall|cx: int|
            0 <= cx < line@.len() ==> (line@[cx] as u32) as int == region_code(
                m.grid(),
                cx,
                cy as int,
            ),
{
    let mut line = String::new();
    let mut cx: u32 = 0;
    while cx < cells
        invariant
            m.wf(),
            cx <= cells,
            line@.len() == cx,
            forall|j: int|
                0 <= j < line@.len() ==> (line@[j] as u32) as int == region_code(
                    m.grid(),
                    j,
                    cy as int,
                ),
        decreases cells - cx,
    {
        let code = region_braille(cx, cy, m);
        let glyph = char_from_code(code);
        push_char(&mut line, glyph);
        cx = cx + 1;
    }
    line
}

/// Walks the decision grid in 4-row, 2-column cells and renders each cell
/// row into one line of text. One extra partial cell row and column run
/// past the grid's edge, their missing dots off, so dimensions that are
/// no multiple of the cell size are not truncated.
pub fn render(m: &BoolMatrix) -> (lines: Vec<String>)
    requires
        m.wf(),
    ensures
        rendered_lines(
            lines@.map_values(|l: String| l@),
            m.grid(),
            m.width as int,
            m.height as int,
        ),
{
    let cell_rows: u32 = m.height() / 4 + 1;
    let cell_cols: u32 = m.width() / 2 + 1;
    let mut lines: Vec<String> = Vec::new();
    let mut cy: u32 = 0;
    while cy < cell_rows
        invariant
            m.wf(),
            cell_rows == m.height / 4 + 1,
            cell_cols == m.width / 2 + 1,
            cy <= cell_rows,
            lines@.len() == cy,
            forall|r: int| 0 <= r < lines@.len() ==> lines@[r]@.len() == cell_cols,
            forall|r: int, cx: int|
                0 <= r < lines@.len() && 0 <= cx < lines@[r]@.len() ==> (lines@[r]@[cx] as u32)
                    as int == region_code(m.grid(), cx, r),
        decreases cell_rows - cy,
    {
        let line = render_line(m, cy, cell_cols);
        lines.push(line);
        cy = cy + 1;
    }
    proof {
        assert forall|r: int|
            0 <= r < lines@.len() implies lines@.map_values(|l: String| l@)[r] == lines@[r]@ by {}
    }
    lines
}

/// Decides the whole image under the rule, each row's columns in
/// parallel, and renders the decision grid into lines of braille text.
pub fn render_image(img: &Image, rule: &OnOffRule) -> (lines: Vec<String>)
    requires
        img.wf(),
    ensures
        rendered_lines(
            lines@.map_values(|l: String| l@),
            decision_grid(*img, *rule),
            img.spec_width(),
            img.spec_height(),
        ),
{
    let m = evaluate_parallel(img, rule);
    proof {
        lemma_evaluates_decision_grid(m, *img, *rule);
    }
    render(&m)
}

} // verus!
