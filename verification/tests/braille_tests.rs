use braillify::braille::region_braille;
use braillify::image_data::{Image, Pixel};
use braillify::matrix::{evaluate, evaluate_parallel, BoolMatrix};
use braillify::render::{render, render_image};
use braillify::rule::OnOffRule;

fn matrix_from_rows(rows: Vec<Vec<bool>>) -> BoolMatrix {
    let height = rows.len() as u32;
    let width = if rows.is_empty() { 0 } else { rows[0].len() as u32 };
    BoolMatrix { width, height, rows }
}

fn uniform_image(width: u32, height: u32, p: Pixel) -> Image {
    let mut pixels = Vec::new();
    for _ in 0..width * height {
        pixels.push(p);
    }
    Image::new(width, height, pixels).unwrap()
}

#[test]
fn all_off_cell_is_base_glyph() {
    let m = matrix_from_rows(vec![vec![false; 2]; 4]);
    assert_eq!(region_braille(0, 0, &m), 0x2800);
}

#[test]
fn all_on_cell_is_last_glyph() {
    let m = matrix_from_rows(vec![vec![true; 2]; 4]);
    assert_eq!(region_braille(0, 0, &m), 0x28FF);
}

#[test]
fn each_dot_has_its_own_weight() {
    // dot offsets (dy, dx) in bit order, weight 1 << bit
    let offsets = [
        (0, 0),
        (1, 0),
        (2, 0),
        (0, 1),
        (1, 1),
        (2, 1),
        (3, 0),
        (3, 1),
    ];
    for (bit, &(dy, dx)) in offsets.iter().enumerate() {
        let mut rows = vec![vec![false; 2]; 4];
        rows[dy][dx] = true;
        let m = matrix_from_rows(rows);
        assert_eq!(region_braille(0, 0, &m), 0x2800 + (1 << bit));
    }
}

#[test]
fn out_of_bounds_samples_are_off() {
    // a 1x1 grid: only dot 0 of cell (0, 0) is backed by a real entry
    let m = matrix_from_rows(vec![vec![true]]);
    assert_eq!(region_braille(0, 0, &m), 0x2801);
    assert_eq!(region_braille(1, 0, &m), 0x2800);
    assert_eq!(region_braille(0, 1, &m), 0x2800);
}

#[test]
fn parallel_and_sequential_grids_agree() {
    let mut pixels = Vec::new();
    for i in 0..35u32 {
        let v = (i * 13 % 251) as u8;
        pixels.push(Pixel::new(v, v / 2, v / 3, 255));
    }
    let img = Image::new(7, 5, pixels).unwrap();
    for rule in [
        OnOffRule::PxThreshold(200),
        OnOffRule::InvertedPxThreshold(150),
        OnOffRule::Border(30, 2),
    ] {
        let seq = evaluate(&img, &rule);
        let par = evaluate_parallel(&img, &rule);
        assert_eq!(seq.rows, par.rows);
        assert_eq!(seq.width, par.width);
        assert_eq!(seq.height, par.height);
    }
}

#[test]
fn parallel_row_holds_the_decisions() {
    // would fail if the parallel evaluation handed anything but the
    // per-column decisions back, or permuted them
    let mut pixels = Vec::new();
    pixels.push(Pixel::new(0, 0, 0, 0));
    pixels.push(Pixel::new(255, 255, 255, 255));
    pixels.push(Pixel::new(0, 0, 0, 0));
    let img = Image::new(3, 1, pixels).unwrap();
    let m = evaluate_parallel(&img, &OnOffRule::PxThreshold(100));
    assert_eq!(m.rows, vec![vec![false, true, false]]);
}

#[test]
fn monochrome_two_by_four_renders_full_cell() {
    // every pixel on under Threshold(0): the first cell is the full
    // glyph, the extra partial cells past the edge stay blank
    let img = uniform_image(2, 4, Pixel::new(0, 0, 0, 0));
    let lines = render_image(&img, &OnOffRule::PxThreshold(0));
    assert_eq!(lines.len(), 2);
    let first: Vec<char> = lines[0].chars().collect();
    assert_eq!(first, vec!['\u{28FF}', '\u{2800}']);
    let second: Vec<char> = lines[1].chars().collect();
    assert_eq!(second, vec!['\u{2800}', '\u{2800}']);
}

#[test]
fn single_dark_pixel_renders_blank_cell() {
    // channel sum 40 stays below threshold 100; the 7 other sampled
    // positions are out of bounds, so the one cell is the base glyph
    let img = uniform_image(1, 1, Pixel::new(10, 10, 10, 10));
    let lines = render_image(&img, &OnOffRule::PxThreshold(100));
    assert_eq!(lines.len(), 1);
    assert_eq!(lines[0], "\u{2800}");
}

#[test]
fn render_matches_cellwise_codes() {
    let rows = vec![
        vec![true, false, true],
        vec![false, true, false],
    ];
    let m = matrix_from_rows(rows);
    let lines = render(&m);
    // height 2 -> 1 cell row; width 3 -> 2 cell columns
    assert_eq!(lines.len(), 1);
    let chars: Vec<char> = lines[0].chars().collect();
    assert_eq!(chars.len(), 2);
    assert_eq!(chars[0] as u32, region_braille(0, 0, &m));
    assert_eq!(chars[1] as u32, region_braille(1, 0, &m));
}
