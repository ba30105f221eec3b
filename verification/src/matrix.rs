use crate::image_data::Image;
use crate::rule::{is_on_spec, OnOffRule};
use rayon::iter::{IndexedParallelIterator, IntoParallelIterator, ParallelIterator};
use vstd::prelude::*;

verus! {

/// A dense height-by-width grid of on/off decisions, one row per image row.
pub struct BoolMatrix {
    pub width: u32,
    pub height: u32,
    pub rows: Vec<Vec<bool>>,
}

impl BoolMatrix {
    /// One row per image row, each holding one entry per column.
    pub open spec fn wf(self) -> bool {
        &&& self.rows@.len() == self.height
        &&& forall|y: int| 0 <= y < self.rows@.len() ==> self.rows@[y]@.len() == self.width
    }

    /// The grid as a sequence of rows of booleans.
    pub open spec fn grid(self) -> Seq<Seq<bool>> {
        self.rows@.map_values(|r: Vec<bool>| r@)
    }

    /// The entry at an in-range position.
    pub open spec fn at(self, row: int, col: int) -> bool
        recommends
            self.wf(),
            0 <= row < self.height,
            0 <= col < self.width,
    {
        self.rows@[row]@[col]
    }

    /// The entry at a position, off when the position is out of range.
    pub open spec fn sample(self, row: int, col: int) -> bool {
        &&& 0 <= row < self.height
        &&& 0 <= col < self.width
        &&& self.at(row, col)
    }

    pub fn width(&self) -> (w: u32)
        ensures
            w == self.width,
    {
        self.width
    }

    pub fn height(&self) -> (h: u32)
        ensures
            h == self.height,
    {
        self.height
    }

    /// Looks an entry up, off when the position is out of range.
    pub fn lookup(&self, row: u64, col: u64) -> (r: bool)
        requires
            self.wf(),
        ensures
            r == self.sample(row as int, col as int),
    {
        if row < self.height as u64 && col < self.width as u64 {
            let v: bool = self.rows[row as usize][col as usize];
            v
        } else {
            false
        }
    }
}

/// For a well-formed matrix, sampling the struct and sampling its grid
/// agree at every position.
pub proof fn lemma_sample_is_grid_sample(m: BoolMatrix)
    requires
        m.wf(),
    ensures
        forall|row: int, col: int|
            m.sample(row, col) == crate::braille::grid_sample(m.grid(), row, col),
{
    assert forall|row: int, col: int|
        m.sample(row, col) == crate::braille::grid_sample(m.grid(), row, col) by {
        if 0 <= row < m.rows@.len() {
            assert(m.grid()[row] == m.rows@[row]@);
        }
    }
}

/// What the rule decides at every coordinate of the image, as a grid of
/// rows of booleans.
pub open spec fn decision_grid(img: Image, rule: OnOffRule) -> Seq<Seq<bool>> {
    Seq::new(
        img.spec_height() as nat,
        |y: int| Seq::new(img.spec_width() as nat, |x: int| is_on_spec(rule, img, x, y)),
    )
}

/// A matrix that evaluates an image under a rule holds exactly the
/// image's decision grid.
pub proof fn lemma_evaluates_decision_grid(m: BoolMatrix, img: Image, rule: OnOffRule)
    requires
        evaluates(m, img, rule),
    ensures
        m.grid() == decision_grid(img, rule),
{
    assert forall|y: int|
        0 <= y < m.grid().len() implies m.grid()[y] == decision_grid(img, rule)[y] by {
        assert(m.grid()[y] == m.rows@[y]@);
        assert forall|x: int|
            0 <= x < m.rows@[y]@.len() implies m.rows@[y]@[x] == decision_grid(img, rule)[y][x] by {
            assert(m.at(y, x) == is_on_spec(rule, img, x, y));
        }
        assert(m.rows@[y]@ =~= decision_grid(img, rule)[y]);
    }
    assert(m.grid() =~= decision_grid(img, rule));
}

/// The matrix holds, at every coordinate, exactly what the rule decides
/// on the image.
pub open spec fn evaluates(m: BoolMatrix, img: Image, rule: OnOffRule) -> bool {
    &&& m.wf()
    &&& m.width == img.spec_width()
    &&& m.height == img.spec_height()
    &&& forall|x: int, y: int|
        0 <= y < m.height && 0 <= x < m.width ==> m.at(y, x) == is_on_spec(rule, img, x, y)
}

/// Decides one image row, column by column.
fn eval_row(img: &Image, rule: &OnOffRule, y: u32) -> (row: Vec<bool>)
    requires
        img.wf(),
    ensures
        row@.len() == img.spec_width(),
        forall|x: int| 0 <= x < row@.len() ==> row@[x] == is_on_spec(*rule, *img, x, y as int),
{
    let w = img.width();
    let mut row: Vec<bool> = Vec::new();
    let mut x: u32 = 0;
    while x < w
        invariant
            img.wf(),
            w == img.spec_width(),
            x <= w,
            row@.len() == x,
            forall|i: int| 0 <= i < row@.len() ==> row@[i] == is_on_spec(*rule, *img, i, y as int),
        decreases w - x,
    {
        row.push(rule.is_on(img, x, y));
        x = x + 1;
    }
    row
}

/// Decides one image row with the columns spread over a worker pool.
///
/// Relies on rayon: `IntoParallelIterator` for a range yields the range's
/// values, `ParallelIterator::map` applies the closure to each, and
/// `IndexedParallelIterator::collect_into_vec` stores the results in index
/// order. The closure only calls the verified `OnOffRule::is_on`, whose
/// contract fixes each element, so the collected row is the same whatever
/// order the pool ran the columns in.
#[verifier::external_body]
fn eval_row_parallel(img: &Image, rule: &OnOffRule, y: u32) -> (row: Vec<bool>)
    requires
        img.wf(),
    ensures
        row@.len() == img.spec_width(),
        forall|x: int| 0 <= x < row@.len() ==> row@[x] == is_on_spec(*rule, *img, x, y as int),
{
    let mut row: Vec<bool> = Vec::new();
    (0..img.width()).into_par_iter().map(|x| rule.is_on(img, x, y)).collect_into_vec(&mut row);
    row
}

/// Decides the whole image sequentially: row `y`, column `x` of the result
/// holds what the rule decides at (x, y).
pub fn evaluate(img: &Image, rule: &OnOffRule) -> (m: BoolMatrix)
    requires
        img.wf(),
    ensures
        evaluates(m, *img, *rule),
{
    let h = img.height();
    let mut rows: Vec<Vec<bool>> = Vec::new();
    let mut y: u32 = 0;
    while y < h
        invariant
            img.wf(),
            h == img.spec_height(),
            y <= h,
            rows@.len() == y,
            forall|r: int| 0 <= r < rows@.len() ==> rows@[r]@.len() == img.spec_width(),
            forall|r: int, x: int|
                0 <= r < rows@.len() && 0 <= x < img.spec_width() ==> rows@[r]@[x] == is_on_spec(
                    *rule,
                    *img,
                    x,
                    r,
                ),
        decreases h - y,
    {
        rows.push(eval_row(img, rule, y));
        y = y + 1;
    }
    BoolMatrix { width: img.width(), height: h, rows }
}

/// Decides the whole image with each row's columns evaluated in parallel.
pub fn evaluate_parallel(img: &Image, rule: &OnOffRule) -> (m: BoolMatrix)
    requires
        img.wf(),
    ensures
        evaluates(m, *img, *rule),
{
    let h = img.height();
    let mut rows: Vec<Vec<bool>> = Vec::new();
    let mut y: u32 = 0;
    while y < h
        invariant
            img.wf(),
            h == img.spec_height(),
            y <= h,
            rows@.len() == y,
            forall|r: int| 0 <= r < rows@.len() ==> rows@[r]@.len() == img.spec_width(),
            forall|r: int, x: int|
                0 <= r < rows@.len() && 0 <= x < img.spec_width() ==> rows@[r]@[x] == is_on_spec(
                    *rule,
                    *img,
                    x,
                    r,
                ),
        decreases h - y,
    {
        rows.push(eval_row_parallel(img, rule, y));
        y = y + 1;
    }
    BoolMatrix { width: img.width(), height: h, rows }
}

/// Evaluation is deterministic: any two matrices that evaluate the same
/// image under the same rule hold identical grids, however each of them
/// was scheduled.
pub proof fn lemma_evaluation_deterministic(
    m1: BoolMatrix,
    m2: BoolMatrix,
    img: Image,
    rule: OnOffRule,
)
    requires
        evaluates(m1, img, rule),
        evaluates(m2, img, rule),
    ensures
        m1.grid() == m2.grid(),
{
    assert forall|y: int| 0 <= y < m1.grid().len() implies m1.grid()[y] == m2.grid()[y] by {
        assert(m1.grid()[y] == m1.rows@[y]@);
        assert(m2.grid()[y] == m2.rows@[y]@);
        assert forall|x: int| 0 <= x < m1.rows@[y]@.len() implies m1.rows@[y]@[x] == m2.rows@[y]@[x]
            by {
            assert(m1.at(y, x) == is_on_spec(rule, img, x, y));
            assert(m2.at(y, x) == is_on_spec(rule, img, x, y));
        }
        assert(m1.rows@[y]@ =~= m2.rows@[y]@);
    }
    assert(m1.grid() =~= m2.grid());
}

} // verus!
