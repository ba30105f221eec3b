use crate::image_data::{channel_sum, rgb_sum, Image, Pixel};
use vstd::prelude::*;

verus! {

/// The policy deciding whether a source pixel counts as a set dot.
/// Parameters are fixed at construction; evaluation is a pure function
/// of (rule, image, x, y).
#[derive(Clone, Copy, PartialEq, Eq, Structural, Debug)]
pub enum OnOffRule {
    /// On iff the sum of all channel values is at least the threshold.
    PxThreshold(i32),
    /// On iff the sum of the three color channels is at most the threshold.
    InvertedPxThreshold(i32),
    /// On iff some cardinal neighbor within the given step distance differs
    /// from the center by at least the threshold in some channel.
    Border(i32, i32),
}

/// Absolute difference of two channel bytes.
pub open spec fn spec_absdiff(a: u8, b: u8) -> int {
    if a > b {
        a - b
    } else {
        b - a
    }
}

pub fn absdiff(a: u8, b: u8) -> (d: u8)
    ensures
        d == spec_absdiff(a, b),
{
    if a > b {
        a - b
    } else {
        b - a
    }
}

/// The largest per-channel absolute difference between two pixels,
/// alpha included.
pub open spec fn spec_max_channel_diff(p: Pixel, q: Pixel) -> int {
    vstd::math::max(
        vstd::math::max(spec_absdiff(p.r, q.r), spec_absdiff(p.g, q.g)),
        vstd::math::max(spec_absdiff(p.b, q.b), spec_absdiff(p.a, q.a)),
    )
}

pub fn max_channel_diff(p: Pixel, q: Pixel) -> (d: u8)
    ensures
        d == spec_max_channel_diff(p, q),
{
    let dr = absdiff(p.r, q.r);
    let dg = absdiff(p.g, q.g);
    let db = absdiff(p.b, q.b);
    let da = absdiff(p.a, q.a);
    let m1 = if dr > dg {
        dr
    } else {
        dg
    };
    let m2 = if db > da {
        db
    } else {
        da
    };
    if m1 > m2 {
        m1
    } else {
        m2
    }
}

/// The unit vector of a cardinal direction, as (dx, dy).
pub open spec fn dir_vec(dir: int) -> (int, int) {
    if dir == 0 {
        (-1, 0)
    } else if dir == 1 {
        (1, 0)
    } else if dir == 2 {
        (0, -1)
    } else {
        (0, 1)
    }
}

/// A signed coordinate clamped upward to zero before the bounds check;
/// a negative neighbor offset is looked up at coordinate zero.
pub open spec fn clamp_zero(v: int) -> int {
    if v < 0 {
        0
    } else {
        v
    }
}

/// Whether the neighbor `k` steps along direction `dir` from (x, y) is
/// in bounds and differs from the center pixel by at least `t`.
pub open spec fn border_hit(img: Image, x: int, y: int, dir: int, k: int, t: int) -> bool {
    let nx = clamp_zero(x + dir_vec(dir).0 * k);
    let ny = clamp_zero(y + dir_vec(dir).1 * k);
    &&& img.contains(nx, ny)
    &&& spec_max_channel_diff(img.pixel(nx, ny), img.pixel(x, y)) >= t
}

/// What each rule decides at a coordinate. Out-of-bounds coordinates are
/// off for every rule.
pub open spec fn is_on_spec(rule: OnOffRule, img: Image, x: int, y: int) -> bool {
    &&& img.contains(x, y)
    &&& match rule {
        OnOffRule::PxThreshold(t) => img.pixel(x, y).channel_sum() >= t,
        OnOffRule::InvertedPxThreshold(t) => img.pixel(x, y).rgb_sum() <= t,
        OnOffRule::Border(t, d) => exists|dir: int, k: int|
            0 <= dir < 4 && 1 <= k <= d && border_hit(img, x, y, dir, k, t as int),
    }
}

impl OnOffRule {
    pub fn is_on(&self, img: &Image, x: u32, y: u32) -> (r: bool)
        requires
            img.wf(),
        ensures
            r == is_on_spec(*self, *img, x as int, y as int),
    {
        if !img.in_bounds(x, y) {
            return false;
        }
        match self {
            OnOffRule::PxThreshold(t) => channel_sum(img.pixel_at(x, y)) >= *t,
            OnOffRule::InvertedPxThreshold(t) => rgb_sum(img.pixel_at(x, y)) <= *t,
            OnOffRule::Border(t, d) => border_scan(img, x, y, *t, *d),
        }
    }
}

/// Looks up the neighbor `k` steps along direction `dir` and reports
/// whether it is a border hit against the center pixel.
fn border_probe(img: &Image, x: u32, y: u32, center: Pixel, dir: u32, k: i64, t: i32) -> (r: bool)
    requires
        img.wf(),
        img.contains(x as int, y as int),
        center == img.pixel(x as int, y as int),
        dir < 4,
        1 <= k <= i32::MAX,
    ensures
        r == border_hit(*img, x as int, y as int, dir as int, k as int, t as int),
{
    let (dx, dy): (i64, i64) = if dir == 0 {
        (-1, 0)
    } else if dir == 1 {
        (1, 0)
    } else if dir == 2 {
        (0, -1)
    } else {
        (0, 1)
    };
    let mut nx: i64 = x as i64 + dx * k;
    let mut ny: i64 = y as i64 + dy * k;
    if nx < 0 {
        nx = 0;
    }
    if ny < 0 {
        ny = 0;
    }
    if nx < img.width() as i64 && ny < img.height() as i64 {
        let neighbor = img.pixel_at(nx as u32, ny as u32);
        max_channel_diff(neighbor, center) as i32 >= t
    } else {
        false
    }
}

/// Scans every cardinal direction and step 1..=d for a border hit.
fn border_scan(img: &Image, x: u32, y: u32, t: i32, d: i32) -> (r: bool)
    requires
        img.wf(),
        img.contains(x as int, y as int),
    ensures
        r == exists|dir: int, k: int|
            0 <= dir < 4 && 1 <= k <= d && border_hit(*img, x as int, y as int, dir, k, t as int),
{
    let center = img.pixel_at(x, y);
    let mut dir: u32 = 0;
    while dir < 4
        invariant
            img.wf(),
            img.contains(x as int, y as int),
            center == img.pixel(x as int, y as int),
            dir <= 4,
            forall|pd: int, pk: int|
                0 <= pd < dir && 1 <= pk <= d ==> !border_hit(
                    *img,
                    x as int,
                    y as int,
                    pd,
                    pk,
                    t as int,
                ),
        decreases 4 - dir,
    {
        let dd: i64 = if d < 1 {
            0
        } else {
            d as i64
        };
        let mut k: i64 = 1;
        while k <= dd
            invariant
                img.wf(),
                img.contains(x as int, y as int),
                center == img.pixel(x as int, y as int),
                dir < 4,
                dd == (if d < 1 {
                    0int
                } else {
                    d as int
                }),
                1 <= k <= dd + 1,
                forall|pd: int, pk: int|
                    0 <= pd < dir && 1 <= pk <= d ==> !border_hit(
                        *img,
                        x as int,
                        y as int,
                        pd,
                        pk,
                        t as int,
                    ),
                forall|pk: int|
                    1 <= pk < k ==> !border_hit(*img, x as int, y as int, dir as int, pk, t as int),
            decreases dd + 1 - k,
        {
            if border_probe(img, x, y, center, dir, k, t) {
                return true;
            }
            k = k + 1;
        }
        dir = dir + 1;
    }
    false
}

/// The threshold rule is monotonic: raising a pixel's channel sum never
/// turns an on decision off.
pub proof fn lemma_threshold_monotone(t: i32, img1: Image, img2: Image, x: int, y: int)
    requires
        img1.spec_width() == img2.spec_width(),
        img1.spec_height() == img2.spec_height(),
        img1.contains(x, y) ==> img1.pixel(x, y).channel_sum() <= img2.pixel(x, y).channel_sum(),
        is_on_spec(OnOffRule::PxThreshold(t), img1, x, y),
    ensures
        is_on_spec(OnOffRule::PxThreshold(t), img2, x, y),
{
}

/// The inverted threshold rule reads only the color channels: it is on
/// exactly when the three-channel sum is at most the threshold, whatever
/// the alpha channel holds.
pub proof fn lemma_inverted_ignores_alpha(t: i32, img1: Image, img2: Image, x: int, y: int)
    requires
        img1.spec_width() == img2.spec_width(),
        img1.spec_height() == img2.spec_height(),
        img1.contains(x, y) ==> {
            &&& img1.pixel(x, y).r == img2.pixel(x, y).r
            &&& img1.pixel(x, y).g == img2.pixel(x, y).g
            &&& img1.pixel(x, y).b == img2.pixel(x, y).b
        },
    ensures
        is_on_spec(OnOffRule::InvertedPxThreshold(t), img1, x, y) == (img1.contains(x, y)
            && img1.pixel(x, y).rgb_sum() <= t),
        is_on_spec(OnOffRule::InvertedPxThreshold(t), img1, x, y) == is_on_spec(
            OnOffRule::InvertedPxThreshold(t),
            img2,
            x,
            y,
        ),
{
}

/// Every rule is off at an out-of-bounds coordinate.
pub proof fn lemma_out_of_bounds_off(rule: OnOffRule, img: Image, x: int, y: int)
    requires
        !img.contains(x, y),
    ensures
        !is_on_spec(rule, img, x, y),
{
}

/// A border rule with no steps to take is off everywhere.
pub proof fn lemma_border_no_steps(t: i32, d: i32, img: Image, x: int, y: int)
    requires
        d <= 0,
    ensures
        !is_on_spec(OnOffRule::Border(t, d), img, x, y),
{
}

/// Whether every pixel of an image holds one and the same color.
pub open spec fn uniform(img: Image) -> bool {
    forall|x: int, y: int, x2: int, y2: int|
        img.contains(x, y) && img.contains(x2, y2) ==> img.pixel(x, y) == img.pixel(x2, y2)
}

/// On an image of uniform color a border rule with a positive threshold
/// is off everywhere: no neighbor differs from the center.
pub proof fn lemma_border_uniform_off(t: i32, d: i32, img: Image, x: int, y: int)
    requires
        uniform(img),
        t >= 1,
    ensures
        !is_on_spec(OnOffRule::Border(t, d), img, x, y),
{
    if img.contains(x, y) {
        assert forall|dir: int, k: int|
            0 <= dir < 4 && 1 <= k <= d implies !border_hit(img, x, y, dir, k, t as int) by {
            let nx = clamp_zero(x + dir_vec(dir).0 * k);
            let ny = clamp_zero(y + dir_vec(dir).1 * k);
            if img.contains(nx, ny) {
                assert(img.pixel(nx, ny) == img.pixel(x, y));
            }
        }
    }
}

} // verus!
