use braillify::image_data::{Image, Pixel};
use braillify::rule::{absdiff, max_channel_diff, OnOffRule};

fn uniform_image(width: u32, height: u32, p: Pixel) -> Image {
    let mut pixels = Vec::new();
    for _ in 0..width * height {
        pixels.push(p);
    }
    Image::new(width, height, pixels).unwrap()
}

#[test]
fn absdiff_both_orders() {
    assert_eq!(absdiff(3, 10), 7);
    assert_eq!(absdiff(10, 3), 7);
    assert_eq!(absdiff(5, 5), 0);
    assert_eq!(absdiff(0, 255), 255);
}

#[test]
fn max_channel_diff_picks_largest() {
    let p = Pixel::new(10, 200, 30, 40);
    let q = Pixel::new(12, 100, 35, 40);
    assert_eq!(max_channel_diff(p, q), 100);
    assert_eq!(max_channel_diff(p, p), 0);
}

#[test]
fn threshold_on_at_exact_sum() {
    let img = uniform_image(2, 2, Pixel::new(10, 20, 30, 40));
    // channel sum is 100: on at threshold 100, off at 101
    assert!(OnOffRule::PxThreshold(100).is_on(&img, 0, 0));
    assert!(!OnOffRule::PxThreshold(101).is_on(&img, 1, 1));
}

#[test]
fn threshold_monotone_in_sum() {
    let dark = uniform_image(1, 1, Pixel::new(10, 10, 10, 10));
    let bright = uniform_image(1, 1, Pixel::new(50, 50, 50, 50));
    // raising the channel sum keeps an on decision on
    assert!(OnOffRule::PxThreshold(40).is_on(&dark, 0, 0));
    assert!(OnOffRule::PxThreshold(40).is_on(&bright, 0, 0));
}

#[test]
fn inverted_threshold_ignores_alpha() {
    let opaque = uniform_image(1, 1, Pixel::new(10, 20, 30, 255));
    let clear = uniform_image(1, 1, Pixel::new(10, 20, 30, 0));
    // rgb sum is 60 in both; alpha plays no part
    assert!(OnOffRule::InvertedPxThreshold(60).is_on(&opaque, 0, 0));
    assert!(OnOffRule::InvertedPxThreshold(60).is_on(&clear, 0, 0));
    assert!(!OnOffRule::InvertedPxThreshold(59).is_on(&opaque, 0, 0));
    assert!(!OnOffRule::InvertedPxThreshold(59).is_on(&clear, 0, 0));
}

#[test]
fn every_rule_off_out_of_bounds() {
    let img = uniform_image(2, 2, Pixel::new(255, 255, 255, 255));
    assert!(!OnOffRule::PxThreshold(0).is_on(&img, 2, 0));
    assert!(!OnOffRule::PxThreshold(0).is_on(&img, 0, 2));
    assert!(!OnOffRule::InvertedPxThreshold(10000).is_on(&img, 5, 5));
    assert!(!OnOffRule::Border(0, 3).is_on(&img, 2, 2));
}

#[test]
fn border_off_on_uniform_image() {
    let img = uniform_image(4, 4, Pixel::new(7, 7, 7, 7));
    for y in 0..4 {
        for x in 0..4 {
            assert!(!OnOffRule::Border(1, 2).is_on(&img, x, y));
        }
    }
}

#[test]
fn border_off_with_no_steps() {
    let mut pixels = Vec::new();
    pixels.push(Pixel::new(0, 0, 0, 0));
    pixels.push(Pixel::new(255, 255, 255, 255));
    let img = Image::new(2, 1, pixels).unwrap();
    // distance 0 takes no steps, so even a sharp edge stays off
    assert!(!OnOffRule::Border(1, 0).is_on(&img, 0, 0));
    assert!(!OnOffRule::Border(1, 0).is_on(&img, 1, 0));
}

#[test]
fn border_detects_a_differing_neighbor() {
    let mut pixels = Vec::new();
    pixels.push(Pixel::new(0, 0, 0, 0));
    pixels.push(Pixel::new(200, 0, 0, 0));
    pixels.push(Pixel::new(0, 0, 0, 0));
    let img = Image::new(3, 1, pixels).unwrap();
    // the center differs from both sides by 200 in the red channel
    assert!(OnOffRule::Border(200, 1).is_on(&img, 1, 0));
    assert!(OnOffRule::Border(200, 1).is_on(&img, 0, 0));
    assert!(!OnOffRule::Border(201, 1).is_on(&img, 0, 0));
}

#[test]
fn border_reaches_across_steps() {
    let mut pixels = Vec::new();
    pixels.push(Pixel::new(0, 0, 0, 0));
    pixels.push(Pixel::new(0, 0, 0, 0));
    pixels.push(Pixel::new(90, 0, 0, 0));
    let img = Image::new(3, 1, pixels).unwrap();
    // the differing pixel is two steps to the right
    assert!(!OnOffRule::Border(90, 1).is_on(&img, 0, 0));
    assert!(OnOffRule::Border(90, 2).is_on(&img, 0, 0));
}

#[test]
fn border_clamps_negative_neighbor_to_zero() {
    // a negative neighbor coordinate is clamped to zero before the
    // bounds check: in a 1x1 image the leftward step lands back on the
    // center pixel, whose difference of zero meets a zero threshold
    let img = uniform_image(1, 1, Pixel::new(7, 7, 7, 7));
    assert!(OnOffRule::Border(0, 1).is_on(&img, 0, 0));
    assert!(!OnOffRule::Border(1, 1).is_on(&img, 0, 0));
}

#[test]
fn border_threshold_zero_hits_equal_neighbor() {
    // with a zero threshold any in-bounds neighbor counts, even an
    // identical one: a difference of zero meets the bar
    let img = uniform_image(2, 1, Pixel::new(7, 7, 7, 7));
    assert!(OnOffRule::Border(0, 1).is_on(&img, 0, 0));
}
