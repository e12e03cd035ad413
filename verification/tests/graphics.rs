use embedded_graphics_core::pixelcolor::{Rgb565 as EgRgb565, Rgb666, Rgb888 as EgRgb888, RgbColor};
use lcd_async::dcs::BitsPerPixel;
use lcd_async::graphics::TakeSkip;

#[test]
fn bpp_from_rgb_color_works() {
    assert_eq!(
        BitsPerPixel::from_rgb_color(EgRgb565::MAX_R, EgRgb565::MAX_G, EgRgb565::MAX_B),
        BitsPerPixel::Sixteen
    );
    assert_eq!(
        BitsPerPixel::from_rgb_color(Rgb666::MAX_R, Rgb666::MAX_G, Rgb666::MAX_B),
        BitsPerPixel::Eighteen
    );
    assert_eq!(
        BitsPerPixel::from_rgb_color(EgRgb888::MAX_R, EgRgb888::MAX_G, EgRgb888::MAX_B),
        BitsPerPixel::TwentyFour
    );
}

#[test]
fn take_skip_iter() {
    let items: Vec<i32> = (0..11).collect();
    let mut iter = TakeSkip::new(items, 3, 2);
    assert_eq!(iter.next(), Some(0));
    assert_eq!(iter.next(), Some(1));
    assert_eq!(iter.next(), Some(2));
    // Skip 3 and 4
    assert_eq!(iter.next(), Some(5));
    assert_eq!(iter.next(), Some(6));
    assert_eq!(iter.next(), Some(7));
    // Skip 8 and 9
    assert_eq!(iter.next(), Some(10));
    assert_eq!(iter.next(), None);
}

#[test]
fn take_skip_with_take_equals_zero() {
    // take == 0 should not cause an integer overflow or infinite loop and
    // just return None
    let items: Vec<i32> = (0..11).collect();
    let mut iter = TakeSkip::new(items, 0, 2);
    assert_eq!(iter.next(), None);
}

#[test]
fn take_skip_exhausts_mid_take() {
    let items: Vec<i32> = (0..4).collect();
    let mut iter = TakeSkip::new(items, 3, 2);
    assert_eq!(iter.next(), Some(0));
    assert_eq!(iter.next(), Some(1));
    assert_eq!(iter.next(), Some(2));
    assert_eq!(iter.next(), None);
    assert_eq!(iter.next(), None);
}

#[test]
fn take_skip_matches_the_block_formula() {
    // An element is kept exactly when its index lies in the first `take`
    // slots of its `(take + skip)`-sized block.
    let take = 3u32;
    let skip = 2u32;
    let items: Vec<i32> = (0..17).collect();
    let mut iter = TakeSkip::new(items.clone(), take, skip);
    let mut yielded = Vec::new();
    while let Some(v) = iter.next() {
        yielded.push(v);
    }
    let expected: Vec<i32> = items
        .iter()
        .enumerate()
        .filter(|(i, _)| (*i as u32) % (take + skip) < take)
        .map(|(_, v)| *v)
        .collect();
    assert_eq!(yielded, expected);
}
