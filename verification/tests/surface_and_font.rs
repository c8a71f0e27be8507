use procedural_texture_generator::bitmap::BitmapChar;
use procedural_texture_generator::pixel::Pixel;
use procedural_texture_generator::plane::{Plane, PlaneError};

#[test]
fn plane_round_trips_pixels() {
    let mut p = Plane::new(3, 2).unwrap();
    assert_eq!(p.width(), 3);
    assert_eq!(p.height(), 2);
    p.put_pixel(2, 1, Pixel::new(10, 20, 30, 40));
    assert_eq!(p.pixel(2, 1), Pixel::new(10, 20, 30, 40));
    assert_eq!(p.pixel(0, 0), Pixel::new(0, 0, 0, 0));
    let flat = p.as_data_flatten();
    assert_eq!(flat.len(), 24);
    assert_eq!(&flat[20..24], &[10, 20, 30, 40]);
}

#[test]
fn plane_rejects_zero_dimensions() {
    assert_eq!(Plane::new(0, 4).unwrap_err(), PlaneError::ValueGreaterZero);
    assert_eq!(Plane::new(4, 0).unwrap_err(), PlaneError::ValueGreaterZero);
}

#[test]
fn font_glyphs_and_fallback() {
    assert_eq!(BitmapChar::from_char('A').as_u64(), 0x1818243C42420000);
    assert_eq!(BitmapChar::from_char('0').as_u64(), 0x1824424224180000);
    assert_eq!(
        BitmapChar::from_char('@').as_u64(),
        BitmapChar::Unknown.as_u64()
    );
}

#[test]
fn text_rectangles_scale() {
    assert_eq!(BitmapChar::calculate_rect("ab", 2), (32, 16));
    assert_eq!(BitmapChar::calculate_rect("", 3), (0, 24));
}
