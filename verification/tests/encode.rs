use ray_rs::encode::{decimal_digits, header, to_byte};
use ray_rs::geometry::GVec;
use ray_rs::render::View;

#[test]
fn decimal_digits_of_small_and_large_numbers() {
    assert_eq!(decimal_digits(0), b"0".to_vec());
    assert_eq!(decimal_digits(7), b"7".to_vec());
    assert_eq!(decimal_digits(10), b"10".to_vec());
    assert_eq!(decimal_digits(768), b"768".to_vec());
    assert_eq!(decimal_digits(1024), b"1024".to_vec());
    assert_eq!(decimal_digits(usize::MAX), usize::MAX.to_string().into_bytes());
}

#[test]
fn header_of_the_canonical_image() {
    assert_eq!(header(1024, 768), b"P6\n1024 768\n255\n".to_vec());
}

#[test]
fn header_of_an_empty_image() {
    assert_eq!(header(0, 0), b"P6\n0 0\n255\n".to_vec());
}

#[test]
fn rgb_bytes_follow_the_pixels() {
    let frame = View::new(2, 2, 0u8).render_with(|i, j| {
        let base = (10 * (i + 2 * j)) as u8;
        GVec::from([base, base + 1, base + 2])
    });
    let bytes = frame.as_rgb_with(|c| c);
    assert_eq!(bytes, vec![0, 1, 2, 10, 11, 12, 20, 21, 22, 30, 31, 32]);
}

#[test]
fn rgba_bytes_have_an_opaque_alpha() {
    let frame = View::new(2, 2, 0u8).render_with(|i, j| {
        let base = (10 * (i + 2 * j)) as u8;
        GVec::from([base, base + 1, base + 2])
    });
    let bytes = frame.as_u8_with(|c| c);
    assert_eq!(bytes, vec![0, 1, 2, 255, 10, 11, 12, 255, 20, 21, 22, 255, 30, 31, 32, 255]);
}

#[test]
fn ppm_is_the_header_then_the_rgb_bytes() {
    let frame = View::new(3, 1, 0u8).render_with(|i, _| GVec::from([i as u8, 100, 200]));
    let bytes = frame.to_ppm_with(|c| c);
    let mut expected = b"P6\n3 1\n255\n".to_vec();
    expected.extend_from_slice(&[0, 100, 200, 1, 100, 200, 2, 100, 200]);
    assert_eq!(bytes, expected);
}

#[test]
fn ppm_of_an_empty_frame_is_its_header() {
    let frame = View::new(0, 4, 0u8).render_with(|_, _| GVec::from([1u8, 2, 3]));
    assert_eq!(frame.to_ppm_with(|c| c), b"P6\n0 4\n255\n".to_vec());
    assert!(frame.as_u8_with(|c| c).is_empty());
    assert!(frame.as_rgb_with(|c| c).is_empty());
}

#[test]
fn sky_colour_is_clamped_to_its_bytes() {
    let frame = View::new(1, 1, 1.0f32).render_with(|_, _| GVec::from([0.2f32, 0.7, 0.8]));
    assert_eq!(frame.as_rgb(), vec![51, 179, 204]);
    assert_eq!(frame.as_u8(), vec![51, 179, 204, 255]);
    assert_eq!(frame.to_ppm(), b"P6\n1 1\n255\n\x33\xb3\xcc".to_vec());
}

#[test]
fn channels_outside_the_unit_interval_saturate() {
    let frame = View::new(1, 1, 1.0f32).render_with(|_, _| GVec::from([-0.5f32, 1.5, 1.0]));
    assert_eq!(frame.as_rgb(), vec![0, 255, 255]);
}

#[test]
fn rendering_twice_gives_the_same_ppm() {
    let shade = |i: usize, j: usize| GVec::from([i as f32 / 7.0, j as f32 / 5.0, 0.8]);
    let first = View::new(8, 6, 1.0f32).render_with(shade).to_ppm();
    let second = View::new(8, 6, 1.0f32).render_with(shade).to_ppm();
    assert_eq!(first.len(), 11 + 3 * 8 * 6);
    assert_eq!(first, second);
}

#[test]
fn to_byte_clamps_scales_and_rounds() {
    assert_eq!(to_byte(0.0f32), 0);
    assert_eq!(to_byte(1.0f32), 255);
    assert_eq!(to_byte(0.2f32), 51);
    assert_eq!(to_byte(0.7f32), 179);
    assert_eq!(to_byte(0.8f32), 204);
    assert_eq!(to_byte(0.5f32), 128);
    assert_eq!(to_byte(0.001f32), 0);
    assert_eq!(to_byte(0.002f32), 1);
    assert_eq!(to_byte(-3.0f32), 0);
    assert_eq!(to_byte(42.0f32), 255);
    assert_eq!(to_byte(f32::INFINITY), 255);
    assert_eq!(to_byte(f32::NEG_INFINITY), 0);
    assert_eq!(to_byte(0.7f64), 179);
}

#[test]
fn a_quantizer_of_the_caller_is_applied_to_every_channel() {
    let frame = View::new(2, 1, 0.0f32).render_with(|i, _| GVec::from([i as f32, 2.0, 3.0]));
    let bytes = frame.as_rgb_with(|c| (10.0 * c) as u8);
    assert_eq!(bytes, vec![0, 20, 30, 10, 20, 30]);
}
