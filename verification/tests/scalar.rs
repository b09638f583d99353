use ray_rs::scalar::{natural, ratio};

#[test]
fn natural_builds_whole_numbers_exactly() {
    assert_eq!(natural::<f32>(0), 0.0);
    assert_eq!(natural::<f32>(1), 1.0);
    assert_eq!(natural::<f32>(2), 2.0);
    assert_eq!(natural::<f32>(3), 3.0);
    assert_eq!(natural::<f32>(10), 10.0);
    assert_eq!(natural::<f32>(255), 255.0);
    assert_eq!(natural::<f32>(1000), 1000.0);
    assert_eq!(natural::<f32>(10000), 10000.0);
    assert_eq!(natural::<f32>(16777215), 16777215.0);
    assert_eq!(natural::<f64>(123456789), 123456789.0);
    assert_eq!(natural::<i64>(987654321), 987654321);
    for n in 0..5000usize {
        assert_eq!(natural::<f32>(n), n as f32);
    }
}

#[test]
fn ratio_is_the_nearest_scalar_to_the_fraction() {
    assert_eq!(ratio::<f32>(1, 2), 0.5);
    assert_eq!(ratio::<f32>(1, 1000), 1e-3);
    assert_eq!(ratio::<f32>(2, 10), 0.2);
    assert_eq!(ratio::<f32>(7, 10), 0.7);
    assert_eq!(ratio::<f32>(8, 10), 0.8);
    assert_eq!(ratio::<f32>(9, 10), 0.9);
    assert_eq!(ratio::<f32>(92, 100), 0.92);
    assert_eq!(ratio::<f32>(69, 100), 0.69);
    assert_eq!(ratio::<f32>(78, 1000), 0.078);
    assert_eq!(ratio::<f32>(3, 10), 0.3);
    assert_eq!(ratio::<f64>(78, 1000), 0.078);
    assert_eq!(ratio::<f64>(1, 3), 1.0 / 3.0);
}
