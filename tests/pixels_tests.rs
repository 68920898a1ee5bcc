use mandelbrot::frame::Frame;
use mandelbrot::pixels::{is_interior, render_samples, ColorCache, ColorPolicy, Rgb, Sample};

fn shade_by_iter(iter: u32, bits: u64) -> Rgb {
    Rgb { r: iter as u8, g: (bits % 256) as u8, b: 7 }
}

#[test]
fn single_shortcut_pixel_is_black() {
    let f = Frame::new(1, 1, 100).unwrap();
    let px = render_samples(&f, &[Sample::Shortcut], ColorPolicy::Exact, shade_by_iter);
    assert_eq!(px, vec![0, 0, 0, 255]);
    let px = render_samples(&f, &[Sample::Shortcut], ColorPolicy::CachedByIter, shade_by_iter);
    assert_eq!(px, vec![0, 0, 0, 255]);
}

#[test]
fn bound_reached_pixel_is_black() {
    let f = Frame::new(1, 1, 100).unwrap();
    let s = [Sample::Iterated { iter: 100, norm_sqr_bits: 3 }];
    assert_eq!(render_samples(&f, &s, ColorPolicy::Exact, shade_by_iter), vec![0, 0, 0, 255]);
    assert_eq!(render_samples(&f, &s, ColorPolicy::CachedByIter, shade_by_iter), vec![0, 0, 0, 255]);
}

#[test]
fn pixel_escaping_after_one_step_is_shaded() {
    // c = (2, 2): z1 = c, |z1|^2 = 8 > 4, so the loop exits with iter = 1.
    let norm = 8.0f64 * 8.0 + 10.0 * 10.0; // |c^2 + c|^2 for the smooth formula
    let f = Frame::new(1, 1, 50).unwrap();
    let s = [Sample::Iterated { iter: 1, norm_sqr_bits: norm.to_bits() }];
    let px = render_samples(&f, &s, ColorPolicy::Exact, |i: u32, b: u64| Rgb {
        r: i as u8,
        g: (f64::from_bits(b) as u32 % 256) as u8,
        b: 9,
    });
    assert_eq!(px, vec![1, 164, 9, 255]);
}

#[test]
fn output_length_is_four_bytes_per_pixel() {
    let f = Frame::new(3, 2, 10).unwrap();
    let s = vec![Sample::Shortcut; 6];
    assert_eq!(render_samples(&f, &s, ColorPolicy::Exact, shade_by_iter).len(), 24);
    let empty = Frame::new(0, 4, 10).unwrap();
    assert_eq!(render_samples(&empty, &[], ColorPolicy::CachedByIter, shade_by_iter), Vec::<u8>::new());
}

#[test]
fn exact_policy_shades_each_pixel() {
    let f = Frame::new(3, 1, 10).unwrap();
    let s = [
        Sample::Iterated { iter: 4, norm_sqr_bits: 11 },
        Sample::Iterated { iter: 4, norm_sqr_bits: 22 },
        Sample::Iterated { iter: 5, norm_sqr_bits: 33 },
    ];
    let px = render_samples(&f, &s, ColorPolicy::Exact, shade_by_iter);
    assert_eq!(px, vec![4, 11, 7, 255, 4, 22, 7, 255, 5, 33, 7, 255]);
}

#[test]
fn cached_policy_repeats_first_color_per_count() {
    let f = Frame::new(2, 2, 10).unwrap();
    let s = [
        Sample::Shortcut,
        Sample::Iterated { iter: 4, norm_sqr_bits: 11 },
        Sample::Iterated { iter: 4, norm_sqr_bits: 22 },
        Sample::Iterated { iter: 5, norm_sqr_bits: 33 },
    ];
    let px = render_samples(&f, &s, ColorPolicy::CachedByIter, shade_by_iter);
    assert_eq!(px, vec![0, 0, 0, 255, 4, 11, 7, 255, 4, 11, 7, 255, 5, 33, 7, 255]);
}

#[test]
fn same_sample_same_color_under_both_policies() {
    let f = Frame::new(2, 1, 10).unwrap();
    let s = [Sample::Iterated { iter: 3, norm_sqr_bits: 99 }, Sample::Iterated { iter: 3, norm_sqr_bits: 99 }];
    for policy in [ColorPolicy::Exact, ColorPolicy::CachedByIter] {
        let a = render_samples(&f, &s, policy, shade_by_iter);
        let b = render_samples(&f, &s, policy, shade_by_iter);
        assert_eq!(a, b);
        assert_eq!(&a[0..4], &a[4..8]);
    }
}

#[test]
fn policies_agree_on_first_pixels() {
    let f = Frame::new(3, 1, 10).unwrap();
    let s = [
        Sample::Iterated { iter: 2, norm_sqr_bits: 5 },
        Sample::Shortcut,
        Sample::Iterated { iter: 2, norm_sqr_bits: 6 },
    ];
    let exact = render_samples(&f, &s, ColorPolicy::Exact, shade_by_iter);
    let cached = render_samples(&f, &s, ColorPolicy::CachedByIter, shade_by_iter);
    assert_eq!(&exact[0..8], &cached[0..8]);
    assert_ne!(&exact[8..12], &cached[8..12]);
}

#[test]
fn cached_policy_calls_shade_once_per_count() {
    let f = Frame::new(4, 1, 10).unwrap();
    let s = [
        Sample::Iterated { iter: 1, norm_sqr_bits: 1 },
        Sample::Iterated { iter: 1, norm_sqr_bits: 2 },
        Sample::Iterated { iter: 1, norm_sqr_bits: 3 },
        Sample::Iterated { iter: 2, norm_sqr_bits: 4 },
    ];
    let calls = std::cell::Cell::new(0u32);
    let px = render_samples(&f, &s, ColorPolicy::CachedByIter, |i: u32, b: u64| {
        calls.set(calls.get() + 1);
        shade_by_iter(i, b)
    });
    assert_eq!(calls.get(), 2);
    assert_eq!(px.len(), 16);
}

#[test]
fn interior_classification() {
    assert!(is_interior(Sample::Shortcut, 10));
    assert!(is_interior(Sample::Iterated { iter: 10, norm_sqr_bits: 0 }, 10));
    assert!(!is_interior(Sample::Iterated { iter: 9, norm_sqr_bits: 0 }, 10));
    assert!(is_interior(Sample::Iterated { iter: 0, norm_sqr_bits: 0 }, 0));
}

#[test]
fn color_cache_get_and_put() {
    let mut c = ColorCache::new(3);
    assert_eq!(c.get(2), None);
    c.put(2, Rgb { r: 1, g: 2, b: 3 });
    assert_eq!(c.get(2), Some(Rgb { r: 1, g: 2, b: 3 }));
    assert_eq!(c.get(0), None);
}
