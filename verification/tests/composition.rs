//! Pixels: resampling, composition on the CPU, the encode, the white meter and the model's raster.

use neural_forge_layer::apply::{apply_rgba8, chunk_bytes};
use neural_forge_layer::downscale::{kernel, resample_rgba8, support_radius, AxisPlan, Downscaler, Kernel, Ratio};
use neural_forge_layer::encode::{compare_to_reference, curve_for, reference_encode_pixel, Comparison, Curve};
use neural_forge_layer::meter::{brightest, meter_peaks, meter_samples, ranked, white_level};
use neural_forge_layer::scaling::{max_model_pixels, scale_is_of_use, scaled_dims, ScaledFrame, DEFAULT_MAX_MODEL_PIXELS};

fn ratio(r: Ratio) -> f32 {
    r.numerator as f32 / r.denominator as f32
}

fn sinc(x: f32) -> f32 {
    if x.abs() < 1e-8 {
        1.0
    } else {
        let px = std::f32::consts::PI * x;
        px.sin() / px
    }
}

fn cubic(x: f32, b: f32, c: f32) -> f32 {
    let ax = x.abs();
    if ax < 1.0 {
        ((12.0 - 9.0 * b - 6.0 * c) * ax.powi(3) + (-18.0 + 12.0 * b + 6.0 * c) * ax.powi(2) + (6.0 - 2.0 * b)) / 6.0
    } else if ax < 2.0 {
        ((-b - 6.0 * c) * ax.powi(3) + (6.0 * b + 30.0 * c) * ax.powi(2) + (-12.0 * b - 48.0 * c) * ax + (8.0 * b + 24.0 * c)) / 6.0
    } else {
        0.0
    }
}

fn bessel_i0(x: f32) -> f32 {
    let half = (x * 0.5) * (x * 0.5);
    let (mut term, mut sum) = (1.0f32, 1.0f32);
    for k in 1..24 {
        term *= half / (k as f32 * k as f32);
        sum += term;
    }
    sum
}

fn value(x: f32, d: Downscaler) -> f32 {
    match kernel(d) {
        Kernel::Cubic { b, c } => cubic(x, ratio(b), ratio(c)),
        Kernel::Lanczos { lobes } => {
            if x.abs() >= lobes as f32 {
                0.0
            } else {
                sinc(x) * sinc(x / lobes as f32)
            }
        }
        Kernel::Kaiser { lobes, beta } => {
            if x.abs() >= lobes as f32 {
                0.0
            } else {
                let t = x / lobes as f32;
                sinc(x) * bessel_i0(beta as f32 * (1.0 - t * t).max(0.0).sqrt()) / bessel_i0(beta as f32)
            }
        }
    }
}

fn plan_axis(src: u32, dst: u32, d: Downscaler) -> AxisPlan<f32> {
    let mut plan = AxisPlan::new();
    let step = src as f32 / dst as f32;
    let scale = step.max(1.0);
    let radius = support_radius(d) as f32 * scale;
    for i in 0..dst {
        let center = (i as f32 + 0.5) * step - 0.5;
        let lo = (center - radius).floor() as i32;
        let hi = (center + radius).ceil() as i32;
        let mut taps: Vec<f32> = (lo..=hi).map(|t| value((t as f32 - center) / scale, d)).collect();
        let sum: f32 = taps.iter().sum();
        if sum.abs() > 1e-6 {
            for w in &mut taps {
                *w /= sum;
            }
        }
        plan.push(lo, &taps);
    }
    plan
}

fn resample(src: &[u8], sw: u32, sh: u32, dw: u32, dh: u32, d: Downscaler) -> Vec<u8> {
    let levels: Vec<f32> = (0..256).map(|i| i as f32).collect();
    let (x, y) = (plan_axis(sw.max(1), dw, d), plan_axis(sh.max(1), dh, d));
    let weigh = |sum: f32, v: f32, w: f32| sum + v * w;
    let store = |sum: f32| sum.round().clamp(0.0, 255.0) as u8;
    resample_rgba8(src, sw, sh, dw, dh, &x, &y, &levels, 0.0f32, &weigh, &store)
}

fn gradient_rgba8(w: u32, h: u32) -> Vec<u8> {
    (0..(w as usize * h as usize))
        .flat_map(|i| {
            let x = (i % w as usize) as u8;
            let y = (i / w as usize) as u8;
            [x, y, x.wrapping_add(y), 255]
        })
        .collect()
}

#[test]
fn interpolating_kernels_are_one_at_zero_and_zero_at_their_own_integer_taps() {
    for d in [Downscaler::CatmullRom, Downscaler::Lanczos2, Downscaler::Lanczos3, Downscaler::Kaiser2, Downscaler::Kaiser3] {
        assert!((value(0.0, d) - 1.0).abs() < 1e-5, "kernel {d:?} at 0 should be 1");
        let radius = support_radius(d) as i32;
        for i in 1..radius {
            let v = value(i as f32, d);
            assert!(v.abs() < 1e-4, "kernel {d:?} at integer tap {i} should be ~0, got {v}");
        }
    }
}

#[test]
fn mitchell_netravali_default_is_deliberately_non_interpolating() {
    let b_bicubic = 1.0 / 3.0;
    assert!((value(0.0, Downscaler::Bicubic) - (1.0 - b_bicubic / 3.0)).abs() < 1e-5);
    assert!(value(0.0, Downscaler::Bicubic) < 1.0, "B=1/3 must not be interpolating");
}

#[test]
fn catmull_rom_matches_known_closed_form_at_half_sample() {
    let v = value(0.5, Downscaler::CatmullRom);
    assert!((v - 0.5625).abs() < 1e-5, "got {v}");
}

#[test]
fn kernels_are_symmetric() {
    for d in [Downscaler::Bicubic, Downscaler::CatmullRom, Downscaler::Lanczos3, Downscaler::Kaiser3] {
        for x in [0.3f32, 0.7, 1.4, 2.1] {
            assert!((value(x, d) - value(-x, d)).abs() < 1e-5, "kernel {d:?} should be symmetric, differs at x={x}");
        }
    }
}

#[test]
fn kernels_vanish_beyond_their_support_radius() {
    for d in [Downscaler::Bicubic, Downscaler::CatmullRom, Downscaler::Lanczos2, Downscaler::Lanczos3, Downscaler::Kaiser3] {
        let r = support_radius(d) as f32;
        assert_eq!(value(r + 0.5, d), 0.0, "kernel {d:?} should be exactly 0 beyond its support radius");
    }
}

#[test]
fn unknown_downscaler_falls_back_to_lanczos3() {
    assert_eq!(kernel(Downscaler::Other), kernel(Downscaler::Lanczos3));
    assert_eq!(value(0.5, Downscaler::Other), value(0.5, Downscaler::Lanczos3));
    assert_eq!(support_radius(Downscaler::Other), 3);
    assert_eq!(kernel(Downscaler::Kaiser3), Kernel::Kaiser { lobes: 3, beta: 8 });
    assert_eq!(support_radius(Downscaler::Magic), 2);
    assert_eq!(support_radius(Downscaler::Kaiser2), 2);
}

#[test]
fn identity_resize_is_byte_for_byte_the_input() {
    let src = gradient_rgba8(37, 23);
    for d in [Downscaler::Lanczos3, Downscaler::Bicubic, Downscaler::CatmullRom] {
        let out = resample(&src, 37, 23, 37, 23, d);
        assert_eq!(out, src, "identity resize must be an exact copy, kernel {d:?}");
    }
}

#[test]
fn resizing_a_flat_colour_image_stays_that_colour() {
    let (w, h) = (16u32, 12u32);
    let src: Vec<u8> = (0..(w as usize * h as usize)).flat_map(|_| [200u8, 100, 50, 255]).collect();
    for d in [Downscaler::Lanczos3, Downscaler::Bicubic, Downscaler::CatmullRom, Downscaler::Kaiser3] {
        for (dw, dh) in [(11u32, 9u32), (23, 17), (16, 12)] {
            let out = resample(&src, w, h, dw, dh, d);
            assert_eq!(out.len(), (dw as usize) * (dh as usize) * 4);
            for px in out.chunks_exact(4) {
                assert!(
                    (px[0] as i32 - 200).abs() <= 1 && (px[1] as i32 - 100).abs() <= 1 && (px[2] as i32 - 50).abs() <= 1,
                    "flat-color resize {w}x{h}->{dw}x{dh} kernel {d:?} drifted to {px:?}"
                );
            }
        }
    }
}

#[test]
fn downscale_then_upscale_roundtrip_stays_close_to_the_original() {
    let (w, h) = (64u32, 48u32);
    let src = gradient_rgba8(w, h);
    let small = resample(&src, w, h, 48, 36, Downscaler::Lanczos3);
    let back = resample(&small, 48, 36, w, h, Downscaler::Lanczos3);
    assert_eq!(back.len(), src.len());
    let max_diff = src.iter().zip(back.iter()).map(|(a, b)| (*a as i32 - *b as i32).unsigned_abs()).max().unwrap();
    assert!(max_diff <= 40, "downscale/upscale roundtrip drifted too far: max per-channel diff {max_diff}");
}

#[test]
fn output_dimensions_are_always_exact() {
    for (sw, sh, dw, dh) in [(2560u32, 1440u32, 1920u32, 1080u32), (1920, 1080, 2560, 1440), (1, 1, 5, 5), (5, 5, 1, 1)] {
        let src = gradient_rgba8(sw, sh);
        let out = resample(&src, sw, sh, dw, dh, Downscaler::Lanczos3);
        assert_eq!(out.len(), (dw as usize) * (dh as usize) * 4, "{sw}x{sh}->{dw}x{dh}");
    }
}

#[test]
fn frames_without_pixels_give_zeros() {
    assert_eq!(resample(&[1, 2, 3, 4], 0, 1, 2, 1, Downscaler::Lanczos3), [0; 8]);
    assert!(resample(&[1, 2, 3, 4], 1, 1, 0, 5, Downscaler::Lanczos3).is_empty());
    // A frame without pixels gives zeros, whatever its other edge is.
    let (none, levels): (AxisPlan<u32>, [u32; 0]) = (AxisPlan::new(), []);
    let (weigh, store) = (|s: u32, _: u32, _: u32| s, |s: u32| s as u8);
    let wide = resample_rgba8(&[9], 0, u32::MAX, 2, 1, &none, &none, &levels, 0u32, &weigh, &store);
    assert_eq!(wide, [0; 8]);
    // A frame that is too short counts as padded with zeros.
    assert_eq!(resample(&[7, 8], 1, 1, 1, 1, Downscaler::Lanczos3), [7, 8, 0, 0]);
}

#[test]
fn a_plan_with_whole_weights_adds_up_exactly() {
    // Every output sample is twice the source sample at its place plus the next one, clamped at the edge.
    let mut x: AxisPlan<u32> = AxisPlan::new();
    x.push(0, &[2, 1]);
    x.push(1, &[2, 1]);
    x.push(2, &[2, 1]);
    let mut y: AxisPlan<u32> = AxisPlan::new();
    y.push(-1, &[1, 0]);
    let levels: Vec<u32> = (0..256).collect();
    let src: Vec<u8> = vec![1, 0, 0, 9, 2, 0, 0, 9];
    let out = resample_rgba8(&src, 2, 1, 3, 1, &x, &y, &levels, 0u32, &|s: u32, v: u32, w: u32| s + v * w, &|s: u32| s as u8);
    assert_eq!(out, [4, 0, 0, 27, 6, 0, 0, 27, 6, 0, 0, 27]);
    assert_eq!(x.len(), 3);
}

#[test]
fn a_source_resamples_like_its_padded_copy() {
    let full = gradient_rgba8(8, 6);
    let mut padded = full[..100].to_vec();
    padded.resize(full.len(), 0);
    let mut longer = full.clone();
    longer.extend([77; 9]);
    for d in [Downscaler::Lanczos3, Downscaler::Bicubic] {
        assert_eq!(resample(&full[..100], 8, 6, 5, 4, d), resample(&padded, 8, 6, 5, 4, d));
        assert_eq!(resample(&longer, 8, 6, 5, 4, d), resample(&full, 8, 6, 5, 4, d));
    }
}

#[test]
fn rearranged_channels_resample_to_rearranged_channels() {
    let src = gradient_rgba8(8, 6);
    let moved: Vec<u8> = src.chunks_exact(4).flat_map(|p| [p[2], p[3], p[0], p[1]]).collect();
    let out = resample(&src, 8, 6, 11, 4, Downscaler::CatmullRom);
    let expected: Vec<u8> = out.chunks_exact(4).flat_map(|p| [p[2], p[3], p[0], p[1]]).collect();
    assert_eq!(resample(&moved, 8, 6, 11, 4, Downscaler::CatmullRom), expected);
}

fn solid_rgba8(rgb: [u8; 3], width: usize, height: usize) -> Vec<u8> {
    (0..width * height).flat_map(|_| [rgb[0], rgb[1], rgb[2], 255]).collect()
}

#[test]
fn debug_view_2_is_a_no_op() {
    let original = solid_rgba8([200, 50, 50], 2, 2);
    let mut answer = solid_rgba8([10, 240, 10], 2, 2);
    let before = answer.clone();
    apply_rgba8(&original, &mut answer, 2, false, &|_: [u8; 3], _: [u8; 3]| [0, 0, 0]);
    assert_eq!(answer, before, "debug_view=2 must leave the raw model answer untouched");
}

#[test]
fn debug_view_1_replaces_answer_with_original() {
    let original = solid_rgba8([200, 50, 50], 2, 2);
    let mut answer = solid_rgba8([10, 240, 10], 2, 2);
    apply_rgba8(&original, &mut answer, 1, false, &|_: [u8; 3], _: [u8; 3]| [0, 0, 0]);
    assert_eq!(answer, original, "debug_view=1 must show the original/proxy, not the model's answer");
}

#[test]
fn pixels_are_composed_in_the_order_red_green_blue() {
    let original = [1, 2, 3, 4, 5, 6, 7, 8, 90];
    let compose = |from: [u8; 3], to: [u8; 3]| [from[0] + to[0], to[1], from[2]];
    let mut rgb = [10, 20, 30, 40, 50, 60, 70, 80, 99];
    apply_rgba8(&original, &mut rgb, 0, false, &compose);
    assert_eq!(rgb, [11, 20, 3, 40, 55, 60, 7, 80, 99]);
    let mut bgr = [10, 20, 30, 40, 50, 60, 70, 80, 99];
    apply_rgba8(&original, &mut bgr, 3, true, &compose);
    assert_eq!(bgr, [1, 20, 33, 40, 5, 60, 77, 80, 99]);
    // Only what both have is touched.
    let mut long = [10, 20, 30, 40, 50, 60, 70, 80];
    apply_rgba8(&original[..5], &mut long, 0, false, &compose);
    assert_eq!(long, [11, 20, 3, 40, 50, 60, 70, 80]);
    let mut short = [10, 20];
    apply_rgba8(&original, &mut short, 1, false, &compose);
    assert_eq!(short, [1, 2]);
}

#[test]
fn a_frame_is_shared_out_in_whole_pixels() {
    assert_eq!(chunk_bytes(400, 16), 28);
    assert_eq!(chunk_bytes(64 * 4, 16), 16);
    assert_eq!(chunk_bytes(3, 4), 4);
    assert_eq!(chunk_bytes(0, 1), 4);
    // Composing by chunks is composing the whole.
    let original: Vec<u8> = (0..97u8).collect();
    let answer: Vec<u8> = (0..97u8).map(|b| 255 - b).collect();
    let compose = |from: [u8; 3], to: [u8; 3]| [from[0] / 2 + to[2] / 2, from[1], to[0]];
    let mut whole = answer.clone();
    apply_rgba8(&original, &mut whole, 0, true, &compose);
    let mut parts = answer.clone();
    let chunk = chunk_bytes(parts.len(), 5);
    for (o, a) in original.chunks(chunk).zip(parts.chunks_mut(chunk)) {
        apply_rgba8(o, a, 0, true, &compose);
    }
    assert_eq!(parts, whole);
}

fn decode(byte: u8) -> f32 {
    let c = f32::from(byte) / 255.0;
    if c <= 0.04045 {
        c / 12.92
    } else {
        ((c + 0.055) / 1.055).powf(2.4)
    }
}

fn encode(linear: f32) -> u8 {
    let c = linear.clamp(0.0, 1.0);
    let encoded = if c <= 0.0031308 { c * 12.92 } else { 1.055 * c.powf(1.0 / 2.4) - 0.055 };
    (encoded.clamp(0.0, 1.0) * 255.0).round() as u8
}

fn knee_pixel(colour: [u8; 3]) -> [u8; 3] {
    let mut v = [decode(colour[0]), decode(colour[1]), decode(colour[2])];
    let luma = 0.2126 * v[0] + 0.7152 * v[1] + 0.0722 * v[2];
    if luma > 0.75 {
        let rolled = 0.75 + 0.25 * (1.0 - (-(luma - 0.75) / 0.25).exp());
        v = v.map(|c| c * (rolled / luma));
    }
    let peak = v[0].max(v[1]).max(v[2]);
    if peak > 1.0 {
        v = v.map(|c| c / peak);
    }
    [encode(v[0]), encode(v[1]), encode(v[2])]
}

#[test]
fn comparing_a_reference_encode_against_itself_is_exact() {
    let frame: Vec<u8> = (0..64u32).flat_map(|i| [(i * 3) as u8, (i * 5) as u8, (i * 7) as u8, 255]).collect();
    let encoded: Vec<u8> =
        frame.chunks_exact(4).flat_map(|p| reference_encode_pixel([p[0], p[1], p[2], p[3]], false, &knee_pixel)).collect();
    let c = compare_to_reference(&frame, &encoded, false, &knee_pixel).expect("same raster");
    assert_eq!(c.max_delta, 0, "reference disagreed with itself");
    assert_eq!(c.total, 0);
    assert_eq!(c.pixels, 64);
}

#[test]
fn the_self_check_catches_a_swapped_channel_order() {
    let frame: Vec<u8> = (0..32u32).flat_map(|i| [255u8, 250, (i * 2) as u8, 255]).collect();
    let wrong_order: Vec<u8> =
        frame.chunks_exact(4).flat_map(|p| reference_encode_pixel([p[0], p[1], p[2], p[3]], true, &knee_pixel)).collect();
    let max = compare_to_reference(&frame, &wrong_order, false, &knee_pixel).expect("same raster").max_delta;
    assert!(max > 4, "a swapped channel order only moved {max} counts -- the check would not catch it");
}

#[test]
fn the_self_check_refuses_mismatched_rasters_rather_than_reporting_nonsense() {
    assert!(compare_to_reference(&[0; 64], &[0; 32], false, &knee_pixel).is_none());
    assert!(compare_to_reference(&[0; 3], &[0; 3], false, &knee_pixel).is_none());
}

#[test]
fn a_comparison_counts_colours_and_not_alpha() {
    let same = |c: [u8; 3]| c;
    let c = compare_to_reference(&[10, 20, 30, 0, 1, 1, 1, 1, 7], &[13, 20, 25, 200, 1, 2, 1, 1, 0], true, &same);
    assert_eq!(c, Some(Comparison { max_delta: 5, total: 9, pixels: 2 }));
    assert_eq!(reference_encode_pixel([1, 2, 3, 4], true, &|c: [u8; 3]| [c[0] + 10, c[1], c[2]]), [1, 2, 13, 4]);
}

#[test]
fn the_byte_order_says_where_a_channel_is_stored() {
    let curve = |c: [u8; 3]| [c[0] / 2, c[1] / 3, c[2] / 4];
    let o = reference_encode_pixel([200, 90, 40, 7], false, &curve);
    assert_eq!(o, [100, 30, 10, 7]);
    assert_eq!(reference_encode_pixel([40, 90, 200, 7], true, &curve), [o[2], o[1], o[0], 7]);
}

#[test]
fn modes_choose_their_curves() {
    assert_eq!(curve_for(0, 0, 2), Curve::Knee);
    assert_eq!(curve_for(1, 0, 2), Curve::Neutwo);
    assert_eq!(curve_for(2, 0, 2), Curve::Hybrid);
    assert_eq!(curve_for(9, 0, 2), Curve::Hybrid);
}

fn frame_of(w: u32, h: u32, f: impl Fn(u32, u32) -> u8) -> Vec<u8> {
    (0..w * h)
        .flat_map(|i| {
            let v = f(i % w, i / w);
            [v, v, v, 255]
        })
        .collect()
}

fn meter_white(frame: &[u8], w: u32, h: u32, bgr: bool) -> Option<f32> {
    let samples = meter_samples(frame, w, h, bgr)?;
    let levels: Vec<u32> =
        samples.iter().map(|s| (0.2126 * decode(s.0) + 0.7152 * decode(s.1) + 0.0722 * decode(s.2)).to_bits()).collect();
    let peaks = meter_peaks(&levels);
    let top = brightest(&peaks);
    let lit = (f32::from_bits(top) * 0.10).to_bits();
    white_level(&peaks, top, lit, 1e-6f32.to_bits(), 1e-4f32.to_bits()).map(f32::from_bits)
}

#[test]
fn the_white_meter_reads_the_scene_not_a_highlight_or_the_dark() {
    let (w, h) = (256u32, 128u32);
    let mut dim = frame_of(w, h, |_, _| 150);
    let o = ((10 * w + 10) * 4) as usize;
    dim[o..o + 3].copy_from_slice(&[255, 255, 255]);
    let white = meter_white(&dim, w, h, false).expect("a lit scene is measured");
    assert!((white - 0.305).abs() < 0.01, "the dim scene's white, not the highlight: {white}");
    let dark = frame_of(w, h, |x, y| if x < 20 && y < 20 { 200 } else { 0 });
    assert_eq!(meter_white(&dark, w, h, false), None);
}

#[test]
fn frames_that_cannot_be_metered_are_not() {
    assert!(meter_samples(&[0; 63 * 64 * 4], 63, 64, false).is_none());
    assert!(meter_samples(&[0; 64 * 64 * 4 - 1], 64, 64, false).is_none());
    let frame: Vec<u8> = (0..64 * 64).flat_map(|_| [1u8, 2, 3, 4]).collect();
    assert_eq!(meter_samples(&frame, 64, 64, false).unwrap()[0], (1, 2, 3));
    assert_eq!(meter_samples(&frame, 64, 64, true).unwrap()[4096], (3, 2, 1));
    assert_eq!(meter_white(&frame_of(64, 64, |_, _| 0), 64, 64, false), None);
    assert_eq!(ranked(&[5, 1, 9, 1], 0), 1);
    assert_eq!(ranked(&[5, 1, 9, 1], 2), 5);
    assert_eq!(ranked(&[5, 1, 9, 1], 3), 9);
}

fn effective_working_scale(width: u32, height: u32, requested: f32) -> f32 {
    let mut scale = if requested.is_finite() && requested > 0.0 { requested.min(1.0) } else { 1.0 };
    let frame_pixels = (u64::from(width) * u64::from(height)).max(1) as f64;
    let cap = max_model_pixels(None) as f64;
    if frame_pixels * f64::from(scale) * f64::from(scale) > cap {
        scale = (cap / frame_pixels).sqrt() as f32;
    }
    scale
}

fn scaled(width: u32, height: u32, scale: f32) -> (u32, u32) {
    let half = |v: u32| (v as f32 * scale * 0.5 - 0.5).ceil() as u32;
    let frame = if !scale.is_finite() || scale <= 0.0 {
        None
    } else {
        Some(ScaledFrame { near_one: (scale - 1.0).abs() < 0.01, half_width: half(width), half_height: half(height) })
    };
    scaled_dims(width, height, max_model_pixels(None), frame)
}

#[test]
fn scale_never_exceeds_one_and_bad_values_mean_one() {
    assert_eq!(effective_working_scale(1920, 1080, 1.5), 1.0);
    assert_eq!(effective_working_scale(1920, 1080, 0.0), 1.0);
    assert_eq!(effective_working_scale(1920, 1080, f32::NAN), 1.0);
    assert_eq!(effective_working_scale(1920, 1080, 0.5), 0.5);
}

#[test]
fn any_resolution_is_brought_under_the_model_pixel_cap() {
    for (w, h) in [(1280, 720), (2560, 1440), (3840, 2160), (5760, 3240), (7680, 4320), (5120, 1440), (3440, 1440), (7680, 2160)] {
        for requested in [0.5f32, 0.75, 1.0, 1.5, 2.0] {
            let (mw, mh) = scaled(w, h, effective_working_scale(w, h, requested));
            assert!(
                u64::from(mw) * u64::from(mh) <= DEFAULT_MAX_MODEL_PIXELS + u64::from(mw) + u64::from(mh),
                "{w}x{h} at {requested} gave a {mw}x{mh} model raster, over the cap"
            );
            assert!(mw <= w && mh <= h, "{w}x{h} at {requested}: model raster {mw}x{mh} is larger than the frame");
            assert!(mw >= 64 && mh >= 64 && mw % 2 == 0 && mh % 2 == 0);
        }
    }
}

#[test]
fn odd_frames_get_an_even_model_raster() {
    assert_eq!(scaled(2493, 1408, effective_working_scale(2493, 1408, 1.0)), (2492, 1408));
    assert_eq!(scaled(1365, 767, effective_working_scale(1365, 767, 1.0)), (1364, 766));
    for (w, h) in [(2493u32, 1408u32), (1365, 767), (3441, 1441)] {
        for scale in [0.5f32, 0.75, 1.0] {
            let (mw, mh) = scaled(w, h, effective_working_scale(w, h, scale));
            assert!(mw % 2 == 0 && mh % 2 == 0, "{w}x{h} at {scale}: {mw}x{mh}");
        }
    }
}

#[test]
fn a_frame_under_the_cap_is_left_alone() {
    assert_eq!(scaled(2560, 1440, effective_working_scale(2560, 1440, 1.0)), (2560, 1440));
    assert_eq!(scaled(3840, 2160, effective_working_scale(3840, 2160, 1.0)), (3840, 2160));
    assert_eq!(scaled(5760, 3240, effective_working_scale(5760, 3240, 1.5)), (3840, 2160));
}

#[test]
fn the_pixel_limit_can_be_configured() {
    assert_eq!(max_model_pixels(None), 3840 * 2160);
    assert_eq!(max_model_pixels(Some("1000000")), 1_000_000);
    assert_eq!(max_model_pixels(Some("+4096")), 4096);
    assert_eq!(max_model_pixels(Some("4095")), 3840 * 2160);
    assert_eq!(max_model_pixels(Some("-1")), 3840 * 2160);
    assert_eq!(max_model_pixels(Some("")), 3840 * 2160);
    assert_eq!(max_model_pixels(Some("12 ")), 3840 * 2160);
    assert_eq!(max_model_pixels(Some("18446744073709551615")), u64::MAX);
    assert_eq!(max_model_pixels(Some("18446744073709551616")), 3840 * 2160);
}

fn halves(half_width: u32, half_height: u32) -> Option<ScaledFrame> {
    Some(ScaledFrame { near_one: false, half_width, half_height })
}

#[test]
fn a_scaled_edge_is_the_nearest_even_number() {
    // 131.25 is nearer to 132 than to 130.
    assert_eq!(scaled(175, 175, 0.75), (132, 132));
    assert_eq!(scaled(174, 172, 0.75), (130, 128));
    // An edge is never scaled below 64 pixels, and never beyond what an edge can be.
    assert_eq!(scaled_dims(100, 90, DEFAULT_MAX_MODEL_PIXELS, halves(25, 23)), (64, 64));
    assert_eq!(scaled_dims(100, 90, DEFAULT_MAX_MODEL_PIXELS, halves(38, 34)), (76, 68));
    assert_eq!(scaled_dims(100, 90, DEFAULT_MAX_MODEL_PIXELS, halves(u32::MAX, 32)), (u32::MAX - 1, 64));
    // Without a scale the frame keeps its size, but for an odd edge.
    assert_eq!(scaled_dims(101, 90, DEFAULT_MAX_MODEL_PIXELS, None), (100, 90));
    assert_eq!(scaled(101, 90, f32::NAN), (100, 90));
}

#[test]
fn a_frame_just_over_the_limit_is_scaled_all_the_same() {
    let cap = DEFAULT_MAX_MODEL_PIXELS;
    for (w, h) in [(3860u32, 2160u32), (3842, 2160), (3840, 2162), (3841, 2161)] {
        let (mw, mh) = scaled(w, h, effective_working_scale(w, h, 1.0));
        assert!(u64::from(mw) * u64::from(mh) <= cap + u64::from(mw) + u64::from(mh), "{w}x{h}: {mw}x{mh}");
        assert!(mw <= w && mh <= h && (mw, mh) != (w, h));
    }
    assert!(scale_is_of_use(true, 3860, 2160, cap));
    assert!(!scale_is_of_use(true, 3840, 2160, cap));
    assert!(scale_is_of_use(false, 64, 64, cap));
}
