use color_cycle::compose::blend;
use color_cycle::cycle::{channel_byte, Overlay, Rgb, STEP, TURN};
use color_cycle::pack::{create_argb_buffer, pack_pixel};
use color_cycle::raster::Raster;

fn wave_level(point: u64) -> i32 {
    let radians = (point as f64) * 2.0 * std::f64::consts::PI / (TURN as f64);
    (radians.sin() * 255.0).round() as i32
}

fn color_at(overlay: &Overlay) -> Rgb {
    let (r, g, b) = overlay.sample_phases();
    Overlay::color_from_levels(wave_level(r), wave_level(g), wave_level(b))
}

fn pixel(raster: &Raster, i: usize) -> (u8, u8, u8, u8) {
    let d = &raster.data;
    (d[4 * i], d[4 * i + 1], d[4 * i + 2], d[4 * i + 3])
}

fn raster_of(width: u32, height: u32, px: &[(u8, u8, u8, u8)]) -> Raster {
    let mut data = Vec::new();
    for p in px {
        data.extend_from_slice(&[p.0, p.1, p.2, p.3]);
    }
    Raster::from_rgba(width, height, data).unwrap()
}

#[test]
fn pack_known_pixel() {
    assert_eq!(pack_pixel((10, 20, 30, 50)), 0x320A141E);
    assert_eq!(pack_pixel((0, 0, 0, 0)), 0);
    assert_eq!(pack_pixel((255, 255, 255, 255)), 0xFFFF_FFFF);
}

#[test]
fn argb_buffer_is_row_major() {
    let img = raster_of(2, 2, &[(1, 2, 3, 4), (5, 6, 7, 8), (9, 10, 11, 12), (13, 14, 15, 16)]);
    let buf = create_argb_buffer(&img);
    assert_eq!(buf, vec![0x04010203, 0x08050607, 0x0C090A0B, 0x100D0E0F]);
}

#[test]
fn argb_buffer_of_empty_raster() {
    let img = Raster::from_rgba(0, 3, Vec::new()).unwrap();
    assert!(create_argb_buffer(&img).is_empty());
}

#[test]
fn raster_rejects_wrong_length() {
    assert!(Raster::from_rgba(2, 2, vec![0; 15]).is_none());
    assert!(Raster::from_rgba(2, 2, vec![0; 17]).is_none());
    let r = Raster::from_rgba(2, 2, vec![7; 16]).unwrap();
    assert_eq!((r.width, r.height, r.data.len()), (2, 2, 16));
}

#[test]
fn green_at_known_phases() {
    let start = Overlay::new(50);
    assert_eq!(color_at(&start).g, 0);
    let quarter = Overlay { alpha: 50, phase: TURN / 4 };
    assert_eq!(color_at(&quarter).g, 255);
}

#[test]
fn color_at_phase_zero() {
    let c = color_at(&Overlay::new(50));
    // round(255 sin(2π/3)) = 221; round(255 sin(-2π/3)) = -221, clamped to 0.
    assert_eq!(c, Rgb { r: 221, g: 0, b: 0 });
}

#[test]
fn sample_points_are_shifted_by_a_third() {
    let o = Overlay { alpha: 0, phase: 3_000_000_000 };
    assert_eq!(o.sample_phases(), (600_000_000, 3_000_000_000, 1_800_000_000));
    assert_eq!(Overlay::new(0).sample_phases(), (1_200_000_000, 0, 2_400_000_000));
}

#[test]
fn channel_levels_are_clamped() {
    assert_eq!(channel_byte(-221), 0);
    assert_eq!(channel_byte(-1), 0);
    assert_eq!(channel_byte(0), 0);
    assert_eq!(channel_byte(128), 128);
    assert_eq!(channel_byte(255), 255);
    assert_eq!(channel_byte(256), 255);
}

#[test]
fn phase_wraps_into_the_turn() {
    let mut o = Overlay::new(50);
    let mut unwrapped: u64 = 0;
    for _ in 0..1000 {
        o.next_color();
        unwrapped += STEP;
        assert!(o.phase < TURN);
        assert_eq!(o.phase, unwrapped % TURN);
        assert_eq!(o.alpha, 50);
    }
}

#[test]
fn first_wrap_matches_reduced_phase() {
    let mut o = Overlay::new(10);
    let mut n: u64 = 0;
    while o.phase + STEP < TURN {
        o.next_color();
        n += 1;
    }
    o.next_color();
    n += 1;
    assert_eq!(n, 63);
    assert_eq!(o.phase, 63 * STEP - TURN);
    let reduced = Overlay { alpha: 10, phase: (63 * STEP) % TURN };
    assert_eq!(color_at(&o), color_at(&reduced));
}

#[test]
fn transparent_tint_leaves_base() {
    let base = raster_of(2, 1, &[(12, 34, 56, 255), (200, 100, 0, 128)]);
    let out = blend(&base, Rgb { r: 250, g: 1, b: 2 }, 0);
    assert_eq!(out.data, base.data);
}

#[test]
fn opaque_tint_replaces_base() {
    let base = raster_of(2, 1, &[(12, 34, 56, 255), (200, 100, 0, 128)]);
    let out = blend(&base, Rgb { r: 250, g: 1, b: 2 }, 255);
    assert_eq!(pixel(&out, 0), (250, 1, 2, 255));
    assert_eq!(pixel(&out, 1), (250, 1, 2, 255));
}

#[test]
fn blending_keeps_base() {
    let base = raster_of(2, 1, &[(12, 34, 56, 255), (200, 100, 0, 255)]);
    let copy = base.data.clone();
    let first = blend(&base, Rgb { r: 255, g: 0, b: 0 }, 128);
    assert_eq!(base.data, copy);
    let second = blend(&base, Rgb { r: 0, g: 0, b: 255 }, 128);
    assert_eq!(base.data, copy);
    let fresh = raster_of(2, 1, &[(12, 34, 56, 255), (200, 100, 0, 255)]);
    assert_eq!(second.data, blend(&fresh, Rgb { r: 0, g: 0, b: 255 }, 128).data);
    assert_ne!(first.data, second.data);
}

fn over(src: u8, dst: u8, alpha: u8) -> f64 {
    let a = alpha as f64 / 255.0;
    src as f64 * a + dst as f64 * (1.0 - a)
}

#[test]
fn red_base_end_to_end() {
    let base = raster_of(2, 2, &[(255, 0, 0, 255); 4]);
    let overlay = Overlay::new(50);
    let color = color_at(&overlay);
    assert_eq!(color, Rgb { r: 221, g: 0, b: 0 });
    let out = blend(&base, color, overlay.alpha);
    assert_eq!((out.width, out.height, out.data.len()), (2, 2, 16));
    let buf = create_argb_buffer(&out);
    assert_eq!(buf.len(), 4);
    for i in 0..4 {
        let (r, g, b, a) = pixel(&out, i);
        assert!((r as f64 - over(221, 255, 50)).abs() <= 1.0);
        assert_eq!(r, 248);
        assert_eq!((g, b), (0, 0));
        assert!(a >= 254);
        let word = ((a as u32) << 24) | ((r as u32) << 16) | ((g as u32) << 8) | b as u32;
        assert_eq!(buf[i], word);
    }
}

#[test]
fn translucent_tint_changes_pixel() {
    let base = raster_of(1, 1, &[(0, 0, 0, 255)]);
    let out = blend(&base, Rgb { r: 255, g: 255, b: 255 }, 128);
    let (r, g, b, _) = pixel(&out, 0);
    assert!((r as f64 - over(255, 0, 128)).abs() <= 1.0);
    assert_eq!((r, g, b), (r, r, r));
    assert!(r > 0);
}
