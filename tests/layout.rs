use spectrum_bars::{band_ranges, is_power_of_two, resolve_bin_range, resolve_bin_ranges, ConfigError, FrameLayout};

#[test]
fn powers_of_two_are_recognised() {
    for k in 0..20 {
        assert!(is_power_of_two(1usize << k));
    }
    for n in [0usize, 3, 6, 12, 2047, 2049, 3000] {
        assert!(!is_power_of_two(n));
    }
}

#[test]
fn default_layout_is_accepted() {
    let l = FrameLayout::new(2048, 64, 2048).unwrap();
    assert_eq!(l, FrameLayout { frame_length: 2048, bar_count: 64 });
    assert_eq!(l.spectrum_len(), 1024);
}

#[test]
fn smallest_layout_is_accepted() {
    let l = FrameLayout::new(4, 1, 4).unwrap();
    assert_eq!(l.spectrum_len(), 2);
}

#[test]
fn each_layout_error_is_returned() {
    assert_eq!(FrameLayout::new(2000, 64, 2000), Err(ConfigError::FrameLengthNotPowerOfTwo));
    assert_eq!(FrameLayout::new(0, 64, 0), Err(ConfigError::FrameLengthNotPowerOfTwo));
    assert_eq!(FrameLayout::new(2, 64, 2), Err(ConfigError::FrameTooShort));
    assert_eq!(FrameLayout::new(2048, 0, 2048), Err(ConfigError::NoBars));
    assert_eq!(FrameLayout::new(2048, 64, 1024), Err(ConfigError::WindowLengthMismatch));
}

#[test]
fn layout_errors_come_in_order() {
    assert_eq!(FrameLayout::new(6, 0, 1), Err(ConfigError::FrameLengthNotPowerOfTwo));
    assert_eq!(FrameLayout::new(2, 0, 1), Err(ConfigError::FrameTooShort));
    assert_eq!(FrameLayout::new(8, 0, 1), Err(ConfigError::NoBars));
}

fn log_edges(bars: usize, f_min: f32, f_max: f32) -> Vec<f32> {
    (0..=bars)
        .map(|i| f_min * (f_max / f_min).powf(i as f32 / bars as f32))
        .collect()
}

#[test]
fn bands_are_contiguous_and_span_the_range() {
    for &(bars, lo, hi) in &[(64usize, 20.0f32, 20000.0f32), (1, 50.0, 60.0), (7, 1.0, 22050.0)] {
        let edges = log_edges(bars, lo, hi);
        let r = band_ranges(&edges);
        assert_eq!(r.len(), bars);
        assert_eq!(r[0].0, lo);
        assert!((r[bars - 1].1 - hi).abs() <= hi * 1e-4);
        for i in 0..bars {
            assert!(r[i].0 < r[i].1);
            if i + 1 < bars {
                assert_eq!(r[i].1, r[i + 1].0);
            }
        }
    }
}

#[test]
fn single_edge_gives_no_band() {
    assert!(band_ranges(&[5u32]).is_empty());
}

#[test]
fn band_pairs_are_exact() {
    assert_eq!(band_ranges(&[1, 2, 4, 8]), vec![(1, 2), (2, 4), (4, 8)]);
}

#[test]
fn bin_range_leaves_out_dc() {
    assert_eq!(resolve_bin_range(0, 0, 1024), (1, 2));
    assert_eq!(resolve_bin_range(0, 3, 1024), (1, 3));
}

#[test]
fn bin_range_inside_spectrum_is_kept() {
    assert_eq!(resolve_bin_range(46, 49, 1024), (46, 49));
}

#[test]
fn bin_range_above_nyquist_is_clamped() {
    assert_eq!(resolve_bin_range(5000, 7000, 1024), (1023, 1024));
    assert_eq!(resolve_bin_range(900, 7000, 1024), (900, 1024));
}

#[test]
fn collapsed_bin_range_gets_one_bin() {
    assert_eq!(resolve_bin_range(10, 10, 1024), (10, 11));
    assert_eq!(resolve_bin_range(10, 4, 1024), (10, 11));
}

#[test]
fn smallest_spectrum_reads_its_one_bin() {
    assert_eq!(resolve_bin_range(0, 0, 2), (1, 2));
    assert_eq!(resolve_bin_range(9, 9, 2), (1, 2));
}

#[test]
fn every_band_of_default_layout_reads_bins() {
    // 64 log bands from 20 Hz to 20 kHz over a 2048-sample frame at several rates.
    let edges = log_edges(64, 20.0, 20000.0);
    let bands = band_ranges(&edges);
    for &rate in &[8000.0f32, 22050.0, 44100.0, 48000.0, 96000.0] {
        let res = rate / 2048.0;
        let raw: Vec<(usize, usize)> = bands
            .iter()
            .map(|&(lo, hi)| ((lo / res).floor() as usize, (hi / res).ceil() as usize))
            .collect();
        let r = resolve_bin_ranges(&raw, 1024);
        assert_eq!(r.len(), 64);
        for (i, &(lo, hi)) in r.iter().enumerate() {
            assert!(1 <= lo && lo < hi && hi <= 1024);
            assert_eq!((lo, hi), resolve_bin_range(raw[i].0, raw[i].1, 1024));
        }
    }
}

#[test]
fn bin_for_one_kilohertz() {
    // At 48 kHz with 2048 samples a bin is 23.4375 Hz wide: 1000 Hz lies in bin 42.
    let r = resolve_bin_ranges(&[(42, 43), (0, 1)], 1024);
    assert_eq!(r, vec![(42, 43), (1, 2)]);
}
