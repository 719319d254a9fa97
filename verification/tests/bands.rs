use musializer::bands::FrequencyBands;

#[test]
fn band_edges_are_clamped_into_spectrum() {
    let edges = [(0, 0), (5, 3), (100, 200), (2, 4)];
    let bands = FrequencyBands::new(4, 16, &edges);
    assert_eq!(bands.num_bands(), 4);
    // 16-point FFT: 8 bins; an empty band grows to one bin, edges stay in range
    assert_eq!(bands.band_bins(0, 8), Some((0, 1)));
    assert_eq!(bands.band_bins(1, 8), Some((5, 6)));
    assert_eq!(bands.band_bins(2, 8), Some((7, 8)));
    assert_eq!(bands.band_bins(3, 8), Some((2, 4)));
}

#[test]
fn bands_beyond_available_bins_are_skipped() {
    let edges = [(1, 3), (6, 8)];
    let bands = FrequencyBands::new(2, 16, &edges);
    assert_eq!(bands.band_bins(0, 2), Some((1, 2)));
    assert_eq!(bands.band_bins(1, 6), None);
    assert_eq!(bands.band_bins(0, 1), None);
    assert_eq!(bands.band_bins(1, 7), Some((6, 7)));
}

#[test]
fn every_band_is_nonempty_and_inside_spectrum() {
    let mut edges = Vec::new();
    for a in 0..12usize {
        for b in 0..12usize {
            edges.push((a, b));
        }
    }
    let bands = FrequencyBands::new(edges.len(), 20, &edges);
    for i in 0..edges.len() {
        let (lo, hi) = bands.band_bins(i, 10).expect("band inside a 10-bin spectrum");
        assert!(lo < hi && hi <= 10);
    }
}

#[test]
fn tiny_fft_gives_empty_bands() {
    let edges = [(0, 5), (3, 1)];
    let bands = FrequencyBands::new(2, 1, &edges);
    assert_eq!(bands.band_bins(0, 10), None);
    assert_eq!(bands.band_bins(1, 10), None);
}
