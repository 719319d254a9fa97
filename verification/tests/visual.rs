use musializer::visual::{CircleCenterDisplay, ColorTheme, ExportConfig, VisualizerMode};

#[test]
fn theme_names() {
    assert_eq!(ColorTheme::CyberNeon.name(), "Cyber Neon");
    assert_eq!(ColorTheme::SunsetGlow.name(), "Sunset Glow");
    assert_eq!(ColorTheme::EmeraldDeep.name(), "Emerald Deep");
    assert_eq!(ColorTheme::Monochrome.name(), "Monochrome");
}

#[test]
fn mode_names() {
    assert_eq!(VisualizerMode::SpectrumBars.name(), "Spectrum Bars");
    assert_eq!(VisualizerMode::Waveform.name(), "Oscilloscope Wave");
    assert_eq!(VisualizerMode::Circular.name(), "Circular Pulse");
}

#[test]
fn center_display_names() {
    assert_eq!(CircleCenterDisplay::Minimal.name(), "Minimal Glow");
    assert_eq!(CircleCenterDisplay::TimeElapsed.name(), "Time Elapsed");
    assert_eq!(CircleCenterDisplay::TimeRemaining.name(), "Time Remaining");
    assert_eq!(CircleCenterDisplay::TrackTitle.name(), "Track Title");
    assert_eq!(CircleCenterDisplay::CustomCoverArt.name(), "Cover Art / Logo");
}

#[test]
fn default_export_config() {
    let c = ExportConfig::default();
    assert_eq!(c.output_path, "visualizer_output.mp4");
    assert_eq!((c.width, c.height, c.fps), (1920, 1080, 60));
    assert_eq!(c.mode, VisualizerMode::SpectrumBars);
    assert_eq!(c.theme, ColorTheme::CyberNeon);
    assert_eq!(c.num_bands, 80);
}
