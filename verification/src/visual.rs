//! Visualizer settings: display modes, colour palettes, the content of the
//! circular mode's centre, and the video export configuration.
use vstd::prelude::*;

verus! {

/// Colour palette of the visualizer.
#[derive(Clone, Copy, Debug, PartialEq, Eq, Structural)]
pub enum ColorTheme {
    /// Neon cyan to hot magenta.
    CyberNeon,
    /// Radiant amber to crimson.
    SunsetGlow,
    /// Mint green to oceanic blue.
    EmeraldDeep,
    /// Minimalist silver.
    Monochrome,
}

impl ColorTheme {
    /// Display name of the palette.
    pub fn name(&self) -> (label: &'static str)
        ensures
            label@ == match *self {
                ColorTheme::CyberNeon => "Cyber Neon"@,
                ColorTheme::SunsetGlow => "Sunset Glow"@,
                ColorTheme::EmeraldDeep => "Emerald Deep"@,
                ColorTheme::Monochrome => "Monochrome"@,
            },
    {
        match self {
            ColorTheme::CyberNeon => "Cyber Neon",
            ColorTheme::SunsetGlow => "Sunset Glow",
            ColorTheme::EmeraldDeep => "Emerald Deep",
            ColorTheme::Monochrome => "Monochrome",
        }
    }
}

/// How the spectrum is drawn.
#[derive(Clone, Copy, Debug, PartialEq, Eq, Structural)]
pub enum VisualizerMode {
    SpectrumBars,
    Waveform,
    Circular,
}

impl VisualizerMode {
    /// Display name of the mode.
    pub fn name(&self) -> (label: &'static str)
        ensures
            label@ == match *self {
                VisualizerMode::SpectrumBars => "Spectrum Bars"@,
                VisualizerMode::Waveform => "Oscilloscope Wave"@,
                VisualizerMode::Circular => "Circular Pulse"@,
            },
    {
        match self {
            VisualizerMode::SpectrumBars => "Spectrum Bars",
            VisualizerMode::Waveform => "Oscilloscope Wave",
            VisualizerMode::Circular => "Circular Pulse",
        }
    }
}

/// What the centre of the circular visualizer shows.
#[derive(Clone, Copy, Debug, PartialEq, Eq, Structural)]
pub enum CircleCenterDisplay {
    /// Nothing but the glowing core.
    Minimal,
    TimeElapsed,
    TimeRemaining,
    TrackTitle,
    CustomCoverArt,
}

impl CircleCenterDisplay {
    /// Display name of the centre content.
    pub fn name(&self) -> (label: &'static str)
        ensures
            label@ == match *self {
                CircleCenterDisplay::Minimal => "Minimal Glow"@,
                CircleCenterDisplay::TimeElapsed => "Time Elapsed"@,
                CircleCenterDisplay::TimeRemaining => "Time Remaining"@,
                CircleCenterDisplay::TrackTitle => "Track Title"@,
                CircleCenterDisplay::CustomCoverArt => "Cover Art / Logo"@,
            },
    {
        match self {
            CircleCenterDisplay::Minimal => "Minimal Glow",
            CircleCenterDisplay::TimeElapsed => "Time Elapsed",
            CircleCenterDisplay::TimeRemaining => "Time Remaining",
            CircleCenterDisplay::TrackTitle => "Track Title",
            CircleCenterDisplay::CustomCoverArt => "Cover Art / Logo",
        }
    }
}

/// Settings of an offline video export.
#[derive(Clone, Debug)]
pub struct ExportConfig {
    /// Where the encoded video is written.
    pub output_path: String,
    pub width: u32,
    pub height: u32,
    pub fps: u32,
    pub mode: VisualizerMode,
    pub theme: ColorTheme,
    pub num_bands: usize,
}

impl Default for ExportConfig {
    /// A 1920x1080, 60 fps spectrum-bar video in the Cyber Neon palette with 80
    /// bands, written to `visualizer_output.mp4`.
    fn default() -> (config: Self)
        ensures
            config.output_path@ == "visualizer_output.mp4"@,
            config.width == 1920,
            config.height == 1080,
            config.fps == 60,
            config.mode == VisualizerMode::SpectrumBars,
            config.theme == ColorTheme::CyberNeon,
            config.num_bands == 80,
    {
        ExportConfig {
            output_path: "visualizer_output.mp4".to_owned(),
            width: 1920,
            height: 1080,
            fps: 60,
            mode: VisualizerMode::SpectrumBars,
            theme: ColorTheme::CyberNeon,
            num_bands: 80,
        }
    }
}

} // verus!
