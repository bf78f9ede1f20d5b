//! Runtime settings a project declares, with the engine's defaults, and
//! the viewport modes the runtime can scale the game with.

use vstd::prelude::*;
use crate::menu::{MenuSettings, is_default_menu_screens};
use crate::text::{chars_of, lowercased, seq_eq_str, ascii_lower};

verus! {

#[derive(Debug, Clone, PartialEq, Eq)]
pub struct ProjectRuntimeMetadata {
    pub runtime: RuntimeSettings,
}

#[derive(Debug, Clone, PartialEq, Eq)]
pub struct RuntimeSettings {
    pub splash: RuntimeSplashSettings,
    pub audio: RuntimeAudioMixSettings,
    pub display: RuntimeDisplaySettings,
    pub menu: MenuSettings,
}

#[derive(Debug, Clone, PartialEq, Eq)]
pub struct RuntimeSplashSettings {
    pub duration_ms: u64,
}

#[derive(Debug, Clone, PartialEq, Eq)]
pub struct RuntimeAudioMixSettings {
    pub master_percent: u8,
    pub music_percent: u8,
    pub movement_percent: u8,
    pub collision_percent: u8,
}

#[derive(Debug, Clone, PartialEq, Eq)]
pub struct RuntimeDisplaySettings {
    pub show_entity_health_bars: bool,
    pub show_ground_shadows: bool,
    pub indexed_palette_override: Option<String>,
    pub resolution_width: u32,
    pub resolution_height: u32,
}

/// The kind of game a project starts from.
#[derive(Debug, Clone, Copy, PartialEq, Eq, Structural)]
pub enum ProjectPreset {
    Topdown,
}

impl ProjectPreset {
    /// The resolution a preset renders at by default; a top-down game uses
    /// the handheld's 160x144.
    pub fn default_resolution(self) -> (r: (u32, u32))
        ensures
            self == ProjectPreset::Topdown ==> r == (160u32, 144u32),
    {
        match self {
            ProjectPreset::Topdown => (160, 144),
        }
    }
}

#[derive(Debug, Clone, PartialEq, Eq)]
pub struct RuntimeConfigFile {
    pub version: u32,
    pub bundle_name: Option<String>,
    pub pack: Option<RuntimeConfigPack>,
    pub startup: Option<RuntimeConfigStartup>,
    pub splash: Option<RuntimeConfigSplash>,
    pub audio: Option<RuntimeConfigAudio>,
    pub display: Option<RuntimeConfigDisplay>,
    pub menu: Option<MenuSettings>,
}

#[derive(Debug, Clone, PartialEq, Eq)]
pub struct RuntimeConfigPack {
    pub path: String,
    pub enabled: bool,
}

#[derive(Debug, Clone, PartialEq, Eq)]
pub struct RuntimeConfigStartup {
    pub scene: Option<String>,
}

#[derive(Debug, Clone, PartialEq, Eq)]
pub struct RuntimeConfigSplash {
    pub duration_ms: Option<u64>,
}

#[derive(Debug, Clone, PartialEq, Eq)]
pub struct RuntimeConfigAudio {
    pub master_percent: Option<u8>,
    pub music_percent: Option<u8>,
    pub movement_percent: Option<u8>,
    pub collision_percent: Option<u8>,
}

#[derive(Debug, Clone, PartialEq, Eq)]
pub struct RuntimeConfigDisplay {
    pub show_entity_health_bars: Option<bool>,
}

pub fn default_runtime_splash_duration_ms() -> (r: u64)
    ensures
        r == 3000,
{
    3000
}

pub fn default_runtime_audio_mix_percent() -> (r: u8)
    ensures
        r == 100,
{
    100
}

impl Default for RuntimeSplashSettings {
    fn default() -> (r: Self)
        ensures
            r.duration_ms == 3000,
    {
        RuntimeSplashSettings { duration_ms: default_runtime_splash_duration_ms() }
    }
}

impl Default for RuntimeAudioMixSettings {
    fn default() -> (r: Self)
        ensures
            r.master_percent == 100,
            r.music_percent == 100,
            r.movement_percent == 100,
            r.collision_percent == 100,
    {
        RuntimeAudioMixSettings {
            master_percent: default_runtime_audio_mix_percent(),
            music_percent: default_runtime_audio_mix_percent(),
            movement_percent: default_runtime_audio_mix_percent(),
            collision_percent: default_runtime_audio_mix_percent(),
        }
    }
}

impl Default for RuntimeDisplaySettings {
    /// Health bars off, ground shadows on, no palette override, at the
    /// top-down preset's resolution.
    fn default() -> (r: Self)
        ensures
            !r.show_entity_health_bars,
            r.show_ground_shadows,
            r.indexed_palette_override is None,
            r.resolution_width == 160,
            r.resolution_height == 144,
    {
        let (resolution_width, resolution_height) = ProjectPreset::Topdown.default_resolution();
        RuntimeDisplaySettings {
            show_entity_health_bars: false,
            show_ground_shadows: true,
            indexed_palette_override: None,
            resolution_width,
            resolution_height,
        }
    }
}

/// The engine's baseline runtime settings.
pub open spec fn is_default_runtime_settings(r: RuntimeSettings) -> bool {
    &&& r.splash.duration_ms == 3000
    &&& r.audio.master_percent == 100
    &&& r.audio.music_percent == 100
    &&& r.audio.movement_percent == 100
    &&& r.audio.collision_percent == 100
    &&& !r.display.show_entity_health_bars
    &&& r.display.show_ground_shadows
    &&& r.display.indexed_palette_override is None
    &&& r.display.resolution_width == 160
    &&& r.display.resolution_height == 144
    &&& r.menu.pause_root_screen_id@ == "pause_menu"@
    &&& r.menu.gate_gameplay_when_open
    &&& is_default_menu_screens(r.menu.screens@)
}

impl Default for RuntimeSettings {
    fn default() -> (r: Self)
        ensures
            is_default_runtime_settings(r),
    {
        RuntimeSettings {
            splash: RuntimeSplashSettings::default(),
            audio: RuntimeAudioMixSettings::default(),
            display: RuntimeDisplaySettings::default(),
            menu: MenuSettings::default(),
        }
    }
}

impl Default for ProjectRuntimeMetadata {
    fn default() -> (r: Self)
        ensures
            is_default_runtime_settings(r.runtime),
    {
        ProjectRuntimeMetadata { runtime: RuntimeSettings::default() }
    }
}

// ---------------------------------------------------------------------------
// Viewport
// ---------------------------------------------------------------------------

#[derive(Debug, Clone, Copy, PartialEq, Eq, Structural)]
pub enum RuntimeViewportMode {
    AspectFit { fit_percent: u16 },
    IntegerScale { factor: IntegerScaleFactor },
}

#[derive(Debug, Clone, Copy, PartialEq, Eq, Structural)]
pub enum IntegerScaleFactor {
    Auto,
    Fixed(u8),
}

impl Default for IntegerScaleFactor {
    fn default() -> (r: Self)
        ensures
            r == IntegerScaleFactor::Auto,
    {
        IntegerScaleFactor::Auto
    }
}

pub fn default_aspect_fit_percent() -> (r: u16)
    ensures
        r == 100,
{
    100
}

pub fn default_runtime_viewport_mode() -> (r: RuntimeViewportMode)
    ensures
        r == (RuntimeViewportMode::IntegerScale { factor: IntegerScaleFactor::Auto }),
{
    RuntimeViewportMode::IntegerScale { factor: IntegerScaleFactor::Auto }
}

impl Default for RuntimeViewportMode {
    fn default() -> (r: Self)
        ensures
            r == (RuntimeViewportMode::IntegerScale { factor: IntegerScaleFactor::Auto }),
    {
        default_runtime_viewport_mode()
    }
}

impl RuntimeViewportMode {
    /// The share of the window an aspect-fit viewport fills (at least 1
    /// percent); integer scaling reports the default.
    pub fn fit_percent(self) -> (r: u16)
        ensures
            r == (match self {
                RuntimeViewportMode::AspectFit { fit_percent } => if fit_percent >= 1 { fit_percent } else { 1 },
                RuntimeViewportMode::IntegerScale { .. } => 100,
            }),
            r >= 1,
    {
        match self {
            RuntimeViewportMode::AspectFit { fit_percent } => if fit_percent >= 1 { fit_percent } else { 1 },
            RuntimeViewportMode::IntegerScale { .. } => default_aspect_fit_percent(),
        }
    }
}

impl IntegerScaleFactor {
    /// The factor a configuration word names: only `auto`, in any case.
    pub fn from_text(value: &str) -> (r: Option<IntegerScaleFactor>)
        ensures
            r is Some <==> ascii_lower(value@) == "auto"@,
            r matches Some(f) ==> f == IntegerScaleFactor::Auto,
    {
        let l = lowercased(&chars_of(value));
        if seq_eq_str(&l, "auto") {
            Some(IntegerScaleFactor::Auto)
        } else {
            None
        }
    }

    /// The factor a configured number names: a fixed factor from 1 to 255.
    pub fn from_unsigned(value: u64) -> (r: Option<IntegerScaleFactor>)
        ensures
            r is Some <==> 1 <= value <= 255,
            r matches Some(f) ==> f == IntegerScaleFactor::Fixed(value as u8),
    {
        if value == 0 || value > 255 {
            None
        } else {
            Some(IntegerScaleFactor::Fixed(value as u8))
        }
    }

    /// The factor a configured signed number names: as the unsigned one,
    /// negative numbers refused.
    pub fn from_signed(value: i64) -> (r: Option<IntegerScaleFactor>)
        ensures
            r is Some <==> 1 <= value <= 255,
            r matches Some(f) ==> f == IntegerScaleFactor::Fixed(value as u8),
    {
        if value < 0 {
            None
        } else {
            IntegerScaleFactor::from_unsigned(value as u64)
        }
    }
}

} // verus!
