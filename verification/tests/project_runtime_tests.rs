use toki_core::project_runtime::{
    IntegerScaleFactor, ProjectPreset, ProjectRuntimeMetadata, RuntimeDisplaySettings,
    RuntimeSettings, RuntimeViewportMode,
};

#[test]
fn project_preset_topdown_returns_gameboy_resolution() {
    let preset = ProjectPreset::Topdown;
    let (width, height) = preset.default_resolution();

    assert_eq!(width, 160);
    assert_eq!(height, 144);
}

#[test]
fn runtime_display_settings_defaults_to_topdown_resolution() {
    let display = RuntimeDisplaySettings::default();

    assert_eq!(display.resolution_width, 160);
    assert_eq!(display.resolution_height, 144);
}

#[test]
fn runtime_display_settings_default_enable_ground_shadows() {
    let display = RuntimeDisplaySettings::default();

    assert!(display.show_ground_shadows);
}

// ---------------------------------------------------------------------------
// Further cases
// ---------------------------------------------------------------------------

#[test]
fn runtime_settings_defaults_match_engine_baseline() {
    let settings = RuntimeSettings::default();
    assert_eq!(settings.splash.duration_ms, 3000);
    assert_eq!(settings.audio.master_percent, 100);
    assert_eq!(settings.audio.music_percent, 100);
    assert_eq!(settings.audio.movement_percent, 100);
    assert_eq!(settings.audio.collision_percent, 100);
    assert!(!settings.display.show_entity_health_bars);
    assert!(settings.display.show_ground_shadows);
    assert_eq!(settings.display.indexed_palette_override, None);
    assert_eq!(settings.display.resolution_width, 160);
    assert_eq!(settings.display.resolution_height, 144);
    assert_eq!(settings.menu.pause_root_screen_id, "pause_menu");
    assert_eq!(ProjectRuntimeMetadata::default().runtime, settings);
}

#[test]
fn integer_scale_factor_parses_text_and_numbers() {
    assert_eq!(IntegerScaleFactor::from_text("Auto"), Some(IntegerScaleFactor::Auto));
    assert_eq!(IntegerScaleFactor::from_text("AUTO"), Some(IntegerScaleFactor::Auto));
    assert_eq!(IntegerScaleFactor::from_text("3"), None);
        assert_eq!(IntegerScaleFactor::from_unsigned(0), None);
    assert_eq!(IntegerScaleFactor::from_unsigned(7), Some(IntegerScaleFactor::Fixed(7)));
    assert_eq!(IntegerScaleFactor::from_unsigned(256), None);
    assert_eq!(IntegerScaleFactor::from_signed(5), Some(IntegerScaleFactor::Fixed(5)));
    assert_eq!(IntegerScaleFactor::from_signed(-2), None);
    assert_eq!(IntegerScaleFactor::default(), IntegerScaleFactor::Auto);
}

#[test]
fn viewport_mode_fit_percent() {
    assert_eq!(RuntimeViewportMode::default().fit_percent(), 100);
    assert_eq!(RuntimeViewportMode::AspectFit { fit_percent: 0 }.fit_percent(), 1);
    assert_eq!(RuntimeViewportMode::AspectFit { fit_percent: 85 }.fit_percent(), 85);
}
