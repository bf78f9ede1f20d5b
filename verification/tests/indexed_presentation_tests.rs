use toki_core::image::DecodedImage;
use toki_core::indexed_presentation::{
    materialize_indexed_image, resolve_indexed_palette, texture_material_cache_key, ColorMode,
    IndexedImageMaterialization, IndexedPresentationSettings,
};
use toki_core::palette::{builtin_palettes, resolve_palette, Palette, PaletteSize};

#[test]
fn resolve_indexed_palette_prefers_project_override() {
    let mut palettes = builtin_palettes();
    palettes.insert(
        "custom".to_string(),
        Palette::new(PaletteSize::Pal4, vec![[1, 2, 3, 255]; 4]).unwrap(),
    );
    let settings = IndexedPresentationSettings {
        indexed_palette_override: Some("custom".to_string()),
    };

    let resolved = resolve_indexed_palette(
        ColorMode::PaletteIndexed,
        &palettes,
        &settings,
        Some("poison"),
        Some("gb_default"),
    )
    .expect("palette should resolve")
    .expect("indexed palette should resolve");

    assert_eq!(resolved.0, "custom");
}

#[test]
fn materialize_indexed_image_recolors_with_asset_palette() {
    let palettes = builtin_palettes();
    let image = DecodedImage { width: 1, height: 1, data: vec![0, 0, 0, 255] };
    let resolved = materialize_indexed_image(
        &image,
        "memory://atlas",
        ColorMode::PaletteIndexed,
        &palettes,
        &IndexedPresentationSettings::default(),
        IndexedImageMaterialization { local_override: None, asset_palette: Some("poison") },
    )
    .expect("presentation should resolve");

    assert_eq!(resolved.palette_id.as_deref(), Some("poison"));
    let poison = resolve_palette("poison", &palettes).expect("poison palette should exist");
    assert_eq!(resolved.image.data[..4].to_vec(), poison.color(0).to_vec());
}

// ---------------------------------------------------------------------------
// Further cases
// ---------------------------------------------------------------------------

#[test]
fn true_color_images_get_no_palette() {
    let palettes = builtin_palettes();
    let settings = IndexedPresentationSettings { indexed_palette_override: Some("poison".to_string()) };
    let resolved =
        resolve_indexed_palette(ColorMode::TrueColor, &palettes, &settings, Some("poison"), None).unwrap();
    assert!(resolved.is_none());

    let image = DecodedImage { width: 1, height: 1, data: vec![9, 8, 7, 255] };
    let out = materialize_indexed_image(
        &image,
        "sprites/a.png",
        ColorMode::TrueColor,
        &palettes,
        &settings,
        IndexedImageMaterialization::default(),
    )
    .unwrap();
    assert_eq!(out.palette_id, None);
    assert_eq!(out.image, image);
    assert_eq!(out.cache_key, "sprites/a.png#TrueColor#");
}

#[test]
fn unknown_palettes_fall_back_to_gb_default() {
    let palettes = builtin_palettes();
    let resolved = resolve_indexed_palette(
        ColorMode::PaletteIndexed,
        &palettes,
        &IndexedPresentationSettings::default(),
        Some("missing"),
        Some("also_missing"),
    )
    .unwrap()
    .unwrap();
    assert_eq!(resolved.0, "gb_default");
}

#[test]
fn local_override_wins_over_asset_palette() {
    let palettes = builtin_palettes();
    let resolved = resolve_indexed_palette(
        ColorMode::PaletteIndexed,
        &palettes,
        &IndexedPresentationSettings { indexed_palette_override: Some("nope".to_string()) },
        Some("gray"),
        Some("poison"),
    )
    .unwrap()
    .unwrap();
    assert_eq!(resolved.0, "gray");
}

#[test]
fn cache_key_joins_source_mode_and_palette() {
    assert_eq!(
        texture_material_cache_key("atlas.png", ColorMode::PaletteIndexed, Some("poison")),
        "atlas.png#PaletteIndexed#poison"
    );
    assert_eq!(texture_material_cache_key("a", ColorMode::TrueColor, None), "a#TrueColor#");
}

#[test]
fn materialize_refuses_images_that_are_not_indexed() {
    let palettes = builtin_palettes();
    let image = DecodedImage { width: 1, height: 1, data: vec![1, 2, 3, 255] };
    let err = materialize_indexed_image(
        &image,
        "x",
        ColorMode::PaletteIndexed,
        &palettes,
        &IndexedPresentationSettings::default(),
        IndexedImageMaterialization::default(),
    )
    .unwrap_err();
    assert_eq!(err, "indexed image uses 1 invalid colors (1 unique colors total)");
}

#[test]
fn materialized_key_names_the_chosen_palette() {
    let palettes = builtin_palettes();
    let image = DecodedImage { width: 1, height: 1, data: vec![0xFF, 0xFF, 0xFF, 0] };
    let out = materialize_indexed_image(
        &image,
        "memory://atlas",
        ColorMode::PaletteIndexed,
        &palettes,
        &IndexedPresentationSettings::default(),
        IndexedImageMaterialization::default(),
    )
    .unwrap();
    assert_eq!(out.cache_key, "memory://atlas#PaletteIndexed#gb_default");
    // a transparent pixel keeps its bytes
    assert_eq!(out.image.data, vec![0xFF, 0xFF, 0xFF, 0]);
}
