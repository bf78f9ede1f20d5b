use toki_core::image::DecodedImage;
use toki_core::palette::{
    builtin_palettes, expand_palette, recolor_indexed_image, resolve_palette,
    validate_indexed_rgba8, Palette, PaletteRegistry, PaletteSize,
};

fn pal4_test(colors: [[u8; 4]; 4]) -> Palette {
    Palette::new(PaletteSize::Pal4, colors.to_vec()).unwrap()
}

#[test]
fn canonical_shades_pal4_matches_legacy_values() {
    assert_eq!(
        PaletteSize::Pal4.canonical_shades(),
        vec![
            [0x00, 0x00, 0x00],
            [0x55, 0x55, 0x55],
            [0xAA, 0xAA, 0xAA],
            [0xFF, 0xFF, 0xFF]
        ]
    );
}

#[test]
fn canonical_shades_pal8_has_eight_entries() {
    let shades = PaletteSize::Pal8.canonical_shades();
    assert_eq!(shades.len(), 8);
    assert_eq!(shades[0], [0, 0, 0]);
    assert_eq!(shades[7], [255, 255, 255]);
}

#[test]
fn canonical_shades_pal256_covers_full_range() {
    let shades = PaletteSize::Pal256.canonical_shades();
    assert_eq!(shades.len(), 256);
    assert_eq!(shades[0], [0, 0, 0]);
    assert_eq!(shades[128], [128, 128, 128]);
    assert_eq!(shades[255], [255, 255, 255]);
}

#[test]
fn palette_size_try_from_valid() {
    assert_eq!(PaletteSize::try_from(4u16), Ok(PaletteSize::Pal4));
    assert_eq!(PaletteSize::try_from(16u16), Ok(PaletteSize::Pal16));
    assert_eq!(PaletteSize::try_from(256u16), Ok(PaletteSize::Pal256));
}

#[test]
fn palette_size_try_from_rejects_invalid() {
    assert!(PaletteSize::try_from(0u16).is_err());
    assert!(PaletteSize::try_from(5u16).is_err());
    assert!(PaletteSize::try_from(512u16).is_err());
}

#[test]
fn palette_size_roundtrips_u16() {
    for size in [
        PaletteSize::Pal4,
        PaletteSize::Pal8,
        PaletteSize::Pal16,
        PaletteSize::Pal32,
        PaletteSize::Pal64,
        PaletteSize::Pal256,
    ] {
        let n: u16 = size.into();
        assert_eq!(PaletteSize::try_from(n), Ok(size));
    }
}

#[test]
fn palette_new_rejects_mismatched_color_count() {
    let result = Palette::new(PaletteSize::Pal4, vec![[0, 0, 0, 255]; 8]);
    assert!(result.is_err());
}

#[test]
fn palette_grayscale_produces_correct_defaults() {
    let p = Palette::grayscale(PaletteSize::Pal4);
    assert_eq!(p.colors().len(), 4);
    assert_eq!(p.color(0), [0x00, 0x00, 0x00, 0xFF]);
    assert_eq!(p.color(3), [0xFF, 0xFF, 0xFF, 0xFF]);
}

#[test]
fn validate_indexed_rgba8_accepts_pal4_canonical_shades() {
    let data = [0x00, 0x00, 0x00, 0xFF, 0xFF, 0xFF, 0xFF, 0xFF];
    let v = validate_indexed_rgba8(&data, PaletteSize::Pal4);
    assert!(v.is_valid());
}

#[test]
fn validate_indexed_rgba8_reports_invalid_colors() {
    let v = validate_indexed_rgba8(&[0, 0, 0, 255, 1, 2, 3, 255, 0, 0, 0, 0], PaletteSize::Pal4);
    assert_eq!(v.unique_color_count, 3);
    assert_eq!(v.invalid_colors, vec![[1, 2, 3, 255]]);
}

#[test]
fn validate_indexed_rgba8_works_with_pal16() {
    // shade[1] for Pal16 = 1 * 255 / 15 = 17
    let data = [17, 17, 17, 255];
    let v = validate_indexed_rgba8(&data, PaletteSize::Pal16);
    assert!(v.is_valid());

    // 18 is not a canonical Pal16 shade
    let data_invalid = [18, 18, 18, 255];
    let v2 = validate_indexed_rgba8(&data_invalid, PaletteSize::Pal16);
    assert!(!v2.is_valid());
}

#[test]
fn recolor_indexed_image_maps_canonical_shades_to_palette() {
    let image = DecodedImage {
        width: 2,
        height: 2,
        data: vec![
            0x00, 0x00, 0x00, 0xFF, //
            0x55, 0x55, 0x55, 0x80, //
            0xAA, 0xAA, 0xAA, 0xFF, //
            0xFF, 0xFF, 0xFF, 0x00,
        ],
    };
    let palette = pal4_test([
        [1, 2, 3, 255],
        [4, 5, 6, 255],
        [7, 8, 9, 255],
        [10, 11, 12, 255],
    ]);

    let recolored = recolor_indexed_image(&image, &palette).expect("indexed image is valid");

    assert_eq!(
        recolored.data,
        vec![
            1, 2, 3, 255, //
            4, 5, 6, 128, //
            7, 8, 9, 255, //
            255, 255, 255, 0,
        ]
    );
}

#[test]
fn recolor_indexed_image_works_with_pal8() {
    let shades = PaletteSize::Pal8.canonical_shades();
    let image = DecodedImage {
        width: 1,
        height: 2,
        data: vec![
            shades[0][0],
            shades[0][1],
            shades[0][2],
            0xFF, //
            shades[7][0],
            shades[7][1],
            shades[7][2],
            0xFF,
        ],
    };
    let colors: Vec<[u8; 4]> = (0..8).map(|i| [i * 30, 0, 0, 255]).collect();
    let palette = Palette::new(PaletteSize::Pal8, colors).unwrap();

    let recolored = recolor_indexed_image(&image, &palette).unwrap();

    assert_eq!(recolored.data[0], 0);
    assert_eq!(recolored.data[4], 210);
}

#[test]
fn recolor_indexed_image_returns_validation_details_for_invalid_input() {
    let image = DecodedImage {
        width: 1,
        height: 1,
        data: vec![1, 2, 3, 255],
    };
    let palette = Palette::grayscale(PaletteSize::Pal4);

    let error = recolor_indexed_image(&image, &palette).unwrap_err();

    assert_eq!(error.unique_color_count, 1);
    assert_eq!(error.invalid_colors, vec![[1, 2, 3, 255]]);
}

#[test]
fn resolve_palette_prefers_project_over_builtin() {
    let mut project_palettes = PaletteRegistry::new();
    project_palettes.insert("gb_default".to_string(), pal4_test([[1, 2, 3, 255]; 4]));

    let resolved =
        resolve_palette("gb_default", &project_palettes).expect("project palette should win");

    assert_eq!(resolved.colors(), &[[1, 2, 3, 255]; 4]);
}

#[test]
fn expand_palette_same_size_returns_clone() {
    let p = pal4_test([
        [0, 0, 0, 255],
        [85, 85, 85, 255],
        [170, 170, 170, 255],
        [255, 255, 255, 255],
    ]);
    let expanded = expand_palette(&p, PaletteSize::Pal4);
    assert_eq!(expanded, p);
}

#[test]
fn expand_palette_preserves_endpoints() {
    let p = pal4_test([
        [10, 20, 30, 255],
        [50, 60, 70, 255],
        [90, 100, 110, 255],
        [130, 140, 150, 255],
    ]);
    let expanded = expand_palette(&p, PaletteSize::Pal16);
    assert_eq!(expanded.color(0), [10, 20, 30, 255]);
    assert_eq!(expanded.color(15), [130, 140, 150, 255]);
    assert_eq!(expanded.size(), PaletteSize::Pal16);
}

#[test]
fn expand_palette_interpolates_midpoints() {
    let p = Palette::new(
        PaletteSize::Pal4,
        vec![
            [0, 0, 0, 255],
            [100, 100, 100, 255],
            [200, 200, 200, 255],
            [255, 255, 255, 255],
        ],
    )
    .unwrap();
    let expanded = expand_palette(&p, PaletteSize::Pal8);
    let c1 = expanded.color(1);
    assert!(c1[0] > 0 && c1[0] < 100, "midpoint should be interpolated");
}

// ---------------------------------------------------------------------------
// Further cases
// ---------------------------------------------------------------------------

#[test]
fn expand_palette_rounds_to_nearest_channel_value() {
    // Pal4 -> Pal8: index 1 lies at 3/7 of the way from colour 0 to colour 1.
    let p = Palette::new(
        PaletteSize::Pal4,
        vec![
            [0, 0, 0, 255],
            [100, 100, 100, 255],
            [200, 200, 200, 255],
            [255, 255, 255, 255],
        ],
    )
    .unwrap();
    let expanded = expand_palette(&p, PaletteSize::Pal8);
    // 100 * 3 / 7 = 42.857... rounds to 43
    assert_eq!(expanded.color(1), [43, 43, 43, 255]);
    assert_eq!(expanded.color(7), [255, 255, 255, 255]);
    assert_eq!(expanded.colors().len(), 8);
}

#[test]
fn expand_palette_shrinks_to_smaller_size() {
    let p = Palette::grayscale(PaletteSize::Pal8);
    let shrunk = expand_palette(&p, PaletteSize::Pal4);
    assert_eq!(shrunk.size(), PaletteSize::Pal4);
    assert_eq!(shrunk.color(0), p.color(0));
    assert_eq!(shrunk.color(3), p.color(7));
}

#[test]
fn grayscale_recolor_gives_back_the_same_bytes() {
    let shades = PaletteSize::Pal16.canonical_shades();
    let mut data = Vec::new();
    for (i, s) in shades.iter().enumerate() {
        data.extend_from_slice(&[s[0], s[1], s[2], (i * 16) as u8]);
    }
    let image = DecodedImage { width: 16, height: 1, data: data.clone() };
    let recolored = recolor_indexed_image(&image, &Palette::grayscale(PaletteSize::Pal16)).unwrap();
    assert_eq!(recolored.data, data);
}

#[test]
fn validation_report_lists_invalid_colours_once_in_increasing_order() {
    let data = [
        9, 9, 9, 255, //
        1, 2, 3, 255, //
        9, 9, 9, 255, //
        0, 0, 0, 255, //
        5, 5, 5, 0,
    ];
    let v = validate_indexed_rgba8(&data, PaletteSize::Pal4);
    assert_eq!(v.invalid_colors, vec![[1, 2, 3, 255], [9, 9, 9, 255]]);
    assert_eq!(v.unique_color_count, 4);
    assert_eq!(v.to_string(), "indexed image uses 2 invalid colors (4 unique colors total)");
}

#[test]
fn palette_size_error_and_display() {
    assert_eq!(
        PaletteSize::try_from(5u16),
        Err("invalid palette size 5: expected 4, 8, 16, 32, 64, or 256".to_string())
    );
    assert_eq!(PaletteSize::Pal64.to_string(), "64");
    let err = Palette::new(PaletteSize::Pal4, vec![[0, 0, 0, 255]; 8]).unwrap_err();
    assert_eq!(err, "expected 4 colors for Pal4, got 8");
}

#[test]
fn from_stored_infers_size_from_color_count() {
    let p = Palette::from_stored(PaletteSize::Pal4, vec![[0, 0, 0, 255]; 8]).unwrap();
    assert_eq!(p.size(), PaletteSize::Pal8);
    assert!(Palette::from_stored(PaletteSize::Pal4, vec![[0, 0, 0, 255]; 5]).is_err());
    assert!(Palette::from_stored(PaletteSize::Pal16, vec![[0, 0, 0, 255]; 8]).is_err());
}

#[test]
fn builtin_palettes_resolve_without_project_palettes() {
    let registry = builtin_palettes();
    assert!(registry.len() >= 1);
    let empty = PaletteRegistry::new();
    let gb = resolve_palette("gb_default", &empty).expect("built-in palette");
    assert_eq!(gb.colors().len(), 4);
    assert!(resolve_palette("no_such_palette", &empty).is_none());
}
