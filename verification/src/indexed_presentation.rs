//! Presenting palette-indexed images: which palette an image is drawn
//! with, the recoloured pixels, and the key under which the result is
//! cached.

use vstd::prelude::*;
use crate::image::DecodedImage;
use crate::palette::{
    builtin_palette_map, codes_of, invalid_codes, is_indexed, pixel_codes, recolor_indexed_image,
    recolored_data, resolve_palette, resolved_palette, strictly_increasing, validation_message,
    Palette, PaletteModel, PaletteRegistry,
};
use crate::text::{push_str, string_from_str};

verus! {

/// How an atlas stores colour: as true colour, or as canonical gray shades
/// that a palette recolours.
#[derive(Debug, Clone, Copy, PartialEq, Eq, Structural)]
pub enum ColorMode {
    TrueColor,
    PaletteIndexed,
}

impl ColorMode {
    /// The variant's name as `{:?}` writes it.
    pub open spec fn debug_name(self) -> Seq<char> {
        match self {
            ColorMode::TrueColor => "TrueColor"@,
            ColorMode::PaletteIndexed => "PaletteIndexed"@,
        }
    }
}

/// Project-wide presentation settings for indexed images.
#[derive(Debug, Clone, PartialEq, Eq)]
pub struct IndexedPresentationSettings {
    pub indexed_palette_override: Option<String>,
}

impl Default for IndexedPresentationSettings {
    fn default() -> (r: Self)
        ensures
            r.indexed_palette_override is None,
    {
        IndexedPresentationSettings { indexed_palette_override: None }
    }
}

/// The palettes an image asks for besides the project's override.
#[derive(Debug, Clone, Copy)]
pub struct IndexedImageMaterialization<'a> {
    pub local_override: Option<&'a str>,
    pub asset_palette: Option<&'a str>,
}

impl<'a> Default for IndexedImageMaterialization<'a> {
    fn default() -> (r: Self)
        ensures
            r.local_override is None,
            r.asset_palette is None,
    {
        IndexedImageMaterialization { local_override: None, asset_palette: None }
    }
}

/// An image ready to be drawn: the palette it was recoloured with, if any,
/// its cache key and its pixels.
#[derive(Debug, Clone, PartialEq, Eq)]
pub struct ResolvedIndexedPresentation {
    pub palette_id: Option<String>,
    pub cache_key: String,
    pub image: DecodedImage,
}

/// Where a texture's pixels come from: a file as it is, or pixels already
/// recoloured in memory with the key they are cached under.
#[derive(Debug, Clone, PartialEq, Eq)]
pub enum PresentedTextureSource {
    File(String),
    Rgba8 { image: DecodedImage, cache_key: String },
}

pub open spec fn str_opt_view(o: Option<&str>) -> Option<Seq<char>> {
    match o {
        Some(s) => Some(s@),
        None => None,
    }
}

pub open spec fn string_opt_view(o: Option<String>) -> Option<Seq<char>> {
    match o {
        Some(s) => Some(s@),
        None => None,
    }
}

/// Whether `id` is given and names a palette that resolves.
pub open spec fn resolves(id: Option<Seq<char>>, available: Map<Seq<char>, PaletteModel>) -> bool {
    id is Some && resolved_palette(id.unwrap(), available) is Some
}

/// The palette id chosen for an indexed image: the project's override, the
/// image's own override, the asset's palette, then `gb_default`; the first
/// of them that is given and resolves.
pub open spec fn chosen_palette_id(
    project_override: Option<Seq<char>>,
    local_override: Option<Seq<char>>,
    asset_palette: Option<Seq<char>>,
    available: Map<Seq<char>, PaletteModel>,
) -> Seq<char> {
    if resolves(project_override, available) {
        project_override.unwrap()
    } else if resolves(local_override, available) {
        local_override.unwrap()
    } else if resolves(asset_palette, available) {
        asset_palette.unwrap()
    } else {
        "gb_default"@
    }
}

/// `gb_default` always resolves: it is one of the built-in palettes.
pub proof fn lemma_default_palette_resolves(available: Map<Seq<char>, PaletteModel>)
    ensures
        resolved_palette("gb_default"@, available) is Some,
{
    assert(builtin_palette_map().contains_key("gb_default"@));
}

fn try_resolve(id: Option<&str>, available_palettes: &PaletteRegistry) -> (r: Option<(String, Palette)>)
    ensures
        r is Some <==> resolves(str_opt_view(id), available_palettes@),
        r matches Some(found) ==> found.0@ == str_opt_view(id).unwrap()
            && found.1@ == resolved_palette(found.0@, available_palettes@).unwrap(),
{
    match id {
        Some(name) => match resolve_palette(name, available_palettes) {
            Some(palette) => Some((string_from_str(name), palette)),
            None => None,
        },
        None => None,
    }
}

/// The palette an image is recoloured with. True-colour images get none;
/// an indexed image gets the first of the project's override, its own
/// override, its asset's palette and `gb_default` that resolves.
pub fn resolve_indexed_palette(
    color_mode: ColorMode,
    available_palettes: &PaletteRegistry,
    settings: &IndexedPresentationSettings,
    local_override: Option<&str>,
    asset_palette: Option<&str>,
) -> (r: Result<Option<(String, Palette)>, String>)
    ensures
        r is Ok,
        color_mode != ColorMode::PaletteIndexed ==> r == Ok::<Option<(String, Palette)>, String>(None),
        color_mode == ColorMode::PaletteIndexed ==> (r matches Ok(Some(found)) && {
            let id = chosen_palette_id(
                string_opt_view(settings.indexed_palette_override),
                str_opt_view(local_override),
                str_opt_view(asset_palette),
                available_palettes@,
            );
            &&& found.0@ == id
            &&& found.1@ == resolved_palette(id, available_palettes@).unwrap()
        }),
{
    if color_mode != ColorMode::PaletteIndexed {
        return Ok(None);
    }
    let project_override: Option<&str> = match &settings.indexed_palette_override {
        Some(name) => Some(name.as_str()),
        None => None,
    };
    assert(str_opt_view(project_override) == string_opt_view(settings.indexed_palette_override));
    if let Some(found) = try_resolve(project_override, available_palettes) {
        return Ok(Some(found));
    }
    if let Some(found) = try_resolve(local_override, available_palettes) {
        return Ok(Some(found));
    }
    if let Some(found) = try_resolve(asset_palette, available_palettes) {
        return Ok(Some(found));
    }
    proof {
        lemma_default_palette_resolves(available_palettes@);
    }
    match try_resolve(Some("gb_default"), available_palettes) {
        Some(found) => Ok(Some(found)),
        None => {
            let mut msg = String::new();
            push_str(&mut msg, "palette id could not be resolved");
            Err(msg)
        },
    }
}

/// The key an image is cached under: its source, the colour mode and the
/// palette id, joined by `#`.
pub open spec fn material_cache_key(texture_key: Seq<char>, color_mode: ColorMode, palette_id: Option<Seq<char>>) -> Seq<char> {
    texture_key + "#"@ + color_mode.debug_name() + "#"@ + match palette_id {
        Some(id) => id,
        None => Seq::empty(),
    }
}

/// The cache key of a texture drawn in `color_mode` with `palette_id`.
pub fn texture_material_cache_key(texture_key: &str, color_mode: ColorMode, palette_id: Option<&str>) -> (key: String)
    ensures
        key@ == material_cache_key(texture_key@, color_mode, str_opt_view(palette_id)),
{
    let mut key = String::new();
    push_str(&mut key, texture_key);
    push_str(&mut key, "#");
    match color_mode {
        ColorMode::TrueColor => push_str(&mut key, "TrueColor"),
        ColorMode::PaletteIndexed => push_str(&mut key, "PaletteIndexed"),
    }
    push_str(&mut key, "#");
    match palette_id {
        Some(id) => push_str(&mut key, id),
        None => push_str(&mut key, ""),
    }
    proof {
        reveal_strlit("");
    }
    assert(key@ =~= material_cache_key(texture_key@, color_mode, str_opt_view(palette_id)));
    key
}

/// Every palette of the registry holds as many colours as its size names.
pub open spec fn palettes_well_formed(available: Map<Seq<char>, PaletteModel>) -> bool {
    forall|name: Seq<char>| #[trigger] available.contains_key(name) ==> available[name].wf()
}

/// The palette an image of `color_mode` is recoloured with, by id.
pub open spec fn presentation_palette(
    color_mode: ColorMode,
    settings: IndexedPresentationSettings,
    options: IndexedImageMaterialization,
    available: Map<Seq<char>, PaletteModel>,
) -> Option<Seq<char>> {
    if color_mode == ColorMode::PaletteIndexed {
        Some(chosen_palette_id(
            string_opt_view(settings.indexed_palette_override),
            str_opt_view(options.local_override),
            str_opt_view(options.asset_palette),
            available,
        ))
    } else {
        None
    }
}

/// An image prepared for drawing. A true-colour image is kept as it is; an
/// indexed one is recoloured with the palette `resolve_indexed_palette`
/// picks, and refused, with the validation report in words, when its
/// pixels are not canonical shades of that palette's size. The result is
/// cached under `texture_material_cache_key` of `cache_source`.
pub fn materialize_indexed_image(
    decoded: &DecodedImage,
    cache_source: &str,
    color_mode: ColorMode,
    available_palettes: &PaletteRegistry,
    settings: &IndexedPresentationSettings,
    options: IndexedImageMaterialization<'_>,
) -> (r: Result<ResolvedIndexedPresentation, String>)
    requires
        palettes_well_formed(available_palettes@),
    ensures
        ({
            let id = presentation_palette(color_mode, *settings, options, available_palettes@);
            match id {
                None => r matches Ok(out) && out.palette_id is None
                    && out.cache_key@ == material_cache_key(cache_source@, color_mode, None)
                    && out.image.width == decoded.width && out.image.height == decoded.height
                    && out.image.data@ == decoded.data@,
                Some(name) => {
                    let palette = resolved_palette(name, available_palettes@).unwrap();
                    &&& r is Ok <==> is_indexed(decoded.data@, palette.size)
                    &&& r matches Ok(out) ==> {
                        &&& string_opt_view(out.palette_id) == Some(name)
                        &&& out.cache_key@ == material_cache_key(cache_source@, color_mode, Some(name))
                        &&& out.image.width == decoded.width
                        &&& out.image.height == decoded.height
                        &&& out.image.data@ == recolored_data(decoded.data@, palette.colors, palette.size.count() as int)
                    }
                    &&& r matches Err(msg) ==> msg@ == validation_message(
                        invalid_codes(decoded.data@, palette.size).len(),
                        pixel_codes(decoded.data@).len(),
                    )
                },
            }
        }),
{
    let resolved = resolve_indexed_palette(
        color_mode,
        available_palettes,
        settings,
        options.local_override,
        options.asset_palette,
    );
    let chosen = match resolved {
        Ok(found) => found,
        Err(msg) => return Err(msg),
    };
    match chosen {
        None => {
            let cache_key = texture_material_cache_key(cache_source, color_mode, None);
            Ok(ResolvedIndexedPresentation { palette_id: None, cache_key, image: decoded.duplicate() })
        },
        Some((palette_id, palette)) => {
            proof {
                lemma_default_palette_resolves(available_palettes@);
                crate::palette::law_builtin_palettes_well_formed();
                if available_palettes@.contains_key(palette_id@) {
                    assert(available_palettes@[palette_id@].wf());
                } else {
                    assert(builtin_palette_map().contains_key(palette_id@));
                }
            }
            match recolor_indexed_image(decoded, &palette) {
                Ok(image) => {
                    let cache_key = texture_material_cache_key(cache_source, color_mode, Some(palette_id.as_str()));
                    Ok(ResolvedIndexedPresentation { palette_id: Some(palette_id), cache_key, image })
                },
                Err(validation) => {
                    proof {
                        let codes = codes_of(validation.invalid_colors@);
                        lemma_increasing_no_duplicates(codes);
                        codes.unique_seq_to_set();
                    }
                    Err(validation.to_string())
                },
            }
        },
    }
}

proof fn lemma_increasing_no_duplicates(s: Seq<int>)
    requires
        strictly_increasing(s),
    ensures
        s.no_duplicates(),
{
    assert forall|i: int, j: int| 0 <= i < s.len() && 0 <= j < s.len() && i != j implies s[i] != s[j] by {
        if i < j {
            assert(s[i] < s[j]);
        } else {
            assert(s[j] < s[i]);
        }
    }
}

} // verus!
