//! Where a project keeps its assets, how asset names are written, and how
//! discovered asset files are recognised and ordered.

use vstd::prelude::*;
use crate::text::{str_eq, chars_of, ends_with, seq_ends_with, ascii_lower, lowercased, seq_eq_str, string_from_chars, push_str};
use crate::paths::{join, join_path, file_name, file_name_of, extension, extension_of, name_stem, stem_of_name, file_stem};
use crate::palette::Palette;
use crate::order::{SortKey, chars_lt, pair_lt, sort_by_key, sorted_by_key, lemma_map_values_multiset};

verus! {

#[derive(Debug)]
pub enum ProjectAssetError {
    Io(std::io::Error),
    Core(String),
    Validation(String),
}

#[derive(Debug, Clone, Copy, PartialEq, Eq, Structural)]
pub enum SpriteMetadataFileKind {
    Atlas,
    ObjectSheet,
    Unknown,
}

#[derive(Debug, Clone, Copy, PartialEq, Eq, Structural)]
pub enum ProjectAudioFormat {
    Ogg,
    Wav,
    Mp3,
}

#[derive(Debug, Clone, PartialEq, Eq)]
pub struct DiscoveredAudioAsset {
    pub name: String,
    pub path: String,
    pub format: ProjectAudioFormat,
}

#[derive(Debug, Clone, PartialEq, Eq)]
pub struct DiscoveredSpriteMetadata {
    pub sprite_atlas_paths: Vec<String>,
    pub object_sheet_paths: Vec<String>,
}

#[derive(Debug, Clone, PartialEq, Eq)]
pub struct DiscoveredPaletteAsset {
    pub name: String,
    pub path: String,
    pub palette: Palette,
}

#[derive(Debug, Clone, PartialEq, Eq)]
pub struct ResolvedProjectResourcePaths {
    pub tilemap_path: String,
    pub terrain_atlas_path: String,
    pub tilemap_texture_path: Option<String>,
    pub sprite_texture_path: Option<String>,
    pub sprite_atlas_paths: Vec<String>,
    pub object_sheet_paths: Vec<String>,
}

/// An asset name without its `.json` suffix, when it has one.
pub open spec fn normalized_asset_name(name: Seq<char>) -> Seq<char> {
    if ends_with(name, ".json"@) {
        name.subrange(0, name.len() - 5)
    } else {
        name
    }
}

/// Normalizes an asset name by stripping the `.json` suffix if present
/// (only a final, lowercase `.json` is stripped).
pub fn normalize_asset_name(name: &str) -> (r: &str)
    ensures
        r@ == normalized_asset_name(name@),
{
    let cs = chars_of(name);
    proof {
        reveal_strlit(".json");
    }
    if seq_ends_with(&cs, ".json") {
        name.substring_char(0, cs.len() - 5)
    } else {
        name
    }
}

/// `{dir}/{name}.json` below the project directory.
pub open spec fn json_file_in(project_path: Seq<char>, dir: Seq<char>, name: Seq<char>) -> Seq<char> {
    join(join(project_path, dir), name + ".json"@)
}

fn json_file_path(project_path: &str, dir: &str, name: &str) -> (r: String)
    ensures
        r@ == json_file_in(project_path@, dir@, name@),
{
    let base = join_path(project_path, dir);
    let mut file = string_from_chars(&chars_of(name));
    push_str(&mut file, ".json");
    join_path(base.as_str(), file.as_str())
}

/// Scene files are stored as `{project_path}/scenes/{scene_name}.json`.
pub fn scene_file_path(project_path: &str, scene_name: &str) -> (r: String)
    ensures
        r@ == json_file_in(project_path@, "scenes"@, scene_name@),
{
    json_file_path(project_path, "scenes", scene_name)
}

/// Dialog files are stored as `{project_path}/dialogs/{dialog_name}.json`.
pub fn dialog_file_path(project_path: &str, dialog_name: &str) -> (r: String)
    ensures
        r@ == json_file_in(project_path@, "dialogs"@, dialog_name@),
{
    json_file_path(project_path, "dialogs", dialog_name)
}

/// UI layouts are stored as `{project_path}/ui/{layout_name}.json`.
pub fn ui_layout_file_path(project_path: &str, layout_name: &str) -> (r: String)
    ensures
        r@ == json_file_in(project_path@, "ui"@, layout_name@),
{
    json_file_path(project_path, "ui", layout_name)
}

/// Tilemap files are stored as `{project_path}/assets/tilemaps/{map_name}.json`.
pub fn tilemap_file_path(project_path: &str, map_name: &str) -> (r: String)
    ensures
        r@ == json_file_in(join(project_path@, "assets"@), "tilemaps"@, map_name@),
{
    let assets = join_path(project_path, "assets");
    json_file_path(assets.as_str(), "tilemaps", map_name)
}

/// A path names a JSON file when its extension is `json` in any case.
pub open spec fn is_json_path(path: Seq<char>) -> bool {
    match extension(path) {
        Some(e) => ascii_lower(e) == "json"@,
        None => false,
    }
}

pub fn is_json_file_path(path: &str) -> (r: bool)
    ensures
        r == is_json_path(path@),
{
    let cs = chars_of(path);
    match extension_of(&cs) {
        Some(e) => {
            let l = lowercased(&e);
            seq_eq_str(&l, "json")
        },
        None => false,
    }
}

/// The audio format a file's lowercase extension names, if any.
pub open spec fn audio_format_of(path: Seq<char>) -> Option<ProjectAudioFormat> {
    match extension(path) {
        Some(e) => if ascii_lower(e) == "ogg"@ {
            Some(ProjectAudioFormat::Ogg)
        } else if ascii_lower(e) == "wav"@ {
            Some(ProjectAudioFormat::Wav)
        } else if ascii_lower(e) == "mp3"@ {
            Some(ProjectAudioFormat::Mp3)
        } else {
            None
        },
        None => None,
    }
}

/// The audio asset a file is: named by its stem, typed by its extension.
/// Files of other types are no audio assets.
pub fn audio_asset_for_path(path: &str) -> (r: Option<DiscoveredAudioAsset>)
    ensures
        r is Some <==> audio_format_of(path@) is Some,
        r matches Some(a) ==> a.path@ == path@ && Some(a.format) == audio_format_of(path@)
            && Some(a.name@) == file_stem(path@),
{
    let cs = chars_of(path);
    let name = match file_name_of(&cs) {
        Some(n) => n,
        None => return None,
    };
    let ext = match crate::paths::extension_of_name(&name) {
        Some(e) => e,
        None => return None,
    };
    let l = lowercased(&ext);
    let format = if seq_eq_str(&l, "ogg") {
        ProjectAudioFormat::Ogg
    } else if seq_eq_str(&l, "wav") {
        ProjectAudioFormat::Wav
    } else if seq_eq_str(&l, "mp3") {
        ProjectAudioFormat::Mp3
    } else {
        return None;
    };
    let stem = stem_of_name(&name);
    Some(DiscoveredAudioAsset {
        name: string_from_chars(&stem),
        path: string_from_chars(&cs),
        format,
    })
}

/// The characters of each path.
pub open spec fn path_views(paths: Seq<String>) -> Seq<Seq<char>> {
    paths.map_values(|p: String| p@)
}

pub open spec fn string_view_fn() -> spec_fn(String) -> Seq<char> {
    |p: String| p@
}

pub open spec fn is_json_fn() -> spec_fn(Seq<char>) -> bool {
    |p: Seq<char>| is_json_path(p)
}

fn string_key_lt(a1: &String, a2: &String, b1: &String, b2: &String) -> (r: bool)
    ensures
        r == pair_lt((a1@, a2@), (b1@, b2@)),
{
    let x1 = chars_of(a1.as_str());
    let y1 = chars_of(b1.as_str());
    chars_lt(&x1, &y1) || (str_eq(a1.as_str(), b1.as_str()) && chars_lt(&chars_of(a2.as_str()), &chars_of(b2.as_str())))
}

impl SortKey for DiscoveredAudioAsset {
    /// Audio assets are ordered by name, then by path.
    open spec fn sort_key(&self) -> (Seq<char>, Seq<char>) {
        (self.name@, self.path@)
    }

    fn key_lt(&self, other: &Self) -> (r: bool) {
        string_key_lt(&self.name, &self.path, &other.name, &other.path)
    }
}

impl SortKey for DiscoveredPaletteAsset {
    /// Palette assets are ordered by name, then by path.
    open spec fn sort_key(&self) -> (Seq<char>, Seq<char>) {
        (self.name@, self.path@)
    }

    fn key_lt(&self, other: &Self) -> (r: bool) {
        string_key_lt(&self.name, &self.path, &other.name, &other.path)
    }
}

/// The JSON files among `paths`, in path order.
pub fn select_json_files(paths: &Vec<String>) -> (files: Vec<String>)
    ensures
        sorted_by_key(files@),
        files@.map_values(string_view_fn()).to_multiset()
            == path_views(paths@).filter(is_json_fn()).to_multiset(),
{
    let ghost views = path_views(paths@);
    let mut chosen: Vec<String> = Vec::new();
    let mut i: usize = 0;
    while i < paths.len()
        invariant
            i <= paths.len(),
            views == path_views(paths@),
            chosen@.map_values(string_view_fn()) == views.take(i as int).filter(is_json_fn()),
        decreases paths.len() - i,
    {
        proof {
            assert(views.take((i + 1) as int) =~= views.take(i as int).push(views[i as int]));
            views.take(i as int).lemma_filter_push(views[i as int], is_json_fn());
        }
        if is_json_file_path(paths[i].as_str()) {
            let ghost before = chosen@;
            chosen.push(paths[i].clone());
            assert(chosen@.map_values(string_view_fn()) =~= before.map_values(string_view_fn()).push(views[i as int]));
        }
        i = i + 1;
    }
    assert(views.take(paths.len() as int) =~= views);
    let files = sort_by_key(chosen);
    proof {
        lemma_map_values_multiset(files@, chosen@, string_view_fn());
    }
    files
}

/// What an audio file is as an asset: its stem, its path and its format.
pub open spec fn audio_model(path: Seq<char>) -> Option<(Seq<char>, Seq<char>, ProjectAudioFormat)> {
    match audio_format_of(path) {
        Some(format) => Some((file_stem(path).unwrap(), path, format)),
        None => None,
    }
}

pub open spec fn audio_model_fn() -> spec_fn(Seq<char>) -> Option<(Seq<char>, Seq<char>, ProjectAudioFormat)> {
    |p: Seq<char>| audio_model(p)
}

pub open spec fn asset_model_fn() -> spec_fn(DiscoveredAudioAsset) -> (Seq<char>, Seq<char>, ProjectAudioFormat) {
    |a: DiscoveredAudioAsset| (a.name@, a.path@, a.format)
}

/// The audio assets among `paths`, ordered by name, then by path.
pub fn collect_audio_assets(paths: &Vec<String>) -> (assets: Vec<DiscoveredAudioAsset>)
    ensures
        sorted_by_key(assets@),
        assets@.map_values(asset_model_fn()).to_multiset()
            == path_views(paths@).filter_map(audio_model_fn()).to_multiset(),
{
    let ghost views = path_views(paths@);
    let mut found: Vec<DiscoveredAudioAsset> = Vec::new();
    let mut i: usize = 0;
    while i < paths.len()
        invariant
            i <= paths.len(),
            views == path_views(paths@),
            found@.map_values(asset_model_fn()) == views.take(i as int).filter_map(audio_model_fn()),
        decreases paths.len() - i,
    {
        proof {
            views.lemma_filter_map_take_succ(audio_model_fn(), i as int);
        }
        let ghost before = found@;
        match audio_asset_for_path(paths[i].as_str()) {
            Some(asset) => {
                found.push(asset);
                assert(found@.map_values(asset_model_fn()) =~= before.map_values(asset_model_fn()) + seq![audio_model(views[i as int]).unwrap()]);
            },
            None => {},
        }
        i = i + 1;
    }
    assert(views.take(paths.len() as int) =~= views);
    let assets = sort_by_key(found);
    proof {
        lemma_map_values_multiset(assets@, found@, asset_model_fn());
    }
    assets
}

/// Where a scene may be found, in the order they are tried: the path the
/// project manifest maps it to, if any, then its canonical file.
pub fn scene_path_candidates(project_path: &str, scene_name: &str, mapped_path: Option<&str>) -> (candidates: Vec<String>)
    ensures
        candidates@.map_values(string_view_fn()) == match mapped_path {
            Some(rel) => seq![join(project_path@, rel@), json_file_in(project_path@, "scenes"@, scene_name@)],
            None => seq![json_file_in(project_path@, "scenes"@, scene_name@)],
        },
{
    let mut candidates: Vec<String> = Vec::new();
    if let Some(rel) = mapped_path {
        candidates.push(join_path(project_path, rel));
    }
    candidates.push(scene_file_path(project_path, scene_name));
    assert(candidates@.map_values(string_view_fn()) =~= match mapped_path {
        Some(rel) => seq![join(project_path@, rel@), json_file_in(project_path@, "scenes"@, scene_name@)],
        None => seq![json_file_in(project_path@, "scenes"@, scene_name@)],
    });
    candidates
}

/// `{project_path}/assets/{dir}`.
pub open spec fn assets_dir(project_path: Seq<char>, dir: Seq<char>) -> Seq<char> {
    join(join(project_path, "assets"@), dir)
}

/// Where a tilemap's atlas may be, in the order they are tried: beside the
/// map, then under the project's `assets/sprites`, `assets/tilemaps`,
/// `assets/maps` and `assets` folders. An absolute atlas path stands as it
/// is in each.
pub open spec fn atlas_candidates(project_path: Seq<char>, map_dir: Seq<char>, atlas: Seq<char>) -> Seq<Seq<char>> {
    seq![
        join(map_dir, atlas),
        join(assets_dir(project_path, "sprites"@), atlas),
        join(assets_dir(project_path, "tilemaps"@), atlas),
        join(assets_dir(project_path, "maps"@), atlas),
        join(join(project_path, "assets"@), atlas),
    ]
}

fn assets_dir_path(project_path: &str, dir: &str) -> (r: String)
    ensures
        r@ == assets_dir(project_path@, dir@),
{
    let assets = join_path(project_path, "assets");
    join_path(assets.as_str(), dir)
}

/// The places a tilemap's atlas may be, in the order they are tried.
pub fn tilemap_atlas_path_candidates(project_path: &str, map_dir: &str, atlas: &str) -> (candidates: Vec<String>)
    ensures
        candidates@.map_values(string_view_fn()) == atlas_candidates(project_path@, map_dir@, atlas@),
{
    let mut candidates: Vec<String> = Vec::new();
    candidates.push(join_path(map_dir, atlas));
    let sprites = assets_dir_path(project_path, "sprites");
    candidates.push(join_path(sprites.as_str(), atlas));
    let tilemaps = assets_dir_path(project_path, "tilemaps");
    candidates.push(join_path(tilemaps.as_str(), atlas));
    let maps = assets_dir_path(project_path, "maps");
    candidates.push(join_path(maps.as_str(), atlas));
    let assets = join_path(project_path, "assets");
    candidates.push(join_path(assets.as_str(), atlas));
    assert(candidates@.map_values(string_view_fn()) =~= atlas_candidates(project_path@, map_dir@, atlas@));
    candidates
}

/// The map a project starts on when none is named.
pub open spec fn default_map_name() -> Seq<char> {
    "new_town_map_64x64_crossings"@
}

/// Where a project's tilemap may be, in the order they are tried: the named
/// map (or the default one) as a JSON file under `assets/tilemaps`, then
/// under `assets/maps`.
pub open spec fn tilemap_candidates(project_path: Seq<char>, map_name: Option<Seq<char>>) -> Seq<Seq<char>> {
    let name = match map_name {
        Some(n) => n,
        None => default_map_name(),
    };
    seq![
        json_file_in(join(project_path, "assets"@), "tilemaps"@, name),
        json_file_in(join(project_path, "assets"@), "maps"@, name),
    ]
}

/// The places a project's tilemap may be, in the order they are tried.
pub fn tilemap_path_candidates(project_path: &str, map_name: Option<&str>) -> (candidates: Vec<String>)
    ensures
        candidates@.map_values(string_view_fn()) == tilemap_candidates(project_path@, match map_name {
            Some(n) => Some(n@),
            None => None,
        }),
{
    let name: &str = match map_name {
        Some(n) => n,
        None => "new_town_map_64x64_crossings",
    };
    proof {
        reveal_strlit("new_town_map_64x64_crossings");
    }
    let assets = join_path(project_path, "assets");
    let mut candidates: Vec<String> = Vec::new();
    candidates.push(json_file_path(assets.as_str(), "tilemaps", name));
    candidates.push(json_file_path(assets.as_str(), "maps", name));
    assert(candidates@.map_values(string_view_fn()) =~= tilemap_candidates(project_path@, match map_name {
        Some(n) => Some(n@),
        None => None,
    }));
    candidates
}

/// The paths of `classified` of one kind, in order.
pub open spec fn paths_of_kind(classified: Seq<(String, SpriteMetadataFileKind)>, kind: SpriteMetadataFileKind) -> Seq<Seq<char>>
    decreases classified.len(),
{
    if classified.len() == 0 {
        Seq::empty()
    } else {
        let earlier = paths_of_kind(classified.drop_last(), kind);
        if classified.last().1 == kind { earlier.push(classified.last().0@) } else { earlier }
    }
}

/// Sorts classified sprite metadata files into atlases and object sheets,
/// each in the order found; files of unknown kind are dropped.
pub fn split_sprite_metadata(classified: Vec<(String, SpriteMetadataFileKind)>) -> (r: DiscoveredSpriteMetadata)
    ensures
        r.sprite_atlas_paths@.map_values(string_view_fn()) == paths_of_kind(classified@, SpriteMetadataFileKind::Atlas),
        r.object_sheet_paths@.map_values(string_view_fn()) == paths_of_kind(classified@, SpriteMetadataFileKind::ObjectSheet),
{
    let ghost start = classified@;
    let mut rest = classified;
    let mut sprite_atlas_paths: Vec<String> = Vec::new();
    let mut object_sheet_paths: Vec<String> = Vec::new();
    let ghost mut i: int = 0;
    while rest.len() > 0
        invariant
            0 <= i <= start.len(),
            rest@ == start.subrange(i, start.len() as int),
            sprite_atlas_paths@.map_values(string_view_fn()) == paths_of_kind(start.subrange(0, i), SpriteMetadataFileKind::Atlas),
            object_sheet_paths@.map_values(string_view_fn()) == paths_of_kind(start.subrange(0, i), SpriteMetadataFileKind::ObjectSheet),
        decreases rest.len(),
    {
        let (path, kind) = rest.remove(0);
        assert(start.subrange(0, i + 1).drop_last() == start.subrange(0, i));
        assert(start.subrange(0, i + 1).last() == (path, kind));
        let ghost atlases = sprite_atlas_paths@;
        let ghost sheets = object_sheet_paths@;
        match kind {
            SpriteMetadataFileKind::Atlas => {
                sprite_atlas_paths.push(path);
                assert(sprite_atlas_paths@.map_values(string_view_fn()) =~= atlases.map_values(string_view_fn()).push(path@));
            },
            SpriteMetadataFileKind::ObjectSheet => {
                object_sheet_paths.push(path);
                assert(object_sheet_paths@.map_values(string_view_fn()) =~= sheets.map_values(string_view_fn()).push(path@));
            },
            SpriteMetadataFileKind::Unknown => {},
        }
        proof {
            i = i + 1;
        }
    }
    assert(start.subrange(0, i) == start);
    DiscoveredSpriteMetadata { sprite_atlas_paths, object_sheet_paths }
}

impl SortKey for (String, String) {
    /// Named paths are ordered by name, then by path.
    open spec fn sort_key(&self) -> (Seq<char>, Seq<char>) {
        (self.0@, self.1@)
    }

    fn key_lt(&self, other: &Self) -> (r: bool) {
        string_key_lt(&self.0, &self.1, &other.0, &other.1)
    }
}

pub open spec fn pair_view_fn() -> spec_fn((String, String)) -> (Seq<char>, Seq<char>) {
    |e: (String, String)| (e.0@, e.1@)
}

pub open spec fn pair_views(v: Seq<(String, String)>) -> Seq<(Seq<char>, Seq<char>)> {
    v.map_values(pair_view_fn())
}

/// A declared scene has the given name or the given path.
pub open spec fn names_scene(entry: (Seq<char>, Seq<char>), name: Seq<char>, path: Seq<char>) -> bool {
    entry.0 == name || entry.1 == path
}

/// A scene file found on disk that the manifest does not already name:
/// named by its stem, unless a declared scene has that name or that path.
pub open spec fn undeclared_scene(declared: Seq<(Seq<char>, Seq<char>)>, path: Seq<char>) -> Option<(Seq<char>, Seq<char>)> {
    match file_stem(path) {
        Some(name) => if exists|i: int| 0 <= i < declared.len() && names_scene(#[trigger] declared[i], name, path) {
            None
        } else {
            Some((name, path))
        },
        None => None,
    }
}

pub open spec fn undeclared_scene_fn(declared: Seq<(Seq<char>, Seq<char>)>) -> spec_fn(Seq<char>) -> Option<(Seq<char>, Seq<char>)> {
    |p: Seq<char>| undeclared_scene(declared, p)
}

fn declared_name_or_path(declared: &Vec<(String, String)>, name: &Vec<char>, path: &str) -> (r: bool)
    ensures
        r == exists|i: int| 0 <= i < declared@.len() && names_scene(#[trigger] pair_views(declared@)[i], name@, path@),
{
    let mut i: usize = 0;
    while i < declared.len()
        invariant
            i <= declared@.len(),
            forall|j: int| 0 <= j < i ==> !names_scene(#[trigger] pair_views(declared@)[j], name@, path@),
        decreases declared.len() - i,
    {
        assert(pair_views(declared@)[i as int] == (declared@[i as int].0@, declared@[i as int].1@));
        let entry = &declared[i];
        let same_name = seq_eq_str(name, entry.0.as_str());
        let same_path = str_eq(entry.1.as_str(), path);
        if same_name || same_path {
            return true;
        }
        i = i + 1;
    }
    false
}

/// The scenes of a project: those its manifest declares (with the path
/// each resolved to) and the scene files found in its scene folder that
/// none of them names, by name and then path.
pub fn merge_scene_paths(declared: Vec<(String, String)>, found: &Vec<String>) -> (scenes: Vec<(String, String)>)
    ensures
        sorted_by_key(scenes@),
        scenes@.map_values(pair_view_fn()).to_multiset() == (pair_views(declared@)
            + path_views(found@).filter_map(undeclared_scene_fn(pair_views(declared@)))).to_multiset(),
{
    let ghost views = path_views(found@);
    let ghost dv = pair_views(declared@);
    let mut extra: Vec<(String, String)> = Vec::new();
    let mut i: usize = 0;
    while i < found.len()
        invariant
            i <= found.len(),
            views == path_views(found@),
            dv == pair_views(declared@),
            extra@.map_values(pair_view_fn()) == views.take(i as int).filter_map(undeclared_scene_fn(dv)),
        decreases found.len() - i,
    {
        proof {
            views.lemma_filter_map_take_succ(undeclared_scene_fn(dv), i as int);
        }
        let ghost before = extra@;
        let path = found[i].as_str();
        let cs = chars_of(path);
        if let Some(name) = file_name_of(&cs) {
            let stem = stem_of_name(&name);
            if !declared_name_or_path(&declared, &stem, path) {
                extra.push((string_from_chars(&stem), string_from_chars(&cs)));
                assert(extra@.map_values(pair_view_fn()) =~= before.map_values(pair_view_fn()) + seq![undeclared_scene(dv, views[i as int]).unwrap()]);
            }
        }
        i = i + 1;
    }
    assert(views.take(found.len() as int) =~= views);
    let ghost extra_views = extra@.map_values(pair_view_fn());
    let mut all = declared;
    let ghost declared_seq = all@;
    let mut rest = extra;
    while rest.len() > 0
        invariant
            all@.map_values(pair_view_fn()) + rest@.map_values(pair_view_fn())
                =~= declared_seq.map_values(pair_view_fn()) + extra_views,
        decreases rest.len(),
    {
        let ghost r0 = rest@;
        let ghost a0 = all@;
        let e = rest.remove(0);
        assert(r0 == seq![e] + rest@) by {
            assert(r0 =~= seq![e] + rest@);
        }
        all.push(e);
        assert(all@.map_values(pair_view_fn()) + rest@.map_values(pair_view_fn())
            =~= a0.map_values(pair_view_fn()) + r0.map_values(pair_view_fn()));
    }
    assert(all@.map_values(pair_view_fn()) =~= dv + extra_views);
    let scenes = sort_by_key(all);
    proof {
        lemma_map_values_multiset(scenes@, all@, pair_view_fn());
    }
    scenes
}

} // verus!
