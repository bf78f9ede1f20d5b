use std::path::{Path, PathBuf};
use toki_core::project_assets::{
    collect_audio_assets, merge_scene_paths, scene_path_candidates, select_json_files,
    audio_asset_for_path, is_json_file_path, normalize_asset_name, scene_file_path,
    tilemap_file_path, dialog_file_path, ui_layout_file_path, ProjectAudioFormat,
};

#[test]
fn normalize_asset_name_strips_json_suffix() {
    assert_eq!(normalize_asset_name("terrain.json"), "terrain");
}

#[test]
fn normalize_asset_name_preserves_name_without_suffix() {
    assert_eq!(normalize_asset_name("terrain"), "terrain");
}

#[test]
fn normalize_asset_name_only_strips_final_json_suffix() {
    assert_eq!(normalize_asset_name("data.json.backup"), "data.json.backup");
}

#[test]
fn normalize_asset_name_handles_empty_string() {
    assert_eq!(normalize_asset_name(""), "");
}

#[test]
fn normalize_asset_name_handles_just_json() {
    assert_eq!(normalize_asset_name(".json"), "");
}

#[test]
fn normalize_asset_name_case_sensitive() {
    assert_eq!(normalize_asset_name("terrain.JSON"), "terrain.JSON");
}

#[test]
fn scene_file_path_returns_canonical_path() {
    let project = Path::new("/projects/my_game");
    let path = scene_file_path("/projects/my_game", "Main Scene");
    assert_eq!(PathBuf::from(path), project.join("scenes").join("Main Scene.json"));
}

#[test]
fn tilemap_file_path_returns_canonical_path() {
    let project = Path::new("/projects/my_game");
    let path = tilemap_file_path("/projects/my_game", "Level 1");
    assert_eq!(
        PathBuf::from(path),
        project.join("assets").join("tilemaps").join("Level 1.json")
    );
}

// ---------------------------------------------------------------------------
// Further cases
// ---------------------------------------------------------------------------

#[test]
fn dialog_and_ui_paths_follow_the_project_layout() {
    let project = Path::new("/projects/my_game");
    assert_eq!(
        PathBuf::from(dialog_file_path("/projects/my_game", "intro")),
        project.join("dialogs").join("intro.json")
    );
    assert_eq!(
        PathBuf::from(ui_layout_file_path("/projects/my_game/", "hud")),
        project.join("ui").join("hud.json")
    );
}

#[test]
fn json_files_are_recognised_in_any_case() {
    assert!(is_json_file_path("scenes/a.json"));
    assert!(is_json_file_path("scenes/a.JSON"));
    assert!(!is_json_file_path("scenes/a.json.bak"));
    assert!(!is_json_file_path("scenes/json"));
    assert!(!is_json_file_path("scenes/.json"));
}

#[test]
fn audio_assets_are_named_by_stem_and_typed_by_extension() {
    let a = audio_asset_for_path("audio/theme.OGG").expect("ogg");
    assert_eq!(a.name, "theme");
    assert_eq!(a.path, "audio/theme.OGG");
    assert_eq!(a.format, ProjectAudioFormat::Ogg);
    assert_eq!(audio_asset_for_path("audio/hit.wav").unwrap().format, ProjectAudioFormat::Wav);
    assert_eq!(audio_asset_for_path("audio/x.y.mp3").unwrap().name, "x.y");
    assert!(audio_asset_for_path("audio/readme.txt").is_none());
    assert!(audio_asset_for_path("audio/noext").is_none());
}

#[test]
fn json_files_are_selected_and_sorted_by_path() {
    let files = vec![
        "d/zeta.json".to_string(),
        "d/readme.txt".to_string(),
        "d/Alpha.JSON".to_string(),
        "d/alpha.json".to_string(),
        "d/a-b.json".to_string(),
    ];
    assert_eq!(
        select_json_files(&files),
        vec![
            "d/Alpha.JSON".to_string(),
            "d/a-b.json".to_string(),
            "d/alpha.json".to_string(),
            "d/zeta.json".to_string(),
        ]
    );
    assert!(select_json_files(&Vec::new()).is_empty());
}

#[test]
fn audio_assets_are_collected_by_name_then_path() {
    let files = vec![
        "a/theme.ogg".to_string(),
        "a/notes.txt".to_string(),
        "a/hit.WAV".to_string(),
        "a/a-b.mp3".to_string(),
        "a/a.mp3".to_string(),
    ];
    let assets = collect_audio_assets(&files);
    let names: Vec<&str> = assets.iter().map(|a| a.name.as_str()).collect();
    assert_eq!(names, vec!["a", "a-b", "hit", "theme"]);
    assert_eq!(assets[2].format, ProjectAudioFormat::Wav);
    assert_eq!(assets[2].path, "a/hit.WAV");
}

#[test]
fn scene_candidates_try_the_manifest_path_first() {
    assert_eq!(
        scene_path_candidates("/p", "intro", Some("levels/intro.json")),
        vec!["/p/levels/intro.json".to_string(), "/p/scenes/intro.json".to_string()]
    );
    assert_eq!(scene_path_candidates("/p", "intro", None), vec!["/p/scenes/intro.json".to_string()]);
}

#[test]
fn undeclared_scene_files_are_merged_by_name() {
    let declared = vec![
        ("town".to_string(), "/p/levels/town.json".to_string()),
        ("cave".to_string(), "/p/scenes/cave_v2.json".to_string()),
    ];
    let found = vec![
        "/p/scenes/cave_v2.json".to_string(),
        "/p/scenes/town.json".to_string(),
        "/p/scenes/beach.json".to_string(),
    ];
    assert_eq!(
        merge_scene_paths(declared, &found),
        vec![
            ("beach".to_string(), "/p/scenes/beach.json".to_string()),
            ("cave".to_string(), "/p/scenes/cave_v2.json".to_string()),
            ("town".to_string(), "/p/levels/town.json".to_string()),
        ]
    );
}

#[test]
fn tilemap_atlas_candidates_come_in_lookup_order() {
    let candidates = toki_core::project_assets::tilemap_atlas_path_candidates("/game", "/game/assets/maps", "terrain.json");
    assert_eq!(
        candidates,
        vec![
            "/game/assets/maps/terrain.json".to_string(),
            "/game/assets/sprites/terrain.json".to_string(),
            "/game/assets/tilemaps/terrain.json".to_string(),
            "/game/assets/maps/terrain.json".to_string(),
            "/game/assets/terrain.json".to_string(),
        ]
    );
    let absolute = toki_core::project_assets::tilemap_atlas_path_candidates("/game", "/game/maps", "/shared/a.json");
    assert!(absolute.iter().all(|c| c == "/shared/a.json"));
}

#[test]
fn tilemap_candidates_use_the_named_or_default_map() {
    assert_eq!(
        toki_core::project_assets::tilemap_path_candidates("/game", Some("cave")),
        vec!["/game/assets/tilemaps/cave.json".to_string(), "/game/assets/maps/cave.json".to_string()]
    );
    assert_eq!(
        toki_core::project_assets::tilemap_path_candidates("/game", None),
        vec![
            "/game/assets/tilemaps/new_town_map_64x64_crossings.json".to_string(),
            "/game/assets/maps/new_town_map_64x64_crossings.json".to_string(),
        ]
    );
}

#[test]
fn sprite_metadata_splits_by_kind_in_order() {
    let split = toki_core::project_assets::split_sprite_metadata(vec![
        ("b.json".to_string(), toki_core::project_assets::SpriteMetadataFileKind::ObjectSheet),
        ("a.json".to_string(), toki_core::project_assets::SpriteMetadataFileKind::Atlas),
        ("n.json".to_string(), toki_core::project_assets::SpriteMetadataFileKind::Unknown),
        ("c.json".to_string(), toki_core::project_assets::SpriteMetadataFileKind::Atlas),
    ]);
    assert_eq!(split.sprite_atlas_paths, vec!["a.json".to_string(), "c.json".to_string()]);
    assert_eq!(split.object_sheet_paths, vec!["b.json".to_string()]);
}
