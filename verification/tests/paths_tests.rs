use oto_core::paths::{
    app_data_dir_in, characters_config_path_in, db_path_for_character_in, db_path_in,
    model_config_path_in, models_dir_for_character_in, models_dir_in, originals_dir_for_model_in,
    screenshots_dir_in, texture_dir_for_model_in, versions_dir_for_model_in, get_api_key_path, get_app_data_dir, get_character_prompt_path,
    get_characters_config_path, get_codex_workspace_dir, get_db_path, get_db_path_for_character,
    get_dialogue_prompt_path, get_hitbox_path, get_llm_config_path, get_model_config_path,
    get_models_dir, get_models_dir_for_character, get_originals_dir_for_model,
    get_overlay_scale_path, get_screenshots_dir, get_system_prompt_path,
    get_texture_dir_for_model, get_transform_config_path, get_versions_dir_for_model, AppPath,
    DEFAULT_MODEL_URL, DEFAULT_OVERLAY_HEIGHT, DEFAULT_OVERLAY_WIDTH,
};
use std::path::PathBuf;

fn check(r: Result<AppPath, String>, below: &[&str]) {
    match r {
        Ok(p) => {
            let mut expected = vec!["com.oto.desktop".to_string()];
            expected.extend(below.iter().map(|s| s.to_string()));
            assert_eq!(p.parts, expected);
            assert_eq!(Some(p.base), dirs::data_dir());
        }
        Err(m) => {
            assert_eq!(m, "Could not find app data directory");
            assert_eq!(dirs::data_dir(), None);
        }
    }
}

#[test]
fn constants() {
    assert_eq!(DEFAULT_MODEL_URL, "https://storage.googleapis.com/oto_bucket/live2d/Hiyori1.zip");
    assert_eq!(DEFAULT_OVERLAY_WIDTH, 400);
    assert_eq!(DEFAULT_OVERLAY_HEIGHT, 600);
}

#[test]
fn app_dir_below_a_data_dir() {
    let p = app_data_dir_in(Some(PathBuf::from("/home/alice/.local/share"))).expect("a dir");
    assert_eq!(p.base, PathBuf::from("/home/alice/.local/share"));
    assert_eq!(p.parts, vec!["com.oto.desktop"]);
    let q = p.join("models").join("character_2");
    assert_eq!(q.base, PathBuf::from("/home/alice/.local/share"));
    assert_eq!(q.parts, vec!["com.oto.desktop", "models", "character_2"]);
}

#[test]
fn no_data_dir_is_an_error() {
    match app_data_dir_in(None) {
        Err(m) => assert_eq!(m, "Could not find app data directory"),
        Ok(p) => panic!("unexpected: {:?}", p),
    }
}

#[test]
fn fixed_locations() {
    check(get_app_data_dir(), &[]);
    check(get_models_dir(), &["models"]);
    check(get_screenshots_dir(), &["History", "Screenshots"]);
    check(get_db_path(), &["chat_history.db"]);
    check(get_api_key_path(), &[".api_key"]);
    check(get_llm_config_path(), &[".llm_config.json"]);
    check(get_system_prompt_path(), &[".system_prompt"]);
    check(get_character_prompt_path(), &[".character_prompt"]);
    check(get_dialogue_prompt_path(), &[".dialogue_prompt"]);
    check(get_hitbox_path(), &[".hitbox.json"]);
    check(get_model_config_path(), &[".model_config.json"]);
    check(get_characters_config_path(), &[".characters.json"]);
    check(get_overlay_scale_path(), &[".overlay_scale"]);
    check(get_transform_config_path(), &[".transform_config.json"]);
    check(get_codex_workspace_dir(), &["codex_workspace"]);
}

#[test]
fn locations_of_a_character() {
    check(get_db_path_for_character("character_2"), &["chat_history_character_2.db"]);
    check(get_db_path_for_character(""), &["chat_history_.db"]);
    check(get_models_dir_for_character("character_3"), &["models", "character_3"]);
}

#[test]
fn locations_of_a_model() {
    check(get_texture_dir_for_model("Hiyori", "Hiyori.2048"), &["models", "Hiyori", "Hiyori.2048"]);
    check(
        get_originals_dir_for_model("Hiyori", "Hiyori.2048"),
        &["models", "Hiyori", "Hiyori.2048", "originals"],
    );
    check(
        get_versions_dir_for_model("cat", "textures"),
        &["models", "cat", "textures", "versions"],
    );
}

fn below(base: &str, r: Result<AppPath, String>) -> Vec<String> {
    let p = r.expect("a data directory gives a location");
    assert_eq!(p.base, PathBuf::from(base));
    assert_eq!(p.parts[0], "com.oto.desktop");
    p.parts[1..].to_vec()
}

#[test]
fn every_location_exists_below_a_data_directory() {
    let base = "/home/alice/.local/share";
    let dir = || Some(PathBuf::from(base));
    assert_eq!(below(base, models_dir_in(dir())), vec!["models"]);
    assert_eq!(below(base, screenshots_dir_in(dir())), vec!["History", "Screenshots"]);
    assert_eq!(below(base, db_path_in(dir())), vec!["chat_history.db"]);
    assert_eq!(
        below(base, db_path_for_character_in(dir(), "character_2")),
        vec!["chat_history_character_2.db"]
    );
    assert_eq!(below(base, characters_config_path_in(dir())), vec![".characters.json"]);
    assert_eq!(below(base, model_config_path_in(dir())), vec![".model_config.json"]);
    assert_eq!(
        below(base, models_dir_for_character_in(dir(), "character_3")),
        vec!["models", "character_3"]
    );
    assert_eq!(
        below(base, texture_dir_for_model_in(dir(), "cat", "cat.1024")),
        vec!["models", "cat", "cat.1024"]
    );
    assert_eq!(
        below(base, originals_dir_for_model_in(dir(), "cat", "cat.1024")),
        vec!["models", "cat", "cat.1024", "originals"]
    );
    assert_eq!(
        below(base, versions_dir_for_model_in(dir(), "cat", "cat.1024")),
        vec!["models", "cat", "cat.1024", "versions"]
    );
}

#[test]
fn no_location_exists_without_a_data_directory() {
    for r in [
        models_dir_in(None),
        screenshots_dir_in(None),
        db_path_in(None),
        db_path_for_character_in(None, "character_1"),
        characters_config_path_in(None),
        model_config_path_in(None),
        models_dir_for_character_in(None, "character_1"),
        texture_dir_for_model_in(None, "m", "t"),
        originals_dir_for_model_in(None, "m", "t"),
        versions_dir_for_model_in(None, "m", "t"),
    ] {
        match r {
            Err(m) => assert_eq!(m, "Could not find app data directory"),
            Ok(p) => panic!("unexpected: {:?}", p),
        }
    }
}

#[test]
fn asset_roots_of_distinct_characters_are_apart() {
    let base = "/data";
    let one = below(base, models_dir_for_character_in(Some(PathBuf::from(base)), "character_1"));
    let two = below(base, models_dir_for_character_in(Some(PathBuf::from(base)), "character_2"));
    assert_eq!(one.len(), two.len());
    assert_ne!(one, two);
}
