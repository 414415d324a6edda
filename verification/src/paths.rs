//! Where the application keeps its files: each location as the platform's
//! data directory and the path components below it.

use vstd::prelude::*;
use vstd::string::*;

verus! {

/// The bundle that a freshly installed primary character uses.
pub const DEFAULT_MODEL_URL: &'static str = "https://storage.googleapis.com/oto_bucket/live2d/Hiyori1.zip";

/// The width of an overlay window at scale one.
pub const DEFAULT_OVERLAY_WIDTH: u32 = 400;

/// The height of an overlay window at scale one.
pub const DEFAULT_OVERLAY_HEIGHT: u32 = 600;

/// `std::path::PathBuf`, carried through as it is; nothing is claimed of
/// what it holds.
#[verifier::external_type_specification]
#[verifier::external_body]
pub struct ExPathBuf(std::path::PathBuf);

/// `dirs::data_dir`: the user's data directory as the platform reports it,
/// or nothing where the platform knows none.  The answer depends on the
/// environment of the process, so nothing is claimed of it.
#[verifier::external_body]
fn platform_data_dir() -> (r: Option<std::path::PathBuf>) {
    dirs::data_dir()
}

/// A location below the platform's data directory: the directory, and the
/// components to join to it one after the other.
#[derive(Debug)]
pub struct AppPath {
    pub base: std::path::PathBuf,
    pub parts: Vec<String>,
}

impl AppPath {
    /// The components below the data directory.
    pub open spec fn components(&self) -> Seq<Seq<char>> {
        Seq::new(self.parts@.len(), |i: int| self.parts@[i]@)
    }

    /// The location one component further down, below the same directory.
    pub fn join(self, part: &str) -> (r: AppPath)
        ensures
            r.base == self.base,
            r.components() == self.components().push(part@),
    {
        let ghost before = self.components();
        let AppPath { base, parts } = self;
        let mut parts = parts;
        parts.push(String::from_str(part));
        let r = AppPath { base: base, parts: parts };
        assert(r.components() =~= before.push(part@));
        r
    }
}

/// The message for a platform without a data directory.
pub open spec fn no_data_dir() -> Seq<char> {
    "Could not find app data directory"@
}

/// The components of the application's own directory.
pub open spec fn app_dir() -> Seq<Seq<char>> {
    seq!["com.oto.desktop"@]
}

/// The location at `below` under the application's directory, for a
/// platform that has the given data directory: the location below that
/// very directory, or the message where the platform has none.
pub open spec fn located(
    data_dir: Option<std::path::PathBuf>,
    below: Seq<Seq<char>>,
    r: Result<AppPath, String>,
) -> bool {
    match data_dir {
        Some(base) => r matches Ok(p) && p.base == base && p.components() == app_dir() + below,
        None => r matches Err(m) && m@ == no_data_dir(),
    }
}

/// What holds of a location whatever the platform answered: it lies at
/// `below` under the application's directory, or the platform has no data
/// directory and the message says so.
pub open spec fn lies_at(r: Result<AppPath, String>, below: Seq<Seq<char>>) -> bool {
    match r {
        Ok(p) => p.components() == app_dir() + below,
        Err(m) => m@ == no_data_dir(),
    }
}

/// The application's directory below a data directory; without a data
/// directory there is none.
pub fn app_data_dir_in(data_dir: Option<std::path::PathBuf>) -> (r: Result<AppPath, String>)
    ensures
        located(data_dir, Seq::empty(), r),
{
    match data_dir {
        Some(base) => {
            let mut parts: Vec<String> = Vec::new();
            parts.push(String::from_str("com.oto.desktop"));
            let p = AppPath { base: base, parts: parts };
            assert(p.components() =~= app_dir() + Seq::<Seq<char>>::empty());
            Ok(p)
        },
        None => Err(String::from_str("Could not find app data directory")),
    }
}

/// One component further down: a location stays a location below the same
/// directory, and a missing data directory stays missing.
fn further(r: Result<AppPath, String>, part: &str) -> (q: Result<AppPath, String>)
    ensures
        match r {
            Ok(p) => q matches Ok(p2) && p2.base == p.base && p2.components()
                == p.components().push(part@),
            Err(m) => q matches Err(m2) && m2@ == m@,
        },
        forall|data_dir: Option<std::path::PathBuf>, below: Seq<Seq<char>>| #[trigger]
            located(data_dir, below, r) ==> located(data_dir, below.push(part@), q),
{
    match r {
        Ok(p) => {
            let ghost before = p.components();
            let q = p.join(part);
            proof {
                assert forall|below: Seq<Seq<char>>| before == app_dir() + below implies before.push(
                    part@,
                ) == app_dir() + below.push(part@) by {
                    assert((app_dir() + below).push(part@) =~= app_dir() + below.push(part@));
                }
            }
            Ok(q)
        },
        Err(m) => Err(m),
    }
}

/// The location `part` below the application's directory.
fn in_app_dir(data_dir: Option<std::path::PathBuf>, part: &str) -> (r: Result<AppPath, String>)
    ensures
        located(data_dir, seq![part@], r),
{
    let r = further(app_data_dir_in(data_dir), part);
    proof {
        assert(Seq::<Seq<char>>::empty().push(part@) =~= seq![part@]);
    }
    r
}

/// A location that is proved for any data directory holds whatever the
/// platform answered.
pub proof fn lemma_located_lies(
    data_dir: Option<std::path::PathBuf>,
    below: Seq<Seq<char>>,
    r: Result<AppPath, String>,
)
    requires
        located(data_dir, below, r),
    ensures
        lies_at(r, below),
{
}

/// The application's data directory.
pub fn get_app_data_dir() -> (r: Result<AppPath, String>)
    ensures
        lies_at(r, Seq::empty()),
{
    app_data_dir_in(platform_data_dir())
}

/// The file name of a character's chat database.
pub open spec fn db_file_name(character_id: Seq<char>) -> Seq<char> {
    "chat_history_"@ + character_id + ".db"@
}

/// The directory of the models, below a data directory.
pub fn models_dir_in(data_dir: Option<std::path::PathBuf>) -> (r: Result<AppPath, String>)
    ensures
        located(data_dir, seq!["models"@], r),
{
    in_app_dir(data_dir, "models")
}

/// The directory of the models.
pub fn get_models_dir() -> (r: Result<AppPath, String>)
    ensures
        lies_at(r, seq!["models"@]),
{
    models_dir_in(platform_data_dir())
}

/// The legacy chat database, shared by all characters, below a data directory.
pub fn db_path_in(data_dir: Option<std::path::PathBuf>) -> (r: Result<AppPath, String>)
    ensures
        located(data_dir, seq!["chat_history.db"@], r),
{
    in_app_dir(data_dir, "chat_history.db")
}

/// The legacy chat database, shared by all characters.
pub fn get_db_path() -> (r: Result<AppPath, String>)
    ensures
        lies_at(r, seq!["chat_history.db"@]),
{
    db_path_in(platform_data_dir())
}

/// The legacy file of the API key, below a data directory.
pub fn api_key_path_in(data_dir: Option<std::path::PathBuf>) -> (r: Result<AppPath, String>)
    ensures
        located(data_dir, seq![".api_key"@], r),
{
    in_app_dir(data_dir, ".api_key")
}

/// The legacy file of the API key.
pub fn get_api_key_path() -> (r: Result<AppPath, String>)
    ensures
        lies_at(r, seq![".api_key"@]),
{
    api_key_path_in(platform_data_dir())
}

/// The language-model configuration, below a data directory.
pub fn llm_config_path_in(data_dir: Option<std::path::PathBuf>) -> (r: Result<AppPath, String>)
    ensures
        located(data_dir, seq![".llm_config.json"@], r),
{
    in_app_dir(data_dir, ".llm_config.json")
}

/// The language-model configuration.
pub fn get_llm_config_path() -> (r: Result<AppPath, String>)
    ensures
        lies_at(r, seq![".llm_config.json"@]),
{
    llm_config_path_in(platform_data_dir())
}

/// The system prompt, below a data directory.
pub fn system_prompt_path_in(data_dir: Option<std::path::PathBuf>) -> (r: Result<AppPath, String>)
    ensures
        located(data_dir, seq![".system_prompt"@], r),
{
    in_app_dir(data_dir, ".system_prompt")
}

/// The system prompt.
pub fn get_system_prompt_path() -> (r: Result<AppPath, String>)
    ensures
        lies_at(r, seq![".system_prompt"@]),
{
    system_prompt_path_in(platform_data_dir())
}

/// The character prompt, below a data directory.
pub fn character_prompt_path_in(
    data_dir: Option<std::path::PathBuf>,
) -> (r: Result<AppPath, String>)
    ensures
        located(data_dir, seq![".character_prompt"@], r),
{
    in_app_dir(data_dir, ".character_prompt")
}

/// The character prompt.
pub fn get_character_prompt_path() -> (r: Result<AppPath, String>)
    ensures
        lies_at(r, seq![".character_prompt"@]),
{
    character_prompt_path_in(platform_data_dir())
}

/// The dialogue prompt, below a data directory.
pub fn dialogue_prompt_path_in(data_dir: Option<std::path::PathBuf>) -> (r: Result<AppPath, String>)
    ensures
        located(data_dir, seq![".dialogue_prompt"@], r),
{
    in_app_dir(data_dir, ".dialogue_prompt")
}

/// The dialogue prompt.
pub fn get_dialogue_prompt_path() -> (r: Result<AppPath, String>)
    ensures
        lies_at(r, seq![".dialogue_prompt"@]),
{
    dialogue_prompt_path_in(platform_data_dir())
}

/// The hitbox of the overlay, below a data directory.
pub fn hitbox_path_in(data_dir: Option<std::path::PathBuf>) -> (r: Result<AppPath, String>)
    ensures
        located(data_dir, seq![".hitbox.json"@], r),
{
    in_app_dir(data_dir, ".hitbox.json")
}

/// The hitbox of the overlay.
pub fn get_hitbox_path() -> (r: Result<AppPath, String>)
    ensures
        lies_at(r, seq![".hitbox.json"@]),
{
    hitbox_path_in(platform_data_dir())
}

/// The legacy single-slot model configuration, below a data directory.
pub fn model_config_path_in(data_dir: Option<std::path::PathBuf>) -> (r: Result<AppPath, String>)
    ensures
        located(data_dir, seq![".model_config.json"@], r),
{
    in_app_dir(data_dir, ".model_config.json")
}

/// The legacy single-slot model configuration.
pub fn get_model_config_path() -> (r: Result<AppPath, String>)
    ensures
        lies_at(r, seq![".model_config.json"@]),
{
    model_config_path_in(platform_data_dir())
}

/// The slots file, below a data directory.
pub fn characters_config_path_in(
    data_dir: Option<std::path::PathBuf>,
) -> (r: Result<AppPath, String>)
    ensures
        located(data_dir, seq![".characters.json"@], r),
{
    in_app_dir(data_dir, ".characters.json")
}

/// The slots file.
pub fn get_characters_config_path() -> (r: Result<AppPath, String>)
    ensures
        lies_at(r, seq![".characters.json"@]),
{
    characters_config_path_in(platform_data_dir())
}

/// The saved scale of the overlay, below a data directory.
pub fn overlay_scale_path_in(data_dir: Option<std::path::PathBuf>) -> (r: Result<AppPath, String>)
    ensures
        located(data_dir, seq![".overlay_scale"@], r),
{
    in_app_dir(data_dir, ".overlay_scale")
}

/// The saved scale of the overlay.
pub fn get_overlay_scale_path() -> (r: Result<AppPath, String>)
    ensures
        lies_at(r, seq![".overlay_scale"@]),
{
    overlay_scale_path_in(platform_data_dir())
}

/// The saved transform of the model, below a data directory.
pub fn transform_config_path_in(
    data_dir: Option<std::path::PathBuf>,
) -> (r: Result<AppPath, String>)
    ensures
        located(data_dir, seq![".transform_config.json"@], r),
{
    in_app_dir(data_dir, ".transform_config.json")
}

/// The saved transform of the model.
pub fn get_transform_config_path() -> (r: Result<AppPath, String>)
    ensures
        lies_at(r, seq![".transform_config.json"@]),
{
    transform_config_path_in(platform_data_dir())
}

/// The workspace of generated code, below a data directory.
pub fn codex_workspace_dir_in(data_dir: Option<std::path::PathBuf>) -> (r: Result<AppPath, String>)
    ensures
        located(data_dir, seq!["codex_workspace"@], r),
{
    in_app_dir(data_dir, "codex_workspace")
}

/// The workspace of generated code.
pub fn get_codex_workspace_dir() -> (r: Result<AppPath, String>)
    ensures
        lies_at(r, seq!["codex_workspace"@]),
{
    codex_workspace_dir_in(platform_data_dir())
}

/// The directory of the screenshots, below a data directory.
pub fn screenshots_dir_in(data_dir: Option<std::path::PathBuf>) -> (r: Result<AppPath, String>)
    ensures
        located(data_dir, seq!["History"@, "Screenshots"@], r),
{
    let r = in_app_dir(data_dir, "History");
    let r = further(r, "Screenshots");
    proof {
        assert(seq!["History"@].push("Screenshots"@) =~= seq!["History"@, "Screenshots"@]);
    }
    r
}

/// The directory of the screenshots.
pub fn get_screenshots_dir() -> (r: Result<AppPath, String>)
    ensures
        lies_at(r, seq!["History"@, "Screenshots"@]),
{
    screenshots_dir_in(platform_data_dir())
}

/// The files of the store lie apart: the slots file is not the legacy
/// single-slot file, the database of a character is not the legacy
/// database, and distinct characters have distinct databases.
pub proof fn lemma_locations_apart(one: Seq<char>, other: Seq<char>)
    ensures
        ".characters.json"@ != ".model_config.json"@,
        db_file_name(one) != "chat_history.db"@,
        one != other ==> db_file_name(one) != db_file_name(other),
        one != other ==> seq!["models"@, one] != seq!["models"@, other],
{
    reveal_strlit(".characters.json");
    reveal_strlit(".model_config.json");
    reveal_strlit("chat_history.db");
    reveal_strlit("chat_history_");
    reveal_strlit(".db");
    assert(".characters.json"@[1] != ".model_config.json"@[1]);
    assert(db_file_name(one)[12] == '_');
    assert("chat_history.db"@[12] == '.');
    if one != other && db_file_name(one) == db_file_name(other) {
        let a = db_file_name(one);
        let b = db_file_name(other);
        assert(a.len() == 13 + one.len() + 3);
        assert(b.len() == 13 + other.len() + 3);
        assert forall|k: int| 0 <= k < one.len() implies one[k] == other[k] by {
            assert(a[13 + k] == one[k]);
            assert(b[13 + k] == other[k]);
        }
        assert(one =~= other);
    }
    if one != other {
        assert(seq!["models"@, one][1] == one);
        assert(seq!["models"@, other][1] == other);
    }
}

/// The chat database of a character, below a data directory.
pub fn db_path_for_character_in(data_dir: Option<std::path::PathBuf>, character_id: &str) -> (r:
    Result<AppPath, String>)
    ensures
        located(data_dir, seq![db_file_name(character_id@)], r),
{
    let name = String::from_str("chat_history_").concat(character_id).concat(".db");
    in_app_dir(data_dir, name.as_str())
}

/// The chat database of a character.
pub fn get_db_path_for_character(character_id: &str) -> (r: Result<AppPath, String>)
    ensures
        lies_at(r, seq![db_file_name(character_id@)]),
{
    db_path_for_character_in(platform_data_dir(), character_id)
}

/// The private asset root of a character, below a data directory.
pub fn models_dir_for_character_in(
    data_dir: Option<std::path::PathBuf>,
    character_id: &str,
) -> (r: Result<AppPath, String>)
    ensures
        located(data_dir, seq!["models"@, character_id@], r),
{
    let r = models_dir_in(data_dir);
    let r = further(r, character_id);
    proof {
        assert(seq!["models"@].push(character_id@) =~= seq!["models"@, character_id@]);
    }
    r
}

/// The private asset root of a character.
pub fn get_models_dir_for_character(character_id: &str) -> (r: Result<AppPath, String>)
    ensures
        lies_at(r, seq!["models"@, character_id@]),
{
    models_dir_for_character_in(platform_data_dir(), character_id)
}

/// The texture directory of a model, below a data directory.
pub fn texture_dir_for_model_in(
    data_dir: Option<std::path::PathBuf>,
    model_folder: &str,
    texture_folder: &str,
) -> (r: Result<AppPath, String>)
    ensures
        located(data_dir, seq!["models"@, model_folder@, texture_folder@], r),
{
    let r = models_dir_in(data_dir);
    let r = further(r, model_folder);
    proof {
        assert(seq!["models"@].push(model_folder@) =~= seq!["models"@, model_folder@]);
    }
    let r = further(r, texture_folder);
    proof {
        assert(seq!["models"@, model_folder@].push(texture_folder@) =~= seq![
            "models"@,
            model_folder@,
            texture_folder@,
        ]);
    }
    r
}

/// The texture directory of a model.
pub fn get_texture_dir_for_model(
    model_folder: &str,
    texture_folder: &str,
) -> (r: Result<AppPath, String>)
    ensures
        lies_at(r, seq!["models"@, model_folder@, texture_folder@]),
{
    texture_dir_for_model_in(platform_data_dir(), model_folder, texture_folder)
}

/// The directory that keeps a model's textures as they came with it, below a data directory.
pub fn originals_dir_for_model_in(
    data_dir: Option<std::path::PathBuf>,
    model_folder: &str,
    texture_folder: &str,
) -> (r: Result<AppPath, String>)
    ensures
        located(data_dir, seq!["models"@, model_folder@, texture_folder@, "originals"@], r),
{
    let r = texture_dir_for_model_in(data_dir, model_folder, texture_folder);
    let r = further(r, "originals");
    proof {
        assert(seq!["models"@, model_folder@, texture_folder@].push("originals"@) =~= seq![
            "models"@,
            model_folder@,
            texture_folder@,
            "originals"@,
        ]);
    }
    r
}

/// The directory that keeps a model's textures as they came with it.
pub fn get_originals_dir_for_model(
    model_folder: &str,
    texture_folder: &str,
) -> (r: Result<AppPath, String>)
    ensures
        lies_at(r, seq!["models"@, model_folder@, texture_folder@, "originals"@]),
{
    originals_dir_for_model_in(platform_data_dir(), model_folder, texture_folder)
}

/// The directory of a model's saved texture versions, below a data directory.
pub fn versions_dir_for_model_in(
    data_dir: Option<std::path::PathBuf>,
    model_folder: &str,
    texture_folder: &str,
) -> (r: Result<AppPath, String>)
    ensures
        located(data_dir, seq!["models"@, model_folder@, texture_folder@, "versions"@], r),
{
    let r = texture_dir_for_model_in(data_dir, model_folder, texture_folder);
    let r = further(r, "versions");
    proof {
        assert(seq!["models"@, model_folder@, texture_folder@].push("versions"@) =~= seq![
            "models"@,
            model_folder@,
            texture_folder@,
            "versions"@,
        ]);
    }
    r
}

/// The directory of a model's saved texture versions.
pub fn get_versions_dir_for_model(
    model_folder: &str,
    texture_folder: &str,
) -> (r: Result<AppPath, String>)
    ensures
        lies_at(r, seq!["models"@, model_folder@, texture_folder@, "versions"@]),
{
    versions_dir_for_model_in(platform_data_dir(), model_folder, texture_folder)
}

} // verus!
