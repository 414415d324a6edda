//! The plain records that the application passes around, and the
//! language-model configuration with the migration of its legacy fields.

use crate::text::{
    blank, decimal, decimal_text, is_blank, opt_view, same_text, trim, trimmed,
};
use vstd::prelude::*;
use vstd::string::*;

verus! {

/// One message of a chat, as the database holds it.
#[derive(Debug)]
pub struct ChatMessage {
    pub id: Option<i64>,
    pub timestamp: String,
    pub role: String,
    pub content: String,
    pub context_level: u8,
}

/// Messages that were read newest first, put in the order in which they
/// were written.
pub fn chronological(newest_first: Vec<ChatMessage>) -> (r: Vec<ChatMessage>)
    ensures
        r@ == newest_first@.reverse(),
{
    let mut rest = newest_first;
    let mut r: Vec<ChatMessage> = Vec::new();
    let ghost all = rest@;
    while rest.len() > 0
        invariant
            rest@.len() <= all.len(),
            rest@ == all.subrange(0, rest@.len() as int),
            r@.len() == all.len() - rest@.len(),
            forall|k: int| 0 <= k < r@.len() ==> r@[k] == all[all.len() - 1 - k],
        decreases rest@.len(),
    {
        match rest.pop() {
            Some(m) => {
                r.push(m);
            },
            None => {},
        }
    }
    assert(r@ =~= all.reverse());
    r
}

/// The answer of a chat, with the character's comments where there are any.
#[derive(Debug)]
pub struct ChatResponse {
    pub main_response: String,
    pub character_comments: Option<Vec<String>>,
}

/// A saved version of a texture.
#[derive(Debug)]
pub struct TextureVersion {
    pub id: String,
    pub created_at: String,
    pub prompt: Option<String>,
}

/// What start-up reports once the primary character is ready.
#[derive(Debug)]
pub struct InitStatus {
    pub ready: bool,
    pub message: String,
    pub models_path: String,
}

impl InitStatus {
    /// The report of a start-up that succeeded, with the asset root of the
    /// primary character.
    pub fn ready_at(models_path: String) -> (r: InitStatus)
        ensures
            r.ready,
            r.message@ == "Ready"@,
            r.models_path@ == models_path@,
    {
        InitStatus { ready: true, message: String::from_str("Ready"), models_path: models_path }
    }
}

/// A language model on offer.
#[derive(Debug)]
pub struct ModelOption {
    pub id: String,
    pub name: String,
    pub supports_vision: bool,
}

/// Whether the first model on offer with the given identifier takes images;
/// a model that is not on offer does not.
pub open spec fn vision_of(models: Seq<ModelOption>, model_id: Seq<char>) -> bool
    decreases models.len(),
{
    if models.len() == 0 {
        false
    } else if models[0].id@ == model_id {
        models[0].supports_vision
    } else {
        vision_of(models.drop_first(), model_id)
    }
}

/// Whether the model with the given identifier takes images.
pub fn model_supports_vision(models: &Vec<ModelOption>, model_id: &str) -> (r: bool)
    ensures
        r == vision_of(models@, model_id@),
{
    let n = models.len();
    let mut i: usize = 0;
    assert(models@.subrange(0, n as int) =~= models@);
    while i < n
        invariant
            n == models@.len(),
            i <= n,
            vision_of(models@, model_id@) == vision_of(
                models@.subrange(i as int, n as int),
                model_id@,
            ),
        decreases n - i,
    {
        let ghost tail = models@.subrange(i as int, n as int);
        assert(tail[0] == models@[i as int]);
        assert(tail.drop_first() =~= models@.subrange(i + 1, n as int));
        if same_text(models[i].id.as_str(), model_id) {
            return models[i].supports_vision;
        }
        i += 1;
    }
    false
}

/// The model that answers where none was chosen.
pub open spec fn default_model() -> Seq<char> {
    "openai/chatgpt-4o-latest"@
}

/// The assistant's model where none was chosen.
pub fn default_assistant_model() -> (r: String)
    ensures
        r@ == default_model(),
{
    String::from_str("openai/chatgpt-4o-latest")
}

/// The role-play model where none was chosen.
pub fn default_rp_model() -> (r: String)
    ensures
        r@ == default_model(),
{
    String::from_str("openai/chatgpt-4o-latest")
}

/// The language-model configuration.  The last three fields are read from
/// legacy files and never written.
#[derive(Debug)]
pub struct LLMConfig {
    pub assistant_model: String,
    pub rp_model: String,
    pub openrouter_api_key: Option<String>,
    pub openai_transcription_api_key: Option<String>,
    pub openai_api_key: Option<String>,
    pub groq_api_key: Option<String>,
    pub chat_model: Option<String>,
}

/// A language-model configuration as a value.
pub ghost struct LlmView {
    pub assistant_model: Seq<char>,
    pub rp_model: Seq<char>,
    pub openrouter_api_key: Option<Seq<char>>,
    pub openai_transcription_api_key: Option<Seq<char>>,
    pub openai_api_key: Option<Seq<char>>,
    pub groq_api_key: Option<Seq<char>>,
    pub chat_model: Option<Seq<char>>,
}

impl View for LLMConfig {
    type V = LlmView;

    open spec fn view(&self) -> LlmView {
        LlmView {
            assistant_model: self.assistant_model@,
            rp_model: self.rp_model@,
            openrouter_api_key: opt_view(self.openrouter_api_key),
            openai_transcription_api_key: opt_view(self.openai_transcription_api_key),
            openai_api_key: opt_view(self.openai_api_key),
            groq_api_key: opt_view(self.groq_api_key),
            chat_model: opt_view(self.chat_model),
        }
    }
}

/// The configuration of an installation that has none.
pub open spec fn default_llm() -> LlmView {
    LlmView {
        assistant_model: default_model(),
        rp_model: default_model(),
        openrouter_api_key: None,
        openai_transcription_api_key: None,
        openai_api_key: None,
        groq_api_key: None,
        chat_model: None,
    }
}

impl Default for LLMConfig {
    fn default() -> (r: LLMConfig)
        ensures
            r@ == default_llm(),
    {
        LLMConfig {
            assistant_model: default_assistant_model(),
            rp_model: default_rp_model(),
            openrouter_api_key: None,
            openai_transcription_api_key: None,
            openai_api_key: None,
            groq_api_key: None,
            chat_model: None,
        }
    }
}

/// A configuration brought up to date.  A legacy chat model is forgotten,
/// and becomes the assistant's model where that was still the default.
/// Then, where no transcription key is set, the legacy key moves into its
/// place.
pub open spec fn migrated_llm(c: LlmView) -> LlmView {
    let first = match c.chat_model {
        Some(old) => LlmView {
            assistant_model: if c.assistant_model == default_model() {
                old
            } else {
                c.assistant_model
            },
            chat_model: None,
            ..c
        },
        None => c,
    };
    match (first.openai_transcription_api_key, first.openai_api_key) {
        (None, Some(key)) => LlmView {
            openai_transcription_api_key: Some(key),
            openai_api_key: None,
            ..first
        },
        _ => first,
    }
}

/// Whether bringing a configuration up to date changes what is stored.
pub open spec fn needs_migration(c: LlmView) -> bool {
    c.chat_model is Some || (c.openai_transcription_api_key is None && c.openai_api_key is Some)
}

/// Brings a configuration that was read from disk up to date, and says
/// whether it is to be written back.
pub fn load_llm_config(config: LLMConfig) -> (r: (LLMConfig, bool))
    ensures
        r.0@ == migrated_llm(config@),
        r.1 == needs_migration(config@),
{
    let LLMConfig {
        assistant_model,
        rp_model,
        openrouter_api_key,
        openai_transcription_api_key,
        openai_api_key,
        groq_api_key,
        chat_model,
    } = config;
    let mut changed = false;
    let assistant_model = match chat_model {
        Some(old) => {
            changed = true;
            if same_text(assistant_model.as_str(), "openai/chatgpt-4o-latest") {
                old
            } else {
                assistant_model
            }
        },
        None => assistant_model,
    };
    let (transcription, legacy) = match openai_transcription_api_key {
        Some(key) => (Some(key), openai_api_key),
        None => match openai_api_key {
            Some(key) => {
                changed = true;
                (Some(key), None)
            },
            None => (None, None),
        },
    };
    (
        LLMConfig {
            assistant_model: assistant_model,
            rp_model: rp_model,
            openrouter_api_key: openrouter_api_key,
            openai_transcription_api_key: transcription,
            openai_api_key: legacy,
            groq_api_key: groq_api_key,
            chat_model: None,
        },
        changed,
    )
}

/// The configuration with a model chosen for a context level: level 0 is the
/// assistant, level 1 the role play.
pub open spec fn with_model(c: LlmView, model: Seq<char>, context_level: u8) -> LlmView {
    if context_level == 0 {
        LlmView { assistant_model: model, ..c }
    } else {
        LlmView { rp_model: model, ..c }
    }
}

/// Chooses the model for a context level.  Levels other than 0 and 1 have
/// no model to choose.
pub fn set_model(config: LLMConfig, model: String, context_level: u8) -> (r: Result<
    LLMConfig,
    String,
>)
    ensures
        match r {
            Ok(c) => context_level <= 1 && c@ == with_model(config@, model@, context_level),
            Err(m) => context_level > 1 && m@ == "Invalid context level: "@ + decimal(
                context_level as nat,
            ),
        },
{
    let mut config = config;
    if context_level == 0 {
        config.assistant_model = model;
        Ok(config)
    } else if context_level == 1 {
        config.rp_model = model;
        Ok(config)
    } else {
        Err(
            String::from_str("Invalid context level: ").concat(
                decimal_text(context_level).as_str(),
            ),
        )
    }
}

/// The prompt in force: the stored one, trimmed, unless there is none or it
/// is blank; then the built-in one.
pub open spec fn prompt_in_force(stored: Option<Seq<char>>, built_in: Seq<char>) -> Seq<char> {
    match stored {
        Some(text) => if blank(text) {
            built_in
        } else {
            trimmed(text)
        },
        None => built_in,
    }
}

/// The prompt in force, given the stored prompt if there is one.
pub fn prompt_or_default(stored: Option<&str>, built_in: &str) -> (r: String)
    ensures
        r@ == prompt_in_force(
            match stored {
                Some(text) => Some(text@),
                None => None,
            },
            built_in@,
        ),
{
    match stored {
        Some(text) => {
            if is_blank(text) {
                String::from_str(built_in)
            } else {
                trim(text)
            }
        },
        None => String::from_str(built_in),
    }
}

/// The horizontal offset of a character's overlay from the screen's corner.
pub fn character_cascade_offset(character_id: &str) -> (r: i32)
    ensures
        r == 0,
{
    0
}

} // verus!
