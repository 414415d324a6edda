use oto_core::models::{
    character_cascade_offset, chronological, default_assistant_model, default_rp_model, load_llm_config,
    model_supports_vision, set_model, ChatMessage, ChatResponse, InitStatus, LLMConfig, ModelOption,
    TextureVersion,
};

fn config() -> LLMConfig {
    LLMConfig::default()
}

#[test]
fn default_models() {
    assert_eq!(default_assistant_model(), "openai/chatgpt-4o-latest");
    assert_eq!(default_rp_model(), "openai/chatgpt-4o-latest");
    let c = config();
    assert_eq!(c.assistant_model, "openai/chatgpt-4o-latest");
    assert_eq!(c.rp_model, "openai/chatgpt-4o-latest");
    assert_eq!(c.openrouter_api_key, None);
    assert_eq!(c.openai_transcription_api_key, None);
    assert_eq!(c.openai_api_key, None);
    assert_eq!(c.groq_api_key, None);
    assert_eq!(c.chat_model, None);
}

#[test]
fn an_up_to_date_configuration_is_left_alone() {
    let mut c = config();
    c.assistant_model = "a/b".to_string();
    c.openrouter_api_key = Some("k".to_string());
    c.openai_transcription_api_key = Some("t".to_string());
    c.openai_api_key = Some("legacy".to_string());
    let (m, changed) = load_llm_config(c);
    assert!(!changed);
    assert_eq!(m.assistant_model, "a/b");
    assert_eq!(m.openrouter_api_key, Some("k".to_string()));
    assert_eq!(m.openai_transcription_api_key, Some("t".to_string()));
    assert_eq!(m.openai_api_key, Some("legacy".to_string()));
}

#[test]
fn an_old_chat_model_replaces_a_default_assistant_model() {
    let mut c = config();
    c.chat_model = Some("old/model".to_string());
    let (m, changed) = load_llm_config(c);
    assert!(changed);
    assert_eq!(m.assistant_model, "old/model");
    assert_eq!(m.chat_model, None);
    assert_eq!(m.rp_model, "openai/chatgpt-4o-latest");
}

#[test]
fn an_old_chat_model_does_not_replace_a_chosen_assistant_model() {
    let mut c = config();
    c.assistant_model = "chosen/model".to_string();
    c.chat_model = Some("old/model".to_string());
    let (m, changed) = load_llm_config(c);
    assert!(changed);
    assert_eq!(m.assistant_model, "chosen/model");
    assert_eq!(m.chat_model, None);
}

#[test]
fn an_old_key_becomes_the_transcription_key() {
    let mut c = config();
    c.openai_api_key = Some("sk-old".to_string());
    c.groq_api_key = Some("g".to_string());
    let (m, changed) = load_llm_config(c);
    assert!(changed);
    assert_eq!(m.openai_transcription_api_key, Some("sk-old".to_string()));
    assert_eq!(m.openai_api_key, None);
    assert_eq!(m.groq_api_key, Some("g".to_string()));
}

#[test]
fn vision_support_is_looked_up_by_id() {
    let models = vec![
        ModelOption { id: "a".to_string(), name: "A".to_string(), supports_vision: false },
        ModelOption { id: "b".to_string(), name: "B".to_string(), supports_vision: true },
        ModelOption { id: "b".to_string(), name: "B2".to_string(), supports_vision: false },
    ];
    assert!(!model_supports_vision(&models, "a"));
    assert!(model_supports_vision(&models, "b"));
    assert!(!model_supports_vision(&models, "c"));
    assert!(!model_supports_vision(&Vec::new(), "a"));
}

#[test]
fn init_status_of_a_ready_start() {
    let s = InitStatus::ready_at("/data/models/character_1".to_string());
    assert!(s.ready);
    assert_eq!(s.message, "Ready");
    assert_eq!(s.models_path, "/data/models/character_1");
}

#[test]
fn cascade_offset_is_zero() {
    assert_eq!(character_cascade_offset("character_1"), 0);
    assert_eq!(character_cascade_offset("character_3"), 0);
}

#[test]
fn plain_records_hold_their_fields() {
    let m = ChatMessage {
        id: Some(4),
        timestamp: "2024-01-01T00:00:00Z".to_string(),
        role: "user".to_string(),
        content: "hi".to_string(),
        context_level: 2,
    };
    assert_eq!(m.id, Some(4));
    assert_eq!(m.context_level, 2);
    let r = ChatResponse { main_response: "ok".to_string(), character_comments: None };
    assert_eq!(r.main_response, "ok");
    assert!(r.character_comments.is_none());
    let t = TextureVersion { id: "v1".to_string(), created_at: "now".to_string(), prompt: None };
    assert_eq!(t.id, "v1");
    assert_eq!(t.prompt, None);
}

#[test]
fn set_model_chooses_by_context_level() {
    let c = set_model(config(), "x/assistant".to_string(), 0).expect("level 0");
    assert_eq!(c.assistant_model, "x/assistant");
    assert_eq!(c.rp_model, "openai/chatgpt-4o-latest");
    let c = set_model(c, "x/rp".to_string(), 1).expect("level 1");
    assert_eq!(c.assistant_model, "x/assistant");
    assert_eq!(c.rp_model, "x/rp");
}

#[test]
fn set_model_refuses_other_levels() {
    match set_model(config(), "x".to_string(), 2) {
        Err(m) => assert_eq!(m, "Invalid context level: 2"),
        Ok(c) => panic!("unexpected: {:?}", c),
    }
    match set_model(config(), "x".to_string(), 255) {
        Err(m) => assert_eq!(m, "Invalid context level: 255"),
        Ok(c) => panic!("unexpected: {:?}", c),
    }
}

#[test]
fn history_is_put_in_writing_order() {
    let message = |id: i64| ChatMessage {
        id: Some(id),
        timestamp: format!("t{}", id),
        role: "user".to_string(),
        content: format!("m{}", id),
        context_level: 0,
    };
    let ordered = chronological(vec![message(3), message(2), message(1)]);
    let ids: Vec<Option<i64>> = ordered.iter().map(|m| m.id).collect();
    assert_eq!(ids, vec![Some(1), Some(2), Some(3)]);
    assert_eq!(ordered[0].content, "m1");
    assert!(chronological(Vec::new()).is_empty());
}
