use oto_core::error::CoreError;
use oto_core::slots::CharacterSlotConfig;
use oto_core::visibility::{
    enabled_characters, next_character, OverlayEvent, VisibilityState,
};

fn slot(id: &str, url: &str, enabled: bool) -> CharacterSlotConfig {
    CharacterSlotConfig {
        slot_id: id.to_string(),
        model_url: url.to_string(),
        enabled,
        folder: None,
        model_file: None,
        texture_folder: None,
    }
}

fn render(events: &[OverlayEvent]) -> Vec<String> {
    events
        .iter()
        .map(|e| match e {
            OverlayEvent::VisibilityChanged { character_id, visible } => {
                format!("{}:{}", character_id, visible)
            }
            OverlayEvent::ActiveChanged { character_id } => format!("active:{}", character_id),
        })
        .collect()
}

fn strings(ids: &[&str]) -> Vec<String> {
    ids.iter().map(|s| s.to_string()).collect()
}

#[test]
fn initial_state_hides_everything() {
    let v = VisibilityState::new();
    assert_eq!(v.visible_count(), 0);
    assert_eq!(v.get_active_character_id(), "character_1");
    for id in ["character_1", "character_2", "character_3"] {
        assert!(!v.get_overlay_visible_for_character(id));
    }
}

#[test]
fn show_hides_the_others_first() {
    let mut v = VisibilityState::new();
    let events = v.show_overlay_for_character("character_2").expect("valid");
    assert_eq!(render(&events), vec!["active:character_2", "character_2:true"]);
    let events = v.show_overlay_for_character("character_3").expect("valid");
    assert_eq!(
        render(&events),
        vec!["character_2:false", "active:character_3", "character_3:true"]
    );
    let events = v.show_overlay_for_character("character_3").expect("valid");
    assert_eq!(render(&events), vec!["active:character_3", "character_3:true"]);
    let events = v.show_overlay_for_character("character_2").expect("valid");
    assert_eq!(
        render(&events),
        vec!["character_3:false", "active:character_2", "character_2:true"]
    );
    assert!(v.get_overlay_visible_for_character("character_2"));
    assert!(!v.get_overlay_visible_for_character("character_1"));
    assert_eq!(v.get_active_character_id(), "character_2");
    assert_eq!(v.visible_count(), 1);
}

#[test]
fn single_visible_after_any_sequence_of_shows() {
    let ids = ["character_1", "character_2", "character_3"];
    let mut v = VisibilityState::new();
    let mut seed: u32 = 7;
    for _ in 0..200 {
        seed = seed.wrapping_mul(1103515245).wrapping_add(12345);
        let id = ids[((seed >> 16) % 3) as usize];
        v.show_overlay_for_character(id).expect("valid");
        assert!(v.visible_count() <= 1);
        assert_eq!(v.visible_count(), 1);
        for other in ids {
            assert_eq!(v.get_overlay_visible_for_character(other), other == id);
        }
        assert_eq!(v.get_active_character_id(), id);
    }
}

#[test]
fn show_of_an_unknown_character_changes_nothing() {
    let mut v = VisibilityState::new();
    v.show_overlay_for_character("character_3").expect("valid");
    match v.show_overlay_for_character("character_4") {
        Err(CoreError::InvalidSlot) => {}
        other => panic!("unexpected: {:?}", other),
    }
    assert!(v.get_overlay_visible_for_character("character_3"));
    assert_eq!(v.get_active_character_id(), "character_3");
    assert_eq!(v.visible_count(), 1);
}

#[test]
fn hide_keeps_the_active_character() {
    let mut v = VisibilityState::new();
    v.show_overlay_for_character("character_2").expect("valid");
    let e = v.hide_overlay_for_character("character_2");
    assert_eq!(render(&[e]), vec!["character_2:false"]);
    assert_eq!(v.visible_count(), 0);
    assert_eq!(v.get_active_character_id(), "character_2");
}

#[test]
fn hide_of_a_hidden_character_is_harmless() {
    let mut v = VisibilityState::new();
    v.show_overlay_for_character("character_2").expect("valid");
    let e = v.hide_overlay_for_character("character_1");
    assert_eq!(render(&[e]), vec!["character_1:false"]);
    assert!(v.get_overlay_visible_for_character("character_2"));
    assert_eq!(v.visible_count(), 1);
    let e = v.hide_overlay_for_character("nobody");
    assert_eq!(render(&[e]), vec!["nobody:false"]);
    assert_eq!(v.visible_count(), 1);
}

#[test]
fn set_active_does_not_show() {
    let mut v = VisibilityState::new();
    let e = v.set_active_character_id("character_3").expect("valid");
    assert_eq!(render(&[e]), vec!["active:character_3"]);
    assert_eq!(v.get_active_character_id(), "character_3");
    assert_eq!(v.visible_count(), 0);
    match v.set_active_character_id("") {
        Err(CoreError::InvalidSlot) => {}
        other => panic!("unexpected: {:?}", other),
    }
    assert_eq!(v.get_active_character_id(), "character_3");
}

#[test]
fn toggle_shows_then_hides_the_primary_character() {
    let mut v = VisibilityState::new();
    let (shown, events) = v.toggle_overlay();
    assert!(shown);
    assert_eq!(render(&events), vec!["active:character_1", "character_1:true"]);
    assert!(v.get_overlay_visible_for_character("character_1"));
    let (shown, events) = v.toggle_overlay();
    assert!(!shown);
    assert_eq!(render(&events), vec!["character_1:false"]);
    assert_eq!(v.visible_count(), 0);
}

#[test]
fn toggle_replaces_another_visible_character() {
    let mut v = VisibilityState::new();
    v.show_overlay_for_character("character_2").expect("valid");
    let (shown, events) = v.toggle_overlay();
    assert!(shown);
    assert_eq!(
        render(&events),
        vec!["character_2:false", "active:character_1", "character_1:true"]
    );
    assert!(v.get_overlay_visible_for_character("character_1"));
    assert!(!v.get_overlay_visible_for_character("character_2"));
    assert_eq!(v.visible_count(), 1);
}

#[test]
fn enabled_characters_need_a_url() {
    let slots = vec![
        slot("character_1", "http://x/1.zip", true),
        slot("character_2", "  ", true),
        slot("character_3", "http://x/3.zip", false),
    ];
    assert_eq!(enabled_characters(&slots), vec!["character_1"]);
    let all = vec![
        slot("character_1", "a", true),
        slot("character_2", "b", true),
        slot("character_3", "c", true),
    ];
    assert_eq!(enabled_characters(&all), vec!["character_1", "character_2", "character_3"]);
    assert!(enabled_characters(&Vec::new()).is_empty());
}

#[test]
fn cycle_moves_on_and_wraps_around() {
    let enabled = strings(&["A", "B", "C"]);
    assert_eq!(next_character(&enabled, "A").expect("some"), "B");
    assert_eq!(next_character(&enabled, "B").expect("some"), "C");
    assert_eq!(next_character(&enabled, "C").expect("some"), "A");
}

#[test]
fn cycle_with_one_enabled_slot_shows_it_again() {
    let enabled = strings(&["B"]);
    assert_eq!(next_character(&enabled, "B").expect("some"), "B");
    assert_eq!(next_character(&enabled, "A").expect("some"), "B");
}

#[test]
fn cycle_from_a_character_that_is_not_enabled_starts_at_the_front() {
    let enabled = strings(&["A", "C"]);
    assert_eq!(next_character(&enabled, "B").expect("some"), "C");
    assert_eq!(next_character(&enabled, "").expect("some"), "C");
}

#[test]
fn cycle_without_enabled_slots_fails() {
    match next_character(&Vec::new(), "A") {
        Err(CoreError::NoEnabledSlots) => {}
        other => panic!("unexpected: {:?}", other),
    }
    let v = VisibilityState::new();
    let slots = vec![slot("character_1", "", true), slot("character_2", "u", false)];
    match v.next_character_to_show(&slots) {
        Err(CoreError::NoEnabledSlots) => {}
        other => panic!("unexpected: {:?}", other),
    }
}

#[test]
fn a_full_cycle_visits_every_enabled_slot() {
    let slots = vec![
        slot("character_1", "a", true),
        slot("character_2", "b", true),
        slot("character_3", "c", true),
    ];
    let mut v = VisibilityState::new();
    let mut seen = Vec::new();
    for _ in 0..4 {
        let target = v.next_character_to_show(&slots).expect("enabled");
        let (result, events) = v.spawn_or_focus_next_character(&target).expect("valid");
        assert_eq!(result.character_id, target);
        assert_eq!(result.action, "focused");
        assert_eq!(result.visible_count, 1);
        assert_eq!(events.len(), if seen.is_empty() { 2 } else { 3 });
        assert_eq!(v.visible_count(), 1);
        seen.push(target);
    }
    assert_eq!(seen, vec!["character_2", "character_3", "character_1", "character_2"]);
}

#[test]
fn cycle_skips_disabled_slots() {
    let slots = vec![
        slot("character_1", "a", true),
        slot("character_2", "b", false),
        slot("character_3", "c", true),
    ];
    let mut v = VisibilityState::new();
    let target = v.next_character_to_show(&slots).expect("enabled");
    assert_eq!(target, "character_3");
    v.spawn_or_focus_next_character(&target).expect("valid");
    assert_eq!(v.next_character_to_show(&slots).expect("enabled"), "character_1");
}

#[test]
fn focusing_an_unknown_target_fails() {
    let mut v = VisibilityState::new();
    match v.spawn_or_focus_next_character("stranger") {
        Err(CoreError::InvalidSlot) => {}
        other => panic!("unexpected: {:?}", other.map(|r| r.0)),
    }
    assert_eq!(v.visible_count(), 0);
}

#[test]
fn hide_on_request_checks_the_id() {
    let mut v = VisibilityState::new();
    v.show_overlay_for_character("character_3").expect("valid");
    match v.hide_overlay_for_character_cmd("stranger") {
        Err(CoreError::InvalidSlot) => {}
        other => panic!("unexpected: {:?}", other),
    }
    assert_eq!(v.visible_count(), 1);
    let e = v.hide_overlay_for_character_cmd("character_3").expect("valid");
    assert_eq!(render(&[e]), vec!["character_3:false"]);
    assert_eq!(v.visible_count(), 0);
    assert_eq!(v.get_active_character_id(), "character_3");
}

#[test]
fn enabled_characters_come_in_fixed_order_whatever_the_list() {
    let slots = vec![
        slot("character_3", "c", true),
        slot("stranger", "s", true),
        slot("character_1", "a", true),
        slot("character_1", "", false),
    ];
    assert_eq!(enabled_characters(&slots), vec!["character_1", "character_3"]);
    let shadowed = vec![slot("character_2", "", true), slot("character_2", "b", true)];
    assert!(enabled_characters(&shadowed).is_empty());
}
