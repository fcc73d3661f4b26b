use clipvault::classify::classify_content;
use clipvault::model::{AppConfig, DataType, ItemKind};
use clipvault::state::AppState;

fn fresh_state() -> AppState {
    AppState::new(AppConfig::default(), String::new())
}

fn ts() -> String {
    "2024-06-01 12:00:00".to_string()
}

#[test]
fn self_write_marker_prevents_a_duplicate_entry() {
    let mut state = fresh_state();
    // the app writes "X" to the clipboard itself
    state.note_self_write("X".to_string());
    // the next tick observes the very content the app wrote: skipped
    let r = state.monitor_text_tick(&"X".to_string(), ts());
    assert!(r.is_none());
    // the fingerprint advanced, so a later identical observation is
    // ordinary no-change
    let r = state.monitor_text_tick(&"X".to_string(), ts());
    assert!(r.is_none());
    // a genuinely new content is recorded
    let r = state.monitor_text_tick(&"Y".to_string(), ts());
    let item = r.unwrap();
    assert_eq!(item.content, "Y");
    assert_eq!(item.kind, ItemKind::Text);
}

#[test]
fn unchanged_or_empty_text_is_skipped() {
    let mut state = fresh_state();
    assert!(state.monitor_text_tick(&String::new(), ts()).is_none());
    let r = state.monitor_text_tick(&"hello".to_string(), ts());
    assert!(r.is_some());
    // the same text again: no duplicate
    assert!(state.monitor_text_tick(&"hello".to_string(), ts()).is_none());
}

#[test]
fn paused_monitor_records_nothing() {
    let mut state = fresh_state();
    state.set_paused(true);
    assert!(state.get_paused());
    assert!(state.monitor_text_tick(&"change".to_string(), ts()).is_none());
    state.set_paused(false);
    assert!(state.monitor_text_tick(&"change".to_string(), ts()).is_some());
}

#[test]
fn image_ticks_fingerprint_and_reencode() {
    let mut state = fresh_state();
    let rgba: Vec<u8> = vec![10, 20, 30, 255];
    let item = state.monitor_image_tick(&rgba, 1, 1, ts()).unwrap();
    assert_eq!(item.kind, ItemKind::Image);
    // the content is base64-carried PNG: decoding it yields the PNG magic
    let bytes =
        base64::Engine::decode(&base64::engine::general_purpose::STANDARD, &item.content).unwrap();
    assert_eq!(&bytes[..4], &[0x89, b'P', b'N', b'G']);
    // the same pixels again are not re-recorded
    assert!(state.monitor_image_tick(&rgba, 1, 1, ts()).is_none());
    // an empty buffer is never recorded
    let empty: Vec<u8> = Vec::new();
    assert!(state.monitor_image_tick(&empty, 0, 0, ts()).is_none());
}

#[test]
fn well_formed_image_buffers_are_always_recorded() {
    let mut state = fresh_state();
    // four bytes per pixel, nonzero dimensions: recording is owed
    let rgba: Vec<u8> = vec![0; 4 * 2 * 3];
    assert!(state.monitor_image_tick(&rgba, 2, 3, ts()).is_some());
    // a malformed buffer only advances the fingerprint
    let bad: Vec<u8> = vec![1, 2, 3];
    assert!(state.monitor_image_tick(&bad, 1, 1, ts()).is_none());
    // the fingerprint did advance: the same bad buffer is now unchanged
    assert!(state.monitor_image_tick(&bad, 1, 1, ts()).is_none());
    // and a good buffer afterwards records again
    let rgba2: Vec<u8> = vec![7; 4];
    assert!(state.monitor_image_tick(&rgba2, 1, 1, ts()).is_some());
}

#[test]
fn classification_inspects_patterns() {
    assert_eq!(classify_content("https://example.com/x"), DataType::Url);
    assert_eq!(classify_content("http://example.com"), DataType::Url);
    assert_eq!(classify_content("```fn main() {}```"), DataType::Code);
    assert_eq!(classify_content("#aabbcc"), DataType::Color);
    assert_eq!(classify_content("#abc"), DataType::Color);
    assert_eq!(classify_content("#abcd"), DataType::PlainText);
    assert_eq!(classify_content("#zzzzzz"), DataType::PlainText);
    assert_eq!(classify_content("just some words"), DataType::PlainText);
    assert_eq!(classify_content(""), DataType::PlainText);
}

#[test]
fn config_changes_report_shortcut_switches() {
    let mut state = fresh_state();
    let mut cfg = AppConfig::default();
    cfg.max_history_size = 50;
    // same shortcut: no re-registration needed
    assert!(!state.apply_config(cfg));
    assert_eq!(state.config.max_history_size, 50);
    let mut cfg = AppConfig::default();
    cfg.shortcut = "CommandOrControl+Shift+C".to_string();
    assert!(state.apply_config(cfg));
    assert_eq!(state.config.shortcut, "CommandOrControl+Shift+C");
}

#[test]
fn default_config_matches_a_fresh_installation() {
    let cfg = AppConfig::default();
    assert_eq!(cfg.shortcut, "CommandOrControl+Shift+V");
    assert_eq!(cfg.max_history_size, 20);
    assert_eq!(cfg.language, "en");
    assert_eq!(cfg.theme, "system");
    assert!(cfg.sensitive_apps.is_empty());
    assert!(!cfg.compact_mode);
    assert!(!cfg.clear_pinned_on_clear);
    assert!(!cfg.clear_collected_on_clear);
}

#[test]
fn capture_state_is_superseded_not_accumulated() {
    let mut state = fresh_state();
    assert!(state.capture_data().is_none());
    let c = clipvault::capture::CaptureResult {
        id: 1,
        path: "/tmp/a.png".to_string(),
        x: 0,
        y: 0,
        width: 800,
        height: 600,
        scale_pct: 100,
    };
    state.set_captures(vec![c]);
    let got = state.capture_data().unwrap();
    assert_eq!(got.len(), 1);
    assert_eq!(got[0].id, 1);
}

#[test]
fn paste_stack_is_replaced_wholesale() {
    let mut state = fresh_state();
    state.set_paste_stack(Vec::new());
    assert!(state.paste_stack.is_empty());
}
