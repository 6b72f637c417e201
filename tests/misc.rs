use recorder::tray::{tray_left_click, TrayClick};
use recorder::config::{merge_config, Config};
use recorder::events::{PinnedFromTrayEvent, PinnedFromWindowEvent};
use recorder::pipeline::{converter_count, converter_count_for, elapsed_ms, pts_ns, Sequencer};

fn empty_config() -> Config {
    Config {
        hotkey: None,
        display_window_hotkey: None,
        writing_hotkey: None,
        always_show_icons: None,
        hide_the_icon_in_the_dock: None,
        configured: None,
    }
}

#[test]
fn merge_prefers_update_and_keeps_the_rest() {
    let mut update = empty_config();
    update.hotkey = Some("Ctrl+R".to_string());
    update.configured = Some(false);
    let mut stored = empty_config();
    stored.hotkey = Some("Ctrl+S".to_string());
    stored.writing_hotkey = Some("Ctrl+W".to_string());
    stored.configured = Some(true);
    stored.hide_the_icon_in_the_dock = Some(true);
    let merged = merge_config(update, stored);
    assert_eq!(merged.hotkey.as_deref(), Some("Ctrl+R"));
    assert_eq!(merged.writing_hotkey.as_deref(), Some("Ctrl+W"));
    assert_eq!(merged.display_window_hotkey, None);
    assert_eq!(merged.configured, Some(false));
    assert_eq!(merged.hide_the_icon_in_the_dock, Some(true));
    assert_eq!(merged.always_show_icons, None);
}

#[test]
fn pinned_events_carry_their_flag() {
    assert!(*PinnedFromWindowEvent::new(true).pinned());
    assert!(!*PinnedFromWindowEvent::new(false).pinned());
    assert!(*PinnedFromTrayEvent::new(true).pinned());
    assert!(!*PinnedFromTrayEvent::new(false).pinned());
}

#[test]
fn converter_pool_size() {
    assert_eq!(converter_count_for(0), 1);
    assert_eq!(converter_count_for(1), 1);
    assert_eq!(converter_count_for(2), 1);
    assert_eq!(converter_count_for(8), 7);
    assert!(converter_count() >= 1);
}

#[test]
fn timestamps_in_ms_and_ns() {
    assert_eq!(elapsed_ms(0, 0), 0);
    assert_eq!(elapsed_ms(2, 345), 2345);
    assert_eq!(pts_ns(16), 16_000_000);
    assert_eq!(pts_ns(0), 0);
}

#[test]
fn sequencer_counts_from_zero() {
    let mut s = Sequencer::new();
    assert_eq!(s.next_seq(), 0);
    assert_eq!(s.next_seq(), 1);
    assert_eq!(s.peek(), 2);
}

#[test]
fn tray_click_decisions() {
    assert_eq!(tray_left_click(true, true, true), TrayClick::Ignore);
    assert_eq!(tray_left_click(false, true, false), TrayClick::StopRecording);
    assert_eq!(tray_left_click(false, false, false), TrayClick::ShowWindow);
    assert_eq!(tray_left_click(false, false, true), TrayClick::StartRecording);
}
