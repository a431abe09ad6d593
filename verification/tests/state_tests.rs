use affnumber::affinity::{install_report, sanitize_label, Affinity, MenuStatus};
use affnumber::api::{supports_api_version, InitResult};
use affnumber::config::{BadgeLabels, Settings};
use affnumber::dx_overlay::Overlay;

fn settings(enabled: bool, key: &str, t: &str, p1: &str, p2: &str) -> Settings {
    Settings {
        enabled,
        toggle_key: key.to_string(),
        labels: BadgeLabels { total: t.to_string(), parent_1: p1.to_string(), parent_2: p2.to_string() },
    }
}

#[test]
fn initial_state() {
    let a = Affinity::new();
    assert!(a.is_enabled());
    assert_eq!(a.toggle_key_name(), "");
    assert!(!a.on_legacy_select());
    assert!(!a.dialog_open());
    assert_eq!(a.values(), None);
    assert!(!a.should_draw_badges());
    assert!(a.badge_items().is_empty());
    assert_eq!(a.label_total(), "Total");
    assert_eq!(a.label_parent1(), "Parent 1");
    assert_eq!(a.label_parent2(), "Parent 2");
}

#[test]
fn defaults_without_settings_file() {
    let mut a = Affinity::new();
    a.load_defaults_and_cfg(None);
    assert_eq!(a.toggle_key_name(), "P");
    let snap = a.snapshot_cfg();
    assert!(snap.enabled);
    assert_eq!(snap.toggle_key, "P");
    assert_eq!(snap.labels.total, "Total");
    assert_eq!(snap.labels.parent_1, "Parent 1");
    assert_eq!(snap.labels.parent_2, "Parent 2");
}

#[test]
fn defaults_then_settings_file() {
    let mut a = Affinity::new();
    let cfg = settings(false, "pgdn", "  Sum ", "", "Mother\u{7}");
    a.load_defaults_and_cfg(Some(&cfg));
    assert!(!a.is_enabled());
    assert_eq!(a.toggle_key_name(), "PageDown");
    assert_eq!(a.label_total(), "Sum");
    assert_eq!(a.label_parent1(), "Parent 1");
    assert_eq!(a.label_parent2(), "Mother");
}

#[test]
fn apply_cfg_switches_hotkey_off() {
    let mut a = Affinity::new();
    a.apply_cfg(true, "off", "a", "b", "c");
    assert_eq!(a.toggle_key_name(), "None");
    // the hotkey is off: a press never toggles
    assert!(!a.poll_toggle_hotkey(true, true));
    assert!(a.is_enabled());
}

#[test]
fn hotkey_press_toggles_once() {
    let mut a = Affinity::new();
    a.load_defaults_and_cfg(None);
    assert!(a.poll_toggle_hotkey(true, true));
    assert!(!a.is_enabled());
    // still held: no second toggle
    assert!(!a.poll_toggle_hotkey(true, true));
    assert!(!a.is_enabled());
    // released, pressed again
    assert!(!a.poll_toggle_hotkey(false, true));
    assert!(a.poll_toggle_hotkey(true, true));
    assert!(a.is_enabled());
}

#[test]
fn hotkey_ignored_without_focus() {
    let mut a = Affinity::new();
    assert!(!a.poll_toggle_hotkey(true, false));
    assert!(a.is_enabled());
    // the key was seen down while unfocused: focusing with it held does not toggle
    assert!(!a.poll_toggle_hotkey(true, true));
    assert!(a.is_enabled());
}

#[test]
fn set_enabled_changes_visibility() {
    let mut a = Affinity::new();
    a.set_enabled(false);
    assert!(!a.is_enabled());
    a.set_enabled(true);
    assert!(a.is_enabled());
}

fn on_screen() -> Affinity {
    let mut a = Affinity::new();
    a.load_defaults_and_cfg(None);
    a.on_show(0x5000);
    a
}

#[test]
fn calc_off_screen_is_ignored() {
    let mut a = Affinity::new();
    assert!(!a.calc_begin(1, 10, 20, 300));
    assert_eq!(a.values(), None);
}

#[test]
fn calc_captures_values_and_badges() {
    let mut a = on_screen();
    assert!(a.on_legacy_select());
    assert!(a.calc_begin(1, 10, 20, 300));
    a.calc_finish(1, 10, 20, 300, 120, 95);
    assert_eq!(a.values(), Some((300, 120, 95)));
    assert!(a.should_draw_badges());
    let items = a.badge_items();
    assert_eq!(
        items,
        vec![
            (0, "Total".to_string(), 300),
            (1, "Parent 1".to_string(), 120),
            (2, "Parent 2".to_string(), 95)
        ]
    );
    // the same call again is served from the shown values
    assert!(!a.calc_begin(1, 10, 20, 300));
    // the game asks with the parents swapped
    assert!(a.calc_begin(1, 20, 10, 300));
    a.calc_finish(1, 20, 10, 300, 95, 120);
    assert_eq!(a.values(), Some((300, 120, 95)));
}

#[test]
fn calc_total_out_of_range_is_ignored() {
    let mut a = on_screen();
    assert!(!a.calc_begin(1, 10, 20, 801));
    assert!(!a.calc_begin(1, 10, 20, -1));
    assert_eq!(a.values(), None);
}

#[test]
fn calc_without_parents_clears() {
    let mut a = on_screen();
    assert!(a.calc_begin(1, 10, 20, 300));
    a.calc_finish(1, 10, 20, 300, 120, 95);
    assert!(!a.calc_begin(2, 0, usize::MAX, 300));
    assert_eq!(a.values(), None);
    assert!(!a.should_draw_badges());
}

#[test]
fn missing_branch_is_not_drawn() {
    let mut a = on_screen();
    assert!(a.calc_begin(1, 10, 0, 250));
    a.calc_finish(1, 10, 0, 250, 80, -1);
    assert_eq!(a.values(), Some((250, 80, -1)));
    assert_eq!(
        a.badge_items(),
        vec![(0, "Total".to_string(), 250), (1, "Parent 1".to_string(), 80)]
    );
}

#[test]
fn dialog_hides_badges() {
    let mut a = on_screen();
    assert!(a.calc_begin(1, 10, 20, 300));
    a.calc_finish(1, 10, 20, 300, 120, 95);
    a.on_dialog_query(true);
    assert!(a.dialog_open());
    assert!(!a.should_draw_badges());
    assert_eq!(a.menu_status(true), MenuStatus::HiddenByDialog);
    a.on_dialog_query(false);
    assert!(a.should_draw_badges());
}

#[test]
fn hide_clears_everything() {
    let mut a = on_screen();
    assert!(a.calc_begin(1, 10, 20, 300));
    a.calc_finish(1, 10, 20, 300, 120, 95);
    a.on_dialog_query(true);
    a.on_hide();
    assert!(!a.on_legacy_select());
    assert!(!a.dialog_open());
    assert_eq!(a.values(), None);
    assert!(a.badge_items().is_empty());
    // a call after the screen closed is not captured
    assert!(!a.calc_begin(1, 10, 20, 300));
}

#[test]
fn show_with_null_screen_keeps_step() {
    let mut a = Affinity::new();
    a.on_show(0);
    assert!(!a.on_legacy_select());
}

#[test]
fn menu_status_lines() {
    let mut a = Affinity::new();
    assert_eq!(a.menu_status(true), MenuStatus::Idle);
    assert_eq!(a.status_color(), (220, 180, 80));
    assert_eq!(a.menu_status(false), MenuStatus::PresentNotReady);
    a.on_show(7);
    assert_eq!(a.menu_status(true), MenuStatus::WaitingForCalc);
    assert!(a.calc_begin(1, 10, 20, 300));
    a.calc_finish(1, 10, 20, 300, 120, 95);
    assert_eq!(a.menu_status(true), MenuStatus::BadgesDrawing);
    assert_eq!(a.status_color(), (90, 220, 120));
    a.set_enabled(false);
    assert_eq!(a.menu_status(true), MenuStatus::OverlayDisabled);
    assert_eq!(a.status_color(), (220, 120, 100));
}

#[test]
fn sanitize_label_rules() {
    assert_eq!(sanitize_label("  Hello  ", "X"), "Hello");
    assert_eq!(sanitize_label("", "Total"), "Total");
    assert_eq!(sanitize_label(" \t\n", "Total"), "Total");
    assert_eq!(sanitize_label("\u{7}", "Total"), "Total");
    assert_eq!(sanitize_label("a\u{1}b\u{9f}c", "X"), "abc");
    assert_eq!(sanitize_label("abcdefghijklmnopqrstuvwxyz0123", "X"), "abcdefghijklmnopqrstuvwx");
    // control characters are dropped after trimming, so inner spaces stay
    assert_eq!(sanitize_label("\u{1} x", "X"), " x");
}

#[test]
fn captions_are_trimmed_when_shown() {
    let mut a = Affinity::new();
    a.apply_cfg(true, "P", "\u{1} Sum", "  ", "x");
    assert_eq!(a.label_total(), "Sum");
    assert_eq!(a.label_parent1(), "Parent 1");
    assert_eq!(a.label_parent2(), "x");
}

#[test]
fn install_report_texts() {
    assert_eq!(
        install_report(true, Some((true, true)), true),
        "affinity: calc:ok show:ok hide:ok dialog:ok"
    );
    assert_eq!(install_report(false, None, false), "affinity: calc:miss step:miss dialog:miss");
    assert_eq!(
        install_report(true, Some((false, true)), false),
        "affinity: calc:ok show:fail hide:ok dialog:miss"
    );
}

#[test]
fn overlay_starts_once() {
    let mut o = Overlay::new();
    assert!(o.start());
    assert!(!o.start());
    assert!(!o.start());
}

#[test]
fn api_version_gate() {
    assert!(!supports_api_version(2));
    assert!(supports_api_version(3));
    assert!(supports_api_version(4));
    assert_ne!(InitResult::Error, InitResult::Success);
}

#[test]
fn saved_settings_reload_unchanged() {
    let mut a = Affinity::new();
    a.load_defaults_and_cfg(Some(&settings(false, " f7 ", "  Sum\u{1} ", "", "Mother of all parents 1234")));
    let snap = a.snapshot_cfg();
    assert_eq!(snap.toggle_key, "F7");
    let mut b = Affinity::new();
    b.load_defaults_and_cfg(Some(&snap));
    assert_eq!(b.is_enabled(), a.is_enabled());
    assert_eq!(b.toggle_key_name(), a.toggle_key_name());
    assert_eq!(b.toggle_vk(), a.toggle_vk());
    assert_eq!(b.toggle_vk(), 0x76);
    assert_eq!(b.label_total(), a.label_total());
    assert_eq!(b.label_parent1(), a.label_parent1());
    assert_eq!(b.label_parent2(), a.label_parent2());
    assert_eq!(b.label_parent2(), "Mother of all parents 12");
}

#[test]
fn reloaded_pgup_keeps_key_code() {
    let mut a = Affinity::new();
    a.load_defaults_and_cfg(Some(&settings(true, "pgup", "", "", "")));
    assert_eq!(a.toggle_key_name(), "PageUp");
    let snap = a.snapshot_cfg();
    let mut b = Affinity::new();
    b.load_defaults_and_cfg(Some(&snap));
    assert_eq!(b.toggle_key_name(), "Pageup");
    assert_eq!(b.toggle_vk(), a.toggle_vk());
    assert_eq!(b.toggle_vk(), 0x21);
}

#[test]
fn hotkey_code_follows_settings() {
    let mut a = Affinity::new();
    assert_eq!(a.toggle_vk(), 0x50);
    a.apply_cfg(true, "F10", "", "", "");
    assert_eq!(a.toggle_vk(), 0x79);
    a.apply_cfg(true, "banana", "", "", "");
    assert_eq!(a.toggle_key_name(), "Banana");
    assert_eq!(a.toggle_vk(), 0);
}
