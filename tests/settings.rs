use dmnote::models::{
    overlay_resize_anchor_from_str, CustomCss, CustomJs, FadePosition, JsPlugin, NoteSettings,
    OverlayResizeAnchor,
};
use dmnote::settings::{
    apply_changes, apply_css_patch, apply_note_patch, normalize_patch, CustomCssPatch,
    NoteSettingsPatch, SettingsDiff, SettingsPatch, SettingsPatchInput, SettingsState,
};

fn state() -> SettingsState {
    SettingsState {
        hardware_acceleration: true,
        always_on_top: true,
        overlay_locked: false,
        note_effect: false,
        note_settings: NoteSettings::defaults(),
        angle_mode: "d3d11".to_string(),
        language: "ko".to_string(),
        laboratory_enabled: false,
        developer_mode_enabled: false,
        background_color: "transparent".to_string(),
        use_custom_css: false,
        custom_css: CustomCss { path: None, content: String::new() },
        use_custom_js: false,
        custom_js: CustomJs { path: None, content: String::new(), plugins: Vec::new() },
        overlay_resize_anchor: OverlayResizeAnchor::TopLeft,
        key_counter_enabled: false,
    }
}

fn empty_input() -> SettingsPatchInput {
    SettingsPatchInput {
        hardware_acceleration: None,
        always_on_top: None,
        overlay_locked: None,
        note_effect: None,
        note_settings: None,
        angle_mode: None,
        language: None,
        laboratory_enabled: None,
        developer_mode_enabled: None,
        background_color: None,
        use_custom_css: None,
        custom_css: None,
        use_custom_js: None,
        custom_js: None,
        overlay_resize_anchor: None,
        key_counter_enabled: None,
    }
}

fn note_patch() -> NoteSettingsPatch {
    NoteSettingsPatch {
        border_radius: Some(9),
        speed: Some(300),
        track_height: None,
        reverse: Some(true),
        fade_position: Some(FadePosition::Top),
        delayed_note_enabled: None,
        short_note_threshold_ms: None,
        short_note_min_length_px: Some(12),
        key_display_delay_ms: None,
    }
}

#[test]
fn anchor_names_round_trip() {
    for a in [
        OverlayResizeAnchor::TopLeft,
        OverlayResizeAnchor::TopRight,
        OverlayResizeAnchor::BottomLeft,
        OverlayResizeAnchor::BottomRight,
        OverlayResizeAnchor::Center,
    ] {
        assert_eq!(overlay_resize_anchor_from_str(a.as_str()), Some(a));
    }
    assert_eq!(OverlayResizeAnchor::BottomRight.as_str(), "bottom-right");
    assert_eq!(overlay_resize_anchor_from_str("middle"), None);
    assert_eq!(overlay_resize_anchor_from_str(""), None);
}

#[test]
fn note_patch_keeps_absent_fields() {
    let s = apply_note_patch(NoteSettings::defaults(), &note_patch());
    assert_eq!(s.speed, 300);
    assert_eq!(s.track_height, 150);
    assert!(s.reverse);
    assert_eq!(s.fade_position, FadePosition::Top);
    assert_eq!(s.short_note_min_length_px, 12);
    assert_eq!(s.short_note_threshold_ms, 50);
    assert_eq!(s.border_radius, 2);
}

#[test]
fn css_patch_can_clear_the_path() {
    let css = CustomCss { path: Some("/a.css".to_string()), content: "x".to_string() };
    let r = apply_css_patch(css, &CustomCssPatch { path: Some(None), content: None });
    assert_eq!(r.path, None);
    assert_eq!(r.content, "x");
}

#[test]
fn normalize_then_apply() {
    let current = state();
    let mut input = empty_input();
    input.language = Some("en".to_string());
    input.note_settings = Some(note_patch());
    input.overlay_resize_anchor = Some(OverlayResizeAnchor::Center);
    let patch = normalize_patch(&input, &current);
    assert_eq!(patch.language, Some("en".to_string()));
    assert_eq!(patch.note_settings.unwrap().speed, 300);
    assert!(patch.angle_mode.is_none());
    let next = apply_changes(current, &patch);
    assert_eq!(next.language, "en");
    assert_eq!(next.angle_mode, "d3d11");
    assert_eq!(next.note_settings.speed, 300);
    assert_eq!(next.overlay_resize_anchor, OverlayResizeAnchor::Center);
    let diff = SettingsDiff { changed: patch, full: next };
    assert_eq!(diff.changed_count(), 3);
}

#[test]
fn js_plugins_are_replaced_by_the_patch() {
    let current = state();
    let mut input = empty_input();
    input.custom_js = Some(dmnote::settings::CustomJsPatch {
        path: None,
        content: Some("run()".to_string()),
        plugins: Some(vec![JsPlugin {
            id: "plug-a".to_string(),
            name: "one.js".to_string(),
            path: None,
            content: "1".to_string(),
            enabled: true,
        }]),
    });
    let patch = normalize_patch(&input, &current);
    let js = patch.custom_js.as_ref().unwrap();
    assert_eq!(js.content, "run()");
    assert_eq!(js.plugins.len(), 1);
    assert_eq!(js.plugins[0].id, "plug-a");
}

#[test]
fn empty_patch_changes_nothing() {
    let patch = normalize_patch(&empty_input(), &state());
    let full = apply_changes(state(), &patch);
    let diff = SettingsDiff { changed: patch, full };
    assert_eq!(diff.changed_count(), 0);
    let _ = SettingsPatch { ..diff.changed };
}
