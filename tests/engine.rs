use dmnote::engine::NoteSystem;
use dmnote::layout::{NoteStyle, TrackLayout};
use dmnote::types::{NoteMessageType, NoteSettingsInput, TrackLayoutInput};

fn white_track(track_index: i32, x: f32) -> TrackLayout {
    let one = 1.0f32.to_bits();
    TrackLayout {
        track_index,
        style: NoteStyle {
            track_x: x.to_bits(),
            track_bottom_y: 100.0f32.to_bits(),
            width: 40.0f32.to_bits(),
            color_top: [one, one, one, 0.8f32.to_bits()],
            color_bottom: [one, one, one, 0.8f32.to_bits()],
            border_radius: 2.0f32.to_bits(),
            glow: [0, 0, 0],
            glow_color_top: [one, one, one],
            glow_color_bottom: [one, one, one],
        },
    }
}

fn track(key: &str, layout: TrackLayout) -> TrackLayoutInput {
    TrackLayoutInput { track_key: key.to_string(), layout, note_effect_enabled: None }
}

fn settings(flow: u32, height: u32, delay: bool, delay_ms: u32, min_px: u32) -> NoteSettingsInput {
    NoteSettingsInput {
        speed: Some(flow),
        track_height: Some(height),
        delayed_note_enabled: Some(delay),
        short_note_threshold_ms: Some(delay_ms),
        short_note_min_length_px: Some(min_px),
    }
}

fn system(delay: bool, delay_ms: u32, min_px: u32) -> NoteSystem {
    let mut s = NoteSystem::new();
    s.set_enabled(true);
    s.update_settings(settings(180, 150, delay, delay_ms, min_px));
    s.update_track_layouts(vec![track("A", white_track(0, 10.0))]);
    s
}

fn info(s: &NoteSystem, slot: usize) -> (u64, u64, u32) {
    let n = s.buffer().note_at(slot);
    (n.start_time_ms, n.end_time_ms, n.style.track_x)
}

#[test]
fn simple_tap_adds_finalizes_and_cleans_up() {
    let mut s = system(false, 0, 0);
    assert_eq!(s.on_key_down_at("A", 1000), Some(NoteMessageType::Add));
    assert_eq!(s.buffer().active_count(), 1);
    assert_eq!(info(&s, 0), (1000, 0, 10.0f32.to_bits()));
    assert_eq!(s.on_key_up_at("A", 1200), Some(NoteMessageType::Finalize));
    assert_eq!(info(&s, 0), (1000, 1200, 10.0f32.to_bits()));
    assert_eq!(s.tick(2200), None);
    assert_eq!(s.buffer().active_count(), 1);
    assert_eq!(s.tick(3200), Some(NoteMessageType::Cleanup));
    assert_eq!(s.buffer().active_count(), 0);
}

#[test]
fn autorepeat_down_is_ignored() {
    let mut s = system(false, 0, 0);
    assert_eq!(s.on_key_down_at("A", 1000), Some(NoteMessageType::Add));
    assert_eq!(s.on_key_down_at("A", 1050), None);
    assert_eq!(s.buffer().active_count(), 1);
    assert_eq!(s.on_key_up_at("A", 1200), Some(NoteMessageType::Finalize));
    assert_eq!(info(&s, 0).1, 1200);
}

#[test]
fn delayed_note_released_before_start_gets_min_length() {
    let mut s = system(true, 80, 30);
    assert_eq!(s.settings().min_length_ms(), 167);
    assert_eq!(s.on_key_down_at("A", 1000), None);
    assert_eq!(s.buffer().active_count(), 0);
    assert_eq!(s.on_key_up_at("A", 1030), None);
    let (_, st) = s.state_at(0);
    assert!(st.released_before_start);
    assert!(st.released);
    assert_eq!(s.tick(1080), Some(NoteMessageType::Add));
    assert_eq!(s.buffer().active_count(), 1);
    assert_eq!(info(&s, 0).0, 1080);
    let (_, st) = s.state_at(0);
    assert_eq!(st.target_end_time_ms, Some(1247));
    assert!(!st.released_before_start);
    assert_eq!(s.tick(1300), Some(NoteMessageType::Finalize));
    assert_eq!(info(&s, 0).1, 1247);
    assert_eq!(s.pending_state_count(), 0);
}

#[test]
fn delayed_note_held_longer_than_min_length() {
    let mut s = system(true, 80, 30);
    assert_eq!(s.on_key_down_at("A", 1000), None);
    assert_eq!(s.tick(1080), Some(NoteMessageType::Add));
    assert_eq!(info(&s, 0).0, 1080);
    assert_eq!(s.on_key_up_at("A", 1400), None);
    let (_, st) = s.state_at(0);
    assert_eq!(st.target_end_time_ms, Some(1400));
    assert_eq!(s.tick(1401), Some(NoteMessageType::Finalize));
    assert_eq!(info(&s, 0).1, 1400);
}

#[test]
fn tracks_are_ordered_by_track_index() {
    let mut s = NoteSystem::new();
    s.set_enabled(true);
    s.update_track_layouts(vec![track("A", white_track(0, 10.0)), track("B", white_track(1, 60.0))]);
    assert_eq!(s.on_key_down_at("B", 1000), Some(NoteMessageType::Add));
    assert_eq!(s.on_key_down_at("A", 1001), Some(NoteMessageType::Add));
    assert_eq!(info(&s, 0), (1001, 0, 10.0f32.to_bits()));
    assert_eq!(info(&s, 1), (1000, 0, 60.0f32.to_bits()));
    assert_eq!(s.buffer().note_at(0).track_index, 0);
    assert_eq!(s.buffer().note_at(1).track_index, 1);
}

#[test]
fn disable_twice_clears_once_more() {
    let mut s = system(false, 0, 0);
    s.on_key_down_at("A", 1000);
    let v0 = s.buffer().version();
    assert_eq!(s.set_enabled(false), Some(NoteMessageType::Clear));
    assert_eq!(s.buffer().active_count(), 0);
    assert_eq!(s.pending_state_count(), 0);
    assert_eq!(s.buffer().version(), v0.wrapping_add(1));
    assert_eq!(s.set_enabled(false), Some(NoteMessageType::Clear));
    assert_eq!(s.buffer().active_count(), 0);
    assert_eq!(s.pending_state_count(), 0);
    assert!(!s.enabled());
    assert_eq!(s.set_enabled(true), None);
}

#[test]
fn disabled_engine_ignores_events() {
    let mut s = NoteSystem::new();
    s.update_track_layouts(vec![track("A", white_track(0, 10.0))]);
    assert_eq!(s.on_key_down_at("A", 1000), None);
    assert_eq!(s.tick(5000), None);
    assert_eq!(s.buffer().active_count(), 0);
    assert!(!s.has_pending_work());
}

#[test]
fn unknown_track_and_stray_up_are_no_ops() {
    let mut s = system(false, 0, 0);
    assert_eq!(s.on_key_down_at("Z", 1000), None);
    assert_eq!(s.on_key_up_at("A", 1000), None);
    assert_eq!(s.buffer().active_count(), 0);
}

#[test]
fn layouts_without_effect_or_width_are_dropped() {
    let mut s = NoteSystem::new();
    s.set_enabled(true);
    let mut narrow = white_track(0, 10.0);
    narrow.style.width = 0.0f32.to_bits();
    let mut negative = white_track(0, 10.0);
    negative.style.width = (-5.0f32).to_bits();
    s.update_track_layouts(vec![
        TrackLayoutInput { track_key: "A".to_string(), layout: white_track(0, 10.0), note_effect_enabled: Some(false) },
        track("B", narrow),
        track("C", negative),
        track("D", white_track(0, 10.0)),
    ]);
    assert_eq!(s.on_key_down_at("A", 1), None);
    assert_eq!(s.on_key_down_at("B", 1), None);
    assert_eq!(s.on_key_down_at("C", 1), None);
    assert_eq!(s.on_key_down_at("D", 1), Some(NoteMessageType::Add));
}

#[test]
fn later_layout_for_a_key_wins() {
    let mut s = NoteSystem::new();
    s.set_enabled(true);
    s.update_track_layouts(vec![track("A", white_track(0, 10.0)), track("A", white_track(3, 70.0))]);
    s.on_key_down_at("A", 5);
    assert_eq!(s.buffer().note_at(0).track_index, 3);
    assert_eq!(info(&s, 0).2, 70.0f32.to_bits());
}

#[test]
fn pending_state_without_layout_is_dropped() {
    let mut s = system(true, 80, 0);
    s.on_key_down_at("A", 1000);
    s.update_track_layouts(Vec::new());
    assert_eq!(s.tick(1100), None);
    assert_eq!(s.pending_state_count(), 0);
    assert_eq!(s.buffer().active_count(), 0);
}

#[test]
fn no_cleanup_without_flow_speed() {
    let mut s = NoteSystem::new();
    s.set_enabled(true);
    s.update_settings(settings(0, 150, false, 0, 0));
    s.update_track_layouts(vec![track("A", white_track(0, 10.0))]);
    s.on_key_down_at("A", 1000);
    s.on_key_up_at("A", 1100);
    assert_eq!(s.tick(1_000_000), None);
    assert_eq!(s.buffer().active_count(), 1);
    assert!(s.has_pending_work());
}

#[test]
fn min_length_rounds_to_nearest() {
    let mut s = NoteSystem::new();
    assert_eq!(s.settings().min_length_ms(), 0);
    s.update_settings(NoteSettingsInput {
        speed: None,
        track_height: None,
        delayed_note_enabled: None,
        short_note_threshold_ms: None,
        short_note_min_length_px: Some(30),
    });
    assert_eq!(s.settings().flow_speed, 180);
    assert_eq!(s.settings().min_length_ms(), 167);
    s.update_settings(settings(400, 150, false, 0, 1));
    assert_eq!(s.settings().min_length_ms(), 3);
}

#[test]
fn target_end_uses_at_least_one_ms() {
    let st = dmnote::engine::ActiveState {
        use_delay: true,
        down_time_ms: 100,
        release_time_ms: Some(100),
        start_time_ms: Some(100),
        note_id: Some(1),
        created: true,
        released: true,
        released_before_start: false,
        target_end_time_ms: None,
    };
    assert_eq!(NoteSystem::compute_target_end_time_ms(0, &st, 500, false), 101);
    assert_eq!(NoteSystem::compute_target_end_time_ms(0, &st, 500, true), 101);
    assert_eq!(NoteSystem::compute_target_end_time_ms(50, &st, 500, false), 150);
}

#[test]
fn snapshot_is_a_sync_frame() {
    let mut s = system(false, 0, 0);
    s.on_key_down_at("A", 1000);
    let f = s.snapshot();
    assert_eq!(f.len(), 24 + 96);
    assert_eq!(f[4], 0);
    assert_eq!(&f[12..16], &1u32.to_le_bytes());
}

#[test]
fn frames_carry_the_change_kind() {
    let mut s = system(false, 0, 0);
    let hint = s.on_key_down_at("A", 1000).unwrap();
    let f = s.frame(hint);
    assert_eq!(f[4], 1);
    assert_eq!(f.len(), 24 + 96);
    assert_eq!(s.frame(NoteMessageType::Clear)[4], 4);
    assert_eq!(NoteMessageType::Finalize.code(), 2);
    assert_eq!(NoteMessageType::Cleanup.code(), 3);
}

#[test]
fn every_buffer_change_moves_the_version() {
    let mut s = system(true, 80, 30);
    let v0 = s.buffer().version();
    s.on_key_down_at("A", 1000);
    assert_eq!(s.buffer().version(), v0);
    s.tick(1080);
    assert_eq!(s.buffer().version(), v0 + 1);
    s.on_key_up_at("A", 1100);
    assert_eq!(s.buffer().version(), v0 + 1);
    s.tick(1247);
    assert_eq!(s.buffer().version(), v0 + 2);
    s.tick(1247 + 2000);
    assert_eq!(s.buffer().active_count(), 0);
    assert_eq!(s.buffer().version(), v0 + 3);
    let mut t = system(false, 0, 0);
    t.on_key_down_at("A", 10);
    t.on_key_up_at("A", 20);
    assert_eq!(t.buffer().version(), 2);
    assert_eq!(t.buffer().key_of(1), Some("A".to_string()));
}
