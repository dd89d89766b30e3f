use dmnote::buffer::{NoteBuffer, MAX_NOTES, NOTE_MESSAGE_MAGIC};
use dmnote::ieee::{single_bits_of_i64, single_bits_of_u64};
use dmnote::layout::{NoteStyle, TrackLayout};

fn layout(track_index: i32, x: f32) -> TrackLayout {
    let c = 0.5f32.to_bits();
    TrackLayout {
        track_index,
        style: NoteStyle {
            track_x: x.to_bits(),
            track_bottom_y: 100.0f32.to_bits(),
            width: 40.0f32.to_bits(),
            color_top: [c, c, c, 1.0f32.to_bits()],
            color_bottom: [c, c, c, 0.25f32.to_bits()],
            border_radius: 2.0f32.to_bits(),
            glow: [3.0f32.to_bits(), 0.7f32.to_bits(), 0.6f32.to_bits()],
            glow_color_top: [c, c, c],
            glow_color_bottom: [c, c, c],
        },
    }
}

fn ids(b: &NoteBuffer) -> Vec<u64> {
    (0..b.active_count()).map(|i| b.note_at(i).note_id).collect()
}

#[test]
fn allocate_keeps_track_order_and_insertion_order() {
    let mut b = NoteBuffer::new();
    assert_eq!(b.allocate(1, "B", 10, &layout(1, 0.0)), 0);
    assert_eq!(b.allocate(2, "A", 11, &layout(0, 0.0)), 0);
    assert_eq!(b.allocate(3, "A", 12, &layout(0, 0.0)), 1);
    assert_eq!(b.allocate(4, "C", 13, &layout(2, 0.0)), 3);
    assert_eq!(ids(&b), vec![2, 3, 1, 4]);
    for (i, id) in ids(&b).into_iter().enumerate() {
        assert_eq!(b.index_of(id), Some(i));
    }
    assert_eq!(b.key_of(1), Some("B".to_string()));
    assert_eq!(b.version(), 4);
}

#[test]
fn allocate_rejects_zero_duplicate_and_full() {
    let mut b = NoteBuffer::new();
    assert_eq!(b.allocate(0, "A", 1, &layout(0, 0.0)), -1);
    assert_eq!(b.allocate(7, "A", 1, &layout(0, 0.0)), 0);
    assert_eq!(b.allocate(7, "A", 1, &layout(0, 0.0)), -1);
    let mut id = 8;
    while b.active_count() < MAX_NOTES {
        assert!(b.allocate(id, "A", 1, &layout(0, 0.0)) >= 0);
        id += 1;
    }
    let v = b.version();
    assert_eq!(b.allocate(id, "A", 1, &layout(0, 0.0)), -1);
    assert_eq!(b.version(), v);
    assert_eq!(b.active_count(), MAX_NOTES);
}

#[test]
fn finalize_and_release_report_unknown_ids() {
    let mut b = NoteBuffer::new();
    assert_eq!(b.finalize(9, 100), -1);
    assert_eq!(b.release(9), -1);
    assert_eq!(b.version(), 0);
    b.allocate(9, "A", 50, &layout(0, 0.0));
    assert_eq!(b.finalize(9, 100), 0);
    assert_eq!(b.note_at(0).end_time_ms, 100);
    assert_eq!(b.version(), 2);
    assert_eq!(b.release(9), 0);
    assert_eq!(b.active_count(), 0);
    assert_eq!(b.index_of(9), None);
    assert_eq!(b.key_of(9), None);
    assert_eq!(b.version(), 3);
}

#[test]
fn release_closes_the_gap_and_reindexes() {
    let mut b = NoteBuffer::new();
    for id in 1..=4u64 {
        b.allocate(id, "A", id * 10, &layout(id as i32, 0.0));
    }
    assert_eq!(b.release(2), 1);
    assert_eq!(ids(&b), vec![1, 3, 4]);
    assert_eq!(b.index_of(3), Some(1));
    assert_eq!(b.index_of(4), Some(2));
    assert_eq!(b.note_at(1).start_time_ms, 30);
}

#[test]
fn allocate_then_release_restores_contents() {
    let mut b = NoteBuffer::new();
    b.allocate(1, "A", 10, &layout(0, 1.0));
    b.allocate(2, "C", 20, &layout(2, 2.0));
    let before = b.serialize_active(0);
    b.allocate(3, "B", 30, &layout(1, 3.0));
    b.release(3);
    let after = b.serialize_active(0);
    assert_eq!(before.len(), after.len());
    assert_eq!(&before[..8], &after[..8]);
    assert_eq!(&before[12..], &after[12..]);
    assert_ne!(before[8..12], after[8..12]);
}

#[test]
fn clear_empties_everything_and_bumps_version() {
    let mut b = NoteBuffer::new();
    b.allocate(1, "A", 10, &layout(0, 1.0));
    b.allocate(2, "A", 20, &layout(0, 1.0));
    b.clear();
    assert_eq!(b.active_count(), 0);
    assert_eq!(b.index_of(1), None);
    assert_eq!(b.key_of(2), None);
    assert_eq!(b.version(), 3);
    assert_eq!(b.serialize_active(4).len(), 24);
}

#[test]
fn empty_frame_is_header_only() {
    let b = NoteBuffer::new();
    let f = b.serialize_active(3);
    assert_eq!(f.len(), 24);
    assert_eq!(&f[0..4], &NOTE_MESSAGE_MAGIC.to_le_bytes());
    assert_eq!(&f[0..4], b"DMNT");
    assert_eq!(&f[4..8], &[3, 0, 0, 0]);
    assert_eq!(&f[8..12], &0u32.to_le_bytes());
    assert_eq!(&f[12..16], &0u32.to_le_bytes());
    assert_eq!(&f[16..20], &2048u32.to_le_bytes());
    assert_eq!(&f[20..24], &0u32.to_le_bytes());
}

fn word(f: &[u8], i: usize) -> u32 {
    u32::from_le_bytes([f[i], f[i + 1], f[i + 2], f[i + 3]])
}

#[test]
fn frame_body_lists_arrays_in_order() {
    let mut b = NoteBuffer::new();
    b.allocate(1, "A", 1000, &layout(-2, 10.0));
    b.allocate(2, "B", 2000, &layout(5, 20.0));
    b.finalize(1, 1500);
    let f = b.serialize_active(2);
    let n = 2;
    assert_eq!(f.len(), 24 + 24 * n * 4);
    assert_eq!(f[4], 2);
    assert_eq!(word(&f, 8), 3);
    assert_eq!(word(&f, 12), 2);
    let body = 24;
    assert_eq!(word(&f, body), 1000.0f32.to_bits());
    assert_eq!(word(&f, body + 4), 1500.0f32.to_bits());
    assert_eq!(word(&f, body + 8), 10.0f32.to_bits());
    assert_eq!(word(&f, body + 12), 2000.0f32.to_bits());
    assert_eq!(word(&f, body + 16), 0.0f32.to_bits());
    assert_eq!(word(&f, body + 20), 20.0f32.to_bits());
    let size = body + 3 * n * 4;
    assert_eq!(word(&f, size), 40.0f32.to_bits());
    assert_eq!(word(&f, size + 4), 100.0f32.to_bits());
    let color_top = size + 2 * n * 4;
    assert_eq!(word(&f, color_top + 12), 1.0f32.to_bits());
    let color_bottom = color_top + 4 * n * 4;
    assert_eq!(word(&f, color_bottom + 12), 0.25f32.to_bits());
    let radius = color_bottom + 4 * n * 4;
    assert_eq!(word(&f, radius), 2.0f32.to_bits());
    let glow = radius + n * 4;
    assert_eq!(word(&f, glow), 3.0f32.to_bits());
    let track_index = glow + 3 * 3 * n * 4;
    assert_eq!(word(&f, track_index), (-2.0f32).to_bits());
    assert_eq!(word(&f, track_index + 4), 5.0f32.to_bits());
    assert_eq!(track_index + 2 * 4, f.len());
}

#[test]
fn integers_encode_as_nearest_single() {
    for v in [0u64, 1, 2, 3, 1000, 1247, 123_456, 16_777_215, 16_777_216, 16_777_217, 16_777_219, 33_554_435, 1 << 40, u64::MAX] {
        assert_eq!(single_bits_of_u64(v), (v as f32).to_bits(), "value {v}");
    }
    for v in [0i64, -1, -2048, 7, i64::MIN, i64::MAX, -16_777_217] {
        assert_eq!(single_bits_of_i64(v), (v as f32).to_bits(), "value {v}");
    }
}
