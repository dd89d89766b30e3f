//! The note buffer: up to `MAX_NOTES` live notes ordered by track index, a
//! stable map from note id to slot, and the binary frame the renderer reads.

use std::collections::HashMap;
use vstd::prelude::*;

use crate::ieee::{single_bits_of_i64, single_bits_of_int, single_bits_of_u64, single_bits_of_nat};
use crate::layout::{NoteStyle, TrackLayout};

verus! {

broadcast use vstd::std_specs::hash::group_hash_axioms;

/// Capacity of the buffer.
pub const MAX_NOTES: usize = 2048;

/// First word of every frame; little-endian, its bytes spell "DMNT".
pub const NOTE_MESSAGE_MAGIC: u32 = 0x544E_4D44;

/// Length of the frame header in bytes.
pub const NOTE_MESSAGE_HEADER_BYTES: usize = 24;

/// Number of parallel arrays in a frame body.
pub const FRAME_ARRAYS: usize = 9;

/// One live note.
#[derive(Clone, Copy, Debug)]
pub struct NoteSlot {
    pub note_id: u64,
    pub start_time_ms: u64,
    /// Zero while the note is held.
    pub end_time_ms: u64,
    pub track_index: i32,
    pub style: NoteStyle,
}

/// The slot that `allocate` writes.
pub open spec fn new_slot(note_id: u64, start_time_ms: u64, layout: TrackLayout) -> NoteSlot {
    NoteSlot {
        note_id,
        start_time_ms,
        end_time_ms: 0,
        track_index: layout.track_index,
        style: layout.style,
    }
}

/// `p` is where a note of track index `ti` goes in `s`: after every note whose
/// index is not greater, before the first one whose index is greater.
pub open spec fn is_insert_position(s: Seq<NoteSlot>, ti: i32, p: int) -> bool {
    &&& 0 <= p <= s.len()
    &&& forall|j: int| 0 <= j < p ==> s[j].track_index <= ti
    &&& p == s.len() || s[p].track_index > ti
}

/// Notes are in nondecreasing track-index order.
pub open spec fn sorted_by_track(s: Seq<NoteSlot>) -> bool {
    forall|i: int, j: int| 0 <= i <= j < s.len() ==> s[i].track_index <= s[j].track_index
}

/// Some note in `s` has id `id`.
pub open spec fn holds_id(s: Seq<NoteSlot>, id: u64) -> bool {
    exists|i: int| 0 <= i < s.len() && s[i].note_id == id
}

/// Note ids in `s` are nonzero and pairwise distinct.
pub open spec fn ids_valid(s: Seq<NoteSlot>) -> bool {
    &&& forall|i: int| 0 <= i < s.len() ==> s[i].note_id != 0
    &&& forall|i: int, j: int|
        0 <= i < s.len() && 0 <= j < s.len() && i != j ==> s[i].note_id != s[j].note_id
}

/// `allocate` of `note_id` succeeds on notes `s`: there is room, and the id
/// is nonzero and not live.
pub open spec fn allocation_fits(s: Seq<NoteSlot>, note_id: u64) -> bool {
    s.len() < MAX_NOTES && note_id != 0 && !holds_id(s, note_id)
}

/// The version after an operation on `v` that mutates when `changed`.
pub open spec fn version_after(v: u32, changed: bool) -> u32 {
    if changed {
        next_version(v)
    } else {
        v
    }
}

/// The notes after `allocate(note_id, _, start_time_ms, layout)` on `s`.
pub open spec fn allocate_result(
    s: Seq<NoteSlot>,
    note_id: u64,
    start_time_ms: u64,
    layout: TrackLayout,
) -> Seq<NoteSlot> {
    if s.len() >= MAX_NOTES || note_id == 0 || holds_id(s, note_id) {
        s
    } else {
        let p = choose|p: int| is_insert_position(s, layout.track_index, p);
        s.insert(p, new_slot(note_id, start_time_ms, layout))
    }
}

/// The notes after `finalize(note_id, end_time_ms)` on `s`.
pub open spec fn finalize_result(s: Seq<NoteSlot>, note_id: u64, end_time_ms: u64) -> Seq<
    NoteSlot,
> {
    if holds_id(s, note_id) {
        let i = choose|i: int| 0 <= i < s.len() && s[i].note_id == note_id;
        s.update(i, NoteSlot { end_time_ms, ..s[i] })
    } else {
        s
    }
}

/// The notes after `release(note_id)` on `s`.
pub open spec fn release_result(s: Seq<NoteSlot>, note_id: u64) -> Seq<NoteSlot> {
    if holds_id(s, note_id) {
        let i = choose|i: int| 0 <= i < s.len() && s[i].note_id == note_id;
        s.remove(i)
    } else {
        s
    }
}

proof fn lemma_insert_position_unique(s: Seq<NoteSlot>, ti: i32, p: int, q: int)
    requires
        is_insert_position(s, ti, p),
        is_insert_position(s, ti, q),
    ensures
        p == q,
{
    if p < q {
        assert(s[p].track_index <= ti);
    } else if q < p {
        assert(s[q].track_index <= ti);
    }
}

/// The version after one mutation.
pub open spec fn next_version(v: u32) -> u32 {
    if v == u32::MAX {
        0
    } else {
        (v + 1) as u32
    }
}

/// Words that one note contributes to array `k` of the frame body.
pub open spec fn slot_words(s: NoteSlot, k: nat) -> Seq<u32> {
    if k == 0 {
        seq![
            single_bits_of_nat(s.start_time_ms as nat) as u32,
            single_bits_of_nat(s.end_time_ms as nat) as u32,
            s.style.track_x,
        ]
    } else if k == 1 {
        seq![s.style.width, s.style.track_bottom_y]
    } else if k == 2 {
        s.style.color_top@
    } else if k == 3 {
        s.style.color_bottom@
    } else if k == 4 {
        seq![s.style.border_radius]
    } else if k == 5 {
        s.style.glow@
    } else if k == 6 {
        s.style.glow_color_top@
    } else if k == 7 {
        s.style.glow_color_bottom@
    } else {
        seq![single_bits_of_int(s.track_index as int) as u32]
    }
}

/// Words per note in array `k`.
pub open spec fn array_width(k: nat) -> nat {
    if k == 0 || k == 5 || k == 6 || k == 7 {
        3
    } else if k == 1 {
        2
    } else if k == 2 || k == 3 {
        4
    } else {
        1
    }
}

/// Array `k` of the frame body for notes `s`, note after note.
pub open spec fn array_words(s: Seq<NoteSlot>, k: nat) -> Seq<u32>
    decreases s.len(),
{
    if s.len() == 0 {
        seq![]
    } else {
        array_words(s.drop_last(), k) + slot_words(s.last(), k)
    }
}

/// Array `k` as the full-capacity array holds it: the notes' words, then zeros.
pub open spec fn padded_array(s: Seq<NoteSlot>, k: nat) -> Seq<u32> {
    array_words(s, k) + Seq::new(
        (array_width(k) * (MAX_NOTES - s.len())) as nat,
        |i: int| 0u32,
    )
}

/// All words of the frame body: the nine arrays in frame order.
pub open spec fn body_words(s: Seq<NoteSlot>) -> Seq<u32> {
    array_words(s, 0) + array_words(s, 1) + array_words(s, 2) + array_words(s, 3)
        + array_words(s, 4) + array_words(s, 5) + array_words(s, 6) + array_words(s, 7)
        + array_words(s, 8)
}

/// Little-endian bytes of a word.
pub open spec fn u32_le(w: u32) -> Seq<u8> {
    seq![
        (w % 256) as u8,
        ((w / 256) % 256) as u8,
        ((w / 65536) % 256) as u8,
        (w / 16777216) as u8,
    ]
}

/// Little-endian bytes of words, in order.
pub open spec fn words_le(ws: Seq<u32>) -> Seq<u8>
    decreases ws.len(),
{
    if ws.len() == 0 {
        seq![]
    } else {
        words_le(ws.drop_last()) + u32_le(ws.last())
    }
}

/// The 24-byte frame header.
pub open spec fn frame_header(msg_type: u8, version: u32, count: nat) -> Seq<u8> {
    u32_le(NOTE_MESSAGE_MAGIC) + seq![msg_type, 0u8, 0u8, 0u8] + u32_le(version) + u32_le(
        count as u32,
    ) + u32_le(MAX_NOTES as u32) + u32_le(0)
}

/// A whole frame for notes `s`.
pub open spec fn frame_bytes(msg_type: u8, version: u32, s: Seq<NoteSlot>) -> Seq<u8> {
    frame_header(msg_type, version, s.len()) + words_le(body_words(s))
}

pub proof fn lemma_words_le_append(a: Seq<u32>, b: Seq<u32>)
    ensures
        words_le(a + b) == words_le(a) + words_le(b),
    decreases b.len(),
{
    if b.len() == 0 {
        assert(a + b =~= a);
        assert(words_le(a) + words_le(b) =~= words_le(a));
    } else {
        lemma_words_le_append(a, b.drop_last());
        assert((a + b).drop_last() =~= a + b.drop_last());
        assert((a + b).last() == b.last());
    }
}

pub proof fn lemma_words_le_len(ws: Seq<u32>)
    ensures
        words_le(ws).len() == 4 * ws.len(),
    decreases ws.len(),
{
    if ws.len() > 0 {
        lemma_words_le_len(ws.drop_last());
    }
}

pub proof fn lemma_array_words_len(s: Seq<NoteSlot>, k: nat)
    ensures
        array_words(s, k).len() == array_width(k) * s.len(),
    decreases s.len(),
{
    if s.len() > 0 {
        lemma_array_words_len(s.drop_last(), k);
        assert(array_width(k) * s.len() == array_width(k) * (s.len() - 1) + array_width(k))
            by (nonlinear_arith);
    }
}

/// Fixed-capacity store of live notes.
pub struct NoteBuffer {
    slots: Vec<NoteSlot>,
    index_by_note_id: HashMap<u64, usize>,
    note_key_by_id: HashMap<u64, String>,
    version: u32,
}

impl NoteBuffer {
    /// The live notes, in slot order.
    pub closed spec fn notes(&self) -> Seq<NoteSlot> {
        self.slots@
    }

    /// The change counter.
    pub closed spec fn version_spec(&self) -> u32 {
        self.version
    }

    /// Slot of each live note id.
    pub closed spec fn index_map(&self) -> Map<u64, usize> {
        self.index_by_note_id@
    }

    /// Track key of each live note id.
    pub closed spec fn key_map(&self) -> Map<u64, Seq<char>> {
        Map::new(
            |id: u64| self.note_key_by_id@.contains_key(id),
            |id: u64| self.note_key_by_id@[id]@,
        )
    }

    /// The buffer's invariant.
    pub closed spec fn wf(&self) -> bool {
        &&& self.slots@.len() <= MAX_NOTES
        &&& ids_valid(self.slots@)
        &&& sorted_by_track(self.slots@)
        &&& forall|i: int|
            0 <= i < self.slots@.len() ==> #[trigger] self.index_by_note_id@.contains_key(
                self.slots@[i].note_id,
            ) && self.index_by_note_id@[self.slots@[i].note_id] == i
        &&& forall|id: u64| #[trigger]
            self.index_by_note_id@.contains_key(id) ==> self.index_by_note_id@[id]
                < self.slots@.len() && self.slots@[self.index_by_note_id@[id] as int].note_id
                == id
        &&& forall|id: u64|
            #[trigger] self.note_key_by_id@.contains_key(id)
                == self.index_by_note_id@.contains_key(id)
    }

    /// What the invariant says, in terms a caller can use.
    pub proof fn lemma_wf(&self)
        requires
            self.wf(),
        ensures
            self.notes().len() <= MAX_NOTES,
            ids_valid(self.notes()),
            sorted_by_track(self.notes()),
            forall|i: int|
                0 <= i < self.notes().len() ==> #[trigger] self.index_map()[self.notes()[i].note_id]
                    == i,
            forall|id: u64|
                #[trigger] self.index_map().contains_key(id) <==> holds_id(self.notes(), id),
            self.key_map().dom() == self.index_map().dom(),
    {
        assert forall|i: int| 0 <= i < self.notes().len() implies #[trigger] self.index_map()[self.notes()[i].note_id]
            == i by {
            assert(self.index_by_note_id@.contains_key(self.slots@[i].note_id));
        }
        assert forall|id: u64| #[trigger]
            self.index_map().contains_key(id) <==> holds_id(self.notes(), id) by {
            if holds_id(self.notes(), id) {
                let i = choose|i: int| 0 <= i < self.notes().len() && self.notes()[i].note_id == id;
                assert(self.index_by_note_id@.contains_key(self.slots@[i].note_id));
            }
            if self.index_map().contains_key(id) {
                assert(self.notes()[self.index_map()[id] as int].note_id == id);
            }
        }
        assert(self.key_map().dom() =~= self.index_map().dom());
    }

    /// An empty buffer at version zero.
    pub fn new() -> (r: Self)
        ensures
            r.wf(),
            r.notes() == Seq::<NoteSlot>::empty(),
            r.version_spec() == 0,
            r.key_map() == Map::<u64, Seq<char>>::empty(),
            r.index_map() == Map::<u64, usize>::empty(),
    {
        let r = NoteBuffer {
            slots: Vec::new(),
            index_by_note_id: HashMap::new(),
            note_key_by_id: HashMap::new(),
            version: 0,
        };
        assert(r.key_map() =~= Map::<u64, Seq<char>>::empty());
        r
    }

    /// Number of live notes.
    pub fn active_count(&self) -> (r: usize)
        ensures
            r == self.notes().len(),
    {
        self.slots.len()
    }

    /// The change counter.
    pub fn version(&self) -> (r: u32)
        ensures
            r == self.version_spec(),
    {
        self.version
    }

    /// The note in slot `index`.
    pub fn note_at(&self, index: usize) -> (r: NoteSlot)
        requires
            index < self.notes().len(),
        ensures
            r == self.notes()[index as int],
    {
        self.slots[index]
    }

    /// Slot of note `note_id`, if it is live.
    pub fn index_of(&self, note_id: u64) -> (r: Option<usize>)
        requires
            self.wf(),
        ensures
            r == (if self.index_map().contains_key(note_id) {
                Some(self.index_map()[note_id])
            } else {
                None
            }),
    {
        match self.index_by_note_id.get(&note_id) {
            Some(i) => Some(*i),
            None => None,
        }
    }

    /// Track key of note `note_id`, if it is live.
    pub fn key_of(&self, note_id: u64) -> (r: Option<String>)
        requires
            self.wf(),
        ensures
            r.is_some() == self.key_map().contains_key(note_id),
            r.is_some() ==> r.unwrap()@ == self.key_map()[note_id],
    {
        match self.note_key_by_id.get(&note_id) {
            Some(k) => Some(k.clone()),
            None => None,
        }
    }

    fn bump_version(&mut self)
        ensures
            final(self).version == next_version(old(self).version),
            final(self).slots == old(self).slots,
            final(self).index_by_note_id == old(self).index_by_note_id,
            final(self).note_key_by_id == old(self).note_key_by_id,
    {
        self.version = self.version.wrapping_add(1);
    }

    /// Inserts note `note_id` of track `track_key`, started at
    /// `start_time_ms`, after every note whose track index is not greater than
    /// the layout's. Returns its slot, or -1 when the buffer is full or the id
    /// is zero or already live.
    pub fn allocate(
        &mut self,
        note_id: u64,
        track_key: &str,
        start_time_ms: u64,
        layout: &TrackLayout,
    ) -> (r: i32)
        requires
            old(self).wf(),
        ensures
            final(self).wf(),
            ({
                let s = old(self).notes();
                if s.len() >= MAX_NOTES || note_id == 0 || holds_id(s, note_id) {
                    &&& r == -1
                    &&& final(self).notes() == s
                    &&& final(self).version_spec() == old(self).version_spec()
                    &&& final(self).key_map() == old(self).key_map()
                } else {
                    &&& is_insert_position(s, layout.track_index, r as int)
                    &&& final(self).notes() == allocate_result(s, note_id, start_time_ms, *layout)
                    &&& final(self).notes() == s.insert(
                        r as int,
                        new_slot(note_id, start_time_ms, *layout),
                    )
                    &&& final(self).version_spec() == next_version(old(self).version_spec())
                    &&& final(self).key_map() == old(self).key_map().insert(note_id, track_key@)
                }
            }),
    {
        proof {
            old(self).lemma_wf();
        }
        let old_count = self.slots.len();
        if old_count >= MAX_NOTES || note_id == 0 {
            return -1;
        }
        if self.index_by_note_id.get(&note_id).is_some() {
            return -1;
        }
        let mut i: usize = 0;
        while i < old_count && self.slots[i].track_index <= layout.track_index
            invariant
                i <= old_count == self.slots@.len(),
                forall|j: int| 0 <= j < i ==> self.slots@[j].track_index <= layout.track_index,
            decreases old_count - i,
        {
            i = i + 1;
        }
        let insert_index = i;
        let ghost s0 = self.slots@;
        let ghost idx0 = self.index_by_note_id@;
        let slot = NoteSlot {
            note_id,
            start_time_ms,
            end_time_ms: 0,
            track_index: layout.track_index,
            style: layout.style,
        };
        self.slots.insert(insert_index, slot);
        assert(is_insert_position(s0, layout.track_index, insert_index as int));
        let mut k: usize = insert_index + 1;
        while k <= old_count
            invariant
                insert_index < k <= old_count + 1,
                self.note_key_by_id == old(self).note_key_by_id,
                self.version == old(self).version,
                old_count == s0.len() < MAX_NOTES,
                self.slots@ == s0.insert(insert_index as int, slot),
                ids_valid(s0),
                !holds_id(s0, note_id),
                forall|id: u64| #[trigger]
                    self.index_by_note_id@.contains_key(id) == idx0.contains_key(id),
                forall|j: int|
                    0 <= j < s0.len() ==> #[trigger] idx0.contains_key(s0[j].note_id)
                        && idx0[s0[j].note_id] == j,
                forall|j: int|
                    0 <= j < s0.len() ==> #[trigger] self.index_by_note_id@[s0[j].note_id] == (
                    if j < insert_index {
                        j
                    } else if j + 1 < k {
                        j + 1
                    } else {
                        j
                    }),
            decreases old_count + 1 - k,
        {
            let moved = self.slots[k].note_id;
            assert(moved == s0[k - 1].note_id);
            self.index_by_note_id.insert(moved, k);
            assert forall|j: int|
                0 <= j < s0.len() implies #[trigger] self.index_by_note_id@[s0[j].note_id] == (
                if j < insert_index {
                    j
                } else if j + 1 < k + 1 {
                    j + 1
                } else {
                    j
                }) by {
                if 0 <= j < s0.len() && j != k - 1 {
                    assert(s0[j].note_id != s0[k - 1].note_id);
                }
            }
            k = k + 1;
        }
        self.index_by_note_id.insert(note_id, insert_index);
        let key_string = track_key.to_owned();
        self.note_key_by_id.insert(note_id, key_string);
        self.bump_version();
        proof {
            let s1 = self.slots@;
            assert forall|j: int| 0 <= j < s1.len() implies s1[j].note_id != 0 by {
                if j != insert_index {
                    let jj = if j < insert_index { j } else { j - 1 };
                    assert(s1[j] == s0[jj]);
                }
            }
            assert forall|a: int, b: int|
                0 <= a < s1.len() && 0 <= b < s1.len() && a != b implies s1[a].note_id
                != s1[b].note_id by {
                let aa = if a < insert_index { a } else { a - 1 };
                let bb = if b < insert_index { b } else { b - 1 };
                if a != insert_index {
                    assert(s1[a] == s0[aa]);
                }
                if b != insert_index {
                    assert(s1[b] == s0[bb]);
                }
                if a == insert_index {
                    assert(s0[bb].note_id != note_id);
                } else if b == insert_index {
                    assert(s0[aa].note_id != note_id);
                }
            }
            assert forall|a: int, b: int| 0 <= a <= b < s1.len() implies s1[a].track_index
                <= s1[b].track_index by {
                let aa = if a < insert_index { a } else { a - 1 };
                let bb = if b < insert_index { b } else { b - 1 };
                if a != insert_index {
                    assert(s1[a] == s0[aa]);
                }
                if b != insert_index {
                    assert(s1[b] == s0[bb]);
                }
            }
            assert forall|j: int| 0 <= j < s1.len() implies #[trigger]
                self.index_by_note_id@.contains_key(s1[j].note_id)
                    && self.index_by_note_id@[s1[j].note_id] == j by {
                if j != insert_index {
                    let jj = if j < insert_index { j } else { j - 1 };
                    assert(s1[j] == s0[jj]);
                    assert(s0[jj].note_id != note_id);
                }
            }
            assert forall|id: u64| #[trigger]
                self.index_by_note_id@.contains_key(id) implies self.index_by_note_id@[id]
                < s1.len() && s1[self.index_by_note_id@[id] as int].note_id == id by {
                if id != note_id {
                    assert(idx0.contains_key(id));
                    let j = idx0[id] as int;
                    assert(old(self).slots@[j].note_id == id);
                    assert(s0[j].note_id == id);
                }
            }
            let p = choose|p: int| is_insert_position(s0, layout.track_index, p);
            lemma_insert_position_unique(s0, layout.track_index, p, insert_index as int);
            assert(self.note_key_by_id@ == old(self).note_key_by_id@.insert(note_id, key_string));
            assert(self.key_map() =~= old(self).key_map().insert(note_id, track_key@));
        }
        insert_index as i32
    }

    /// Sets the end time of note `note_id`. Returns its slot, or -1 when it is
    /// not live.
    pub fn finalize(&mut self, note_id: u64, end_time_ms: u64) -> (r: i32)
        requires
            old(self).wf(),
        ensures
            final(self).wf(),
            final(self).key_map() == old(self).key_map(),
            ({
                let s = old(self).notes();
                if !holds_id(s, note_id) {
                    &&& r == -1
                    &&& final(self).notes() == s
                    &&& final(self).version_spec() == old(self).version_spec()
                } else {
                    &&& 0 <= r < s.len()
                    &&& s[r as int].note_id == note_id
                    &&& final(self).notes() == s.update(
                        r as int,
                        NoteSlot { end_time_ms, ..s[r as int] },
                    )
                    &&& final(self).notes() == finalize_result(s, note_id, end_time_ms)
                    &&& final(self).version_spec() == next_version(old(self).version_spec())
                }
            }),
    {
        proof {
            old(self).lemma_wf();
        }
        let index = match self.index_by_note_id.get(&note_id) {
            Some(i) => *i,
            None => {
                return -1;
            },
        };
        let mut slot = self.slots[index];
        slot.end_time_ms = end_time_ms;
        self.slots.set(index, slot);
        self.bump_version();
        proof {
            let s0 = old(self).slots@;
            let s1 = self.slots@;
            assert forall|a: int, b: int|
                0 <= a < s1.len() && 0 <= b < s1.len() && a != b implies s1[a].note_id
                != s1[b].note_id by {
                assert(s0[a].note_id != s0[b].note_id);
            }
            assert forall|a: int, b: int| 0 <= a <= b < s1.len() implies s1[a].track_index
                <= s1[b].track_index by {
                assert(s0[a].track_index <= s0[b].track_index);
            }
            assert forall|j: int| 0 <= j < s1.len() implies #[trigger]
                self.index_by_note_id@.contains_key(s1[j].note_id)
                    && self.index_by_note_id@[s1[j].note_id] == j by {
                assert(s1[j].note_id == s0[j].note_id);
            }
            assert(self.key_map() =~= old(self).key_map());
            let i = choose|i: int| 0 <= i < s0.len() && s0[i].note_id == note_id;
            assert(i == index);
        }
        index as i32
    }

    /// Removes note `note_id`, closing the gap. Returns the slot it had, or -1
    /// when it is not live.
    pub fn release(&mut self, note_id: u64) -> (r: i32)
        requires
            old(self).wf(),
        ensures
            final(self).wf(),
            ({
                let s = old(self).notes();
                if !holds_id(s, note_id) {
                    &&& r == -1
                    &&& final(self).notes() == s
                    &&& final(self).version_spec() == old(self).version_spec()
                    &&& final(self).key_map() == old(self).key_map()
                } else {
                    &&& 0 <= r < s.len()
                    &&& s[r as int].note_id == note_id
                    &&& final(self).notes() == s.remove(r as int)
                    &&& final(self).notes() == release_result(s, note_id)
                    &&& final(self).version_spec() == next_version(old(self).version_spec())
                    &&& final(self).key_map() == old(self).key_map().remove(note_id)
                }
            }),
    {
        proof {
            old(self).lemma_wf();
        }
        let index = match self.index_by_note_id.get(&note_id) {
            Some(i) => *i,
            None => {
                return -1;
            },
        };
        let ghost s0 = self.slots@;
        let ghost idx0 = self.index_by_note_id@;
        let _ = self.slots.remove(index);
        let last = self.slots.len();
        let mut k: usize = index;
        while k < last
            invariant
                index <= k <= last,
                self.note_key_by_id == old(self).note_key_by_id,
                self.version == old(self).version,
                last + 1 == s0.len() <= MAX_NOTES,
                index < s0.len(),
                s0[index as int].note_id == note_id,
                self.slots@ == s0.remove(index as int),
                ids_valid(s0),
                forall|id: u64| #[trigger]
                    self.index_by_note_id@.contains_key(id) == idx0.contains_key(id),
                forall|j: int|
                    0 <= j < s0.len() ==> #[trigger] idx0.contains_key(s0[j].note_id)
                        && idx0[s0[j].note_id] == j,
                forall|j: int|
                    0 <= j < s0.len() && j != index ==> #[trigger] self.index_by_note_id@[s0[j].note_id]
                        == (if j <= index || j > k {
                        j
                    } else {
                        j - 1
                    }),
            decreases last - k,
        {
            let moved = self.slots[k].note_id;
            assert(moved == s0[k + 1].note_id);
            self.index_by_note_id.insert(moved, k);
            assert forall|j: int|
                0 <= j < s0.len() && j != index implies #[trigger] self.index_by_note_id@[s0[j].note_id]
                == (if j <= index || j > k + 1 {
                j
            } else {
                j - 1
            }) by {
                if j != k + 1 {
                    assert(s0[j].note_id != s0[k + 1].note_id);
                }
            }
            k = k + 1;
        }
        self.index_by_note_id.remove(&note_id);
        self.note_key_by_id.remove(&note_id);
        self.bump_version();
        proof {
            let s1 = self.slots@;
            assert forall|j: int| 0 <= j < s1.len() implies s1[j].note_id != 0 by {
                let jj = if j < index { j } else { j + 1 };
                assert(s1[j] == s0[jj]);
            }
            assert forall|a: int, b: int|
                0 <= a < s1.len() && 0 <= b < s1.len() && a != b implies s1[a].note_id
                != s1[b].note_id by {
                let aa = if a < index { a } else { a + 1 };
                let bb = if b < index { b } else { b + 1 };
                assert(s1[a] == s0[aa]);
                assert(s1[b] == s0[bb]);
            }
            assert forall|a: int, b: int| 0 <= a <= b < s1.len() implies s1[a].track_index
                <= s1[b].track_index by {
                let aa = if a < index { a } else { a + 1 };
                let bb = if b < index { b } else { b + 1 };
                assert(s1[a] == s0[aa]);
                assert(s1[b] == s0[bb]);
            }
            assert forall|j: int| 0 <= j < s1.len() implies #[trigger]
                self.index_by_note_id@.contains_key(s1[j].note_id)
                    && self.index_by_note_id@[s1[j].note_id] == j by {
                let jj = if j < index { j } else { j + 1 };
                assert(s1[j] == s0[jj]);
                assert(s0[jj].note_id != note_id);
            }
            assert forall|id: u64| #[trigger]
                self.index_by_note_id@.contains_key(id) implies self.index_by_note_id@[id]
                < s1.len() && s1[self.index_by_note_id@[id] as int].note_id == id by {
                assert(idx0.contains_key(id));
                let j = idx0[id] as int;
                assert(old(self).slots@[j].note_id == id);
                assert(j != index);
            }
            assert(self.note_key_by_id@ == old(self).note_key_by_id@.remove(note_id));
            assert(self.key_map() =~= old(self).key_map().remove(note_id));
            let i = choose|i: int| 0 <= i < s0.len() && s0[i].note_id == note_id;
            assert(i == index);
        }
        index as i32
    }

    /// Drops every note.
    pub fn clear(&mut self)
        requires
            old(self).wf(),
        ensures
            final(self).wf(),
            final(self).notes() == Seq::<NoteSlot>::empty(),
            final(self).key_map() == Map::<u64, Seq<char>>::empty(),
            final(self).index_map() == Map::<u64, usize>::empty(),
            final(self).version_spec() == next_version(old(self).version_spec()),
    {
        self.slots.clear();
        self.index_by_note_id.clear();
        self.note_key_by_id.clear();
        self.bump_version();
        assert(self.key_map() =~= Map::<u64, Seq<char>>::empty());
    }

    /// The frame for the live notes, tagged with `msg_type`.
    pub fn serialize_active(&self, msg_type: u8) -> (r: Vec<u8>)
        requires
            self.wf(),
        ensures
            r@ == frame_bytes(msg_type, self.version_spec(), self.notes()),
    {
        let mut out: Vec<u8> = Vec::new();
        push_u32_le(&mut out, NOTE_MESSAGE_MAGIC);
        out.push(msg_type);
        out.push(0);
        out.push(0);
        out.push(0);
        push_u32_le(&mut out, self.version);
        push_u32_le(&mut out, self.slots.len() as u32);
        push_u32_le(&mut out, MAX_NOTES as u32);
        push_u32_le(&mut out, 0);
        let ghost header = out@;
        assert(header =~= frame_header(msg_type, self.version, self.slots@.len()));
        let mut k: usize = 0;
        while k < FRAME_ARRAYS
            invariant
                k <= FRAME_ARRAYS,
                out@ == header + words_le(body_prefix(self.slots@, k as nat)),
            decreases FRAME_ARRAYS - k,
        {
            let ghost before = out@;
            push_array(&mut out, &self.slots, k);
            proof {
                lemma_words_le_append(body_prefix(self.slots@, k as nat), array_words(self.slots@, k as nat));
                assert(body_prefix(self.slots@, (k + 1) as nat) == body_prefix(self.slots@, k as nat)
                    + array_words(self.slots@, k as nat));
            }
            k = k + 1;
        }
        proof {
            reveal_with_fuel(body_prefix, 10);
            assert(body_prefix(self.slots@, 9) =~= body_words(self.slots@));
        }
        out
    }
}

/// The first `k` arrays of the frame body.
pub open spec fn body_prefix(s: Seq<NoteSlot>, k: nat) -> Seq<u32>
    decreases k,
{
    if k == 0 {
        seq![]
    } else {
        body_prefix(s, (k - 1) as nat) + array_words(s, (k - 1) as nat)
    }
}

fn push_u32_le(out: &mut Vec<u8>, w: u32)
    ensures
        final(out)@ == old(out)@ + u32_le(w),
{
    out.push((w % 256) as u8);
    out.push(((w / 256) % 256) as u8);
    out.push(((w / 65536) % 256) as u8);
    out.push((w / 16777216) as u8);
    assert(final(out)@ =~= old(out)@ + u32_le(w));
}

fn push_words(out: &mut Vec<u8>, ws: &[u32])
    ensures
        final(out)@ == old(out)@ + words_le(ws@),
{
    let mut i: usize = 0;
    while i < ws.len()
        invariant
            i <= ws@.len(),
            out@ == old(out)@ + words_le(ws@.subrange(0, i as int)),
        decreases ws@.len() - i,
    {
        push_u32_le(out, ws[i]);
        proof {
            let a = ws@.subrange(0, i as int);
            let b = ws@.subrange(0, i + 1);
            assert(b.drop_last() =~= a);
        }
        i = i + 1;
    }
    assert(ws@.subrange(0, ws@.len() as int) =~= ws@);
}

fn push_slot_words(out: &mut Vec<u8>, s: &NoteSlot, k: usize)
    requires
        k < FRAME_ARRAYS,
    ensures
        final(out)@ == old(out)@ + words_le(slot_words(*s, k as nat)),
{
    if k == 0 {
        let ws = [
            single_bits_of_u64(s.start_time_ms),
            single_bits_of_u64(s.end_time_ms),
            s.style.track_x,
        ];
        assert(ws@ =~= slot_words(*s, 0));
        push_words(out, &ws);
    } else if k == 1 {
        let ws = [s.style.width, s.style.track_bottom_y];
        assert(ws@ =~= slot_words(*s, 1));
        push_words(out, &ws);
    } else if k == 2 {
        push_words(out, &s.style.color_top);
    } else if k == 3 {
        push_words(out, &s.style.color_bottom);
    } else if k == 4 {
        let ws = [s.style.border_radius];
        assert(ws@ =~= slot_words(*s, 4));
        push_words(out, &ws);
    } else if k == 5 {
        push_words(out, &s.style.glow);
    } else if k == 6 {
        push_words(out, &s.style.glow_color_top);
    } else if k == 7 {
        push_words(out, &s.style.glow_color_bottom);
    } else {
        let ws = [single_bits_of_i64(s.track_index as i64)];
        assert(ws@ =~= slot_words(*s, 8));
        push_words(out, &ws);
    }
}

fn push_array(out: &mut Vec<u8>, slots: &Vec<NoteSlot>, k: usize)
    requires
        k < FRAME_ARRAYS,
    ensures
        final(out)@ == old(out)@ + words_le(array_words(slots@, k as nat)),
{
    let mut i: usize = 0;
    while i < slots.len()
        invariant
            k < FRAME_ARRAYS,
            i <= slots@.len(),
            out@ == old(out)@ + words_le(array_words(slots@.subrange(0, i as int), k as nat)),
        decreases slots@.len() - i,
    {
        push_slot_words(out, &slots[i], k);
        proof {
            let a = slots@.subrange(0, i as int);
            let b = slots@.subrange(0, i + 1);
            assert(b.drop_last() =~= a);
            assert(b.last() == slots@[i as int]);
            lemma_words_le_append(array_words(a, k as nat), slot_words(slots@[i as int], k as nat));
        }
        i = i + 1;
    }
    assert(slots@.subrange(0, slots@.len() as int) =~= slots@);
}

/// After `clear`, every full-capacity array of the buffer holds zeros only.
pub proof fn lemma_cleared_arrays_zero(b: &NoteBuffer, k: nat)
    requires
        b.wf(),
        b.notes().len() == 0,
        k < FRAME_ARRAYS,
    ensures
        padded_array(b.notes(), k) == Seq::new(
            (array_width(k) * MAX_NOTES) as nat,
            |i: int| 0u32,
        ),
        forall|i: int| 0 <= i < padded_array(b.notes(), k).len() ==> #[trigger] padded_array(b.notes(), k)[i] == 0,
{
    assert(array_words(b.notes(), k) =~= Seq::<u32>::empty());
    assert(padded_array(b.notes(), k) =~= Seq::new(
        (array_width(k) * MAX_NOTES) as nat,
        |i: int| 0u32,
    ));
}

/// A frame is 24 header bytes and 96 body bytes per note; the header is the
/// magic word, the tag, three zero bytes, the version, the count, the
/// capacity and a zero word, whatever the count.
pub proof fn lemma_frame_layout(msg_type: u8, version: u32, s: Seq<NoteSlot>)
    requires
        s.len() <= MAX_NOTES,
    ensures
        frame_bytes(msg_type, version, s).len() == NOTE_MESSAGE_HEADER_BYTES + 96 * s.len(),
        frame_bytes(msg_type, version, s).subrange(0, 24) == frame_header(msg_type, version, s.len()),
        frame_header(msg_type, version, s.len()) == u32_le(NOTE_MESSAGE_MAGIC) + seq![msg_type, 0u8, 0u8, 0u8]
            + u32_le(version) + u32_le(s.len() as u32) + u32_le(MAX_NOTES as u32) + u32_le(0),
        frame_header(msg_type, version, s.len())[4] == msg_type,
{
    lemma_array_words_len(s, 0);
    lemma_array_words_len(s, 1);
    lemma_array_words_len(s, 2);
    lemma_array_words_len(s, 3);
    lemma_array_words_len(s, 4);
    lemma_array_words_len(s, 5);
    lemma_array_words_len(s, 6);
    lemma_array_words_len(s, 7);
    lemma_array_words_len(s, 8);
    assert(body_words(s).len() == 24 * s.len());
    lemma_words_le_len(body_words(s));
    let f = frame_bytes(msg_type, version, s);
    assert(frame_header(msg_type, version, s.len()).len() == 24);
    assert(f.subrange(0, 24) =~= frame_header(msg_type, version, s.len()));
    assert(f.len() == 24 + words_le(body_words(s)).len());
    assert(words_le(body_words(s)).len() == 4 * (24 * s.len()));
    assert(4 * (24 * s.len()) == 96 * s.len());
}

/// Allocating a note and releasing it again restores the notes and the key
/// map (the version aside).
pub proof fn lemma_allocate_release_round_trip(
    s: Seq<NoteSlot>,
    keys: Map<u64, Seq<char>>,
    note_id: u64,
    track_key: Seq<char>,
    start_time_ms: u64,
    layout: TrackLayout,
)
    requires
        ids_valid(s),
        sorted_by_track(s),
        s.len() < MAX_NOTES,
        note_id != 0,
        !holds_id(s, note_id),
        !keys.contains_key(note_id),
    ensures
        release_result(allocate_result(s, note_id, start_time_ms, layout), note_id) == s,
        keys.insert(note_id, track_key).remove(note_id) == keys,
{
    let p = choose|p: int| is_insert_position(s, layout.track_index, p);
    let q = insertion_point(s, layout.track_index);
    lemma_insertion_point(s, layout.track_index);
    lemma_insert_position_unique(s, layout.track_index, p, q);
    let t = s.insert(p, new_slot(note_id, start_time_ms, layout));
    assert(t[p].note_id == note_id);
    let i = choose|i: int| 0 <= i < t.len() && t[i].note_id == note_id;
    if i != p {
        let ii = if i < p { i } else { i - 1 };
        assert(t[i] == s[ii]);
    }
    assert(t.remove(p) =~= s);
    assert(keys.insert(note_id, track_key).remove(note_id) =~= keys);
}

/// The place where a note of track index `ti` goes in `s`: before the first
/// note whose index is greater.
pub open spec fn insertion_point(s: Seq<NoteSlot>, ti: i32) -> int
    decreases s.len(),
{
    if s.len() == 0 {
        0
    } else if s[0].track_index > ti {
        0
    } else {
        1 + insertion_point(s.subrange(1, s.len() as int), ti)
    }
}

proof fn lemma_insertion_point(s: Seq<NoteSlot>, ti: i32)
    ensures
        is_insert_position(s, ti, insertion_point(s, ti)),
    decreases s.len(),
{
    if s.len() > 0 && s[0].track_index <= ti {
        let rest = s.subrange(1, s.len() as int);
        lemma_insertion_point(rest, ti);
        let p = insertion_point(s, ti);
        assert forall|j: int| 0 <= j < p implies s[j].track_index <= ti by {
            if j > 0 {
                assert(s[j] == rest[j - 1]);
            }
        }
        if p < s.len() {
            assert(s[p] == rest[p - 1]);
        }
    }
}

} // verus!
