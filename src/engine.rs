//! The note lifecycle engine: per-press states, optional display delay,
//! minimum note length, and eviction of notes that have left the track.

use vstd::prelude::*;

use crate::buffer::{
    allocate_result, allocation_fits, finalize_result, holds_id, version_after, NoteBuffer,
    NoteSlot,
};
use crate::layout::{single_positive, single_is_positive, TrackLayout};
use crate::types::{NoteMessageType, NoteSettingsInput, RuntimeSettings, TrackLayoutInput};

verus! {

/// Distance below the track, in px, that a finished note travels before it is
/// dropped.
pub const CLEANUP_MARGIN_PX: u64 = 200;

/// Lifecycle of one key press.
#[derive(Debug, Clone, Copy)]
pub struct ActiveState {
    pub use_delay: bool,
    pub down_time_ms: u64,
    pub release_time_ms: Option<u64>,
    pub start_time_ms: Option<u64>,
    pub note_id: Option<u64>,
    pub created: bool,
    pub released: bool,
    pub released_before_start: bool,
    pub target_end_time_ms: Option<u64>,
}

/// A press state together with the track it belongs to.
#[derive(Debug)]
pub struct KeyedState {
    pub key: String,
    pub state: ActiveState,
}

/// A track key with its layout.
#[derive(Debug)]
pub struct TrackEntry {
    pub key: String,
    pub layout: TrackLayout,
}

/// The state a deferred press starts in.
pub open spec fn pending_state(now_ms: u64) -> ActiveState {
    ActiveState {
        use_delay: true,
        down_time_ms: now_ms,
        release_time_ms: None,
        start_time_ms: None,
        note_id: None,
        created: false,
        released: false,
        released_before_start: false,
        target_end_time_ms: None,
    }
}

/// The state an immediate press starts in.
pub open spec fn created_state(now_ms: u64, note_id: u64) -> ActiveState {
    ActiveState {
        use_delay: false,
        down_time_ms: now_ms,
        release_time_ms: None,
        start_time_ms: Some(now_ms),
        note_id: Some(note_id),
        created: true,
        released: false,
        released_before_start: false,
        target_end_time_ms: None,
    }
}

/// The id handed out after `id`: wrapping, never zero.
pub open spec fn next_id_after(id: u64) -> u64 {
    if id == u64::MAX {
        1
    } else {
        (id + 1) as u64
    }
}

/// `a + b`, or `u64::MAX` when that does not fit.
pub open spec fn sat_add(a: nat, b: nat) -> nat {
    if a + b > u64::MAX {
        u64::MAX as nat
    } else {
        a + b
    }
}

/// End time of a delayed note: `start + max(desired, 1)`, where `desired` is
/// the minimum length when `force_min_length`, else the larger of the minimum
/// length and the time held (release minus the earlier of start and release).
pub open spec fn target_end_spec(
    min_length_ms: nat,
    state: ActiveState,
    now_ms: u64,
    force_min_length: bool,
) -> nat {
    let start: nat = match state.start_time_ms {
        Some(s) => s as nat,
        None => state.down_time_ms as nat,
    };
    let release: nat = match state.release_time_ms {
        Some(r) => r as nat,
        None => now_ms as nat,
    };
    let baseline = if start <= release {
        start
    } else {
        release
    };
    let held: nat = (release - baseline) as nat;
    let desired = if force_min_length {
        min_length_ms
    } else if min_length_ms >= held {
        min_length_ms
    } else {
        held
    };
    let safe = if desired >= 1 {
        desired
    } else {
        1
    };
    sat_add(start, safe)
}

/// Layout configured for `key`, if any.
pub open spec fn layout_for(ls: Seq<(Seq<char>, TrackLayout)>, key: Seq<char>) -> Option<
    TrackLayout,
> {
    if exists|i: int| 0 <= i < ls.len() && ls[i].0 == key {
        let i = choose|i: int| 0 <= i < ls.len() && ls[i].0 == key;
        Some(ls[i].1)
    } else {
        None
    }
}

/// Track keys appear at most once.
pub open spec fn keys_unique(ls: Seq<(Seq<char>, TrackLayout)>) -> bool {
    forall|i: int, j: int| 0 <= i < ls.len() && 0 <= j < ls.len() && i != j ==> ls[i].0 != ls[j].0
}

/// `ss[i]` is a state of track `key` that is still held.
pub open spec fn unreleased_at(ss: Seq<(Seq<char>, ActiveState)>, key: Seq<char>, i: int) -> bool {
    0 <= i < ss.len() && ss[i].0 == key && !ss[i].1.released
}

/// Track `key` has a state that is still held.
pub open spec fn has_unreleased(ss: Seq<(Seq<char>, ActiveState)>, key: Seq<char>) -> bool {
    exists|i: int| unreleased_at(ss, key, i)
}

/// No track has two held states.
pub open spec fn one_held_per_track(ss: Seq<(Seq<char>, ActiveState)>) -> bool {
    forall|i: int, j: int|
        unreleased_at(ss, ss[i].0, i) && unreleased_at(ss, ss[i].0, j) ==> i == j
}

/// The layouts that `update_track_layouts(inputs)` installs: inputs with
/// effect enabled and positive width, a later entry for a key replacing an
/// earlier one in place.
pub open spec fn layouts_from(inputs: Seq<(Seq<char>, TrackLayout, Option<bool>)>) -> Seq<
    (Seq<char>, TrackLayout),
>
    decreases inputs.len(),
{
    if inputs.len() == 0 {
        seq![]
    } else {
        let prev = layouts_from(inputs.drop_last());
        let e = inputs.last();
        if e.2 == Some(false) || !single_is_positive(e.1.style.width) {
            prev
        } else if exists|i: int| 0 <= i < prev.len() && prev[i].0 == e.0 {
            let i = choose|i: int| 0 <= i < prev.len() && prev[i].0 == e.0;
            prev.update(i, (e.0, e.1))
        } else {
            prev.push((e.0, e.1))
        }
    }
}

/// A finished note has fallen `track_height + CLEANUP_MARGIN_PX` px below its
/// end line: `(now - end) * flow_speed / 1000 >= track_height + margin`.
pub open spec fn is_due(n: NoteSlot, now_ms: u64, settings: RuntimeSettings) -> bool {
    n.end_time_ms != 0 && now_ms >= n.end_time_ms && (now_ms - n.end_time_ms)
        * settings.flow_speed >= (settings.track_height + CLEANUP_MARGIN_PX) * 1000
}

/// A state that `tick` has nothing left to do for at `now_ms`.
pub open spec fn settled(st: ActiveState, now_ms: u64, delay_ms: u32) -> bool {
    !start_due(st, now_ms, delay_ms) && !end_due(st, now_ms)
}

/// Track entries as key and layout.
pub open spec fn entries_view(v: Seq<TrackEntry>) -> Seq<(Seq<char>, TrackLayout)> {
    v.map_values(|e: TrackEntry| (e.key@, e.layout))
}

/// Index of the entry for `key`.
fn entry_index(entries: &Vec<TrackEntry>, key: &String) -> (r: Option<usize>)
    requires
        keys_unique(entries_view(entries@)),
    ensures
        match r {
            Some(i) => i < entries@.len() && entries_view(entries@)[i as int].0 == key@
                && layout_for(entries_view(entries@), key@) == Some(
                entries_view(entries@)[i as int].1,
            ),
            None => layout_for(entries_view(entries@), key@).is_none(),
        },
{
    let ghost lv = entries_view(entries@);
    let mut i: usize = 0;
    while i < entries.len()
        invariant
            i <= entries@.len() == lv.len(),
            lv == entries_view(entries@),
            keys_unique(lv),
            forall|j: int| 0 <= j < i ==> lv[j].0 != key@,
        decreases entries@.len() - i,
    {
        if entries[i].key == *key {
            proof {
                assert(lv[i as int].0 == key@);
                let c = choose|c: int| 0 <= c < lv.len() && lv[c].0 == key@;
                assert(c != i ==> lv[c].0 != lv[i as int].0);
            }
            return Some(i);
        }
        i = i + 1;
    }
    None
}

/// Every state held in `sv` was held in `ss` at the same place, with the same
/// key.
pub open spec fn holds_fewer(
    ss: Seq<(Seq<char>, ActiveState)>,
    sv: Seq<(Seq<char>, ActiveState)>,
) -> bool {
    &&& sv.len() == ss.len()
    &&& forall|j: int| 0 <= j < ss.len() ==> sv[j].0 == ss[j].0 && (ss[j].1.released ==> sv[j].1.released)
}

proof fn lemma_holds_fewer(ss: Seq<(Seq<char>, ActiveState)>, sv: Seq<(Seq<char>, ActiveState)>)
    requires
        one_held_per_track(ss),
        holds_fewer(ss, sv),
    ensures
        one_held_per_track(sv),
{
    assert forall|a: int, b: int|
        unreleased_at(sv, sv[a].0, a) && unreleased_at(sv, sv[a].0, b) implies a == b by {
        assert(unreleased_at(ss, ss[a].0, a) && unreleased_at(ss, ss[a].0, b));
    }
}

proof fn lemma_remove_keeps_one_held(ss: Seq<(Seq<char>, ActiveState)>, i: int)
    requires
        one_held_per_track(ss),
        0 <= i < ss.len(),
    ensures
        one_held_per_track(ss.remove(i)),
{
    let sv = ss.remove(i);
    assert forall|a: int, b: int|
        unreleased_at(sv, sv[a].0, a) && unreleased_at(sv, sv[a].0, b) implies a == b by {
        let aa = if a < i { a } else { a + 1 };
        let bb = if b < i { b } else { b + 1 };
        assert(unreleased_at(ss, ss[aa].0, aa) && unreleased_at(ss, ss[aa].0, bb));
    }
}

/// The notes of `s` that are not due, in order.
pub open spec fn surviving(s: Seq<NoteSlot>, now_ms: u64, settings: RuntimeSettings) -> Seq<
    NoteSlot,
>
    decreases s.len(),
{
    if s.len() == 0 {
        s
    } else {
        let p = surviving(s.drop_last(), now_ms, settings);
        if is_due(s.last(), now_ms, settings) {
            p
        } else {
            p.push(s.last())
        }
    }
}

/// Start time of a deferred press.
pub open spec fn scheduled_start(st: ActiveState, delay_ms: u32) -> nat {
    sat_add(st.down_time_ms as nat, delay_ms as nat)
}

/// A deferred press whose start time has come.
pub open spec fn start_due(st: ActiveState, now_ms: u64, delay_ms: u32) -> bool {
    st.use_delay && !st.created && now_ms >= scheduled_start(st, delay_ms)
}

/// A released delayed note whose end time has come.
pub open spec fn end_due(st: ActiveState, now_ms: u64) -> bool {
    st.use_delay && st.created && st.released && st.target_end_time_ms.is_some() && now_ms
        >= st.target_end_time_ms.unwrap()
}

/// What one tick does to one press state: whether the state stays, the state
/// after, the notes after, the next note id after, whether a note was added
/// or finalized, and the buffer version after. A deferred press whose start
/// has come gets its note at the scheduled start (or is dropped when its
/// track has no layout); a released delayed note whose end has come is
/// finalized at that end.
pub open spec fn advance(
    key: Seq<char>,
    st: ActiveState,
    notes: Seq<NoteSlot>,
    id: u64,
    version: u32,
    layouts: Seq<(Seq<char>, TrackLayout)>,
    settings: RuntimeSettings,
    now_ms: u64,
) -> (bool, ActiveState, Seq<NoteSlot>, u64, bool, bool, u32) {
    if start_due(st, now_ms, settings.delay_ms) {
        match layout_for(layouts, key) {
            None => (false, st, notes, id, false, false, version),
            Some(layout) => {
                let start = scheduled_start(st, settings.delay_ms);
                let st1 = ActiveState {
                    note_id: Some(id),
                    created: true,
                    start_time_ms: Some(start as u64),
                    ..st
                };
                let s1 = allocate_result(notes, id, start as u64, layout);
                let v1 = version_after(version, allocation_fits(notes, id));
                let nid = next_id_after(id);
                if !st.released {
                    (true, st1, s1, nid, true, false, v1)
                } else {
                    let target = target_end_spec(
                        settings.min_length_ms_spec(),
                        st1,
                        now_ms,
                        st.released_before_start,
                    );
                    let st2 = ActiveState {
                        target_end_time_ms: Some(target as u64),
                        released_before_start: false,
                        ..st1
                    };
                    if now_ms >= target {
                        (
                            false,
                            st2,
                            finalize_result(s1, id, target as u64),
                            nid,
                            true,
                            true,
                            version_after(v1, holds_id(s1, id)),
                        )
                    } else {
                        (true, st2, s1, nid, true, false, v1)
                    }
                }
            },
        }
    } else if end_due(st, now_ms) {
        (
            false,
            st,
            if st.note_id.is_some() {
                finalize_result(notes, st.note_id.unwrap(), st.target_end_time_ms.unwrap())
            } else {
                notes
            },
            id,
            false,
            st.note_id.is_some(),
            version_after(version, st.note_id.is_some() && holds_id(notes, st.note_id.unwrap())),
        )
    } else {
        (true, st, notes, id, false, false, version)
    }
}

/// What one tick does to all press states, in order, before eviction: the
/// states that stay, the notes, the next note id, whether any note was added
/// or finalized, and the buffer version.
pub open spec fn advance_all(
    ss: Seq<(Seq<char>, ActiveState)>,
    notes: Seq<NoteSlot>,
    id: u64,
    version: u32,
    layouts: Seq<(Seq<char>, TrackLayout)>,
    settings: RuntimeSettings,
    now_ms: u64,
) -> (Seq<(Seq<char>, ActiveState)>, Seq<NoteSlot>, u64, bool, bool, u32)
    decreases ss.len(),
{
    if ss.len() == 0 {
        (ss, notes, id, false, false, version)
    } else {
        let o = advance(ss[0].0, ss[0].1, notes, id, version, layouts, settings, now_ms);
        let rest = advance_all(
            ss.subrange(1, ss.len() as int),
            o.2,
            o.3,
            o.6,
            layouts,
            settings,
            now_ms,
        );
        (
            if o.0 {
                seq![(ss[0].0, o.1)] + rest.0
            } else {
                rest.0
            },
            rest.1,
            rest.2,
            o.4 || rest.3,
            o.5 || rest.4,
            rest.5,
        )
    }
}

/// `v` moved on `n` times.
pub open spec fn bumped(v: u32, n: nat) -> u32
    decreases n,
{
    if n == 0 {
        v
    } else {
        crate::buffer::next_version(bumped(v, (n - 1) as nat))
    }
}

/// The notes left after eviction at `now_ms`.
pub open spec fn evicted(notes: Seq<NoteSlot>, now_ms: u64, settings: RuntimeSettings) -> Seq<NoteSlot> {
    if notes.len() == 0 || settings.flow_speed == 0 {
        notes
    } else {
        surviving(notes, now_ms, settings)
    }
}

/// The note engine.
pub struct NoteSystem {
    enabled: bool,
    settings: RuntimeSettings,
    layouts: Vec<TrackEntry>,
    active_states: Vec<KeyedState>,
    buffer: NoteBuffer,
    next_note_id: u64,
}

impl NoteSystem {
    pub closed spec fn enabled_spec(&self) -> bool {
        self.enabled
    }

    pub closed spec fn settings_spec(&self) -> RuntimeSettings {
        self.settings
    }

    /// Track layouts in force, keyed by track key.
    pub closed spec fn layouts_view(&self) -> Seq<(Seq<char>, TrackLayout)> {
        entries_view(self.layouts@)
    }

    /// Press states, each with its track key, in the order the presses came.
    pub closed spec fn states_view(&self) -> Seq<(Seq<char>, ActiveState)> {
        self.active_states@.map_values(|e: KeyedState| (e.key@, e.state))
    }

    pub closed spec fn buffer_spec(&self) -> NoteBuffer {
        self.buffer
    }

    pub closed spec fn next_id_spec(&self) -> u64 {
        self.next_note_id
    }

    /// The engine's invariant.
    pub closed spec fn wf(&self) -> bool {
        &&& self.buffer.wf()
        &&& keys_unique(self.layouts_view())
        &&& one_held_per_track(self.states_view())
    }

    /// What the invariant says, in terms a caller can use.
    pub proof fn lemma_wf(&self)
        requires
            self.wf(),
        ensures
            self.buffer_spec().wf(),
            keys_unique(self.layouts_view()),
            one_held_per_track(self.states_view()),
    {
    }

    /// A disabled engine with default settings, no layouts and no notes.
    pub fn new() -> (r: Self)
        ensures
            r.wf(),
            !r.enabled_spec(),
            r.settings_spec() == RuntimeSettings::default_spec(),
            r.layouts_view() == Seq::<(Seq<char>, TrackLayout)>::empty(),
            r.states_view() == Seq::<(Seq<char>, ActiveState)>::empty(),
            r.buffer_spec().notes() == Seq::<NoteSlot>::empty(),
            r.buffer_spec().version_spec() == 0,
            r.next_id_spec() == 1,
    {
        let r = NoteSystem {
            enabled: false,
            settings: RuntimeSettings::default_settings(),
            layouts: Vec::new(),
            active_states: Vec::new(),
            buffer: NoteBuffer::new(),
            next_note_id: 1,
        };
        assert(r.layouts_view() =~= Seq::<(Seq<char>, TrackLayout)>::empty());
        assert(r.states_view() =~= Seq::<(Seq<char>, ActiveState)>::empty());
        r
    }

    pub fn enabled(&self) -> (r: bool)
        ensures
            r == self.enabled_spec(),
    {
        self.enabled
    }

    pub fn settings(&self) -> (r: RuntimeSettings)
        ensures
            r == self.settings_spec(),
    {
        self.settings
    }

    pub fn buffer(&self) -> (r: &NoteBuffer)
        ensures
            *r == self.buffer_spec(),
    {
        &self.buffer
    }

    /// Number of press states held.
    pub fn pending_state_count(&self) -> (r: usize)
        ensures
            r == self.states_view().len(),
    {
        self.active_states.len()
    }

    /// The press state at `index`, with its track key.
    pub fn state_at(&self, index: usize) -> (r: (String, ActiveState))
        requires
            index < self.states_view().len(),
        ensures
            r.0@ == self.states_view()[index as int].0,
            r.1 == self.states_view()[index as int].1,
    {
        (self.active_states[index].key.clone(), self.active_states[index].state)
    }

    /// Index of the layout of `key`.
    fn find_layout(&self, key: &String) -> (r: Option<usize>)
        requires
            keys_unique(self.layouts_view()),
        ensures
            match r {
                Some(i) => i < self.layouts_view().len() && self.layouts_view()[i as int].0 == key@
                    && layout_for(self.layouts_view(), key@) == Some(
                    self.layouts_view()[i as int].1,
                ),
                None => layout_for(self.layouts_view(), key@).is_none(),
            },
    {
        entry_index(&self.layouts, key)
    }

    /// Index of the held state of track `key`.
    fn find_held(&self, key: &String) -> (r: Option<usize>)
        ensures
            match r {
                Some(i) => unreleased_at(self.states_view(), key@, i as int),
                None => !has_unreleased(self.states_view(), key@),
            },
    {
        let ghost sv = self.states_view();
        let mut i: usize = 0;
        while i < self.active_states.len()
            invariant
                i <= self.active_states@.len() == sv.len(),
                sv == self.states_view(),
                forall|j: int| 0 <= j < i ==> !unreleased_at(sv, key@, j),
            decreases self.active_states@.len() - i,
        {
            if !self.active_states[i].state.released && self.active_states[i].key == *key {
                return Some(i);
            }
            i = i + 1;
        }
        None
    }

    /// Hands out the next note id.
    fn take_note_id(&mut self) -> (r: u64)
        ensures
            r == old(self).next_note_id,
            final(self).next_note_id == next_id_after(old(self).next_note_id),
            final(self).enabled == old(self).enabled,
            final(self).settings == old(self).settings,
            final(self).layouts == old(self).layouts,
            final(self).active_states == old(self).active_states,
            final(self).buffer == old(self).buffer,
    {
        let id = self.next_note_id;
        self.next_note_id = if id == u64::MAX {
            1
        } else {
            id + 1
        };
        id
    }

    /// A key of track `key` went down at `now_ms`.
    pub fn on_key_down_at(&mut self, key: &str, now_ms: u64) -> (r: Option<NoteMessageType>)
        requires
            old(self).wf(),
        ensures
            final(self).wf(),
            final(self).enabled_spec() == old(self).enabled_spec(),
            final(self).settings_spec() == old(self).settings_spec(),
            final(self).layouts_view() == old(self).layouts_view(),
            ({
                let ss = old(self).states_view();
                let layout = layout_for(old(self).layouts_view(), key@);
                if !old(self).enabled_spec() || layout.is_none() || has_unreleased(ss, key@) {
                    &&& r.is_none()
                    &&& final(self).states_view() == ss
                    &&& final(self).buffer_spec() == old(self).buffer_spec()
                    &&& final(self).next_id_spec() == old(self).next_id_spec()
                } else if old(self).settings_spec().uses_delay() {
                    &&& r.is_none()
                    &&& final(self).states_view() == ss.push((key@, pending_state(now_ms)))
                    &&& final(self).buffer_spec() == old(self).buffer_spec()
                    &&& final(self).next_id_spec() == old(self).next_id_spec()
                } else {
                    let id = old(self).next_id_spec();
                    &&& r == Some(NoteMessageType::Add)
                    &&& final(self).states_view() == ss.push((key@, created_state(now_ms, id)))
                    &&& final(self).buffer_spec().notes() == allocate_result(
                        old(self).buffer_spec().notes(),
                        id,
                        now_ms,
                        layout.unwrap(),
                    )
                    &&& final(self).buffer_spec().version_spec() == version_after(
                        old(self).buffer_spec().version_spec(),
                        allocation_fits(old(self).buffer_spec().notes(), id),
                    )
                    &&& final(self).buffer_spec().key_map() == (if allocation_fits(
                        old(self).buffer_spec().notes(),
                        id,
                    ) {
                        old(self).buffer_spec().key_map().insert(id, key@)
                    } else {
                        old(self).buffer_spec().key_map()
                    })
                    &&& final(self).next_id_spec() == next_id_after(id)
                }
            }),
    {
        if !self.enabled {
            return None;
        }
        let key_string = key.to_owned();
        let use_delay = self.settings.delay_enabled && self.settings.delay_ms > 0;
        let li = match self.find_layout(&key_string) {
            Some(i) => i,
            None => {
                return None;
            },
        };
        if self.find_held(&key_string).is_some() {
            return None;
        }
        let ghost ss = self.states_view();
        if use_delay {
            let st = ActiveState {
                use_delay: true,
                down_time_ms: now_ms,
                release_time_ms: None,
                start_time_ms: None,
                note_id: None,
                created: false,
                released: false,
                released_before_start: false,
                target_end_time_ms: None,
            };
            self.active_states.push(KeyedState { key: key_string, state: st });
            proof {
                self.lemma_push_state(ss, key@, st);
            }
            return None;
        }
        let layout = self.layouts[li].layout;
        let note_id = self.take_note_id();
        let _ = self.buffer.allocate(note_id, key, now_ms, &layout);
        let st = ActiveState {
            use_delay: false,
            down_time_ms: now_ms,
            release_time_ms: None,
            start_time_ms: Some(now_ms),
            note_id: Some(note_id),
            created: true,
            released: false,
            released_before_start: false,
            target_end_time_ms: None,
        };
        self.active_states.push(KeyedState { key: key_string, state: st });
        proof {
            self.lemma_push_state(ss, key@, st);
        }
        Some(NoteMessageType::Add)
    }

    proof fn lemma_push_state(&self, ss: Seq<(Seq<char>, ActiveState)>, key: Seq<char>, st: ActiveState)
        requires
            self.active_states@.len() == ss.len() + 1,
            forall|j: int| 0 <= j < ss.len() ==> (#[trigger] self.active_states@[j]).key@ == ss[j].0
                && self.active_states@[j].state == ss[j].1,
            self.active_states@.last().key@ == key,
            self.active_states@.last().state == st,
            one_held_per_track(ss),
            !has_unreleased(ss, key),
        ensures
            self.states_view() == ss.push((key, st)),
            one_held_per_track(self.states_view()),
    {
        assert(self.states_view() =~= ss.push((key, st)));
        let sv = self.states_view();
        assert forall|i: int, j: int|
            unreleased_at(sv, sv[i].0, i) && unreleased_at(sv, sv[i].0, j) implies i == j by {
            if i < ss.len() && j < ss.len() {
                assert(unreleased_at(ss, ss[i].0, i) && unreleased_at(ss, ss[i].0, j));
            } else if i < ss.len() {
                assert(unreleased_at(ss, key, i));
            } else if j < ss.len() {
                assert(unreleased_at(ss, key, j));
            }
        }
    }

    /// Replaces the state at `i`, keeping its key.
    fn set_state(&mut self, i: usize, st: ActiveState)
        requires
            i < old(self).active_states@.len(),
        ensures
            final(self).states_view() == old(self).states_view().update(
                i as int,
                (old(self).states_view()[i as int].0, st),
            ),
            final(self).enabled == old(self).enabled,
            final(self).settings == old(self).settings,
            final(self).layouts == old(self).layouts,
            final(self).buffer == old(self).buffer,
            final(self).next_note_id == old(self).next_note_id,
    {
        let k = self.active_states[i].key.clone();
        self.active_states.set(i, KeyedState { key: k, state: st });
        assert(self.states_view() =~= old(self).states_view().update(
            i as int,
            (old(self).states_view()[i as int].0, st),
        ));
    }

    /// The end time of a delayed note.
    pub fn compute_target_end_time_ms(
        min_length_ms: u64,
        state: &ActiveState,
        now_ms: u64,
        force_min_length: bool,
    ) -> (r: u64)
        ensures
            r == target_end_spec(min_length_ms as nat, *state, now_ms, force_min_length),
    {
        let start = match state.start_time_ms {
            Some(s) => s,
            None => state.down_time_ms,
        };
        let release = match state.release_time_ms {
            Some(r) => r,
            None => now_ms,
        };
        let baseline = if start <= release {
            start
        } else {
            release
        };
        let held = release - baseline;
        let desired = if force_min_length {
            min_length_ms
        } else if min_length_ms >= held {
            min_length_ms
        } else {
            held
        };
        let safe = if desired >= 1 {
            desired
        } else {
            1
        };
        start.saturating_add(safe)
    }

    /// A key of track `key` went up at `now_ms`.
    pub fn on_key_up_at(&mut self, key: &str, now_ms: u64) -> (r: Option<NoteMessageType>)
        requires
            old(self).wf(),
        ensures
            final(self).wf(),
            final(self).enabled_spec() == old(self).enabled_spec(),
            final(self).settings_spec() == old(self).settings_spec(),
            final(self).layouts_view() == old(self).layouts_view(),
            final(self).next_id_spec() == old(self).next_id_spec(),
            ({
                let ss = old(self).states_view();
                if !old(self).enabled_spec() || !has_unreleased(ss, key@) {
                    &&& r.is_none()
                    &&& final(self).states_view() == ss
                    &&& final(self).buffer_spec() == old(self).buffer_spec()
                } else {
                    let i = choose|i: int| unreleased_at(ss, key@, i);
                    let st = ss[i].1;
                    let rel = ActiveState { released: true, release_time_ms: Some(now_ms), ..st };
                    if !st.use_delay {
                        let emits = st.created && st.note_id.is_some();
                        &&& r == (if emits {
                            Some(NoteMessageType::Finalize)
                        } else {
                            None
                        })
                        &&& final(self).states_view() == ss.remove(i)
                        &&& final(self).buffer_spec().notes() == (if emits {
                            finalize_result(old(self).buffer_spec().notes(), st.note_id.unwrap(), now_ms)
                        } else {
                            old(self).buffer_spec().notes()
                        })
                        &&& final(self).buffer_spec().version_spec() == version_after(
                            old(self).buffer_spec().version_spec(),
                            emits && holds_id(old(self).buffer_spec().notes(), st.note_id.unwrap()),
                        )
                        &&& final(self).buffer_spec().key_map() == old(self).buffer_spec().key_map()
                    } else {
                        let st2 = if !st.created {
                            ActiveState { released_before_start: true, ..rel }
                        } else if st.target_end_time_ms.is_none() {
                            ActiveState {
                                target_end_time_ms: Some(
                                    target_end_spec(
                                        old(self).settings_spec().min_length_ms_spec(),
                                        rel,
                                        now_ms,
                                        false,
                                    ) as u64,
                                ),
                                ..rel
                            }
                        } else {
                            rel
                        };
                        &&& r.is_none()
                        &&& final(self).states_view() == ss.update(i, (key@, st2))
                        &&& final(self).buffer_spec() == old(self).buffer_spec()
                    }
                }
            }),
    {
        if !self.enabled {
            return None;
        }
        let key_string = key.to_owned();
        let i = match self.find_held(&key_string) {
            Some(i) => i,
            None => {
                return None;
            },
        };
        let ghost ss = self.states_view();
        proof {
            let c = choose|c: int| unreleased_at(ss, key@, c);
            assert(unreleased_at(ss, ss[c].0, c) && unreleased_at(ss, ss[c].0, i as int));
        }
        let min_length_ms = self.settings.min_length_ms();
        let mut st = self.active_states[i].state;
        st.released = true;
        st.release_time_ms = Some(now_ms);
        if !st.use_delay {
            let mut emit = false;
            if st.created {
                if let Some(note_id) = st.note_id {
                    let _ = self.buffer.finalize(note_id, now_ms);
                    emit = true;
                }
            }
            self.active_states.remove(i);
            proof {
                assert(self.states_view() =~= ss.remove(i as int));
                lemma_remove_keeps_one_held(ss, i as int);
            }
            return if emit {
                Some(NoteMessageType::Finalize)
            } else {
                None
            };
        } else if !st.created {
            st.released_before_start = true;
        } else if st.target_end_time_ms.is_none() {
            let target = Self::compute_target_end_time_ms(min_length_ms, &st, now_ms, false);
            st.target_end_time_ms = Some(target);
        }
        self.set_state(i, st);
        proof {
            lemma_holds_fewer(ss, self.states_view());
        }
        None
    }

    /// Turns the engine on or off. Turning it off drops every press state and
    /// every note.
    pub fn set_enabled(&mut self, enabled: bool) -> (r: Option<NoteMessageType>)
        requires
            old(self).wf(),
        ensures
            final(self).wf(),
            final(self).enabled_spec() == enabled,
            final(self).settings_spec() == old(self).settings_spec(),
            final(self).layouts_view() == old(self).layouts_view(),
            final(self).next_id_spec() == old(self).next_id_spec(),
            enabled ==> r.is_none() && final(self).states_view() == old(self).states_view()
                && final(self).buffer_spec() == old(self).buffer_spec(),
            !enabled ==> r == Some(NoteMessageType::Clear) && final(self).states_view()
                == Seq::<(Seq<char>, ActiveState)>::empty() && final(self).buffer_spec().notes()
                == Seq::<NoteSlot>::empty() && final(self).buffer_spec().key_map() == Map::<
                u64,
                Seq<char>,
            >::empty() && final(self).buffer_spec().index_map() == Map::<u64, usize>::empty()
                && final(self).buffer_spec().version_spec() == crate::buffer::next_version(
                old(self).buffer_spec().version_spec(),
            ),
            !enabled ==> cleared_from(*old(self), *final(self)),
    {
        self.enabled = enabled;
        if !enabled {
            self.active_states.clear();
            self.buffer.clear();
            assert(self.states_view() =~= Seq::<(Seq<char>, ActiveState)>::empty());
            return Some(NoteMessageType::Clear);
        }
        None
    }

    /// Applies the present fields of `input`.
    pub fn update_settings(&mut self, input: NoteSettingsInput)
        requires
            old(self).wf(),
        ensures
            final(self).wf(),
            final(self).settings_spec() == old(self).settings_spec().patched(input),
            final(self).enabled_spec() == old(self).enabled_spec(),
            final(self).layouts_view() == old(self).layouts_view(),
            final(self).states_view() == old(self).states_view(),
            final(self).buffer_spec() == old(self).buffer_spec(),
            final(self).next_id_spec() == old(self).next_id_spec(),
    {
        if let Some(v) = input.speed {
            self.settings.flow_speed = v;
        }
        if let Some(v) = input.track_height {
            self.settings.track_height = v;
        }
        if let Some(v) = input.delayed_note_enabled {
            self.settings.delay_enabled = v;
        }
        if let Some(v) = input.short_note_threshold_ms {
            self.settings.delay_ms = v;
        }
        if let Some(v) = input.short_note_min_length_px {
            self.settings.short_note_min_length_px = v;
        }
    }

    /// Whether a tick could still change something.
    pub fn has_pending_work(&self) -> (r: bool)
        ensures
            r == (self.enabled_spec() && (self.buffer_spec().notes().len() > 0
                || self.states_view().len() > 0)),
    {
        self.enabled && (self.buffer.active_count() > 0 || self.active_states.len() > 0)
    }

    /// A frame of every live note, tagged with `kind`: the message that
    /// reports a change upstream.
    pub fn frame(&self, kind: NoteMessageType) -> (r: Vec<u8>)
        requires
            self.wf(),
        ensures
            r@ == crate::buffer::frame_bytes(
                kind.code_spec(),
                self.buffer_spec().version_spec(),
                self.buffer_spec().notes(),
            ),
    {
        self.buffer.serialize_active(kind.code())
    }

    /// A frame of every live note, tagged `Sync`.
    pub fn snapshot(&self) -> (r: Vec<u8>)
        requires
            self.wf(),
        ensures
            r@ == crate::buffer::frame_bytes(
                NoteMessageType::Sync.code_spec(),
                self.buffer_spec().version_spec(),
                self.buffer_spec().notes(),
            ),
    {
        self.buffer.serialize_active(NoteMessageType::Sync.code())
    }

    /// Replaces the track layouts. Entries with the note effect turned off or
    /// a width that is not positive are left out; a later entry for a key
    /// replaces an earlier one. Press states and notes are kept.
    pub fn update_track_layouts(&mut self, layouts: Vec<TrackLayoutInput>)
        requires
            old(self).wf(),
        ensures
            final(self).wf(),
            final(self).layouts_view() == layouts_from(
                layouts@.map_values(
                    |e: TrackLayoutInput| (e.track_key@, e.layout, e.note_effect_enabled),
                ),
            ),
            final(self).enabled_spec() == old(self).enabled_spec(),
            final(self).settings_spec() == old(self).settings_spec(),
            final(self).states_view() == old(self).states_view(),
            final(self).buffer_spec() == old(self).buffer_spec(),
            final(self).next_id_spec() == old(self).next_id_spec(),
    {
        let ghost inputs = layouts@.map_values(
            |e: TrackLayoutInput| (e.track_key@, e.layout, e.note_effect_enabled),
        );
        let mut next: Vec<TrackEntry> = Vec::new();
        let mut i: usize = 0;
        proof {
            assert(inputs.subrange(0, 0) =~= Seq::<(Seq<char>, TrackLayout, Option<bool>)>::empty());
            assert(entries_view(next@) =~= Seq::<(Seq<char>, TrackLayout)>::empty());
        }
        while i < layouts.len()
            invariant
                i <= layouts@.len() == inputs.len(),
                inputs == layouts@.map_values(
                    |e: TrackLayoutInput| (e.track_key@, e.layout, e.note_effect_enabled),
                ),
                entries_view(next@) == layouts_from(inputs.subrange(0, i as int)),
                keys_unique(entries_view(next@)),
            decreases layouts@.len() - i,
        {
            let ghost prev = entries_view(next@);
            let entry = &layouts[i];
            let effect_on = match entry.note_effect_enabled {
                Some(false) => false,
                _ => true,
            };
            if effect_on && single_positive(entry.layout.style.width) {
                let key = entry.track_key.clone();
                match entry_index(&next, &key) {
                    Some(j) => {
                        next.set(j, TrackEntry { key, layout: entry.layout });
                        proof {
                            let c = choose|c: int| 0 <= c < prev.len() && prev[c].0 == key@;
                            assert(c != j ==> prev[c].0 != prev[j as int].0);
                            assert(entries_view(next@) =~= prev.update(j as int, (key@, entry.layout)));
                        }
                    },
                    None => {
                        next.push(TrackEntry { key, layout: entry.layout });
                        proof {
                            assert(entries_view(next@) =~= prev.push((key@, entry.layout)));
                        }
                    },
                }
            }
            proof {
                let sub = inputs.subrange(0, i + 1);
                assert(sub.drop_last() =~= inputs.subrange(0, i as int));
                assert(sub.last() == inputs[i as int]);
            }
            i = i + 1;
        }
        proof {
            assert(inputs.subrange(0, inputs.len() as int) =~= inputs);
        }
        self.layouts = next;
    }

    /// Drops every finished note that has fallen past the track and its
    /// margin. Returns whether any was dropped.
    fn cleanup_notes(&mut self, now_ms: u64) -> (r: bool)
        requires
            old(self).wf(),
        ensures
            final(self).wf(),
            final(self).enabled == old(self).enabled,
            final(self).settings == old(self).settings,
            final(self).layouts == old(self).layouts,
            final(self).active_states == old(self).active_states,
            final(self).next_note_id == old(self).next_note_id,
            ({
                let s = old(self).buffer.notes();
                if s.len() == 0 || old(self).settings.flow_speed == 0 {
                    !r && final(self).buffer == old(self).buffer
                } else {
                    &&& final(self).buffer.notes() == surviving(s, now_ms, old(self).settings)
                    &&& r == (final(self).buffer.notes().len() < s.len())
                    &&& final(self).buffer.version_spec() == bumped(
                        old(self).buffer.version_spec(),
                        (s.len() - final(self).buffer.notes().len()) as nat,
                    )
                }
            }),
    {
        if self.buffer.active_count() == 0 {
            return false;
        }
        if self.settings.flow_speed == 0 {
            return false;
        }
        let flow_speed = self.settings.flow_speed as u64;
        let threshold: u64 = (self.settings.track_height as u64 + CLEANUP_MARGIN_PX) * 1000;
        let start_count = self.buffer.active_count();
        let ghost s0 = self.buffer.notes();
        let ghost settings = self.settings;
        let mut idx: usize = 0;
        let ghost mut consumed: int = 0;
        proof {
            assert(s0.subrange(0, 0) =~= Seq::<NoteSlot>::empty());
            assert(s0.subrange(0, s0.len() as int) =~= s0);
        }
        while idx < self.buffer.active_count()
            invariant
                self.buffer.wf(),
                self.enabled == old(self).enabled,
                self.settings == old(self).settings,
                settings == self.settings,
                self.layouts == old(self).layouts,
                self.active_states == old(self).active_states,
                self.next_note_id == old(self).next_note_id,
                s0 == old(self).buffer.notes(),
                flow_speed == settings.flow_speed,
                threshold == (settings.track_height + CLEANUP_MARGIN_PX) * 1000,
                0 <= consumed <= s0.len(),
                idx <= consumed,
                self.buffer.version_spec() == bumped(old(self).buffer.version_spec(), (consumed - idx) as nat),
                idx == surviving(s0.subrange(0, consumed), now_ms, settings).len(),
                self.buffer.notes() == surviving(s0.subrange(0, consumed), now_ms, settings)
                    + s0.subrange(consumed, s0.len() as int),
            decreases s0.len() - consumed,
        {
            proof {
                self.buffer.lemma_wf();
            }
            let note = self.buffer.note_at(idx);
            let ghost pre = self.buffer.notes();
            proof {
                assert(note == s0[consumed]);
                let sub = s0.subrange(0, consumed + 1);
                assert(sub.drop_last() =~= s0.subrange(0, consumed));
                assert(sub.last() == s0[consumed]);
            }
            let mut due = false;
            if note.end_time_ms != 0 && now_ms >= note.end_time_ms {
                let elapsed = (now_ms - note.end_time_ms) as u128;
                let speed = flow_speed as u128;
                assert(elapsed * speed <= 0xFFFF_FFFF_FFFF_FFFF * 0xFFFF_FFFF) by (nonlinear_arith)
                    requires
                        elapsed <= 0xFFFF_FFFF_FFFF_FFFF,
                        speed <= 0xFFFF_FFFF,
                ;
                due = elapsed * speed >= threshold as u128;
            }
            assert(due == is_due(note, now_ms, settings));
            if due {
                let r = self.buffer.release(note.note_id);
                proof {
                    assert(holds_id(pre, note.note_id));
                    assert(pre[r as int].note_id == pre[idx as int].note_id);
                    assert(r == idx);
                    assert(self.buffer.notes() =~= surviving(s0.subrange(0, consumed + 1), now_ms, settings)
                        + s0.subrange(consumed + 1, s0.len() as int));
                    consumed = consumed + 1;
                }
            } else {
                proof {
                    assert(pre =~= surviving(s0.subrange(0, consumed + 1), now_ms, settings)
                        + s0.subrange(consumed + 1, s0.len() as int));
                    consumed = consumed + 1;
                }
                idx = idx + 1;
            }
        }
        proof {
            lemma_surviving_len(s0, now_ms, settings);
            assert(s0.subrange(0, consumed) =~= s0);
        }
        idx < start_count
    }

    /// Moves the state at `idx` along at `now_ms`: a deferred press whose start
    /// has come gets its note (or is dropped when its track has no layout), and
    /// a released delayed note whose end has come is finalized at that end.
    /// Returns whether the state is done, whether a note was added, and
    /// whether one was finalized.
    fn advance_state(&mut self, idx: usize, now_ms: u64, min_length_ms: u64) -> (r: (
        bool,
        bool,
        bool,
    ))
        requires
            old(self).wf(),
            idx < old(self).active_states@.len(),
            min_length_ms == old(self).settings.min_length_ms_spec(),
        ensures
            final(self).buffer.wf(),
            keys_unique(final(self).layouts_view()),
            final(self).enabled == old(self).enabled,
            final(self).settings == old(self).settings,
            final(self).layouts == old(self).layouts,
            holds_fewer(old(self).states_view(), final(self).states_view()),
            forall|j: int|
                0 <= j < old(self).states_view().len() && j != idx ==> final(self).states_view()[j]
                    == old(self).states_view()[j],
            !r.0 ==> settled(final(self).states_view()[idx as int].1, now_ms, old(self).settings.delay_ms),
            ({
                let o = advance(
                    old(self).states_view()[idx as int].0,
                    old(self).states_view()[idx as int].1,
                    old(self).buffer.notes(),
                    old(self).next_note_id,
                    old(self).buffer.version_spec(),
                    old(self).layouts_view(),
                    old(self).settings,
                    now_ms,
                );
                &&& r == (!o.0, o.4, o.5)
                &&& o.0 ==> final(self).states_view()[idx as int] == (old(self).states_view()[idx as int].0, o.1)
                &&& final(self).buffer.notes() == o.2
                &&& final(self).next_note_id == o.3
                &&& final(self).buffer.version_spec() == o.6
            }),
    {
        let ghost ss = self.states_view();
        let mut st = self.active_states[idx].state;
        let mut remove = false;
        let mut added = false;
        let mut finalized = false;
        if st.use_delay && !st.created {
            let scheduled = st.down_time_ms.saturating_add(self.settings.delay_ms as u64);
            if now_ms >= scheduled {
                let key = self.active_states[idx].key.clone();
                match self.find_layout(&key) {
                    Some(li) => {
                        let layout = self.layouts[li].layout;
                        let note_id = self.take_note_id();
                        let _ = self.buffer.allocate(note_id, key.as_str(), scheduled, &layout);
                        st.note_id = Some(note_id);
                        st.created = true;
                        st.start_time_ms = Some(scheduled);
                        added = true;
                        if st.released {
                            let force_min = st.released_before_start;
                            let target = Self::compute_target_end_time_ms(
                                min_length_ms,
                                &st,
                                now_ms,
                                force_min,
                            );
                            st.target_end_time_ms = Some(target);
                            st.released_before_start = false;
                        }
                    },
                    None => {
                        remove = true;
                    },
                }
            }
        }
        if !remove && st.use_delay && st.created && st.released {
            if let Some(target_end) = st.target_end_time_ms {
                if now_ms >= target_end {
                    if let Some(note_id) = st.note_id {
                        let _ = self.buffer.finalize(note_id, target_end);
                        finalized = true;
                    }
                    remove = true;
                }
            }
        }
        if !remove {
            self.set_state(idx, st);
        }
        proof {
            lemma_holds_fewer(ss, self.states_view());
        }
        (remove, added, finalized)
    }

    /// Advances every press state and drops notes that have left the track.
    /// Reports the most salient change: `Cleanup`, then `Finalize`, then
    /// `Add`.
    pub fn tick(&mut self, now_ms: u64) -> (r: Option<NoteMessageType>)
        requires
            old(self).wf(),
        ensures
            final(self).wf(),
            final(self).enabled_spec() == old(self).enabled_spec(),
            final(self).settings_spec() == old(self).settings_spec(),
            final(self).layouts_view() == old(self).layouts_view(),
            !old(self).enabled_spec() ==> r.is_none() && final(self).states_view()
                == old(self).states_view() && final(self).buffer_spec() == old(self).buffer_spec()
                && final(self).next_id_spec() == old(self).next_id_spec(),
            old(self).enabled_spec() ==> {
                &&& final(self).states_view().len() <= old(self).states_view().len()
                &&& forall|i: int|
                    0 <= i < final(self).states_view().len() ==> settled(
                        #[trigger] final(self).states_view()[i].1,
                        now_ms,
                        old(self).settings_spec().delay_ms,
                    )
                &&& old(self).settings_spec().flow_speed > 0 ==> forall|i: int|
                    0 <= i < final(self).buffer_spec().notes().len() ==> !is_due(
                        #[trigger] final(self).buffer_spec().notes()[i],
                        now_ms,
                        old(self).settings_spec(),
                    )
                &&& r.is_none() || r == Some(NoteMessageType::Add) || r == Some(
                    NoteMessageType::Finalize,
                ) || r == Some(NoteMessageType::Cleanup)
                &&& old(self).states_view().len() == 0 && (forall|i: int|
                    0 <= i < old(self).buffer_spec().notes().len() ==> !is_due(
                        #[trigger] old(self).buffer_spec().notes()[i],
                        now_ms,
                        old(self).settings_spec(),
                    )) ==> r.is_none() && final(self).states_view() == old(self).states_view()
                    && final(self).buffer_spec().notes() == old(self).buffer_spec().notes()
                &&& ({
                    let a = advance_all(
                        old(self).states_view(),
                        old(self).buffer_spec().notes(),
                        old(self).next_id_spec(),
                        old(self).buffer_spec().version_spec(),
                        old(self).layouts_view(),
                        old(self).settings_spec(),
                        now_ms,
                    );
                    &&& final(self).states_view() == a.0
                    &&& final(self).next_id_spec() == a.2
                    &&& final(self).buffer_spec().notes() == evicted(a.1, now_ms, old(self).settings_spec())
                    &&& final(self).buffer_spec().version_spec() == bumped(
                        a.5,
                        (a.1.len() - final(self).buffer_spec().notes().len()) as nat,
                    )
                    &&& r == (if final(self).buffer_spec().notes().len() < a.1.len() {
                        Some(NoteMessageType::Cleanup)
                    } else if a.4 {
                        Some(NoteMessageType::Finalize)
                    } else if a.3 {
                        Some(NoteMessageType::Add)
                    } else {
                        None
                    })
                })
            },
    {
        if !self.enabled {
            return None;
        }
        let min_length_ms = self.settings.min_length_ms();
        let mut added = false;
        let mut finalized = false;
        let mut idx: usize = 0;
        proof {
            let cur = self.states_view();
            assert(cur.subrange(0, cur.len() as int) =~= cur);
            let a = advance_all(cur, self.buffer.notes(), self.next_note_id, self.buffer.version_spec(), self.layouts_view(), self.settings, now_ms);
            assert(cur.subrange(0, 0) + a.0 =~= a.0);
        }
        while idx < self.active_states.len()
            invariant
                self.wf(),
                idx <= self.active_states@.len() <= old(self).active_states@.len(),
                self.enabled == old(self).enabled,
                self.settings == old(self).settings,
                self.layouts == old(self).layouts,
                min_length_ms == self.settings.min_length_ms_spec(),
                forall|i: int|
                    0 <= i < idx ==> settled(
                        #[trigger] self.states_view()[i].1,
                        now_ms,
                        self.settings.delay_ms,
                    ),
                old(self).active_states@.len() == 0 ==> self.active_states@.len() == 0
                    && self.buffer == old(self).buffer && !added && !finalized,
                ({
                    let a = advance_all(
                        old(self).states_view(),
                        old(self).buffer.notes(),
                        old(self).next_note_id,
                        old(self).buffer.version_spec(),
                        old(self).layouts_view(),
                        old(self).settings,
                        now_ms,
                    );
                    let cur = self.states_view();
                    let q = advance_all(
                        cur.subrange(idx as int, cur.len() as int),
                        self.buffer.notes(),
                        self.next_note_id,
                        self.buffer.version_spec(),
                        old(self).layouts_view(),
                        old(self).settings,
                        now_ms,
                    );
                    &&& a.0 == cur.subrange(0, idx as int) + q.0
                    &&& a.1 == q.1
                    &&& a.2 == q.2
                    &&& a.3 == (added || q.3)
                    &&& a.4 == (finalized || q.4)
                    &&& a.5 == q.5
                }),
            decreases self.active_states@.len() - idx,
        {
            let ghost ss = self.states_view();
            let ghost notes0 = self.buffer.notes();
            let ghost id0 = self.next_note_id;
            let ghost v0 = self.buffer.version_spec();
            let ghost o = advance(ss[idx as int].0, ss[idx as int].1, notes0, id0, v0, old(self).layouts_view(), old(self).settings, now_ms);
            proof {
                let tail = ss.subrange(idx as int, ss.len() as int);
                assert(tail.subrange(1, tail.len() as int) =~= ss.subrange(idx + 1, ss.len() as int));
                assert(tail[0] == ss[idx as int]);
            }
            let step = self.advance_state(idx, now_ms, min_length_ms);
            proof {
                lemma_holds_fewer(ss, self.states_view());
            }
            if step.0 {
                let ghost sv = self.states_view();
                self.active_states.remove(idx);
                proof {
                    assert(self.states_view() =~= sv.remove(idx as int));
                    lemma_remove_keeps_one_held(sv, idx as int);
                    let cur = self.states_view();
                    assert(cur.subrange(0, idx as int) =~= ss.subrange(0, idx as int));
                    assert(cur.subrange(idx as int, cur.len() as int) =~= ss.subrange(idx + 1, ss.len() as int));
                }
            } else {
                proof {
                    let cur = self.states_view();
                    assert(cur.subrange(0, idx + 1) =~= ss.subrange(0, idx as int) + seq![(ss[idx as int].0, o.1)]);
                    assert(cur.subrange(idx + 1, cur.len() as int) =~= ss.subrange(idx + 1, ss.len() as int));
                    assert(ss.subrange(0, idx as int) + seq![(ss[idx as int].0, o.1)] + advance_all(
                        ss.subrange(idx + 1, ss.len() as int), o.2, o.3, o.6, old(self).layouts_view(), old(self).settings, now_ms).0
                        =~= ss.subrange(0, idx as int) + (seq![(ss[idx as int].0, o.1)] + advance_all(
                        ss.subrange(idx + 1, ss.len() as int), o.2, o.3, o.6, old(self).layouts_view(), old(self).settings, now_ms).0));
                }
                idx = idx + 1;
            }
            added = added || step.1;
            finalized = finalized || step.2;
        }
        let ghost mid = self.buffer.notes();
        proof {
            let cur = self.states_view();
            assert(cur.subrange(idx as int, cur.len() as int) =~= Seq::<(Seq<char>, ActiveState)>::empty());
            assert(cur.subrange(0, idx as int) =~= cur);
            assert(cur + Seq::<(Seq<char>, ActiveState)>::empty() =~= cur);
        }
        let cleaned = self.cleanup_notes(now_ms);
        proof {
            lemma_surviving_not_due(mid, now_ms, self.settings);
            if (forall|i: int| 0 <= i < mid.len() ==> !is_due(#[trigger] mid[i], now_ms, self.settings)) {
                lemma_surviving_all(mid, now_ms, self.settings);
            }
            if self.settings.flow_speed == 0 {
                assert forall|i: int| 0 <= i < mid.len() implies !is_due(#[trigger] mid[i], now_ms, self.settings) by {
                    let n = mid[i];
                    if n.end_time_ms != 0 && now_ms >= n.end_time_ms {
                        assert((now_ms - n.end_time_ms) * self.settings.flow_speed == 0) by (nonlinear_arith)
                            requires self.settings.flow_speed == 0;
                    }
                }
            }
            if old(self).active_states@.len() == 0 {
                assert(self.states_view() =~= old(self).states_view());
            }
        }
        if cleaned {
            return Some(NoteMessageType::Cleanup);
        }
        if finalized {
            return Some(NoteMessageType::Finalize);
        }
        if added {
            return Some(NoteMessageType::Add);
        }
        None
    }
}

/// A deferred press released before its start: the tick that gives it its
/// note sets its end to `start + max(min_length, 1)`, `start` being the
/// scheduled start, and finalizes the note there once that time has come.
pub proof fn lemma_released_before_start_end(
    key: Seq<char>,
    st: ActiveState,
    notes: Seq<NoteSlot>,
    id: u64,
    version: u32,
    layouts: Seq<(Seq<char>, TrackLayout)>,
    settings: RuntimeSettings,
    now_ms: u64,
)
    requires
        start_due(st, now_ms, settings.delay_ms),
        layout_for(layouts, key).is_some(),
        st.released,
        st.released_before_start,
        scheduled_start(st, settings.delay_ms) + settings.min_length_ms_spec() + 1 <= u64::MAX,
    ensures
        ({
            let o = advance(key, st, notes, id, version, layouts, settings, now_ms);
            let start = scheduled_start(st, settings.delay_ms);
            let m = settings.min_length_ms_spec();
            let end = start + (if m >= 1 {
                m
            } else {
                1
            });
            &&& o.4
            &&& o.1.start_time_ms == Some(start as u64)
            &&& o.1.target_end_time_ms == Some(end as u64)
            &&& now_ms >= end ==> !o.0 && o.5 && o.2 == finalize_result(
                allocate_result(notes, id, start as u64, layout_for(layouts, key).unwrap()),
                id,
                end as u64,
            )
        }),
{
}

/// A delayed note already on screen and released at `up_ms`: the release sets
/// its end to `start + max(max(min_length, held), 1)`, held being the time from
/// start to release, and the first tick at or after that end finalizes the
/// note there.
pub proof fn lemma_held_delayed_end(
    key: Seq<char>,
    st: ActiveState,
    notes: Seq<NoteSlot>,
    id: u64,
    version: u32,
    layouts: Seq<(Seq<char>, TrackLayout)>,
    settings: RuntimeSettings,
    up_ms: u64,
    now_ms: u64,
)
    requires
        st.use_delay,
        st.created,
        !st.released,
        st.start_time_ms.is_some(),
        st.note_id.is_some(),
        st.start_time_ms.unwrap() + settings.min_length_ms_spec() + up_ms + 1 <= u64::MAX,
    ensures
        ({
            let rel = ActiveState { released: true, release_time_ms: Some(up_ms), ..st };
            let target = target_end_spec(settings.min_length_ms_spec(), rel, up_ms, false);
            let after_up = ActiveState { target_end_time_ms: Some(target as u64), ..rel };
            let start = st.start_time_ms.unwrap() as int;
            let held = if up_ms > start {
                up_ms - start
            } else {
                0
            };
            let m = if settings.min_length_ms_spec() >= held {
                settings.min_length_ms_spec() as int
            } else {
                held
            };
            let o = advance(key, after_up, notes, id, version, layouts, settings, now_ms);
            &&& target == start + (if m >= 1 {
                m
            } else {
                1
            })
            &&& now_ms >= target ==> !o.0 && o.5 && o.2 == finalize_result(
                notes,
                st.note_id.unwrap(),
                target as u64,
            )
            &&& now_ms < target ==> o.0 && !o.5 && o.2 == notes
        }),
{
}

/// `post` is `pre` turned off: no press states, no notes, the version moved
/// on once, everything else kept.
pub open spec fn cleared_from(pre: NoteSystem, post: NoteSystem) -> bool {
    &&& !post.enabled_spec()
    &&& post.settings_spec() == pre.settings_spec()
    &&& post.layouts_view() == pre.layouts_view()
    &&& post.next_id_spec() == pre.next_id_spec()
    &&& post.states_view() == Seq::<(Seq<char>, ActiveState)>::empty()
    &&& post.buffer_spec().notes() == Seq::<NoteSlot>::empty()
    &&& post.buffer_spec().key_map() == Map::<u64, Seq<char>>::empty()
    &&& post.buffer_spec().index_map() == Map::<u64, usize>::empty()
    &&& post.buffer_spec().version_spec() == crate::buffer::next_version(
        pre.buffer_spec().version_spec(),
    )
}

/// Turning the engine off twice leaves it as turning it off once does, the
/// version aside; both calls report `Clear`.
pub proof fn lemma_disable_idempotent(a: NoteSystem, b: NoteSystem, c: NoteSystem)
    requires
        cleared_from(a, b),
        cleared_from(b, c),
    ensures
        c.enabled_spec() == b.enabled_spec(),
        c.settings_spec() == b.settings_spec(),
        c.layouts_view() == b.layouts_view(),
        c.next_id_spec() == b.next_id_spec(),
        c.states_view() == b.states_view(),
        c.buffer_spec().notes() == b.buffer_spec().notes(),
        c.buffer_spec().key_map() == b.buffer_spec().key_map(),
        c.buffer_spec().index_map() == b.buffer_spec().index_map(),
{
}

/// The end time of a delayed note is `start + max(max(min_length, held), 1)`;
/// when the key went up before the note started it is `start + min_length`
/// (for a minimum length of at least 1 ms). Times here stay below `u64::MAX`.
pub proof fn lemma_delayed_end(min_length_ms: nat, st: ActiveState, now_ms: u64)
    requires
        st.start_time_ms.is_some(),
        st.release_time_ms.is_some(),
        st.start_time_ms.unwrap() + min_length_ms + st.release_time_ms.unwrap() + 1 <= u64::MAX,
    ensures
        ({
            let start = st.start_time_ms.unwrap() as int;
            let release = st.release_time_ms.unwrap() as int;
            let held = if release > start {
                release - start
            } else {
                0
            };
            let m = if min_length_ms >= held {
                min_length_ms as int
            } else {
                held
            };
            target_end_spec(min_length_ms, st, now_ms, false) == start + (if m >= 1 {
                m
            } else {
                1
            })
        }),
        min_length_ms >= 1 ==> target_end_spec(min_length_ms, st, now_ms, true)
            == st.start_time_ms.unwrap() + min_length_ms,
{
}

proof fn lemma_surviving_not_due(s: Seq<NoteSlot>, now_ms: u64, settings: RuntimeSettings)
    ensures
        forall|i: int|
            0 <= i < surviving(s, now_ms, settings).len() ==> !is_due(
                #[trigger] surviving(s, now_ms, settings)[i],
                now_ms,
                settings,
            ),
    decreases s.len(),
{
    if s.len() > 0 {
        lemma_surviving_not_due(s.drop_last(), now_ms, settings);
        let p = surviving(s.drop_last(), now_ms, settings);
        let q = surviving(s, now_ms, settings);
        assert forall|i: int| 0 <= i < q.len() implies !is_due(#[trigger] q[i], now_ms, settings) by {
            if i < p.len() {
                assert(q[i] == p[i]);
            }
        }
    }
}

proof fn lemma_surviving_all(s: Seq<NoteSlot>, now_ms: u64, settings: RuntimeSettings)
    requires
        forall|i: int| 0 <= i < s.len() ==> !is_due(#[trigger] s[i], now_ms, settings),
    ensures
        surviving(s, now_ms, settings) == s,
    decreases s.len(),
{
    if s.len() > 0 {
        let p = s.drop_last();
        assert forall|i: int| 0 <= i < p.len() implies !is_due(#[trigger] p[i], now_ms, settings) by {
            assert(p[i] == s[i]);
        }
        lemma_surviving_all(p, now_ms, settings);
        assert(s.last() == s[s.len() - 1]);
        assert(p.push(s.last()) =~= s);
    }
}

proof fn lemma_surviving_len(s: Seq<NoteSlot>, now_ms: u64, settings: RuntimeSettings)
    ensures
        surviving(s, now_ms, settings).len() <= s.len(),
    decreases s.len(),
{
    if s.len() > 0 {
        lemma_surviving_len(s.drop_last(), now_ms, settings);
    }
}

} // verus!
