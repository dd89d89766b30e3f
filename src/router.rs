//! Host-side routing of input records: matching labels to tracks, suppressing
//! autorepeat, and counting raw-input subscribers.

use vstd::prelude::*;

use crate::ipc::{HookKeyState, HookMessage};
use crate::labels::labels_view;

verus! {

/// `labels[i]` is the first label that `valid` holds.
pub open spec fn is_first_match(labels: Seq<Seq<char>>, valid: Seq<Seq<char>>, i: int) -> bool {
    &&& 0 <= i < labels.len()
    &&& valid.contains(labels[i])
    &&& forall|j: int| 0 <= j < i ==> !valid.contains(labels[j])
}

/// Whether `valid` holds a string equal to `s`.
fn holds_string(valid: &Vec<String>, s: &String) -> (r: bool)
    ensures
        r == labels_view(valid@).contains(s@),
{
    let ghost vv = labels_view(valid@);
    let mut i: usize = 0;
    while i < valid.len()
        invariant
            i <= valid@.len() == vv.len(),
            vv == labels_view(valid@),
            forall|j: int| 0 <= j < i ==> vv[j] != s@,
        decreases valid@.len() - i,
    {
        assert(vv[i as int] == valid@[i as int]@);
        if valid[i] == *s {
            return true;
        }
        i = i + 1;
    }
    false
}

/// The first label of `labels` that is one of `valid_keys`.
pub fn match_candidate(valid_keys: &Vec<String>, labels: &Vec<String>) -> (r: Option<String>)
    ensures
        match r {
            Some(k) => exists|i: int|
                is_first_match(labels_view(labels@), labels_view(valid_keys@), i) && k@
                    == labels_view(labels@)[i],
            None => forall|i: int|
                0 <= i < labels@.len() ==> !labels_view(valid_keys@).contains(
                    #[trigger] labels_view(labels@)[i],
                ),
        },
{
    let ghost lv = labels_view(labels@);
    let ghost vv = labels_view(valid_keys@);
    let mut i: usize = 0;
    while i < labels.len()
        invariant
            i <= labels@.len() == lv.len(),
            lv == labels_view(labels@),
            vv == labels_view(valid_keys@),
            forall|j: int| 0 <= j < i ==> !vv.contains(lv[j]),
        decreases labels@.len() - i,
    {
        if holds_string(valid_keys, &labels[i]) {
            let k = labels[i].clone();
            assert(is_first_match(lv, vv, i as int));
            return Some(k);
        }
        i = i + 1;
    }
    None
}

/// The set of (mode, key) pairs currently held down.
pub struct ActiveKeys {
    entries: Vec<(String, String)>,
}

/// Views of (mode, key) pairs.
pub open spec fn pairs_view(v: Seq<(String, String)>) -> Seq<(Seq<char>, Seq<char>)> {
    v.map_values(|p: (String, String)| (p.0@, p.1@))
}

impl ActiveKeys {
    /// The pairs held down.
    pub closed spec fn view_set(&self) -> Set<(Seq<char>, Seq<char>)> {
        pairs_view(self.entries@).to_set()
    }

    /// No pair is listed twice.
    pub closed spec fn wf(&self) -> bool {
        pairs_view(self.entries@).no_duplicates()
    }

    pub fn new() -> (r: Self)
        ensures
            r.wf(),
            r.view_set() == Set::<(Seq<char>, Seq<char>)>::empty(),
    {
        let r = ActiveKeys { entries: Vec::new() };
        assert(pairs_view(r.entries@) =~= Seq::<(Seq<char>, Seq<char>)>::empty());
        assert(r.view_set() =~= Set::<(Seq<char>, Seq<char>)>::empty());
        r
    }

    fn position(&self, mode: &String, key: &String) -> (r: Option<usize>)
        ensures
            match r {
                Some(i) => i < self.entries@.len() && pairs_view(self.entries@)[i as int] == (
                mode@,
                key@,
                ),
                None => !pairs_view(self.entries@).contains((mode@, key@)),
            },
    {
        let ghost pv = pairs_view(self.entries@);
        let mut i: usize = 0;
        while i < self.entries.len()
            invariant
                i <= self.entries@.len() == pv.len(),
                pv == pairs_view(self.entries@),
                forall|j: int| 0 <= j < i ==> pv[j] != (mode@, key@),
            decreases self.entries@.len() - i,
        {
            assert(pv[i as int] == (self.entries@[i as int].0@, self.entries@[i as int].1@));
            if self.entries[i].0 == *mode && self.entries[i].1 == *key {
                return Some(i);
            }
            i = i + 1;
        }
        None
    }

    /// Marks `(mode, key)` as held. Returns whether it was not held before:
    /// a repeated press of a held key is autorepeat.
    pub fn register_key_down(&mut self, mode: &str, key: &str) -> (r: bool)
        requires
            old(self).wf(),
        ensures
            final(self).wf(),
            r == !old(self).view_set().contains((mode@, key@)),
            final(self).view_set() == old(self).view_set().insert((mode@, key@)),
    {
        let m = mode.to_owned();
        let k = key.to_owned();
        let ghost pv = pairs_view(self.entries@);
        match self.position(&m, &k) {
            Some(i) => {
                assert(pv.contains((mode@, key@)));
                assert(old(self).view_set().insert((mode@, key@)) =~= old(self).view_set());
                false
            },
            None => {
                self.entries.push((m, k));
                proof {
                    assert(pairs_view(self.entries@) =~= pv.push((mode@, key@)));
                    assert(pv.push((mode@, key@)).to_set() =~= pv.to_set().insert((mode@, key@)))
                        by {
                        let q = pv.push((mode@, key@));
                        assert forall|x| q.to_set().contains(x) <==> pv.to_set().insert(
                            (mode@, key@),
                        ).contains(x) by {
                            if q.contains(x) && x != (mode@, key@) {
                                let j = choose|j: int| 0 <= j < q.len() && q[j] == x;
                                assert(pv[j] == x);
                            }
                            if pv.contains(x) {
                                let j = choose|j: int| 0 <= j < pv.len() && pv[j] == x;
                                assert(q[j] == x);
                            }
                            if x == (mode@, key@) {
                                assert(q[pv.len() as int] == x);
                            }
                        }
                    }
                    let q = pv.push((mode@, key@));
                    assert forall|a: int, b: int|
                        0 <= a < q.len() && 0 <= b < q.len() && a != b implies q[a] != q[b] by {
                        if a < pv.len() && b < pv.len() {
                            assert(pv[a] != pv[b]);
                        } else if a < pv.len() {
                            assert(pv[a] != (mode@, key@));
                        } else if b < pv.len() {
                            assert(pv[b] != (mode@, key@));
                        }
                    }
                }
                true
            },
        }
    }

    /// Marks `(mode, key)` as released. Returns whether it was held.
    pub fn register_key_up(&mut self, mode: &str, key: &str) -> (r: bool)
        requires
            old(self).wf(),
        ensures
            final(self).wf(),
            r == old(self).view_set().contains((mode@, key@)),
            final(self).view_set() == old(self).view_set().remove((mode@, key@)),
    {
        let m = mode.to_owned();
        let k = key.to_owned();
        let ghost pv = pairs_view(self.entries@);
        match self.position(&m, &k) {
            Some(i) => {
                self.entries.remove(i);
                proof {
                    let q = pv.remove(i as int);
                    assert(pairs_view(self.entries@) =~= q);
                    assert forall|a: int, b: int|
                        0 <= a < q.len() && 0 <= b < q.len() && a != b implies q[a] != q[b] by {
                        let aa = if a < i { a } else { a + 1 };
                        let bb = if b < i { b } else { b + 1 };
                        assert(pv[aa] != pv[bb]);
                    }
                    assert forall|x| q.to_set().contains(x) <==> pv.to_set().remove(
                        (mode@, key@),
                    ).contains(x) by {
                        if q.contains(x) {
                            let j = choose|j: int| 0 <= j < q.len() && q[j] == x;
                            let jj = if j < i { j } else { j + 1 };
                            assert(pv[jj] == x);
                            assert(jj != i);
                        }
                        if pv.contains(x) && x != (mode@, key@) {
                            let j = choose|j: int| 0 <= j < pv.len() && pv[j] == x;
                            assert(j != i);
                            let jj = if j < i { j } else { j - 1 };
                            assert(q[jj] == x);
                        }
                    }
                    assert(q.to_set() =~= pv.to_set().remove((mode@, key@)));
                    assert(pv.contains((mode@, key@)));
                }
                true
            },
            None => {
                assert(old(self).view_set().remove((mode@, key@)) =~= old(self).view_set());
                false
            },
        }
    }

    /// Forgets every held pair.
    pub fn clear_active_keys(&mut self)
        ensures
            final(self).wf(),
            final(self).view_set() == Set::<(Seq<char>, Seq<char>)>::empty(),
    {
        self.entries.clear();
        assert(pairs_view(self.entries@) =~= Seq::<(Seq<char>, Seq<char>)>::empty());
        assert(self.view_set() =~= Set::<(Seq<char>, Seq<char>)>::empty());
    }
}

/// Number of raw-input subscribers.
pub struct RawInputSubscribers {
    count: u32,
}

impl RawInputSubscribers {
    pub closed spec fn count_spec(&self) -> u32 {
        self.count
    }

    pub fn new() -> (r: Self)
        ensures
            r.count_spec() == 0,
    {
        RawInputSubscribers { count: 0 }
    }

    /// Adds a subscriber; returns the new count.
    pub fn subscribe_raw_input(&mut self) -> (r: u32)
        ensures
            r == final(self).count_spec(),
            r == (if old(self).count_spec() == u32::MAX {
                0
            } else {
                (old(self).count_spec() + 1) as u32
            }),
    {
        self.count = self.count.wrapping_add(1);
        self.count
    }

    /// Removes a subscriber, never going below zero; returns the new count.
    pub fn unsubscribe_raw_input(&mut self) -> (r: u32)
        ensures
            r == final(self).count_spec(),
            r == (if old(self).count_spec() == 0 {
                0
            } else {
                (old(self).count_spec() - 1) as u32
            }),
    {
        if self.count > 0 {
            self.count = self.count - 1;
        }
        self.count
    }

    pub fn raw_input_subscriber_count(&self) -> (r: u32)
        ensures
            r == self.count_spec(),
    {
        self.count
    }
}

/// Press counters keyed by mode and key, as (mode, key, count) views.
pub open spec fn counters_view(v: Seq<CounterEntry>) -> Seq<(Seq<char>, Seq<char>, u32)> {
    v.map_values(|e: CounterEntry| (e.mode@, e.key@, e.count))
}

/// The count of `(mode, key)`, zero when it has none.
pub open spec fn count_of(c: Seq<(Seq<char>, Seq<char>, u32)>, mode: Seq<char>, key: Seq<char>) -> u32 {
    if exists|i: int| 0 <= i < c.len() && c[i].0 == mode && c[i].1 == key {
        let i = choose|i: int| 0 <= i < c.len() && c[i].0 == mode && c[i].1 == key;
        c[i].2
    } else {
        0
    }
}

/// Each (mode, key) has at most one counter.
pub open spec fn counters_unique(c: Seq<(Seq<char>, Seq<char>, u32)>) -> bool {
    forall|i: int, j: int|
        0 <= i < c.len() && 0 <= j < c.len() && i != j ==> c[i].0 != c[j].0 || c[i].1 != c[j].1
}

/// `post` is `pre` after one counted press of `(mode, key)` that returned `r`.
pub open spec fn counted(pre: KeyCounters, post: KeyCounters, mode: Seq<char>, key: Seq<char>, r: Option<u32>) -> bool {
    &&& post.wf()
    &&& post.enabled_spec() == pre.enabled_spec()
    &&& !pre.enabled_spec() ==> r.is_none() && post.view_seq() == pre.view_seq()
    &&& pre.enabled_spec() ==> {
        let before = count_of(pre.view_seq(), mode, key);
        let after = if before == u32::MAX {
            before
        } else {
            (before + 1) as u32
        };
        &&& r == Some(after)
        &&& count_of(post.view_seq(), mode, key) == after
        &&& forall|m: Seq<char>, k: Seq<char>|
            !(m == mode && k == key) ==> count_of(post.view_seq(), m, k) == count_of(pre.view_seq(), m, k)
    }
}

/// One press counter.
#[derive(Debug)]
pub struct CounterEntry {
    pub mode: String,
    pub key: String,
    pub count: u32,
}

/// Press counters of accepted key presses, per mode and key.
pub struct KeyCounters {
    enabled: bool,
    entries: Vec<CounterEntry>,
}

impl KeyCounters {
    pub closed spec fn view_seq(&self) -> Seq<(Seq<char>, Seq<char>, u32)> {
        counters_view(self.entries@)
    }

    pub closed spec fn enabled_spec(&self) -> bool {
        self.enabled
    }

    pub closed spec fn wf(&self) -> bool {
        counters_unique(counters_view(self.entries@))
    }

    /// No counters; counting on or off.
    pub fn new(enabled: bool) -> (r: Self)
        ensures
            r.wf(),
            r.enabled_spec() == enabled,
            forall|m: Seq<char>, k: Seq<char>| count_of(r.view_seq(), m, k) == 0,
    {
        let r = KeyCounters { enabled, entries: Vec::new() };
        assert(counters_view(r.entries@) =~= Seq::<(Seq<char>, Seq<char>, u32)>::empty());
        r
    }

    /// The count of `(mode, key)`.
    pub fn count(&self, mode: &str, key: &str) -> (r: u32)
        requires
            self.wf(),
        ensures
            r == count_of(self.view_seq(), mode@, key@),
    {
        let m = mode.to_owned();
        let k = key.to_owned();
        match self.position(&m, &k) {
            Some(i) => self.entries[i].count,
            None => 0,
        }
    }

    fn position(&self, mode: &String, key: &String) -> (r: Option<usize>)
        requires
            self.wf(),
        ensures
            match r {
                Some(i) => i < self.entries@.len() && self.view_seq()[i as int].0 == mode@
                    && self.view_seq()[i as int].1 == key@ && count_of(self.view_seq(), mode@, key@)
                    == self.view_seq()[i as int].2,
                None => count_of(self.view_seq(), mode@, key@) == 0 && forall|j: int|
                    0 <= j < self.view_seq().len() ==> !(self.view_seq()[j].0 == mode@
                        && self.view_seq()[j].1 == key@),
            },
    {
        let ghost cv = self.view_seq();
        let mut i: usize = 0;
        while i < self.entries.len()
            invariant
                i <= self.entries@.len() == cv.len(),
                cv == counters_view(self.entries@),
                counters_unique(cv),
                forall|j: int| 0 <= j < i ==> !(cv[j].0 == mode@ && cv[j].1 == key@),
            decreases self.entries@.len() - i,
        {
            assert(cv[i as int] == (self.entries@[i as int].mode@, self.entries@[i as int].key@, self.entries@[i as int].count));
            if self.entries[i].mode == *mode && self.entries[i].key == *key {
                proof {
                    let c = choose|c: int| 0 <= c < cv.len() && cv[c].0 == mode@ && cv[c].1 == key@;
                    assert(c != i ==> cv[c].0 != cv[i as int].0 || cv[c].1 != cv[i as int].1);
                }
                return Some(i);
            }
            i = i + 1;
        }
        None
    }

    /// Counts one accepted press of `(mode, key)`, saturating. Returns the
    /// new count, or nothing while counting is off.
    pub fn increment_key_counter(&mut self, mode: &str, key: &str) -> (r: Option<u32>)
        requires
            old(self).wf(),
        ensures
            final(self).wf(),
            final(self).enabled_spec() == old(self).enabled_spec(),
            !old(self).enabled_spec() ==> r.is_none() && final(self).view_seq() == old(self).view_seq(),
            old(self).enabled_spec() ==> {
                let before = count_of(old(self).view_seq(), mode@, key@);
                let after = if before == u32::MAX {
                    before
                } else {
                    (before + 1) as u32
                };
                &&& r == Some(after)
                &&& count_of(final(self).view_seq(), mode@, key@) == after
                &&& forall|m: Seq<char>, k: Seq<char>|
                    !(m == mode@ && k == key@) ==> count_of(final(self).view_seq(), m, k)
                        == count_of(old(self).view_seq(), m, k)
            },
            counted(*old(self), *final(self), mode@, key@, r),
    {
        if !self.enabled {
            return None;
        }
        let m = mode.to_owned();
        let k = key.to_owned();
        let ghost cv = self.view_seq();
        match self.position(&m, &k) {
            Some(i) => {
                let c = self.entries[i].count;
                let next = if c == u32::MAX {
                    c
                } else {
                    c + 1
                };
                let e = CounterEntry { mode: m, key: k, count: next };
                self.entries.set(i, e);
                proof {
                    let nv = self.view_seq();
                    assert(nv =~= cv.update(i as int, (mode@, key@, next)));
                    assert forall|a: int, b: int|
                        0 <= a < nv.len() && 0 <= b < nv.len() && a != b implies nv[a].0 != nv[b].0
                        || nv[a].1 != nv[b].1 by {
                        assert(cv[a].0 != cv[b].0 || cv[a].1 != cv[b].1);
                    }
                    lemma_count_after_update(cv, i as int, next);
                }
                Some(next)
            },
            None => {
                self.entries.push(CounterEntry { mode: m, key: k, count: 1 });
                proof {
                    let nv = self.view_seq();
                    assert(nv =~= cv.push((mode@, key@, 1u32)));
                    assert forall|a: int, b: int|
                        0 <= a < nv.len() && 0 <= b < nv.len() && a != b implies nv[a].0 != nv[b].0
                        || nv[a].1 != nv[b].1 by {
                        if a < cv.len() && b < cv.len() {
                            assert(cv[a].0 != cv[b].0 || cv[a].1 != cv[b].1);
                        }
                    }
                    lemma_count_after_push(cv, mode@, key@);
                }
                Some(1)
            },
        }
    }

    /// Sets every count of `mode` to zero.
    pub fn reset_mode_counters(&mut self, mode: &str)
        requires
            old(self).wf(),
        ensures
            final(self).wf(),
            final(self).enabled_spec() == old(self).enabled_spec(),
            forall|m: Seq<char>, k: Seq<char>|
                count_of(final(self).view_seq(), m, k) == (if m == mode@ {
                    0
                } else {
                    count_of(old(self).view_seq(), m, k)
                }),
    {
        let m = mode.to_owned();
        let ghost cv = self.view_seq();
        let mut i: usize = 0;
        while i < self.entries.len()
            invariant
                i <= self.entries@.len() == cv.len(),
                m@ == mode@,
                self.enabled == old(self).enabled,
                counters_unique(cv),
                self.view_seq().len() == cv.len(),
                forall|j: int|
                    0 <= j < cv.len() ==> #[trigger] self.view_seq()[j] == (if j < i && cv[j].0
                        == mode@ {
                        (cv[j].0, cv[j].1, 0u32)
                    } else {
                        cv[j]
                    }),
            decreases self.entries@.len() - i,
        {
            assert(self.view_seq()[i as int] == cv[i as int]);
            assert(self.view_seq()[i as int] == (self.entries@[i as int].mode@, self.entries@[i as int].key@, self.entries@[i as int].count));
            let ghost before = self.view_seq();
            if self.entries[i].mode == m {
                let e = CounterEntry {
                    mode: self.entries[i].mode.clone(),
                    key: self.entries[i].key.clone(),
                    count: 0,
                };
                self.entries.set(i, e);
                proof {
                    assert(self.view_seq() =~= before.update(i as int, (cv[i as int].0, cv[i as int].1, 0u32)));
                }
            } else {
                assert(self.view_seq() == before);
                assert(cv[i as int].0 != mode@);
            }
            assert forall|j: int| 0 <= j < cv.len() implies #[trigger] self.view_seq()[j] == (if j < i + 1 && cv[j].0
                == mode@ {
                (cv[j].0, cv[j].1, 0u32)
            } else {
                cv[j]
            }) by {
                if j != i {
                    assert(self.view_seq()[j] == before[j]);
                }
            }
            i = i + 1;
        }
        proof {
            lemma_count_after_zeroing(cv, self.view_seq(), mode@);
        }
    }
}

proof fn lemma_count_after_update(cv: Seq<(Seq<char>, Seq<char>, u32)>, i: int, next: u32)
    requires
        counters_unique(cv),
        0 <= i < cv.len(),
    ensures
        ({
            let nv = cv.update(i, (cv[i].0, cv[i].1, next));
            &&& count_of(nv, cv[i].0, cv[i].1) == next
            &&& forall|m: Seq<char>, k: Seq<char>|
                !(m == cv[i].0 && k == cv[i].1) ==> count_of(nv, m, k) == count_of(cv, m, k)
        }),
{
    let nv = cv.update(i, (cv[i].0, cv[i].1, next));
    let c = choose|c: int| 0 <= c < nv.len() && nv[c].0 == cv[i].0 && nv[c].1 == cv[i].1;
    assert(nv[i].0 == cv[i].0 && nv[i].1 == cv[i].1);
    if c != i {
        assert(cv[c].0 != cv[i].0 || cv[c].1 != cv[i].1);
    }
    assert forall|m: Seq<char>, k: Seq<char>|
        !(m == cv[i].0 && k == cv[i].1) implies count_of(nv, m, k) == count_of(cv, m, k) by {
        if exists|j: int| 0 <= j < cv.len() && cv[j].0 == m && cv[j].1 == k {
            let j = choose|j: int| 0 <= j < cv.len() && cv[j].0 == m && cv[j].1 == k;
            assert(nv[j] == cv[j]);
            let c2 = choose|c2: int| 0 <= c2 < nv.len() && nv[c2].0 == m && nv[c2].1 == k;
            assert(c2 != i);
            assert(nv[c2] == cv[c2]);
            if c2 != j {
                assert(cv[c2].0 != cv[j].0 || cv[c2].1 != cv[j].1);
            }
        } else {
            if exists|j: int| 0 <= j < nv.len() && nv[j].0 == m && nv[j].1 == k {
                let j = choose|j: int| 0 <= j < nv.len() && nv[j].0 == m && nv[j].1 == k;
                assert(j != i);
                assert(cv[j] == nv[j]);
            }
        }
    }
}

proof fn lemma_count_after_push(cv: Seq<(Seq<char>, Seq<char>, u32)>, mode: Seq<char>, key: Seq<char>)
    requires
        counters_unique(cv),
        forall|j: int| 0 <= j < cv.len() ==> !(cv[j].0 == mode && cv[j].1 == key),
    ensures
        ({
            let nv = cv.push((mode, key, 1u32));
            &&& count_of(nv, mode, key) == 1
            &&& forall|m: Seq<char>, k: Seq<char>|
                !(m == mode && k == key) ==> count_of(nv, m, k) == count_of(cv, m, k)
        }),
{
    let nv = cv.push((mode, key, 1u32));
    assert(nv[cv.len() as int] == (mode, key, 1u32));
    let c = choose|c: int| 0 <= c < nv.len() && nv[c].0 == mode && nv[c].1 == key;
    if c < cv.len() {
        assert(nv[c] == cv[c]);
    }
    assert forall|m: Seq<char>, k: Seq<char>|
        !(m == mode && k == key) implies count_of(nv, m, k) == count_of(cv, m, k) by {
        if exists|j: int| 0 <= j < cv.len() && cv[j].0 == m && cv[j].1 == k {
            let j = choose|j: int| 0 <= j < cv.len() && cv[j].0 == m && cv[j].1 == k;
            assert(nv[j] == cv[j]);
            let c2 = choose|c2: int| 0 <= c2 < nv.len() && nv[c2].0 == m && nv[c2].1 == k;
            assert(c2 < cv.len());
            assert(nv[c2] == cv[c2]);
            if c2 != j {
                assert(cv[c2].0 != cv[j].0 || cv[c2].1 != cv[j].1);
            }
        } else {
            if exists|j: int| 0 <= j < nv.len() && nv[j].0 == m && nv[j].1 == k {
                let j = choose|j: int| 0 <= j < nv.len() && nv[j].0 == m && nv[j].1 == k;
                assert(j < cv.len());
                assert(cv[j] == nv[j]);
            }
        }
    }
}

proof fn lemma_count_after_zeroing(
    cv: Seq<(Seq<char>, Seq<char>, u32)>,
    nv: Seq<(Seq<char>, Seq<char>, u32)>,
    mode: Seq<char>,
)
    requires
        counters_unique(cv),
        nv.len() == cv.len(),
        forall|j: int|
            0 <= j < cv.len() ==> #[trigger] nv[j] == (if cv[j].0 == mode {
                (cv[j].0, cv[j].1, 0u32)
            } else {
                cv[j]
            }),
    ensures
        counters_unique(nv),
        forall|m: Seq<char>, k: Seq<char>|
            count_of(nv, m, k) == (if m == mode {
                0
            } else {
                count_of(cv, m, k)
            }),
{
    assert forall|a: int, b: int|
        0 <= a < nv.len() && 0 <= b < nv.len() && a != b implies nv[a].0 != nv[b].0 || nv[a].1
        != nv[b].1 by {
        assert(cv[a].0 != cv[b].0 || cv[a].1 != cv[b].1);
        assert(nv[a].0 == cv[a].0 && nv[a].1 == cv[a].1);
        assert(nv[b].0 == cv[b].0 && nv[b].1 == cv[b].1);
    }
    assert forall|m: Seq<char>, k: Seq<char>|
        count_of(nv, m, k) == (if m == mode {
            0
        } else {
            count_of(cv, m, k)
        }) by {
        if exists|j: int| 0 <= j < nv.len() && nv[j].0 == m && nv[j].1 == k {
            let c2 = choose|c2: int| 0 <= c2 < nv.len() && nv[c2].0 == m && nv[c2].1 == k;
            assert(nv[c2].0 == cv[c2].0 && nv[c2].1 == cv[c2].1);
            let c1 = choose|c1: int| 0 <= c1 < cv.len() && cv[c1].0 == m && cv[c1].1 == k;
            if c1 != c2 {
                assert(cv[c1].0 != cv[c2].0 || cv[c1].1 != cv[c2].1);
            }
        } else {
            if exists|j: int| 0 <= j < cv.len() && cv[j].0 == m && cv[j].1 == k {
                let j = choose|j: int| 0 <= j < cv.len() && cv[j].0 == m && cv[j].1 == k;
                assert(nv[j].0 == cv[j].0 && nv[j].1 == cv[j].1);
            }
        }
    }
}

/// What the host does with one record.
#[derive(Debug)]
pub struct RouteAction {
    /// Send the raw record to the raw-input subscribers.
    pub broadcast_raw: bool,
    /// The track key the record matched.
    pub key: Option<String>,
    /// The transition to hand to the note engine, when it is one.
    pub note_event: Option<HookKeyState>,
    /// The key's new press count, when an accepted press was counted.
    pub count: Option<u32>,
}

/// Decides what one record does: it is broadcast when anyone subscribes; its
/// first label that names a track of the current mode is its key; a press
/// reaches the engine only when the key was not already held, and a release
/// only when a press was accepted. An accepted press is counted.
pub fn route_record(
    active: &mut ActiveKeys,
    counters: &mut KeyCounters,
    mode: &str,
    valid_keys: &Vec<String>,
    subscribers: u32,
    msg: &HookMessage,
) -> (r: RouteAction)
    requires
        old(active).wf(),
        old(counters).wf(),
    ensures
        final(active).wf(),
        final(counters).wf(),
        r.broadcast_raw == (subscribers > 0),
        match (r.key, r.note_event) {
            (Some(k), Some(HookKeyState::Down)) => counted(*old(counters), *final(counters), mode@, k@, r.count),
            _ => r.count.is_none() && final(counters).view_seq() == old(counters).view_seq()
                && final(counters).enabled_spec() == old(counters).enabled_spec(),
        },
        match r.key {
            None => {
                &&& r.note_event.is_none()
                &&& final(active).view_set() == old(active).view_set()
                &&& forall|i: int|
                    0 <= i < msg.labels@.len() ==> !labels_view(valid_keys@).contains(
                        #[trigger] labels_view(msg.labels@)[i],
                    )
            },
            Some(k) => {
                &&& exists|i: int|
                    is_first_match(labels_view(msg.labels@), labels_view(valid_keys@), i) && k@
                        == labels_view(msg.labels@)[i]
                &&& match msg.state {
                    HookKeyState::Down => {
                        &&& final(active).view_set() == old(active).view_set().insert((mode@, k@))
                        &&& r.note_event == (if old(active).view_set().contains((mode@, k@)) {
                            None
                        } else {
                            Some(HookKeyState::Down)
                        })
                    },
                    HookKeyState::Up => {
                        &&& final(active).view_set() == old(active).view_set().remove((mode@, k@))
                        &&& r.note_event == (if old(active).view_set().contains((mode@, k@)) {
                            Some(HookKeyState::Up)
                        } else {
                            None
                        })
                    },
                }
            },
        },
{
    let broadcast_raw = subscribers > 0;
    let key = match match_candidate(valid_keys, &msg.labels) {
        Some(k) => k,
        None => {
            return RouteAction { broadcast_raw, key: None, note_event: None, count: None };
        },
    };
    let mut count: Option<u32> = None;
    let note_event = match msg.state {
        HookKeyState::Down => {
            if active.register_key_down(mode, key.as_str()) {
                count = counters.increment_key_counter(mode, key.as_str());
                Some(HookKeyState::Down)
            } else {
                None
            }
        },
        HookKeyState::Up => {
            if active.register_key_up(mode, key.as_str()) {
                Some(HookKeyState::Up)
            } else {
                None
            }
        },
    };
    RouteAction { broadcast_raw, key: Some(key), note_event, count }
}

} // verus!
