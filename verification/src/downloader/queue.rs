//! Multi-task download queue: the task lists and every transition on them.
//!
//! Tasks wait in `queued`, download in `running` and rest in `paused_tasks`.
//! Every operation here is a step of that state machine; the caller spawns
//! the download workers for the tasks that `pump` starts and reports each
//! worker's end through `finish_worker`. No URL is ever held twice across
//! the three lists (automatic dedup), and each operation keeps it so.
use vstd::prelude::*;
use std::collections::VecDeque;
use vstd::multiset::Multiset;
use crate::models::config::{DownloadConfig, copy_opt};
use crate::numbers::{dec, u64_to_string, parse_unsigned, parse_u64};
use crate::text::{trim, chars_of, trim_exec, string_of, str_eq};
use crate::services::download_history::{source_name, spec_source_name};

verus! {

broadcast use {
    vstd::string::group_string_axioms,
    vstd::multiset::group_multiset_axioms,
    vstd::seq_lib::group_to_multiset_ensures,
};

/// One task of the queue.
#[derive(Debug, Clone)]
pub struct QueuedTask {
    pub id: String,
    /// Stable enqueue order (shown by the frontend as "current x/N").
    pub seq: u64,
    pub config: DownloadConfig,
    pub title: Option<String>,
    /// True when the task is being resumed after a pause or a restart.
    pub resume: bool,
    /// Frontend card metadata, as JSON text.
    pub info: Option<String>,
    /// Persisted state: "queued" | "running" | "paused" (empty = queued).
    pub status: String,
    /// Task source code (see `download_history::SOURCE_*`).
    pub source: i64,
}

impl QueuedTask {
    /// A field-by-field copy.
    pub fn copy(&self) -> (r: Self)
        ensures
            r == *self,
    {
        QueuedTask {
            id: self.id.clone(),
            seq: self.seq,
            config: self.config.copy(),
            title: copy_opt(&self.title),
            resume: self.resume,
            info: copy_opt(&self.info),
            status: self.status.clone(),
            source: self.source,
        }
    }
}

/// The abstract state of a [`DownloadQueue`].
pub ghost struct QueueView {
    pub queued: Seq<QueuedTask>,
    pub running: Seq<QueuedTask>,
    pub paused_tasks: Seq<QueuedTask>,
    /// When set, no new task is started (running tasks finish).
    pub paused: bool,
    /// Task id -> index it held in `paused_tasks` before it was resumed.
    pub slots: Map<Seq<char>, usize>,
    /// Next task sequence number (also the next task id).
    pub next_seq: u64,
}

/// The download queue state.
pub struct DownloadQueue {
    queued: VecDeque<QueuedTask>,
    running: Vec<QueuedTask>,
    paused_tasks: VecDeque<QueuedTask>,
    paused: bool,
    paused_slots: Vec<(String, usize)>,
    next_seq: u64,
}

/// The map that a list of (id, slot) entries stands for; a later entry
/// overrides an earlier one.
pub open spec fn slot_map(s: Seq<(String, usize)>) -> Map<Seq<char>, usize>
    decreases s.len(),
{
    if s.len() == 0 {
        Map::empty()
    } else {
        slot_map(s.drop_last()).insert(s.last().0@, s.last().1)
    }
}

impl View for DownloadQueue {
    type V = QueueView;

    closed spec fn view(&self) -> QueueView {
        QueueView {
            queued: self.queued@,
            running: self.running@,
            paused_tasks: self.paused_tasks@,
            paused: self.paused,
            slots: slot_map(self.paused_slots@),
            next_seq: self.next_seq,
        }
    }
}

// ==================== Model ====================

pub open spec fn url_of(t: QueuedTask) -> Seq<char> {
    t.config.url@
}

/// The URLs of a task list, as a multiset.
pub open spec fn url_ms(s: Seq<QueuedTask>) -> Multiset<Seq<char>> {
    s.map_values(|t: QueuedTask| url_of(t)).to_multiset()
}

/// How many tasks of the queue hold URL `u`.
pub open spec fn url_count(v: QueueView, u: Seq<char>) -> nat {
    url_ms(v.queued).count(u) + url_ms(v.running).count(u) + url_ms(v.paused_tasks).count(u)
}

/// Whether some task of the queue holds URL `u`.
pub open spec fn holds_url(v: QueueView, u: Seq<char>) -> bool {
    url_count(v, u) > 0
}

/// The queue invariant: no URL is held by two tasks.
pub open spec fn wf(v: QueueView) -> bool {
    forall|u: Seq<char>| #[trigger] url_count(v, u) <= 1
}

/// The ids of a task list.
pub open spec fn ids(s: Seq<QueuedTask>) -> Seq<Seq<char>> {
    s.map_values(|t: QueuedTask| t.id@)
}

/// Whether a task list holds a task with id `id`.
pub open spec fn has_id(s: Seq<QueuedTask>, id: Seq<char>) -> bool {
    exists|i: int| 0 <= i < s.len() && #[trigger] s[i].id@ == id
}

/// `i` is the first index of a task with id `id`.
pub open spec fn first_id_at(s: Seq<QueuedTask>, id: Seq<char>, i: int) -> bool {
    &&& 0 <= i < s.len()
    &&& s[i].id@ == id
    &&& forall|j: int| 0 <= j < i ==> #[trigger] s[j].id@ != id
}

/// The task list without the tasks of id `id`, in the same order.
pub open spec fn without_id(s: Seq<QueuedTask>, id: Seq<char>) -> Seq<QueuedTask>
    decreases s.len(),
{
    if s.len() == 0 {
        s
    } else if s.last().id@ == id {
        without_id(s.drop_last(), id)
    } else {
        without_id(s.drop_last(), id).push(s.last())
    }
}

/// The slot entries without those of id `id`.
pub open spec fn slots_without(s: Seq<(String, usize)>, id: Seq<char>) -> Seq<(String, usize)>
    decreases s.len(),
{
    if s.len() == 0 {
        s
    } else if s.last().0@ == id {
        slots_without(s.drop_last(), id)
    } else {
        slots_without(s.drop_last(), id).push(s.last())
    }
}

/// The sequence number that follows `s` (wrapping).
pub open spec fn seq_after(s: u64) -> u64 {
    if s == u64::MAX {
        0
    } else {
        (s + 1) as u64
    }
}

/// The task with the `resume` flag set.
pub open spec fn resumed(t: QueuedTask) -> QueuedTask {
    QueuedTask { resume: true, ..t }
}

// ==================== Lemmas on URL multisets ====================

proof fn lemma_url_ms_push(s: Seq<QueuedTask>, t: QueuedTask)
    ensures
        url_ms(s.push(t)) =~= url_ms(s).insert(url_of(t)),
{
    assert(s.push(t).map_values(|t: QueuedTask| url_of(t)) =~= s.map_values(
        |t: QueuedTask| url_of(t),
    ).push(url_of(t)));
}

proof fn lemma_url_ms_add(a: Seq<QueuedTask>, b: Seq<QueuedTask>)
    ensures
        url_ms(a + b) =~= url_ms(a).add(url_ms(b)),
{
    assert((a + b).map_values(|t: QueuedTask| url_of(t)) =~= a.map_values(|t: QueuedTask| url_of(t))
        + b.map_values(|t: QueuedTask| url_of(t)));
    vstd::seq_lib::lemma_multiset_commutative(
        a.map_values(|t: QueuedTask| url_of(t)),
        b.map_values(|t: QueuedTask| url_of(t)),
    );
}

proof fn lemma_url_ms_remove(s: Seq<QueuedTask>, i: int)
    requires
        0 <= i < s.len(),
    ensures
        url_ms(s.remove(i)) =~= url_ms(s).remove(url_of(s[i])),
{
    let m = s.map_values(|t: QueuedTask| url_of(t));
    assert(s.remove(i).map_values(|t: QueuedTask| url_of(t)) =~= m.remove(i));
    vstd::seq_lib::to_multiset_remove(m, i);
}

proof fn lemma_url_ms_insert(s: Seq<QueuedTask>, i: int, t: QueuedTask)
    requires
        0 <= i <= s.len(),
    ensures
        url_ms(s.insert(i, t)) =~= url_ms(s).insert(url_of(t)),
{
    let m = s.map_values(|t: QueuedTask| url_of(t));
    assert(s.insert(i, t).map_values(|t: QueuedTask| url_of(t)) =~= m.insert(i, url_of(t)));
    vstd::seq_lib::to_multiset_insert(m, i, url_of(t));
}

proof fn lemma_url_ms_empty()
    ensures
        url_ms(Seq::<QueuedTask>::empty()) =~= Multiset::empty(),
{
    assert(Seq::<QueuedTask>::empty().map_values(|t: QueuedTask| url_of(t)) =~= Seq::empty());
}

/// Replacing tasks by tasks with the same URLs keeps the multiset.
proof fn lemma_url_ms_same_urls(a: Seq<QueuedTask>, b: Seq<QueuedTask>)
    requires
        a.len() == b.len(),
        forall|i: int| 0 <= i < a.len() ==> url_of(#[trigger] a[i]) == url_of(b[i]),
    ensures
        url_ms(a) =~= url_ms(b),
{
    assert(a.map_values(|t: QueuedTask| url_of(t)) =~= b.map_values(|t: QueuedTask| url_of(t)));
}

/// Dropping the tasks of an id never adds a URL.
proof fn lemma_url_ms_without(s: Seq<QueuedTask>, id: Seq<char>, u: Seq<char>)
    ensures
        url_ms(without_id(s, id)).count(u) <= url_ms(s).count(u),
    decreases s.len(),
{
    if s.len() > 0 {
        let init = s.drop_last();
        lemma_url_ms_without(init, id, u);
        assert(s =~= init.push(s.last()));
        lemma_url_ms_push(init, s.last());
        if s.last().id@ != id {
            lemma_url_ms_push(without_id(init, id), s.last());
        }
    }
}

/// A list with no task of id `id` loses nothing.
proof fn lemma_without_absent(s: Seq<QueuedTask>, id: Seq<char>)
    requires
        !has_id(s, id),
    ensures
        without_id(s, id) == s,
    decreases s.len(),
{
    if s.len() > 0 {
        assert(!has_id(s.drop_last(), id)) by {
            if has_id(s.drop_last(), id) {
                let i = choose|i: int| 0 <= i < s.drop_last().len() && #[trigger] s.drop_last()[i].id@ == id;
                assert(s[i].id@ == id);
            }
        }
        lemma_without_absent(s.drop_last(), id);
        assert(s.last() == s[s.len() - 1]);
        assert(s.drop_last().push(s.last()) =~= s);
    }
}

/// After dropping id `id`, no task of that id is left.
proof fn lemma_without_gone(s: Seq<QueuedTask>, id: Seq<char>)
    ensures
        !has_id(without_id(s, id), id),
    decreases s.len(),
{
    if s.len() > 0 {
        lemma_without_gone(s.drop_last(), id);
        if s.last().id@ != id {
            let w = without_id(s.drop_last(), id);
            assert forall|i: int| 0 <= i < w.push(s.last()).len() implies #[trigger] w.push(
                s.last(),
            )[i].id@ != id by {
                if i < w.len() {
                    assert(w.push(s.last())[i] == w[i]);
                }
            }
        }
    }
}

/// Dropping the slot entries of `id` drops `id` from the map.
proof fn lemma_slots_without(s: Seq<(String, usize)>, id: Seq<char>)
    ensures
        slot_map(slots_without(s, id)) =~= slot_map(s).remove(id),
    decreases s.len(),
{
    if s.len() > 0 {
        lemma_slots_without(s.drop_last(), id);
        if s.last().0@ != id {
            let w = slots_without(s.drop_last(), id);
            assert(w.push(s.last()).drop_last() =~= w);
        }
    }
}

/// `url_ms(s).count(u)` is positive exactly when some task holds `u`.
proof fn lemma_url_ms_count(s: Seq<QueuedTask>, u: Seq<char>)
    ensures
        url_ms(s).count(u) > 0 <==> exists|i: int| 0 <= i < s.len() && url_of(#[trigger] s[i]) == u,
{
    let m = s.map_values(|t: QueuedTask| url_of(t));
    vstd::seq_lib::to_multiset_contains(m, u);
    if url_ms(s).count(u) > 0 {
        let k = choose|k: int| 0 <= k < m.len() && m[k] == u;
        assert(url_of(s[k]) == u);
    }
    if exists|i: int| 0 <= i < s.len() && url_of(#[trigger] s[i]) == u {
        let k = choose|i: int| 0 <= i < s.len() && url_of(#[trigger] s[i]) == u;
        assert(m[k] == u);
    }
}

// ==================== Helpers ====================

/// Whether some task of `s` holds URL `u`.
fn deque_has_url(s: &VecDeque<QueuedTask>, u: &String) -> (r: bool)
    ensures
        r == (url_ms(s@).count(u@) > 0),
{
    let mut i: usize = 0;
    while i < s.len()
        invariant
            i <= s@.len(),
            forall|j: int| 0 <= j < i ==> url_of(#[trigger] s@[j]) != u@,
        decreases s@.len() - i,
    {
        if s[i].config.url == *u {
            proof {
                lemma_url_ms_count(s@, u@);
            }
            return true;
        }
        i = i + 1;
    }
    proof {
        lemma_url_ms_count(s@, u@);
    }
    false
}

/// Whether some task of `s` holds URL `u`.
fn vec_has_url(s: &Vec<QueuedTask>, u: &String) -> (r: bool)
    ensures
        r == (url_ms(s@).count(u@) > 0),
{
    let mut i: usize = 0;
    while i < s.len()
        invariant
            i <= s@.len(),
            forall|j: int| 0 <= j < i ==> url_of(#[trigger] s@[j]) != u@,
        decreases s@.len() - i,
    {
        if s[i].config.url == *u {
            proof {
                lemma_url_ms_count(s@, u@);
            }
            return true;
        }
        i = i + 1;
    }
    proof {
        lemma_url_ms_count(s@, u@);
    }
    false
}

/// The number of workers: the concurrency setting (default 1) clamped to
/// `1..=3`.
pub open spec fn spec_effective_concurrency(setting: Option<u8>) -> usize {
    match setting {
        Some(c) => if c < 1 {
            1
        } else if c > 3 {
            3
        } else {
            c as usize
        },
        None => 1,
    }
}

pub fn effective_concurrency(setting: Option<u8>) -> (r: usize)
    ensures
        r == spec_effective_concurrency(setting),
        1 <= r <= 3,
{
    let c = match setting {
        Some(c) => c,
        None => 1,
    };
    if c < 1 {
        1
    } else if c > 3 {
        3
    } else {
        c as usize
    }
}

/// How many tasks a `pump` with `concurrency` workers starts.
pub open spec fn pump_count(v: QueueView, concurrency: usize) -> nat {
    if v.paused || v.running.len() >= concurrency {
        0
    } else if v.queued.len() < concurrency - v.running.len() {
        v.queued.len()
    } else {
        (concurrency - v.running.len()) as nat
    }
}

impl DownloadQueue {
    /// An empty, unpaused queue whose first task gets sequence number 0.
    pub fn new() -> (r: Self)
        ensures
            wf(r@),
            r@.queued.len() == 0,
            r@.running.len() == 0,
            r@.paused_tasks.len() == 0,
            !r@.paused,
            r@.slots == Map::<Seq<char>, usize>::empty(),
            r@.next_seq == 0,
    {
        let r = DownloadQueue {
            queued: VecDeque::new(),
            running: Vec::new(),
            paused_tasks: VecDeque::new(),
            paused: false,
            paused_slots: Vec::new(),
            next_seq: 0,
        };
        proof {
            lemma_url_ms_empty();
        }
        r
    }

    /// Whether URL `u` is held by a queued, running or paused task.
    fn holds(&self, u: &String) -> (r: bool)
        ensures
            r == holds_url(self@, u@),
    {
        deque_has_url(&self.queued, u) || vec_has_url(&self.running, u) || deque_has_url(
            &self.paused_tasks,
            u,
        )
    }

    /// Enqueues a download of `config` (its URL trimmed). An empty URL is
    /// refused with "链接不能为空" before a sequence number is taken; a URL
    /// already queued, running or paused is refused with "链接已在队列中"
    /// (its sequence number is used up all the same). Otherwise the task is
    /// appended to the queue and its id (the sequence number in decimal)
    /// returned.
    pub fn enqueue(
        &mut self,
        config: DownloadConfig,
        title: Option<String>,
        info: Option<String>,
        source: i64,
    ) -> (r: Result<String, String>)
        requires
            wf(old(self)@),
        ensures
            wf(final(self)@),
            trim(config.url@).len() == 0 ==> (r matches Err(e) && e@ == "链接不能为空"@) && final(self)@
                == old(self)@,
            trim(config.url@).len() > 0 && holds_url(old(self)@, trim(config.url@)) ==> (r matches Err(e) && e@ == "链接已在队列中"@) && final(self)@ == (QueueView {
                next_seq: seq_after(old(self)@.next_seq),
                ..old(self)@
            }),
            trim(config.url@).len() > 0 && !holds_url(old(self)@, trim(config.url@)) ==> {
                &&& r matches Ok(id) && id@ == dec(old(self)@.next_seq as nat)
                &&& final(self)@ == QueueView {
                    queued: old(self)@.queued.push(
                        QueuedTask {
                            id: r->Ok_0,
                            seq: old(self)@.next_seq,
                            config: DownloadConfig { url: final(self)@.queued.last().config.url, ..config },
                            title,
                            resume: false,
                            info,
                            status: final(self)@.queued.last().status,
                            source,
                        },
                    ),
                    next_seq: seq_after(old(self)@.next_seq),
                    ..old(self)@
                }
                &&& final(self)@.queued.last().config.url@ == trim(config.url@)
                &&& final(self)@.queued.last().status@ == "queued"@
            },
    {
        let mut config = config;
        let trimmed = trim_exec(&chars_of(config.url.as_str()));
        if trimmed.len() == 0 {
            return Err("链接不能为空".to_string());
        }
        let url = string_of(&trimmed);
        config.url = url.clone();
        let seq = self.next_seq;
        self.next_seq = self.next_seq.wrapping_add(1);
        let id = u64_to_string(seq);
        if self.holds(&url) {
            proof {
                assert forall|u: Seq<char>| #[trigger] url_count(self@, u) <= 1 by {
                    assert(url_count(old(self)@, u) <= 1);
                }
            }
            return Err("链接已在队列中".to_string());
        }
        let ghost old_q = self.queued@;
        let task = QueuedTask {
            id: id.clone(),
            seq,
            config,
            title,
            resume: false,
            info,
            status: "queued".to_string(),
            source,
        };
        self.queued.push_back(task);
        proof {
            lemma_url_ms_push(old_q, self.queued@.last());
            assert(self.queued@ =~= old_q.push(self.queued@.last()));
            assert forall|u: Seq<char>| #[trigger] url_count(self@, u) <= 1 by {
                assert(url_count(old(self)@, u) <= 1);
            }
        }
        Ok(id)
    }
}

/// The slot remembered for `id`, if any.
pub open spec fn slot_of(m: Map<Seq<char>, usize>, id: Seq<char>) -> Option<usize> {
    if m.dom().contains(id) {
        Some(m[id])
    } else {
        None
    }
}

/// Drops the entries of `id` from a slot list.
fn slots_remove(s: &mut Vec<(String, usize)>, id: &str) -> (r: Option<usize>)
    ensures
        r == slot_of(slot_map(old(s)@), id@),
        final(s)@ == slots_without(old(s)@, id@),
{
    let ghost orig = s@;
    let mut found: Option<usize> = None;
    let mut out: Vec<(String, usize)> = Vec::new();
    let mut i: usize = 0;
    let n = s.len();
    while i < n
        invariant
            n == orig.len(),
            s@ == orig,
            i <= n,
            out@ == slots_without(orig.take(i as int), id@),
            found == slot_of(slot_map(orig.take(i as int)), id@),
        decreases n - i,
    {
        let e = (s[i].0.clone(), s[i].1);
        proof {
            assert(orig.take(i + 1).drop_last() =~= orig.take(i as int));
            assert(orig.take(i + 1).last() == orig[i as int]);
        }
        if str_eq(e.0.as_str(), id) {
            found = Some(e.1);
        } else {
            out.push(e);
        }
        i = i + 1;
    }
    proof {
        assert(orig.take(n as int) =~= orig);
    }
    *s = out;
    found
}

/// Drops the tasks of id `id` from a deque, keeping the order.
fn deque_retain(s: &mut VecDeque<QueuedTask>, id: &str)
    ensures
        final(s)@ == without_id(old(s)@, id@),
{
    let ghost orig = s@;
    let mut out: VecDeque<QueuedTask> = VecDeque::new();
    let mut i: usize = 0;
    let n = s.len();
    while i < n
        invariant
            n == orig.len(),
            i <= n,
            s@ == orig.subrange(i as int, n as int),
            out@ == without_id(orig.take(i as int), id@),
        decreases n - i,
    {
        let t = s.pop_front();
        proof {
            assert(orig.take(i + 1).drop_last() =~= orig.take(i as int));
            assert(orig.take(i + 1).last() == orig[i as int]);
            assert(orig.subrange(i as int, n as int)[0] == orig[i as int]);
            assert(orig.subrange(i as int, n as int).subrange(1, n - i) =~= orig.subrange(i + 1, n as int));
        }
        match t {
            Some(t) => {
                if !str_eq(t.id.as_str(), id) {
                    out.push_back(t);
                }
            },
            None => {},
        }
        i = i + 1;
    }
    proof {
        assert(orig.take(n as int) =~= orig);
    }
    *s = out;
}

/// Drops the tasks of id `id` from a vector, keeping the order.
fn vec_retain(s: &mut Vec<QueuedTask>, id: &str)
    ensures
        final(s)@ == without_id(old(s)@, id@),
{
    let ghost orig = s@;
    let mut out: Vec<QueuedTask> = Vec::new();
    let mut i: usize = 0;
    let n = s.len();
    while i < n
        invariant
            n == orig.len(),
            s@ == orig,
            i <= n,
            out@ == without_id(orig.take(i as int), id@),
        decreases n - i,
    {
        proof {
            assert(orig.take(i + 1).drop_last() =~= orig.take(i as int));
            assert(orig.take(i + 1).last() == orig[i as int]);
        }
        if !str_eq(s[i].id.as_str(), id) {
            out.push(s[i].copy());
        }
        i = i + 1;
    }
    proof {
        assert(orig.take(n as int) =~= orig);
    }
    *s = out;
}

/// The first index of a task of id `id` in a deque.
fn deque_position(s: &VecDeque<QueuedTask>, id: &str) -> (r: Option<usize>)
    ensures
        match r {
            Some(i) => first_id_at(s@, id@, i as int),
            None => !has_id(s@, id@),
        },
{
    let mut i: usize = 0;
    while i < s.len()
        invariant
            i <= s@.len(),
            forall|j: int| 0 <= j < i ==> #[trigger] s@[j].id@ != id@,
        decreases s@.len() - i,
    {
        if str_eq(s[i].id.as_str(), id) {
            return Some(i);
        }
        i = i + 1;
    }
    None
}

/// The first index of a task of id `id` in a vector.
fn vec_position(s: &Vec<QueuedTask>, id: &str) -> (r: Option<usize>)
    ensures
        match r {
            Some(i) => first_id_at(s@, id@, i as int),
            None => !has_id(s@, id@),
        },
{
    let mut i: usize = 0;
    while i < s.len()
        invariant
            i <= s@.len(),
            forall|j: int| 0 <= j < i ==> #[trigger] s@[j].id@ != id@,
        decreases s@.len() - i,
    {
        if str_eq(s[i].id.as_str(), id) {
            return Some(i);
        }
        i = i + 1;
    }
    None
}

/// Whether a running task of id `id` is a resumed instance (a newer worker
/// has taken the task over).
pub open spec fn superseded(s: Seq<QueuedTask>, id: Seq<char>) -> bool {
    exists|i: int| 0 <= i < s.len() && #[trigger] s[i].id@ == id && s[i].resume
}

/// How a worker's end is settled.
#[derive(Debug, Clone, Copy, PartialEq, Eq, Structural)]
pub enum WorkerExit {
    /// A resumed instance of the task is running: the old worker ends
    /// quietly and leaves the state alone.
    Superseded,
    /// The task was paused while it ran: it stays in the paused list.
    Paused,
    /// The task is done: its outcome is recorded and announced.
    Finished,
}

/// The tasks of a queue in the order of a config lookup: queued, paused,
/// running.
pub open spec fn lookup_order(v: QueueView) -> Seq<QueuedTask> {
    v.queued + v.paused_tasks + v.running
}

impl DownloadQueue {
    /// Starts queued tasks, oldest first, while the queue is not paused and
    /// fewer than `concurrency` tasks run. The started tasks move to the
    /// running list and are returned, for the caller to spawn their workers.
    pub fn pump(&mut self, concurrency: usize) -> (started: Vec<QueuedTask>)
        requires
            wf(old(self)@),
        ensures
            wf(final(self)@),
            started@.len() == pump_count(old(self)@, concurrency),
            started@ == old(self)@.queued.take(started@.len() as int),
            final(self)@ == (QueueView {
                queued: old(self)@.queued.skip(started@.len() as int),
                running: old(self)@.running + started@,
                ..old(self)@
            }),
    {
        let ghost oq = self.queued@;
        let ghost or = self.running@;
        let ghost n = pump_count(self@, concurrency);
        let mut started: Vec<QueuedTask> = Vec::new();
        while !self.paused && self.running.len() < concurrency && self.queued.len() > 0
            invariant
                started@.len() <= n,
                n == pump_count(old(self)@, concurrency),
                self.paused == old(self)@.paused,
                self.queued@ == oq.skip(started@.len() as int),
                self.running@ == or + oq.take(started@.len() as int),
                started@ == oq.take(started@.len() as int),
                oq == old(self)@.queued,
                or == old(self)@.running,
                self.paused_tasks == old(self).paused_tasks,
                self.paused_slots == old(self).paused_slots,
                self.next_seq == old(self).next_seq,
            decreases self.queued@.len(),
        {
            let ghost k = started@.len() as int;
            let t = self.queued.pop_front();
            match t {
                Some(t) => {
                    proof {
                        assert(oq.skip(k)[0] == oq[k]);
                        assert(oq.skip(k).subrange(1, oq.skip(k).len() as int) =~= oq.skip(k + 1));
                        assert(oq.take(k).push(oq[k]) =~= oq.take(k + 1));
                        assert((or + oq.take(k)).push(oq[k]) =~= or + oq.take(k + 1));
                    }
                    self.running.push(t.copy());
                    started.push(t);
                },
                None => {},
            }
        }
        proof {
            let k = started@.len() as int;
            assert(k == n);
            assert(oq =~= oq.take(k) + oq.skip(k));
            lemma_url_ms_add(oq.take(k), oq.skip(k));
            lemma_url_ms_add(or, oq.take(k));
            assert forall|u: Seq<char>| #[trigger] url_count(self@, u) <= 1 by {
                assert(url_count(old(self)@, u) <= 1);
            }
        }
        started
    }

    /// Clears the paused flag (the caller pumps afterwards).
    pub fn start(&mut self)
        ensures
            final(self)@ == (QueueView { paused: false, ..old(self)@ }),
    {
        self.paused = false;
    }

    /// Pauses the queue: no new task starts; running tasks finish.
    pub fn pause(&mut self)
        ensures
            final(self)@ == (QueueView { paused: true, ..old(self)@ }),
    {
        self.paused = true;
    }

    /// Resumes a paused queue (the caller pumps afterwards).
    pub fn resume(&mut self)
        ensures
            final(self)@ == (QueueView { paused: false, ..old(self)@ }),
    {
        self.paused = false;
    }

    /// Whether the queue is paused.
    pub fn is_paused(&self) -> (r: bool)
        ensures
            r == self@.paused,
    {
        self.paused
    }

    /// Whether any task is queued, running or paused.
    pub fn has_active(&self) -> (r: bool)
        ensures
            r == (self@.queued.len() > 0 || self@.running.len() > 0 || self@.paused_tasks.len() > 0),
    {
        self.queued.len() > 0 || self.running.len() > 0 || self.paused_tasks.len() > 0
    }

    /// The current copy of the running task of id `id` (a worker refreshes
    /// its task from it before each attempt).
    pub fn running_task(&self, id: &str) -> (r: Option<QueuedTask>)
        ensures
            match r {
                Some(t) => exists|i: int| first_id_at(self@.running, id@, i) && self@.running[i] == t,
                None => !has_id(self@.running, id@),
            },
    {
        match vec_position(&self.running, id) {
            Some(i) => {
                let t = self.running[i].copy();
                assert(first_id_at(self@.running, id@, i as int) && self@.running[i as int] == t);
                Some(t)
            },
            None => None,
        }
    }

    /// Settles the end of the worker of task `id`. When a resumed instance
    /// of the task runs, nothing changes. Otherwise the task leaves the
    /// running list, and the result tells whether it was paused meanwhile.
    pub fn finish_worker(&mut self, id: &str) -> (r: WorkerExit)
        requires
            wf(old(self)@),
        ensures
            wf(final(self)@),
            superseded(old(self)@.running, id@) ==> r == WorkerExit::Superseded && final(self)@ == old(
                self,
            )@,
            !superseded(old(self)@.running, id@) ==> {
                &&& final(self)@ == (QueueView {
                    running: without_id(old(self)@.running, id@),
                    ..old(self)@
                })
                &&& r == (if has_id(old(self)@.paused_tasks, id@) {
                    WorkerExit::Paused
                } else {
                    WorkerExit::Finished
                })
            },
    {
        let mut i: usize = 0;
        while i < self.running.len()
            invariant
                i <= self.running@.len(),
                self@ == old(self)@,
                wf(old(self)@),
                forall|j: int|
                    0 <= j < i ==> !(#[trigger] self.running@[j].id@ == id@ && self.running@[j].resume),
            decreases self.running@.len() - i,
        {
            if str_eq(self.running[i].id.as_str(), id) && self.running[i].resume {
                return WorkerExit::Superseded;
            }
            i = i + 1;
        }
        let ghost or = self.running@;
        vec_retain(&mut self.running, id);
        proof {
            assert forall|u: Seq<char>| #[trigger] url_count(self@, u) <= 1 by {
                assert(url_count(old(self)@, u) <= 1);
                lemma_url_ms_without(or, id@, u);
            }
        }
        match deque_position(&self.paused_tasks, id) {
            Some(_) => WorkerExit::Paused,
            None => WorkerExit::Finished,
        }
    }

    /// Cancels task `id`: drops it from the queued, paused and running
    /// lists and returns the config of the first task of that id (queued,
    /// then paused, then running), whose process and cache the caller
    /// removes.
    pub fn cancel_task(&mut self, id: &str) -> (r: Option<DownloadConfig>)
        requires
            wf(old(self)@),
        ensures
            wf(final(self)@),
            final(self)@ == (QueueView {
                queued: without_id(old(self)@.queued, id@),
                paused_tasks: without_id(old(self)@.paused_tasks, id@),
                running: without_id(old(self)@.running, id@),
                ..old(self)@
            }),
            match r {
                Some(c) => exists|i: int|
                    first_id_at(lookup_order(old(self)@), id@, i) && lookup_order(old(self)@)[i].config
                        == c,
                None => !has_id(lookup_order(old(self)@), id@),
            },
    {
        let ghost all = lookup_order(self@);
        let ghost q = self.queued@;
        let ghost p = self.paused_tasks@;
        let ghost rn = self.running@;
        proof {
            assert(all == q + p + rn);
        }
        let cfg = match deque_position(&self.queued, id) {
            Some(i) => {
                proof {
                    assert(all[i as int] == q[i as int]);
                    assert forall|j: int| 0 <= j < i implies #[trigger] all[j].id@ != id@ by {
                        assert(all[j] == q[j]);
                    }
                }
                let c = self.queued[i].config.copy();
                assert(first_id_at(all, id@, i as int) && all[i as int].config == c);
                Some(c)
            },
            None => match deque_position(&self.paused_tasks, id) {
                Some(i) => {
                    proof {
                        assert(all[q.len() + i] == p[i as int]);
                        assert forall|j: int| 0 <= j < q.len() + i implies #[trigger] all[j].id@ != id@ by {
                            if j < q.len() {
                                assert(all[j] == q[j]);
                            } else {
                                assert(all[j] == p[j - q.len()]);
                            }
                        }
                    }
                    let c = self.paused_tasks[i].config.copy();
                    assert(first_id_at(all, id@, q.len() + i) && all[q.len() + i].config == c);
                    Some(c)
                },
                None => match vec_position(&self.running, id) {
                    Some(i) => {
                        proof {
                            assert(all[q.len() + p.len() + i] == rn[i as int]);
                            assert forall|j: int| 0 <= j < q.len() + p.len() + i implies #[trigger] all[j].id@
                                != id@ by {
                                if j < q.len() {
                                    assert(all[j] == q[j]);
                                } else if j < q.len() + p.len() {
                                    assert(all[j] == p[j - q.len()]);
                                } else {
                                    assert(all[j] == rn[j - q.len() - p.len()]);
                                }
                            }
                        }
                        let c = self.running[i].config.copy();
                        assert(first_id_at(all, id@, q.len() + p.len() + i) && all[q.len() + p.len()
                            + i].config == c);
                        Some(c)
                    },
                    None => {
                        proof {
                            assert forall|j: int| 0 <= j < all.len() implies #[trigger] all[j].id@ != id@ by {
                                if j < q.len() {
                                    assert(all[j] == q[j]);
                                } else if j < q.len() + p.len() {
                                    assert(all[j] == p[j - q.len()]);
                                } else {
                                    assert(all[j] == rn[j - q.len() - p.len()]);
                                }
                            }
                        }
                        None
                    },
                },
            },
        };
        deque_retain(&mut self.queued, id);
        deque_retain(&mut self.paused_tasks, id);
        vec_retain(&mut self.running, id);
        proof {
            assert forall|u: Seq<char>| #[trigger] url_count(self@, u) <= 1 by {
                assert(url_count(old(self)@, u) <= 1);
                lemma_url_ms_without(q, id@, u);
                lemma_url_ms_without(p, id@, u);
                lemma_url_ms_without(rn, id@, u);
            }
        }
        cfg
    }

    /// Drops every queued and paused task (running tasks finish) and
    /// forgets the remembered slots.
    pub fn clear_queued(&mut self)
        requires
            wf(old(self)@),
        ensures
            wf(final(self)@),
            final(self)@ == (QueueView {
                queued: Seq::empty(),
                paused_tasks: Seq::empty(),
                slots: Map::empty(),
                ..old(self)@
            }),
    {
        self.queued.clear();
        self.paused_tasks.clear();
        self.paused_slots.clear();
        proof {
            lemma_url_ms_empty();
            assert(slot_map(self.paused_slots@) =~= Map::empty());
            assert forall|u: Seq<char>| #[trigger] url_count(self@, u) <= 1 by {
                assert(url_count(old(self)@, u) <= 1);
            }
        }
    }
}

/// The list with each task's `seq` set to its index.
pub open spec fn renumbered(s: Seq<QueuedTask>) -> Seq<QueuedTask> {
    Seq::new(s.len(), |i: int| QueuedTask { seq: i as u64, ..s[i] })
}

/// The list with task `pos` moved to index `min(new_index, len - 1)`.
pub open spec fn moved(s: Seq<QueuedTask>, pos: int, new_index: usize) -> Seq<QueuedTask> {
    let rest = s.remove(pos);
    let target = if new_index < rest.len() {
        new_index as int
    } else {
        rest.len() as int
    };
    rest.insert(target, s[pos])
}

/// Where a task paused again lands: near its remembered slot (clamped to the
/// list's end), or at the end when no slot is remembered.
pub open spec fn paused_insert(p: Seq<QueuedTask>, t: QueuedTask, slot: Option<usize>) -> Seq<QueuedTask> {
    match slot {
        Some(s) => if s < p.len() {
            p.insert(s as int, t)
        } else {
            p.push(t)
        },
        None => p.push(t),
    }
}

/// Every task of the list with the `resume` flag set.
pub open spec fn all_resumed(s: Seq<QueuedTask>) -> Seq<QueuedTask> {
    Seq::new(s.len(), |i: int| resumed(s[i]))
}

/// The first index of a task of id `id` (meaningful when there is one).
pub open spec fn first_pos(s: Seq<QueuedTask>, id: Seq<char>) -> int {
    choose|i: int| first_id_at(s, id, i)
}

/// The state after `pause_task(id)`.
pub open spec fn pause_task_spec(v: QueueView, id: Seq<char>) -> QueueView {
    let slot = slot_of(v.slots, id);
    if has_id(v.queued, id) {
        let pos = first_pos(v.queued, id);
        QueueView {
            queued: v.queued.remove(pos),
            paused_tasks: paused_insert(v.paused_tasks, v.queued[pos], slot),
            slots: v.slots.remove(id),
            ..v
        }
    } else if has_id(v.running, id) {
        let pos = first_pos(v.running, id);
        QueueView {
            running: v.running.remove(pos),
            paused_tasks: paused_insert(v.paused_tasks, v.running[pos], slot),
            slots: v.slots.remove(id),
            ..v
        }
    } else {
        QueueView { slots: v.slots.remove(id), ..v }
    }
}

/// The state after `resume_task(id)`.
pub open spec fn resume_task_spec(v: QueueView, id: Seq<char>) -> QueueView {
    if has_id(v.paused_tasks, id) {
        let pos = first_pos(v.paused_tasks, id);
        QueueView {
            paused_tasks: v.paused_tasks.remove(pos),
            queued: v.queued.push(resumed(v.paused_tasks[pos])),
            slots: v.slots.insert(id, pos as usize),
            paused: false,
            ..v
        }
    } else {
        v
    }
}

/// The state after `pause_all`.
pub open spec fn pause_all_spec(v: QueueView) -> QueueView {
    QueueView {
        paused: true,
        slots: Map::empty(),
        paused_tasks: v.paused_tasks + v.running + v.queued,
        running: Seq::empty(),
        queued: Seq::empty(),
        ..v
    }
}

/// The state after `resume_all`.
pub open spec fn resume_all_spec(v: QueueView) -> QueueView {
    QueueView {
        paused: false,
        slots: Map::empty(),
        queued: v.queued + all_resumed(v.paused_tasks),
        paused_tasks: Seq::empty(),
        ..v
    }
}

/// The first index of an id is the one `first_pos` picks.
pub proof fn lemma_first_pos(s: Seq<QueuedTask>, id: Seq<char>, i: int)
    requires
        first_id_at(s, id, i),
    ensures
        first_pos(s, id) == i,
{
    let j = first_pos(s, id);
    assert(first_id_at(s, id, j));
    if j < i {
        assert(s[j].id@ != id);
    } else if j > i {
        assert(s[i].id@ != id);
    }
}

/// Renumbers a deque: each task's `seq` becomes its index.
fn deque_renumber(s: &mut VecDeque<QueuedTask>)
    ensures
        final(s)@ == renumbered(old(s)@),
{
    let ghost orig = s@;
    let mut out: VecDeque<QueuedTask> = VecDeque::new();
    let mut i: usize = 0;
    let n = s.len();
    while i < n
        invariant
            n == orig.len(),
            i <= n,
            s@ == orig.subrange(i as int, n as int),
            out@ == renumbered(orig.take(i as int)),
        decreases n - i,
    {
        let t = s.pop_front();
        proof {
            assert(orig.subrange(i as int, n as int)[0] == orig[i as int]);
            assert(orig.subrange(i as int, n as int).subrange(1, n - i) =~= orig.subrange(i + 1, n as int));
        }
        match t {
            Some(mut t) => {
                t.seq = i as u64;
                out.push_back(t);
            },
            None => {},
        }
        proof {
            assert(out@ =~= renumbered(orig.take(i + 1)));
        }
        i = i + 1;
    }
    proof {
        assert(orig.take(n as int) =~= orig);
    }
    *s = out;
}

proof fn lemma_url_ms_renumbered(s: Seq<QueuedTask>)
    ensures
        url_ms(renumbered(s)) =~= url_ms(s),
{
    lemma_url_ms_same_urls(renumbered(s), s);
}

proof fn lemma_url_ms_moved(s: Seq<QueuedTask>, pos: int, new_index: usize)
    requires
        0 <= pos < s.len(),
    ensures
        url_ms(moved(s, pos, new_index)) =~= url_ms(s),
{
    let rest = s.remove(pos);
    let target = if new_index < rest.len() {
        new_index as int
    } else {
        rest.len() as int
    };
    lemma_url_ms_remove(s, pos);
    lemma_url_ms_insert(rest, target, s[pos]);
    lemma_url_ms_count(s, url_of(s[pos]));
}

proof fn lemma_url_ms_paused_insert(p: Seq<QueuedTask>, t: QueuedTask, slot: Option<usize>)
    ensures
        url_ms(paused_insert(p, t, slot)) =~= url_ms(p).insert(url_of(t)),
{
    match slot {
        Some(s) => if s < p.len() {
            lemma_url_ms_insert(p, s as int, t);
        } else {
            lemma_url_ms_push(p, t);
        },
        None => lemma_url_ms_push(p, t),
    }
}

proof fn lemma_url_ms_all_resumed(s: Seq<QueuedTask>)
    ensures
        url_ms(all_resumed(s)) =~= url_ms(s),
{
    lemma_url_ms_same_urls(all_resumed(s), s);
}

impl DownloadQueue {
    /// Adds a task to the paused list: back near its remembered slot, or at
    /// the end.
    fn insert_paused(&mut self, task: QueuedTask, slot: Option<usize>)
        ensures
            final(self)@ == (QueueView {
                paused_tasks: paused_insert(old(self)@.paused_tasks, task, slot),
                ..old(self)@
            }),
    {
        let len = self.paused_tasks.len();
        match slot {
            Some(s) => {
                if s < len {
                    self.paused_tasks.insert(s, task);
                } else {
                    self.paused_tasks.insert(len, task);
                    proof {
                        assert(old(self)@.paused_tasks.insert(len as int, task) =~= old(
                            self,
                        )@.paused_tasks.push(task));
                    }
                }
            },
            None => self.paused_tasks.push_back(task),
        }
    }

    /// Moves a queued or paused task to `new_index` within its own list
    /// (clamped to the list's end) and renumbers that list's `seq` fields.
    /// Reordering the paused list forgets the remembered slots. Running
    /// tasks cannot be moved: `false` when no queued or paused task has the
    /// id, and the state is left alone.
    pub fn reorder_queue(&mut self, task_id: &str, new_index: usize) -> (r: bool)
        requires
            wf(old(self)@),
        ensures
            wf(final(self)@),
            r == (has_id(old(self)@.queued, task_id@) || has_id(old(self)@.paused_tasks, task_id@)),
            has_id(old(self)@.queued, task_id@) ==> exists|pos: int|
                first_id_at(old(self)@.queued, task_id@, pos) && final(self)@ == (QueueView {
                    queued: renumbered(moved(old(self)@.queued, pos, new_index)),
                    ..old(self)@
                }),
            !has_id(old(self)@.queued, task_id@) && has_id(old(self)@.paused_tasks, task_id@)
                ==> exists|pos: int|
                first_id_at(old(self)@.paused_tasks, task_id@, pos) && final(self)@ == (QueueView {
                    paused_tasks: renumbered(moved(old(self)@.paused_tasks, pos, new_index)),
                    slots: Map::empty(),
                    ..old(self)@
                }),
            !r ==> final(self)@ == old(self)@,
    {
        match deque_position(&self.queued, task_id) {
            Some(pos) => {
                let ghost q = self.queued@;
                let t = self.queued.remove(pos);
                match t {
                    Some(t) => {
                        let len = self.queued.len();
                        let target = if new_index < len {
                            new_index
                        } else {
                            len
                        };
                        self.queued.insert(target, t);
                    },
                    None => {},
                }
                deque_renumber(&mut self.queued);
                proof {
                    assert(self.queued@ == renumbered(moved(q, pos as int, new_index)));
                    lemma_url_ms_renumbered(moved(q, pos as int, new_index));
                    lemma_url_ms_moved(q, pos as int, new_index);
                    assert forall|u: Seq<char>| #[trigger] url_count(self@, u) <= 1 by {
                        assert(url_count(old(self)@, u) <= 1);
                    }
                    assert(first_id_at(old(self)@.queued, task_id@, pos as int));
                }
                true
            },
            None => match deque_position(&self.paused_tasks, task_id) {
                Some(pos) => {
                    let ghost p = self.paused_tasks@;
                    let t = self.paused_tasks.remove(pos);
                    match t {
                        Some(t) => {
                            let len = self.paused_tasks.len();
                            let target = if new_index < len {
                                new_index
                            } else {
                                len
                            };
                            self.paused_tasks.insert(target, t);
                        },
                        None => {},
                    }
                    deque_renumber(&mut self.paused_tasks);
                    self.paused_slots.clear();
                    proof {
                        assert(slot_map(self.paused_slots@) =~= Map::empty());
                        lemma_url_ms_renumbered(moved(p, pos as int, new_index));
                        lemma_url_ms_moved(p, pos as int, new_index);
                        assert forall|u: Seq<char>| #[trigger] url_count(self@, u) <= 1 by {
                            assert(url_count(old(self)@, u) <= 1);
                        }
                        assert(first_id_at(old(self)@.paused_tasks, task_id@, pos as int));
                    }
                    true
                },
                None => false,
            },
        }
    }

    /// Pauses a single task. A queued task moves to the paused list; so
    /// does a running task (the caller then kills its process and keeps its
    /// cache). The task lands at the slot it left when it was last resumed
    /// (clamped to the list's end), else at the end; the slot is forgotten
    /// in every case. Returns whether a task moved.
    pub fn pause_task(&mut self, task_id: &str) -> (r: bool)
        requires
            wf(old(self)@),
        ensures
            wf(final(self)@),
            r == (has_id(old(self)@.queued, task_id@) || has_id(old(self)@.running, task_id@)),
            final(self)@ == pause_task_spec(old(self)@, task_id@),
    {
        let ghost o = self@;
        let slot = slots_remove(&mut self.paused_slots, task_id);
        proof {
            lemma_slots_without(old(self).paused_slots@, task_id@);
        }
        match deque_position(&self.queued, task_id) {
            Some(pos) => {
                let t = self.queued.remove(pos);
                match t {
                    Some(t) => {
                        proof {
                            lemma_url_ms_remove(o.queued, pos as int);
                            lemma_url_ms_paused_insert(o.paused_tasks, t, slot);
                            lemma_url_ms_count(o.queued, url_of(t));
                        }
                        self.insert_paused(t, slot);
                    },
                    None => {},
                }
                proof {
                    assert forall|u: Seq<char>| #[trigger] url_count(self@, u) <= 1 by {
                        assert(url_count(o, u) <= 1);
                    }
                    lemma_first_pos(o.queued, task_id@, pos as int);
                }
                true
            },
            None => match vec_position(&self.running, task_id) {
                Some(pos) => {
                    let t = self.running.remove(pos);
                    proof {
                        lemma_url_ms_remove(o.running, pos as int);
                        lemma_url_ms_paused_insert(o.paused_tasks, t, slot);
                        lemma_url_ms_count(o.running, url_of(t));
                    }
                    self.insert_paused(t, slot);
                    proof {
                        assert forall|u: Seq<char>| #[trigger] url_count(self@, u) <= 1 by {
                            assert(url_count(o, u) <= 1);
                        }
                        lemma_first_pos(o.running, task_id@, pos as int);
                    }
                    true
                },
                None => {
                    proof {
                        assert forall|u: Seq<char>| #[trigger] url_count(self@, u) <= 1 by {
                            assert(url_count(o, u) <= 1);
                        }
                    }
                    false
                },
            },
        }
    }

    /// Resumes a paused task: it leaves the paused list (its index there is
    /// remembered as its slot), is marked as resumed, clears the queue's
    /// paused flag and joins the end of the queue (the caller pumps
    /// afterwards). Nothing changes when no paused task has the id.
    pub fn resume_task(&mut self, task_id: &str)
        requires
            wf(old(self)@),
        ensures
            wf(final(self)@),
            final(self)@ == resume_task_spec(old(self)@, task_id@),
    {
        let ghost o = self@;
        match deque_position(&self.paused_tasks, task_id) {
            Some(pos) => {
                let t = self.paused_tasks.remove(pos);
                slots_remove(&mut self.paused_slots, task_id);
                self.paused_slots.push((task_id.to_string(), pos));
                proof {
                    lemma_slots_without(old(self).paused_slots@, task_id@);
                    let w = slots_without(old(self).paused_slots@, task_id@);
                    assert(self.paused_slots@.drop_last() =~= w);
                    assert(slot_map(self.paused_slots@) =~= o.slots.insert(task_id@, pos));
                }
                match t {
                    Some(mut t) => {
                        t.resume = true;
                        self.paused = false;
                        proof {
                            lemma_url_ms_remove(o.paused_tasks, pos as int);
                            lemma_url_ms_push(o.queued, t);
                            lemma_url_ms_count(o.paused_tasks, url_of(t));
                        }
                        self.queued.push_back(t);
                    },
                    None => {},
                }
                proof {
                    assert forall|u: Seq<char>| #[trigger] url_count(self@, u) <= 1 by {
                        assert(url_count(o, u) <= 1);
                    }
                    lemma_first_pos(o.paused_tasks, task_id@, pos as int);
                }
            },
            None => {},
        }
    }

    /// Pauses every task at once: the paused flag is set, the slots are
    /// forgotten, and the running tasks, then the queued ones, join the end
    /// of the paused list in their order. Returns the ids of the tasks that
    /// were running (whose processes the caller kills) followed by those
    /// that were queued.
    pub fn pause_all(&mut self) -> (r: Vec<String>)
        requires
            wf(old(self)@),
        ensures
            wf(final(self)@),
            final(self)@ == pause_all_spec(old(self)@),
            r@.len() == old(self)@.running.len() + old(self)@.queued.len(),
            forall|i: int|
                0 <= i < r@.len() ==> #[trigger] r@[i]@ == (old(self)@.running + old(self)@.queued)[i].id@,
    {
        let ghost o = self@;
        self.paused = true;
        self.paused_slots.clear();
        let mut ids: Vec<String> = Vec::new();
        let mut i: usize = 0;
        while i < self.running.len()
            invariant
                i <= self.running@.len(),
                self.running@ == o.running,
                self.queued@ == o.queued,
                self.paused,
                self.paused_slots@.len() == 0,
                self.next_seq == o.next_seq,
                self.paused_tasks@ == o.paused_tasks + o.running.take(i as int),
                ids@.len() == i,
                forall|j: int| 0 <= j < i ==> #[trigger] ids@[j]@ == o.running[j].id@,
            decreases self.running@.len() - i,
        {
            ids.push(self.running[i].id.clone());
            self.paused_tasks.push_back(self.running[i].copy());
            proof {
                assert(o.running.take(i + 1) =~= o.running.take(i as int).push(o.running[i as int]));
            }
            i = i + 1;
        }
        proof {
            assert(o.running.take(i as int) =~= o.running);
        }
        self.running.clear();
        let mut k: usize = 0;
        while k < self.queued.len()
            invariant
                k <= self.queued@.len(),
                self.queued@ == o.queued,
                self.running@.len() == 0,
                self.paused,
                self.paused_slots@.len() == 0,
                self.next_seq == o.next_seq,
                self.paused_tasks@ == o.paused_tasks + o.running,
                ids@.len() == o.running.len() + k,
                forall|j: int| 0 <= j < o.running.len() ==> #[trigger] ids@[j]@ == o.running[j].id@,
                forall|j: int| 0 <= j < k ==> #[trigger] ids@[o.running.len() + j]@ == o.queued[j].id@,
            decreases self.queued@.len() - k,
        {
            ids.push(self.queued[k].id.clone());
            k = k + 1;
        }
        self.paused_tasks.append(&mut self.queued);
        proof {
            assert(slot_map(self.paused_slots@) =~= Map::empty());
            lemma_url_ms_empty();
            lemma_url_ms_add(o.paused_tasks, o.running);
            lemma_url_ms_add(o.paused_tasks + o.running, o.queued);
            assert forall|u: Seq<char>| #[trigger] url_count(self@, u) <= 1 by {
                assert(url_count(o, u) <= 1);
            }
            assert forall|j: int| 0 <= j < ids@.len() implies #[trigger] ids@[j]@ == (o.running
                + o.queued)[j].id@ by {
                if j >= o.running.len() {
                    assert(ids@[o.running.len() + (j - o.running.len())]@ == o.queued[j
                        - o.running.len()].id@);
                }
            }
        }
        ids
    }

    /// Resumes every paused task: the paused flag and the slots are cleared
    /// and the paused tasks, marked as resumed, join the end of the queue
    /// in their order (the caller pumps afterwards). After `pause_all`,
    /// this gives back the order the tasks had.
    pub fn resume_all(&mut self)
        requires
            wf(old(self)@),
        ensures
            wf(final(self)@),
            final(self)@ == resume_all_spec(old(self)@),
    {
        let ghost o = self@;
        self.paused = false;
        self.paused_slots.clear();
        let n = self.paused_tasks.len();
        let mut i: usize = 0;
        while i < n
            invariant
                n == o.paused_tasks.len(),
                i <= n,
                self.paused_tasks@ == o.paused_tasks.subrange(i as int, n as int),
                self.queued@ == o.queued + all_resumed(o.paused_tasks.take(i as int)),
                self.running@ == o.running,
                !self.paused,
                self.paused_slots@.len() == 0,
                self.next_seq == o.next_seq,
            decreases n - i,
        {
            let t = self.paused_tasks.pop_front();
            proof {
                assert(o.paused_tasks.subrange(i as int, n as int)[0] == o.paused_tasks[i as int]);
                assert(o.paused_tasks.subrange(i as int, n as int).subrange(1, n - i)
                    =~= o.paused_tasks.subrange(i + 1, n as int));
            }
            match t {
                Some(mut t) => {
                    t.resume = true;
                    self.queued.push_back(t);
                },
                None => {},
            }
            proof {
                assert(self.queued@ =~= o.queued + all_resumed(o.paused_tasks.take(i + 1)));
            }
            i = i + 1;
        }
        proof {
            assert(o.paused_tasks.take(n as int) =~= o.paused_tasks);
            assert(self.paused_tasks@ =~= Seq::<QueuedTask>::empty());
            assert(slot_map(self.paused_slots@) =~= Map::empty());
            lemma_url_ms_empty();
            lemma_url_ms_all_resumed(o.paused_tasks);
            lemma_url_ms_add(o.queued, all_resumed(o.paused_tasks));
            assert forall|u: Seq<char>| #[trigger] url_count(self@, u) <= 1 by {
                assert(url_count(o, u) <= 1);
            }
        }
    }
}

/// The task with its card metadata replaced.
pub open spec fn with_info(t: QueuedTask, info: Option<String>) -> QueuedTask {
    QueuedTask { info, ..t }
}

/// One entry of the queue snapshot shown by the frontend.
#[derive(Debug, Clone)]
pub struct TaskStatus {
    pub task_id: String,
    pub seq: u64,
    pub url: String,
    pub title: Option<String>,
    /// "downloading" | "paused" | "queued".
    pub status: String,
    pub info: Option<String>,
    /// Readable source name ("single", "batch", ...).
    pub source: String,
}

/// `s` shows task `t` with status `label`.
pub open spec fn shows(s: TaskStatus, t: QueuedTask, label: Seq<char>) -> bool {
    &&& s.task_id == t.id
    &&& s.seq == t.seq
    &&& s.url == t.config.url
    &&& s.title == t.title
    &&& s.status@ == label
    &&& s.info == t.info
    &&& s.source@ == spec_source_name(t.source)
}

/// `p` is task `t` as persisted with state `label`.
pub open spec fn persisted_as(p: QueuedTask, t: QueuedTask, label: Seq<char>) -> bool {
    &&& p == QueuedTask { status: p.status, ..t }
    &&& p.status@ == label
}

/// The id counter after a restored task of id `id`: past the id when the id
/// is a number at or above the counter.
pub open spec fn noted_seq(cur: u64, id: Seq<char>) -> u64 {
    match parse_unsigned(id, u64::MAX as nat) {
        Some(n) => if n < u64::MAX && n + 1 > cur {
            (n + 1) as u64
        } else {
            cur
        },
        None => cur,
    }
}

/// Restoring one persisted task: a task whose URL is already held is
/// skipped; a paused one stays paused; a running one is queued again as
/// resumed; any other is queued.
pub open spec fn restore_step(v: QueueView, t: QueuedTask) -> QueueView {
    let v1 = QueueView { next_seq: noted_seq(v.next_seq, t.id@), ..v };
    if holds_url(v, url_of(t)) {
        v1
    } else if t.status@ == "paused"@ {
        QueueView { paused_tasks: v1.paused_tasks.push(t), ..v1 }
    } else if t.status@ == "running"@ {
        QueueView { queued: v1.queued.push(resumed(t)), ..v1 }
    } else {
        QueueView { queued: v1.queued.push(t), ..v1 }
    }
}

/// Restoring persisted tasks in order.
pub open spec fn restore_all(v: QueueView, s: Seq<QueuedTask>) -> QueueView
    decreases s.len(),
{
    if s.len() == 0 {
        v
    } else {
        restore_step(restore_all(v, s.drop_last()), s.last())
    }
}

/// The persisted tasks that restoring takes in (not skipped as duplicates).
pub open spec fn restored_list(v: QueueView, s: Seq<QueuedTask>) -> Seq<QueuedTask>
    decreases s.len(),
{
    if s.len() == 0 {
        Seq::empty()
    } else if holds_url(restore_all(v, s.drop_last()), url_of(s.last())) {
        restored_list(v, s.drop_last())
    } else {
        restored_list(v, s.drop_last()).push(s.last())
    }
}

proof fn lemma_restore_step_wf(v: QueueView, t: QueuedTask)
    requires
        wf(v),
    ensures
        wf(restore_step(v, t)),
{
    let w = restore_step(v, t);
    if !holds_url(v, url_of(t)) {
        lemma_url_ms_push(v.paused_tasks, t);
        lemma_url_ms_push(v.queued, resumed(t));
        lemma_url_ms_push(v.queued, t);
    }
    assert forall|u: Seq<char>| #[trigger] url_count(w, u) <= 1 by {
        assert(url_count(v, u) <= 1);
    }
}

impl DownloadQueue {
    /// Takes the next sequence number as a task id.
    pub fn gen_task_id(&mut self) -> (r: String)
        ensures
            r@ == dec(old(self)@.next_seq as nat),
            final(self)@ == (QueueView { next_seq: seq_after(old(self)@.next_seq), ..old(self)@ }),
    {
        let seq = self.next_seq;
        self.next_seq = self.next_seq.wrapping_add(1);
        u64_to_string(seq)
    }

    /// Moves the id counter past a restored task id, so that new ids stay
    /// unique.
    pub fn note_restored_id(&mut self, id: &str)
        ensures
            final(self)@ == (QueueView { next_seq: noted_seq(old(self)@.next_seq, id@), ..old(self)@ }),
    {
        match parse_u64(id) {
            Some(n) => {
                if n < u64::MAX && n + 1 > self.next_seq {
                    self.next_seq = n + 1;
                }
            },
            None => {},
        }
    }

    /// Cancels every queued and paused task and forgets the slots; running
    /// tasks stay listed until their workers end. Returns the ids of the
    /// running tasks (whose processes the caller kills) and the configs of
    /// every task, queued, paused then running (whose caches the caller
    /// removes).
    pub fn cancel_all(&mut self) -> (r: (Vec<String>, Vec<DownloadConfig>))
        requires
            wf(old(self)@),
        ensures
            wf(final(self)@),
            final(self)@ == (QueueView {
                queued: Seq::empty(),
                paused_tasks: Seq::empty(),
                slots: Map::empty(),
                ..old(self)@
            }),
            r.0@.len() == old(self)@.running.len(),
            forall|i: int| 0 <= i < r.0@.len() ==> #[trigger] r.0@[i]@ == old(self)@.running[i].id@,
            r.1@.len() == lookup_order(old(self)@).len(),
            forall|i: int| 0 <= i < r.1@.len() ==> #[trigger] r.1@[i] == lookup_order(old(self)@)[i].config,
    {
        let ghost all = lookup_order(self@);
        let mut configs: Vec<DownloadConfig> = Vec::new();
        let mut i: usize = 0;
        while i < self.queued.len()
            invariant
                i <= self.queued@.len(),
                self@ == old(self)@,
                all == lookup_order(old(self)@),
                configs@.len() == i,
                forall|j: int| 0 <= j < i ==> #[trigger] configs@[j] == all[j].config,
            decreases self.queued@.len() - i,
        {
            configs.push(self.queued[i].config.copy());
            i = i + 1;
        }
        let mut i: usize = 0;
        while i < self.paused_tasks.len()
            invariant
                i <= self.paused_tasks@.len(),
                self@ == old(self)@,
                all == lookup_order(old(self)@),
                configs@.len() == self.queued@.len() + i,
                forall|j: int| 0 <= j < configs@.len() ==> #[trigger] configs@[j] == all[j].config,
            decreases self.paused_tasks@.len() - i,
        {
            configs.push(self.paused_tasks[i].config.copy());
            i = i + 1;
        }
        let mut ids: Vec<String> = Vec::new();
        let mut i: usize = 0;
        while i < self.running.len()
            invariant
                i <= self.running@.len(),
                self@ == old(self)@,
                all == lookup_order(old(self)@),
                configs@.len() == self.queued@.len() + self.paused_tasks@.len() + i,
                forall|j: int| 0 <= j < configs@.len() ==> #[trigger] configs@[j] == all[j].config,
                ids@.len() == i,
                forall|j: int| 0 <= j < i ==> #[trigger] ids@[j]@ == self.running@[j].id@,
            decreases self.running@.len() - i,
        {
            configs.push(self.running[i].config.copy());
            ids.push(self.running[i].id.clone());
            i = i + 1;
        }
        self.queued.clear();
        self.paused_tasks.clear();
        self.paused_slots.clear();
        proof {
            lemma_url_ms_empty();
            assert(slot_map(self.paused_slots@) =~= Map::empty());
            assert forall|u: Seq<char>| #[trigger] url_count(self@, u) <= 1 by {
                assert(url_count(old(self)@, u) <= 1);
            }
        }
        (ids, configs)
    }

    /// Replaces the card metadata of the first task of id `id`, looking in
    /// the queued, then the running, then the paused list. Nothing changes
    /// when no task has the id.
    pub fn update_info(&mut self, id: &str, info: Option<String>)
        requires
            wf(old(self)@),
        ensures
            wf(final(self)@),
            has_id(old(self)@.queued, id@) ==> exists|pos: int|
                first_id_at(old(self)@.queued, id@, pos) && final(self)@ == (QueueView {
                    queued: old(self)@.queued.update(pos, with_info(old(self)@.queued[pos], info)),
                    ..old(self)@
                }),
            !has_id(old(self)@.queued, id@) && has_id(old(self)@.running, id@) ==> exists|pos: int|
                first_id_at(old(self)@.running, id@, pos) && final(self)@ == (QueueView {
                    running: old(self)@.running.update(pos, with_info(old(self)@.running[pos], info)),
                    ..old(self)@
                }),
            !has_id(old(self)@.queued, id@) && !has_id(old(self)@.running, id@) && has_id(
                old(self)@.paused_tasks,
                id@,
            ) ==> exists|pos: int|
                first_id_at(old(self)@.paused_tasks, id@, pos) && final(self)@ == (QueueView {
                    paused_tasks: old(self)@.paused_tasks.update(
                        pos,
                        with_info(old(self)@.paused_tasks[pos], info),
                    ),
                    ..old(self)@
                }),
            !has_id(old(self)@.queued, id@) && !has_id(old(self)@.running, id@) && !has_id(
                old(self)@.paused_tasks,
                id@,
            ) ==> final(self)@ == old(self)@,
    {
        let ghost o = self@;
        match deque_position(&self.queued, id) {
            Some(pos) => {
                let t = self.queued.remove(pos);
                match t {
                    Some(mut t) => {
                        t.info = info;
                        self.queued.insert(pos, t);
                        proof {
                            assert(self.queued@ =~= o.queued.update(pos as int, with_info(o.queued[pos as int], self.queued@[pos as int].info)));
                        }
                    },
                    None => {},
                }
                proof {
                    lemma_url_ms_same_urls(self.queued@, o.queued);
                    assert forall|u: Seq<char>| #[trigger] url_count(self@, u) <= 1 by {
                        assert(url_count(o, u) <= 1);
                    }
                    assert(first_id_at(o.queued, id@, pos as int));
                }
            },
            None => match vec_position(&self.running, id) {
                Some(pos) => {
                    let mut t = self.running.remove(pos);
                    t.info = info;
                    self.running.insert(pos, t);
                    proof {
                        assert(self.running@ =~= o.running.update(pos as int, with_info(o.running[pos as int], self.running@[pos as int].info)));
                        lemma_url_ms_same_urls(self.running@, o.running);
                        assert forall|u: Seq<char>| #[trigger] url_count(self@, u) <= 1 by {
                            assert(url_count(o, u) <= 1);
                        }
                        assert(first_id_at(o.running, id@, pos as int));
                    }
                },
                None => match deque_position(&self.paused_tasks, id) {
                    Some(pos) => {
                        let t = self.paused_tasks.remove(pos);
                        match t {
                            Some(mut t) => {
                                t.info = info;
                                self.paused_tasks.insert(pos, t);
                                proof {
                                    assert(self.paused_tasks@ =~= o.paused_tasks.update(pos as int, with_info(o.paused_tasks[pos as int], self.paused_tasks@[pos as int].info)));
                                }
                            },
                            None => {},
                        }
                        proof {
                            lemma_url_ms_same_urls(self.paused_tasks@, o.paused_tasks);
                            assert forall|u: Seq<char>| #[trigger] url_count(self@, u) <= 1 by {
                                assert(url_count(o, u) <= 1);
                            }
                            assert(first_id_at(o.paused_tasks, id@, pos as int));
                        }
                    },
                    None => {},
                },
            },
        }
    }

    /// The snapshot shown by the frontend: running tasks ("downloading"),
    /// then paused ones, then queued ones.
    pub fn status(&self) -> (r: Vec<TaskStatus>)
        ensures
            r@.len() == self@.running.len() + self@.paused_tasks.len() + self@.queued.len(),
            forall|i: int|
                0 <= i < self@.running.len() ==> shows(#[trigger] r@[i], self@.running[i], "downloading"@),
            forall|i: int|
                0 <= i < self@.paused_tasks.len() ==> shows(
                    #[trigger] r@[self@.running.len() + i],
                    self@.paused_tasks[i],
                    "paused"@,
                ),
            forall|i: int|
                0 <= i < self@.queued.len() ==> shows(
                    #[trigger] r@[self@.running.len() + self@.paused_tasks.len() + i],
                    self@.queued[i],
                    "queued"@,
                ),
    {
        let mut items: Vec<TaskStatus> = Vec::new();
        let mut i: usize = 0;
        while i < self.running.len()
            invariant
                i <= self.running@.len(),
                items@.len() == i,
                forall|j: int| 0 <= j < i ==> shows(#[trigger] items@[j], self@.running[j], "downloading"@),
            decreases self.running@.len() - i,
        {
            items.push(status_item(&self.running[i], "downloading"));
            i = i + 1;
        }
        let mut i: usize = 0;
        while i < self.paused_tasks.len()
            invariant
                i <= self.paused_tasks@.len(),
                items@.len() == self@.running.len() + i,
                forall|j: int|
                    0 <= j < self@.running.len() ==> shows(#[trigger] items@[j], self@.running[j], "downloading"@),
                forall|j: int|
                    0 <= j < i ==> shows(#[trigger] items@[self@.running.len() + j], self@.paused_tasks[j], "paused"@),
            decreases self.paused_tasks@.len() - i,
        {
            items.push(status_item(&self.paused_tasks[i], "paused"));
            i = i + 1;
        }
        let mut i: usize = 0;
        while i < self.queued.len()
            invariant
                i <= self.queued@.len(),
                items@.len() == self@.running.len() + self@.paused_tasks.len() + i,
                forall|j: int|
                    0 <= j < self@.running.len() ==> shows(#[trigger] items@[j], self@.running[j], "downloading"@),
                forall|j: int|
                    0 <= j < self@.paused_tasks.len() ==> shows(
                        #[trigger] items@[self@.running.len() + j],
                        self@.paused_tasks[j],
                        "paused"@,
                    ),
                forall|j: int|
                    0 <= j < i ==> shows(
                        #[trigger] items@[self@.running.len() + self@.paused_tasks.len() + j],
                        self@.queued[j],
                        "queued"@,
                    ),
            decreases self.queued@.len() - i,
        {
            items.push(status_item(&self.queued[i], "queued"));
            i = i + 1;
        }
        items
    }

    /// The tasks to persist, each with its state: queued, then running,
    /// then paused.
    pub fn persisted_tasks(&self) -> (r: Vec<QueuedTask>)
        ensures
            r@.len() == self@.queued.len() + self@.running.len() + self@.paused_tasks.len(),
            forall|i: int|
                0 <= i < self@.queued.len() ==> persisted_as(#[trigger] r@[i], self@.queued[i], "queued"@),
            forall|i: int|
                0 <= i < self@.running.len() ==> persisted_as(
                    #[trigger] r@[self@.queued.len() + i],
                    self@.running[i],
                    "running"@,
                ),
            forall|i: int|
                0 <= i < self@.paused_tasks.len() ==> persisted_as(
                    #[trigger] r@[self@.queued.len() + self@.running.len() + i],
                    self@.paused_tasks[i],
                    "paused"@,
                ),
    {
        let mut out: Vec<QueuedTask> = Vec::new();
        let mut i: usize = 0;
        while i < self.queued.len()
            invariant
                i <= self.queued@.len(),
                out@.len() == i,
                forall|j: int| 0 <= j < i ==> persisted_as(#[trigger] out@[j], self@.queued[j], "queued"@),
            decreases self.queued@.len() - i,
        {
            let mut x = self.queued[i].copy();
            x.status = "queued".to_string();
            out.push(x);
            i = i + 1;
        }
        let mut i: usize = 0;
        while i < self.running.len()
            invariant
                i <= self.running@.len(),
                out@.len() == self@.queued.len() + i,
                forall|j: int|
                    0 <= j < self@.queued.len() ==> persisted_as(#[trigger] out@[j], self@.queued[j], "queued"@),
                forall|j: int|
                    0 <= j < i ==> persisted_as(#[trigger] out@[self@.queued.len() + j], self@.running[j], "running"@),
            decreases self.running@.len() - i,
        {
            let mut x = self.running[i].copy();
            x.status = "running".to_string();
            out.push(x);
            i = i + 1;
        }
        let mut i: usize = 0;
        while i < self.paused_tasks.len()
            invariant
                i <= self.paused_tasks@.len(),
                out@.len() == self@.queued.len() + self@.running.len() + i,
                forall|j: int|
                    0 <= j < self@.queued.len() ==> persisted_as(#[trigger] out@[j], self@.queued[j], "queued"@),
                forall|j: int|
                    0 <= j < self@.running.len() ==> persisted_as(
                        #[trigger] out@[self@.queued.len() + j],
                        self@.running[j],
                        "running"@,
                    ),
                forall|j: int|
                    0 <= j < i ==> persisted_as(
                        #[trigger] out@[self@.queued.len() + self@.running.len() + j],
                        self@.paused_tasks[j],
                        "paused"@,
                    ),
            decreases self.paused_tasks@.len() - i,
        {
            let mut x = self.paused_tasks[i].copy();
            x.status = "paused".to_string();
            out.push(x);
            i = i + 1;
        }
        out
    }

    /// Restores persisted tasks in order (see [`restore_step`]) and returns
    /// the ones taken in; the caller announces them and pumps afterwards.
    pub fn restore(&mut self, tasks: Vec<QueuedTask>) -> (r: Vec<QueuedTask>)
        requires
            wf(old(self)@),
        ensures
            wf(final(self)@),
            final(self)@ == restore_all(old(self)@, tasks@),
            r@ == restored_list(old(self)@, tasks@),
    {
        let mut restored: Vec<QueuedTask> = Vec::new();
        let mut i: usize = 0;
        while i < tasks.len()
            invariant
                i <= tasks@.len(),
                wf(self@),
                self@ == restore_all(old(self)@, tasks@.take(i as int)),
                restored@ == restored_list(old(self)@, tasks@.take(i as int)),
            decreases tasks@.len() - i,
        {
            let ghost before = self@;
            let t = tasks[i].copy();
            proof {
                assert(tasks@.take(i + 1).drop_last() =~= tasks@.take(i as int));
                assert(tasks@.take(i + 1).last() == t);
                lemma_restore_step_wf(before, t);
            }
            self.note_restored_id(t.id.as_str());
            if self.holds(&t.config.url) {
                i = i + 1;
                continue;
            }
            restored.push(t.copy());
            if str_eq(t.status.as_str(), "paused") {
                self.paused_tasks.push_back(t);
            } else if str_eq(t.status.as_str(), "running") {
                let mut x = t;
                x.resume = true;
                self.queued.push_back(x);
            } else {
                self.queued.push_back(t);
            }
            i = i + 1;
        }
        proof {
            assert(tasks@.take(i as int) =~= tasks@);
        }
        restored
    }
}

/// The snapshot entry of a task.
fn status_item(t: &QueuedTask, label: &str) -> (r: TaskStatus)
    ensures
        shows(r, *t, label@),
{
    TaskStatus {
        task_id: t.id.clone(),
        seq: t.seq,
        url: t.config.url.clone(),
        title: copy_opt(&t.title),
        status: label.to_string(),
        info: copy_opt(&t.info),
        source: source_name(t.source),
    }
}

// ==================== Laws ====================

/// Pausing everything and then resuming everything brings back the order
/// the tasks had: the queue then holds the previously paused tasks, then
/// the previously running ones, then the previously queued ones, each
/// marked as resumed, and nothing is running or paused.
pub proof fn law_pause_all_then_resume_all(v: QueueView)
    ensures
        resume_all_spec(pause_all_spec(v)) == (QueueView {
            queued: all_resumed(v.paused_tasks + v.running + v.queued),
            running: Seq::empty(),
            paused_tasks: Seq::empty(),
            paused: false,
            slots: Map::empty(),
            next_seq: v.next_seq,
        }),
        ids(resume_all_spec(pause_all_spec(v)).queued) == ids(v.paused_tasks + v.running + v.queued),
{
    let all = v.paused_tasks + v.running + v.queued;
    assert(Seq::<QueuedTask>::empty() + all_resumed(all) =~= all_resumed(all));
    assert(ids(all_resumed(all)) =~= ids(all));
}

/// Resuming a paused task and pausing it again, before anything else
/// happens, puts it back at the index it left (the task now marked as
/// resumed), leaves the queue as it was and forgets the remembered slot.
pub proof fn law_resume_then_pause_task(v: QueueView, id: Seq<char>, pos: int)
    requires
        first_id_at(v.paused_tasks, id, pos),
        !has_id(v.queued, id),
        v.paused_tasks.len() <= usize::MAX,
    ensures
        pause_task_spec(resume_task_spec(v, id), id) == (QueueView {
            paused_tasks: v.paused_tasks.update(pos, resumed(v.paused_tasks[pos])),
            paused: false,
            slots: v.slots.remove(id),
            ..v
        }),
        ids(pause_task_spec(resume_task_spec(v, id), id).paused_tasks) == ids(v.paused_tasks),
{
    lemma_first_pos(v.paused_tasks, id, pos);
    let rt = resumed(v.paused_tasks[pos]);
    let mid = resume_task_spec(v, id);
    assert(mid.queued == v.queued.push(rt));
    let qn = v.queued.len() as int;
    assert forall|j: int| 0 <= j < qn implies #[trigger] mid.queued[j].id@ != id by {
        assert(mid.queued[j] == v.queued[j]);
        if v.queued[j].id@ == id {
            assert(has_id(v.queued, id));
        }
    }
    assert(first_id_at(mid.queued, id, qn));
    lemma_first_pos(mid.queued, id, qn);
    assert(mid.queued.remove(qn) =~= v.queued);
    assert(slot_of(mid.slots, id) == Some(pos as usize));
    let rest = v.paused_tasks.remove(pos);
    assert(paused_insert(rest, rt, Some(pos as usize)) =~= v.paused_tasks.update(pos, rt));
    assert(mid.slots.remove(id) =~= v.slots.remove(id));
    let w = pause_task_spec(mid, id);
    assert(ids(w.paused_tasks) =~= ids(v.paused_tasks));
}

/// Moving a task within its list keeps the same tasks (by id), puts the
/// moved task at `min(new_index, len - 1)` and numbers every task by its
/// index.
pub proof fn law_reorder_is_a_move(s: Seq<QueuedTask>, pos: int, new_index: usize)
    requires
        0 <= pos < s.len(),
        s.len() <= u64::MAX,
    ensures
        ids(renumbered(moved(s, pos, new_index))).to_multiset() == ids(s).to_multiset(),
        renumbered(moved(s, pos, new_index)).len() == s.len(),
        renumbered(moved(s, pos, new_index))[if new_index < s.len() - 1 {
            new_index as int
        } else {
            s.len() - 1
        }].id == s[pos].id,
        forall|i: int|
            0 <= i < s.len() ==> #[trigger] renumbered(moved(s, pos, new_index))[i].seq == i,
{
    let rest = s.remove(pos);
    let target = if new_index < rest.len() {
        new_index as int
    } else {
        rest.len() as int
    };
    let ms = moved(s, pos, new_index);
    assert(ids(renumbered(ms)) =~= ids(ms));
    let is = ids(s);
    assert(ids(rest) =~= is.remove(pos));
    assert(ids(ms) =~= ids(rest).insert(target, s[pos].id@));
    vstd::seq_lib::to_multiset_remove(is, pos);
    vstd::seq_lib::to_multiset_insert(ids(rest), target, s[pos].id@);
    vstd::seq_lib::to_multiset_contains(is, s[pos].id@);
    assert(is[pos] == s[pos].id@);
    assert(is.contains(s[pos].id@));
}

/// A cancelled id is gone from every list, and a task just added and then
/// cancelled leaves a list as it was (when no other task has its id).
pub proof fn law_cancel_undoes_add(s: Seq<QueuedTask>, t: QueuedTask)
    requires
        !has_id(s, t.id@),
    ensures
        without_id(s.push(t), t.id@) == s,
        !has_id(without_id(s.push(t), t.id@), t.id@),
{
    assert(s.push(t).drop_last() =~= s);
    lemma_without_absent(s, t.id@);
    lemma_without_gone(s.push(t), t.id@);
}

/// A URL held by the queue stays held when a task joins the queue.
pub proof fn lemma_holds_after_push(v: QueueView, t: QueuedTask, u: Seq<char>)
    ensures
        holds_url(v, u) ==> holds_url(QueueView { queued: v.queued.push(t), ..v }, u),
        holds_url(QueueView { queued: v.queued.push(t), ..v }, url_of(t)),
        holds_url(QueueView { queued: v.queued.push(t), ..v }, u) ==> holds_url(v, u) || u == url_of(t),
{
    lemma_url_ms_push(v.queued, t);
}

/// A URL held by the queue stays held when only the sequence counter moves.
pub proof fn lemma_holds_after_seq(v: QueueView, n: u64, u: Seq<char>)
    requires
        holds_url(v, u),
    ensures
        holds_url(QueueView { next_seq: n, ..v }, u),
{
}

} // verus!
