//! Optional, bounded observations of work without a terminal pane.
use vstd::prelude::*;

use crate::text::{
    byte_len, contains_control, has_control, is_control_char, text_before, text_eq, text_less,
    utf8_len,
};

verus! {

/// A moment on a monotonic clock: nanoseconds since some fixed start.
pub type Nanos = u128;

/// One piece of work under way somewhere without a pane.
#[derive(Debug, PartialEq, Eq)]
pub struct ActivityTask {
    pub id: String,
    pub request_id: String,
    pub harness: String,
    pub workspace: String,
    pub status: String,
    pub progress: String,
    pub model: Option<String>,
    pub effort: Option<String>,
    pub elapsed_seconds: Option<u64>,
}

/// What a source reports: the whole of its current tasks, for a limited time.
#[derive(Debug, PartialEq, Eq)]
pub struct ActivityReportParams {
    pub source: String,
    pub seq: u64,
    pub ttl_ms: u64,
    pub tasks: Vec<ActivityTask>,
    pub omitted: u32,
}

/// The tasks of one source.
#[derive(Debug, PartialEq, Eq)]
pub struct ActivitySource {
    pub source: String,
    pub tasks: Vec<ActivityTask>,
    pub omitted: u32,
}

/// Copies an optional text.
fn copy_text(text: &Option<String>) -> (copy: Option<String>)
    ensures
        copy == *text,
{
    match text {
        Some(s) => Some(s.clone()),
        None => None,
    }
}

impl Clone for ActivityTask {
    fn clone(&self) -> (copy: Self)
        ensures
            copy == *self,
    {
        ActivityTask {
            id: self.id.clone(),
            request_id: self.request_id.clone(),
            harness: self.harness.clone(),
            workspace: self.workspace.clone(),
            status: self.status.clone(),
            progress: self.progress.clone(),
            model: copy_text(&self.model),
            effort: copy_text(&self.effort),
            elapsed_seconds: self.elapsed_seconds,
        }
    }
}

/// Copies tasks in their order.
fn copy_tasks(tasks: &Vec<ActivityTask>) -> (copy: Vec<ActivityTask>)
    ensures
        copy@ == tasks@,
{
    let mut copy: Vec<ActivityTask> = Vec::new();
    let mut i: usize = 0;
    while i < tasks.len()
        invariant
            i <= tasks@.len(),
            copy@ == tasks@.take(i as int),
        decreases tasks@.len() - i,
    {
        let task = &tasks[i];
        copy.push(task.clone());
        assert(tasks@.take(i + 1) =~= tasks@.take(i as int).push(tasks@[i as int]));
        i = i + 1;
    }
    assert(tasks@.take(i as int) =~= tasks@);
    copy
}

impl Clone for ActivityReportParams {
    fn clone(&self) -> (copy: Self)
        ensures
            copy.source == self.source,
            copy.seq == self.seq,
            copy.ttl_ms == self.ttl_ms,
            copy.tasks@ == self.tasks@,
            copy.omitted == self.omitted,
    {
        ActivityReportParams {
            source: self.source.clone(),
            seq: self.seq,
            ttl_ms: self.ttl_ms,
            tasks: copy_tasks(&self.tasks),
            omitted: self.omitted,
        }
    }
}

impl Clone for ActivitySource {
    fn clone(&self) -> (copy: Self)
        ensures
            copy@ == self@,
    {
        ActivitySource {
            source: self.source.clone(),
            tasks: copy_tasks(&self.tasks),
            omitted: self.omitted,
        }
    }
}

/// The content of an `ActivitySource`.
pub struct SourceModel {
    pub source: Seq<char>,
    pub tasks: Seq<ActivityTask>,
    pub omitted: u32,
}

impl View for ActivitySource {
    type V = SourceModel;

    open spec fn view(&self) -> SourceModel {
        SourceModel { source: self.source@, tasks: self.tasks@, omitted: self.omitted }
    }
}

/// What is held of one source: the number of its last report, the moment up to which that counts,
/// and what it said.
pub struct ReportModel {
    pub seq: u64,
    pub deadline: Nanos,
    pub said: SourceModel,
}

struct Entry {
    seq: u64,
    deadline: Nanos,
    said: ActivitySource,
}

impl Entry {
    spec fn key(self) -> Seq<char> {
        self.said.source@
    }

    spec fn model(self) -> ReportModel {
        ReportModel { seq: self.seq, deadline: self.deadline, said: self.said@ }
    }
}

/// The current reports of all sources.
pub struct ActivityState {
    entries: Vec<Entry>,
}

spec fn sorted(entries: Seq<Entry>) -> bool {
    forall|i: int, j: int|
        0 <= i < j < entries.len() ==> text_less(
            (#[trigger] entries[i]).key(),
            (#[trigger] entries[j]).key(),
        )
}

spec fn by_source(entries: Seq<Entry>) -> Map<Seq<char>, ReportModel>
    decreases entries.len(),
{
    if entries.len() == 0 {
        Map::empty()
    } else {
        by_source(entries.drop_last()).insert(entries.last().key(), entries.last().model())
    }
}

/// A text short enough to show, without control characters.
pub open spec fn text_ok(s: Seq<char>) -> bool {
    utf8_len(s) <= 256 && !has_control(s)
}

pub open spec fn optional_text_ok(s: Option<String>) -> bool {
    s matches Some(text) ==> text_ok(text@)
}

/// A task with a name, all of its texts in bounds.
pub open spec fn task_ok(task: ActivityTask) -> bool {
    &&& task.id@.len() > 0
    &&& text_ok(task.id@)
    &&& text_ok(task.request_id@)
    &&& text_ok(task.harness@)
    &&& text_ok(task.workspace@)
    &&& text_ok(task.status@)
    &&& text_ok(task.progress@)
    &&& optional_text_ok(task.model)
    &&& optional_text_ok(task.effort)
}

/// Every task in bounds, no two with one name.
pub open spec fn tasks_ok(tasks: Seq<ActivityTask>) -> bool {
    &&& forall|i: int| 0 <= i < tasks.len() ==> task_ok(#[trigger] tasks[i])
    &&& forall|i: int, j: int|
        0 <= i < j < tasks.len() ==> (#[trigger] tasks[i]).id@ != (#[trigger] tasks[j]).id@
}

pub open spec fn source_ok(source: Seq<char>) -> bool {
    source.len() > 0 && utf8_len(source) <= 64 && !has_control(source)
}

/// The report names its source, counts for up to two minutes and has at most a hundred tasks.
pub open spec fn bounds_ok(report: ActivityReportParams) -> bool {
    &&& source_ok(report.source@)
    &&& 1 <= report.ttl_ms <= 120_000
    &&& report.tasks@.len() <= 100
}

/// Everything that is held of a source is in bounds.
pub open spec fn held_ok(report: ReportModel) -> bool {
    &&& source_ok(report.said.source)
    &&& report.said.tasks.len() <= 100
    &&& tasks_ok(report.said.tasks)
}

/// The reports that still count at a moment.
pub open spec fn live(held: Map<Seq<char>, ReportModel>, now: Nanos) -> Map<Seq<char>, ReportModel> {
    Map::new(
        |source: Seq<char>| held.contains_key(source) && held[source].deadline > now,
        |source: Seq<char>| held[source],
    )
}

/// What a report leaves behind when it is taken.
pub open spec fn taken(report: ActivityReportParams, now: Nanos) -> ReportModel {
    ReportModel {
        seq: report.seq,
        deadline: (now + report.ttl_ms * 1_000_000) as u128,
        said: SourceModel {
            source: report.source@,
            tasks: report.tasks@,
            omitted: report.omitted,
        },
    }
}

/// A live report of the same source is at least as new.
pub open spec fn outdated(
    held: Map<Seq<char>, ReportModel>,
    report: ActivityReportParams,
    now: Nanos,
) -> bool {
    live(held, now).contains_key(report.source@) && report.seq <= live(
        held,
        now,
    )[report.source@].seq
}

/// The source is new and eight others are live.
pub open spec fn crowded(
    held: Map<Seq<char>, ReportModel>,
    report: ActivityReportParams,
    now: Nanos,
) -> bool {
    !live(held, now).contains_key(report.source@) && live(held, now).len() >= 8
}

/// The report is in bounds, newer than what is held and has room.
pub open spec fn takes(
    held: Map<Seq<char>, ReportModel>,
    report: ActivityReportParams,
    now: Nanos,
) -> bool {
    bounds_ok(report) && tasks_ok(report.tasks@) && !outdated(held, report, now) && !crowded(
        held,
        report,
        now,
    )
}

/// What is held after a report, and the answer to it: whether it changed anything, or why it was
/// refused.
pub open spec fn answered(
    held: Map<Seq<char>, ReportModel>,
    report: ActivityReportParams,
    now: Nanos,
) -> (Map<Seq<char>, ReportModel>, Result<bool, Seq<char>>) {
    if !bounds_ok(report) {
        (held, Err("activity requires a source, 1..120000ms TTL, and at most 100 tasks"@))
    } else if !tasks_ok(report.tasks@) {
        (
            held,
            Err("activity task ids must be unique; text must be bounded and contain no controls"@),
        )
    } else if outdated(held, report, now) {
        (live(held, now), Ok(false))
    } else if crowded(held, report, now) {
        (live(held, now), Err("at most 8 activity sources are allowed"@))
    } else {
        (live(held, now).insert(report.source@, taken(report, now)), Ok(true))
    }
}

/// The answer to a report, its message by its characters.
pub open spec fn answer_view(answer: Result<bool, &'static str>) -> Result<bool, Seq<char>> {
    match answer {
        Ok(changed) => Ok(changed),
        Err(message) => Err(message@),
    }
}

/// The moment is the first at which a report is over; there is none where nothing is held.
pub open spec fn is_first_expiry(
    held: Map<Seq<char>, ReportModel>,
    moment: Option<Nanos>,
) -> bool {
    match moment {
        Some(deadline) => {
            &&& exists|name: Seq<char>| #[trigger]
                held.contains_key(name) && held[name].deadline == deadline
            &&& forall|name: Seq<char>| #[trigger]
                held.contains_key(name) ==> deadline <= held[name].deadline
        },
        None => held == Map::<Seq<char>, ReportModel>::empty(),
    }
}

/// A source has something to show.
pub open spec fn visible(report: ReportModel) -> bool {
    report.said.tasks.len() > 0 || report.said.omitted > 0
}

impl ActivityState {
    /// What is held of each source.
    pub closed spec fn view(&self) -> Map<Seq<char>, ReportModel> {
        by_source(self.entries@)
    }

    /// At most eight sources, each held under its name and in bounds.
    pub closed spec fn wf(&self) -> bool {
        &&& sorted(self.entries@)
        &&& self.entries@.len() <= 8
        &&& forall|i: int| 0 <= i < self.entries@.len() ==> held_ok((#[trigger] self.entries@[i]).model())
    }
}

proof fn lemma_by_source(entries: Seq<Entry>)
    requires
        sorted(entries),
    ensures
        by_source(entries).dom().finite(),
        by_source(entries).len() == entries.len(),
        forall|i: int|
            0 <= i < entries.len() ==> {
                &&& by_source(entries).contains_key((#[trigger] entries[i]).key())
                &&& by_source(entries)[entries[i].key()] == entries[i].model()
            },
        forall|k: Seq<char>| #[trigger]
            by_source(entries).contains_key(k) ==> exists|i: int|
                0 <= i < entries.len() && (#[trigger] entries[i]).key() == k,
    decreases entries.len(),
{
    if entries.len() > 0 {
        let front = entries.drop_last();
        let n = entries.len() - 1;
        assert(sorted(front)) by {
            assert forall|i: int, j: int| 0 <= i < j < front.len() implies text_less(
                (#[trigger] front[i]).key(),
                (#[trigger] front[j]).key(),
            ) by {
                assert(text_less(entries[i].key(), entries[j].key()));
            }
        }
        lemma_by_source(front);
        let last = entries[n].key();
        assert forall|i: int| 0 <= i < n implies (#[trigger] entries[i]).key() != last by {
            assert(text_less(entries[i].key(), entries[n].key()));
            crate::text::lemma_text_order(entries[i].key(), last, last);
        }
        assert(!by_source(front).contains_key(last)) by {
            if by_source(front).contains_key(last) {
                let i = choose|i: int| 0 <= i < front.len() && (#[trigger] front[i]).key() == last;
                assert(entries[i].key() == last);
            }
        }
        assert forall|i: int| 0 <= i < entries.len() implies {
            &&& by_source(entries).contains_key((#[trigger] entries[i]).key())
            &&& by_source(entries)[entries[i].key()] == entries[i].model()
        } by {
            if i < n {
                assert(front[i] == entries[i]);
            }
        }
        assert forall|k: Seq<char>| #[trigger] by_source(entries).contains_key(k) implies exists|
            i: int,
        | 0 <= i < entries.len() && (#[trigger] entries[i]).key() == k by {
            if k == last {
                assert(entries[n].key() == k);
            } else {
                assert(by_source(front).contains_key(k));
                let i = choose|i: int| 0 <= i < front.len() && (#[trigger] front[i]).key() == k;
                assert(entries[i].key() == k);
            }
        }
    }
}

/// Two sorted lists of entries stand for the same if each entry of one is in the other.
proof fn lemma_live(entries: Seq<Entry>, kept: Seq<Entry>, now: Nanos)
    requires
        sorted(entries),
        sorted(kept),
        forall|i: int|
            0 <= i < entries.len() && (#[trigger] entries[i]).deadline > now ==> kept.contains(
                entries[i],
            ),
        forall|i: int|
            0 <= i < kept.len() ==> entries.contains(#[trigger] kept[i]) && kept[i].deadline > now,
    ensures
        by_source(kept) == live(by_source(entries), now),
{
    lemma_by_source(entries);
    lemma_by_source(kept);
    let held = by_source(entries);
    assert forall|k: Seq<char>| by_source(kept).contains_key(k) implies live(held, now).contains_key(
        k,
    ) && live(held, now)[k] == by_source(kept)[k] by {
        let i = choose|i: int| 0 <= i < kept.len() && (#[trigger] kept[i]).key() == k;
        let j = choose|j: int| 0 <= j < entries.len() && entries[j] == kept[i];
        assert(entries[j].key() == k);
    }
    assert forall|k: Seq<char>| live(held, now).contains_key(k) implies by_source(
        kept,
    ).contains_key(k) by {
        let j = choose|j: int| 0 <= j < entries.len() && (#[trigger] entries[j]).key() == k;
        let i = choose|i: int| 0 <= i < kept.len() && kept[i] == entries[j];
        assert(kept[i].key() == k);
    }
    assert(by_source(kept) =~= live(held, now));
}

/// Whether a text is short enough to show and free of control characters.
fn is_text_ok(text: &str) -> (b: bool)
    ensures
        b == text_ok(text@),
{
    byte_len(text) <= 256 && !contains_control(text)
}

fn is_optional_text_ok(text: &Option<String>) -> (b: bool)
    ensures
        b == optional_text_ok(*text),
{
    match text {
        Some(s) => is_text_ok(s.as_str()),
        None => true,
    }
}

fn is_task_ok(task: &ActivityTask) -> (b: bool)
    ensures
        b == task_ok(*task),
{
    !task.id.as_str().is_empty() && is_text_ok(task.id.as_str()) && is_text_ok(
        task.request_id.as_str(),
    ) && is_text_ok(task.harness.as_str()) && is_text_ok(task.workspace.as_str()) && is_text_ok(
        task.status.as_str(),
    ) && is_text_ok(task.progress.as_str()) && is_optional_text_ok(&task.model)
        && is_optional_text_ok(&task.effort)
}

fn are_tasks_ok(tasks: &Vec<ActivityTask>) -> (b: bool)
    ensures
        b == tasks_ok(tasks@),
{
    let mut i: usize = 0;
    while i < tasks.len()
        invariant
            i <= tasks@.len(),
            forall|a: int| 0 <= a < i ==> task_ok(#[trigger] tasks@[a]),
            forall|a: int, c: int|
                0 <= a < c < i ==> (#[trigger] tasks@[a]).id@ != (#[trigger] tasks@[c]).id@,
        decreases tasks@.len() - i,
    {
        if !is_task_ok(&tasks[i]) {
            assert(!task_ok(tasks@[i as int]));
            return false;
        }
        let mut j: usize = 0;
        while j < i
            invariant
                j <= i < tasks@.len(),
                forall|a: int| 0 <= a < j ==> (#[trigger] tasks@[a]).id@ != tasks@[i as int].id@,
            decreases i - j,
        {
            if text_eq(tasks[j].id.as_str(), tasks[i].id.as_str()) {
                assert(tasks@[j as int].id@ == tasks@[i as int].id@);
                return false;
            }
            j = j + 1;
        }
        i = i + 1;
    }
    true
}

impl Default for ActivityState {
    /// Nothing reported.
    fn default() -> (state: Self)
        ensures
            state.wf(),
            state@ == Map::<Seq<char>, ReportModel>::empty(),
            is_bounded(state@),
    {
        ActivityState { entries: Vec::new() }
    }
}

impl ActivityState {
    /// Forgets the reports whose time is over.
    pub fn expire(&mut self, now: Nanos)
        requires
            old(self).wf(),
        ensures
            final(self).wf(),
            final(self)@ == live(old(self)@, now),
            is_bounded(final(self)@),
    {
        proof {
            law_what_is_held_is_bounded(*self);
            lemma_live_bounded(self@, now);
        }
        let mut entries: Vec<Entry> = Vec::new();
        std::mem::swap(&mut entries, &mut self.entries);
        let ghost all = entries@;
        let mut kept: Vec<Entry> = Vec::new();
        for entry in it: entries
            invariant
                it.seq() == all,
                sorted(all),
                all.len() <= 8,
                forall|i: int| 0 <= i < all.len() ==> held_ok((#[trigger] all[i]).model()),
                kept@.len() <= it.index(),
                sorted(kept@),
                forall|i: int|
                    0 <= i < it.index() && (#[trigger] all[i]).deadline > now ==> kept@.contains(
                        all[i],
                    ),
                forall|k: int|
                    0 <= k < kept@.len() ==> (#[trigger] kept@[k]).deadline > now && exists|i: int|
                        0 <= i < it.index() && all[i] == kept@[k],
        {
            let ghost n = it.index() as int;
            let ghost before = kept@;
            assert(entry == all[n]);
            if entry.deadline > now {
                kept.push(entry);
                assert forall|i: int, j: int| 0 <= i < j < kept@.len() implies text_less(
                    (#[trigger] kept@[i]).key(),
                    (#[trigger] kept@[j]).key(),
                ) by {
                    if j == before.len() {
                        assert(kept@[i] == before[i]);
                        let a = choose|a: int| 0 <= a < n && all[a] == before[i];
                        assert(text_less(all[a].key(), all[n].key()));
                    } else {
                        assert(text_less(before[i].key(), before[j].key()));
                    }
                }
                assert forall|i: int| 0 <= i < n + 1 && (#[trigger] all[i]).deadline > now implies
                    kept@.contains(all[i]) by {
                    if i < n {
                        let k = choose|k: int| 0 <= k < before.len() && before[k] == all[i];
                        assert(kept@[k] == all[i]);
                    } else {
                        assert(kept@[before.len() as int] == all[n]);
                    }
                }
                assert forall|k: int| 0 <= k < kept@.len() implies (#[trigger] kept@[k]).deadline
                    > now && exists|i: int| 0 <= i < n + 1 && all[i] == kept@[k] by {
                    if k < before.len() {
                        assert(kept@[k] == before[k]);
                        let i = choose|i: int| 0 <= i < n && all[i] == before[k];
                        assert(all[i] == kept@[k]);
                    } else {
                        assert(all[n] == kept@[k]);
                    }
                }
            }
        }
        proof {
            assert forall|i: int| 0 <= i < kept@.len() implies all.contains(#[trigger] kept@[i])
                && kept@[i].deadline > now by {
                let j = choose|j: int| 0 <= j < all.len() && all[j] == kept@[i];
            }
            lemma_live(all, kept@, now);
            assert forall|i: int| 0 <= i < kept@.len() implies held_ok(
                (#[trigger] kept@[i]).model(),
            ) by {
                let j = choose|j: int| 0 <= j < all.len() && all[j] == kept@[i];
                assert(held_ok(all[j].model()));
            }
        }
        self.entries = kept;
    }

    /// The place of a source, or the place where it belongs.
    fn place(&self, source: &str) -> (place: usize)
        requires
            self.wf(),
        ensures
            place <= self.entries@.len(),
            forall|i: int|
                0 <= i < place ==> text_less((#[trigger] self.entries@[i]).key(), source@),
            forall|i: int|
                place < i < self.entries@.len() ==> text_less(
                    source@,
                    (#[trigger] self.entries@[i]).key(),
                ),
            place < self.entries@.len() ==> !text_less(self.entries@[place as int].key(), source@),
    {
        let mut place: usize = 0;
        while place < self.entries.len() && text_before(
            self.entries[place].said.source.as_str(),
            source,
        )
            invariant
                place <= self.entries@.len(),
                forall|i: int|
                    0 <= i < place ==> text_less((#[trigger] self.entries@[i]).key(), source@),
            decreases self.entries@.len() - place,
        {
            place = place + 1;
        }
        proof {
            if place < self.entries@.len() {
                let here = self.entries@[place as int].key();
                assert forall|i: int| place < i < self.entries@.len() implies text_less(
                    source@,
                    (#[trigger] self.entries@[i]).key(),
                ) by {
                    let there = self.entries@[i].key();
                    assert(text_less(here, there));
                    crate::text::lemma_text_order(source@, here, there);
                }
            }
        }
        place
    }
}

/// Putting an entry where it belongs keeps the order and holds it under its source.
proof fn lemma_put(old_entries: Seq<Entry>, place: int, entry: Entry, new_entries: Seq<Entry>)
    requires
        sorted(old_entries),
        0 <= place <= old_entries.len(),
        forall|i: int| 0 <= i < place ==> text_less((#[trigger] old_entries[i]).key(), entry.key()),
        forall|i: int|
            place < i < old_entries.len() ==> text_less(
                entry.key(),
                (#[trigger] old_entries[i]).key(),
            ),
        ({
            ||| place < old_entries.len() && old_entries[place].key() == entry.key()
                && new_entries == old_entries.update(place, entry)
            ||| (place < old_entries.len() ==> text_less(entry.key(), old_entries[place].key()))
                && new_entries == old_entries.insert(place, entry)
        }),
    ensures
        sorted(new_entries),
        by_source(new_entries) == by_source(old_entries).insert(entry.key(), entry.model()),
        forall|i: int|
            0 <= i < new_entries.len() ==> #[trigger] new_entries[i] == entry
                || old_entries.contains(new_entries[i]),
{
    let replaced = place < old_entries.len() && old_entries[place].key() == entry.key();
    crate::text::lemma_text_order(entry.key(), entry.key(), entry.key());
    assert forall|i: int| 0 <= i < new_entries.len() implies #[trigger] new_entries[i] == entry
        || old_entries.contains(new_entries[i]) by {
        if i < place {
            assert(new_entries[i] == old_entries[i]);
        } else if i > place {
            if new_entries.len() == old_entries.len() {
                assert(new_entries[i] == old_entries[i]);
            } else {
                assert(new_entries[i] == old_entries[i - 1]);
            }
        }
    }
    assert forall|i: int, j: int| 0 <= i < j < new_entries.len() implies text_less(
        (#[trigger] new_entries[i]).key(),
        (#[trigger] new_entries[j]).key(),
    ) by {
        let shift: int = if new_entries.len() == old_entries.len() {
            0
        } else {
            1
        };
        if j < place {
            assert(text_less(old_entries[i].key(), old_entries[j].key()));
        } else if j == place {
            assert(text_less(old_entries[i].key(), entry.key()));
        } else if i < place {
            assert(text_less(old_entries[i].key(), old_entries[j - shift].key()));
        } else if i == place {
            assert(text_less(entry.key(), old_entries[j - shift].key()));
        } else {
            assert(text_less(old_entries[i - shift].key(), old_entries[j - shift].key()));
        }
    }
    lemma_by_source(old_entries);
    lemma_by_source(new_entries);
    let before = by_source(old_entries).insert(entry.key(), entry.model());
    let after = by_source(new_entries);
    assert(new_entries[place] == entry);
    assert forall|k: Seq<char>| after.contains_key(k) implies before.contains_key(k) && before[k]
        == after[k] by {
        let i = choose|i: int| 0 <= i < new_entries.len() && (#[trigger] new_entries[i]).key() == k;
        if k != entry.key() {
            assert(old_entries.contains(new_entries[i]));
            let j = choose|j: int| 0 <= j < old_entries.len() && old_entries[j] == new_entries[i];
            assert(old_entries[j].key() == k);
        }
    }
    assert forall|k: Seq<char>| before.contains_key(k) implies after.contains_key(k) by {
        if k != entry.key() {
            let j = choose|j: int|
                0 <= j < old_entries.len() && (#[trigger] old_entries[j]).key() == k;
            if j < place || new_entries.len() == old_entries.len() {
                assert(new_entries[j].key() == k);
            } else {
                assert(new_entries[j + 1].key() == k);
            }
        }
    }
    assert(after =~= before);
}

impl ActivityState {
    /// Takes a report. It replaces what its source said before, unless it is out of bounds, not
    /// newer, or one source too many.
    pub fn report(&mut self, report: ActivityReportParams, now: Nanos) -> (answer: Result<
        bool,
        &'static str,
    >)
        requires
            old(self).wf(),
            takes(old(self)@, report, now) ==> now + report.ttl_ms * 1_000_000 <= u128::MAX,
        ensures
            final(self).wf(),
            final(self)@ == answered(old(self)@, report, now).0,
            answer_view(answer) == answered(old(self)@, report, now).1,
            is_bounded(final(self)@),
    {
        proof {
            law_what_is_held_is_bounded(*self);
            lemma_answered_bounded(self@, report, now);
        }
        let source = report.source.as_str();
        if source.is_empty() || contains_control(source) || byte_len(source) > 64 || report.ttl_ms
            < 1 || report.ttl_ms > 120_000 || report.tasks.len() > 100 {
            return Err("activity requires a source, 1..120000ms TTL, and at most 100 tasks");
        }
        if !are_tasks_ok(&report.tasks) {
            return Err(
                "activity task ids must be unique; text must be bounded and contain no controls",
            );
        }
        self.expire(now);
        let ghost entries = self.entries@;
        let place = self.place(source);
        proof {
            lemma_by_source(entries);
        }
        let known = place < self.entries.len() && text_eq(
            self.entries[place].said.source.as_str(),
            source,
        );
        proof {
            if !known && self@.contains_key(source@) {
                let i = choose|i: int| 0 <= i < entries.len() && (#[trigger] entries[i]).key() == source@;
                crate::text::lemma_text_order(source@, source@, source@);
                assert(i == place);
            }
            if known {
                assert(entries[place as int].key() == source@);
            }
        }
        if known {
            if report.seq <= self.entries[place].seq {
                return Ok(false);
            }
        } else if self.entries.len() >= 8 {
            return Err("at most 8 activity sources are allowed");
        }
        let deadline: Nanos = now + report.ttl_ms as u128 * 1_000_000;
        let entry = Entry {
            seq: report.seq,
            deadline,
            said: ActivitySource {
                source: report.source,
                tasks: report.tasks,
                omitted: report.omitted,
            },
        };
        proof {
            assert(entry.model() == taken(report, now));
            if place < entries.len() && !known {
                crate::text::lemma_text_order(
                    entries[place as int].key(),
                    entry.key(),
                    entry.key(),
                );
            }
        }
        if known {
            self.entries.set(place, entry);
        } else {
            self.entries.insert(place, entry);
        }
        proof {
            lemma_put(entries, place as int, entry, self.entries@);
            assert forall|i: int| 0 <= i < self.entries@.len() implies held_ok(
                (#[trigger] self.entries@[i]).model(),
            ) by {
                if self.entries@[i] != entry {
                    let j = choose|j: int| 0 <= j < entries.len() && entries[j] == self.entries@[i];
                    assert(held_ok(entries[j].model()));
                }
            }
        }
        Ok(true)
    }

    /// What the sources with something to show said, in the order of their names.
    pub fn snapshot(&self) -> (sources: Vec<ActivitySource>)
        requires
            self.wf(),
        ensures
            forall|i: int, j: int|
                0 <= i < j < sources@.len() ==> text_less(
                    (#[trigger] sources@[i])@.source,
                    (#[trigger] sources@[j])@.source,
                ),
            forall|i: int|
                0 <= i < sources@.len() ==> {
                    let name = (#[trigger] sources@[i])@.source;
                    &&& self@.contains_key(name)
                    &&& self@[name].said == sources@[i]@
                    &&& visible(self@[name])
                },
            forall|name: Seq<char>| #[trigger]
                self@.contains_key(name) && visible(self@[name]) ==> exists|i: int|
                    0 <= i < sources@.len() && (#[trigger] sources@[i])@.source == name,
    {
        let mut sources: Vec<ActivitySource> = Vec::new();
        let mut n: usize = 0;
        while n < self.entries.len()
            invariant
                self.wf(),
                n <= self.entries@.len(),
                forall|i: int, j: int|
                    0 <= i < j < sources@.len() ==> text_less(
                        (#[trigger] sources@[i])@.source,
                        (#[trigger] sources@[j])@.source,
                    ),
                forall|i: int|
                    0 <= i < sources@.len() ==> visible_at(
                        self.entries@,
                        n as int,
                        (#[trigger] sources@[i])@,
                    ),
                forall|e: int|
                    0 <= e < n && visible((#[trigger] self.entries@[e]).model()) ==> exists|i: int|
                        0 <= i < sources@.len() && (#[trigger] sources@[i])@.source
                            == self.entries@[e].key(),
            decreases self.entries@.len() - n,
        {
            let said = &self.entries[n].said;
            let ghost before = sources@;
            if said.tasks.len() > 0 || said.omitted > 0 {
                sources.push(said.clone());
                assert forall|i: int, j: int| 0 <= i < j < sources@.len() implies text_less(
                    (#[trigger] sources@[i])@.source,
                    (#[trigger] sources@[j])@.source,
                ) by {
                    if j == before.len() {
                        assert(visible_at(self.entries@, n as int, before[i]@));
                        let e = choose|e: int|
                            0 <= e < n && (#[trigger] self.entries@[e]).said@ == before[i]@
                                && visible(self.entries@[e].model());
                        assert(text_less(self.entries@[e].key(), self.entries@[n as int].key()));
                    } else {
                        assert(text_less(before[i]@.source, before[j]@.source));
                    }
                }
                assert forall|i: int| 0 <= i < sources@.len() implies visible_at(
                    self.entries@,
                    n + 1,
                    (#[trigger] sources@[i])@,
                ) by {
                    if i < before.len() {
                        assert(visible_at(self.entries@, n as int, before[i]@));
                        let e = choose|e: int|
                            0 <= e < n && (#[trigger] self.entries@[e]).said@ == before[i]@
                                && visible(self.entries@[e].model());
                        assert(self.entries@[e].said@ == sources@[i]@);
                    } else {
                        assert(self.entries@[n as int].said@ == sources@[i]@);
                    }
                }
                assert forall|e: int|
                    0 <= e < n + 1 && visible(
                        (#[trigger] self.entries@[e]).model(),
                    ) implies exists|i: int|
                    0 <= i < sources@.len() && (#[trigger] sources@[i])@.source
                        == self.entries@[e].key() by {
                    if e < n {
                        let i = choose|i: int|
                            0 <= i < before.len() && (#[trigger] before[i])@.source
                                == self.entries@[e].key();
                        assert(sources@[i]@.source == self.entries@[e].key());
                    } else {
                        assert(sources@[before.len() as int]@.source == self.entries@[e].key());
                    }
                }
            } else {
                assert forall|i: int| 0 <= i < sources@.len() implies visible_at(
                    self.entries@,
                    n + 1,
                    (#[trigger] sources@[i])@,
                ) by {
                    assert(visible_at(self.entries@, n as int, before[i]@));
                    let e = choose|e: int|
                        0 <= e < n && (#[trigger] self.entries@[e]).said@ == before[i]@ && visible(
                            self.entries@[e].model(),
                        );
                    assert(self.entries@[e].said@ == sources@[i]@);
                }
            }
            n = n + 1;
        }
        proof {
            lemma_by_source(self.entries@);
            assert forall|i: int| 0 <= i < sources@.len() implies {
                let name = (#[trigger] sources@[i])@.source;
                &&& self@.contains_key(name)
                &&& self@[name].said == sources@[i]@
                &&& visible(self@[name])
            } by {
                assert(visible_at(self.entries@, n as int, sources@[i]@));
                let e = choose|e: int|
                    0 <= e < n && (#[trigger] self.entries@[e]).said@ == sources@[i]@ && visible(
                        self.entries@[e].model(),
                    );
                assert(self.entries@[e].key() == sources@[i]@.source);
            }
            assert forall|name: Seq<char>| #[trigger] self@.contains_key(name) && visible(
                self@[name],
            ) implies exists|i: int|
                0 <= i < sources@.len() && (#[trigger] sources@[i])@.source == name by {
                let e = choose|e: int|
                    0 <= e < self.entries@.len() && (#[trigger] self.entries@[e]).key() == name;
                assert(visible(self.entries@[e].model()));
            }
        }
        sources
    }

    /// The first moment at which something is to be forgotten.
    pub fn next_expiry(&self) -> (moment: Option<Nanos>)
        requires
            self.wf(),
        ensures
            is_first_expiry(self@, moment),
    {
        let mut first: Option<Nanos> = None;
        let mut n: usize = 0;
        while n < self.entries.len()
            invariant
                n <= self.entries@.len(),
                n == 0 <==> first is None,
                first matches Some(deadline) ==> {
                    &&& exists|e: int|
                        0 <= e < n && (#[trigger] self.entries@[e]).deadline == deadline
                    &&& forall|e: int|
                        0 <= e < n ==> deadline <= (#[trigger] self.entries@[e]).deadline
                },
            decreases self.entries@.len() - n,
        {
            let deadline = self.entries[n].deadline;
            assert(self.entries@[n as int].deadline == deadline);
            first = match first {
                Some(earlier) => if deadline < earlier {
                    Some(deadline)
                } else {
                    Some(earlier)
                },
                None => Some(deadline),
            };
            n = n + 1;
        }
        proof {
            lemma_by_source(self.entries@);
            if let Some(deadline) = first {
                let e = choose|e: int|
                    0 <= e < n && (#[trigger] self.entries@[e]).deadline == deadline;
                assert(self@.contains_key(self.entries@[e].key()));
                assert forall|name: Seq<char>| #[trigger]
                    self@.contains_key(name) implies deadline <= self@[name].deadline by {
                    let i = choose|i: int|
                        0 <= i < self.entries@.len() && (#[trigger] self.entries@[i]).key() == name;
                }
            }
        }
        first
    }
}

/// One of the first `n` entries has something to show and said this.
spec fn visible_at(entries: Seq<Entry>, n: int, said: SourceModel) -> bool {
    exists|e: int|
        0 <= e < n && (#[trigger] entries[e]).said@ == said && visible(entries[e].model())
}

/// At most eight sources are held, each under its own name, and all that is held of it is in
/// bounds: short texts without control characters, at most a hundred tasks, no two of them with one
/// name.
pub open spec fn is_bounded(held: Map<Seq<char>, ReportModel>) -> bool {
    &&& held.dom().finite()
    &&& held.len() <= 8
    &&& forall|name: Seq<char>| #[trigger]
        held.contains_key(name) ==> held[name].said.source == name && held_ok(held[name])
}

/// Something that happens to what is held.
pub enum Happening {
    Reported { report: ActivityReportParams, now: Nanos },
    Expired { now: Nanos },
}

/// What is held after one thing happened.
pub open spec fn after(held: Map<Seq<char>, ReportModel>, happening: Happening) -> Map<
    Seq<char>,
    ReportModel,
> {
    match happening {
        Happening::Reported { report, now } => answered(held, report, now).0,
        Happening::Expired { now } => live(held, now),
    }
}

/// What is held after things happened, from nothing on.
pub open spec fn after_all(happenings: Seq<Happening>) -> Map<Seq<char>, ReportModel>
    decreases happenings.len(),
{
    if happenings.len() == 0 {
        Map::empty()
    } else {
        after(after_all(happenings.drop_last()), happenings.last())
    }
}

proof fn lemma_live_bounded(held: Map<Seq<char>, ReportModel>, now: Nanos)
    requires
        is_bounded(held),
    ensures
        is_bounded(live(held, now)),
{
    assert(live(held, now).dom().subset_of(held.dom()));
    vstd::set_lib::lemma_len_subset(live(held, now).dom(), held.dom());
}

proof fn lemma_answered_bounded(
    held: Map<Seq<char>, ReportModel>,
    report: ActivityReportParams,
    now: Nanos,
)
    requires
        is_bounded(held),
    ensures
        is_bounded(answered(held, report, now).0),
{
    lemma_live_bounded(held, now);
}

/// What is held stays bounded, whatever is reported and whenever it expires, at any moment and in
/// any order.
pub proof fn law_whatever_happens_stays_bounded(happenings: Seq<Happening>)
    ensures
        is_bounded(after_all(happenings)),
    decreases happenings.len(),
{
    if happenings.len() > 0 {
        let held = after_all(happenings.drop_last());
        law_whatever_happens_stays_bounded(happenings.drop_last());
        match happenings.last() {
            Happening::Reported { report, now } => {
                lemma_answered_bounded(held, report, now);
            },
            Happening::Expired { now } => {
                lemma_live_bounded(held, now);
            },
        }
    }
}

/// What a state holds is bounded.
pub proof fn law_what_is_held_is_bounded(state: ActivityState)
    requires
        state.wf(),
    ensures
        is_bounded(state@),
{
    lemma_by_source(state.entries@);
    assert forall|name: Seq<char>| #[trigger] state@.contains_key(name) implies
        state@[name].said.source == name && held_ok(state@[name]) by {
        let i = choose|i: int|
            0 <= i < state.entries@.len() && (#[trigger] state.entries@[i]).key() == name;
    }
}

/// Once a report has been taken, a report of the same source that is not newer changes nothing
/// while the first one counts.
pub proof fn law_older_reports_change_nothing(
    held: Map<Seq<char>, ReportModel>,
    report: ActivityReportParams,
    now: Nanos,
    again: ActivityReportParams,
    later: Nanos,
)
    requires
        takes(held, report, now),
        now + report.ttl_ms * 1_000_000 <= u128::MAX,
        again.source@ == report.source@,
        again.seq <= report.seq,
        now <= later < now + report.ttl_ms * 1_000_000,
        bounds_ok(again),
        tasks_ok(again.tasks@),
    ensures
        answered(answered(held, report, now).0, again, later).1 == Ok::<bool, Seq<char>>(false),
        answered(answered(held, report, now).0, again, later).0 == live(
            answered(held, report, now).0,
            later,
        ),
{
}

/// A report that has been taken counts up to the end of its time, and from that moment on no
/// more.
pub proof fn law_reports_expire_on_time(
    held: Map<Seq<char>, ReportModel>,
    report: ActivityReportParams,
    now: Nanos,
    later: Nanos,
)
    requires
        takes(held, report, now),
        now + report.ttl_ms * 1_000_000 <= u128::MAX,
    ensures
        live(answered(held, report, now).0, later).contains_key(report.source@) <==> later < now
            + report.ttl_ms * 1_000_000,
        later < now + report.ttl_ms * 1_000_000 ==> live(
            answered(held, report, now).0,
            later,
        )[report.source@].said == taken(report, now).said,
{
}

/// A report touches its own source only: every other source that is live stays as it was, and
/// none appears.
pub proof fn law_a_report_touches_its_source_only(
    held: Map<Seq<char>, ReportModel>,
    report: ActivityReportParams,
    now: Nanos,
    other: Seq<char>,
)
    requires
        other != report.source@,
    ensures
        live(answered(held, report, now).0, now).contains_key(other) <==> live(
            held,
            now,
        ).contains_key(other),
        live(held, now).contains_key(other) ==> live(answered(held, report, now).0, now)[other]
            == held[other],
{
}

/// Forgetting at one moment and then at another is forgetting at the later of the two.
pub proof fn law_expiring_composes(held: Map<Seq<char>, ReportModel>, a: Nanos, b: Nanos)
    ensures
        live(live(held, a), b) == live(
            held,
            if a < b {
                b
            } else {
                a
            },
        ),
{
    assert(live(live(held, a), b) =~= live(
        held,
        if a < b {
            b
        } else {
            a
        },
    ));
}

/// Before the first expiry nothing is forgotten; at that moment something is.
pub proof fn law_first_expiry_is_exact(
    held: Map<Seq<char>, ReportModel>,
    moment: Nanos,
    now: Nanos,
)
    requires
        is_first_expiry(held, Some(moment)),
    ensures
        live(held, now) == held <==> now < moment,
{
    if now < moment {
        assert(live(held, now) =~= held);
    } else {
        let name = choose|name: Seq<char>| #[trigger]
            held.contains_key(name) && held[name].deadline == moment;
        assert(!live(held, now).contains_key(name));
    }
}

/// A text of at most 256 bytes without a control character.
pub open spec fn is_short(s: Seq<char>) -> bool {
    utf8_len(s) <= 256 && forall|i: int|
        0 <= i < s.len() ==> !(#[trigger] s[i] as u32 <= 0x1f || 0x7f <= s[i] as u32 <= 0x9f)
}

/// A report is well formed: it names its source in 1 to 64 bytes, counts for 1 to 120000
/// milliseconds, and has at most a hundred tasks, each with a name of its own, all of whose texts are
/// short.
pub open spec fn is_well_formed(report: ActivityReportParams) -> bool {
    &&& 1 <= utf8_len(report.source@) <= 64 && is_short(report.source@)
    &&& 1 <= report.ttl_ms <= 120_000
    &&& report.tasks@.len() <= 100
    &&& has_short_texts(report.tasks@)
    &&& has_own_names(report.tasks@)
}

pub open spec fn has_short_texts(tasks: Seq<ActivityTask>) -> bool {
    forall|i: int|
        0 <= i < tasks.len() ==> {
            let task = #[trigger] tasks[i];
            &&& task.id@.len() > 0
            &&& is_short(task.id@) && is_short(task.request_id@) && is_short(task.harness@)
            &&& is_short(task.workspace@) && is_short(task.status@) && is_short(task.progress@)
            &&& task.model matches Some(model) ==> is_short(model@)
            &&& task.effort matches Some(effort) ==> is_short(effort@)
        }
}

pub open spec fn has_own_names(tasks: Seq<ActivityTask>) -> bool {
    forall|i: int, j: int|
        0 <= i < j < tasks.len() ==> (#[trigger] tasks[i]).id@ != (#[trigger] tasks[j]).id@
}

proof fn lemma_is_short(s: Seq<char>)
    ensures
        is_short(s) <==> text_ok(s),
{
    if is_short(s) {
        assert forall|i: int| 0 <= i < s.len() implies !is_control_char(#[trigger] s[i]) by {}
    }
    if text_ok(s) {
        assert forall|i: int| 0 <= i < s.len() implies !(#[trigger] s[i] as u32 <= 0x1f || 0x7f
            <= s[i] as u32 <= 0x9f) by {
            assert(!is_control_char(s[i]));
        }
    }
}

proof fn lemma_has_short_texts(tasks: Seq<ActivityTask>)
    ensures
        has_short_texts(tasks) && has_own_names(tasks) <==> tasks_ok(tasks),
{
    assert forall|i: int| 0 <= i < tasks.len() implies (#[trigger] task_ok(tasks[i]) <==> {
        let task = tasks[i];
        &&& task.id@.len() > 0
        &&& is_short(task.id@) && is_short(task.request_id@) && is_short(task.harness@)
        &&& is_short(task.workspace@) && is_short(task.status@) && is_short(task.progress@)
        &&& task.model matches Some(model) ==> is_short(model@)
        &&& task.effort matches Some(effort) ==> is_short(effort@)
    }) by {
        let task = tasks[i];
        lemma_is_short(task.id@);
        lemma_is_short(task.request_id@);
        lemma_is_short(task.harness@);
        lemma_is_short(task.workspace@);
        lemma_is_short(task.status@);
        lemma_is_short(task.progress@);
        if let Some(model) = task.model {
            lemma_is_short(model@);
        }
        if let Some(effort) = task.effort {
            lemma_is_short(effort@);
        }
    }
    if tasks_ok(tasks) {
        assert forall|i: int| 0 <= i < tasks.len() implies {
            let task = #[trigger] tasks[i];
            &&& task.id@.len() > 0
            &&& is_short(task.id@) && is_short(task.request_id@) && is_short(task.harness@)
            &&& is_short(task.workspace@) && is_short(task.status@) && is_short(task.progress@)
            &&& task.model matches Some(model) ==> is_short(model@)
            &&& task.effort matches Some(effort) ==> is_short(effort@)
        } by {
            assert(task_ok(tasks[i]));
        }
    }
    if has_short_texts(tasks) && has_own_names(tasks) {
        assert forall|i: int| 0 <= i < tasks.len() implies task_ok(#[trigger] tasks[i]) by {}
    }
}

proof fn lemma_source_bytes(s: Seq<char>)
    ensures
        s.len() > 0 <==> utf8_len(s) >= 1,
{
    if s.len() > 0 {
        let rest = vstd::utf8::encode_utf8(s.drop_first());
        assert(vstd::utf8::encode_utf8(s) == vstd::utf8::encode_scalar(s[0] as u32) + rest);
        assert(vstd::utf8::encode_scalar(s[0] as u32).len() >= 1);
    }
}

/// Some report of the source still counts at that moment.
pub open spec fn counts(held: Map<Seq<char>, ReportModel>, source: Seq<char>, now: Nanos) -> bool {
    held.contains_key(source) && held[source].deadline > now
}

/// Exactly the reports whose time is over are forgotten, and the others stay as they are.
pub proof fn law_only_what_is_over_is_forgotten(
    held: Map<Seq<char>, ReportModel>,
    now: Nanos,
    source: Seq<char>,
)
    ensures
        live(held, now).contains_key(source) <==> counts(held, source, now),
        counts(held, source, now) ==> live(held, now)[source] == held[source],
{
}

/// A report that is taken is held as it was given: every task and the count of those left out, the
/// number of the report, and the end of its time.
pub proof fn law_taken_reports_are_held_whole(
    held: Map<Seq<char>, ReportModel>,
    report: ActivityReportParams,
    now: Nanos,
)
    requires
        answered(held, report, now).1 == Ok::<bool, Seq<char>>(true),
        now + report.ttl_ms * 1_000_000 <= u128::MAX,
    ensures
        ({
            let next = answered(held, report, now).0;
            &&& next.contains_key(report.source@)
            &&& next[report.source@].said.source == report.source@
            &&& next[report.source@].said.tasks == report.tasks@
            &&& next[report.source@].said.omitted == report.omitted
            &&& next[report.source@].seq == report.seq
            &&& next[report.source@].deadline == now + report.ttl_ms * 1_000_000
        }),
{
}

/// Which reports are taken: exactly the well-formed ones that are newer than what counts of their
/// source, if anything does, and that make no ninth source. A well-formed report that is not newer
/// is answered with that; every other one is refused in the words for it. None of these puts
/// anything in.
pub proof fn law_reports_are_taken_where_they_should_be(
    held: Map<Seq<char>, ReportModel>,
    report: ActivityReportParams,
    now: Nanos,
    name: Seq<char>,
)
    ensures
        ({
            let (next, answer) = answered(held, report, now);
            let known = counts(held, report.source@, now);
            let newer = known ==> report.seq > held[report.source@].seq;
            let room = known || live(held, now).len() < 8;
            let stays = next.contains_key(name) ==> held.contains_key(name) && next[name]
                == held[name];
            &&& is_well_formed(report) && newer && room <==> answer == Ok::<bool, Seq<char>>(true)
            &&& is_well_formed(report) && !newer <==> answer == Ok::<bool, Seq<char>>(false)
            &&& is_well_formed(report) && newer && !room ==> answer == Err::<bool, Seq<char>>(
                "at most 8 activity sources are allowed"@,
            )
            &&& !is_well_formed(report) ==> answer is Err && next == held
            &&& !(1 <= utf8_len(report.source@) <= 64 && is_short(report.source@) && 1
                <= report.ttl_ms <= 120_000 && report.tasks@.len() <= 100) ==> answer == Err::<
                bool,
                Seq<char>,
            >("activity requires a source, 1..120000ms TTL, and at most 100 tasks"@)
            &&& 1 <= utf8_len(report.source@) <= 64 && is_short(report.source@) && 1
                <= report.ttl_ms <= 120_000 && report.tasks@.len() <= 100 && !is_well_formed(
                report,
            ) ==> answer == Err::<bool, Seq<char>>(
                "activity task ids must be unique; text must be bounded and contain no controls"@,
            )
            &&& answer != Ok::<bool, Seq<char>>(true) ==> stays
            &&& is_well_formed(report) && counts(held, name, now) && name != report.source@ ==> {
                &&& next.contains_key(name)
                &&& next[name] == held[name]
            }
        }),
{
    lemma_is_short(report.source@);
    lemma_source_bytes(report.source@);
    lemma_has_short_texts(report.tasks@);
}

/// A report counts from the moment it is taken up to the end of its time, and then the same source
/// may say something again, whatever its number.
pub proof fn law_a_source_may_start_again(
    held: Map<Seq<char>, ReportModel>,
    report: ActivityReportParams,
    now: Nanos,
)
    requires
        is_well_formed(report),
        held.contains_key(report.source@) ==> held[report.source@].deadline <= now,
        live(held, now).len() < 8,
    ensures
        answered(held, report, now).1 == Ok::<bool, Seq<char>>(true),
{
    law_reports_are_taken_where_they_should_be(held, report, now, report.source@);
}

/// A source is shown exactly if it said something of a task or left some out.
pub proof fn law_sources_with_activity_are_shown(report: ReportModel)
    ensures
        visible(report) <==> report.said.tasks.len() > 0 || report.said.omitted > 0,
{
}

/// The first expiry is the smallest end of a time that is held, and there is one exactly where
/// anything is held.
pub proof fn law_the_first_expiry_is_the_smallest(
    held: Map<Seq<char>, ReportModel>,
    moment: Option<Nanos>,
    name: Seq<char>,
)
    requires
        is_first_expiry(held, moment),
    ensures
        held.contains_key(name) ==> (moment matches Some(deadline) && deadline
            <= held[name].deadline),
        moment matches Some(deadline) ==> exists|source: Seq<char>| #[trigger]
            held.contains_key(source) && held[source].deadline == deadline,
{
}

/// What a source said stands for its name, its tasks and how many it left out.
pub proof fn law_sources_stand_for_what_they_said(source: ActivitySource)
    ensures
        source@.source == source.source@,
        source@.tasks == source.tasks@,
        source@.omitted == source.omitted,
{
}

/// The smallest end of a time that is held is the first expiry, and where nothing is held there is
/// none.
pub proof fn law_every_smallest_end_is_the_first_expiry(
    held: Map<Seq<char>, ReportModel>,
    source: Seq<char>,
)
    requires
        held.contains_key(source),
        forall|name: Seq<char>| #[trigger]
            held.contains_key(name) ==> held[source].deadline <= held[name].deadline,
    ensures
        is_first_expiry(held, Some(held[source].deadline)),
        !is_first_expiry(held, None),
        is_first_expiry(Map::empty(), None),
{
}

/// What is held is within bounds exactly if it is at most eight sources, each under its own name, with
/// at most a hundred tasks each, and names and tasks are well-formed.
pub proof fn law_bounds_are_eight_sources_of_a_hundred_tasks(
    held: Map<Seq<char>, ReportModel>,
    name: Seq<char>,
)
    requires
        held.dom().finite(),
    ensures
        is_bounded(held) ==> held.len() <= 8 && (held.contains_key(name)
            ==> held[name].said.source == name && held[name].said.tasks.len() <= 100),
        held.len() <= 8 && (forall|n: Seq<char>| #[trigger]
            held.contains_key(n) ==> held[n].said.source == n && held[n].said.tasks.len() <= 100
                && source_ok(held[n].said.source) && tasks_ok(held[n].said.tasks)) ==> is_bounded(
            held,
        ),
{
}

} // verus!
