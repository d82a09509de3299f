//! The strip at the foot of the agent panel that shows activity without a pane. It only places
//! text: nothing on it is a target or an action.
use vstd::prelude::*;

use crate::activity::{task_ok, tasks_ok, ActivitySource, ActivityTask};
use crate::text::{decimal, decimal_text, has_control, lemma_control_add, lemma_decimal_control};

verus! {

/// A part of the terminal, in cells.
#[derive(Debug, PartialEq, Eq, Clone, Copy)]
pub struct Rect {
    pub x: u16,
    pub y: u16,
    pub width: u16,
    pub height: u16,
}

impl Rect {
    /// The first row below.
    pub open spec fn bottom_row(self) -> int {
        if self.y + self.height <= 0xffff {
            self.y + self.height
        } else {
            0xffff
        }
    }

    /// The first row below, at most the last number that a row can have.
    pub fn bottom(&self) -> (row: u16)
        ensures
            row == self.bottom_row(),
    {
        self.y.saturating_add(self.height)
    }
}

/// How text is set.
#[derive(Debug, PartialEq, Eq, Clone, Copy)]
pub enum Tone {
    /// Dim and bold.
    Heading,
    Dim,
    Body,
}

/// Text at a place, cut off at a width.
#[derive(Debug, PartialEq, Eq)]
pub struct TextRun {
    pub x: u16,
    pub y: u16,
    pub width: u16,
    pub text: String,
    pub tone: Tone,
}

/// The content of a `TextRun`.
pub struct RunModel {
    pub x: int,
    pub y: int,
    pub width: int,
    pub text: Seq<char>,
    pub tone: Tone,
}

impl View for TextRun {
    type V = RunModel;

    open spec fn view(&self) -> RunModel {
        RunModel {
            x: self.x as int,
            y: self.y as int,
            width: self.width as int,
            text: self.text@,
            tone: self.tone,
        }
    }
}

/// What runs of text stand for.
pub open spec fn runs_view(runs: Seq<TextRun>) -> Seq<RunModel> {
    runs.map_values(|run: TextRun| run@)
}

/// The activity of one machine; the local one has no name. Stale activity was last seen before
/// the connection to the machine was lost.
pub struct MachineActivity<'a> {
    pub machine: &'a str,
    pub sources: &'a [ActivitySource],
    pub stale: bool,
}

/// A task to show.
pub struct ShownTask {
    pub machine: Seq<char>,
    pub task: ActivityTask,
    pub stale: bool,
}

/// How many tasks the sources have, with those that they left out.
pub open spec fn sources_total(sources: Seq<ActivitySource>) -> nat
    decreases sources.len(),
{
    if sources.len() == 0 {
        0
    } else {
        sources_total(sources.drop_last()) + sources.last().tasks@.len() + sources.last().omitted
            as nat
    }
}

/// How many tasks there are on all machines.
pub open spec fn total_of(machines: Seq<MachineActivity>) -> nat
    decreases machines.len(),
{
    if machines.len() == 0 {
        0
    } else {
        total_of(machines.drop_last()) + sources_total(machines.last().sources@)
    }
}

pub open spec fn shown_tasks(machine: Seq<char>, stale: bool, tasks: Seq<ActivityTask>) -> Seq<
    ShownTask,
> {
    tasks.map_values(|task: ActivityTask| ShownTask { machine, task, stale })
}

pub open spec fn shown_sources(
    machine: Seq<char>,
    stale: bool,
    sources: Seq<ActivitySource>,
) -> Seq<ShownTask>
    decreases sources.len(),
{
    if sources.len() == 0 {
        Seq::empty()
    } else {
        shown_sources(machine, stale, sources.drop_last()) + shown_tasks(
            machine,
            stale,
            sources.last().tasks@,
        )
    }
}

/// The tasks on all machines, in their order.
pub open spec fn all_tasks(machines: Seq<MachineActivity>) -> Seq<ShownTask>
    decreases machines.len(),
{
    if machines.len() == 0 {
        Seq::empty()
    } else {
        all_tasks(machines.drop_last()) + shown_sources(
            machines.last().machine@,
            machines.last().stale,
            machines.last().sources@,
        )
    }
}

pub open spec fn text_or(text: Option<String>, default: Seq<char>) -> Seq<char> {
    match text {
        Some(s) => s@,
        None => default,
    }
}

/// The four lines of a task: what was asked for, by what, where and how long, and how it goes.
pub open spec fn task_line(shown: ShownTask, line: int) -> Seq<char> {
    let task = shown.task;
    if line == 0 {
        if shown.machine.len() == 0 {
            " "@ + task.request_id@
        } else {
            " "@ + shown.machine + "/"@ + task.request_id@
        }
    } else if line == 1 {
        " "@ + text_or(task.model, "default?"@) + "/"@ + text_or(task.effort, "default?"@)
    } else if line == 2 {
        " "@ + task.workspace@ + " · "@ + match task.elapsed_seconds {
            Some(seconds) => decimal(seconds as nat) + "s"@,
            None => "?s"@,
        }
    } else if shown.stale {
        " STALE · last observation"@
    } else {
        " "@ + task.status@ + " · "@ + task.progress@
    }
}

pub open spec fn task_run(strip: Rect, place: int, shown: ShownTask, line: int) -> RunModel {
    RunModel {
        x: strip.x as int,
        y: strip.y + 1 + place * 4 + line,
        width: strip.width as int,
        text: task_line(shown, line),
        tone: if shown.stale {
            Tone::Dim
        } else {
            Tone::Body
        },
    }
}

/// The runs of the first tasks, four for each.
pub open spec fn task_runs(strip: Rect, tasks: Seq<ShownTask>) -> Seq<RunModel>
    decreases tasks.len(),
{
    if tasks.len() == 0 {
        Seq::empty()
    } else {
        let place = tasks.len() - 1;
        task_runs(strip, tasks.drop_last()) + seq![
            task_run(strip, place, tasks.last(), 0),
            task_run(strip, place, tasks.last(), 1),
            task_run(strip, place, tasks.last(), 2),
            task_run(strip, place, tasks.last(), 3),
        ]
    }
}

/// How many rows the strip takes: half of the area, at most eleven.
pub open spec fn strip_height(area: Rect) -> int {
    let half = (area.height + 1) / 2;
    if half < 11 {
        half
    } else {
        11
    }
}

/// The strip at the foot of the area.
pub open spec fn strip_of(area: Rect) -> Rect {
    Rect {
        x: area.x,
        y: (area.bottom_row() - strip_height(area)) as u16,
        width: area.width,
        height: strip_height(area) as u16,
    }
}

/// What the strip leaves of the area.
pub open spec fn rest_of(area: Rect) -> Rect {
    Rect {
        x: area.x,
        y: area.y,
        width: area.width,
        height: (area.height - strip_height(area)) as u16,
    }
}

/// For how many tasks the strip has room beside its heading and its last line.
pub open spec fn capacity_of(area: Rect) -> int {
    if strip_height(area) >= 2 {
        (strip_height(area) - 2) / 4
    } else {
        0
    }
}

/// The tasks that the strip shows.
pub open spec fn drawn_tasks(area: Rect, machines: Seq<MachineActivity>) -> Seq<ShownTask> {
    let tasks = all_tasks(machines);
    if tasks.len() <= capacity_of(area) {
        tasks
    } else {
        tasks.take(capacity_of(area))
    }
}

pub open spec fn heading_run(area: Rect, total: nat) -> RunModel {
    RunModel {
        x: strip_of(area).x as int,
        y: strip_of(area).y as int,
        width: strip_of(area).width as int,
        text: " headless · ephemeral ("@ + decimal(total) + ")"@,
        tone: Tone::Heading,
    }
}

pub open spec fn more_run(area: Rect, more: nat) -> RunModel {
    RunModel {
        x: strip_of(area).x as int,
        y: strip_of(area).y + strip_of(area).height - 1,
        width: strip_of(area).width as int,
        text: " +"@ + decimal(more) + " more · api snapshot"@,
        tone: Tone::Dim,
    }
}

/// The strip shows up: there is room, and there is activity.
pub open spec fn is_shown(area: Rect, machines: Seq<MachineActivity>) -> bool {
    area.height > 0 && area.width > 0 && total_of(machines) > 0
}

/// All text of the strip: its heading, the tasks that have room, and how many are not shown.
pub open spec fn strip_runs(area: Rect, machines: Seq<MachineActivity>) -> Seq<RunModel> {
    if !is_shown(area, machines) {
        Seq::empty()
    } else {
        let total = total_of(machines);
        let drawn = drawn_tasks(area, machines);
        seq![heading_run(area, total)] + task_runs(strip_of(area), drawn) + if total > drawn.len()
            && strip_height(area) > 1 {
            seq![more_run(area, (total - drawn.len()) as nat)]
        } else {
            Seq::empty()
        }
    }
}

proof fn lemma_sources_total_prefix(sources: Seq<ActivitySource>, n: int)
    requires
        0 <= n <= sources.len(),
    ensures
        sources_total(sources.take(n)) <= sources_total(sources),
    decreases sources.len(),
{
    if n == sources.len() {
        assert(sources.take(n) =~= sources);
    } else {
        lemma_sources_total_prefix(sources.drop_last(), n);
        assert(sources.drop_last().take(n) =~= sources.take(n));
    }
}

proof fn lemma_total_prefix(machines: Seq<MachineActivity>, n: int)
    requires
        0 <= n <= machines.len(),
    ensures
        total_of(machines.take(n)) <= total_of(machines),
    decreases machines.len(),
{
    if n == machines.len() {
        assert(machines.take(n) =~= machines);
    } else {
        lemma_total_prefix(machines.drop_last(), n);
        assert(machines.drop_last().take(n) =~= machines.take(n));
    }
}

/// Counts the tasks on all machines.
fn count(machines: &Vec<MachineActivity>) -> (total: usize)
    requires
        total_of(machines@) <= usize::MAX,
    ensures
        total == total_of(machines@),
{
    let mut total: usize = 0;
    let mut m: usize = 0;
    assert(machines@.take(0) =~= Seq::<MachineActivity>::empty());
    while m < machines.len()
        invariant
            m <= machines@.len(),
            total_of(machines@) <= usize::MAX,
            total == total_of(machines@.take(m as int)),
        decreases machines@.len() - m,
    {
        let sources = machines[m].sources;
        let ghost before = total;
        proof {
            assert(machines@.take(m + 1).drop_last() =~= machines@.take(m as int));
            assert(machines@.take(m + 1).last() == machines@[m as int]);
            lemma_total_prefix(machines@, m + 1);
            assert(sources@.take(0) =~= Seq::<ActivitySource>::empty());
        }
        let mut s: usize = 0;
        while s < sources.len()
            invariant
                s <= sources@.len(),
                before + sources_total(sources@) <= usize::MAX,
                total == before + sources_total(sources@.take(s as int)),
            decreases sources@.len() - s,
        {
            proof {
                assert(sources@.take(s + 1).drop_last() =~= sources@.take(s as int));
                assert(sources@.take(s + 1).last() == sources@[s as int]);
                lemma_sources_total_prefix(sources@, s + 1);
            }
            total = total + sources[s].tasks.len() + sources[s].omitted as usize;
            s = s + 1;
        }
        assert(sources@.take(s as int) =~= sources@);
        m = m + 1;
    }
    assert(machines@.take(m as int) =~= machines@);
    total
}

/// Places a text on a row of the strip.
fn put(buffer: &mut Vec<TextRun>, strip: Rect, y: u16, text: String, tone: Tone)
    ensures
        runs_view(final(buffer)@) == runs_view(old(buffer)@).push(
            RunModel {
                x: strip.x as int,
                y: y as int,
                width: strip.width as int,
                text: text@,
                tone,
            },
        ),
{
    let ghost before = buffer@;
    buffer.push(TextRun { x: strip.x, y, width: strip.width, text, tone });
    assert(runs_view(buffer@) =~= runs_view(before).push(buffer@.last()@));
}

fn text_or_default<'a>(text: &'a Option<String>, default: &'a str) -> (found: &'a str)
    ensures
        found@ == text_or(*text, default@),
{
    match text {
        Some(s) => s.as_str(),
        None => default,
    }
}

/// Writes a line of a task.
fn line_of(machine: &str, task: &ActivityTask, stale: bool, line: u16) -> (text: String)
    requires
        line < 4,
    ensures
        text@ == task_line(ShownTask { machine: machine@, task: *task, stale }, line as int),
{
    if line == 3 && stale {
        return " STALE · last observation".to_string();
    }
    let mut text = " ".to_string();
    if line == 0 {
        if !machine.is_empty() {
            text.push_str(machine);
            text.push_str("/");
        }
        text.push_str(task.request_id.as_str());
    } else if line == 1 {
        text.push_str(text_or_default(&task.model, "default?"));
        text.push_str("/");
        text.push_str(text_or_default(&task.effort, "default?"));
    } else if line == 2 {
        text.push_str(task.workspace.as_str());
        text.push_str(" · ");
        match task.elapsed_seconds {
            Some(seconds) => {
                let mut elapsed = decimal_text(seconds);
                elapsed.push_str("s");
                text.push_str(elapsed.as_str());
            },
            None => {
                text.push_str("?s");
            },
        }
    } else {
        text.push_str(task.status.as_str());
        text.push_str(" · ");
        text.push_str(task.progress.as_str());
    }
    text
}

/// Places the four lines of a task.
fn put_task(
    buffer: &mut Vec<TextRun>,
    strip: Rect,
    place: u16,
    machine: &str,
    task: &ActivityTask,
    stale: bool,
)
    requires
        strip.y + 5 + place * 4 <= 0xffff,
    ensures
        ({
            let shown = ShownTask { machine: machine@, task: *task, stale };
            runs_view(final(buffer)@) == runs_view(old(buffer)@) + seq![
                task_run(strip, place as int, shown, 0),
                task_run(strip, place as int, shown, 1),
                task_run(strip, place as int, shown, 2),
                task_run(strip, place as int, shown, 3),
            ]
        }),
{
    let y = strip.y + 1 + place * 4;
    let tone = if stale {
        Tone::Dim
    } else {
        Tone::Body
    };
    let ghost before = runs_view(buffer@);
    put(buffer, strip, y, line_of(machine, task, stale, 0), tone);
    put(buffer, strip, y + 1, line_of(machine, task, stale, 1), tone);
    put(buffer, strip, y + 2, line_of(machine, task, stale, 2), tone);
    put(buffer, strip, y + 3, line_of(machine, task, stale, 3), tone);
    proof {
        let shown = ShownTask { machine: machine@, task: *task, stale };
        assert(runs_view(buffer@) =~= before + seq![
            task_run(strip, place as int, shown, 0),
            task_run(strip, place as int, shown, 1),
            task_run(strip, place as int, shown, 2),
            task_run(strip, place as int, shown, 3),
        ]);
    }
}

/// The first tasks that there is room for.
spec fn first_tasks(tasks: Seq<ShownTask>, capacity: int) -> Seq<ShownTask> {
    if tasks.len() <= capacity {
        tasks
    } else {
        tasks.take(capacity)
    }
}

/// Places the tasks that there is room for, and says how many.
fn put_tasks(
    buffer: &mut Vec<TextRun>,
    strip: Rect,
    capacity: u16,
    machines: &Vec<MachineActivity>,
) -> (drawn: u16)
    requires
        strip.y + 1 + capacity * 4 <= 0xffff,
    ensures
        runs_view(final(buffer)@) == runs_view(old(buffer)@) + task_runs(
            strip,
            first_tasks(all_tasks(machines@), capacity as int),
        ),
        drawn == first_tasks(all_tasks(machines@), capacity as int).len(),
{
    let mut drawn: u16 = 0;
    let mut m: usize = 0;
    let ghost base = runs_view(buffer@);
    assert(machines@.take(0) =~= Seq::<MachineActivity>::empty());
    assert(base + Seq::<RunModel>::empty() =~= base);
    while m < machines.len()
        invariant
            m <= machines@.len(),
            strip.y + 1 + capacity * 4 <= 0xffff,
            ({
                let done = all_tasks(machines@.take(m as int));
                &&& drawn == first_tasks(done, capacity as int).len()
                &&& runs_view(buffer@) == base + task_runs(
                    strip,
                    first_tasks(done, capacity as int),
                )
            }),
        decreases machines@.len() - m,
    {
        let machine = machines[m].machine;
        let stale = machines[m].stale;
        let sources = machines[m].sources;
        let ghost earlier = all_tasks(machines@.take(m as int));
        let mut s: usize = 0;
        proof {
            assert(sources@.take(0) =~= Seq::<ActivitySource>::empty());
            assert(earlier + Seq::<ShownTask>::empty() =~= earlier);
        }
        while s < sources.len()
            invariant
                s <= sources@.len(),
                strip.y + 1 + capacity * 4 <= 0xffff,
                ({
                    let done = earlier + shown_sources(machine@, stale, sources@.take(s as int));
                    &&& drawn == first_tasks(done, capacity as int).len()
                    &&& runs_view(buffer@) == base + task_runs(
                        strip,
                        first_tasks(done, capacity as int),
                    )
                }),
            decreases sources@.len() - s,
        {
            let tasks = &sources[s].tasks;
            let ghost before = earlier + shown_sources(machine@, stale, sources@.take(s as int));
            let mut t: usize = 0;
            proof {
                assert(shown_tasks(machine@, stale, tasks@.take(0)) =~= Seq::<ShownTask>::empty());
                assert(before + Seq::<ShownTask>::empty() =~= before);
            }
            while t < tasks.len()
                invariant
                    t <= tasks@.len(),
                    strip.y + 1 + capacity * 4 <= 0xffff,
                    ({
                        let done = before + shown_tasks(machine@, stale, tasks@.take(t as int));
                        &&& drawn == first_tasks(done, capacity as int).len()
                        &&& runs_view(buffer@) == base + task_runs(
                            strip,
                            first_tasks(done, capacity as int),
                        )
                    }),
                decreases tasks@.len() - t,
            {
                let ghost done = before + shown_tasks(machine@, stale, tasks@.take(t as int));
                let ghost shown = ShownTask { machine: machine@, task: tasks@[t as int], stale };
                let ghost more = before + shown_tasks(machine@, stale, tasks@.take(t + 1));
                proof {
                    assert(more =~= done.push(shown));
                }
                if drawn < capacity {
                    put_task(buffer, strip, drawn, machine, &tasks[t], stale);
                    proof {
                        assert(first_tasks(done, capacity as int) == done);
                        assert(first_tasks(more, capacity as int) == more);
                        assert(more.drop_last() =~= done);
                        let four = seq![
                            task_run(strip, drawn as int, shown, 0),
                            task_run(strip, drawn as int, shown, 1),
                            task_run(strip, drawn as int, shown, 2),
                            task_run(strip, drawn as int, shown, 3),
                        ];
                        assert(task_runs(strip, more) == task_runs(strip, done) + four);
                        assert((base + task_runs(strip, done)) + four =~= base + (task_runs(
                            strip,
                            done,
                        ) + four));
                    }
                    drawn = drawn + 1;
                } else {
                    assert(first_tasks(more, capacity as int) =~= first_tasks(
                        done,
                        capacity as int,
                    ));
                }
                t = t + 1;
            }
            proof {
                assert(tasks@.take(t as int) =~= tasks@);
                assert(sources@.take(s + 1).drop_last() =~= sources@.take(s as int));
                assert(earlier + shown_sources(machine@, stale, sources@.take(s + 1)) =~= before
                    + shown_tasks(machine@, stale, tasks@));
            }
            s = s + 1;
        }
        proof {
            assert(sources@.take(s as int) =~= sources@);
            assert(machines@.take(m + 1).drop_last() =~= machines@.take(m as int));
            assert(machines@.take(m + 1).last() == machines@[m as int]);
        }
        m = m + 1;
    }
    assert(machines@.take(m as int) =~= machines@);
    drawn
}

/// Places the strip at the foot of an area and returns what it leaves of it. Without activity or
/// room there is no strip.
pub fn render_strip(
    buffer: &mut Vec<TextRun>,
    area: Rect,
    machines: &Vec<MachineActivity>,
) -> (rest: Rect)
    requires
        area.height > 0 && area.width > 0 ==> total_of(machines@) <= usize::MAX,
    ensures
        runs_view(final(buffer)@) == runs_view(old(buffer)@) + strip_runs(area, machines@),
        rest == if is_shown(area, machines@) {
            rest_of(area)
        } else {
            area
        },
{
    let ghost base = runs_view(buffer@);
    assert(base + Seq::<RunModel>::empty() =~= base);
    if area.height == 0 || area.width == 0 {
        return area;
    }
    let total = count(machines);
    if total == 0 {
        return area;
    }
    let half = area.height / 2 + area.height % 2;
    let height = if half < 11 {
        half
    } else {
        11
    };
    assert(height == strip_height(area));
    let strip = Rect { x: area.x, y: area.bottom() - height, width: area.width, height };
    let rest = Rect { x: area.x, y: area.y, width: area.width, height: area.height - height };
    let capacity = height.saturating_sub(2) / 4;
    assert(strip == strip_of(area));
    assert(rest == rest_of(area));
    assert(capacity == capacity_of(area));
    let mut heading = " headless · ephemeral (".to_string();
    heading.push_str(decimal_text(total as u64).as_str());
    heading.push_str(")");
    put(buffer, strip, strip.y, heading, Tone::Heading);
    assert(strip.y + height <= 0xffff);
    let ghost tasks = task_runs(strip, drawn_tasks(area, machines@));
    assert(runs_view(buffer@) =~= base.push(heading_run(area, total as nat)));
    let drawn = put_tasks(buffer, strip, capacity, machines);
    assert(runs_view(buffer@) =~= base + (seq![heading_run(area, total as nat)] + tasks));
    if total > drawn as usize && height > 1 {
        let mut more = " +".to_string();
        more.push_str(decimal_text((total - drawn as usize) as u64).as_str());
        more.push_str(" more · api snapshot");
        put(buffer, strip, strip.bottom() - 1, more, Tone::Dim);
    }
    assert(runs_view(buffer@) =~= base + strip_runs(area, machines@));
    rest
}

proof fn lemma_task_runs(strip: Rect, tasks: Seq<ShownTask>)
    ensures
        task_runs(strip, tasks).len() == tasks.len() * 4,
        forall|i: int|
            0 <= i < task_runs(strip, tasks).len() ==> {
                let run = #[trigger] task_runs(strip, tasks)[i];
                run.y == strip.y + 1 + i && run.x == strip.x && run.width == strip.width
            },
    decreases tasks.len(),
{
    if tasks.len() > 0 {
        lemma_task_runs(strip, tasks.drop_last());
        let front = task_runs(strip, tasks.drop_last());
        assert forall|i: int| 0 <= i < task_runs(strip, tasks).len() implies {
            let run = #[trigger] task_runs(strip, tasks)[i];
            run.y == strip.y + 1 + i && run.x == strip.x && run.width == strip.width
        } by {
            if i < front.len() {
                assert(task_runs(strip, tasks)[i] == front[i]);
            }
        }
    }
}

/// On an area of any size the strip stays inside it: each run starts at the left edge, is as wide
/// as the area and stands on a row of the strip, and no two runs share a row.
pub proof fn law_strip_stays_inside(area: Rect, machines: Seq<MachineActivity>)
    requires
        area.y + area.height <= 0xffff,
    ensures
        forall|i: int|
            0 <= i < strip_runs(area, machines).len() ==> {
                let run = #[trigger] strip_runs(area, machines)[i];
                &&& run.x == area.x && run.width == area.width
                &&& rest_of(area).y + rest_of(area).height <= run.y < area.y + area.height
            },
        forall|i: int, j: int|
            0 <= i < j < strip_runs(area, machines).len() ==> (#[trigger] strip_runs(
                area,
                machines,
            )[i]).y < (#[trigger] strip_runs(area, machines)[j]).y,
{
    if is_shown(area, machines) {
        let drawn = drawn_tasks(area, machines);
        let strip = strip_of(area);
        let runs = strip_runs(area, machines);
        let tasks = task_runs(strip, drawn);
        lemma_task_runs(strip, drawn);
        assert(drawn.len() <= capacity_of(area));
        assert(runs[0] == heading_run(area, total_of(machines)));
        assert forall|i: int| 0 < i <= tasks.len() implies #[trigger] runs[i] == tasks[i - 1] by {}
    }
}

/// The strip and what it leaves make up the area, one above the other.
pub proof fn law_strip_and_rest_make_up_the_area(area: Rect)
    requires
        area.y + area.height <= 0xffff,
    ensures
        rest_of(area).y == area.y,
        rest_of(area).y + rest_of(area).height == strip_of(area).y,
        strip_of(area).y + strip_of(area).height == area.y + area.height,
        rest_of(area).x == area.x && strip_of(area).x == area.x,
        rest_of(area).width == area.width && strip_of(area).width == area.width,
        rest_of(area).height >= strip_of(area).height - 1,
        strip_of(area).height <= 11,
{
}

/// A task within bounds, on a machine whose name has no control characters.
pub open spec fn is_clean(shown: ShownTask) -> bool {
    !has_control(shown.machine) && task_ok(shown.task)
}

/// The tasks of a machine are within bounds, and its name has no control characters.
pub open spec fn is_clean_machine(machine: MachineActivity) -> bool {
    &&& !has_control(machine.machine@)
    &&& forall|i: int|
        0 <= i < machine.sources@.len() ==> tasks_ok((#[trigger] machine.sources@[i]).tasks@)
}

/// Every task is clean.
pub open spec fn are_clean(tasks: Seq<ShownTask>) -> bool {
    forall|i: int| 0 <= i < tasks.len() ==> is_clean(#[trigger] tasks[i])
}

/// No run has a control character.
pub open spec fn are_plain(runs: Seq<RunModel>) -> bool {
    forall|i: int| 0 <= i < runs.len() ==> !has_control((#[trigger] runs[i]).text)
}

proof fn lemma_shown_sources_clean(machine: Seq<char>, stale: bool, sources: Seq<ActivitySource>)
    requires
        !has_control(machine),
        forall|i: int| 0 <= i < sources.len() ==> tasks_ok((#[trigger] sources[i]).tasks@),
    ensures
        are_clean(shown_sources(machine, stale, sources)),
    decreases sources.len(),
{
    if sources.len() > 0 {
        let front = sources.drop_last();
        assert forall|i: int| 0 <= i < front.len() implies tasks_ok((#[trigger] front[i]).tasks@) by {
            assert(front[i] == sources[i]);
        }
        lemma_shown_sources_clean(machine, stale, front);
        let last = shown_tasks(machine, stale, sources.last().tasks@);
        assert(tasks_ok(sources[sources.len() - 1].tasks@));
        assert forall|i: int| 0 <= i < last.len() implies is_clean(#[trigger] last[i]) by {
            assert(task_ok(sources.last().tasks@[i]));
        }
    }
}

proof fn lemma_all_tasks_clean(machines: Seq<MachineActivity>)
    requires
        forall|i: int| 0 <= i < machines.len() ==> is_clean_machine(#[trigger] machines[i]),
    ensures
        are_clean(all_tasks(machines)),
    decreases machines.len(),
{
    if machines.len() > 0 {
        let front = machines.drop_last();
        assert forall|i: int| 0 <= i < front.len() implies is_clean_machine(#[trigger] front[i]) by {
            assert(front[i] == machines[i]);
        }
        lemma_all_tasks_clean(front);
        let last = machines[machines.len() - 1];
        assert(is_clean_machine(last));
        lemma_shown_sources_clean(last.machine@, last.stale, last.sources@);
    }
}

proof fn lemma_literals_plain()
    ensures
        !has_control(" "@),
        !has_control("/"@),
        !has_control(" · "@),
        !has_control("s"@),
        !has_control("?s"@),
        !has_control("default?"@),
        !has_control(" STALE · last observation"@),
        !has_control(" headless · ephemeral ("@),
        !has_control(")"@),
        !has_control(" +"@),
        !has_control(" more · api snapshot"@),
{
    reveal_strlit(" ");
    reveal_strlit("/");
    reveal_strlit(" · ");
    reveal_strlit("s");
    reveal_strlit("?s");
    reveal_strlit("default?");
    reveal_strlit(" STALE · last observation");
    reveal_strlit(" headless · ephemeral (");
    reveal_strlit(")");
    reveal_strlit(" +");
    reveal_strlit(" more · api snapshot");
}

proof fn lemma_task_line_plain(shown: ShownTask, line: int)
    requires
        is_clean(shown),
    ensures
        !has_control(task_line(shown, line)),
{
    lemma_literals_plain();
    let task = shown.task;
    if line == 0 {
        if shown.machine.len() == 0 {
            lemma_control_add(" "@, task.request_id@);
        } else {
            lemma_control_add(" "@, shown.machine);
            lemma_control_add(" "@ + shown.machine, "/"@);
            lemma_control_add(" "@ + shown.machine + "/"@, task.request_id@);
        }
    } else if line == 1 {
        let model = text_or(task.model, "default?"@);
        let effort = text_or(task.effort, "default?"@);
        lemma_control_add(" "@, model);
        lemma_control_add(" "@ + model, "/"@);
        lemma_control_add(" "@ + model + "/"@, effort);
    } else if line == 2 {
        lemma_control_add(" "@, task.workspace@);
        lemma_control_add(" "@ + task.workspace@, " · "@);
        if let Some(seconds) = task.elapsed_seconds {
            lemma_decimal_control(seconds as nat);
            lemma_control_add(decimal(seconds as nat), "s"@);
            lemma_control_add(
                " "@ + task.workspace@ + " · "@,
                decimal(seconds as nat) + "s"@,
            );
        } else {
            lemma_control_add(" "@ + task.workspace@ + " · "@, "?s"@);
        }
    } else if !shown.stale {
        lemma_control_add(" "@, task.status@);
        lemma_control_add(" "@ + task.status@, " · "@);
        lemma_control_add(" "@ + task.status@ + " · "@, task.progress@);
    }
}

proof fn lemma_task_runs_plain(strip: Rect, tasks: Seq<ShownTask>)
    requires
        are_clean(tasks),
    ensures
        are_plain(task_runs(strip, tasks)),
    decreases tasks.len(),
{
    if tasks.len() > 0 {
        let front = tasks.drop_last();
        assert forall|i: int| 0 <= i < front.len() implies is_clean(#[trigger] front[i]) by {
            assert(front[i] == tasks[i]);
        }
        lemma_task_runs_plain(strip, front);
        assert(is_clean(tasks[tasks.len() - 1]));
        lemma_task_line_plain(tasks.last(), 0);
        lemma_task_line_plain(tasks.last(), 1);
        lemma_task_line_plain(tasks.last(), 2);
        lemma_task_line_plain(tasks.last(), 3);
    }
}

/// Of tasks within bounds, on machines whose names have no control characters, the strip writes no
/// control character.
pub proof fn law_strip_writes_no_controls(area: Rect, machines: Seq<MachineActivity>)
    requires
        forall|i: int| 0 <= i < machines.len() ==> is_clean_machine(#[trigger] machines[i]),
    ensures
        are_plain(strip_runs(area, machines)),
{
    if is_shown(area, machines) {
        let total = total_of(machines);
        let drawn = drawn_tasks(area, machines);
        lemma_all_tasks_clean(machines);
        assert forall|i: int| 0 <= i < drawn.len() implies is_clean(#[trigger] drawn[i]) by {
            assert(drawn[i] == all_tasks(machines)[i]);
        }
        lemma_task_runs_plain(strip_of(area), drawn);
        lemma_literals_plain();
        lemma_decimal_control(total);
        lemma_control_add(" headless · ephemeral ("@, decimal(total));
        lemma_control_add(" headless · ephemeral ("@ + decimal(total), ")"@);
        if total > drawn.len() {
            let more = (total - drawn.len()) as nat;
            lemma_decimal_control(more);
            lemma_control_add(" +"@, decimal(more));
            lemma_control_add(" +"@ + decimal(more), " more · api snapshot"@);
        }
    }
}

/// Each task counts once, and each that a source left out counts too.
pub proof fn law_every_task_is_counted(
    machines: Seq<MachineActivity>,
    machine: MachineActivity,
    sources: Seq<ActivitySource>,
    source: ActivitySource,
)
    ensures
        total_of(Seq::empty()) == 0,
        total_of(machines.push(machine)) == total_of(machines) + sources_total(machine.sources@),
        sources_total(Seq::empty()) == 0,
        sources_total(sources.push(source)) == sources_total(sources) + source.tasks@.len()
            + source.omitted,
{
    assert(machines.push(machine).drop_last() =~= machines);
    assert(sources.push(source).drop_last() =~= sources);
}

/// Every task is listed, machine by machine and source by source in their order, with the name of its
/// machine and whether that is stale.
pub proof fn law_every_task_is_listed(
    machines: Seq<MachineActivity>,
    machine: MachineActivity,
    name: Seq<char>,
    stale: bool,
    sources: Seq<ActivitySource>,
    source: ActivitySource,
    i: int,
)
    requires
        0 <= i < source.tasks@.len(),
    ensures
        all_tasks(Seq::empty()) == Seq::<ShownTask>::empty(),
        all_tasks(machines.push(machine)) == all_tasks(machines) + shown_sources(
            machine.machine@,
            machine.stale,
            machine.sources@,
        ),
        shown_sources(name, stale, Seq::empty()) == Seq::<ShownTask>::empty(),
        ({
            let front = shown_sources(name, stale, sources);
            let all = shown_sources(name, stale, sources.push(source));
            &&& all.len() == front.len() + source.tasks@.len()
            &&& all.take(front.len() as int) == front
            &&& all[front.len() + i] == ShownTask { machine: name, task: source.tasks@[i], stale }
        }),
{
    assert(machines.push(machine).drop_last() =~= machines);
    assert(sources.push(source).drop_last() =~= sources);
    let front = shown_sources(name, stale, sources);
    let all = shown_sources(name, stale, sources.push(source));
    assert(all.take(front.len() as int) =~= front);
}

/// The strip takes the lower half of an area, a row more where it cannot be halved, and at most
/// eleven rows; it has room for as many tasks of four rows as fit beside two more.
pub proof fn law_strip_takes_the_lower_half(area: Rect)
    ensures
        ({
            let height = strip_height(area);
            &&& 0 <= height <= 11
            &&& 2 * height >= area.height || height == 11
            &&& 2 * height <= area.height + 1
            &&& capacity_of(area) >= 0
            &&& height >= 2 ==> 4 * capacity_of(area) + 2 <= height < 4 * capacity_of(area) + 6
            &&& height < 2 ==> capacity_of(area) == 0
            &&& strip_of(area).height == height
            &&& rest_of(area).height == area.height - height
        }),
{
}

proof fn lemma_task_runs_at(strip: Rect, tasks: Seq<ShownTask>, t: int, line: int)
    requires
        0 <= t < tasks.len(),
        0 <= line < 4,
    ensures
        task_runs(strip, tasks).len() == 4 * tasks.len(),
        task_runs(strip, tasks)[4 * t + line] == task_run(strip, t, tasks[t], line),
    decreases tasks.len(),
{
    lemma_task_runs(strip, tasks);
    let front = tasks.drop_last();
    lemma_task_runs(strip, front);
    if t < front.len() {
        lemma_task_runs_at(strip, front, t, line);
        assert(task_runs(strip, tasks)[4 * t + line] == task_runs(strip, front)[4 * t + line]);
    }
}

/// What the strip shows, where an area has room and there is activity: a heading with the number of
/// all tasks, the first tasks in their order as far as there is room, and, if any is not shown and
/// there is a row for it, how many those are.
pub proof fn law_strip_shows_the_first_tasks(area: Rect, machines: Seq<MachineActivity>, t: int)
    requires
        area.height > 0,
        area.width > 0,
        total_of(machines) > 0,
    ensures
        ({
            let runs = strip_runs(area, machines);
            let tasks = all_tasks(machines);
            let room = capacity_of(area);
            let drawn = if tasks.len() < room {
                tasks.len() as int
            } else {
                room
            };
            let more = total_of(machines) > drawn && strip_height(area) > 1;
            &&& runs.len() == 1 + 4 * drawn + if more {
                1int
            } else {
                0
            }
            &&& runs[0].text == " headless · ephemeral ("@ + decimal(total_of(machines)) + ")"@
            &&& runs[0].tone == Tone::Heading
            &&& more ==> runs[runs.len() - 1].text == " +"@ + decimal(
                (total_of(machines) - drawn) as nat,
            ) + " more · api snapshot"@ && runs[runs.len() - 1].tone == Tone::Dim
            &&& 0 <= t < drawn ==> {
                let task = tasks[t].task;
                let tone = if tasks[t].stale {
                    Tone::Dim
                } else {
                    Tone::Body
                };
                &&& runs[1 + 4 * t].text == if tasks[t].machine.len() == 0 {
                    " "@ + task.request_id@
                } else {
                    " "@ + tasks[t].machine + "/"@ + task.request_id@
                }
                &&& runs[2 + 4 * t].text == " "@ + (match task.model {
                    Some(model) => model@,
                    None => "default?"@,
                }) + "/"@ + (match task.effort {
                    Some(effort) => effort@,
                    None => "default?"@,
                })
                &&& runs[3 + 4 * t].text == " "@ + task.workspace@ + " · "@ + (
                match task.elapsed_seconds {
                    Some(seconds) => decimal(seconds as nat) + "s"@,
                    None => "?s"@,
                })
                &&& runs[4 + 4 * t].text == if tasks[t].stale {
                    " STALE · last observation"@
                } else {
                    " "@ + task.status@ + " · "@ + task.progress@
                }
                &&& runs[1 + 4 * t].tone == tone && runs[2 + 4 * t].tone == tone
                &&& runs[3 + 4 * t].tone == tone && runs[4 + 4 * t].tone == tone
            }
        }),
{
    let drawn = drawn_tasks(area, machines);
    let strip = strip_of(area);
    let tasks = task_runs(strip, drawn);
    let runs = strip_runs(area, machines);
    lemma_task_runs(strip, drawn);
    assert(runs[0] == heading_run(area, total_of(machines)));
    if 0 <= t < drawn.len() {
        lemma_task_runs_at(strip, drawn, t, 0);
        lemma_task_runs_at(strip, drawn, t, 1);
        lemma_task_runs_at(strip, drawn, t, 2);
        lemma_task_runs_at(strip, drawn, t, 3);
        assert(drawn[t] == all_tasks(machines)[t]);
        assert(runs[1 + 4 * t] == tasks[4 * t]);
        assert(runs[2 + 4 * t] == tasks[4 * t + 1]);
        assert(runs[3 + 4 * t] == tasks[4 * t + 2]);
        assert(runs[4 + 4 * t] == tasks[4 * t + 3]);
    }
}

/// The heading is on the first row of the strip, the lines of the tasks on the rows below it one by
/// one, and the number of those not shown on its last row, all at its left edge and as wide as it.
pub proof fn law_strip_is_written_row_by_row(area: Rect, machines: Seq<MachineActivity>, i: int)
    requires
        0 <= i < strip_runs(area, machines).len(),
    ensures
        ({
            let run = strip_runs(area, machines)[i];
            let strip = strip_of(area);
            let drawn = drawn_tasks(area, machines).len();
            &&& run.x == area.x
            &&& run.width == area.width
            &&& run.y == if i < 1 + 4 * drawn {
                strip.y + i
            } else {
                strip.y + strip.height - 1
            }
        }),
{
    let drawn = drawn_tasks(area, machines);
    let strip = strip_of(area);
    let tasks = task_runs(strip, drawn);
    let runs = strip_runs(area, machines);
    lemma_task_runs(strip, drawn);
    if 1 <= i < 1 + tasks.len() {
        assert(runs[i] == tasks[i - 1]);
    }
}

/// Without room or without activity the strip shows nothing.
pub proof fn law_strip_is_empty_without_activity(area: Rect, machines: Seq<MachineActivity>)
    ensures
        area.height == 0 || area.width == 0 || total_of(machines) == 0 ==> strip_runs(
            area,
            machines,
        ).len() == 0 && !is_shown(area, machines),
        area.height > 0 && area.width > 0 && total_of(machines) > 0 ==> is_shown(area, machines),
{
}

/// Runs of text stand for their places, their texts and their tones, one for one.
pub proof fn law_runs_stand_for_text_at_a_place(runs: Seq<TextRun>, i: int)
    requires
        0 <= i < runs.len(),
    ensures
        runs_view(runs).len() == runs.len(),
        runs_view(runs)[i].x == runs[i].x && runs_view(runs)[i].y == runs[i].y,
        runs_view(runs)[i].width == runs[i].width,
        runs_view(runs)[i].text == runs[i].text@ && runs_view(runs)[i].tone == runs[i].tone,
{
}

/// The row below a part of the terminal is that many rows further down, or the last number that a row
/// can have.
pub proof fn law_the_row_below_is_counted(area: Rect)
    ensures
        area.y + area.height <= 65535 ==> area.bottom_row() == area.y + area.height,
        area.y + area.height > 65535 ==> area.bottom_row() == 65535,
{
}

} // verus!
