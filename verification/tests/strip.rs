use herdr_native::activity::{ActivitySource, ActivityTask};
use herdr_native::strip::{render_strip, MachineActivity, Rect, TextRun, Tone};

fn task() -> ActivityTask {
    ActivityTask {
        id: "task-a".into(),
        request_id: "build-a".into(),
        harness: "codex".into(),
        workspace: "canvas".into(),
        model: Some("sol".into()),
        effort: Some("high".into()),
        elapsed_seconds: Some(42),
        status: "running".into(),
        progress: "monitoring".into(),
    }
}

fn source() -> ActivitySource {
    ActivitySource {
        source: "session-hygiene".into(),
        tasks: vec![task()],
        omitted: 3,
    }
}

fn area(width: u16, height: u16) -> Rect {
    Rect {
        x: 0,
        y: 0,
        width,
        height,
    }
}

fn draw<'a>(
    area: Rect,
    machine: &'a str,
    sources: &'a [ActivitySource],
    stale: bool,
) -> (Vec<TextRun>, Rect) {
    let mut buffer = Vec::new();
    let machines = vec![MachineActivity {
        machine,
        sources,
        stale,
    }];
    let rest = render_strip(&mut buffer, area, &machines);
    (buffer, rest)
}

fn text(buffer: &[TextRun]) -> String {
    let lines: Vec<&str> = buffer.iter().map(|run| run.text.as_str()).collect();
    lines.join("\n")
}

#[test]
fn activity_strip_has_no_native_actions_and_preserves_agents() {
    let activity = vec![source()];
    let whole = area(78, 24);
    let (buffer, rest) = draw(whole, "", &activity, false);
    let shown = text(&buffer);
    assert!(shown.contains("headless · ephemeral (4)"));
    assert!(shown.contains("build-a"));
    assert!(shown.contains("sol/high"));
    assert!(shown.contains("canvas · 42s"));
    assert!(shown.contains("running · monitoring"));
    assert!(shown.contains("+3 more"));
    assert!(rest.bottom() <= 13);
    // All geometry, including collapsed/very short terminals, stays bounded.
    for width in [0, 1, 4, 24] {
        for height in [0, 1, 2, 3, 5] {
            let small = area(width, height);
            let (_, rest) = draw(small, "remote", &activity, true);
            assert!(rest.bottom() <= small.bottom());
        }
    }
    let (buffer, _) = draw(whole, "remote", &activity, true);
    let shown = text(&buffer);
    assert!(shown.contains("remote/build-a"));
    assert!(shown.contains("STALE"));
    assert!(!shown.contains("running · monitoring"));
}

#[test]
fn the_strip_is_placed_row_by_row() {
    let activity = vec![source()];
    let whole = Rect {
        x: 3,
        y: 2,
        width: 40,
        height: 13,
    };
    let (buffer, rest) = draw(whole, "", &activity, false);
    assert_eq!(
        rest,
        Rect {
            x: 3,
            y: 2,
            width: 40,
            height: 6
        }
    );
    let rows: Vec<(u16, &str, Tone)> = buffer
        .iter()
        .map(|run| (run.y, run.text.as_str(), run.tone))
        .collect();
    assert_eq!(
        rows,
        [
            (8, " headless · ephemeral (4)", Tone::Heading),
            (9, " build-a", Tone::Body),
            (10, " sol/high", Tone::Body),
            (11, " canvas · 42s", Tone::Body),
            (12, " running · monitoring", Tone::Body),
            (14, " +3 more · api snapshot", Tone::Dim),
        ]
    );
    assert!(buffer.iter().all(|run| run.x == 3 && run.width == 40));
    assert!(buffer
        .iter()
        .all(|run| rest.bottom() <= run.y && run.y < whole.bottom()));
    assert!(buffer
        .iter()
        .all(|run| !run.text.chars().any(char::is_control)));
}

#[test]
fn what_a_task_leaves_out_is_told() {
    let mut bare = source();
    bare.omitted = 0;
    bare.tasks[0].model = None;
    bare.tasks[0].effort = None;
    bare.tasks[0].elapsed_seconds = None;
    let (buffer, _) = draw(area(30, 20), "far", &[bare], true);
    let lines: Vec<&str> = buffer.iter().map(|run| run.text.as_str()).collect();
    assert_eq!(
        lines,
        [
            " headless · ephemeral (1)",
            " far/build-a",
            " default?/default?",
            " canvas · ?s",
            " STALE · last observation",
        ]
    );
    assert!(buffer[1..].iter().all(|run| run.tone == Tone::Dim));
}

#[test]
fn the_strip_shows_as_many_tasks_as_it_has_room_for() {
    let mut many = source();
    many.omitted = 0;
    many.tasks = vec![task(); 5];
    for (height, tasks) in [(1, 0), (2, 0), (10, 0), (11, 1), (19, 2), (24, 2), (60, 2)] {
        let (buffer, _) = draw(area(30, height), "", &[many.clone()], false);
        let drawn = buffer.iter().filter(|run| run.text == " build-a").count();
        assert_eq!(drawn, tasks, "{height}");
    }
    let (buffer, _) = draw(area(30, 24), "", &[many], false);
    assert_eq!(buffer.last().unwrap().text, " +3 more · api snapshot");
}

#[test]
fn an_area_without_room_is_left_whole() {
    for (width, height) in [(0, 10), (30, 0)] {
        let small = area(width, height);
        let (buffer, rest) = draw(small, "", &[source()], false);
        assert!(buffer.is_empty());
        assert_eq!(rest, small);
    }
}

#[test]
fn without_activity_the_area_is_left_whole() {
    let empty = ActivitySource {
        source: "s".into(),
        tasks: Vec::new(),
        omitted: 0,
    };
    let whole = area(30, 10);
    let (buffer, rest) = draw(whole, "", &[empty], false);
    assert!(buffer.is_empty());
    assert_eq!(rest, whole);
}
