use herdr_native::digest::session_record;
use herdr_native::dsh::config::{choose_value, configured_value, confirm_selection};
use herdr_native::dsh::error::{DriverError, ErrorKind};
use herdr_native::dsh::launch::{
    asks_description, description, Failure, Launch, LaunchAction, LaunchEvent, Phase,
};
use herdr_native::dsh::options::Options;
use herdr_native::dsh::record::{journal_of, restore, restore_from, write_record, Journal};
use herdr_native::json::{parse_json, print_json, Json};

fn json(text: &str) -> Json {
    parse_json(text.as_bytes()).unwrap()
}

fn args(list: &[&str]) -> Vec<String> {
    list.iter().map(|arg| arg.to_string()).collect()
}

fn invalid(message: &str) -> DriverError {
    DriverError {
        kind: ErrorKind::InvalidData,
        message: message.into(),
    }
}

#[test]
fn resume_cannot_replay_initialization() {
    assert!(Options::parse(&[
        "--resume".into(),
        "s".into(),
        "--initial-prompt".into(),
        "p".into()
    ])
    .is_err());
    assert!(Options::parse(&["--dsh-bin".into(), "dsh\nother".into()]).is_err());
    assert!(Options::parse(&["--journal".into(), "relative".into()]).is_err());
}

#[test]
fn catalog_cannot_prompt_resume_or_write_worker_journal() {
    for key in ["--initial-prompt", "--resume", "--journal"] {
        assert!(Options::parse(&["--catalog".into(), key.into(), "/example".into()]).is_err());
    }
    assert!(Options::parse(&["--catalog".into()]).unwrap().catalog);
}

#[test]
fn model_alias_requires_unique_advertised_route() {
    let options = json(
        "[{\"id\":\"model\",\"options\":[{\"options\":[{\"value\":\"[\\\"a\\\",\\\"m\\\"]\"},{\"value\":\"[\\\"b\\\",\\\"m\\\"]\"}]}]}]",
    );
    assert!(configured_value(&options, "model", "m").is_err());
    assert_eq!(
        configured_value(&options, "model", "[\"a\",\"m\"]").unwrap(),
        "[\"a\",\"m\"]"
    );
    assert!(configured_value(&options, "model", "missing").is_err());
}

#[test]
fn selection_acknowledgement_cannot_silently_substitute() {
    assert!(confirm_selection(&json("[]"), "model", "a").is_err());
    assert!(
        confirm_selection(&json("[{\"id\":\"model\",\"currentValue\":\"b\"}]"), "model", "a").is_err()
    );
    assert!(
        confirm_selection(&json("[{\"id\":\"model\",\"currentValue\":\"a\"}]"), "model", "a").is_ok()
    );
}

#[test]
fn arguments_are_read_one_by_one() {
    let options = Options::parse(&args(&[
        "--dsh-bin",
        "/opt/dsh",
        "--model",
        "m",
        "--effort",
        "low",
        "--effort",
        "high",
        "--initial-prompt",
        "go",
        "--journal",
        "/var/j.json",
    ]))
    .unwrap();
    assert_eq!(
        options,
        Options {
            binary: "/opt/dsh".into(),
            catalog: false,
            resume: None,
            journal: Some("/var/j.json".into()),
            initial: Some("go".into()),
            model: Some("m".into()),
            effort: Some("high".into()),
        }
    );
    assert_eq!(Options::parse(&[]).unwrap().binary, "dsh");
}

#[test]
fn each_refused_argument_says_why() {
    for (list, message) in [
        (vec!["--model"], "missing value for --model"),
        (
            vec!["--model", ""],
            "empty or control-character launch argument",
        ),
        (
            vec!["--what", "x\u{9f}"],
            "empty or control-character launch argument",
        ),
        (vec!["--what", "x"], "unknown DSH driver option: --what"),
        (
            vec!["--resume", "s", "--catalog"],
            "catalog inspection cannot resume, prompt, or write a journal",
        ),
        (
            vec!["--resume", "s", "--initial-prompt", "p"],
            "resume never replays an initializer",
        ),
        (
            vec!["--journal", "j"],
            "journal must be an absolute path",
        ),
        (
            vec!["--journal", "a/b"],
            "journal must be an absolute path",
        ),
    ] {
        assert_eq!(Options::parse(&args(&list)).unwrap_err(), invalid(message));
    }
    let long = "x".repeat(131_073);
    assert_eq!(
        Options::parse(&args(&["--initial-prompt", &long])).unwrap_err(),
        invalid("initializer exceeds 128 KiB")
    );
    assert!(Options::parse(&args(&["--initial-prompt", &long[1..]])).is_ok());
    assert!(Options::parse_where(&args(&["--journal", "j"]), true).is_ok());
    assert!(Options::parse_where(&args(&["--journal", "/j"]), false).is_err());
}

#[test]
fn values_are_configured_as_advertised() {
    let options = json(
        "[{\"id\":\"model\",\"options\":[{\"value\":\"x\",\"options\":[{\"value\":\"[\\\"a\\\",\\\"m\\\"]\"}]},{\"value\":1}]}]",
    );
    assert_eq!(configured_value(&options, "model", "x").unwrap(), "x");
    assert_eq!(
        configured_value(&options, "model", "m").unwrap(),
        "[\"a\",\"m\"]"
    );
    assert_eq!(
        configured_value(&options, "model", "a").unwrap_err(),
        invalid("unsupported or ambiguous DSH model; use an advertised configuration value")
    );
    assert_eq!(
        configured_value(&options, "reasoning_effort", "x").unwrap_err(),
        invalid("DSH does not advertise reasoning_effort")
    );
    assert_eq!(
        confirm_selection(&options, "model", "x").unwrap_err(),
        invalid("DSH did not acknowledge the requested selection")
    );
}

#[test]
fn routes_have_two_parts_and_lead_to_one_value() {
    let values = args(&["r1", "r2", "r3"]);
    let pair = |a: &str, b: &str| Some(args(&[a, b]));
    let routes = vec![pair("p", "m"), pair("m", "q"), None];
    assert_eq!(choose_value(&values, &routes, "m").as_deref(), Some("r1"));
    assert_eq!(choose_value(&values, &routes, "r3").as_deref(), Some("r3"));
    assert_eq!(choose_value(&values, &routes, "p"), None);
    let routes = vec![pair("p", "m"), pair("q", "m"), Some(args(&["a", "m", "b"]))];
    assert_eq!(choose_value(&values, &routes, "m"), None);
    assert_eq!(choose_value(&values, &routes, "r1").as_deref(), Some("r1"));
}

#[test]
fn the_driver_describes_itself() {
    assert!(asks_description(&args(&["--describe"])));
    assert!(!asks_description(&args(&["--describe", "x"])));
    assert_eq!(
        print_json(&description()),
        "{\"catalog\":true,\"compact\":false,\"driver\":\"herdr:dsh\",\"launch\":true,\"permissions\":\"interactive-once\",\"prompt\":true,\"protocol\":1,\"resume\":true,\"transport\":\"acp-stdio\",\"update\":false}"
    );
}

fn resuming(extra: &[&str]) -> Options {
    let mut list = vec!["--resume", "s-1"];
    list.extend_from_slice(extra);
    Options::parse(&args(&list)).unwrap()
}

#[test]
fn a_session_is_restored_from_its_record() {
    let line = write_record("s-1", "/work", "/opt/dsh", "/var/j \"1\".json");
    assert_eq!(
        line,
        "{\"binary\":\"/opt/dsh\",\"cwd\":\"/work\",\"journal\":\"/var/j \\\"1\\\".json\",\"protocol\":1,\"session_id\":\"s-1\"}\n"
    );
    let filled = restore(resuming(&[]), line.as_bytes(), "/work").unwrap();
    assert_eq!(filled.binary, "/opt/dsh");
    assert_eq!(filled.journal.as_deref(), Some("/var/j \"1\".json"));
    assert_eq!(filled.resume.as_deref(), Some("s-1"));
    let own = resuming(&["--dsh-bin", "mine", "--journal", "/own"]);
    let filled = restore(own, line.as_bytes(), "/work").unwrap();
    assert_eq!(filled.binary, "mine");
    assert_eq!(filled.journal.as_deref(), Some("/own"));
}

#[test]
fn a_record_of_something_else_is_refused() {
    let line = write_record("s-1", "/work", "dsh", "/j");
    assert_eq!(
        restore(resuming(&[]), line.as_bytes(), "/other").unwrap_err(),
        invalid("DSH restore binding changed")
    );
    let line = write_record("s-2", "/work", "dsh", "/j");
    assert_eq!(
        restore(resuming(&[]), line.as_bytes(), "/work").unwrap_err(),
        invalid("DSH restore binding changed")
    );
    let long = vec![b' '; 65537];
    assert_eq!(
        restore(resuming(&[]), &long, "/work").unwrap_err(),
        invalid("oversized DSH launch record")
    );
    let short = restore(resuming(&[]), b"{", "/work").unwrap_err();
    assert_eq!(short.kind, ErrorKind::UnexpectedEof);
    let wrong = restore(resuming(&[]), b"x", "/work").unwrap_err();
    assert_eq!(wrong.kind, ErrorKind::InvalidData);
    assert!(wrong.message.starts_with("expected value"));
}

#[test]
fn a_record_that_says_little_changes_little() {
    let record = json("{\"session_id\":\"s-1\",\"cwd\":\"/work\"}");
    let filled = restore_from(resuming(&[]), Ok(record), "/work").unwrap();
    assert_eq!(filled, resuming(&[]));
}

#[test]
fn a_journal_is_kept_where_it_was_asked_for() {
    assert_eq!(
        journal_of(&resuming(&["--journal", "/own"]), "abc"),
        Journal::Given("/own".into())
    );
    assert_eq!(
        journal_of(&resuming(&[]), "abc"),
        Journal::Own(
            "ba7816bf8f01cfea414140de5dae2223b00361a396177a9cb410ff61f20015ad.json".into()
        )
    );
}

#[test]
fn the_record_of_a_session_has_its_own_name() {
    assert_ne!(session_record("s-1"), session_record("s-2"));
    assert!(session_record("s-1").ends_with(".launch.json"));
}

const HELLO: &str = "{\"protocolVersion\":1,\"agentInfo\":{\"name\":\"dsh\"},\"agentCapabilities\":{\"sessionCapabilities\":{\"close\":{},\"resume\":{}}}}";
const CONFIG: &str = "[{\"id\":\"model\",\"currentValue\":\"m\",\"options\":[{\"value\":\"m\"}]},{\"id\":\"reasoning_effort\",\"currentValue\":\"low\",\"options\":[{\"value\":\"low\"},{\"value\":\"high\"}]}]";

fn launch(list: &[&str]) -> (Launch, LaunchAction) {
    Launch::start(Options::parse(&args(list)).unwrap(), "/work", "1.2.3")
}

fn call(action: LaunchAction) -> (String, String) {
    match action {
        LaunchAction::Call { method, params } => (method, print_json(&params)),
        other => panic!("{other:?}"),
    }
}

fn opened(list: &[&str]) -> (Launch, LaunchAction) {
    let (mut run, _) = launch(list);
    run.step(LaunchEvent::Answered(json(HELLO)));
    let answer = format!("{{\"sessionId\":\"s-1\",\"configOptions\":{CONFIG}}}");
    let action = run.step(LaunchEvent::Answered(json(&answer)));
    (run, action)
}

#[test]
fn a_session_is_launched_step_by_step() {
    let (mut run, action) = launch(&["--effort", "high", "--initial-prompt", "go"]);
    assert_eq!(
        call(action),
        (
            "initialize".into(),
            "{\"clientCapabilities\":{},\"clientInfo\":{\"name\":\"herdr\",\"version\":\"1.2.3\"},\"protocolVersion\":1}".into()
        )
    );
    let action = run.step(LaunchEvent::Answered(json(HELLO)));
    assert_eq!(
        call(action),
        ("session/new".into(), "{\"cwd\":\"/work\",\"mcpServers\":[]}".into())
    );
    let answer = format!("{{\"sessionId\":\"s\\u001b1\",\"configOptions\":{CONFIG}}}");
    let action = run.step(LaunchEvent::Answered(json(&answer)));
    assert_eq!(
        action,
        LaunchAction::Record {
            session: "s\x1b1".into(),
            agent_info: json("{\"name\":\"dsh\"}"),
        }
    );
    assert_eq!(run.step(LaunchEvent::Left), LaunchAction::Wait);
    let action = run.step(LaunchEvent::Recorded);
    assert_eq!(
        call(action),
        (
            "session/set_config_option".into(),
            "{\"configId\":\"reasoning_effort\",\"sessionId\":\"s\\u001b1\",\"value\":\"high\"}".into()
        )
    );
    let changed = CONFIG.replace("\"currentValue\":\"low\"", "\"currentValue\":\"high\"");
    let action = run.step(LaunchEvent::Answered(json(&format!("{{\"configOptions\":{changed}}}"))));
    assert_eq!(
        action,
        LaunchAction::Use {
            resumed: false,
            config: json(&changed),
            announcement: "DSH session s1\r\nUse /exit to close; Ctrl-C cancels active work.\r\n"
                .into(),
            initial: Some("go".into()),
        }
    );
    let action = run.step(LaunchEvent::Left);
    assert_eq!(
        call(action),
        ("session/close".into(), "{\"sessionId\":\"s\\u001b1\"}".into())
    );
    let action = run.step(LaunchEvent::Answered(Json::Null));
    assert_eq!(action, LaunchAction::Finish { shown: "".into() });
    assert_eq!(run.phase, Phase::Ended);
    assert_eq!(run.step(LaunchEvent::Failed), LaunchAction::Wait);
}

#[test]
fn a_session_is_resumed_without_a_prompt() {
    let (mut run, _) = launch(&["--resume", "s-9"]);
    let action = run.step(LaunchEvent::Answered(json(HELLO)));
    assert_eq!(
        call(action),
        (
            "session/resume".into(),
            "{\"cwd\":\"/work\",\"mcpServers\":[],\"sessionId\":\"s-9\"}".into()
        )
    );
    run.step(LaunchEvent::Answered(json("{}")));
    assert_eq!(run.session, "s-9");
    match run.step(LaunchEvent::Recorded) {
        LaunchAction::Use { resumed, initial, config, .. } => {
            assert!(resumed);
            assert_eq!(initial, None);
            assert_eq!(config, Json::Null);
        }
        other => panic!("{other:?}"),
    }
}

#[test]
fn an_agent_that_cannot_be_driven_is_refused() {
    for (list, hello, message) in [
        (vec![], "{}", "DSH ACP v1 with session/close is required"),
        (
            vec![],
            "{\"protocolVersion\":2,\"agentCapabilities\":{\"sessionCapabilities\":{\"close\":{}}}}",
            "DSH ACP v1 with session/close is required",
        ),
        (
            vec![],
            "{\"protocolVersion\":1,\"agentCapabilities\":{\"sessionCapabilities\":{}}}",
            "DSH ACP v1 with session/close is required",
        ),
        (
            vec!["--resume", "s"],
            "{\"protocolVersion\":1,\"agentCapabilities\":{\"sessionCapabilities\":{\"close\":null}}}",
            "DSH does not support resume",
        ),
    ] {
        let (mut run, _) = launch(&list);
        assert_eq!(
            run.step(LaunchEvent::Answered(json(hello))),
            LaunchAction::Fail(Failure::Own(invalid(message)))
        );
    }
    for answer in ["{}", "{\"sessionId\":\"\"}", "{\"sessionId\":7}"] {
        let (mut run, _) = launch(&[]);
        run.step(LaunchEvent::Answered(json(HELLO)));
        assert_eq!(
            run.step(LaunchEvent::Answered(json(answer))),
            LaunchAction::Fail(Failure::Own(invalid("DSH returned no session identity")))
        );
    }
    let (mut run, _) = launch(&["--resume", "s"]);
    run.step(LaunchEvent::Answered(json(HELLO)));
    assert_eq!(
        run.step(LaunchEvent::Answered(json("{\"sessionId\":\"\"}"))),
        LaunchAction::Fail(Failure::Own(invalid("DSH returned no session identity")))
    );
}

#[test]
fn a_substituted_selection_ends_the_launch() {
    let (mut run, _) = opened(&["--model", "m"]);
    let (method, _) = call(run.step(LaunchEvent::Recorded));
    assert_eq!(method, "session/set_config_option");
    assert_eq!(
        run.step(LaunchEvent::Answered(json("{\"configOptions\":[]}"))),
        LaunchAction::Fail(Failure::Own(invalid(
            "DSH did not acknowledge the requested selection"
        )))
    );
    let (mut run, _) = opened(&["--model", "other"]);
    assert_eq!(
        run.step(LaunchEvent::Recorded),
        LaunchAction::Fail(Failure::Own(invalid(
            "unsupported or ambiguous DSH model; use an advertised configuration value"
        )))
    );
    let (mut run, _) = opened(&[]);
    assert_eq!(
        run.step(LaunchEvent::Failed),
        LaunchAction::Fail(Failure::Outside)
    );
}

#[test]
fn an_inspection_closes_its_session_and_prints_what_it_found() {
    let (mut run, action) = opened(&["--catalog", "--model", "m", "--effort", "low"]);
    assert_eq!(
        call(action),
        (
            "session/set_config_option".into(),
            "{\"configId\":\"model\",\"sessionId\":\"s-1\",\"value\":\"m\"}".into()
        )
    );
    let answer = format!("{{\"configOptions\":{CONFIG}}}");
    let action = run.step(LaunchEvent::Answered(json(&answer)));
    assert_eq!(
        call(action),
        (
            "session/set_config_option".into(),
            "{\"configId\":\"reasoning_effort\",\"sessionId\":\"s-1\",\"value\":\"low\"}".into()
        )
    );
    let action = run.step(LaunchEvent::Answered(json("{\"configOptions\":[{\"currentValue\":\"low\",\"id\":\"reasoning_effort\"}]}")));
    assert_eq!(
        call(action),
        ("session/close".into(), "{\"sessionId\":\"s-1\"}".into())
    );
    assert_eq!(
        run.step(LaunchEvent::Answered(Json::Null)),
        LaunchAction::Finish {
            shown: "{\"config_options\":[{\"currentValue\":\"low\",\"id\":\"reasoning_effort\"}],\"driver\":\"herdr:dsh\",\"protocol\":1}\n".into()
        }
    );
}

#[test]
fn a_failed_inspection_closes_its_session_and_tells_the_first_failure() {
    for closing in [LaunchEvent::Failed, LaunchEvent::Answered(Json::Null)] {
        let (mut run, action) = opened(&["--catalog", "--model", "other"]);
        assert_eq!(call(action).0, "session/close");
        assert_eq!(
            run.step(closing),
            LaunchAction::Fail(Failure::Own(invalid(
                "unsupported or ambiguous DSH model; use an advertised configuration value"
            )))
        );
    }
    let (mut run, _) = opened(&["--catalog", "--model", "m"]);
    assert_eq!(call(run.step(LaunchEvent::Failed)).0, "session/close");
    assert_eq!(
        run.step(LaunchEvent::Answered(Json::Null)),
        LaunchAction::Fail(Failure::Outside)
    );
    let (mut run, action) = opened(&["--catalog"]);
    assert_eq!(call(action).0, "session/close");
    assert_eq!(
        run.step(LaunchEvent::Failed),
        LaunchAction::Fail(Failure::Outside)
    );
}

#[test]
fn an_inspection_introduces_itself_as_one() {
    let (_, action) = launch(&["--catalog"]);
    assert!(call(action).1.contains("\"name\":\"herdr-catalog\""));
}
