use herdr_native::api::{encode_response, ApiError};
use herdr_native::json::{parse_json, Json};
use herdr_native::menu::{options, region_fits, MenuOption};
use herdr_native::native_prompt::{
    bind, handle_agent_prompt_answer, prompt_fingerprint, AgentInfo, AgentPromptAnswerParams,
    AgentStatus, Lookup, PromptAction, PromptEvent,
};

/// A runtime with one agent on one terminal.
struct Runtime {
    status: AgentStatus,
    launch_pending: bool,
    session: Option<Json>,
    missing: Option<Lookup>,
    screen: String,
    dialog_at: usize,
    content_seq: u64,
    /// What the content revision grows by while the screen is captured, and before a key is sent.
    capture_race: u64,
    send_race: u64,
    input: Vec<Vec<u8>>,
}

fn runtime(screen: &str) -> Runtime {
    Runtime {
        status: AgentStatus::Blocked,
        launch_pending: false,
        session: Some(Json::of_text("native-one")),
        missing: None,
        screen: screen.into(),
        dialog_at: 0,
        content_seq: 4,
        capture_race: 0,
        send_race: 0,
        input: Vec::new(),
    }
}

impl Runtime {
    fn agent(&self) -> AgentInfo {
        AgentInfo {
            terminal_id: "term-1".into(),
            pane_id: "pane-1".into(),
            agent: Some("codex".into()),
            agent_status: self.status,
            launch_pending: self.launch_pending,
            agent_session: self.session.clone(),
            state_change_seq: 2,
        }
    }

    fn send_if_content_unchanged(&mut self, seq: u64, keys: Vec<u8>) -> Result<(), String> {
        if seq != self.content_seq {
            return Err("terminal content changed".into());
        }
        self.input.push(keys);
        Ok(())
    }

    fn answer(&mut self, id: &str, params: AgentPromptAnswerParams) -> Json {
        let (mut request, mut action) = handle_agent_prompt_answer(id.into(), params);
        for _ in 0..20 {
            let event = match action {
                PromptAction::FindAgent { .. } => PromptEvent::Agent(Ok(self.agent())),
                PromptAction::Look {
                    lookup: Lookup::Target,
                    ..
                } => PromptEvent::Target(Ok(())),
                PromptAction::Look {
                    lookup: Lookup::Screen,
                    ..
                } => {
                    let seq = self.content_seq;
                    self.content_seq += self.capture_race;
                    PromptEvent::Captured {
                        seq,
                        screen: self.screen.clone(),
                        dialog_at: self.dialog_at,
                        seq_after: self.content_seq,
                    }
                }
                PromptAction::Look { lookup, .. } => PromptEvent::Found(self.missing != Some(lookup)),
                PromptAction::EncodeKey { option } => {
                    PromptEvent::Encoded(Some(vec![option.into_bytes()]))
                }
                PromptAction::SendKey { seq, keys } => {
                    self.content_seq += self.send_race;
                    PromptEvent::Sent(self.send_if_content_unchanged(seq, keys))
                }
                PromptAction::Respond(response) => {
                    return parse_json(encode_response(&response).as_bytes()).unwrap();
                }
                PromptAction::Wait => panic!("an event that does not belong here"),
            };
            action = request.step(event);
        }
        panic!("no answer");
    }
}

fn read() -> AgentPromptAnswerParams {
    AgentPromptAnswerParams {
        target: "prompt-fixture".into(),
        option: None,
        expected_prompt: None,
    }
}

fn pick(option: &str, expected_prompt: &str) -> AgentPromptAnswerParams {
    AgentPromptAnswerParams {
        option: Some(option.into()),
        expected_prompt: Some(expected_prompt.into()),
        ..read()
    }
}

fn code(value: &Json) -> Option<String> {
    value
        .copy_at("error")
        .text_at("code")
        .map(|code| code.to_string())
}

fn message(value: &Json) -> Option<String> {
    value
        .copy_at("error")
        .text_at("message")
        .map(|text| text.to_string())
}

fn prompt(value: &Json) -> Json {
    value.copy_at("result").copy_at("prompt")
}

const MENU: &str = "Choose?\n1. First\n2. Second";

#[test]
fn native_prompt_answer_checks_binding_menu_and_lifecycle_before_one_key() {
    let mut app = runtime(MENU);
    let value = app.answer("read", read());
    let fingerprint = match prompt(&value).text_at("fingerprint") {
        Some(fingerprint) => fingerprint.to_string(),
        None => panic!("prompt fingerprint missing: {value:?}"),
    };
    assert!(app.input.is_empty());
    let answer = pick("2", &fingerprint);
    let invalid = AgentPromptAnswerParams {
        option: Some("9".into()),
        ..answer.clone()
    };
    let value = app.answer("invalid", invalid);
    assert_eq!(code(&value).as_deref(), Some("invalid_option"));
    assert!(app.input.is_empty());
    let value = app.answer("send", answer.clone());
    assert_eq!(prompt(&value).copy_at("input_queued"), Json::Bool(true));
    assert_eq!(app.input, [b"2".to_vec()]);
    app.screen.push_str("\nchanged prompt");
    app.content_seq += 2;
    let value = app.answer("changed", answer.clone());
    assert_eq!(code(&value).as_deref(), Some("native_prompt_changed"));
    assert_eq!(app.input.len(), 1);
    app.status = AgentStatus::Idle;
    let value = app.answer("idle", answer);
    assert_eq!(code(&value).as_deref(), Some("native_prompt_unavailable"));
    assert_eq!(app.input.len(), 1);
}

#[test]
fn native_prompt_content_race_rejects_before_enqueue() {
    let mut app = runtime(MENU);
    let fingerprint = prompt(&app.answer("read", read()))
        .text_at("fingerprint")
        .unwrap()
        .to_string();
    app.send_race = 2;
    let value = app.answer("race", pick("1", &fingerprint));
    assert_eq!(code(&value).as_deref(), Some("native_prompt_not_sent"));
    assert_eq!(message(&value).as_deref(), Some("terminal content changed"));
    assert!(app.input.is_empty());
    app.send_race = 0;
    let value = app.answer("still", pick("2", &fingerprint));
    assert_eq!(prompt(&value).copy_at("input_queued"), Json::Bool(true));
    assert_eq!(app.input, [b"2".to_vec()]);
}

#[test]
fn native_prompt_options_are_explicit_and_bounded() {
    let menu = options("Choose a mode?\n❯ 1. First mode\n  2. Second mode").unwrap();
    assert_eq!(
        menu[0],
        MenuOption {
            key: "1".into(),
            label: "First mode".into()
        }
    );
    assert_eq!(menu[1].key, "2");
    assert!(options("Press enter to approve").is_none());
    assert!(options("1. First\n1. Repeated\n2. Second").is_none());
    assert!(options(&format!("{}\n1. A\n2. B", "x".repeat(4096))).is_none());
    assert!(options(&format!("{}1. A\n2. B", "x\n".repeat(32))).is_none());
}

#[test]
fn menus_are_read_in_each_form_of_their_lines() {
    let menu = options("[1] Allow\r\n > 2) Deny \n3.nothing\n12. no\n0. no\n  >❯ 9] Last").unwrap();
    let pairs: Vec<(&str, &str)> = menu
        .iter()
        .map(|option| (option.key.as_str(), option.label.as_str()))
        .collect();
    assert_eq!(pairs, [("1", "Allow"), ("2", "Deny"), ("9", "Last")]);
    assert!(options("1. Only one").is_none());
    assert!(options("1. A\n2.  ").is_none() && options("1. A\n2.   ").is_none());
    assert!(options("").is_none());
}

#[test]
fn regions_fit_up_to_their_bounds() {
    assert!(region_fits(&"x".repeat(4096)));
    assert!(!region_fits(&"x".repeat(4097)));
    assert!(region_fits(&"x\n".repeat(32)));
    assert!(!region_fits(&"x\n".repeat(33)));
    assert!(options(&format!("{}1. A\n2. B", "x\n".repeat(30))).is_some());
}

#[test]
fn the_menu_is_read_behind_the_last_rule_and_the_whole_screen_is_bounded() {
    let history = "1. Old\n2. Older\n────\n";
    let mut app = runtime(&format!("{history}1. New\n2. Newer"));
    assert_eq!(
        code(&app.answer("whole", read())).as_deref(),
        Some("native_prompt_unsupported")
    );
    app.dialog_at = history.chars().count();
    let shown = prompt(&app.answer("dialog", read()));
    assert_eq!(shown.text_at("screen"), Some(app.screen.as_str()));
    assert_eq!(
        shown.copy_at("options"),
        parse_json(b"[{\"key\":\"1\",\"label\":\"New\"},{\"key\":\"2\",\"label\":\"Newer\"}]").unwrap()
    );
    let long = "x\n".repeat(31);
    app.screen = format!("{long}1. New\n2. Newer");
    app.dialog_at = long.chars().count();
    assert_eq!(
        code(&app.answer("long", read())).as_deref(),
        Some("native_prompt_unsupported")
    );
}

#[test]
fn a_shown_prompt_says_what_it_belongs_to() {
    let mut app = runtime(MENU);
    let value = app.answer("read", read());
    assert_eq!(value.text_at("id"), Some("read"));
    let shown = prompt(&value);
    let binding = parse_json(
        b"{\"agent\":\"codex\",\"native_session\":\"native-one\",\"pane_id\":\"pane-1\",\"state_change_seq\":2,\"terminal_id\":\"term-1\"}",
    )
    .unwrap();
    assert_eq!(shown.copy_at("binding"), binding);
    assert_eq!(shown.text_at("screen"), Some(MENU));
    assert_eq!(shown.text_at("acceptance"), Some("unverified"));
    assert_eq!(shown.copy_at("input_queued"), Json::Bool(false));
    // The digest of `[binding, screen]`, printed without spaces.
    assert_eq!(
        shown.text_at("fingerprint"),
        Some(prompt_fingerprint(&binding, MENU).as_str())
    );
}

#[test]
fn fingerprints_are_digests_of_binding_and_screen() {
    let binding = parse_json(b"{}").unwrap();
    assert_eq!(
        prompt_fingerprint(&binding, "a"),
        herdr_native::digest::digest_text("[{},\"a\"]")
    );
}

#[test]
fn changed_evidence_has_another_fingerprint() {
    let app = runtime(MENU);
    let base = prompt_fingerprint(&bind(&app.agent()), MENU);
    assert_eq!(prompt_fingerprint(&bind(&app.agent()), MENU), base);
    assert_ne!(prompt_fingerprint(&bind(&app.agent()), "1. A\n2. B"), base);
    let mut changed: Vec<AgentInfo> = (0..5).map(|_| app.agent()).collect();
    changed[0].terminal_id = "term-2".into();
    changed[1].pane_id = "pane-2".into();
    changed[2].agent = None;
    changed[3].agent_session = Some(Json::of_text("native-two"));
    changed[4].state_change_seq = 3;
    for agent in changed {
        assert_ne!(prompt_fingerprint(&bind(&agent), MENU), base);
    }
}

#[test]
fn each_missing_part_is_refused_in_its_own_words() {
    for (lookup, words) in [
        (Lookup::Terminal, "native terminal is missing"),
        (Lookup::KnownAgent, "native agent is unknown"),
        (Lookup::Runtime, "native runtime is missing"),
        (Lookup::Foreground, "foreground agent changed"),
    ] {
        let mut app = runtime(MENU);
        app.missing = Some(lookup);
        let value = app.answer("read", read());
        assert_eq!(code(&value).as_deref(), Some("native_prompt_unavailable"));
        assert_eq!(message(&value).as_deref(), Some(words));
    }
}

#[test]
fn agents_that_do_not_wait_for_an_answer_are_refused() {
    let mut pending = runtime(MENU);
    pending.launch_pending = true;
    let mut unnamed = runtime(MENU);
    unnamed.session = None;
    let mut working = runtime(MENU);
    working.status = AgentStatus::Working;
    for mut app in [pending, unnamed, working] {
        let value = app.answer("read", read());
        assert_eq!(
            message(&value).as_deref(),
            Some("a blocked native conversation is required")
        );
    }
}

#[test]
fn a_screen_that_changes_while_it_is_captured_is_refused() {
    let mut app = runtime(MENU);
    app.capture_race = 2;
    let value = app.answer("read", read());
    assert_eq!(
        message(&value).as_deref(),
        Some("terminal changed during capture")
    );
    app.capture_race = 0;
    app.content_seq = 7;
    let value = app.answer("read", read());
    assert_eq!(code(&value).as_deref(), Some("native_prompt_changed"));
}

#[test]
fn an_option_comes_with_the_prompt_that_it_answers() {
    let mut app = runtime(MENU);
    let alone = AgentPromptAnswerParams {
        option: Some("1".into()),
        ..read()
    };
    let value = app.answer("alone", alone);
    assert_eq!(code(&value).as_deref(), Some("invalid_params"));
    assert_eq!(
        message(&value).as_deref(),
        Some("option and expected_prompt must be supplied together")
    );
    let value = app.answer("stale", pick("1", "other"));
    assert_eq!(
        message(&value).as_deref(),
        Some("prompt or native binding changed; inspect again")
    );
    assert!(app.input.is_empty());
}

#[test]
fn a_key_that_cannot_be_encoded_is_not_sent() {
    let mut app = runtime(MENU);
    let fingerprint = prompt(&app.answer("read", read()))
        .text_at("fingerprint")
        .unwrap()
        .to_string();
    let (mut request, mut action) =
        handle_agent_prompt_answer("send".into(), pick("1", &fingerprint));
    assert_eq!(
        action,
        PromptAction::FindAgent {
            target: "prompt-fixture".into()
        }
    );
    for event in [
        PromptEvent::Agent(Ok(app.agent())),
        PromptEvent::Target(Ok(())),
        PromptEvent::Found(true),
        PromptEvent::Found(true),
        PromptEvent::Found(true),
        PromptEvent::Found(true),
        PromptEvent::Captured {
            seq: 4,
            screen: MENU.into(),
            dialog_at: 0,
            seq_after: 4,
        },
    ] {
        action = request.step(event);
    }
    assert_eq!(action, PromptAction::EncodeKey { option: "1".into() });
    assert_eq!(request.step(PromptEvent::Found(true)), PromptAction::Wait);
    match request.step(PromptEvent::Encoded(None)) {
        PromptAction::Respond(response) => {
            let error = response.outcome.unwrap_err();
            assert_eq!(error.message, "option key cannot be encoded");
        }
        other => panic!("{other:?}"),
    }
    assert_eq!(
        request.step(PromptEvent::Encoded(Some(vec![b"1".to_vec()]))),
        PromptAction::Wait
    );
}

#[test]
fn what_the_runtime_says_of_a_target_is_handed_on() {
    let (mut request, _) = handle_agent_prompt_answer("r".into(), read());
    let error = ApiError {
        code: "agent_not_found".into(),
        message: "no such agent".into(),
    };
    match request.step(PromptEvent::Agent(Err(error))) {
        PromptAction::Respond(response) => assert_eq!(
            encode_response(&response),
            "{\"error\":{\"code\":\"agent_not_found\",\"message\":\"no such agent\"},\"id\":\"r\"}"
        ),
        other => panic!("{other:?}"),
    }
}
