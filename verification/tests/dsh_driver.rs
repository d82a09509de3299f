use herdr_native::dsh::acp::{
    accept_frame, check_line, decode_frame, encode_frame, notice_message, request_message,
    MAX_FRAME,
};
use herdr_native::dsh::driver::{
    check_deadline, check_pane_reply, Arrival, Driver, Effect, Report, CONTROL_TIMEOUT,
};
use herdr_native::dsh::editor::{Editor, Line, Typed};
use herdr_native::dsh::error::{DriverError, ErrorKind};
use herdr_native::dsh::keys::{Key, KeyName};
use herdr_native::dsh::options::MAX_TEXT;
use herdr_native::json::{parse_json, print_json, Json};

fn json(text: &str) -> Json {
    parse_json(text.as_bytes()).unwrap()
}

fn invalid(message: &str) -> DriverError {
    DriverError {
        kind: ErrorKind::InvalidData,
        message: message.into(),
    }
}

fn now() -> Json {
    json("12.5")
}

fn driver() -> Driver {
    let mut driver = Driver::new(Some("pane-1".into()), 100, "/work", 77);
    driver.hold_session("s-1".into(), json("{\"name\":\"dsh\"}"));
    driver
}

fn snapshot(driver: &Driver, name: &str) -> Json {
    Json::Table(driver.snapshot.clone()).copy_at(name)
}

fn key(name: KeyName) -> Key {
    Key {
        press: true,
        control: false,
        alt: false,
        name,
    }
}

fn control(c: char) -> Key {
    Key {
        control: true,
        ..key(KeyName::Char(c))
    }
}

fn chunk(text: &str) -> Json {
    let text = print_json(&Json::of_text(text));
    json(&format!(
        "{{\"method\":\"session/update\",\"params\":{{\"sessionId\":\"s-1\",\"update\":{{\"sessionUpdate\":\"agent_message_chunk\",\"content\":{{\"text\":{text}}}}}}}}}"
    ))
}

fn asked(id: u64) -> Json {
    json(&format!(
        "{{\"id\":{id},\"method\":\"session/request_permission\",\"params\":{{\"sessionId\":\"s-1\",\"toolCall\":{{\"t\":\"\\u001b{id}\"}},\"options\":[{{\"kind\":\"allow_always\",\"optionId\":\"always\"}},{{\"kind\":\"allow_once\",\"optionId\":\"yes\"}},{{\"kind\":\"reject_once\",\"optionId\":\"no\"}}]}}}}"
    ))
}

fn state_report(state: &str) -> Effect {
    Effect::Pane(Report::State(state.into()))
}

fn sent(effect: &Effect) -> String {
    match effect {
        Effect::Send(message) => print_json(message),
        other => panic!("{other:?}"),
    }
}

#[test]
fn a_driver_starts_with_what_it_knows() {
    let driver = Driver::new(None, 5, "/work", 77);
    assert_eq!(
        print_json(&Json::Table(driver.snapshot)),
        "{\"background_count\":null,\"cwd\":\"/work\",\"driver_pid\":77,\"lifecycle\":\"unknown\",\"protocol\":1,\"source\":\"herdr:dsh\"}"
    );
    assert!(driver.interactive);
    assert_eq!((driver.seq, driver.sequence), (5, 0));
}

#[test]
fn a_session_is_announced_and_reported_in_order() {
    let mut driver = driver();
    driver.journal = Some("/j".into());
    let config = json("[{\"id\":\"model\",\"currentValue\":\"m\"}]");
    let effects = driver.begin(&config, "hello\r\n".into(), true, &now());
    assert_eq!(effects.len(), 4);
    assert_eq!(effects[0], Effect::Print("hello\r\n".into()));
    assert_eq!(effects[1], Effect::Pane(Report::Session { resumed: true }));
    match &effects[2] {
        Effect::Save { path, document } => {
            assert_eq!(path, "/j");
            assert_eq!(
                print_json(document),
                "{\"agent_info\":{\"name\":\"dsh\"},\"background_count\":null,\"cwd\":\"/work\",\"driver_pid\":77,\"effort\":null,\"lifecycle\":\"idle\",\"model\":\"m\",\"native_id\":\"s-1\",\"observed_at\":12.5,\"pane_id\":\"pane-1\",\"protocol\":1,\"selection_at\":12.5,\"source\":\"herdr:dsh\"}"
            );
        }
        other => panic!("{other:?}"),
    }
    assert_eq!(effects[3], state_report("idle"));
    assert_eq!(
        driver.report_session_start(false),
        [Effect::Pane(Report::Session { resumed: false })]
    );
    assert_eq!(driver.seq, 100);
}

#[test]
fn messages_are_shown_safely_and_kept_while_a_turn_runs() {
    let mut driver = driver();
    let effects = driver.frame(chunk("a\x1b[2J\nb"), &now()).unwrap();
    assert_eq!(effects, [Effect::Print("a[2J\r\nb".into())]);
    assert_eq!(driver.reply, "");
    driver.prompt("go", &now()).unwrap();
    driver.frame(chunk("a\x1bb"), &now()).unwrap();
    assert_eq!(driver.reply, "a\x1bb");
}

#[test]
fn updates_of_other_kinds_are_kept() {
    let mut driver = driver();
    driver.journal = Some("/j".into());
    let update = |text: &str| {
        json(&format!(
            "{{\"method\":\"session/update\",\"params\":{{\"sessionId\":\"s-1\",\"update\":{text}}}}}"
        ))
    };
    let effects = driver
        .frame(
            update("{\"sessionUpdate\":\"usage_update\",\"used\":3,\"size\":9}"),
            &now(),
        )
        .unwrap();
    assert_eq!(effects.len(), 1);
    assert_eq!(snapshot(&driver, "context_used"), Json::of_u64(3));
    assert_eq!(snapshot(&driver, "context_limit"), Json::of_u64(9));
    assert_eq!(snapshot(&driver, "telemetry_at"), now());
    let effects = driver
        .frame(
            update("{\"sessionUpdate\":\"config_option_update\",\"configOptions\":[{\"id\":\"reasoning_effort\",\"currentValue\":\"high\"}]}"),
            &now(),
        )
        .unwrap();
    assert_eq!(effects.len(), 1);
    assert_eq!(snapshot(&driver, "effort"), Json::of_text("high"));
    assert_eq!(snapshot(&driver, "model"), Json::Null);
    let effects = driver
        .frame(
            update("{\"sessionUpdate\":\"tool_call\",\"title\":\"ls\\u0007\"}"),
            &now(),
        )
        .unwrap();
    assert_eq!(effects, [Effect::Print("\r\n[tool] ls\r\n".into())]);
    assert_eq!(
        driver.frame(update("{\"sessionUpdate\":\"other\"}"), &now()),
        Ok(vec![])
    );
}

#[test]
fn messages_about_another_session_stop_the_driver() {
    let mut driver = driver();
    driver.session = "s-2".into();
    assert_eq!(
        driver.frame(chunk("x"), &now()),
        Err(invalid("ACP update changed session identity"))
    );
    assert_eq!(
        driver.frame(asked(1), &now()),
        Err(invalid("permission changed session identity"))
    );
    assert!(driver.permissions.is_empty());
}

#[test]
fn unknown_requests_are_answered_and_notices_are_not() {
    let mut driver = driver();
    let effects = driver
        .frame(json("{\"id\":\"x\",\"method\":\"fs/read\"}"), &now())
        .unwrap();
    assert_eq!(
        sent(&effects[0]),
        "{\"error\":{\"code\":-32601,\"message\":\"Unsupported client method\"},\"id\":\"x\",\"jsonrpc\":\"2.0\"}"
    );
    for quiet in ["{\"method\":\"fs/read\"}", "{\"id\":3}", "[]", "{\"id\":3,\"method\":4}"] {
        assert_eq!(driver.frame(json(quiet), &now()), Ok(vec![]));
    }
}

#[test]
fn permissions_are_asked_for_one_after_the_other() {
    let mut driver = driver();
    let effects = driver.frame(asked(1), &now()).unwrap();
    assert_eq!(effects[0], state_report("blocked"));
    assert_eq!(
        effects[1],
        Effect::Print(
            "\r\nPermission: {\"t\":\"\\u001b1\"}\r\n1 Allow once   2 Reject\r\n".into()
        )
    );
    driver.frame(asked(2), &now()).unwrap();
    assert!(driver.permission_choice('3', &now()).is_empty());
    let effects = driver.permission_choice('1', &now());
    assert_eq!(
        sent(&effects[0]),
        "{\"id\":1,\"jsonrpc\":\"2.0\",\"result\":{\"outcome\":{\"optionId\":\"yes\",\"outcome\":\"selected\"}}}"
    );
    assert_eq!(
        effects[1],
        Effect::Print(
            "\r\nPermission: {\"t\":\"\\u001b2\"}\r\n1 Allow once   2 Reject\r\n".into()
        )
    );
    let effects = driver.permission_choice('2', &now());
    assert_eq!(
        sent(&effects[0]),
        "{\"id\":2,\"jsonrpc\":\"2.0\",\"result\":{\"outcome\":{\"optionId\":\"no\",\"outcome\":\"selected\"}}}"
    );
    assert_eq!(effects[1], state_report("working"));
    assert!(driver.permission_choice('1', &now()).is_empty());
}

#[test]
fn nothing_is_allowed_that_was_not_offered_for_once() {
    let mut driver = driver();
    let request = json("{\"id\":5,\"method\":\"session/request_permission\",\"params\":{\"sessionId\":\"s-1\",\"options\":[{\"kind\":\"allow_always\",\"optionId\":\"always\"}]}}");
    driver.frame(request, &now()).unwrap();
    assert!(driver.permission_choice('1', &now()).is_empty());
    assert_eq!(driver.permissions.len(), 1);
    let effects = driver.permission_choice('2', &now());
    assert_eq!(
        sent(&effects[0]),
        "{\"id\":5,\"jsonrpc\":\"2.0\",\"result\":{\"outcome\":{\"outcome\":\"cancelled\"}}}"
    );
}

#[test]
fn at_most_sixteen_permissions_wait() {
    let mut driver = driver();
    for id in 0..16 {
        driver.frame(asked(id), &now()).unwrap();
    }
    assert_eq!(
        driver.frame(asked(16), &now()),
        Err(invalid("too many pending permission requests"))
    );
    assert_eq!(driver.permissions.len(), 16);
}

#[test]
fn a_turn_is_kept_when_it_has_ended() {
    let mut driver = driver();
    let effects = driver.prompt(" do it ", &now()).unwrap();
    assert_eq!(effects[0], state_report("working"));
    assert_eq!(
        sent(&effects[1]),
        "{\"id\":1,\"jsonrpc\":\"2.0\",\"method\":\"session/prompt\",\"params\":{\"prompt\":[{\"text\":\" do it \",\"type\":\"text\"}],\"sessionId\":\"s-1\"}}"
    );
    driver.frame(chunk("one "), &now()).unwrap();
    driver.frame(chunk("two"), &now()).unwrap();
    driver.frame(asked(1), &now()).unwrap();
    let later = json("13.5");
    let effects = driver
        .prompt_settled(1, &json("{\"stopReason\":\"end_turn\"}"), &later)
        .unwrap();
    assert_eq!(effects[0], state_report("idle"));
    assert_eq!(effects[1], Effect::Print("\r\n".into()));
    assert!(driver.permissions.is_empty());
    assert_eq!(snapshot(&driver, "last_user_text"), Json::of_text(" do it "));
    assert_eq!(snapshot(&driver, "last_user_at"), now());
    assert_eq!(snapshot(&driver, "last_assistant_text"), Json::of_text("one two"));
    assert_eq!(snapshot(&driver, "last_assistant_at"), later);
    assert_eq!(snapshot(&driver, "stop_reason"), Json::of_text("end_turn"));
    assert_eq!(snapshot(&driver, "turn_id"), Json::of_u64(1));
    assert_eq!(
        driver.prompt_settled(1, &Json::Null, &later),
        Err(invalid("missing prompt intent"))
    );
}

#[test]
fn a_reply_that_is_too_long_is_not_kept_in_part() {
    let mut driver = driver();
    driver.prompt("go", &now()).unwrap();
    driver.frame(chunk(&"x".repeat(MAX_TEXT)), &now()).unwrap();
    assert!(!driver.reply_truncated);
    driver.frame(chunk("y"), &now()).unwrap();
    driver.frame(chunk(""), &now()).unwrap();
    assert!(driver.reply_truncated);
    driver.prompt_settled(1, &Json::Null, &now()).unwrap();
    assert_eq!(snapshot(&driver, "last_assistant_text"), Json::Null);
    driver.prompt("again", &now()).unwrap();
    assert!(!driver.reply_truncated);
    assert_eq!(driver.reply, "");
}

#[test]
fn prompts_are_neither_blank_nor_too_long() {
    let mut driver = driver();
    let error = invalid("prompt must contain 1 to 131072 bytes");
    assert_eq!(driver.prompt(" \n\u{3000}", &now()), Err(error));
    let long = "x".repeat(MAX_TEXT + 1);
    assert!(driver.prompt(&long, &now()).is_err());
    assert!(driver.prompt.is_none());
    assert!(driver.prompt(&long[1..], &now()).is_ok());
}

#[test]
fn answers_are_told_from_other_messages() {
    let mut driver = driver();
    let message = driver.request("session/close", json("{}"));
    assert_eq!(
        print_json(&message),
        "{\"id\":1,\"jsonrpc\":\"2.0\",\"method\":\"session/close\",\"params\":{}}"
    );
    let mut hear = |text: &str| driver.response(1, Arrival::Frame(json(text)), &now());
    assert_eq!(
        hear("{\"id\":1,\"result\":{\"ok\":true}}").unwrap().answer,
        Some(json("{\"ok\":true}"))
    );
    assert_eq!(
        hear("{\"id\":1,\"result\":null}").unwrap().answer,
        Some(Json::Null)
    );
    assert_eq!(
        hear("{\"id\":1,\"error\":{\"m\":\"\\u001b\\u009b\"}}"),
        Err(invalid("DSH request failed: {\"m\":\"\\u001b\"}"))
    );
    assert_eq!(hear("{\"id\":1}"), Err(invalid("missing ACP result")));
    for other in ["{\"id\":2,\"result\":1}", "{\"id\":\"1\",\"result\":1}"] {
        assert_eq!(hear(other).unwrap().answer, None);
    }
    let asked = hear("{\"id\":1,\"method\":\"fs/read\"}").unwrap();
    assert_eq!((asked.answer, asked.effects.len()), (None, 1));
    assert_eq!(
        driver.response(1, Arrival::Stopped, &now()),
        Err(invalid("DSH ACP reader stopped"))
    );
    let quiet = driver.response(1, Arrival::Nothing, &now()).unwrap();
    assert_eq!((quiet.answer, quiet.effects.len()), (None, 0));
}

#[test]
fn an_inspection_answers_nothing() {
    let mut driver = driver();
    driver.inspect();
    assert_eq!(driver.pane, None);
    let heard = driver
        .response(1, Arrival::Frame(chunk("text")), &now())
        .unwrap();
    assert!(heard.effects.is_empty() && heard.answer.is_none());
    assert_eq!(
        driver.response(1, Arrival::Frame(asked(3)), &now()),
        Err(invalid("catalog inspection cannot service agent requests"))
    );
}

#[test]
fn keys_cancel_a_turn_or_choose() {
    let mut driver = driver();
    let effects = driver.response_key(control('c'), &now());
    assert_eq!(
        sent(&effects[0]),
        "{\"jsonrpc\":\"2.0\",\"method\":\"session/cancel\",\"params\":{\"sessionId\":\"s-1\"}}"
    );
    driver.frame(asked(1), &now()).unwrap();
    let released = Key {
        press: false,
        ..key(KeyName::Char('1'))
    };
    assert!(driver.response_key(released, &now()).is_empty());
    assert!(driver.response_key(key(KeyName::Enter), &now()).is_empty());
    assert!(driver.response_key(key(KeyName::Char('c')), &now()).is_empty());
    assert_eq!(driver.response_key(key(KeyName::Char('1')), &now()).len(), 2);
    driver.session = String::new();
    assert!(driver.response_key(control('c'), &now()).is_empty());
}

#[test]
fn answers_are_waited_for_up_to_a_limit() {
    assert_eq!(CONTROL_TIMEOUT, 45_000_000_000);
    assert!(check_deadline(Some(CONTROL_TIMEOUT), CONTROL_TIMEOUT - 1).is_ok());
    assert_eq!(
        check_deadline(Some(CONTROL_TIMEOUT), CONTROL_TIMEOUT),
        Err(DriverError {
            kind: ErrorKind::TimedOut,
            message: "ACP outcome uncertain; request was not retried".into(),
        })
    );
    assert!(check_deadline(None, u128::MAX).is_ok());
}

#[test]
fn reports_that_the_pane_rejects_stop_the_driver() {
    let rejected = json("{\"error\":{}}");
    let session = Report::Session { resumed: false };
    let state = Report::State("idle".into());
    assert_eq!(
        check_pane_reply(&session, &rejected),
        Err(invalid("Herdr rejected DSH session identity"))
    );
    assert_eq!(
        check_pane_reply(&state, &rejected),
        Err(invalid("Herdr rejected DSH lifecycle report"))
    );
    assert_eq!(check_pane_reply(&Report::Release, &rejected), Ok(()));
    assert_eq!(check_pane_reply(&state, &json("{}")), Ok(()));
}

#[test]
fn the_pane_is_given_back_at_the_end() {
    let mut driver = driver();
    driver.journal = Some("/j".into());
    let effects = driver.exit(&now());
    match &effects[0] {
        Effect::Save { document, .. } => {
            assert_eq!(document.text_at("lifecycle"), Some("exited"));
            assert_eq!(*document, Json::Table(driver.snapshot.clone()));
        }
        other => panic!("{other:?}"),
    }
    assert_eq!(effects[1], Effect::Pane(Report::Release));
}

#[test]
fn reports_are_numbered_when_they_are_sent() {
    let mut driver = driver();
    let requests = [
        (
            Report::Session { resumed: true },
            "{\"id\":\"dsh:session\",\"method\":\"pane.report_agent_session\",\"params\":{\"agent\":\"dsh\",\"agent_session_id\":\"s-1\",\"pane_id\":\"pane-1\",\"seq\":101,\"session_start_source\":\"resume\",\"source\":\"herdr:dsh\"}}",
        ),
        (
            Report::Session { resumed: false },
            "{\"id\":\"dsh:session\",\"method\":\"pane.report_agent_session\",\"params\":{\"agent\":\"dsh\",\"agent_session_id\":\"s-1\",\"pane_id\":\"pane-1\",\"seq\":102,\"session_start_source\":\"startup\",\"source\":\"herdr:dsh\"}}",
        ),
        (
            Report::State("idle".into()),
            "{\"id\":\"dsh:state\",\"method\":\"pane.report_agent\",\"params\":{\"agent\":\"dsh\",\"agent_session_id\":\"s-1\",\"pane_id\":\"pane-1\",\"seq\":103,\"source\":\"herdr:dsh\",\"state\":\"idle\"}}",
        ),
        (
            Report::Release,
            "{\"id\":\"dsh:release\",\"method\":\"pane.release_agent\",\"params\":{\"agent\":\"dsh\",\"pane_id\":\"pane-1\",\"seq\":104,\"source\":\"herdr:dsh\"}}",
        ),
    ];
    for (report, text) in requests {
        let request = driver.pane_request(&report).unwrap();
        assert_eq!(print_json(&request), text);
    }
    driver.pane = None;
    assert_eq!(driver.pane_request(&Report::Release), None);
    assert_eq!(driver.seq, 104);
}

#[test]
fn a_report_that_was_not_sent_takes_no_number() {
    let mut driver = driver();
    driver.report("working", &now());
    driver.begin(&Json::Null, String::new(), false, &now());
    driver.exit(&now());
    let release = driver.pane_request(&Report::Release).unwrap();
    assert_eq!(release.copy_at("params").copy_at("seq"), Json::of_u64(101));
}

#[test]
fn frames_are_whole_lines_within_bounds() {
    assert_eq!(
        decode_frame(b""),
        Err(DriverError {
            kind: ErrorKind::UnexpectedEof,
            message: "DSH ACP disconnected".into(),
        })
    );
    assert_eq!(decode_frame(b"{}"), Err(invalid("oversized ACP frame")));
    let mut line = vec![b' '; MAX_FRAME];
    line[0] = b'1';
    line[MAX_FRAME - 1] = b'\n';
    assert_eq!(decode_frame(&line), Ok(Json::of_u64(1)));
    line.push(b'\n');
    assert_eq!(check_line(&line), Err(invalid("oversized ACP frame")));
    let broken = decode_frame(b"{\n").unwrap_err();
    assert_eq!(broken.kind, ErrorKind::InvalidData);
    assert!(broken.message.starts_with("invalid ACP frame: EOF while parsing"));
    assert_eq!(accept_frame(Ok(Json::Null)), Ok(Json::Null));
}

#[test]
fn what_is_written_as_a_frame_is_read_back() {
    let params = json("{\"a\":[1,-2,\"x\\n\\u001b\\\"é\",{\"b\":null}]}");
    for message in [
        request_message(u64::MAX, "session/prompt", params.clone()),
        notice_message("session/cancel", params),
    ] {
        let line = encode_frame(&message);
        assert!(line.ends_with('\n') && !line[..line.len() - 1].contains('\n'));
        let read = decode_frame(line.as_bytes()).unwrap();
        assert_eq!(print_json(&read), print_json(&message));
    }
    let mut nested = Json::Null;
    for _ in 0..100 {
        nested = Json::List(vec![nested]);
    }
    assert_eq!(decode_frame(encode_frame(&nested).as_bytes()), Ok(nested));
}

fn typed(editor: &mut Editor, c: char) -> (Line, String) {
    editor.read_prompt(Typed::Key(key(KeyName::Char(c)))).unwrap()
}

#[test]
fn a_line_is_edited_and_submitted() {
    let (mut editor, shown) = Editor::open();
    assert_eq!(shown, "dsh> ");
    assert_eq!(typed(&mut editor, 'h'), (Line::Open, "h".into()));
    typed(&mut editor, 'é');
    let erased = editor.read_prompt(Typed::Key(key(KeyName::Backspace))).unwrap();
    assert_eq!(erased, (Line::Open, "\x08 \x08".into()));
    let pasted = editor.read_prompt(Typed::Paste("i\nyou\x1b".into())).unwrap();
    assert_eq!(pasted, (Line::Open, "i\r\nyou".into()));
    for ignored in [
        Typed::Other,
        Typed::Key(key(KeyName::Other)),
        Typed::Key(control('x')),
        Typed::Key(Key { alt: true, ..key(KeyName::Char('x')) }),
        Typed::Key(Key { press: false, ..key(KeyName::Char('x')) }),
    ] {
        assert_eq!(editor.read_prompt(ignored), Ok((Line::Open, "".into())));
    }
    let entered = editor.read_prompt(Typed::Key(key(KeyName::Enter))).unwrap();
    assert_eq!(entered, (Line::Submitted("hi\nyou\x1b".into()), "\r\n".into()));
    assert_eq!(editor.input, "");
}

#[test]
fn a_blank_line_stays_and_exit_leaves() {
    let (mut editor, _) = Editor::open();
    let erased = editor.read_prompt(Typed::Key(key(KeyName::Backspace))).unwrap();
    assert_eq!(erased, (Line::Open, "".into()));
    typed(&mut editor, ' ');
    let entered = editor.read_prompt(Typed::Key(key(KeyName::Enter))).unwrap();
    assert_eq!(entered, (Line::Open, "\r\n".into()));
    assert_eq!(editor.input, " ");
    editor.read_prompt(Typed::Paste("/exit \n".into())).unwrap();
    let entered = editor.read_prompt(Typed::Key(key(KeyName::Enter))).unwrap();
    assert_eq!(entered, (Line::Exit, "\r\n".into()));
    typed(&mut editor, 'a');
    assert_eq!(
        editor.read_prompt(Typed::Key(control('c'))),
        Ok((Line::Open, "\r\ndsh> ".into()))
    );
    assert_eq!(editor.input, "");
    assert_eq!(
        editor.read_prompt(Typed::Key(control('d'))),
        Ok((Line::Exit, "".into()))
    );
}

#[test]
fn lines_are_bounded_in_bytes() {
    let (mut editor, _) = Editor::open();
    let most = "x".repeat(MAX_TEXT - 1);
    editor.read_prompt(Typed::Paste(most)).unwrap();
    assert_eq!(
        editor.read_prompt(Typed::Key(key(KeyName::Char('é')))),
        Err(invalid("prompt exceeds 128 KiB"))
    );
    assert_eq!(
        editor.read_prompt(Typed::Paste("ab".into())),
        Err(invalid("paste exceeds 128 KiB"))
    );
    assert_eq!(typed(&mut editor, 'y').0, Line::Open);
    assert_eq!(editor.input.len(), MAX_TEXT);
}

#[test]
fn characters_of_each_width_are_counted() {
    for c in ['a', '\u{80}', 'é', '\u{7ff}', '\u{800}', '\u{ffff}', '\u{10000}', '\u{10ffff}'] {
        let (mut editor, _) = Editor::open();
        editor
            .read_prompt(Typed::Paste("x".repeat(MAX_TEXT - c.len_utf8())))
            .unwrap();
        assert_eq!(typed(&mut editor, c).0, Line::Open);
        assert!(editor.read_prompt(Typed::Key(key(KeyName::Char('z')))).is_err());
    }
}
