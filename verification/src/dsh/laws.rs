//! What holds of the driver across its steps.
use vstd::prelude::*;

use super::acp::{notice_model, outcome_model, request_model, unsupported_model};
use super::driver::{
    answer_of, choice_outcome, current_value, fresh, is_prompt, overdue, pane_fault,
    permission_text, taken_option, Driver, DriverModel, Effect, EffectModel, Report, ReportModel,
    MAX_PERMISSIONS,
};
use super::error::{ErrorKind, FaultModel};
use super::keys::{Key, KeyName};
use super::launch::announcement;
use super::options::MAX_TEXT;
use crate::activity::Nanos;
use crate::json::{
    find_by, json_text, law_the_first_match_is_found, list_model, number_of, signed_number,
    table_model, text_view, JsonModel,
};
use crate::text::{
    is_blank, is_safe_char, is_whitespace_char, law_safe_text_has_no_terminal_controls,
    law_terminal_text_only_ends_lines, law_trimming_takes_the_ends_only, lemma_utf8_add, safe,
    terminal, trimmed, trimmed_end, trimmed_start, utf8_len,
};

verus! {

/// What a driver holds is within bounds.
pub open spec fn in_bounds(driver: DriverModel) -> bool {
    &&& driver.permissions.len() <= MAX_PERMISSIONS
    &&& utf8_len(driver.reply) <= MAX_TEXT
    &&& driver.prompt matches Some((prompt, _)) ==> is_prompt(prompt)
}

proof fn lemma_frames_keep_bounds(driver: DriverModel, frame: JsonModel, now: JsonModel)
    requires
        in_bounds(driver),
    ensures
        driver.framed(frame, now) matches Ok((next, _)) ==> in_bounds(next),
{
    if let Some(text) = frame.at("params"@).at("update"@).at("content"@).at("text"@).text() {
        lemma_utf8_add(driver.reply, text);
    }
}

/// A driver starts within bounds, and no message, key or prompt brings it out of them.
pub proof fn law_drivers_stay_in_bounds(
    driver: DriverModel,
    id: u64,
    frame: JsonModel,
    key: Key,
    prompt: Seq<char>,
    result: JsonModel,
    now: JsonModel,
    pane: Option<Seq<char>>,
    seq: u64,
    cwd: Seq<char>,
    pid: u64,
)
    requires
        in_bounds(driver),
    ensures
        in_bounds(fresh(pane, seq, cwd, pid)),
        driver.heard(id, frame, now) matches Ok((next, _, _)) ==> in_bounds(next),
        in_bounds(driver.keyed(key, now).0),
        driver.prompting(prompt, now) matches Ok((next, _)) ==> in_bounds(next),
        in_bounds(driver.settled(id, result, now).0),
{
    lemma_frames_keep_bounds(driver, frame, now);
}

/// A message about another session changes nothing: it stops the driver.
pub proof fn law_sessions_are_kept_apart(driver: DriverModel, frame: JsonModel, now: JsonModel)
    requires
        frame.at("method"@).text() == Some("session/update"@) || frame.at("method"@).text() == Some(
            "session/request_permission"@,
        ),
        frame.at("params"@).at("sessionId"@).text() != Some(driver.session),
    ensures
        driver.framed(frame, now) is Err,
{
}

/// Without a user a driver never changes for what the agent sends, and never does anything about
/// it. Where it has no journal and no pane either it leaves no trace when it ends.
pub proof fn law_inspection_only_listens(
    driver: DriverModel,
    id: u64,
    frame: JsonModel,
    now: JsonModel,
)
    requires
        !driver.interactive,
    ensures
        driver.heard(id, frame, now) matches Ok((next, _, effects)) ==> next == driver
            && effects.len() == 0,
        driver.journal is None && driver.pane is None ==> driver.exiting(now).1.len() == 0,
{
}

/// The agent is told of a choice only where the first request that waits can be answered by it:
/// that it is allowed this once, by an option that it offered for that; or that it is rejected
/// this once, by an option that it offered for that, or by none where it offered none. Whatever
/// waits behind it keeps waiting.
pub proof fn law_choices_are_for_this_once(driver: DriverModel, choice: char, now: JsonModel)
    ensures
        ({
            let (next, effects) = driver.choosing(choice, now);
            let first = driver.permissions[0];
            forall|i: int|
                0 <= i < effects.len() ==> (#[trigger] effects[i] matches EffectModel::Send(message)
                    ==> {
                    &&& i == 0
                    &&& driver.permissions.len() > 0
                    &&& choice == '1' || choice == '2'
                    &&& choice_outcome(first, choice) matches Some(outcome) && message
                        == outcome_model(first.at("id"@), outcome)
                    &&& choice == '1' ==> taken_option(first, choice) is Some
                    &&& next.permissions == driver.permissions.drop_first()
                })
        }),
        (driver.choosing(choice, now).1.len() == 0) ==> driver.choosing(choice, now).0 == driver,
{
    let (next, effects) = driver.choosing(choice, now);
    if driver.permissions.len() > 0 && (choice == '1' || choice == '2') {
        let first = driver.permissions[0];
        if let Some(outcome) = choice_outcome(first, choice) {
            assert(effects[0] == EffectModel::Send(outcome_model(first.at("id"@), outcome)));
            let rest = DriverModel { permissions: driver.permissions.drop_first(), ..driver };
            let more = if rest.permissions.len() == 0 {
                rest.reported("working"@, now).1
            } else {
                rest.asking()
            };
            assert forall|i: int| 1 <= i < effects.len() implies !(#[trigger] effects[
                i
            ] is Send) by {
                assert(effects[i] == more[i - 1]);
            }
        }
    }
}

proof fn lemma_find_by(items: Seq<JsonModel>, name: Seq<char>, expected: Seq<char>)
    ensures
        find_by(items, name, expected) matches Some(item) ==> items.contains(item) && item.at(
            name,
        ).text() == Some(expected),
    decreases items.len(),
{
    if items.len() > 0 {
        assert(items.contains(items[0]));
        lemma_find_by(items.drop_first(), name, expected);
        if let Some(item) = find_by(items.drop_first(), name, expected) {
            if items.drop_first().contains(item) {
                let i = choose|i: int|
                    0 <= i < items.drop_first().len() && items.drop_first()[i] == item;
                assert(items[i + 1] == item);
            }
        }
    }
}

/// An option that a choice takes was offered by the request, and offered for that: never one that
/// allows or rejects for more than this once.
pub proof fn law_only_offered_options_are_taken(request: JsonModel, choice: char)
    ensures
        taken_option(request, choice) matches Some(id) ==> {
            &&& request.at("params"@).at("options"@).list() matches Some(offered)
            &&& exists|option: JsonModel| #[trigger]
                offered.contains(option) && option.at("optionId"@).text() == Some(id) && option.at(
                    "kind"@,
                ).text() == Some(
                    if choice == '1' {
                        "allow_once"@
                    } else {
                        "reject_once"@
                    },
                )
        },
{
    let kind = if choice == '1' {
        "allow_once"@
    } else {
        "reject_once"@
    };
    if let Some(offered) = request.at("params"@).at("options"@).list() {
        lemma_find_by(offered, "kind"@, kind);
    }
}

/// When a turn has ended no request for a permission is left of it, and a turn starts with no
/// reply, so nothing of one turn carries into the next.
pub proof fn law_turns_are_kept_apart(
    driver: DriverModel,
    id: u64,
    result: JsonModel,
    prompt: Seq<char>,
    now: JsonModel,
)
    ensures
        driver.settled(id, result, now).0.permissions.len() == 0,
        driver.settled(id, result, now).0.prompt is None,
        driver.prompting(prompt, now) matches Ok((next, _)) ==> next.reply.len() == 0
            && !next.reply_truncated && next.prompt == Some((prompt, now)),
{
}

/// The driver after parts of a reply.
pub open spec fn hearing_all(driver: DriverModel, parts: Seq<Seq<char>>) -> DriverModel
    decreases parts.len(),
{
    if parts.len() == 0 {
        driver
    } else {
        hearing_all(driver, parts.drop_last()).hearing(parts.last())
    }
}

/// Parts of a reply, one after the other.
pub open spec fn whole(parts: Seq<Seq<char>>) -> Seq<char>
    decreases parts.len(),
{
    if parts.len() == 0 {
        Seq::empty()
    } else {
        whole(parts.drop_last()) + parts.last()
    }
}

proof fn lemma_hearing_all(driver: DriverModel, parts: Seq<Seq<char>>)
    requires
        driver.prompt is Some,
        driver.reply.len() == 0,
        !driver.reply_truncated,
    ensures
        ({
            let next = hearing_all(driver, parts);
            &&& next == DriverModel {
                reply: next.reply,
                reply_truncated: next.reply_truncated,
                ..driver
            }
            &&& next.reply_truncated <==> utf8_len(whole(parts)) > MAX_TEXT
            &&& !next.reply_truncated ==> next.reply == whole(parts)
        }),
    decreases parts.len(),
{
    if parts.len() == 0 {
        assert(driver.reply =~= Seq::empty());
    } else {
        let front = parts.drop_last();
        lemma_hearing_all(driver, front);
        lemma_utf8_add(whole(front), parts.last());
    }
}

proof fn lemma_snapshot_fields()
    ensures
        "last_assistant_text"@ != "last_assistant_at"@,
        "last_assistant_text"@ != "stop_reason"@,
        "last_assistant_text"@ != "turn_id"@,
        "last_assistant_text"@ != "lifecycle"@,
        "last_assistant_text"@ != "observed_at"@,
        "last_assistant_text"@ != "pane_id"@,
{
    reveal_strlit("last_assistant_text");
    reveal_strlit("last_assistant_at");
    reveal_strlit("stop_reason");
    reveal_strlit("turn_id");
    reveal_strlit("lifecycle");
    reveal_strlit("observed_at");
    reveal_strlit("pane_id");
    assert("last_assistant_text"@.len() == 19);
    assert("last_assistant_at"@.len() == 17);
}

/// A reply is kept whole or not at all: after a turn the snapshot holds all that the agent said in
/// it, or, where that is more than can be kept, that it is not known.
pub proof fn law_replies_are_whole_or_absent(
    driver: DriverModel,
    parts: Seq<Seq<char>>,
    id: u64,
    result: JsonModel,
    now: JsonModel,
)
    requires
        driver.prompt is Some,
        driver.reply.len() == 0,
        !driver.reply_truncated,
    ensures
        ({
            let next = hearing_all(driver, parts).settled(id, result, now).0;
            next.snapshot["last_assistant_text"@] == if utf8_len(whole(parts)) <= MAX_TEXT {
                JsonModel::Text(whole(parts))
            } else {
                JsonModel::Null
            }
        }),
{
    lemma_hearing_all(driver, parts);
    lemma_snapshot_fields();
}

/// A text that does no more to a raw terminal than writing and ending lines.
pub open spec fn is_harmless(text: Seq<char>) -> bool {
    forall|i: int| 0 <= i < text.len() ==> is_safe_char(#[trigger] text[i]) || text[i] == '\r'
}

/// All that is printed is harmless.
pub open spec fn prints_harmless(effects: Seq<EffectModel>) -> bool {
    forall|i: int|
        0 <= i < effects.len() ==> (#[trigger] effects[i] matches EffectModel::Print(text)
            ==> is_harmless(text))
}

proof fn lemma_harmless_add(a: Seq<char>, b: Seq<char>)
    requires
        is_harmless(a),
        is_harmless(b),
    ensures
        is_harmless(a + b),
{
    assert forall|i: int| 0 <= i < (a + b).len() implies is_safe_char(#[trigger] (a + b)[i]) || (a
        + b)[i] == '\r' by {
        if i < a.len() {
            assert((a + b)[i] == a[i]);
        } else {
            assert((a + b)[i] == b[i - a.len()]);
        }
    }
}

proof fn lemma_literals_harmless()
    ensures
        is_harmless("\r\n[tool] "@),
        is_harmless("\r\n"@),
        is_harmless("\r\nPermission: "@),
        is_harmless("\r\n1 Allow once   2 Reject\r\n"@),
{
    reveal_strlit("\r\n[tool] ");
    reveal_strlit("\r\n");
    reveal_strlit("\r\nPermission: ");
    reveal_strlit("\r\n1 Allow once   2 Reject\r\n");
}

proof fn lemma_safe_harmless(s: Seq<char>)
    ensures
        is_harmless(safe(s)),
        is_harmless(terminal(s)),
{
    law_safe_text_has_no_terminal_controls(s);
    law_terminal_text_only_ends_lines(s);
}

proof fn lemma_permission_harmless(request: JsonModel)
    ensures
        is_harmless(permission_text(request)),
{
    let call = json_text(request.at("params"@).at("toolCall"@));
    lemma_literals_harmless();
    lemma_safe_harmless(call);
    lemma_harmless_add("\r\nPermission: "@, safe(call));
    lemma_harmless_add("\r\nPermission: "@ + safe(call), "\r\n1 Allow once   2 Reject\r\n"@);
}

/// Whatever the agent sends, no terminal control comes out of it: neither from its messages nor
/// from what its requests for a permission show.
pub proof fn law_untrusted_output_is_harmless(
    driver: DriverModel,
    id: u64,
    frame: JsonModel,
    key: Key,
    now: JsonModel,
)
    ensures
        driver.heard(id, frame, now) matches Ok((_, _, effects)) ==> prints_harmless(effects),
        prints_harmless(driver.keyed(key, now).1),
{
    let update = frame.at("params"@).at("update"@);
    if let Some(text) = update.at("content"@).at("text"@).text() {
        lemma_safe_harmless(text);
    }
    if let Some(title) = update.at("title"@).text() {
        lemma_literals_harmless();
        lemma_safe_harmless(title);
        lemma_harmless_add("\r\n[tool] "@, safe(title));
        lemma_harmless_add("\r\n[tool] "@ + safe(title), "\r\n"@);
    }
    let asked = DriverModel { permissions: driver.permissions.push(frame), ..driver };
    lemma_permission_harmless(asked.permissions[0]);
    let rest = DriverModel { permissions: driver.permissions.drop_first(), ..driver };
    if rest.permissions.len() > 0 {
        lemma_permission_harmless(rest.permissions[0]);
    }
}

/// Nor does one come out of an answer's error, or of the name that the agent gave a session.
pub proof fn law_untrusted_messages_are_harmless(frame: JsonModel, session: Seq<char>)
    ensures
        answer_of(frame) matches Err(fault) ==> is_harmless(fault.message),
        is_harmless(announcement(session)),
{
    reveal_strlit("DSH request failed: ");
    reveal_strlit("missing ACP result");
    reveal_strlit("DSH session ");
    reveal_strlit("\r\nUse /exit to close; Ctrl-C cancels active work.\r\n");
    if let Some(error) = frame.get("error"@) {
        lemma_safe_harmless(json_text(error));
        lemma_harmless_add("DSH request failed: "@, safe(json_text(error)));
    }
    lemma_safe_harmless(session);
    lemma_harmless_add("DSH session "@, safe(session));
    lemma_harmless_add(
        "DSH session "@ + safe(session),
        "\r\nUse /exit to close; Ctrl-C cancels active work.\r\n"@,
    );
}

/// What a step does about the journal: where it is kept it holds the snapshot as it is after the
/// step. A step takes no number for a report.
pub open spec fn well_kept(
    before: DriverModel,
    after: DriverModel,
    effects: Seq<EffectModel>,
) -> bool {
    &&& after.seq == before.seq
    &&& forall|i: int|
        0 <= i < effects.len() ==> (#[trigger] effects[i] matches EffectModel::Save {
            path,
            document,
        } ==> after.journal == Some(path) && document == JsonModel::Table(after.snapshot))
}

/// The journal is never behind: a step that keeps it keeps the snapshot that the step leaves.
pub proof fn law_journals_are_current(
    driver: DriverModel,
    id: u64,
    frame: JsonModel,
    key: Key,
    prompt: Seq<char>,
    result: JsonModel,
    config: JsonModel,
    announcement: Seq<char>,
    resumed: bool,
    now: JsonModel,
)
    ensures
        driver.heard(id, frame, now) matches Ok((next, _, effects)) ==> well_kept(
            driver,
            next,
            effects,
        ),
        well_kept(driver, driver.keyed(key, now).0, driver.keyed(key, now).1),
        driver.prompting(prompt, now) matches Ok((next, effects)) ==> well_kept(
            driver,
            next,
            effects,
        ),
        driver.settled(id, result, now) matches (next, Ok(effects)) ==> well_kept(
            driver,
            next,
            effects,
        ),
        ({
            let (next, effects) = driver.beginning(config, announcement, resumed, now);
            well_kept(driver, next, effects)
        }),
        well_kept(driver, driver.exiting(now).0, driver.exiting(now).1),
{
}

/// A report to the pane takes the next number when it is sent, so its number is one higher than
/// that of the last report that was sent, whatever failed in between. Nothing else changes.
pub proof fn law_reports_are_numbered(driver: DriverModel, report: ReportModel)
    requires
        driver.seq < u64::MAX,
    ensures
        driver.numbering(report).1 is Some <==> driver.pane is Some,
        driver.numbering(report).1 matches Some(request) ==> {
            let next = driver.numbering(report).0;
            &&& next == DriverModel { seq: next.seq, ..driver }
            &&& next.seq == driver.seq + 1
            &&& request.at("params"@).at("seq"@) == JsonModel::Number(number_of(next.seq))
        },
{
    reveal_strlit("seq");
    reveal_strlit("agent_session_id");
    reveal_strlit("params");
    assert("seq"@.len() == 3);
    assert("agent_session_id"@.len() == 16);
    if let Some(request) = driver.numbering(report).1 {
        assert(request.get("params"@) is Some);
    }
}

/// The names of the fields that messages have differ.
proof fn lemma_message_names()
    ensures
        "jsonrpc"@ != "id"@ && "jsonrpc"@ != "method"@ && "jsonrpc"@ != "params"@,
        "jsonrpc"@ != "error"@ && "jsonrpc"@ != "result"@,
        "id"@ != "method"@ && "id"@ != "params"@ && "id"@ != "error"@ && "id"@ != "result"@,
        "method"@ != "params"@ && "method"@ != "error"@ && "method"@ != "result"@,
        "error"@ != "result"@,
        "code"@ != "message"@,
        "outcome"@ != "optionId"@,
{
    reveal_strlit("jsonrpc");
    reveal_strlit("id");
    reveal_strlit("method");
    reveal_strlit("params");
    reveal_strlit("error");
    reveal_strlit("result");
    reveal_strlit("code");
    reveal_strlit("message");
    reveal_strlit("outcome");
    reveal_strlit("optionId");
    assert("jsonrpc"@.len() == 7);
    assert("id"@.len() == 2);
    assert("method"@.len() == 6);
    assert("params"@.len() == 6);
    assert("result"@.len() == 6);
    assert("error"@.len() == 5);
    assert("method"@[0] == 'm');
    assert("params"@[0] == 'p');
    assert("result"@[0] == 'r');
    assert("code"@.len() == 4);
    assert("message"@.len() == 7);
    assert("outcome"@.len() == 7);
    assert("optionId"@.len() == 8);
}

/// A request has a number, a method and parameters; a notice has no number. An answer has the number
/// of the request that it answers: to one that is not known an error, to one for a permission an
/// outcome. All are of version 2.0.
pub proof fn law_messages_hold_their_parts(
    id: u64,
    asked: JsonModel,
    method: Seq<char>,
    params: JsonModel,
    outcome: JsonModel,
)
    ensures
        ({
            let request = request_model(id, method, params);
            let notice = notice_model(method, params);
            let unknown = unsupported_model(asked);
            let answer = outcome_model(asked, outcome);
            &&& request.at("jsonrpc"@) == JsonModel::Text("2.0"@)
            &&& request.at("id"@) == JsonModel::Number(number_of(id))
            &&& request.at("method"@) == JsonModel::Text(method)
            &&& request.at("params"@) == params
            &&& notice.at("jsonrpc"@) == JsonModel::Text("2.0"@)
            &&& notice.get("id"@) is None
            &&& notice.at("method"@) == JsonModel::Text(method)
            &&& notice.at("params"@) == params
            &&& unknown.at("jsonrpc"@) == JsonModel::Text("2.0"@)
            &&& unknown.at("id"@) == asked
            &&& unknown.get("result"@) is None && unknown.get("method"@) is None
            &&& unknown.at("error"@).at("code"@) == JsonModel::Number(signed_number(-32601i64))
            &&& unknown.at("error"@).at("message"@) == JsonModel::Text(
                "Unsupported client method"@,
            )
            &&& answer.at("jsonrpc"@) == JsonModel::Text("2.0"@)
            &&& answer.at("id"@) == asked
            &&& answer.get("error"@) is None && answer.get("method"@) is None
            &&& answer.at("result"@).at("outcome"@) == outcome
        }),
{
    lemma_message_names();
}

/// What is done about the journal: where there is one it is replaced by the snapshot, with the moment
/// and the pane in it; where there is none nothing is done. Nothing else changes.
pub open spec fn is_kept(
    before: DriverModel,
    after: DriverModel,
    effects: Seq<EffectModel>,
    now: JsonModel,
) -> bool {
    match before.journal {
        None => effects.len() == 0 && after == before,
        Some(path) => {
            &&& after == DriverModel { snapshot: after.snapshot, ..before }
            &&& after.snapshot == before.snapshot.insert("observed_at"@, now).insert(
                "pane_id"@,
                match before.pane {
                    Some(pane) => JsonModel::Text(pane),
                    None => JsonModel::Null,
                },
            )
            &&& effects == seq![
                EffectModel::Save { path, document: JsonModel::Table(after.snapshot) },
            ]
        },
    }
}

/// What is done about a state: the snapshot says it, the journal is kept, and then the pane, if there
/// is one, is told it. Nothing else changes.
pub open spec fn is_reported(
    before: DriverModel,
    after: DriverModel,
    effects: Seq<EffectModel>,
    state: Seq<char>,
    now: JsonModel,
) -> bool {
    let stated = DriverModel {
        snapshot: before.snapshot.insert("lifecycle"@, JsonModel::Text(state)),
        ..before
    };
    match before.pane {
        None => is_kept(stated, after, effects, now),
        Some(_) => {
            &&& effects.len() > 0
            &&& effects.last() == EffectModel::Pane(ReportModel::State(state))
            &&& is_kept(stated, after, effects.drop_last(), now)
        },
    }
}

proof fn lemma_saved(driver: DriverModel, now: JsonModel)
    ensures
        is_kept(driver, driver.saved(now).0, driver.saved(now).1, now),
{
}

proof fn lemma_is_reported(driver: DriverModel, state: Seq<char>, now: JsonModel)
    ensures
        is_reported(
            driver,
            driver.reported(state, now).0,
            driver.reported(state, now).1,
            state,
            now,
        ),
        driver.pane is None ==> driver.reported(state, now).1.len() <= 1,
{
    let (after, effects) = driver.reported(state, now);
    let stated = DriverModel {
        snapshot: driver.snapshot.insert("lifecycle"@, JsonModel::Text(state)),
        ..driver
    };
    lemma_saved(stated, now);
    let kept = stated.saved(now).1;
    if driver.pane is Some {
        assert(effects.drop_last() =~= kept);
    } else {
        assert(effects =~= kept);
    }
}

/// A state that is reported is kept and told.
pub proof fn law_states_are_kept_and_told(driver: DriverModel, state: Seq<char>, now: JsonModel)
    ensures
        is_reported(
            driver,
            driver.reported(state, now).0,
            driver.reported(state, now).1,
            state,
            now,
        ),
        is_kept(driver, driver.saved(now).0, driver.saved(now).1, now),
{
    lemma_is_reported(driver, state, now);
}

/// Only these effects tell the pane a state, and it is this one.
pub open spec fn tells_only(effects: Seq<EffectModel>, state: Seq<char>) -> bool {
    forall|i: int|
        0 <= i < effects.len() ==> (#[trigger] effects[i] matches EffectModel::Pane(report)
            ==> report == ReportModel::State(state))
}

proof fn lemma_tells_only(
    before: DriverModel,
    after: DriverModel,
    effects: Seq<EffectModel>,
    state: Seq<char>,
    now: JsonModel,
)
    requires
        is_reported(before, after, effects, state, now),
    ensures
        tells_only(effects, state),
        after.snapshot.contains_key("lifecycle"@),
        after.snapshot["lifecycle"@] == JsonModel::Text(state),
{
    reveal_strlit("lifecycle");
    reveal_strlit("observed_at");
    reveal_strlit("pane_id");
    assert("lifecycle"@.len() == 9);
    assert("observed_at"@.len() == 11);
    assert("pane_id"@.len() == 7);
    if before.pane is Some {
        let kept = effects.drop_last();
        assert forall|i: int| 0 <= i < effects.len() implies (
        #[trigger] effects[i] matches EffectModel::Pane(report) ==> report == ReportModel::State(
            state,
        )) by {
            if i < kept.len() {
                assert(kept[i] == effects[i]);
            }
        }
    }
}

/// A turn that has ended leaves the session idle, whatever was asked for in it: the snapshot says so,
/// the pane is told so and nothing else, and the terminal starts a new line. The snapshot holds the
/// prompt and when it was submitted, the reply unless a part of it is missing, the moment, why the
/// agent stopped, and the number of the turn. Without a turn there is nothing to end.
pub proof fn law_turns_end_idle(
    driver: DriverModel,
    id: u64,
    result: JsonModel,
    now: JsonModel,
    name: Seq<char>,
)
    ensures
        ({
            let (next, step) = driver.settled(id, result, now);
            match driver.prompt {
                None => step == Err::<Seq<EffectModel>, FaultModel>(
                    FaultModel {
                        kind: ErrorKind::InvalidData,
                        message: "missing prompt intent"@,
                    },
                ) && next == DriverModel { permissions: Seq::empty(), ..driver },
                Some((prompt, submitted_at)) => {
                    &&& step matches Ok(effects) && {
                        &&& effects.len() > 0
                        &&& effects.last() == EffectModel::Print("\r\n"@)
                        &&& tells_only(effects, "idle"@)
                        &&& driver.pane is Some ==> effects.contains(
                            EffectModel::Pane(ReportModel::State("idle"@)),
                        )
                        &&& driver.journal matches Some(path) ==> effects[0]
                            == (EffectModel::Save {
                            path,
                            document: JsonModel::Table(next.snapshot),
                        })
                        &&& effects.len() == 1 + (if driver.pane is Some {
                            1int
                        } else {
                            0
                        }) + if driver.journal is Some {
                            1int
                        } else {
                            0
                        }
                    }
                    &&& next == DriverModel {
                        permissions: Seq::empty(),
                        prompt: None,
                        snapshot: next.snapshot,
                        ..driver
                    }
                    &&& next.snapshot["lifecycle"@] == JsonModel::Text("idle"@)
                    &&& driver.journal is Some ==> next.snapshot["observed_at"@] == now
                        && next.snapshot["pane_id"@] == match driver.pane {
                        Some(pane) => JsonModel::Text(pane),
                        None => JsonModel::Null,
                    }
                    &&& driver.journal is None && (name == "observed_at"@ || name == "pane_id"@)
                        ==> (next.snapshot.contains_key(name) <==> driver.snapshot.contains_key(
                        name,
                    )) && next.snapshot[name] == driver.snapshot[name]
                    &&& next.snapshot["last_user_text"@] == JsonModel::Text(prompt)
                    &&& next.snapshot["last_user_at"@] == submitted_at
                    &&& next.snapshot["last_assistant_text"@] == if driver.reply_truncated {
                        JsonModel::Null
                    } else {
                        JsonModel::Text(driver.reply)
                    }
                    &&& next.snapshot["last_assistant_at"@] == now
                    &&& next.snapshot["stop_reason"@] == result.at("stopReason"@)
                    &&& next.snapshot["turn_id"@] == JsonModel::Number(number_of(id))
                    &&& !is_turn_field(name) ==> (next.snapshot.contains_key(name)
                        <==> driver.snapshot.contains_key(name)) && next.snapshot[name]
                        == driver.snapshot[name]
                },
            }
        }),
{
    lemma_turn_fields();
    if let Some((prompt, submitted_at)) = driver.prompt {
        let base = turn_ended(driver, id, result, prompt, submitted_at, now);
        lemma_is_reported(base, "idle"@, now);
        let (next, effects) = base.reported("idle"@, now);
        lemma_tells_only(base, next, effects, "idle"@, now);
        let all = effects.push(EffectModel::Print("\r\n"@));
        assert(driver.settled(id, result, now) == (
            next,
            Ok::<Seq<EffectModel>, FaultModel>(all),
        ));
        assert forall|i: int| 0 <= i < all.len() implies (
        #[trigger] all[i] matches EffectModel::Pane(report) ==> report == ReportModel::State(
            "idle"@,
        )) by {
            if i < effects.len() {
                assert(all[i] == effects[i]);
            }
        }
        if driver.pane is Some {
            assert(all[effects.len() - 1] == effects.last());
        }
        if driver.journal is Some {
            if driver.pane is Some {
                assert(effects.drop_last()[0] == all[0]);
            }
        }
    }
}

/// The fields of the snapshot that the end of a turn sets.
pub open spec fn is_turn_field(name: Seq<char>) -> bool {
    ||| name == "lifecycle"@ || name == "observed_at"@ || name == "pane_id"@
    ||| name == "last_user_text"@ || name == "last_user_at"@ || name == "last_assistant_text"@
    ||| name == "last_assistant_at"@ || name == "stop_reason"@ || name == "turn_id"@
}

spec fn turn_ended(
    driver: DriverModel,
    id: u64,
    result: JsonModel,
    prompt: Seq<char>,
    submitted_at: JsonModel,
    now: JsonModel,
) -> DriverModel {
    DriverModel {
        permissions: Seq::empty(),
        prompt: None,
        snapshot: driver.snapshot.insert("last_user_text"@, JsonModel::Text(prompt)).insert(
            "last_user_at"@,
            submitted_at,
        ).insert(
            "last_assistant_text"@,
            if driver.reply_truncated {
                JsonModel::Null
            } else {
                JsonModel::Text(driver.reply)
            },
        ).insert("last_assistant_at"@, now).insert(
            "stop_reason"@,
            result.at("stopReason"@),
        ).insert("turn_id"@, JsonModel::Number(number_of(id))),
        ..driver
    }
}

proof fn lemma_turn_fields()
    ensures
        "last_user_text"@.len() == 14 && "last_user_at"@.len() == 12,
        "last_assistant_text"@.len() == 19 && "last_assistant_at"@.len() == 17,
        "stop_reason"@.len() == 11 && "turn_id"@.len() == 7,
        "lifecycle"@.len() == 9 && "observed_at"@.len() == 11 && "pane_id"@.len() == 7,
        "stop_reason"@ != "observed_at"@,
        "turn_id"@ != "pane_id"@,
{
    reveal_strlit("last_user_text");
    reveal_strlit("last_user_at");
    reveal_strlit("last_assistant_text");
    reveal_strlit("last_assistant_at");
    reveal_strlit("stop_reason");
    reveal_strlit("turn_id");
    reveal_strlit("lifecycle");
    reveal_strlit("observed_at");
    reveal_strlit("pane_id");
    assert("stop_reason"@[0] == 's');
    assert("observed_at"@[0] == 'o');
    assert("turn_id"@[0] == 't');
    assert("pane_id"@[0] == 'p');
}

/// A prompt that is not blank and has at most 131072 bytes starts a turn: the session is reported as
/// working, and the agent is then sent the prompt as it is, under the next number. Any other prompt
/// is refused, and nothing changes.
pub proof fn law_turns_start_with_their_prompt(
    driver: DriverModel,
    prompt: Seq<char>,
    now: JsonModel,
)
    requires
        driver.sequence < u64::MAX,
    ensures
        ({
            let fits = utf8_len(prompt) <= 131072 && !is_blank(prompt);
            let begun = DriverModel {
                reply: Seq::empty(),
                reply_truncated: false,
                prompt: Some((prompt, now)),
                ..driver
            };
            &&& !fits ==> driver.prompting(prompt, now) == Err::<
                (DriverModel, Seq<EffectModel>),
                FaultModel,
            >(
                FaultModel {
                    kind: ErrorKind::InvalidData,
                    message: "prompt must contain 1 to 131072 bytes"@,
                },
            )
            &&& fits ==> (driver.prompting(prompt, now) matches Ok((next, effects)) && {
                let asked = DriverModel { sequence: driver.sequence, ..next };
                &&& next.sequence == driver.sequence + 1
                &&& effects.len() > 0
                &&& is_reported(begun, asked, effects.drop_last(), "working"@, now)
                &&& effects.last() matches EffectModel::Send(message) && {
                    let params = message.at("params"@);
                    &&& message.at("id"@) == JsonModel::Number(number_of(next.sequence))
                    &&& message.at("method"@) == JsonModel::Text("session/prompt"@)
                    &&& params.at("sessionId"@) == JsonModel::Text(driver.session)
                    &&& params.at("prompt"@) matches JsonModel::List(parts) && parts.len() == 1
                        && parts[0].at("type"@) == JsonModel::Text("text"@) && parts[0].at("text"@)
                        == JsonModel::Text(prompt)
                }
            })
        }),
{
    lemma_blank(prompt);
    lemma_message_names();
    reveal_strlit("sessionId");
    reveal_strlit("prompt");
    reveal_strlit("type");
    reveal_strlit("text");
    assert("sessionId"@.len() == 9);
    assert("prompt"@.len() == 6);
    assert("type"@[1] == 'y');
    assert("text"@[1] == 'e');
    let begun = DriverModel {
        reply: Seq::empty(),
        reply_truncated: false,
        prompt: Some((prompt, now)),
        ..driver
    };
    lemma_is_reported(begun, "working"@, now);
    if let Ok((next, effects)) = driver.prompting(prompt, now) {
        assert(effects.drop_last() =~= begun.reported("working"@, now).1);
    }
}

/// Nothing is left of a text by trimming exactly if it is blank.
proof fn lemma_blank(s: Seq<char>)
    ensures
        trimmed(s).len() == 0 <==> is_blank(s),
{
    if is_blank(s) {
        law_trimming_takes_the_ends_only(s, Seq::empty(), Seq::empty());
        assert(s + Seq::<char>::empty() + Seq::<char>::empty() =~= s);
    } else {
        let i = choose|i: int| 0 <= i < s.len() && !is_whitespace_char(#[trigger] s[i]);
        lemma_trimmed_start_keeps(s, i);
        let t = trimmed_start(s);
        let j = choose|j: int| 0 <= j < t.len() && !is_whitespace_char(#[trigger] t[j]);
        lemma_trimmed_end_keeps(t, j);
    }
}

proof fn lemma_trimmed_start_keeps(s: Seq<char>, i: int)
    requires
        0 <= i < s.len(),
        !is_whitespace_char(s[i]),
    ensures
        exists|j: int|
            0 <= j < trimmed_start(s).len() && !is_whitespace_char(#[trigger] trimmed_start(s)[j]),
    decreases s.len(),
{
    if is_whitespace_char(s[0]) {
        assert(s.drop_first()[i - 1] == s[i]);
        lemma_trimmed_start_keeps(s.drop_first(), i - 1);
        let t = trimmed_start(s.drop_first());
        let j = choose|j: int| 0 <= j < t.len() && !is_whitespace_char(#[trigger] t[j]);
        assert(!is_whitespace_char(trimmed_start(s)[j]));
    } else {
        assert(!is_whitespace_char(trimmed_start(s)[i]));
    }
}

proof fn lemma_trimmed_end_keeps(s: Seq<char>, i: int)
    requires
        0 <= i < s.len(),
        !is_whitespace_char(s[i]),
    ensures
        trimmed_end(s).len() > 0,
    decreases s.len(),
{
    if is_whitespace_char(s.last()) {
        assert(s.drop_last()[i] == s[i]);
        lemma_trimmed_end_keeps(s.drop_last(), i);
    }
}

/// A message about an update of the session.
pub open spec fn is_update(frame: JsonModel, session: Seq<char>, kind: Seq<char>) -> bool {
    &&& frame.at("method"@) == JsonModel::Text("session/update"@)
    &&& frame.at("params"@).at("sessionId"@) == JsonModel::Text(session)
    &&& frame.at("params"@).at("update"@).at("sessionUpdate"@) == JsonModel::Text(kind)
}

proof fn lemma_kinds()
    ensures
        "session/update"@ != "session/request_permission"@,
        "agent_message_chunk"@ != "config_option_update"@,
        "agent_message_chunk"@ != "usage_update"@,
        "agent_message_chunk"@ != "tool_call"@,
        "config_option_update"@ != "usage_update"@,
        "config_option_update"@ != "tool_call"@,
        "usage_update"@ != "tool_call"@,
{
    reveal_strlit("session/update");
    reveal_strlit("session/request_permission");
    reveal_strlit("agent_message_chunk");
    reveal_strlit("config_option_update");
    reveal_strlit("usage_update");
    reveal_strlit("tool_call");
    assert("session/update"@.len() == 14);
    assert("session/request_permission"@.len() == 26);
    assert("agent_message_chunk"@.len() == 19);
    assert("config_option_update"@.len() == 20);
    assert("usage_update"@.len() == 12);
    assert("tool_call"@.len() == 9);
}

/// What the agent says is shown as it is but for terminal controls, and while a turn runs it is added
/// whole to the reply, as long as that stays within 131072 bytes; else it is noted that something is
/// missing. Nothing else changes.
pub proof fn law_what_the_agent_says_is_shown_and_kept(
    driver: DriverModel,
    frame: JsonModel,
    now: JsonModel,
    text: Seq<char>,
)
    requires
        is_update(frame, driver.session, "agent_message_chunk"@),
        frame.at("params"@).at("update"@).at("content"@).at("text"@) == JsonModel::Text(text),
    ensures
        driver.framed(frame, now) matches Ok((next, effects)) && {
            &&& effects == seq![EffectModel::Print(terminal(text))]
            &&& driver.prompt is None ==> next == driver
            &&& driver.prompt is Some && utf8_len(driver.reply + text) <= 131072 ==> next
                == DriverModel { reply: driver.reply + text, ..driver }
            &&& driver.prompt is Some && utf8_len(driver.reply + text) > 131072 ==> next
                == DriverModel { reply_truncated: true, ..driver }
        },
{
    lemma_kinds();
    lemma_utf8_add(driver.reply, text);
}

/// A tool that is called is shown by its title, without terminal controls. Nothing changes.
pub proof fn law_tools_are_shown_by_their_title(
    driver: DriverModel,
    frame: JsonModel,
    now: JsonModel,
    title: Seq<char>,
)
    requires
        is_update(frame, driver.session, "tool_call"@),
        frame.at("params"@).at("update"@).at("title"@) == JsonModel::Text(title),
    ensures
        driver.framed(frame, now) == Ok::<(DriverModel, Seq<EffectModel>), FaultModel>(
            (driver, seq![EffectModel::Print("\r\n[tool] "@ + safe(title) + "\r\n"@)]),
        ),
{
    lemma_kinds();
}

/// What the context of the session takes is kept, with the moment, and the journal with it.
pub proof fn law_usage_is_kept(driver: DriverModel, frame: JsonModel, now: JsonModel)
    requires
        is_update(frame, driver.session, "usage_update"@),
    ensures
        driver.framed(frame, now) matches Ok((next, effects)) && {
            let update = frame.at("params"@).at("update"@);
            let used = DriverModel {
                snapshot: driver.snapshot.insert("context_used"@, update.at("used"@)).insert(
                    "context_limit"@,
                    update.at("size"@),
                ).insert("telemetry_at"@, now),
                ..driver
            };
            is_kept(used, next, effects, now)
        },
{
    lemma_kinds();
    let update = frame.at("params"@).at("update"@);
    lemma_saved(
        driver.with("context_used"@, update.at("used"@)).with(
            "context_limit"@,
            update.at("size"@),
        ).with("telemetry_at"@, now),
        now,
    );
}

/// The current value of an option is that of the first option of that name, and `Null` where there is
/// none.
pub proof fn law_current_values_are_those_of_the_option(
    before: Seq<JsonModel>,
    option: JsonModel,
    behind: Seq<JsonModel>,
    id: Seq<char>,
    other: JsonModel,
)
    requires
        forall|i: int|
            0 <= i < before.len() ==> (#[trigger] before[i]).at("id"@) != JsonModel::Text(id),
        !(other is List),
    ensures
        option.at("id"@) == JsonModel::Text(id) ==> current_value(
            JsonModel::List(before + seq![option] + behind),
            id,
        ) == option.at("currentValue"@),
        current_value(JsonModel::List(before), id) == JsonModel::Null,
        current_value(other, id) == JsonModel::Null,
{
    law_the_first_match_is_found(before, option, behind, "id"@, id);
}

/// What is selected is kept, with the moment, and the journal with it.
pub proof fn law_selections_are_kept(driver: DriverModel, frame: JsonModel, now: JsonModel)
    requires
        is_update(frame, driver.session, "config_option_update"@),
    ensures
        driver.framed(frame, now) matches Ok((next, effects)) && {
            let options = frame.at("params"@).at("update"@).at("configOptions"@);
            let selected = DriverModel {
                snapshot: driver.snapshot.insert(
                    "model"@,
                    current_value(options, "model"@),
                ).insert("effort"@, current_value(options, "reasoning_effort"@)).insert(
                    "selection_at"@,
                    now,
                ),
                ..driver
            };
            is_kept(selected, next, effects, now)
        },
{
    lemma_kinds();
    lemma_saved(
        driver.remembering(frame.at("params"@).at("update"@).at("configOptions"@), now),
        now,
    );
}

/// A message that says nothing to the driver changes nothing and has no effect: an update of another
/// kind, or without its text or title, and a message without a method, or with one that is not known
/// and no number.
pub proof fn law_other_messages_change_nothing(
    driver: DriverModel,
    frame: JsonModel,
    now: JsonModel,
)
    requires
        ({
            let update = frame.at("params"@).at("update"@);
            let kind = update.at("sessionUpdate"@);
            let method = frame.at("method"@);
            ||| method == JsonModel::Text("session/update"@) && frame.at("params"@).at(
                "sessionId"@,
            ) == JsonModel::Text(driver.session) && {
                ||| kind == JsonModel::Text("agent_message_chunk"@) && !(update.at("content"@).at(
                    "text"@,
                ) is Text)
                ||| kind == JsonModel::Text("tool_call"@) && !(update.at("title"@) is Text)
                ||| kind != JsonModel::Text("agent_message_chunk"@) && kind != JsonModel::Text(
                    "tool_call"@,
                ) && kind != JsonModel::Text("usage_update"@) && kind != JsonModel::Text(
                    "config_option_update"@,
                )
            }
            ||| !(method is Text)
            ||| method != JsonModel::Text("session/update"@) && method != JsonModel::Text(
                "session/request_permission"@,
            ) && frame.get("id"@) is None
        }),
    ensures
        driver.framed(frame, now) == Ok::<(DriverModel, Seq<EffectModel>), FaultModel>(
            (driver, Seq::empty()),
        ),
{
    lemma_kinds();
}

/// A request that is not known is answered as such, under its number.
pub proof fn law_unknown_requests_are_answered(
    driver: DriverModel,
    frame: JsonModel,
    now: JsonModel,
    method: Seq<char>,
    id: JsonModel,
)
    requires
        frame.at("method"@) == JsonModel::Text(method),
        method != "session/update"@,
        method != "session/request_permission"@,
        frame.get("id"@) == Some(id),
    ensures
        driver.framed(frame, now) == Ok::<(DriverModel, Seq<EffectModel>), FaultModel>(
            (driver, seq![EffectModel::Send(unsupported_model(id))]),
        ),
{
}

/// What asks the user for the permission that a request wants.
pub open spec fn asks(effect: EffectModel, request: JsonModel) -> bool {
    effect == EffectModel::Print(
        "\r\nPermission: "@ + safe(json_text(request.at("params"@).at("toolCall"@)))
            + "\r\n1 Allow once   2 Reject\r\n"@,
    )
}

/// A request for a permission waits behind those that wait already, up to sixteen; the session is
/// reported as blocked, and the user is asked for the first of them.
pub proof fn law_permissions_are_asked_for_in_order(
    driver: DriverModel,
    frame: JsonModel,
    now: JsonModel,
)
    requires
        frame.at("method"@) == JsonModel::Text("session/request_permission"@),
        frame.at("params"@).at("sessionId"@) == JsonModel::Text(driver.session),
    ensures
        driver.permissions.len() >= 16 ==> driver.framed(frame, now) == Err::<
            (DriverModel, Seq<EffectModel>),
            FaultModel,
        >(
            FaultModel {
                kind: ErrorKind::InvalidData,
                message: "too many pending permission requests"@,
            },
        ),
        driver.permissions.len() < 16 ==> (driver.framed(frame, now) matches Ok((next, effects)) && {
            let waiting = DriverModel { permissions: driver.permissions.push(frame), ..driver };
            &&& effects.len() > 0
            &&& is_reported(waiting, next, effects.drop_last(), "blocked"@, now)
            &&& asks(
                effects.last(),
                if driver.permissions.len() > 0 {
                    driver.permissions[0]
                } else {
                    frame
                },
            )
        }),
{
    lemma_kinds();
    let waiting = DriverModel { permissions: driver.permissions.push(frame), ..driver };
    lemma_is_reported(waiting, "blocked"@, now);
    if driver.permissions.len() < 16 {
        if let Ok((next, effects)) = driver.framed(frame, now) {
            assert(effects.drop_last() =~= waiting.reported("blocked"@, now).1);
        }
    }
}

/// A message about another session stops the driver, in the words for it.
pub proof fn law_other_sessions_stop_the_driver(
    driver: DriverModel,
    frame: JsonModel,
    now: JsonModel,
)
    requires
        frame.at("params"@).at("sessionId"@) != JsonModel::Text(driver.session),
    ensures
        frame.at("method"@) == JsonModel::Text("session/update"@) ==> driver.framed(frame, now)
            == Err::<(DriverModel, Seq<EffectModel>), FaultModel>(
            FaultModel {
                kind: ErrorKind::InvalidData,
                message: "ACP update changed session identity"@,
            },
        ),
        frame.at("method"@) == JsonModel::Text("session/request_permission"@) ==> driver.framed(
            frame,
            now,
        ) == Err::<(DriverModel, Seq<EffectModel>), FaultModel>(
            FaultModel {
                kind: ErrorKind::InvalidData,
                message: "permission changed session identity"@,
            },
        ),
{
    lemma_kinds();
}

/// What a choice asks for.
pub open spec fn wanted_kind(choice: char) -> Seq<char> {
    if choice == '1' {
        "allow_once"@
    } else {
        "reject_once"@
    }
}

/// What follows when the first request for a permission is answered: the agent is sent that answer
/// under the request's number, the request no longer waits, and the user is asked for the next one,
/// or the session is reported as working where none waits.
pub open spec fn is_chosen(
    driver: DriverModel,
    next: DriverModel,
    effects: Seq<EffectModel>,
    outcome: JsonModel,
    now: JsonModel,
) -> bool {
    let rest = DriverModel { permissions: driver.permissions.drop_first(), ..driver };
    &&& effects.len() > 0
    &&& effects[0] == EffectModel::Send(outcome_model(driver.permissions[0].at("id"@), outcome))
    &&& driver.permissions.len() == 1 ==> is_reported(
        rest,
        next,
        effects.drop_first(),
        "working"@,
        now,
    )
    &&& driver.permissions.len() > 1 ==> next == rest && effects.len() == 2 && asks(
        effects[1],
        driver.permissions[1],
    )
}

proof fn lemma_is_chosen(driver: DriverModel, choice: char, outcome: JsonModel, now: JsonModel)
    requires
        choice == '1' || choice == '2',
        driver.permissions.len() > 0,
        choice_outcome(driver.permissions[0], choice) == Some(outcome),
    ensures
        is_chosen(
            driver,
            driver.choosing(choice, now).0,
            driver.choosing(choice, now).1,
            outcome,
            now,
        ),
{
    let rest = DriverModel { permissions: driver.permissions.drop_first(), ..driver };
    let (next, effects) = driver.choosing(choice, now);
    lemma_is_reported(rest, "working"@, now);
    if driver.permissions.len() == 1 {
        assert(effects.drop_first() =~= rest.reported("working"@, now).1);
    } else {
        assert(rest.permissions[0] == driver.permissions[1]);
    }
}

/// What is offered is taken: where the first request that waits offers an option for what the user
/// chose, with a name, the first such option is selected by that name, however many others are
/// offered before or behind it.
pub proof fn law_offered_options_are_taken(
    driver: DriverModel,
    choice: char,
    now: JsonModel,
    before: Seq<JsonModel>,
    option: JsonModel,
    behind: Seq<JsonModel>,
    id: Seq<char>,
)
    requires
        choice == '1' || choice == '2',
        driver.permissions.len() > 0,
        driver.permissions[0].at("params"@).at("options"@) == JsonModel::List(
            before + seq![option] + behind,
        ),
        forall|i: int|
            0 <= i < before.len() ==> (#[trigger] before[i]).at("kind"@) != JsonModel::Text(
                wanted_kind(choice),
            ),
        option.at("kind"@) == JsonModel::Text(wanted_kind(choice)),
        option.at("optionId"@) == JsonModel::Text(id),
    ensures
        taken_option(driver.permissions[0], choice) == Some(id),
        exists|outcome: JsonModel|
            {
                &&& #[trigger] is_chosen(
                    driver,
                    driver.choosing(choice, now).0,
                    driver.choosing(choice, now).1,
                    outcome,
                    now,
                )
                &&& outcome.at("outcome"@) == JsonModel::Text("selected"@)
                &&& outcome.at("optionId"@) == JsonModel::Text(id)
            },
{
    law_the_first_match_is_found(before, option, behind, "kind"@, wanted_kind(choice));
    lemma_message_names();
    let outcome = choice_outcome(driver.permissions[0], choice)->0;
    lemma_is_chosen(driver, choice, outcome, now);
}

/// The request offers nothing by a name for what the user chose: no options, none for it, or a first
/// one for it without a name.
pub open spec fn offers_none(request: JsonModel, choice: char) -> bool {
    match request.at("params"@).at("options"@) {
        JsonModel::List(offered) => match find_by(offered, "kind"@, wanted_kind(choice)) {
            Some(option) => !(option.at("optionId"@) is Text),
            None => true,
        },
        _ => true,
    }
}

/// Where nothing is offered for it, a rejection cancels and a permission is not given: nothing happens
/// then. Nothing happens either for any other key, or where nothing waits.
pub proof fn law_nothing_else_is_chosen(driver: DriverModel, choice: char, now: JsonModel)
    ensures
        choice != '1' && choice != '2' || driver.permissions.len() == 0 ==> driver.choosing(
            choice,
            now,
        ) == (driver, Seq::<EffectModel>::empty()),
        driver.permissions.len() > 0 && choice == '1' && offers_none(driver.permissions[0], choice)
            ==> driver.choosing(choice, now) == (driver, Seq::<EffectModel>::empty()),
        driver.permissions.len() > 0 && choice == '2' && offers_none(driver.permissions[0], choice)
            ==> exists|outcome: JsonModel|
            {
                &&& #[trigger] is_chosen(
                    driver,
                    driver.choosing(choice, now).0,
                    driver.choosing(choice, now).1,
                    outcome,
                    now,
                )
                &&& outcome.at("outcome"@) == JsonModel::Text("cancelled"@)
                &&& outcome.get("optionId"@) is None
            },
{
    lemma_message_names();
    if driver.permissions.len() > 0 && choice == '2' && offers_none(driver.permissions[0], choice) {
        let outcome = choice_outcome(driver.permissions[0], choice)->0;
        lemma_is_chosen(driver, choice, outcome, now);
    }
}

/// The answer to a request is the message without a method that has its number. It ends the waiting
/// with its result, or with its error in words without terminal controls, or because it has neither,
/// and changes nothing.
pub proof fn law_answers_end_the_waiting(
    driver: DriverModel,
    id: u64,
    frame: JsonModel,
    now: JsonModel,
)
    requires
        frame.at("id"@).unsigned() == Some(id),
        frame.get("method"@) is None,
    ensures
        frame.get("error"@) matches Some(error) ==> driver.heard(id, frame, now) == Err::<
            (DriverModel, Option<JsonModel>, Seq<EffectModel>),
            FaultModel,
        >(
            FaultModel {
                kind: ErrorKind::InvalidData,
                message: "DSH request failed: "@ + safe(json_text(error)),
            },
        ),
        frame.get("error"@) is None ==> match frame.get("result"@) {
            Some(result) => driver.heard(id, frame, now) == Ok::<
                (DriverModel, Option<JsonModel>, Seq<EffectModel>),
                FaultModel,
            >((driver, Some(result), Seq::empty())),
            None => driver.heard(id, frame, now) == Err::<
                (DriverModel, Option<JsonModel>, Seq<EffectModel>),
                FaultModel,
            >(FaultModel { kind: ErrorKind::InvalidData, message: "missing ACP result"@ }),
        },
{
}

/// Any other message is taken as one while an answer is waited for: with a user as it is at any time,
/// and without one it is left alone, unless it wants an answer.
pub proof fn law_other_messages_go_on(
    driver: DriverModel,
    id: u64,
    frame: JsonModel,
    now: JsonModel,
)
    requires
        frame.at("id"@).unsigned() != Some(id) || frame.get("method"@) is Some,
    ensures
        driver.interactive ==> match driver.framed(frame, now) {
            Ok((next, effects)) => driver.heard(id, frame, now) == Ok::<
                (DriverModel, Option<JsonModel>, Seq<EffectModel>),
                FaultModel,
            >((next, None, effects)),
            Err(fault) => driver.heard(id, frame, now) == Err::<
                (DriverModel, Option<JsonModel>, Seq<EffectModel>),
                FaultModel,
            >(fault),
        },
        !driver.interactive && frame.get("id"@) is None ==> driver.heard(id, frame, now) == Ok::<
            (DriverModel, Option<JsonModel>, Seq<EffectModel>),
            FaultModel,
        >((driver, None, Seq::empty())),
        !driver.interactive && frame.get("id"@) is Some ==> driver.heard(id, frame, now) == Err::<
            (DriverModel, Option<JsonModel>, Seq<EffectModel>),
            FaultModel,
        >(
            FaultModel {
                kind: ErrorKind::InvalidData,
                message: "catalog inspection cannot service agent requests"@,
            },
        ),
{
}

/// While an answer is waited for, control and c cancels the turn of a session that is open, any other
/// character is a choice, and nothing else does anything, nor does a key that is not pressed.
pub proof fn law_keys_cancel_or_choose(driver: DriverModel, key: Key, c: char, now: JsonModel)
    ensures
        !key.press || !(key.name is Char) ==> driver.keyed(key, now) == (
            driver,
            Seq::<EffectModel>::empty(),
        ),
        key.press && key.name == KeyName::Char(c) && !(key.control && c == 'c') ==> driver.keyed(
            key,
            now,
        ) == driver.choosing(c, now),
        key.press && key.name == KeyName::Char('c') && key.control ==> {
            &&& driver.session.len() == 0 ==> driver.keyed(key, now) == (
                driver,
                Seq::<EffectModel>::empty(),
            )
            &&& driver.session.len() > 0 ==> driver.keyed(key, now).0 == driver && driver.keyed(
                key,
                now,
            ).1.len() == 1 && (driver.keyed(key, now).1[0] matches EffectModel::Send(message)
                && message.at("method"@) == JsonModel::Text("session/cancel"@) && message.get(
                "id"@,
            ) is None && message.at("params"@).at("sessionId"@) == JsonModel::Text(driver.session))
        },
{
    lemma_message_names();
}

/// A report says who sends it and of what pane: a state with the session and its number; a session
/// with whether it was resumed; a release no more than that.
pub proof fn law_reports_say_what_they_report(
    driver: DriverModel,
    pane: Seq<char>,
    state: Seq<char>,
    resumed: bool,
)
    requires
        driver.pane == Some(pane),
        driver.seq < u64::MAX,
    ensures
        ({
            let seq = JsonModel::Number(number_of((driver.seq + 1) as u64));
            let of = |request: JsonModel|
                {
                    &&& request.at("params"@).at("pane_id"@) == JsonModel::Text(pane)
                    &&& request.at("params"@).at("source"@) == JsonModel::Text("herdr:dsh"@)
                    &&& request.at("params"@).at("agent"@) == JsonModel::Text("dsh"@)
                    &&& request.at("params"@).at("seq"@) == seq
                };
            &&& driver.numbering(ReportModel::State(state)).1 matches Some(request) && {
                &&& of(request)
                &&& request.at("id"@) == JsonModel::Text("dsh:state"@)
                &&& request.at("method"@) == JsonModel::Text("pane.report_agent"@)
                &&& request.at("params"@).at("state"@) == JsonModel::Text(state)
                &&& request.at("params"@).at("agent_session_id"@) == JsonModel::Text(driver.session)
            }
            &&& driver.numbering(ReportModel::Session { resumed }).1 matches Some(request) && {
                &&& of(request)
                &&& request.at("id"@) == JsonModel::Text("dsh:session"@)
                &&& request.at("method"@) == JsonModel::Text("pane.report_agent_session"@)
                &&& request.at("params"@).at("agent_session_id"@) == JsonModel::Text(driver.session)
                &&& request.at("params"@).at("session_start_source"@) == JsonModel::Text(
                    if resumed {
                        "resume"@
                    } else {
                        "startup"@
                    },
                )
            }
            &&& driver.numbering(ReportModel::Release).1 matches Some(request) && {
                &&& of(request)
                &&& request.at("id"@) == JsonModel::Text("dsh:release"@)
                &&& request.at("method"@) == JsonModel::Text("pane.release_agent"@)
            }
        }),
{
    lemma_message_names();
    reveal_strlit("pane_id");
    reveal_strlit("source");
    reveal_strlit("agent");
    reveal_strlit("state");
    reveal_strlit("seq");
    reveal_strlit("agent_session_id");
    reveal_strlit("session_start_source");
    assert("pane_id"@.len() == 7);
    assert("source"@.len() == 6);
    assert("agent"@.len() == 5);
    assert("state"@.len() == 5);
    assert("agent"@[0] == 'a');
    assert("state"@[0] == 's');
    assert("seq"@.len() == 3);
    assert("agent_session_id"@.len() == 16);
    assert("session_start_source"@.len() == 20);
}

/// A report that is answered with an error stops the driver, in the words for it, but for a release; an
/// answer without an error never does.
pub proof fn law_rejected_reports_stop_the_driver(
    state: Seq<char>,
    resumed: bool,
    reply: JsonModel,
    report: ReportModel,
)
    ensures
        reply.get("error"@) is None ==> pane_fault(report, reply) is None,
        reply.get("error"@) is Some ==> {
            &&& pane_fault(ReportModel::State(state), reply) == Some(
                FaultModel {
                    kind: ErrorKind::InvalidData,
                    message: "Herdr rejected DSH lifecycle report"@,
                },
            )
            &&& pane_fault(ReportModel::Session { resumed }, reply) == Some(
                FaultModel {
                    kind: ErrorKind::InvalidData,
                    message: "Herdr rejected DSH session identity"@,
                },
            )
            &&& pane_fault(ReportModel::Release, reply) is None
        },
{
}

/// A session that starts to be used is announced, told to the pane, and reported as idle, in that
/// order, with what is selected kept.
pub proof fn law_sessions_begin_idle(
    driver: DriverModel,
    config: JsonModel,
    text: Seq<char>,
    resumed: bool,
    now: JsonModel,
)
    ensures
        ({
            let (next, effects) = driver.beginning(config, text, resumed, now);
            let selected = DriverModel {
                snapshot: driver.snapshot.insert("model"@, current_value(config, "model"@)).insert(
                    "effort"@,
                    current_value(config, "reasoning_effort"@),
                ).insert("selection_at"@, now),
                ..driver
            };
            &&& effects.len() > 0
            &&& effects[0] == EffectModel::Print(text)
            &&& driver.pane is Some ==> effects.len() > 1 && effects[1] == EffectModel::Pane(
                ReportModel::Session { resumed },
            ) && is_reported(selected, next, effects.skip(2), "idle"@, now)
            &&& driver.pane is None ==> is_reported(selected, next, effects.skip(1), "idle"@, now)
        }),
{
    let selected = driver.remembering(config, now);
    lemma_is_reported(selected, "idle"@, now);
    let (next, effects) = driver.beginning(config, text, resumed, now);
    let told = selected.reported("idle"@, now).1;
    if driver.pane is Some {
        assert(effects.skip(2) =~= told);
    } else {
        assert(effects.skip(1) =~= told);
    }
}

/// A driver that ends keeps that it does, and then gives its pane back, if it has one.
pub proof fn law_drivers_end_as_exited(driver: DriverModel, now: JsonModel)
    ensures
        ({
            let (next, effects) = driver.exiting(now);
            let exited = DriverModel {
                snapshot: driver.snapshot.insert("lifecycle"@, JsonModel::Text("exited"@)),
                ..driver
            };
            &&& driver.pane is Some ==> effects.len() > 0 && effects.last() == EffectModel::Pane(
                ReportModel::Release,
            ) && is_kept(exited, next, effects.drop_last(), now)
            &&& driver.pane is None ==> is_kept(exited, next, effects, now)
        }),
{
    let exited = driver.with("lifecycle"@, JsonModel::Text("exited"@));
    lemma_saved(exited, now);
    let (next, effects) = driver.exiting(now);
    if driver.pane is Some {
        assert(effects.drop_last() =~= exited.saved(now).1);
    } else {
        assert(effects =~= exited.saved(now).1);
    }
}

/// A driver starts with a user, in its pane, without a session, a journal, a turn or anything waiting,
/// and with what it knows in its snapshot.
pub proof fn law_drivers_start_afresh(
    pane: Option<Seq<char>>,
    seq: u64,
    cwd: Seq<char>,
    pid: u64,
    session: Seq<char>,
    agent_info: JsonModel,
    driver: DriverModel,
    name: Seq<char>,
)
    ensures
        ({
            let start = fresh(pane, seq, cwd, pid);
            let held = driver.holding(session, agent_info);
            &&& start.interactive && start.pane == pane && start.seq == seq && start.sequence == 0
            &&& start.session.len() == 0 && start.journal is None && start.prompt is None
            &&& start.permissions.len() == 0 && start.reply.len() == 0 && !start.reply_truncated
            &&& start.snapshot["protocol"@] == JsonModel::Number(number_of(1))
            &&& start.snapshot["source"@] == JsonModel::Text("herdr:dsh"@)
            &&& start.snapshot["cwd"@] == JsonModel::Text(cwd)
            &&& start.snapshot["driver_pid"@] == JsonModel::Number(number_of(pid))
            &&& start.snapshot["lifecycle"@] == JsonModel::Text("unknown"@)
            &&& start.snapshot["background_count"@] == JsonModel::Null
            &&& held == DriverModel { session, snapshot: held.snapshot, ..driver }
            &&& held.snapshot["native_id"@] == JsonModel::Text(session)
            &&& held.snapshot["agent_info"@] == agent_info
            &&& name != "native_id"@ && name != "agent_info"@ ==> (held.snapshot.contains_key(name)
                <==> driver.snapshot.contains_key(name)) && held.snapshot[name]
                == driver.snapshot[name]
        }),
{
    reveal_strlit("protocol");
    reveal_strlit("source");
    reveal_strlit("cwd");
    reveal_strlit("driver_pid");
    reveal_strlit("lifecycle");
    reveal_strlit("background_count");
    reveal_strlit("native_id");
    reveal_strlit("agent_info");
    assert("protocol"@.len() == 8);
    assert("source"@.len() == 6);
    assert("cwd"@.len() == 3);
    assert("driver_pid"@.len() == 10);
    assert("lifecycle"@.len() == 9);
    assert("background_count"@.len() == 16);
    assert("native_id"@.len() == 9);
    assert("agent_info"@.len() == 10);
}

/// A request to the agent takes the next number and nothing else.
pub proof fn law_requests_take_the_next_number(
    driver: DriverModel,
    method: Seq<char>,
    params: JsonModel,
)
    requires
        driver.sequence < u64::MAX,
    ensures
        ({
            let (next, message) = driver.requesting(method, params);
            &&& next == DriverModel { sequence: next.sequence, ..driver }
            &&& next.sequence == driver.sequence + 1
            &&& message.at("id"@) == JsonModel::Number(number_of(next.sequence))
            &&& message.at("method"@) == JsonModel::Text(method)
            &&& message.at("params"@) == params
        }),
{
    lemma_message_names();
}

/// The values of a driver and of what it wants done stand for themselves.
pub proof fn law_drivers_stand_for_what_they_hold(
    driver: Driver,
    effect: Effect,
    report: Report,
)
    ensures
        driver@.interactive == driver.interactive && driver@.seq == driver.seq,
        driver@.sequence == driver.sequence && driver@.session == driver.session@,
        driver@.pane == text_view(driver.pane) && driver@.journal == text_view(driver.journal),
        driver@.snapshot == table_model(driver.snapshot@),
        driver@.permissions == list_model(driver.permissions@),
        driver@.reply == driver.reply@ && driver@.reply_truncated == driver.reply_truncated,
        match driver.prompt {
            Some((text, at)) => driver@.prompt == Some((text@, at@)),
            None => driver@.prompt is None,
        },
        match effect {
            Effect::Print(text) => effect@ == EffectModel::Print(text@),
            Effect::Save { path, document } => effect@ == (EffectModel::Save {
                path: path@,
                document: document@,
            }),
            Effect::Pane(report) => effect@ == EffectModel::Pane(report@),
            Effect::Send(message) => effect@ == EffectModel::Send(message@),
        },
        match report {
            Report::State(state) => report@ == ReportModel::State(state@),
            Report::Session { resumed } => report@ == (ReportModel::Session { resumed }),
            Report::Release => report@ is Release,
        },
{
}

/// An answer that has a limit is given up on from the moment of the limit on, and never before; one
/// without a limit is waited for.
pub proof fn law_overdue_answers_are_given_up(bound: Nanos, elapsed: Nanos)
    ensures
        overdue(None, elapsed) is None,
        elapsed < bound ==> overdue(Some(bound), elapsed) is None,
        elapsed >= bound ==> overdue(Some(bound), elapsed) == Some(
            FaultModel {
                kind: ErrorKind::TimedOut,
                message: "ACP outcome uncertain; request was not retried"@,
            },
        ),
{
}

/// A driver that inspects has no user and tells no pane. Nothing else of it changes.
pub proof fn law_inspections_have_no_user(driver: DriverModel, report: ReportModel)
    ensures
        ({
            let next = driver.inspecting();
            &&& !next.interactive && next.pane is None && next.telling(report).len() == 0
            &&& next.seq == driver.seq && next.sequence == driver.sequence
            &&& next.session == driver.session && next.journal == driver.journal
            &&& next.snapshot == driver.snapshot && next.permissions == driver.permissions
            &&& next.reply == driver.reply && next.reply_truncated == driver.reply_truncated
            &&& next.prompt == driver.prompt
        }),
{
}

} // verus!
