//! The driver's state between the agent, the terminal and its pane: what each message and key
//! changes, and what is to be done about it, in order.
use std::collections::VecDeque;
use vstd::prelude::*;

use super::acp::{
    notice_message, notice_model, outcome_message, outcome_model, request_message, request_model,
    session_params, single_field, unsupported_message, unsupported_model,
};
use super::config::option_of;
use super::error::{invalid, invalid_about, invalid_data, DriverError, ErrorKind, FaultModel};
use super::keys::{Key, KeyName};
use super::options::MAX_TEXT;
use crate::activity::Nanos;
use crate::json::{
    find_by, json_text, lemma_list_model, list_model, number_of, print_json, push_field, set_field, table_model,
    text_or_null, text_view, Json, JsonModel,
};
use crate::text::{
    byte_len, safe, safe_text, terminal, terminal_text, trim, trimmed, utf8_len,
};

verus! {

/// How long a request other than a prompt may take.
pub const CONTROL_TIMEOUT: Nanos = 45_000_000_000;

/// The most requests for a permission that may wait.
pub const MAX_PERMISSIONS: usize = 16;

/// A report to the runtime of the pane. It gets its number when it is sent.
#[derive(Debug, PartialEq, Eq)]
pub enum Report {
    /// What the session is doing.
    State(String),
    /// Which session it is.
    Session { resumed: bool },
    /// The pane is given back.
    Release,
}

/// The content of a `Report`.
pub enum ReportModel {
    State(Seq<char>),
    Session { resumed: bool },
    Release,
}

impl View for Report {
    type V = ReportModel;

    open spec fn view(&self) -> ReportModel {
        match *self {
            Report::State(state) => ReportModel::State(state@),
            Report::Session { resumed } => ReportModel::Session { resumed },
            Report::Release => ReportModel::Release,
        }
    }
}

/// Something to be done outside of the driver's state. What a step wants done is done in order, and
/// where something fails the driver ends, with the rest left undone.
#[derive(Debug, PartialEq)]
pub enum Effect {
    /// Show text on the terminal.
    Print(String),
    /// Replace the journal.
    Save { path: String, document: Json },
    /// Send a report to the runtime of the pane.
    Pane(Report),
    /// Send a message to the agent.
    Send(Json),
}

/// The content of an `Effect`.
pub enum EffectModel {
    Print(Seq<char>),
    Save { path: Seq<char>, document: JsonModel },
    Pane(ReportModel),
    Send(JsonModel),
}

impl View for Effect {
    type V = EffectModel;

    open spec fn view(&self) -> EffectModel {
        match *self {
            Effect::Print(text) => EffectModel::Print(text@),
            Effect::Save { path, document } => EffectModel::Save {
                path: path@,
                document: document@,
            },
            Effect::Pane(report) => EffectModel::Pane(report@),
            Effect::Send(message) => EffectModel::Send(message@),
        }
    }
}

/// What a step comes to: what is to be done, or why the driver stops.
pub open spec fn step_view(step: Result<Vec<Effect>, DriverError>) -> Result<
    Seq<EffectModel>,
    FaultModel,
> {
    match step {
        Ok(effects) => Ok(effects_view(effects@)),
        Err(error) => Err(error@),
    }
}

/// What effects stand for.
pub open spec fn effects_view(effects: Seq<Effect>) -> Seq<EffectModel> {
    effects.map_values(|effect: Effect| effect@)
}

/// The driver of one session.
pub struct Driver {
    /// Whether a user is at the terminal.
    pub interactive: bool,
    /// The pane that the driver runs in.
    pub pane: Option<String>,
    /// The number of the last report to the pane's runtime.
    pub seq: u64,
    /// The number of the last request to the agent.
    pub sequence: u64,
    /// The name of the session.
    pub session: String,
    /// Where the snapshot is kept.
    pub journal: Option<String>,
    /// What is known of the session.
    pub snapshot: Vec<(String, Json)>,
    /// The requests for a permission that wait for the user.
    pub permissions: VecDeque<Json>,
    /// What the agent said in this turn.
    pub reply: String,
    /// Whether something of it was too long to keep.
    pub reply_truncated: bool,
    /// The prompt of this turn and when it was submitted.
    pub prompt: Option<(String, Json)>,
}

/// The content of a `Driver`.
pub struct DriverModel {
    pub interactive: bool,
    pub pane: Option<Seq<char>>,
    pub seq: u64,
    pub sequence: u64,
    pub session: Seq<char>,
    pub journal: Option<Seq<char>>,
    pub snapshot: Map<Seq<char>, JsonModel>,
    pub permissions: Seq<JsonModel>,
    pub reply: Seq<char>,
    pub reply_truncated: bool,
    pub prompt: Option<(Seq<char>, JsonModel)>,
}

impl View for Driver {
    type V = DriverModel;

    open spec fn view(&self) -> DriverModel {
        DriverModel {
            interactive: self.interactive,
            pane: text_view(self.pane),
            seq: self.seq,
            sequence: self.sequence,
            session: self.session@,
            journal: text_view(self.journal),
            snapshot: table_model(self.snapshot@),
            permissions: list_model(self.permissions@),
            reply: self.reply@,
            reply_truncated: self.reply_truncated,
            prompt: match self.prompt {
                Some((text, at)) => Some((text@, at@)),
                None => None,
            },
        }
    }
}

/// A request to the runtime of the pane.
pub open spec fn pane_request(id: Seq<char>, method: Seq<char>, params: JsonModel) -> JsonModel {
    JsonModel::Table(
        map![
            "id"@ => JsonModel::Text(id),
            "method"@ => JsonModel::Text(method),
            "params"@ => params,
        ],
    )
}

/// The report of what the session is doing.
pub open spec fn state_report(
    pane: Seq<char>,
    state: Seq<char>,
    seq: u64,
    session: Seq<char>,
) -> JsonModel {
    pane_request(
        "dsh:state"@,
        "pane.report_agent"@,
        JsonModel::Table(
            map![
                "pane_id"@ => JsonModel::Text(pane),
                "source"@ => JsonModel::Text("herdr:dsh"@),
                "agent"@ => JsonModel::Text("dsh"@),
                "state"@ => JsonModel::Text(state),
                "seq"@ => JsonModel::Number(number_of(seq)),
                "agent_session_id"@ => JsonModel::Text(session),
            ],
        ),
    )
}

/// The report of which session it is.
pub open spec fn session_report(
    pane: Seq<char>,
    session: Seq<char>,
    resumed: bool,
    seq: u64,
) -> JsonModel {
    pane_request(
        "dsh:session"@,
        "pane.report_agent_session"@,
        JsonModel::Table(
            map![
                "pane_id"@ => JsonModel::Text(pane),
                "source"@ => JsonModel::Text("herdr:dsh"@),
                "agent"@ => JsonModel::Text("dsh"@),
                "agent_session_id"@ => JsonModel::Text(session),
                "session_start_source"@ => JsonModel::Text(
                    if resumed {
                        "resume"@
                    } else {
                        "startup"@
                    },
                ),
                "seq"@ => JsonModel::Number(number_of(seq)),
            ],
        ),
    )
}

/// The report that gives the pane back.
pub open spec fn release_report(pane: Seq<char>, seq: u64) -> JsonModel {
    pane_request(
        "dsh:release"@,
        "pane.release_agent"@,
        JsonModel::Table(
            map![
                "pane_id"@ => JsonModel::Text(pane),
                "source"@ => JsonModel::Text("herdr:dsh"@),
                "agent"@ => JsonModel::Text("dsh"@),
                "seq"@ => JsonModel::Number(number_of(seq)),
            ],
        ),
    )
}

/// The current value of a configuration option.
pub open spec fn current_value(options: JsonModel, id: Seq<char>) -> JsonModel {
    match option_of(options, id) {
        Some(option) => option.at("currentValue"@),
        None => JsonModel::Null,
    }
}

/// The text that asks the user for a permission.
pub open spec fn permission_text(request: JsonModel) -> Seq<char> {
    "\r\nPermission: "@ + safe(json_text(request.at("params"@).at("toolCall"@)))
        + "\r\n1 Allow once   2 Reject\r\n"@
}

/// The option of a request that a choice takes: only the ones for this once.
pub open spec fn taken_option(request: JsonModel, choice: char) -> Option<Seq<char>> {
    let kind = if choice == '1' {
        "allow_once"@
    } else {
        "reject_once"@
    };
    match request.at("params"@).at("options"@).list() {
        Some(items) => match find_by(items, "kind"@, kind) {
            Some(option) => option.at("optionId"@).text(),
            None => None,
        },
        None => None,
    }
}

/// What the agent is told of a choice, if it can be made.
pub open spec fn choice_outcome(request: JsonModel, choice: char) -> Option<JsonModel> {
    match taken_option(request, choice) {
        Some(id) => Some(
            JsonModel::Table(
                map!["outcome"@ => JsonModel::Text("selected"@), "optionId"@ => JsonModel::Text(id)],
            ),
        ),
        None => if choice == '2' {
            Some(JsonModel::Table(map!["outcome"@ => JsonModel::Text("cancelled"@)]))
        } else {
            None
        },
    }
}

impl DriverModel {
    /// The driver with a field of its snapshot set.
    pub open spec fn with(self, name: Seq<char>, value: JsonModel) -> DriverModel {
        DriverModel { snapshot: self.snapshot.insert(name, value), ..self }
    }

    /// Keeps the snapshot, where there is a journal.
    pub open spec fn saved(self, now: JsonModel) -> (DriverModel, Seq<EffectModel>) {
        match self.journal {
            None => (self, Seq::empty()),
            Some(path) => {
                let next = self.with("observed_at"@, now).with("pane_id"@, text_or_null(self.pane));
                (next, seq![EffectModel::Save { path, document: JsonModel::Table(next.snapshot) }])
            },
        }
    }

    /// Tells the pane, where there is one.
    pub open spec fn telling(self, report: ReportModel) -> Seq<EffectModel> {
        if self.pane is Some {
            seq![EffectModel::Pane(report)]
        } else {
            Seq::empty()
        }
    }

    /// Gives a report the next number, and writes it as a request.
    pub open spec fn numbering(self, report: ReportModel) -> (DriverModel, Option<JsonModel>) {
        match self.pane {
            None => (self, None),
            Some(pane) => {
                let seq = (self.seq + 1) as u64;
                (
                    DriverModel { seq, ..self },
                    Some(
                        match report {
                            ReportModel::State(state) => state_report(
                                pane,
                                state,
                                seq,
                                self.session,
                            ),
                            ReportModel::Session { resumed } => session_report(
                                pane,
                                self.session,
                                resumed,
                                seq,
                            ),
                            ReportModel::Release => release_report(pane, seq),
                        },
                    ),
                )
            },
        }
    }

    /// Keeps what the session is doing, and tells the pane.
    pub open spec fn reported(self, state: Seq<char>, now: JsonModel) -> (
        DriverModel,
        Seq<EffectModel>,
    ) {
        let (kept, effects) = self.with("lifecycle"@, JsonModel::Text(state)).saved(now);
        (kept, effects + self.telling(ReportModel::State(state)))
    }

    /// Keeps what is selected.
    pub open spec fn remembering(self, options: JsonModel, now: JsonModel) -> DriverModel {
        self.with("model"@, current_value(options, "model"@)).with(
            "effort"@,
            current_value(options, "reasoning_effort"@),
        ).with("selection_at"@, now)
    }

    /// Takes a part of the agent's reply.
    pub open spec fn hearing(self, text: Seq<char>) -> DriverModel {
        if self.prompt is None {
            self
        } else if utf8_len(self.reply) + utf8_len(text) <= MAX_TEXT {
            DriverModel { reply: self.reply + text, ..self }
        } else {
            DriverModel { reply_truncated: true, ..self }
        }
    }

    /// What an update of the session changes.
    pub open spec fn updated(self, update: JsonModel, now: JsonModel) -> (
        DriverModel,
        Seq<EffectModel>,
    ) {
        let kind = update.at("sessionUpdate"@).text();
        if kind == Some("agent_message_chunk"@) {
            match update.at("content"@).at("text"@).text() {
                Some(text) => (self.hearing(text), seq![EffectModel::Print(terminal(text))]),
                None => (self, Seq::empty()),
            }
        } else if kind == Some("config_option_update"@) {
            self.remembering(update.at("configOptions"@), now).saved(now)
        } else if kind == Some("usage_update"@) {
            self.with("context_used"@, update.at("used"@)).with(
                "context_limit"@,
                update.at("size"@),
            ).with("telemetry_at"@, now).saved(now)
        } else if kind == Some("tool_call"@) {
            match update.at("title"@).text() {
                Some(title) => (
                    self,
                    seq![EffectModel::Print("\r\n[tool] "@ + safe(title) + "\r\n"@)],
                ),
                None => (self, Seq::empty()),
            }
        } else {
            (self, Seq::empty())
        }
    }

    /// What is shown of the permission that is asked for first.
    pub open spec fn asking(self) -> Seq<EffectModel> {
        if self.permissions.len() > 0 {
            seq![EffectModel::Print(permission_text(self.permissions[0]))]
        } else {
            Seq::empty()
        }
    }

    /// What a message of the agent changes.
    pub open spec fn framed(self, frame: JsonModel, now: JsonModel) -> Result<
        (DriverModel, Seq<EffectModel>),
        FaultModel,
    > {
        let method = frame.at("method"@).text();
        let session = frame.at("params"@).at("sessionId"@).text();
        if method == Some("session/update"@) {
            if session != Some(self.session) {
                Err(invalid_data("ACP update changed session identity"@))
            } else {
                Ok(self.updated(frame.at("params"@).at("update"@), now))
            }
        } else if method == Some("session/request_permission"@) {
            if session != Some(self.session) {
                Err(invalid_data("permission changed session identity"@))
            } else if self.permissions.len() >= MAX_PERMISSIONS {
                Err(invalid_data("too many pending permission requests"@))
            } else {
                let (next, effects) = (DriverModel {
                    permissions: self.permissions.push(frame),
                    ..self
                }).reported("blocked"@, now);
                Ok((next, effects + next.asking()))
            }
        } else if method is Some && frame.get("id"@) is Some {
            Ok((self, seq![EffectModel::Send(unsupported_model(frame.at("id"@)))]))
        } else {
            Ok((self, Seq::empty()))
        }
    }

    /// What a choice of the user changes: it answers the permission that was asked for first.
    pub open spec fn choosing(self, choice: char, now: JsonModel) -> (
        DriverModel,
        Seq<EffectModel>,
    ) {
        if (choice != '1' && choice != '2') || self.permissions.len() == 0 {
            (self, Seq::empty())
        } else {
            let request = self.permissions[0];
            match choice_outcome(request, choice) {
                None => (self, Seq::empty()),
                Some(outcome) => {
                    let sent = EffectModel::Send(outcome_model(request.at("id"@), outcome));
                    let next = DriverModel { permissions: self.permissions.drop_first(), ..self };
                    if next.permissions.len() == 0 {
                        let (working, effects) = next.reported("working"@, now);
                        (working, seq![sent] + effects)
                    } else {
                        (next, seq![sent] + next.asking())
                    }
                },
            }
        }
    }
}

/// The effects of two steps, one after the other.
fn joined(first: Vec<Effect>, second: Vec<Effect>) -> (effects: Vec<Effect>)
    ensures
        effects_view(effects@) == effects_view(first@) + effects_view(second@),
{
    let mut effects = first;
    let mut more = second;
    effects.append(&mut more);
    assert(effects_view(effects@) =~= effects_view(first@) + effects_view(second@));
    effects
}

/// One effect.
fn only(effect: Effect) -> (effects: Vec<Effect>)
    ensures
        effects_view(effects@) == seq![effect@],
{
    let mut effects: Vec<Effect> = Vec::new();
    effects.push(effect);
    assert(effects_view(effects@) =~= seq![effect@]);
    effects
}

/// No effect.
fn nothing() -> (effects: Vec<Effect>)
    ensures
        effects_view(effects@) == Seq::<EffectModel>::empty(),
{
    let effects: Vec<Effect> = Vec::new();
    assert(effects_view(effects@) =~= Seq::<EffectModel>::empty());
    effects
}

/// Writes a request to the runtime of the pane.
fn pane_message(id: &str, method: &str, params: Vec<(String, Json)>) -> (json: Json)
    ensures
        json@ == pane_request(id@, method@, JsonModel::Table(table_model(params@))),
{
    let mut fields: Vec<(String, Json)> = Vec::new();
    push_field(&mut fields, "id", Json::of_text(id));
    push_field(&mut fields, "method", Json::of_text(method));
    push_field(&mut fields, "params", Json::Table(params));
    Json::Table(fields)
}

/// Starts the parameters of such a request.
fn pane_params(pane: &str) -> (fields: Vec<(String, Json)>)
    ensures
        table_model(fields@) == map![
            "pane_id"@ => JsonModel::Text(pane@),
            "source"@ => JsonModel::Text("herdr:dsh"@),
            "agent"@ => JsonModel::Text("dsh"@),
        ],
{
    let mut fields: Vec<(String, Json)> = Vec::new();
    push_field(&mut fields, "pane_id", Json::of_text(pane));
    push_field(&mut fields, "source", Json::of_text("herdr:dsh"));
    push_field(&mut fields, "agent", Json::of_text("dsh"));
    fields
}

/// Writes the text that asks the user for a permission.
fn permission_message(request: &Json) -> (text: String)
    ensures
        text@ == permission_text(request@),
{
    let call = request.copy_at("params").copy_at("toolCall");
    let mut text = "\r\nPermission: ".to_string();
    text.push_str(safe_text(print_json(&call).as_str()).as_str());
    text.push_str("\r\n1 Allow once   2 Reject\r\n");
    text
}

/// Says what the agent is told of a choice, if it can be made.
fn permission_outcome(request: &Json, choice: char) -> (outcome: Option<Json>)
    ensures
        match outcome {
            Some(json) => choice_outcome(request@, choice) == Some(json@),
            None => choice_outcome(request@, choice) is None,
        },
{
    let kind = if choice == '1' {
        "allow_once"
    } else {
        "reject_once"
    };
    let options = request.copy_at("params").copy_at("options");
    let taken = match options.find("kind", kind) {
        Some(option) => option.text_at("optionId"),
        None => None,
    };
    match taken {
        Some(id) => {
            let mut fields: Vec<(String, Json)> = Vec::new();
            push_field(&mut fields, "outcome", Json::of_text("selected"));
            push_field(&mut fields, "optionId", Json::of_text(id));
            Some(Json::Table(fields))
        },
        None => if choice == '2' {
            let mut fields: Vec<(String, Json)> = Vec::new();
            push_field(&mut fields, "outcome", Json::of_text("cancelled"));
            Some(Json::Table(fields))
        } else {
            None
        },
    }
}

impl Driver {
    /// Sets a field of the snapshot.
    fn set(&mut self, name: &str, value: Json)
        ensures
            final(self)@ == old(self)@.with(name@, value@),
    {
        set_field(&mut self.snapshot, name, value);
    }

    /// Keeps the snapshot, where there is a journal.
    pub fn save(&mut self, now: &Json) -> (effects: Vec<Effect>)
        ensures
            (final(self)@, effects_view(effects@)) == old(self)@.saved(now@),
    {
        let path = match &self.journal {
            Some(path) => path.clone(),
            None => {
                return nothing();
            },
        };
        self.set("observed_at", now.clone());
        let pane = Json::of_option(&self.pane);
        self.set("pane_id", pane);
        let whole = Json::Table(copy_fields(&self.snapshot));
        only(Effect::Save { path, document: whole })
    }

    /// Tells the pane, where there is one.
    fn tell(&self, report: Report) -> (effects: Vec<Effect>)
        ensures
            effects_view(effects@) == self@.telling(report@),
    {
        if self.pane.is_some() {
            only(Effect::Pane(report))
        } else {
            nothing()
        }
    }

    /// Gives a report the next number, and writes it as a request to the runtime of the pane. There
    /// is none without a pane.
    pub fn pane_request(&mut self, report: &Report) -> (request: Option<Json>)
        requires
            old(self)@.pane is Some ==> old(self)@.seq < u64::MAX,
        ensures
            (
                final(self)@,
                match request {
                    Some(request) => Some(request@),
                    None => None,
                },
            ) == old(self)@.numbering(report@),
    {
        let mut params = match &self.pane {
            Some(pane) => pane_params(pane.as_str()),
            None => {
                return None;
            },
        };
        self.seq = self.seq + 1;
        let request = match report {
            Report::State(state) => {
                push_field(&mut params, "state", Json::of_text(state.as_str()));
                push_field(&mut params, "seq", Json::of_u64(self.seq));
                push_field(&mut params, "agent_session_id", Json::of_text(self.session.as_str()));
                pane_message("dsh:state", "pane.report_agent", params)
            },
            Report::Session { resumed } => {
                push_field(&mut params, "agent_session_id", Json::of_text(self.session.as_str()));
                let source = if *resumed {
                    "resume"
                } else {
                    "startup"
                };
                push_field(&mut params, "session_start_source", Json::of_text(source));
                push_field(&mut params, "seq", Json::of_u64(self.seq));
                pane_message("dsh:session", "pane.report_agent_session", params)
            },
            Report::Release => {
                push_field(&mut params, "seq", Json::of_u64(self.seq));
                pane_message("dsh:release", "pane.release_agent", params)
            },
        };
        Some(request)
    }

    /// Keeps what the session is doing, and tells the pane.
    pub fn report(&mut self, state: &str, now: &Json) -> (effects: Vec<Effect>)
        ensures
            (final(self)@, effects_view(effects@)) == old(self)@.reported(state@, now@),
    {
        self.set("lifecycle", Json::of_text(state));
        let kept = self.save(now);
        let told = self.tell(Report::State(state.to_string()));
        joined(kept, told)
    }

    /// Keeps what is selected.
    pub fn remember_selection(&mut self, options: &Json, now: &Json)
        ensures
            final(self)@ == old(self)@.remembering(options@, now@),
    {
        self.set("model", selected(options, "model"));
        self.set("effort", selected(options, "reasoning_effort"));
        self.set("selection_at", now.clone());
    }
}

/// Finds the current value of a configuration option.
fn selected(options: &Json, id: &str) -> (value: Json)
    ensures
        value@ == current_value(options@, id@),
{
    match options.find("id", id) {
        Some(option) => option.copy_at("currentValue"),
        None => Json::Null,
    }
}

/// Copies the fields of a table.
fn copy_fields(fields: &Vec<(String, Json)>) -> (copy: Vec<(String, Json)>)
    ensures
        table_model(copy@) == table_model(fields@),
{
    let mut copy: Vec<(String, Json)> = Vec::new();
    let mut i: usize = 0;
    assert(fields@.take(0) =~= Seq::<(String, Json)>::empty());
    while i < fields.len()
        invariant
            i <= fields@.len(),
            table_model(copy@) == table_model(fields@.take(i as int)),
        decreases fields@.len() - i,
    {
        push_field(&mut copy, fields[i].0.as_str(), fields[i].1.clone());
        assert(fields@.take(i + 1).drop_last() =~= fields@.take(i as int));
        i = i + 1;
    }
    assert(fields@.take(i as int) =~= fields@);
    copy
}

/// Appending an element appends its model.
proof fn lemma_list_model_push(items: Seq<Json>, item: Json)
    ensures
        list_model(items.push(item)) == list_model(items).push(item@),
{
    assert(items.push(item).drop_last() =~= items);
}

/// Taking the first element out takes its model out.
proof fn lemma_list_model_rest(items: Seq<Json>)
    requires
        items.len() > 0,
    ensures
        list_model(items.subrange(1, items.len() as int)) == list_model(items).drop_first(),
        list_model(items)[0] == items[0]@,
        list_model(items).len() == items.len(),
{
    let rest = items.subrange(1, items.len() as int);
    lemma_list_model(items);
    lemma_list_model(rest);
    assert forall|i: int| 0 <= i < rest.len() implies #[trigger] list_model(rest)[i] == list_model(
        items,
    ).drop_first()[i] by {
        assert(rest[i] == items[i + 1]);
        assert(list_model(items)[i + 1] == items[i + 1]@);
    }
    assert(list_model(rest) =~= list_model(items).drop_first());
}

impl Driver {
    /// Takes a part of the agent's reply.
    fn hear(&mut self, text: &str)
        ensures
            final(self)@ == old(self)@.hearing(text@),
    {
        if self.prompt.is_some() {
            let more = byte_len(text);
            let held = byte_len(self.reply.as_str());
            if more <= MAX_TEXT && held <= MAX_TEXT - more {
                self.reply.push_str(text);
            } else {
                self.reply_truncated = true;
            }
        }
    }

    /// Takes an update of the session.
    fn update(&mut self, update: &Json, now: &Json) -> (effects: Vec<Effect>)
        ensures
            (final(self)@, effects_view(effects@)) == old(self)@.updated(update@, now@),
    {
        if update.says("sessionUpdate", "agent_message_chunk") {
            let content = update.copy_at("content");
            match content.text_at("text") {
                Some(text) => {
                    self.hear(text);
                    only(Effect::Print(terminal_text(text)))
                },
                None => nothing(),
            }
        } else if update.says("sessionUpdate", "config_option_update") {
            self.remember_selection(&update.copy_at("configOptions"), now);
            self.save(now)
        } else if update.says("sessionUpdate", "usage_update") {
            self.set("context_used", update.copy_at("used"));
            self.set("context_limit", update.copy_at("size"));
            self.set("telemetry_at", now.clone());
            self.save(now)
        } else if update.says("sessionUpdate", "tool_call") {
            match update.text_at("title") {
                Some(title) => {
                    let mut text = "\r\n[tool] ".to_string();
                    text.push_str(safe_text(title).as_str());
                    text.push_str("\r\n");
                    only(Effect::Print(text))
                },
                None => nothing(),
            }
        } else {
            nothing()
        }
    }

    /// Shows the permission that is asked for first.
    pub fn show_permission(&self) -> (effects: Vec<Effect>)
        ensures
            effects_view(effects@) == self@.asking(),
    {
        proof {
            lemma_list_model(self.permissions@);
        }
        if self.permissions.len() > 0 {
            only(Effect::Print(permission_message(&self.permissions[0])))
        } else {
            nothing()
        }
    }

    /// Takes a message of the agent that answers no request.
    pub fn frame(&mut self, frame: Json, now: &Json) -> (step: Result<Vec<Effect>, DriverError>)
        ensures
            match old(self)@.framed(frame@, now@) {
                Ok((next, effects)) => final(self)@ == next && step_view(step) == Ok::<
                    Seq<EffectModel>,
                    FaultModel,
                >(effects),
                Err(fault) => final(self)@ == old(self)@ && step_view(step) == Err::<
                    Seq<EffectModel>,
                    FaultModel,
                >(fault),
            },
    {
        let params = frame.copy_at("params");
        let ours = params.says("sessionId", self.session.as_str());
        if frame.says("method", "session/update") {
            if !ours {
                return Err(invalid("ACP update changed session identity"));
            }
            Ok(self.update(&params.copy_at("update"), now))
        } else if frame.says("method", "session/request_permission") {
            if !ours {
                return Err(invalid("permission changed session identity"));
            }
            proof {
                lemma_list_model(self.permissions@);
                lemma_list_model_push(self.permissions@, frame);
            }
            if self.permissions.len() >= MAX_PERMISSIONS {
                return Err(invalid("too many pending permission requests"));
            }
            self.permissions.push_back(frame);
            let effects = self.report("blocked", now);
            let more = self.show_permission();
            Ok(joined(effects, more))
        } else if frame.text_at("method").is_some() && frame.has("id") {
            Ok(only(Effect::Send(unsupported_message(frame.copy_at("id")))))
        } else {
            Ok(nothing())
        }
    }

    /// Takes a choice of the user.
    pub fn permission_choice(&mut self, choice: char, now: &Json) -> (effects: Vec<Effect>)
        ensures
            (final(self)@, effects_view(effects@)) == old(self)@.choosing(choice, now@),
    {
        proof {
            lemma_list_model(self.permissions@);
        }
        if (choice != '1' && choice != '2') || self.permissions.len() == 0 {
            return nothing();
        }
        proof {
            lemma_list_model_rest(self.permissions@);
        }
        let request = &self.permissions[0];
        let outcome = match permission_outcome(request, choice) {
            Some(outcome) => outcome,
            None => {
                return nothing();
            },
        };
        let sent = only(Effect::Send(outcome_message(request.copy_at("id"), outcome)));
        let _ = self.permissions.pop_front();
        if self.permissions.len() == 0 {
            let effects = self.report("working", now);
            joined(sent, effects)
        } else {
            let effects = self.show_permission();
            joined(sent, effects)
        }
    }
}

/// What came from the agent's process.
#[derive(Debug, PartialEq)]
pub enum Arrival {
    Frame(Json),
    /// Nothing will come any more.
    Stopped,
    /// Nothing came yet.
    Nothing,
}

/// What an arrival comes to while an answer is waited for.
#[derive(Debug, PartialEq)]
pub struct Heard {
    /// The answer, once it came.
    pub answer: Option<Json>,
    pub effects: Vec<Effect>,
}

/// The message answers the request of that number.
pub open spec fn is_answer(frame: JsonModel, id: u64) -> bool {
    frame.at("id"@).unsigned() == Some(id) && frame.get("method"@) is None
}

/// What an answer says.
pub open spec fn answer_of(frame: JsonModel) -> Result<JsonModel, FaultModel> {
    match frame.get("error"@) {
        Some(error) => Err(invalid_data("DSH request failed: "@ + safe(json_text(error)))),
        None => match frame.get("result"@) {
            Some(result) => Ok(result),
            None => Err(invalid_data("missing ACP result"@)),
        },
    }
}

/// A request for a turn.
pub open spec fn prompt_params(session: Seq<char>, prompt: Seq<char>) -> JsonModel {
    JsonModel::Table(
        map![
            "sessionId"@ => JsonModel::Text(session),
            "prompt"@ => JsonModel::List(
                seq![
                    JsonModel::Table(
                        map!["type"@ => JsonModel::Text("text"@), "text"@ => JsonModel::Text(prompt)],
                    ),
                ],
            ),
        ],
    )
}

/// A prompt that can be submitted: not blank, and within bounds.
pub open spec fn is_prompt(prompt: Seq<char>) -> bool {
    trimmed(prompt).len() > 0 && utf8_len(prompt) <= MAX_TEXT
}

/// Why the runtime of the pane stops the driver: it answered one of its reports with an error. What
/// it says to a release does not matter.
pub open spec fn pane_fault(report: ReportModel, reply: JsonModel) -> Option<FaultModel> {
    if reply.get("error"@) is None {
        None
    } else {
        match report {
            ReportModel::Session { .. } => Some(
                invalid_data("Herdr rejected DSH session identity"@),
            ),
            ReportModel::State(_) => Some(invalid_data("Herdr rejected DSH lifecycle report"@)),
            ReportModel::Release => None,
        }
    }
}

/// A driver before anything is known of its session.
pub open spec fn fresh(pane: Option<Seq<char>>, seq: u64, cwd: Seq<char>, pid: u64) -> DriverModel {
    DriverModel {
        interactive: true,
        pane,
        seq,
        sequence: 0,
        session: Seq::empty(),
        journal: None,
        snapshot: map![
            "protocol"@ => JsonModel::Number(number_of(1)),
            "source"@ => JsonModel::Text("herdr:dsh"@),
            "cwd"@ => JsonModel::Text(cwd),
            "driver_pid"@ => JsonModel::Number(number_of(pid)),
            "lifecycle"@ => JsonModel::Text("unknown"@),
            "background_count"@ => JsonModel::Null,
        ],
        permissions: Seq::empty(),
        reply: Seq::empty(),
        reply_truncated: false,
        prompt: None,
    }
}

impl DriverModel {
    /// Numbers a request to the agent.
    pub open spec fn requesting(self, method: Seq<char>, params: JsonModel) -> (
        DriverModel,
        JsonModel,
    ) {
        let id = (self.sequence + 1) as u64;
        (DriverModel { sequence: id, ..self }, request_model(id, method, params))
    }

    /// What a message changes while the answer to a request is waited for. Without a user nothing
    /// that the agent asks for can be answered.
    pub open spec fn heard(self, id: u64, frame: JsonModel, now: JsonModel) -> Result<
        (DriverModel, Option<JsonModel>, Seq<EffectModel>),
        FaultModel,
    > {
        if is_answer(frame, id) {
            match answer_of(frame) {
                Ok(answer) => Ok((self, Some(answer), Seq::empty())),
                Err(fault) => Err(fault),
            }
        } else if self.interactive {
            match self.framed(frame, now) {
                Ok((next, effects)) => Ok((next, None, effects)),
                Err(fault) => Err(fault),
            }
        } else if frame.get("id"@) is Some {
            Err(invalid_data("catalog inspection cannot service agent requests"@))
        } else {
            Ok((self, None, Seq::empty()))
        }
    }

    /// What a key does while an answer is waited for: it cancels the turn, or chooses.
    pub open spec fn keyed(self, key: Key, now: JsonModel) -> (DriverModel, Seq<EffectModel>) {
        if !key.press {
            (self, Seq::empty())
        } else if key.control && key.name == KeyName::Char('c') {
            if self.session.len() > 0 {
                (
                    self,
                    seq![
                        EffectModel::Send(
                            notice_model("session/cancel"@, session_params(self.session)),
                        ),
                    ],
                )
            } else {
                (self, Seq::empty())
            }
        } else {
            match key.name {
                KeyName::Char(choice) => self.choosing(choice, now),
                _ => (self, Seq::empty()),
            }
        }
    }

    /// Starts a turn.
    pub open spec fn prompting(self, prompt: Seq<char>, now: JsonModel) -> Result<
        (DriverModel, Seq<EffectModel>),
        FaultModel,
    > {
        if !is_prompt(prompt) {
            Err(invalid_data("prompt must contain 1 to 131072 bytes"@))
        } else {
            let (working, effects) = (DriverModel {
                reply: Seq::empty(),
                reply_truncated: false,
                prompt: Some((prompt, now)),
                ..self
            }).reported("working"@, now);
            let (next, message) = working.requesting(
                "session/prompt"@,
                prompt_params(self.session, prompt),
            );
            Ok((next, effects.push(EffectModel::Send(message))))
        }
    }

    /// Ends a turn: nothing of what was asked in it is left, and what was said in it is kept.
    pub open spec fn settled(self, id: u64, result: JsonModel, now: JsonModel) -> (
        DriverModel,
        Result<Seq<EffectModel>, FaultModel>,
    ) {
        let cleared = DriverModel { permissions: Seq::empty(), prompt: None, ..self };
        match self.prompt {
            None => (cleared, Err(invalid_data("missing prompt intent"@))),
            Some((prompt, submitted_at)) => {
                let (next, effects) = cleared.with("last_user_text"@, JsonModel::Text(prompt)).with(
                    "last_user_at"@,
                    submitted_at,
                ).with(
                    "last_assistant_text"@,
                    if self.reply_truncated {
                        JsonModel::Null
                    } else {
                        JsonModel::Text(self.reply)
                    },
                ).with("last_assistant_at"@, now).with("stop_reason"@, result.at("stopReason"@)).with(
                    "turn_id"@,
                    JsonModel::Number(number_of(id)),
                ).reported("idle"@, now);
                (next, Ok(effects.push(EffectModel::Print("\r\n"@))))
            },
        }
    }

    /// Takes the session that the agent opened.
    pub open spec fn holding(self, session: Seq<char>, agent_info: JsonModel) -> DriverModel {
        (DriverModel { session, ..self }).with("native_id"@, JsonModel::Text(session)).with(
            "agent_info"@,
            agent_info,
        )
    }

    /// Starts to use a session: keeps what is selected, announces the session, and tells the pane.
    pub open spec fn beginning(
        self,
        config: JsonModel,
        announcement: Seq<char>,
        resumed: bool,
        now: JsonModel,
    ) -> (DriverModel, Seq<EffectModel>) {
        let (idle, effects) = self.remembering(config, now).reported("idle"@, now);
        (
            idle,
            seq![EffectModel::Print(announcement)] + self.telling(ReportModel::Session { resumed })
                + effects,
        )
    }

    /// The driver without a user, and without a pane to report to.
    pub open spec fn inspecting(self) -> DriverModel {
        DriverModel { interactive: false, pane: None, ..self }
    }

    /// Keeps that the driver ends, and gives the pane back.
    pub open spec fn exiting(self, now: JsonModel) -> (DriverModel, Seq<EffectModel>) {
        let (kept, effects) = self.with("lifecycle"@, JsonModel::Text("exited"@)).saved(now);
        (kept, effects + self.telling(ReportModel::Release))
    }
}

/// What an arrival comes to.
pub open spec fn heard_view(heard: Result<Heard, DriverError>) -> Result<
    (Option<JsonModel>, Seq<EffectModel>),
    FaultModel,
> {
    match heard {
        Ok(heard) => Ok(
            (
                match heard.answer {
                    Some(answer) => Some(answer@),
                    None => None,
                },
                effects_view(heard.effects@),
            ),
        ),
        Err(error) => Err(error@),
    }
}

/// Checks what the runtime of the pane answered to one of the driver's reports.
pub fn check_pane_reply(report: &Report, reply: &Json) -> (checked: Result<(), DriverError>)
    ensures
        match (checked, pane_fault(report@, reply@)) {
            (Ok(_), None) => true,
            (Err(error), Some(fault)) => error@ == fault,
            _ => false,
        },
{
    if !reply.has("error") {
        return Ok(());
    }
    match report {
        Report::Session { .. } => Err(invalid("Herdr rejected DSH session identity")),
        Report::State(_) => Err(invalid("Herdr rejected DSH lifecycle report")),
        Report::Release => Ok(()),
    }
}

/// Why an answer is given up on.
pub open spec fn overdue(limit: Option<Nanos>, elapsed: Nanos) -> Option<FaultModel> {
    if limit matches Some(bound) && elapsed >= bound {
        Some(
            FaultModel {
                kind: ErrorKind::TimedOut,
                message: "ACP outcome uncertain; request was not retried"@,
            },
        )
    } else {
        None
    }
}

/// Gives up on an answer that is overdue. What became of the request is not known, and it is not
/// sent again.
pub fn check_deadline(limit: Option<Nanos>, elapsed: Nanos) -> (checked: Result<(), DriverError>)
    ensures
        checked is Err <==> (limit matches Some(bound) && elapsed >= bound),
        checked matches Err(error) ==> error@ == (FaultModel {
            kind: ErrorKind::TimedOut,
            message: "ACP outcome uncertain; request was not retried"@,
        }),
        match (checked, overdue(limit, elapsed)) {
            (Ok(_), None) => true,
            (Err(error), Some(fault)) => error@ == fault,
            _ => false,
        },
{
    match limit {
        Some(bound) => if elapsed >= bound {
            Err(
                DriverError {
                    kind: ErrorKind::TimedOut,
                    message: "ACP outcome uncertain; request was not retried".to_string(),
                },
            )
        } else {
            Ok(())
        },
        None => Ok(()),
    }
}

/// Reads what an answer says.
fn read_answer(frame: &Json) -> (answer: Result<Json, DriverError>)
    ensures
        match (answer, answer_of(frame@)) {
            (Ok(json), Ok(expected)) => json@ == expected,
            (Err(error), Err(fault)) => error@ == fault,
            _ => false,
        },
{
    match frame.get("error") {
        Some(error) => Err(
            invalid_about(
                "DSH request failed: ",
                safe_text(print_json(error).as_str()).as_str(),
            ),
        ),
        None => match frame.get("result") {
            Some(result) => Ok(result.clone()),
            None => Err(invalid("missing ACP result")),
        },
    }
}

/// Writes a request for a turn.
fn prompt_message(session: &str, prompt: &str) -> (params: Json)
    ensures
        params@ == prompt_params(session@, prompt@),
{
    let mut part: Vec<(String, Json)> = Vec::new();
    push_field(&mut part, "type", Json::of_text("text"));
    push_field(&mut part, "text", Json::of_text(prompt));
    let mut parts: Vec<Json> = Vec::new();
    let ghost empty = parts@;
    parts.push(Json::Table(part));
    proof {
        lemma_list_model_push(empty, parts@[0]);
        assert(parts@ =~= empty.push(parts@[0]));
        assert(list_model(parts@) =~= seq![parts@[0]@]);
    }
    let mut fields: Vec<(String, Json)> = Vec::new();
    push_field(&mut fields, "sessionId", Json::of_text(session));
    push_field(&mut fields, "prompt", Json::List(parts));
    Json::Table(fields)
}

impl Driver {
    /// A driver before anything is known of its session.
    pub fn new(pane: Option<String>, seq: u64, cwd: &str, pid: u32) -> (driver: Driver)
        ensures
            driver@ == fresh(text_view(pane), seq, cwd@, pid as u64),
    {
        let mut snapshot: Vec<(String, Json)> = Vec::new();
        push_field(&mut snapshot, "protocol", Json::of_u64(1));
        push_field(&mut snapshot, "source", Json::of_text("herdr:dsh"));
        push_field(&mut snapshot, "cwd", Json::of_text(cwd));
        push_field(&mut snapshot, "driver_pid", Json::of_u64(pid as u64));
        push_field(&mut snapshot, "lifecycle", Json::of_text("unknown"));
        push_field(&mut snapshot, "background_count", Json::Null);
        Driver {
            interactive: true,
            pane,
            seq,
            sequence: 0,
            session: String::new(),
            journal: None,
            snapshot,
            permissions: VecDeque::new(),
            reply: String::new(),
            reply_truncated: false,
            prompt: None,
        }
    }

    /// Numbers and writes a request to the agent.
    pub fn request(&mut self, method: &str, params: Json) -> (message: Json)
        requires
            old(self)@.sequence < u64::MAX,
        ensures
            (final(self)@, message@) == old(self)@.requesting(method@, params@),
    {
        self.sequence = self.sequence + 1;
        request_message(self.sequence, method, params)
    }

    /// Takes what came from the agent's process while the answer to a request is waited for.
    pub fn response(&mut self, id: u64, arrival: Arrival, now: &Json) -> (heard: Result<
        Heard,
        DriverError,
    >)
        ensures
            match arrival {
                Arrival::Frame(frame) => match old(self)@.heard(id, frame@, now@) {
                    Ok((next, answer, effects)) => final(self)@ == next && heard_view(heard) == Ok::<
                        (Option<JsonModel>, Seq<EffectModel>),
                        FaultModel,
                    >((answer, effects)),
                    Err(fault) => final(self)@ == old(self)@ && heard_view(heard) == Err::<
                        (Option<JsonModel>, Seq<EffectModel>),
                        FaultModel,
                    >(fault),
                },
                Arrival::Stopped => final(self)@ == old(self)@ && heard_view(heard) == Err::<
                    (Option<JsonModel>, Seq<EffectModel>),
                    FaultModel,
                >(invalid_data("DSH ACP reader stopped"@)),
                Arrival::Nothing => final(self)@ == old(self)@ && heard_view(heard) == Ok::<
                    (Option<JsonModel>, Seq<EffectModel>),
                    FaultModel,
                >((None, Seq::empty())),
            },
    {
        let frame = match arrival {
            Arrival::Frame(frame) => frame,
            Arrival::Stopped => {
                return Err(invalid("DSH ACP reader stopped"));
            },
            Arrival::Nothing => {
                return Ok(Heard { answer: None, effects: nothing() });
            },
        };
        let number = match frame.get("id") {
            Some(number) => number.unsigned(),
            None => None,
        };
        if number == Some(id) && !frame.has("method") {
            match read_answer(&frame) {
                Ok(answer) => Ok(Heard { answer: Some(answer), effects: nothing() }),
                Err(error) => Err(error),
            }
        } else if self.interactive {
            match self.frame(frame, now) {
                Ok(effects) => Ok(Heard { answer: None, effects }),
                Err(error) => Err(error),
            }
        } else if frame.has("id") {
            Err(invalid("catalog inspection cannot service agent requests"))
        } else {
            Ok(Heard { answer: None, effects: nothing() })
        }
    }

    /// Takes a key while an answer is waited for.
    pub fn response_key(&mut self, key: Key, now: &Json) -> (effects: Vec<Effect>)
        ensures
            (final(self)@, effects_view(effects@)) == old(self)@.keyed(key, now@),
    {
        if !key.press {
            return nothing();
        }
        match key.name {
            KeyName::Char(choice) => {
                if key.control && choice == 'c' {
                    if !self.session.as_str().is_empty() {
                        let session = Json::of_text(self.session.as_str());
                        let params = single_field("sessionId", session);
                        only(Effect::Send(notice_message("session/cancel", params)))
                    } else {
                        nothing()
                    }
                } else {
                    self.permission_choice(choice, now)
                }
            },
            _ => nothing(),
        }
    }

    /// Starts a turn. The request has the number that `sequence` holds afterwards.
    pub fn prompt(&mut self, prompt: &str, now: &Json) -> (step: Result<Vec<Effect>, DriverError>)
        requires
            old(self)@.sequence < u64::MAX,
        ensures
            match old(self)@.prompting(prompt@, now@) {
                Ok((next, effects)) => final(self)@ == next && step_view(step) == Ok::<
                    Seq<EffectModel>,
                    FaultModel,
                >(effects),
                Err(fault) => final(self)@ == old(self)@ && step_view(step) == Err::<
                    Seq<EffectModel>,
                    FaultModel,
                >(fault),
            },
    {
        if trim(prompt).as_str().is_empty() || byte_len(prompt) > MAX_TEXT {
            return Err(invalid("prompt must contain 1 to 131072 bytes"));
        }
        self.reply.clear();
        self.reply_truncated = false;
        self.prompt = Some((prompt.to_string(), now.clone()));
        let mut effects = self.report("working", now);
        let params = prompt_message(self.session.as_str(), prompt);
        let message = self.request("session/prompt", params);
        let ghost before = effects@;
        effects.push(Effect::Send(message));
        assert(effects_view(effects@) =~= effects_view(before).push(effects@.last()@));
        Ok(effects)
    }

    /// Ends a turn with the answer to its request.
    pub fn prompt_settled(&mut self, id: u64, result: &Json, now: &Json) -> (step: Result<
        Vec<Effect>,
        DriverError,
    >)
        ensures
            (final(self)@, step_view(step)) == old(self)@.settled(id, result@, now@),
    {
        self.permissions.clear();
        let mut intent: Option<(String, Json)> = None;
        std::mem::swap(&mut self.prompt, &mut intent);
        match intent {
            None => Err(invalid("missing prompt intent")),
            Some((prompt, submitted_at)) => {
                self.set("last_user_text", Json::Text(prompt));
                self.set("last_user_at", submitted_at);
                let reply = if self.reply_truncated {
                    Json::Null
                } else {
                    Json::of_text(self.reply.as_str())
                };
                self.set("last_assistant_text", reply);
                self.set("last_assistant_at", now.clone());
                self.set("stop_reason", result.copy_at("stopReason"));
                self.set("turn_id", Json::of_u64(id));
                let mut effects = self.report("idle", now);
                let ghost before = effects@;
                effects.push(Effect::Print("\r\n".to_string()));
                assert(effects_view(effects@) =~= effects_view(before).push(effects@.last()@));
                Ok(effects)
            },
        }
    }

    /// Takes the session that the agent opened.
    pub fn hold_session(&mut self, session: String, agent_info: Json)
        ensures
            final(self)@ == old(self)@.holding(session@, agent_info@),
    {
        let name = Json::of_text(session.as_str());
        self.session = session;
        self.set("native_id", name);
        self.set("agent_info", agent_info);
    }

    /// Tells the pane which session it has.
    pub fn report_session_start(&self, resumed: bool) -> (effects: Vec<Effect>)
        ensures
            effects_view(effects@) == self@.telling(ReportModel::Session { resumed }),
    {
        self.tell(Report::Session { resumed })
    }

    /// Starts to use a session.
    pub fn begin(
        &mut self,
        config: &Json,
        announcement: String,
        resumed: bool,
        now: &Json,
    ) -> (effects: Vec<Effect>)
        ensures
            (final(self)@, effects_view(effects@)) == old(self)@.beginning(
                config@,
                announcement@,
                resumed,
                now@,
            ),
    {
        self.remember_selection(config, now);
        let first = self.report_session_start(resumed);
        let second = self.report("idle", now);
        joined(joined(only(Effect::Print(announcement)), first), second)
    }

    /// Makes the driver one without a user, and without a pane to report to.
    pub fn inspect(&mut self)
        ensures
            final(self)@ == (DriverModel { interactive: false, pane: None, ..old(self)@ }),
            final(self)@ == old(self)@.inspecting(),
    {
        self.interactive = false;
        self.pane = None;
    }

    /// Keeps that the driver ends, and gives the pane back.
    pub fn exit(&mut self, now: &Json) -> (effects: Vec<Effect>)
        ensures
            (final(self)@, effects_view(effects@)) == old(self)@.exiting(now@),
    {
        self.set("lifecycle", Json::of_text("exited"));
        let kept = self.save(now);
        let told = self.tell(Report::Release);
        joined(kept, told)
    }
}

} // verus!
