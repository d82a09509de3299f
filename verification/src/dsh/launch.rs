//! How a session is launched: what is asked of the agent, in what order, and what its answers
//! have to say for the launch to go on.
use vstd::prelude::*;

use super::acp::{session_params, single_field};
use super::config::{configured, configured_value, confirm_selection, is_confirmed};
use super::error::{invalid, invalid_data, DriverError, ErrorKind, FaultModel};
use super::options::{law_options_go_together, parsed, Options, OptionsModel};
use super::record::restored;
use crate::json::{
    json_text, number_of, print_json, push_field, text_view, Json, JsonModel,
};
use crate::text::{safe, safe_text, text_eq};

verus! {

/// What the driver can do, for those who launch it.
pub open spec fn description_model() -> JsonModel {
    JsonModel::Table(
        map![
            "driver"@ => JsonModel::Text("herdr:dsh"@),
            "protocol"@ => JsonModel::Number(number_of(1)),
            "transport"@ => JsonModel::Text("acp-stdio"@),
            "launch"@ => JsonModel::Bool(true),
            "prompt"@ => JsonModel::Bool(true),
            "resume"@ => JsonModel::Bool(true),
            "catalog"@ => JsonModel::Bool(true),
            "permissions"@ => JsonModel::Text("interactive-once"@),
            "compact"@ => JsonModel::Bool(false),
            "update"@ => JsonModel::Bool(false),
        ],
    )
}

/// The arguments ask for a description only.
pub open spec fn wants_description(args: Seq<String>) -> bool {
    args.len() == 1 && args[0]@ == "--describe"@
}

/// Whether the arguments ask for a description only.
pub fn asks_description(args: &[String]) -> (b: bool)
    ensures
        b == (args@.len() == 1 && args@[0]@ == "--describe"@),
        b == wants_description(args@),
{
    args.len() == 1 && text_eq(args[0].as_str(), "--describe")
}

/// Says what the driver can do.
pub fn description() -> (json: Json)
    ensures
        json@ == description_model(),
{
    let mut fields: Vec<(String, Json)> = Vec::new();
    push_field(&mut fields, "driver", Json::of_text("herdr:dsh"));
    push_field(&mut fields, "protocol", Json::of_u64(1));
    push_field(&mut fields, "transport", Json::of_text("acp-stdio"));
    push_field(&mut fields, "launch", Json::Bool(true));
    push_field(&mut fields, "prompt", Json::Bool(true));
    push_field(&mut fields, "resume", Json::Bool(true));
    push_field(&mut fields, "catalog", Json::Bool(true));
    push_field(&mut fields, "permissions", Json::of_text("interactive-once"));
    push_field(&mut fields, "compact", Json::Bool(false));
    push_field(&mut fields, "update", Json::Bool(false));
    Json::Table(fields)
}

/// What is waited for.
#[derive(Debug, PartialEq, Eq)]
pub enum Phase {
    /// The agent introduces itself.
    Hello,
    /// The session is opened.
    Opening,
    /// The session is recorded.
    Recording,
    /// A selection is acknowledged: of the effort, or of the model.
    Confirming { effort: bool, value: String },
    /// The session is in use.
    Ready,
    /// The session is closed, after a failure or without one.
    Closing { failure: Option<Failure> },
    /// Nothing any more.
    Ended,
}

/// Why a launch fails.
#[derive(Debug, PartialEq, Eq)]
pub enum Failure {
    /// An answer does not do.
    Own(DriverError),
    /// Something that was to be done failed: the first that did.
    Outside,
}

/// A launch under way.
#[derive(Debug, PartialEq)]
pub struct Launch {
    pub options: Options,
    pub cwd: String,
    pub phase: Phase,
    pub session: String,
    /// What the agent says of itself.
    pub agent_info: Json,
    /// The configuration options that the agent advertised last.
    pub config: Json,
}

/// What came of what was to be done.
#[derive(Debug, PartialEq)]
pub enum LaunchEvent {
    /// A request was answered.
    Answered(Json),
    /// The session is recorded.
    Recorded,
    /// The user leaves.
    Left,
    /// It failed.
    Failed,
}

/// What is to be done next.
#[derive(Debug, PartialEq)]
pub enum LaunchAction {
    /// Ask the agent.
    Call { method: String, params: Json },
    /// Hold the session and record how it was launched.
    Record { session: String, agent_info: Json },
    /// Use the session, and start with that prompt.
    Use { resumed: bool, config: Json, announcement: String, initial: Option<String> },
    /// End, and show that.
    Finish { shown: String },
    /// End with an error.
    Fail(Failure),
    /// Nothing: the event does not belong here.
    Wait,
}

/// The content of a `Failure`.
pub enum FailureModel {
    Own(FaultModel),
    Outside,
}

/// The content of a `Phase`.
pub enum PhaseModel {
    Hello,
    Opening,
    Recording,
    Confirming { effort: bool, value: Seq<char> },
    Ready,
    Closing { failure: Option<FailureModel> },
    Ended,
}

/// The content of a `Launch`.
pub struct LaunchModel {
    pub options: OptionsModel,
    pub cwd: Seq<char>,
    pub phase: PhaseModel,
    pub session: Seq<char>,
    pub agent_info: JsonModel,
    pub config: JsonModel,
}

/// The content of a `LaunchEvent`.
pub enum LaunchEventModel {
    Answered(JsonModel),
    Recorded,
    Left,
    Failed,
}

/// The content of a `LaunchAction`.
pub enum LaunchActionModel {
    Call { method: Seq<char>, params: JsonModel },
    Record { session: Seq<char>, agent_info: JsonModel },
    Use {
        resumed: bool,
        config: JsonModel,
        announcement: Seq<char>,
        initial: Option<Seq<char>>,
    },
    Finish { shown: Seq<char> },
    Fail(FailureModel),
    Wait,
}

impl View for Failure {
    type V = FailureModel;

    open spec fn view(&self) -> FailureModel {
        match *self {
            Failure::Own(error) => FailureModel::Own(error@),
            Failure::Outside => FailureModel::Outside,
        }
    }
}

impl View for Phase {
    type V = PhaseModel;

    open spec fn view(&self) -> PhaseModel {
        match *self {
            Phase::Hello => PhaseModel::Hello,
            Phase::Opening => PhaseModel::Opening,
            Phase::Recording => PhaseModel::Recording,
            Phase::Confirming { effort, value } => PhaseModel::Confirming { effort, value: value@ },
            Phase::Ready => PhaseModel::Ready,
            Phase::Closing { failure } => PhaseModel::Closing {
                failure: match failure {
                    Some(failure) => Some(failure@),
                    None => None,
                },
            },
            Phase::Ended => PhaseModel::Ended,
        }
    }
}

impl View for Launch {
    type V = LaunchModel;

    open spec fn view(&self) -> LaunchModel {
        LaunchModel {
            options: self.options@,
            cwd: self.cwd@,
            phase: self.phase@,
            session: self.session@,
            agent_info: self.agent_info@,
            config: self.config@,
        }
    }
}

impl View for LaunchEvent {
    type V = LaunchEventModel;

    open spec fn view(&self) -> LaunchEventModel {
        match *self {
            LaunchEvent::Answered(answer) => LaunchEventModel::Answered(answer@),
            LaunchEvent::Recorded => LaunchEventModel::Recorded,
            LaunchEvent::Left => LaunchEventModel::Left,
            LaunchEvent::Failed => LaunchEventModel::Failed,
        }
    }
}

impl View for LaunchAction {
    type V = LaunchActionModel;

    open spec fn view(&self) -> LaunchActionModel {
        match *self {
            LaunchAction::Call { method, params } => LaunchActionModel::Call {
                method: method@,
                params: params@,
            },
            LaunchAction::Record { session, agent_info } => LaunchActionModel::Record {
                session: session@,
                agent_info: agent_info@,
            },
            LaunchAction::Use { resumed, config, announcement, initial } => LaunchActionModel::Use {
                resumed,
                config: config@,
                announcement: announcement@,
                initial: text_view(initial),
            },
            LaunchAction::Finish { shown } => LaunchActionModel::Finish { shown: shown@ },
            LaunchAction::Fail(failure) => LaunchActionModel::Fail(failure@),
            LaunchAction::Wait => LaunchActionModel::Wait,
        }
    }
}

/// How the driver introduces itself.
pub open spec fn hello_params(name: Seq<char>, version: Seq<char>) -> JsonModel {
    JsonModel::Table(
        map![
            "protocolVersion"@ => JsonModel::Number(number_of(1)),
            "clientCapabilities"@ => JsonModel::Table(Map::empty()),
            "clientInfo"@ => JsonModel::Table(
                map!["name"@ => JsonModel::Text(name), "version"@ => JsonModel::Text(version)],
            ),
        ],
    )
}

/// What the agent can do with sessions.
pub open spec fn session_capabilities(hello: JsonModel) -> JsonModel {
    hello.at("agentCapabilities"@).at("sessionCapabilities"@)
}

/// The agent speaks the protocol, and can close a session.
pub open spec fn is_supported(hello: JsonModel) -> bool {
    hello.at("protocolVersion"@).unsigned() == Some(1u64) && session_capabilities(hello).get(
        "close"@,
    ) is Some
}

/// How a session is opened.
pub open spec fn open_params(cwd: Seq<char>, resume: Option<Seq<char>>) -> JsonModel {
    let fresh = map![
        "cwd"@ => JsonModel::Text(cwd),
        "mcpServers"@ => JsonModel::List(Seq::empty()),
    ];
    JsonModel::Table(
        match resume {
            Some(session) => fresh.insert("sessionId"@, JsonModel::Text(session)),
            None => fresh,
        },
    )
}

/// How a configuration option is set.
pub open spec fn config_params(session: Seq<char>, id: Seq<char>, value: Seq<char>) -> JsonModel {
    JsonModel::Table(
        map![
            "sessionId"@ => JsonModel::Text(session),
            "configId"@ => JsonModel::Text(id),
            "value"@ => JsonModel::Text(value),
        ],
    )
}

/// The configuration option that is selected.
pub open spec fn config_id(effort: bool) -> Seq<char> {
    if effort {
        "reasoning_effort"@
    } else {
        "model"@
    }
}

/// What an inspection finds.
pub open spec fn catalog_model(config: JsonModel) -> JsonModel {
    JsonModel::Table(
        map![
            "driver"@ => JsonModel::Text("herdr:dsh"@),
            "protocol"@ => JsonModel::Number(number_of(1)),
            "config_options"@ => config,
        ],
    )
}

/// What the user is told of the session.
pub open spec fn announcement(session: Seq<char>) -> Seq<char> {
    "DSH session "@ + safe(session) + "\r\nUse /exit to close; Ctrl-C cancels active work.\r\n"@
}

/// How a launch starts: the driver introduces itself.
pub open spec fn launching(options: OptionsModel, cwd: Seq<char>, version: Seq<char>) -> (
    LaunchModel,
    LaunchActionModel,
) {
    (
        LaunchModel {
            options,
            cwd,
            phase: PhaseModel::Hello,
            session: Seq::empty(),
            agent_info: JsonModel::Null,
            config: JsonModel::Null,
        },
        LaunchActionModel::Call {
            method: "initialize"@,
            params: hello_params(
                if options.catalog {
                    "herdr-catalog"@
                } else {
                    "herdr"@
                },
                version,
            ),
        },
    )
}

impl LaunchModel {
    /// The session that is resumed. An inspection resumes none.
    pub open spec fn resume(self) -> Option<Seq<char>> {
        if self.options.catalog {
            None
        } else {
            self.options.resume
        }
    }

    /// What is wanted of a configuration option.
    pub open spec fn wanted(self, effort: bool) -> Option<Seq<char>> {
        if effort {
            self.options.effort
        } else {
            self.options.model
        }
    }

    /// The launch in another phase.
    pub open spec fn to(self, phase: PhaseModel) -> LaunchModel {
        LaunchModel { phase, ..self }
    }

    /// Ends with an error.
    pub open spec fn failed(self, failure: FailureModel) -> (LaunchModel, LaunchActionModel) {
        (self.to(PhaseModel::Ended), LaunchActionModel::Fail(failure))
    }

    /// Closes the session.
    pub open spec fn closing(self, failure: Option<FailureModel>) -> (
        LaunchModel,
        LaunchActionModel,
    ) {
        (
            self.to(PhaseModel::Closing { failure }),
            LaunchActionModel::Call {
                method: "session/close"@,
                params: session_params(self.session),
            },
        )
    }

    /// Cannot select what is wanted. An inspection closes its session all the same.
    pub open spec fn unselected(self, failure: FailureModel) -> (LaunchModel, LaunchActionModel) {
        if self.options.catalog {
            self.closing(Some(failure))
        } else {
            self.failed(failure)
        }
    }

    /// All that is wanted is selected.
    pub open spec fn selected(self) -> (LaunchModel, LaunchActionModel) {
        if self.options.catalog {
            self.closing(None)
        } else {
            (
                self.to(PhaseModel::Ready),
                LaunchActionModel::Use {
                    resumed: self.resume() is Some,
                    config: self.config,
                    announcement: announcement(self.session),
                    initial: self.options.initial,
                },
            )
        }
    }

    /// Asks for one selection that is wanted.
    pub open spec fn asking(self, effort: bool, requested: Seq<char>) -> (
        LaunchModel,
        LaunchActionModel,
    ) {
        match configured(self.config, config_id(effort), requested) {
            Err(fault) => self.unselected(FailureModel::Own(fault)),
            Ok(value) => (
                self.to(PhaseModel::Confirming { effort, value }),
                LaunchActionModel::Call {
                    method: "session/set_config_option"@,
                    params: config_params(self.session, config_id(effort), value),
                },
            ),
        }
    }

    /// Goes on to the effort.
    pub open spec fn selecting_effort(self) -> (LaunchModel, LaunchActionModel) {
        match self.wanted(true) {
            Some(requested) => self.asking(true, requested),
            None => self.selected(),
        }
    }

    /// Goes on to the model, and then to the effort.
    pub open spec fn selecting(self) -> (LaunchModel, LaunchActionModel) {
        match self.wanted(false) {
            Some(requested) => self.asking(false, requested),
            None => self.selecting_effort(),
        }
    }

    /// The agent introduced itself.
    pub open spec fn greeted(self, hello: JsonModel) -> (LaunchModel, LaunchActionModel) {
        if !is_supported(hello) {
            self.failed(
                FailureModel::Own(invalid_data("DSH ACP v1 with session/close is required"@)),
            )
        } else if self.resume() is Some && session_capabilities(hello).get("resume"@) is None {
            self.failed(FailureModel::Own(invalid_data("DSH does not support resume"@)))
        } else {
            (
                LaunchModel {
                    agent_info: hello.at("agentInfo"@),
                    phase: PhaseModel::Opening,
                    ..self
                },
                LaunchActionModel::Call {
                    method: if self.resume() is Some {
                        "session/resume"@
                    } else {
                        "session/new"@
                    },
                    params: open_params(self.cwd, self.resume()),
                },
            )
        }
    }

    /// The name of the session that was opened, if it has one.
    pub open spec fn session_in(self, result: JsonModel) -> Option<Seq<char>> {
        let name = match result.at("sessionId"@).text() {
            Some(name) => Some(name),
            None => self.resume(),
        };
        if name matches Some(text) && text.len() > 0 {
            name
        } else {
            None
        }
    }

    /// The session is open.
    pub open spec fn opened(self, result: JsonModel) -> (LaunchModel, LaunchActionModel) {
        match self.session_in(result) {
            None => self.failed(
                FailureModel::Own(invalid_data("DSH returned no session identity"@)),
            ),
            Some(session) => {
                let held = LaunchModel { session, config: result.at("configOptions"@), ..self };
                if self.options.catalog {
                    held.selecting()
                } else {
                    (
                        held.to(PhaseModel::Recording),
                        LaunchActionModel::Record { session, agent_info: self.agent_info },
                    )
                }
            },
        }
    }

    /// A selection is answered: it has to be acknowledged as it was asked for.
    pub open spec fn answered(self, effort: bool, value: Seq<char>, result: JsonModel) -> (
        LaunchModel,
        LaunchActionModel,
    ) {
        let next = LaunchModel { config: result.at("configOptions"@), ..self };
        if !is_confirmed(next.config, config_id(effort), value) {
            next.unselected(
                FailureModel::Own(
                    invalid_data("DSH did not acknowledge the requested selection"@),
                ),
            )
        } else if effort {
            next.selected()
        } else {
            next.selecting_effort()
        }
    }

    /// The session is closed, or could not be. A failure before that is the one that counts.
    pub open spec fn closed(self, failure: Option<FailureModel>, answered: bool) -> (
        LaunchModel,
        LaunchActionModel,
    ) {
        match failure {
            Some(failure) => self.failed(failure),
            None => if !answered {
                self.failed(FailureModel::Outside)
            } else {
                (
                    self.to(PhaseModel::Ended),
                    LaunchActionModel::Finish {
                        shown: if self.options.catalog {
                            json_text(catalog_model(self.config)) + "\n"@
                        } else {
                            Seq::empty()
                        },
                    },
                )
            },
        }
    }

    /// How a launch goes on after an event, and what is to be done.
    pub open spec fn advance(self, event: LaunchEventModel) -> (LaunchModel, LaunchActionModel) {
        match (self.phase, event) {
            (PhaseModel::Hello, LaunchEventModel::Answered(hello)) => self.greeted(hello),
            (PhaseModel::Opening, LaunchEventModel::Answered(result)) => self.opened(result),
            (PhaseModel::Recording, LaunchEventModel::Recorded) => self.selecting(),
            (
                PhaseModel::Confirming { effort, value },
                LaunchEventModel::Answered(result),
            ) => self.answered(effort, value, result),
            (PhaseModel::Confirming { .. }, LaunchEventModel::Failed) => self.unselected(
                FailureModel::Outside,
            ),
            (PhaseModel::Ready, LaunchEventModel::Left) => self.closing(None),
            (PhaseModel::Closing { failure }, LaunchEventModel::Answered(_)) => self.closed(
                failure,
                true,
            ),
            (PhaseModel::Closing { failure }, LaunchEventModel::Failed) => self.closed(
                failure,
                false,
            ),
            (PhaseModel::Ended, _) => (self, LaunchActionModel::Wait),
            (_, LaunchEventModel::Failed) => self.failed(FailureModel::Outside),
            _ => (self, LaunchActionModel::Wait),
        }
    }
}

/// Writes how the driver introduces itself.
fn hello_message(name: &str, version: &str) -> (params: Json)
    ensures
        params@ == hello_params(name@, version@),
{
    let mut info: Vec<(String, Json)> = Vec::new();
    push_field(&mut info, "name", Json::of_text(name));
    push_field(&mut info, "version", Json::of_text(version));
    let mut fields: Vec<(String, Json)> = Vec::new();
    push_field(&mut fields, "protocolVersion", Json::of_u64(1));
    push_field(&mut fields, "clientCapabilities", Json::Table(Vec::new()));
    push_field(&mut fields, "clientInfo", Json::Table(info));
    Json::Table(fields)
}

/// Writes how a session is opened.
fn open_message(cwd: &str, resume: &Option<String>) -> (params: Json)
    ensures
        params@ == open_params(cwd@, text_view(*resume)),
{
    let mut fields: Vec<(String, Json)> = Vec::new();
    push_field(&mut fields, "cwd", Json::of_text(cwd));
    push_field(&mut fields, "mcpServers", Json::List(Vec::new()));
    if let Some(session) = resume {
        push_field(&mut fields, "sessionId", Json::of_text(session.as_str()));
    }
    Json::Table(fields)
}

/// Writes how a configuration option is set.
fn config_message(session: &str, id: &str, value: &str) -> (params: Json)
    ensures
        params@ == config_params(session@, id@, value@),
{
    let mut fields: Vec<(String, Json)> = Vec::new();
    push_field(&mut fields, "sessionId", Json::of_text(session));
    push_field(&mut fields, "configId", Json::of_text(id));
    push_field(&mut fields, "value", Json::of_text(value));
    Json::Table(fields)
}

/// Writes what an inspection finds.
fn catalog_text(config: &Json) -> (text: String)
    ensures
        text@ == json_text(catalog_model(config@)) + "\n"@,
{
    let mut fields: Vec<(String, Json)> = Vec::new();
    push_field(&mut fields, "driver", Json::of_text("herdr:dsh"));
    push_field(&mut fields, "protocol", Json::of_u64(1));
    push_field(&mut fields, "config_options", config.clone());
    let mut text = print_json(&Json::Table(fields));
    text.push_str("\n");
    text
}

/// Writes what the user is told of the session.
fn announce(session: &str) -> (text: String)
    ensures
        text@ == announcement(session@),
{
    let mut text = "DSH session ".to_string();
    text.push_str(safe_text(session).as_str());
    text.push_str("\r\nUse /exit to close; Ctrl-C cancels active work.\r\n");
    text
}

/// Names the configuration option that is selected.
fn config_name(effort: bool) -> (id: &'static str)
    ensures
        id@ == config_id(effort),
{
    if effort {
        "reasoning_effort"
    } else {
        "model"
    }
}

/// Copies an optional text.
fn copied(text: &Option<String>) -> (copy: Option<String>)
    ensures
        text_view(copy) == text_view(*text),
{
    match text {
        Some(s) => Some(s.clone()),
        None => None,
    }
}

impl Launch {
    /// Starts a launch.
    pub fn start(options: Options, cwd: &str, version: &str) -> (started: (Launch, LaunchAction))
        ensures
            (started.0@, started.1@) == launching(options@, cwd@, version@),
    {
        let name = if options.catalog {
            "herdr-catalog"
        } else {
            "herdr"
        };
        let action = LaunchAction::Call {
            method: "initialize".to_string(),
            params: hello_message(name, version),
        };
        let launch = Launch {
            options,
            cwd: cwd.to_string(),
            phase: Phase::Hello,
            session: String::new(),
            agent_info: Json::Null,
            config: Json::Null,
        };
        (launch, action)
    }

    /// The session that is resumed.
    fn resumed(&self) -> (session: Option<String>)
        ensures
            text_view(session) == self@.resume(),
    {
        if self.options.catalog {
            None
        } else {
            copied(&self.options.resume)
        }
    }

    fn fail(&mut self, failure: Failure) -> (action: LaunchAction)
        ensures
            (final(self)@, action@) == old(self)@.failed(failure@),
    {
        self.phase = Phase::Ended;
        LaunchAction::Fail(failure)
    }

    fn refuse(&mut self, message: &str) -> (action: LaunchAction)
        ensures
            (final(self)@, action@) == old(self)@.failed(FailureModel::Own(invalid_data(message@))),
    {
        self.fail(Failure::Own(invalid(message)))
    }

    fn close(&mut self, failure: Option<Failure>) -> (action: LaunchAction)
        ensures
            (final(self)@, action@) == old(self)@.closing(
                match failure {
                    Some(failure) => Some(failure@),
                    None => None,
                },
            ),
    {
        self.phase = Phase::Closing { failure };
        let session = Json::of_text(self.session.as_str());
        LaunchAction::Call {
            method: "session/close".to_string(),
            params: single_field("sessionId", session),
        }
    }

    fn give_up(&mut self, failure: Failure) -> (action: LaunchAction)
        ensures
            (final(self)@, action@) == old(self)@.unselected(failure@),
    {
        if self.options.catalog {
            self.close(Some(failure))
        } else {
            self.fail(failure)
        }
    }

    fn finish_selection(&mut self) -> (action: LaunchAction)
        ensures
            (final(self)@, action@) == old(self)@.selected(),
    {
        if self.options.catalog {
            self.close(None)
        } else {
            self.phase = Phase::Ready;
            LaunchAction::Use {
                resumed: self.resumed().is_some(),
                config: self.config.clone(),
                announcement: announce(self.session.as_str()),
                initial: copied(&self.options.initial),
            }
        }
    }

    fn select(&mut self, effort: bool, requested: &str) -> (action: LaunchAction)
        ensures
            (final(self)@, action@) == old(self)@.asking(effort, requested@),
    {
        let id = config_name(effort);
        match configured_value(&self.config, id, requested) {
            Err(error) => self.give_up(Failure::Own(error)),
            Ok(value) => {
                let params = config_message(self.session.as_str(), id, value.as_str());
                self.phase = Phase::Confirming { effort, value };
                LaunchAction::Call { method: "session/set_config_option".to_string(), params }
            },
        }
    }

    fn select_effort(&mut self) -> (action: LaunchAction)
        ensures
            (final(self)@, action@) == old(self)@.selecting_effort(),
    {
        match copied(&self.options.effort) {
            Some(requested) => self.select(true, requested.as_str()),
            None => self.finish_selection(),
        }
    }

    fn select_model(&mut self) -> (action: LaunchAction)
        ensures
            (final(self)@, action@) == old(self)@.selecting(),
    {
        match copied(&self.options.model) {
            Some(requested) => self.select(false, requested.as_str()),
            None => self.select_effort(),
        }
    }

    fn greet(&mut self, hello: Json) -> (action: LaunchAction)
        ensures
            (final(self)@, action@) == old(self)@.greeted(hello@),
    {
        let capabilities = hello.copy_at("agentCapabilities").copy_at("sessionCapabilities");
        if hello.copy_at("protocolVersion").unsigned() != Some(1u64) || !capabilities.has("close") {
            return self.refuse("DSH ACP v1 with session/close is required");
        }
        let resume = self.resumed();
        if resume.is_some() && !capabilities.has("resume") {
            return self.refuse("DSH does not support resume");
        }
        self.agent_info = hello.copy_at("agentInfo");
        self.phase = Phase::Opening;
        let method = if resume.is_some() {
            "session/resume"
        } else {
            "session/new"
        };
        LaunchAction::Call {
            method: method.to_string(),
            params: open_message(self.cwd.as_str(), &resume),
        }
    }

    fn open(&mut self, result: Json) -> (action: LaunchAction)
        ensures
            (final(self)@, action@) == old(self)@.opened(result@),
    {
        let name = match result.text_at("sessionId") {
            Some(name) => Some(name.to_string()),
            None => self.resumed(),
        };
        let session = match name {
            Some(session) => session,
            None => {
                return self.refuse("DSH returned no session identity");
            },
        };
        if session.as_str().is_empty() {
            return self.refuse("DSH returned no session identity");
        }
        self.session = session;
        self.config = result.copy_at("configOptions");
        if self.options.catalog {
            self.select_model()
        } else {
            self.phase = Phase::Recording;
            LaunchAction::Record {
                session: self.session.clone(),
                agent_info: self.agent_info.clone(),
            }
        }
    }

    fn confirm(&mut self, effort: bool, value: &str, result: Json) -> (action: LaunchAction)
        ensures
            (final(self)@, action@) == old(self)@.answered(effort, value@, result@),
    {
        self.config = result.copy_at("configOptions");
        match confirm_selection(&self.config, config_name(effort), value) {
            Err(error) => self.give_up(Failure::Own(error)),
            Ok(_) => if effort {
                self.finish_selection()
            } else {
                self.select_effort()
            },
        }
    }

    fn end(&mut self, failure: Option<Failure>, answered: bool) -> (action: LaunchAction)
        ensures
            (final(self)@, action@) == old(self)@.closed(
                match failure {
                    Some(failure) => Some(failure@),
                    None => None,
                },
                answered,
            ),
    {
        match failure {
            Some(failure) => self.fail(failure),
            None => if !answered {
                self.fail(Failure::Outside)
            } else {
                self.phase = Phase::Ended;
                let shown = if self.options.catalog {
                    catalog_text(&self.config)
                } else {
                    String::new()
                };
                LaunchAction::Finish { shown }
            },
        }
    }

    /// Takes what came of what was to be done, and says what is to be done next.
    pub fn step(&mut self, event: LaunchEvent) -> (action: LaunchAction)
        ensures
            (final(self)@, action@) == old(self)@.advance(event@),
    {
        let mut phase = Phase::Ended;
        std::mem::swap(&mut phase, &mut self.phase);
        match (phase, event) {
            (Phase::Hello, LaunchEvent::Answered(hello)) => self.greet(hello),
            (Phase::Opening, LaunchEvent::Answered(result)) => self.open(result),
            (Phase::Recording, LaunchEvent::Recorded) => self.select_model(),
            (Phase::Confirming { effort, value }, LaunchEvent::Answered(result)) => self.confirm(
                effort,
                value.as_str(),
                result,
            ),
            (Phase::Confirming { .. }, LaunchEvent::Failed) => self.give_up(Failure::Outside),
            (Phase::Ready, LaunchEvent::Left) => self.close(None),
            (Phase::Closing { failure }, LaunchEvent::Answered(_)) => self.end(failure, true),
            (Phase::Closing { failure }, LaunchEvent::Failed) => self.end(failure, false),
            (Phase::Ended, _) => LaunchAction::Wait,
            (_, LaunchEvent::Failed) => self.fail(Failure::Outside),
            (phase, _) => {
                self.phase = phase;
                LaunchAction::Wait
            },
        }
    }
}

/// A phase that an inspection can be in.
pub open spec fn is_inspection(launch: LaunchModel) -> bool {
    launch.options.catalog && !(launch.phase is Recording) && !(launch.phase is Ready)
}

/// An inspection opens a session, selects in it and closes it, and does nothing else: it resumes,
/// records and uses none, and so never prompts. Once its session is open it does not end before it
/// asked for the session to be closed, whatever fails.
pub proof fn law_inspections_close_their_session(
    options: OptionsModel,
    cwd: Seq<char>,
    version: Seq<char>,
    launch: LaunchModel,
    event: LaunchEventModel,
)
    requires
        options.catalog,
        is_inspection(launch),
    ensures
        is_inspection(launching(options, cwd, version).0),
        ({
            let (next, action) = launch.advance(event);
            &&& is_inspection(next)
            &&& !(action is Record) && !(action is Use)
            &&& action matches LaunchActionModel::Call { method, .. } ==> method == "session/new"@
                || method == "session/set_config_option"@ || method == "session/close"@
            &&& launch.phase is Confirming ==> next.phase is Confirming || next.phase is Closing
                || next == launch
            &&& next.phase is Closing && !(launch.phase is Closing) ==> action
                == (LaunchActionModel::Call {
                method: "session/close"@,
                params: session_params(next.session),
            })
            &&& launch.phase is Opening && next.phase is Ended ==> event is Failed || (
            event matches LaunchEventModel::Answered(result) && launch.session_in(result) is None)
        }),
{
}

/// A session is used only after the agent acknowledged each selection that was wanted, as it was
/// asked for. The last one asked for is acknowledged by the answer that leads there.
pub proof fn law_sessions_are_used_as_selected(launch: LaunchModel, event: LaunchEventModel)
    ensures
        launch.advance(event).1 is Use ==> match launch.phase {
            PhaseModel::Recording => launch.options.model is None && launch.options.effort is None,
            PhaseModel::Confirming { effort, value } => {
                &&& !effort ==> launch.options.effort is None
                &&& event matches LaunchEventModel::Answered(result) && is_confirmed(
                    result.at("configOptions"@),
                    config_id(effort),
                    value,
                )
            },
            _ => false,
        },
        launch.phase matches PhaseModel::Confirming { effort: false, value } ==> {
            let (next, action) = launch.advance(event);
            next.phase matches PhaseModel::Confirming { effort: true, .. } ==> (
            event matches LaunchEventModel::Answered(result) && is_confirmed(
                result.at("configOptions"@),
                config_id(false),
                value,
            ))
        },
{
}

/// What is set is what the agent advertised for what was asked for, and it is asked of the session
/// that was opened.
pub proof fn law_only_configured_values_are_set(launch: LaunchModel, event: LaunchEventModel)
    ensures
        ({
            let (next, action) = launch.advance(event);
            next.phase != launch.phase ==> (next.phase matches PhaseModel::Confirming {
                effort,
                value,
            } ==> {
                &&& next.wanted(effort) matches Some(requested) && configured(
                    next.config,
                    config_id(effort),
                    requested,
                ) == Ok::<Seq<char>, FaultModel>(value)
                &&& action == (LaunchActionModel::Call {
                    method: "session/set_config_option"@,
                    params: config_params(next.session, config_id(effort), value),
                })
            })
        }),
{
}

/// A session that is resumed is never started with a prompt, neither with options as they were read
/// from arguments nor with ones that a record filled in; and a launch keeps its options.
pub proof fn law_resumed_sessions_are_not_prompted(
    args: Seq<String>,
    journal_is_absolute: bool,
    record: JsonModel,
    launch: LaunchModel,
    event: LaunchEventModel,
)
    ensures
        launch.advance(event).0.options == launch.options,
        parsed(args, journal_is_absolute) matches Ok(options) ==> (launch.options == options
            || restored(options, record, launch.cwd) == Ok::<OptionsModel, FaultModel>(
            launch.options,
        )) ==> (launch.advance(event).1 matches LaunchActionModel::Use { resumed, initial, .. }
            ==> resumed ==> initial is None),
{
    law_options_go_together(args, journal_is_absolute);
}

/// Whatever happens, a launch keeps its options and its directory. A session is used with the prompt
/// that the options have and with no other, as a resumed one exactly if the options resume one, with
/// the configuration that is held then, and announced by its name; an inspection never uses one.
pub proof fn law_sessions_are_used_with_their_prompt(launch: LaunchModel, event: LaunchEventModel)
    ensures
        ({
            let (next, action) = launch.advance(event);
            &&& next.options == launch.options && next.cwd == launch.cwd
            &&& action matches LaunchActionModel::Use { resumed, config, announcement, initial }
                ==> {
                &&& initial == launch.options.initial
                &&& resumed <==> launch.options.resume is Some
                &&& !launch.options.catalog
                &&& config == next.config
                &&& announcement == "DSH session "@ + safe(launch.session)
                    + "\r\nUse /exit to close; Ctrl-C cancels active work.\r\n"@
                &&& next.session == launch.session && next.agent_info == launch.agent_info
                &&& next.phase is Ready
            }
        }),
{
}

/// A launch starts with the options, the directory and nothing else, and introduces the driver: as
/// `herdr-catalog` for an inspection and as `herdr` else, with its version.
pub proof fn law_launches_start_with_an_introduction(
    options: OptionsModel,
    cwd: Seq<char>,
    version: Seq<char>,
    name: Seq<char>,
)
    ensures
        ({
            let (launch, action) = launching(options, cwd, version);
            &&& launch.options == options && launch.cwd == cwd && launch.phase is Hello
            &&& launch.session.len() == 0 && launch.agent_info is Null && launch.config is Null
            &&& action matches LaunchActionModel::Call { method, params } && {
                let info = params.at("clientInfo"@);
                &&& method == "initialize"@
                &&& params.at("protocolVersion"@) == JsonModel::Number(number_of(1))
                &&& params.at("clientCapabilities"@) == JsonModel::Table(Map::empty())
                &&& options.catalog ==> info.at("name"@) == JsonModel::Text("herdr-catalog"@)
                &&& !options.catalog ==> info.at("name"@) == JsonModel::Text("herdr"@)
                &&& info.at("version"@) == JsonModel::Text(version)
                &&& name != "protocolVersion"@ && name != "clientCapabilities"@ && name
                    != "clientInfo"@ ==> params.get(name) is None
                &&& name != "name"@ && name != "version"@ ==> info.get(name) is None
            }
        }),
{
    reveal_strlit("protocolVersion");
    reveal_strlit("clientCapabilities");
    reveal_strlit("clientInfo");
    reveal_strlit("name");
    reveal_strlit("version");
    assert("protocolVersion"@.len() == 15);
    assert("clientCapabilities"@.len() == 18);
    assert("clientInfo"@.len() == 10);
    assert("name"@.len() == 4);
    assert("version"@.len() == 7);
}

/// A session is opened where the agent speaks version 1 of the protocol, can close a session and, if
/// one is resumed, can resume it: a new one in the directory, or the one that is named. What the agent
/// says of itself is kept. Any other agent is refused, for what it lacks.
pub proof fn law_sessions_are_opened_where_they_can_be(
    launch: LaunchModel,
    hello: JsonModel,
    name: Seq<char>,
)
    requires
        launch.phase is Hello,
    ensures
        ({
            let (next, action) = launch.advance(LaunchEventModel::Answered(hello));
            let able = hello.at("agentCapabilities"@).at("sessionCapabilities"@);
            let speaks = hello.at("protocolVersion"@).unsigned() == Some(1u64);
            let closes = able.get("close"@) is Some;
            let resumes = able.get("resume"@) is Some;
            let wanted = !launch.options.catalog && launch.options.resume is Some;
            &&& !speaks || !closes ==> next.phase is Ended && action == LaunchActionModel::Fail(
                FailureModel::Own(
                    FaultModel {
                        kind: ErrorKind::InvalidData,
                        message: "DSH ACP v1 with session/close is required"@,
                    },
                ),
            )
            &&& speaks && closes && wanted && !resumes ==> next.phase is Ended && action
                == LaunchActionModel::Fail(
                FailureModel::Own(
                    FaultModel {
                        kind: ErrorKind::InvalidData,
                        message: "DSH does not support resume"@,
                    },
                ),
            )
            &&& speaks && closes && (wanted ==> resumes) ==> {
                &&& next == (LaunchModel {
                    phase: PhaseModel::Opening,
                    agent_info: hello.at("agentInfo"@),
                    ..launch
                })
                &&& action matches LaunchActionModel::Call { method, params } && {
                    &&& params.at("cwd"@) == JsonModel::Text(launch.cwd)
                    &&& params.at("mcpServers"@) == JsonModel::List(Seq::empty())
                    &&& !wanted ==> method == "session/new"@ && params.get("sessionId"@) is None
                    &&& wanted ==> method == "session/resume"@ && (
                    launch.options.resume matches Some(session) && params.at("sessionId"@)
                        == JsonModel::Text(session))
                    &&& name != "cwd"@ && name != "mcpServers"@ && name != "sessionId"@
                        ==> params.get(name) is None
                }
            }
        }),
{
    lemma_parameters();
}

proof fn lemma_parameters()
    ensures
        "cwd"@.len() == 3 && "mcpServers"@.len() == 10 && "sessionId"@.len() == 9,
        "configId"@.len() == 8 && "value"@.len() == 5,
{
    reveal_strlit("cwd");
    reveal_strlit("mcpServers");
    reveal_strlit("sessionId");
    reveal_strlit("configId");
    reveal_strlit("value");
}

/// A session that was opened has the name that the agent gives it, or else the one that was resumed.
/// With a name it is recorded, with what the agent says of itself, or inspected; without one the launch
/// fails.
pub proof fn law_sessions_are_held_by_their_name(launch: LaunchModel, result: JsonModel)
    requires
        launch.phase is Opening,
    ensures
        ({
            let (next, action) = launch.advance(LaunchEventModel::Answered(result));
            let given = match result.at("sessionId"@) {
                JsonModel::Text(name) => name,
                _ => match launch.options.resume {
                    Some(name) => if launch.options.catalog {
                        Seq::empty()
                    } else {
                        name
                    },
                    None => Seq::empty(),
                },
            };
            &&& given.len() == 0 ==> next == (LaunchModel { phase: PhaseModel::Ended, ..launch })
                && action == LaunchActionModel::Fail(
                FailureModel::Own(
                    FaultModel {
                        kind: ErrorKind::InvalidData,
                        message: "DSH returned no session identity"@,
                    },
                ),
            )
            &&& given.len() > 0 ==> next.session == given && next.config == result.at(
                "configOptions"@,
            ) && next.agent_info == launch.agent_info
            &&& given.len() > 0 && !launch.options.catalog ==> next.phase is Recording && action
                == (LaunchActionModel::Record { session: given, agent_info: launch.agent_info })
            &&& given.len() > 0 && launch.options.catalog ==> (next, action) == (LaunchModel {
                phase: PhaseModel::Recording,
                ..next
            }).advance(LaunchEventModel::Recorded)
        }),
{
}

/// Asks for that value of that option in the session, and waits for it to be acknowledged.
pub open spec fn asks_for(
    launch: LaunchModel,
    next: LaunchModel,
    action: LaunchActionModel,
    effort: bool,
    id: Seq<char>,
    value: Seq<char>,
) -> bool {
    &&& next == (LaunchModel { phase: PhaseModel::Confirming { effort, value }, ..launch })
    &&& action matches LaunchActionModel::Call { method, params } && {
        &&& method == "session/set_config_option"@
        &&& params.at("sessionId"@) == JsonModel::Text(launch.session)
        &&& params.at("configId"@) == JsonModel::Text(id)
        &&& params.at("value"@) == JsonModel::Text(value)
    }
}

/// Ends with that failure; an inspection closes its session before.
pub open spec fn gives_up(
    launch: LaunchModel,
    next: LaunchModel,
    action: LaunchActionModel,
    failure: FailureModel,
) -> bool {
    &&& !launch.options.catalog ==> next == (LaunchModel { phase: PhaseModel::Ended, ..launch })
        && action == LaunchActionModel::Fail(failure)
    &&& launch.options.catalog ==> closes_with(launch, next, action, Some(failure))
}

/// Asks for the session to be closed, with that to tell of when it is.
pub open spec fn closes_with(
    launch: LaunchModel,
    next: LaunchModel,
    action: LaunchActionModel,
    failure: Option<FailureModel>,
) -> bool {
    &&& next == (LaunchModel { phase: PhaseModel::Closing { failure }, ..launch })
    &&& action matches LaunchActionModel::Call { method, params } && {
        &&& method == "session/close"@
        &&& params.at("sessionId"@) == JsonModel::Text(launch.session)
    }
}

/// Uses the session as it is, with the prompt of the options; an inspection closes it.
pub open spec fn goes_into_use(
    launch: LaunchModel,
    next: LaunchModel,
    action: LaunchActionModel,
) -> bool {
    &&& !launch.options.catalog ==> next == (LaunchModel { phase: PhaseModel::Ready, ..launch })
        && action == (LaunchActionModel::Use {
        resumed: launch.options.resume is Some,
        config: launch.config,
        announcement: "DSH session "@ + safe(launch.session)
            + "\r\nUse /exit to close; Ctrl-C cancels active work.\r\n"@,
        initial: launch.options.initial,
    })
    &&& launch.options.catalog ==> closes_with(launch, next, action, None)
}

/// What comes after a selection, or after all of them: the effort is asked for, if it is wanted and the
/// configuration has it, and else the session goes into use.
pub open spec fn goes_on_to_effort(
    launch: LaunchModel,
    next: LaunchModel,
    action: LaunchActionModel,
) -> bool {
    match launch.options.effort {
        None => goes_into_use(launch, next, action),
        Some(requested) => match configured(launch.config, "reasoning_effort"@, requested) {
            Ok(value) => asks_for(launch, next, action, true, "reasoning_effort"@, value),
            Err(fault) => gives_up(launch, next, action, FailureModel::Own(fault)),
        },
    }
}

/// A session that is recorded goes into use once the model and then the effort are selected, each only
/// if it is wanted. What the agent does not offer, does not acknowledge as it was asked for, or cannot
/// set ends the launch.
pub proof fn law_sessions_go_into_use(
    launch: LaunchModel,
    effort: bool,
    value: Seq<char>,
    result: JsonModel,
)
    ensures
        launch.phase is Recording ==> {
            let (next, action) = launch.advance(LaunchEventModel::Recorded);
            match launch.options.model {
                None => goes_on_to_effort(launch, next, action),
                Some(requested) => match configured(launch.config, "model"@, requested) {
                    Ok(value) => asks_for(launch, next, action, false, "model"@, value),
                    Err(fault) => gives_up(launch, next, action, FailureModel::Own(fault)),
                },
            }
        },
        launch.phase == (PhaseModel::Confirming { effort, value }) ==> {
            let (next, action) = launch.advance(LaunchEventModel::Answered(result));
            let told = LaunchModel { config: result.at("configOptions"@), ..launch };
            let id = if effort {
                "reasoning_effort"@
            } else {
                "model"@
            };
            &&& !is_confirmed(told.config, id, value) ==> gives_up(
                told,
                next,
                action,
                FailureModel::Own(
                    FaultModel {
                        kind: ErrorKind::InvalidData,
                        message: "DSH did not acknowledge the requested selection"@,
                    },
                ),
            )
            &&& is_confirmed(told.config, id, value) && effort ==> goes_into_use(told, next, action)
            &&& is_confirmed(told.config, id, value) && !effort ==> goes_on_to_effort(
                told,
                next,
                action,
            )
        },
        launch.phase == (PhaseModel::Confirming { effort, value }) ==> {
            let (next, action) = launch.advance(LaunchEventModel::Failed);
            gives_up(launch, next, action, FailureModel::Outside)
        },
{
    lemma_parameters();
}

/// With an agent that can do what is wanted, and that opens the session, a launch that is no inspection
/// gets to use it, with its prompt: without a selection as soon as the session is recorded, and else
/// after the last selection is acknowledged.
pub proof fn law_launches_get_to_use_their_session(
    options: OptionsModel,
    cwd: Seq<char>,
    version: Seq<char>,
    hello: JsonModel,
    opened: JsonModel,
    session: Seq<char>,
    first: JsonModel,
    second: JsonModel,
)
    requires
        !options.catalog,
        hello.at("protocolVersion"@).unsigned() == Some(1u64),
        hello.at("agentCapabilities"@).at("sessionCapabilities"@).get("close"@) is Some,
        options.resume is Some ==> hello.at("agentCapabilities"@).at("sessionCapabilities"@).get(
            "resume"@,
        ) is Some,
        opened.at("sessionId"@) == JsonModel::Text(session),
        session.len() > 0,
    ensures
        ({
            let ready = |config: JsonModel|
                LaunchActionModel::Use {
                    resumed: options.resume is Some,
                    config,
                    announcement: "DSH session "@ + safe(session)
                        + "\r\nUse /exit to close; Ctrl-C cancels active work.\r\n"@,
                    initial: options.initial,
                };
            let begun = launching(options, cwd, version).0;
            let greeted = begun.advance(LaunchEventModel::Answered(hello)).0;
            let named = greeted.advance(LaunchEventModel::Answered(opened)).0;
            let recorded = named.advance(LaunchEventModel::Recorded);
            let once = recorded.0.advance(LaunchEventModel::Answered(first));
            let twice = once.0.advance(LaunchEventModel::Answered(second));
            let offered = opened.at("configOptions"@);
            let told = first.at("configOptions"@);
            match (options.model, options.effort) {
                (None, None) => recorded.1 == ready(offered),
                (Some(model), None) => configured(offered, "model"@, model) matches Ok(value)
                    ==> is_confirmed(told, "model"@, value) ==> once.1 == ready(told),
                (None, Some(effort)) => configured(
                    offered,
                    "reasoning_effort"@,
                    effort,
                ) matches Ok(value) ==> is_confirmed(told, "reasoning_effort"@, value) ==> once.1
                    == ready(told),
                (Some(model), Some(effort)) => configured(offered, "model"@, model) matches Ok(
                    value,
                ) ==> is_confirmed(told, "model"@, value) ==> (configured(
                    told,
                    "reasoning_effort"@,
                    effort,
                ) matches Ok(other) ==> is_confirmed(
                    second.at("configOptions"@),
                    "reasoning_effort"@,
                    other,
                ) ==> twice.1 == ready(second.at("configOptions"@))),
            }
        }),
{
}

/// A session in use is closed when the user leaves. Once it is closed a launch ends, an inspection with
/// what it found on a line and another with nothing; a failure from before is told then, and one to
/// close only where there was none.
pub proof fn law_launches_end_when_their_session_is_closed(
    launch: LaunchModel,
    answer: JsonModel,
    failure: FailureModel,
)
    ensures
        launch.phase is Ready ==> {
            let (next, action) = launch.advance(LaunchEventModel::Left);
            closes_with(launch, next, action, None)
        },
        launch.phase == (PhaseModel::Closing { failure: None }) ==> {
            let ended = LaunchModel { phase: PhaseModel::Ended, ..launch };
            &&& launch.advance(LaunchEventModel::Failed) == (
                ended,
                LaunchActionModel::Fail(FailureModel::Outside),
            )
            &&& launch.options.catalog ==> launch.advance(LaunchEventModel::Answered(answer)) == (
                ended,
                LaunchActionModel::Finish { shown: json_text(catalog_model(launch.config)) + "\n"@ },
            )
            &&& !launch.options.catalog ==> launch.advance(LaunchEventModel::Answered(answer)) == (
                ended,
                LaunchActionModel::Finish { shown: Seq::empty() },
            )
        },
        launch.phase == (PhaseModel::Closing { failure: Some(failure) }) ==> {
            let told = (
                LaunchModel { phase: PhaseModel::Ended, ..launch },
                LaunchActionModel::Fail(failure),
            );
            &&& launch.advance(LaunchEventModel::Answered(answer)) == told
            &&& launch.advance(LaunchEventModel::Failed) == told
        },
{
    lemma_parameters();
}

/// What fails before a selection, or in use, ends the launch with the first failure. An event that does
/// not belong to the phase changes nothing, and after the end nothing does.
pub proof fn law_other_events_change_nothing(launch: LaunchModel, event: LaunchEventModel)
    ensures
        launch.phase is Hello || launch.phase is Opening || launch.phase is Recording
            || launch.phase is Ready ==> launch.advance(LaunchEventModel::Failed) == (
            LaunchModel { phase: PhaseModel::Ended, ..launch },
            LaunchActionModel::Fail(FailureModel::Outside),
        ),
        (launch.phase is Ended || match event {
            LaunchEventModel::Answered(_) => launch.phase is Recording || launch.phase is Ready,
            LaunchEventModel::Recorded => !(launch.phase is Recording),
            LaunchEventModel::Left => !(launch.phase is Ready),
            LaunchEventModel::Failed => false,
        }) ==> launch.advance(event) == (launch, LaunchActionModel::Wait),
{
}

/// What an inspection finds is the configuration, under the driver's name and protocol.
pub proof fn law_inspections_find_the_configuration(config: JsonModel, name: Seq<char>)
    ensures
        ({
            let found = catalog_model(config);
            &&& found.at("driver"@) == JsonModel::Text("herdr:dsh"@)
            &&& found.at("protocol"@) == JsonModel::Number(number_of(1))
            &&& found.at("config_options"@) == config
            &&& name != "driver"@ && name != "protocol"@ && name != "config_options"@ ==> found.get(
                name,
            ) is None
        }),
{
    reveal_strlit("driver");
    reveal_strlit("protocol");
    reveal_strlit("config_options");
    assert("driver"@.len() == 6);
    assert("protocol"@.len() == 8);
    assert("config_options"@.len() == 14);
}

/// The driver launches, prompts, resumes and inspects sessions, asks for each permission once, and
/// neither compacts nor updates.
pub proof fn law_drivers_say_what_they_can_do()
    ensures
        ({
            let said = description_model();
            &&& said.at("driver"@) == JsonModel::Text("herdr:dsh"@)
            &&& said.at("protocol"@) == JsonModel::Number(number_of(1))
            &&& said.at("transport"@) == JsonModel::Text("acp-stdio"@)
            &&& said.at("launch"@) == JsonModel::Bool(true)
            &&& said.at("prompt"@) == JsonModel::Bool(true)
            &&& said.at("resume"@) == JsonModel::Bool(true)
            &&& said.at("catalog"@) == JsonModel::Bool(true)
            &&& said.at("permissions"@) == JsonModel::Text("interactive-once"@)
            &&& said.at("compact"@) == JsonModel::Bool(false)
            &&& said.at("update"@) == JsonModel::Bool(false)
        }),
{
    reveal_strlit("driver");
    reveal_strlit("protocol");
    reveal_strlit("transport");
    reveal_strlit("launch");
    reveal_strlit("prompt");
    reveal_strlit("resume");
    reveal_strlit("catalog");
    reveal_strlit("permissions");
    reveal_strlit("compact");
    reveal_strlit("update");
    assert("driver"@.len() == 6 && "driver"@[0] == 'd');
    assert("protocol"@.len() == 8);
    assert("transport"@.len() == 9);
    assert("launch"@.len() == 6 && "launch"@[0] == 'l');
    assert("prompt"@.len() == 6 && "prompt"@[0] == 'p');
    assert("resume"@.len() == 6 && "resume"@[0] == 'r');
    assert("catalog"@.len() == 7 && "catalog"@[1] == 'a');
    assert("permissions"@.len() == 11);
    assert("compact"@.len() == 7 && "compact"@[1] == 'o');
    assert("update"@.len() == 6 && "update"@[0] == 'u');
}

/// A launch, its events and its actions stand for what they hold.
pub proof fn law_launches_stand_for_what_they_hold(
    launch: Launch,
    action: LaunchAction,
    event: LaunchEvent,
)
    ensures
        launch@.options == launch.options@ && launch@.cwd == launch.cwd@,
        launch@.session == launch.session@ && launch@.agent_info == launch.agent_info@,
        launch@.config == launch.config@,
        match launch.phase {
            Phase::Hello => launch@.phase is Hello,
            Phase::Opening => launch@.phase is Opening,
            Phase::Recording => launch@.phase is Recording,
            Phase::Confirming { effort, value } => launch@.phase == (PhaseModel::Confirming {
                effort,
                value: value@,
            }),
            Phase::Ready => launch@.phase is Ready,
            Phase::Closing { failure: None } => launch@.phase == (PhaseModel::Closing {
                failure: None,
            }),
            Phase::Closing { failure: Some(Failure::Outside) } => launch@.phase == (
            PhaseModel::Closing { failure: Some(FailureModel::Outside) }),
            Phase::Closing { failure: Some(Failure::Own(error)) } => launch@.phase == (
            PhaseModel::Closing { failure: Some(FailureModel::Own(error@)) }),
            Phase::Ended => launch@.phase is Ended,
        },
        match event {
            LaunchEvent::Answered(answer) => event@ == LaunchEventModel::Answered(answer@),
            LaunchEvent::Recorded => event@ is Recorded,
            LaunchEvent::Left => event@ is Left,
            LaunchEvent::Failed => event@ is Failed,
        },
        match action {
            LaunchAction::Call { method, params } => action@ == (LaunchActionModel::Call {
                method: method@,
                params: params@,
            }),
            LaunchAction::Record { session, agent_info } => action@ == (LaunchActionModel::Record {
                session: session@,
                agent_info: agent_info@,
            }),
            LaunchAction::Use { resumed, config, announcement, initial } => action@ == (
            LaunchActionModel::Use {
                resumed,
                config: config@,
                announcement: announcement@,
                initial: match initial {
                    Some(prompt) => Some(prompt@),
                    None => None,
                },
            }),
            LaunchAction::Finish { shown } => action@ == (LaunchActionModel::Finish {
                shown: shown@,
            }),
            LaunchAction::Fail(Failure::Own(error)) => action@ == LaunchActionModel::Fail(
                FailureModel::Own(error@),
            ),
            LaunchAction::Fail(Failure::Outside) => action@ == LaunchActionModel::Fail(
                FailureModel::Outside,
            ),
            LaunchAction::Wait => action@ is Wait,
        },
{
}

/// A description is asked for by one argument alone.
pub proof fn law_one_argument_asks_for_a_description(
    arg: String,
    before: Seq<String>,
    more: Seq<String>,
)
    ensures
        wants_description(seq![arg]) <==> arg@ == "--describe"@,
        !wants_description(Seq::empty()),
        before.len() + more.len() > 0 ==> !wants_description(before + seq![arg] + more),
{
}

} // verus!
