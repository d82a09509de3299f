//! Guarded answers to native prompts: the decisions from a request to the one key that may be
//! sent. The runtime looks things up and sends; every step of it is asked for here.
use vstd::prelude::*;
use vstd::utf8::encode_utf8;

use crate::api::{
    encode_error, refusal, ApiError, ApiResponse, ApiResult, ResponseModel, ResultModel,
};
use crate::digest::{
    digest_text, do_collide, law_digests_are_of_the_bytes_of_a_text, lemma_digests_tell_apart,
    sha256, text_digest,
};
use crate::json::{
    is_line_of, is_plain, json_text, list_model, number_of, number_u64, print_json, push_field,
    text_or_null, text_view, Json, JsonModel, MAX_DEPTH,
};
use crate::menu::{
    is_bounded, lines, menu_of, menu_view, options, region_fits, MenuOption, OptionModel,
};
use crate::text::{chars_of, hex_value, string_of, text_eq, utf8_len};

verus! {

/// What an agent is doing.
#[derive(Debug, PartialEq, Eq, Clone, Copy)]
pub enum AgentStatus {
    Idle,
    Working,
    Blocked,
    Done,
    Unknown,
}

/// An agent in a terminal pane.
#[derive(Debug, PartialEq)]
pub struct AgentInfo {
    pub terminal_id: String,
    pub pane_id: String,
    pub agent: Option<String>,
    pub agent_status: AgentStatus,
    pub launch_pending: bool,
    pub agent_session: Option<Json>,
    pub state_change_seq: u64,
}

/// A request to inspect a native prompt, or to answer it with an option.
#[derive(Debug, PartialEq, Eq)]
pub struct AgentPromptAnswerParams {
    pub target: String,
    pub option: Option<String>,
    pub expected_prompt: Option<String>,
}

impl Clone for AgentPromptAnswerParams {
    fn clone(&self) -> (copy: Self)
        ensures
            copy == *self,
    {
        AgentPromptAnswerParams {
            target: self.target.clone(),
            option: match &self.option {
                Some(option) => Some(option.clone()),
                None => None,
            },
            expected_prompt: match &self.expected_prompt {
                Some(expected) => Some(expected.clone()),
                None => None,
            },
        }
    }
}

/// What a native prompt showed: to whom it belongs, the screen, its options and the fingerprint
/// of the first two.
#[derive(Debug, PartialEq)]
pub struct ShownPrompt {
    pub binding: Json,
    pub screen: String,
    pub choices: Vec<MenuOption>,
    pub fingerprint: String,
}

/// What is being looked up.
#[derive(Debug, PartialEq, Eq, Clone, Copy)]
pub enum Lookup {
    Target,
    Terminal,
    KnownAgent,
    Runtime,
    Foreground,
    Screen,
}

/// How far a request has come.
#[derive(Debug, PartialEq)]
pub enum Stage {
    /// The agent is being looked up.
    Agent,
    /// The agent qualifies; something else about it is being looked up.
    Looking { lookup: Lookup, binding: Json },
    /// The key of the option is being encoded.
    Encoding { seq: u64, shown: ShownPrompt },
    /// The key is being sent.
    Sending { shown: ShownPrompt },
    /// The request is answered.
    Closed,
}

/// A request under way.
#[derive(Debug, PartialEq)]
pub struct PromptAnswer {
    pub id: String,
    pub params: AgentPromptAnswerParams,
    pub stage: Stage,
}

/// What the runtime found or did.
#[derive(Debug, PartialEq)]
pub enum PromptEvent {
    /// The agent of the target.
    Agent(Result<AgentInfo, ApiError>),
    /// The pane of the target.
    Target(Result<(), ApiError>),
    /// Whether what was asked for is there.
    Found(bool),
    /// The screen, the place on it where the dialog starts, and the content revision before and
    /// after the capture.
    Captured { seq: u64, screen: String, dialog_at: usize, seq_after: u64 },
    /// The bytes of the key, where it can be encoded.
    Encoded(Option<Vec<Vec<u8>>>),
    /// Whether the bytes were queued, or why not.
    Sent(Result<(), String>),
}

/// What the runtime is to do next.
#[derive(Debug, PartialEq)]
pub enum PromptAction {
    /// Reconcile the target and look its agent up.
    FindAgent { target: String },
    /// Look up one thing more.
    Look { lookup: Lookup, target: String },
    /// Encode the key with the native keyboard protocol.
    EncodeKey { option: String },
    /// Queue the bytes, if the content revision is still this one.
    SendKey { seq: u64, keys: Vec<u8> },
    /// Answer the request.
    Respond(ApiResponse),
    /// Nothing: the event does not belong here.
    Wait,
}

/// The content of a `ShownPrompt`.
pub struct ShownModel {
    pub binding: JsonModel,
    pub screen: Seq<char>,
    pub choices: Seq<OptionModel>,
    pub fingerprint: Seq<char>,
}

/// The content of a `Stage`.
pub enum StageModel {
    Agent,
    Looking { lookup: Lookup, binding: JsonModel },
    Encoding { seq: u64, shown: ShownModel },
    Sending { shown: ShownModel },
    Closed,
}

/// The content of a `PromptAnswer`.
pub struct PromptModel {
    pub id: Seq<char>,
    pub target: Seq<char>,
    pub option: Option<Seq<char>>,
    pub expected_prompt: Option<Seq<char>>,
    pub stage: StageModel,
}

/// The content of a `PromptAction`.
pub enum ActionModel {
    FindAgent { target: Seq<char> },
    Look { lookup: Lookup, target: Seq<char> },
    EncodeKey { option: Seq<char> },
    SendKey { seq: u64, keys: Seq<u8> },
    Respond(ResponseModel),
    Wait,
}

impl View for ShownPrompt {
    type V = ShownModel;

    open spec fn view(&self) -> ShownModel {
        ShownModel {
            binding: self.binding@,
            screen: self.screen@,
            choices: menu_view(self.choices@),
            fingerprint: self.fingerprint@,
        }
    }
}

impl View for Stage {
    type V = StageModel;

    open spec fn view(&self) -> StageModel {
        match *self {
            Stage::Agent => StageModel::Agent,
            Stage::Looking { lookup, binding } => StageModel::Looking { lookup, binding: binding@ },
            Stage::Encoding { seq, shown } => StageModel::Encoding { seq, shown: shown@ },
            Stage::Sending { shown } => StageModel::Sending { shown: shown@ },
            Stage::Closed => StageModel::Closed,
        }
    }
}

impl View for PromptAnswer {
    type V = PromptModel;

    open spec fn view(&self) -> PromptModel {
        PromptModel {
            id: self.id@,
            target: self.params.target@,
            option: text_view(self.params.option),
            expected_prompt: text_view(self.params.expected_prompt),
            stage: self.stage@,
        }
    }
}

impl View for PromptAction {
    type V = ActionModel;

    open spec fn view(&self) -> ActionModel {
        match *self {
            PromptAction::FindAgent { target } => ActionModel::FindAgent { target: target@ },
            PromptAction::Look { lookup, target } => ActionModel::Look { lookup, target: target@ },
            PromptAction::EncodeKey { option } => ActionModel::EncodeKey { option: option@ },
            PromptAction::SendKey { seq, keys } => ActionModel::SendKey { seq, keys: keys@ },
            PromptAction::Respond(response) => ActionModel::Respond(response@),
            PromptAction::Wait => ActionModel::Wait,
        }
    }
}

/// Whose prompt it is: terminal, pane, harness, conversation and state transition.
pub open spec fn binding_of(agent: AgentInfo) -> JsonModel {
    JsonModel::Table(
        map![
            "terminal_id"@ => JsonModel::Text(agent.terminal_id@),
            "pane_id"@ => JsonModel::Text(agent.pane_id@),
            "agent"@ => text_or_null(text_view(agent.agent)),
            "native_session"@ => match agent.agent_session {
                Some(session) => session@,
                None => JsonModel::Null,
            },
            "state_change_seq"@ => JsonModel::Number(number_of(agent.state_change_seq)),
        ],
    )
}

/// The number of a state transition is read back from a binding.
pub open spec fn is_counted(state_change_seq: u64) -> bool {
    number_u64(number_of(state_change_seq)) == Some(state_change_seq)
}

/// What a fingerprint is taken of: whose prompt it is, and the whole screen.
pub open spec fn evidence(binding: JsonModel, screen: Seq<char>) -> JsonModel {
    JsonModel::List(seq![binding, JsonModel::Text(screen)])
}

/// The fingerprint of a prompt.
pub open spec fn fingerprint_of(binding: JsonModel, screen: Seq<char>) -> Seq<char> {
    text_digest(json_text(evidence(binding, screen)))
}

/// The printed evidence is read back as what it is.
pub open spec fn is_readable(binding: JsonModel, screen: Seq<char>) -> bool {
    is_line_of(json_text(evidence(binding, screen)), evidence(binding, screen))
}

/// Where a prompt is shown, its plain evidence is read back.
pub open spec fn is_evident(
    binding: JsonModel,
    seq: u64,
    screen: Seq<char>,
    dialog_at: nat,
    seq_after: u64,
) -> bool {
    seq % 2 == 0 && seq_after == seq && screen_menu(screen, dialog_at) is Some && is_plain(
        evidence(binding, screen),
        MAX_DEPTH as nat,
    ) ==> is_readable(binding, screen)
}

/// What a step makes known of the evidence that it takes in: the state transition of an agent, and
/// the printed text of a prompt, can be told from others.
pub open spec fn tells_evidence(request: PromptModel, event: PromptEvent) -> bool {
    match (request.stage, event) {
        (StageModel::Agent, PromptEvent::Agent(Ok(agent))) => qualifies(agent) ==> is_counted(
            agent.state_change_seq,
        ),
        (
            StageModel::Looking { lookup: Lookup::Screen, binding },
            PromptEvent::Captured { seq, screen, dialog_at, seq_after },
        ) => is_evident(binding, seq, screen@, dialog_at as nat, seq_after),
        _ => true,
    }
}

/// An agent whose prompt may be inspected: blocked, launched, in an identified conversation.
pub open spec fn qualifies(agent: AgentInfo) -> bool {
    agent.agent_status == AgentStatus::Blocked && !agent.launch_pending
        && agent.agent_session is Some
}

/// The part of the screen that is searched for a menu.
pub open spec fn dialog(screen: Seq<char>, dialog_at: nat) -> Seq<char> {
    if dialog_at <= screen.len() {
        screen.skip(dialog_at as int)
    } else {
        screen.skip(screen.len() as int)
    }
}

/// The menu that a screen shows in its dialog. The whole screen has to be within bounds.
pub open spec fn screen_menu(screen: Seq<char>, dialog_at: nat) -> Option<Seq<OptionModel>> {
    if is_bounded(screen) {
        menu_of(dialog(screen, dialog_at))
    } else {
        None
    }
}

/// The option is the key of one of the choices.
pub open spec fn is_listed(choices: Seq<OptionModel>, option: Seq<char>) -> bool {
    exists|i: int| 0 <= i < choices.len() && (#[trigger] choices[i]).key == option
}

pub open spec fn choice_model(choice: OptionModel) -> JsonModel {
    JsonModel::Table(
        map!["key"@ => JsonModel::Text(choice.key), "label"@ => JsonModel::Text(choice.label)],
    )
}

pub open spec fn choices_model(choices: Seq<OptionModel>) -> Seq<JsonModel> {
    choices.map_values(|choice: OptionModel| choice_model(choice))
}

/// The answer that shows a prompt. Whether a key was queued says nothing of its acceptance.
pub open spec fn prompt_model(shown: ShownModel, input_queued: bool) -> JsonModel {
    JsonModel::Table(
        map![
            "binding"@ => shown.binding,
            "screen"@ => JsonModel::Text(shown.screen),
            "options"@ => JsonModel::List(choices_model(shown.choices)),
            "fingerprint"@ => JsonModel::Text(shown.fingerprint),
            "input_queued"@ => JsonModel::Bool(input_queued),
            "acceptance"@ => JsonModel::Text("unverified"@),
        ],
    )
}

pub open spec fn shown_response(id: Seq<char>, shown: ShownModel, input_queued: bool) -> ResponseModel {
    ResponseModel {
        id,
        outcome: Ok(ResultModel::NativePrompt { prompt: prompt_model(shown, input_queued) }),
    }
}

/// The lookup after this one.
pub open spec fn next_lookup(lookup: Lookup) -> Lookup {
    match lookup {
        Lookup::Target => Lookup::Terminal,
        Lookup::Terminal => Lookup::KnownAgent,
        Lookup::KnownAgent => Lookup::Runtime,
        Lookup::Runtime => Lookup::Foreground,
        Lookup::Foreground => Lookup::Screen,
        Lookup::Screen => Lookup::Screen,
    }
}

/// Why a request is refused where a lookup finds nothing.
pub open spec fn missing(lookup: Lookup) -> Seq<char> {
    match lookup {
        Lookup::Terminal => "native terminal is missing"@,
        Lookup::KnownAgent => "native agent is unknown"@,
        Lookup::Runtime => "native runtime is missing"@,
        _ => "foreground agent changed"@,
    }
}

impl PromptModel {
    pub open spec fn to(self, stage: StageModel) -> PromptModel {
        PromptModel { stage, ..self }
    }

    pub open spec fn refused(self, code: Seq<char>, message: Seq<char>) -> (
        PromptModel,
        ActionModel,
    ) {
        (self.to(StageModel::Closed), ActionModel::Respond(refusal(self.id, code, message)))
    }

    /// What follows when the agent is known.
    pub open spec fn on_agent(self, found: Result<AgentInfo, ApiError>) -> (
        PromptModel,
        ActionModel,
    ) {
        match found {
            Err(error) => self.refused(error.code@, error.message@),
            Ok(agent) => if !qualifies(agent) {
                self.refused(
                    "native_prompt_unavailable"@,
                    "a blocked native conversation is required"@,
                )
            } else {
                (
                    self.to(
                        StageModel::Looking { lookup: Lookup::Target, binding: binding_of(agent) },
                    ),
                    ActionModel::Look { lookup: Lookup::Target, target: self.target },
                )
            },
        }
    }

    /// What follows when the prompt and its fingerprint are known.
    pub open spec fn on_shown(self, seq: u64, shown: ShownModel) -> (PromptModel, ActionModel) {
        match self.option {
            None => (
                self.to(StageModel::Closed),
                ActionModel::Respond(shown_response(self.id, shown, false)),
            ),
            Some(option) => if self.expected_prompt != Some(shown.fingerprint) {
                self.refused(
                    "native_prompt_changed"@,
                    "prompt or native binding changed; inspect again"@,
                )
            } else if !is_listed(shown.choices, option) {
                self.refused(
                    "invalid_option"@,
                    "option is not an explicit key in this prompt"@,
                )
            } else {
                (
                    self.to(StageModel::Encoding { seq, shown }),
                    ActionModel::EncodeKey { option },
                )
            },
        }
    }

    /// What follows when the screen has been captured.
    pub open spec fn on_screen(
        self,
        binding: JsonModel,
        seq: u64,
        screen: Seq<char>,
        dialog_at: nat,
        seq_after: u64,
    ) -> (PromptModel, ActionModel) {
        let fingerprint = fingerprint_of(binding, screen);
        if seq % 2 != 0 || seq_after != seq {
            self.refused("native_prompt_changed"@, "terminal changed during capture"@)
        } else {
            match screen_menu(screen, dialog_at) {
                None => self.refused(
                    "native_prompt_unsupported"@,
                    "a complete bounded numbered menu is required"@,
                ),
                Some(choices) => self.on_shown(
                    seq,
                    ShownModel { binding, screen, choices, fingerprint },
                ),
            }
        }
    }

    /// How a request goes on after an event, and what is to be done.
    pub open spec fn advance(self, event: PromptEvent) -> (PromptModel, ActionModel) {
        match (self.stage, event) {
            (StageModel::Agent, PromptEvent::Agent(found)) => self.on_agent(found),
            (StageModel::Looking { lookup: Lookup::Target, binding }, PromptEvent::Target(found)) => {
                match found {
                    Err(error) => self.refused(error.code@, error.message@),
                    Ok(_) => (
                        self.to(StageModel::Looking { lookup: Lookup::Terminal, binding }),
                        ActionModel::Look { lookup: Lookup::Terminal, target: self.target },
                    ),
                }
            },
            (
                StageModel::Looking { lookup: Lookup::Screen, binding },
                PromptEvent::Captured { seq, screen, dialog_at, seq_after },
            ) => self.on_screen(binding, seq, screen@, dialog_at as nat, seq_after),
            (StageModel::Looking { lookup, binding }, PromptEvent::Found(found)) => if lookup
                == Lookup::Target || lookup == Lookup::Screen {
                (self, ActionModel::Wait)
            } else if !found {
                self.refused("native_prompt_unavailable"@, missing(lookup))
            } else {
                (
                    self.to(StageModel::Looking { lookup: next_lookup(lookup), binding }),
                    ActionModel::Look { lookup: next_lookup(lookup), target: self.target },
                )
            },
            (StageModel::Encoding { seq, shown }, PromptEvent::Encoded(encoded)) => match encoded {
                None => self.refused("invalid_option"@, "option key cannot be encoded"@),
                Some(keys) => (
                    self.to(StageModel::Sending { shown }),
                    ActionModel::SendKey { seq, keys: joined(keys@) },
                ),
            },
            (StageModel::Sending { shown }, PromptEvent::Sent(sent)) => match sent {
                Err(reason) => self.refused("native_prompt_not_sent"@, reason@),
                Ok(_) => (
                    self.to(StageModel::Closed),
                    ActionModel::Respond(shown_response(self.id, shown, true)),
                ),
            },
            _ => (self, ActionModel::Wait),
        }
    }
}

/// Byte strings one after the other.
pub open spec fn joined(parts: Seq<Vec<u8>>) -> Seq<u8>
    decreases parts.len(),
{
    if parts.len() == 0 {
        Seq::empty()
    } else {
        joined(parts.drop_last()) + parts.last()@
    }
}

/// How a request starts.
pub open spec fn opened(id: Seq<char>, params: AgentPromptAnswerParams) -> (
    PromptModel,
    ActionModel,
) {
    let request = PromptModel {
        id,
        target: params.target@,
        option: text_view(params.option),
        expected_prompt: text_view(params.expected_prompt),
        stage: StageModel::Agent,
    };
    if (params.option is Some) != (params.expected_prompt is Some) {
        request.refused("invalid_params"@, "option and expected_prompt must be supplied together"@)
    } else {
        (request, ActionModel::FindAgent { target: request.target })
    }
}

/// Joins byte strings.
fn join_keys(parts: &Vec<Vec<u8>>) -> (all: Vec<u8>)
    ensures
        all@ == joined(parts@),
{
    let mut all: Vec<u8> = Vec::new();
    let mut i: usize = 0;
    assert(parts@.take(0) =~= Seq::<Vec<u8>>::empty());
    while i < parts.len()
        invariant
            i <= parts@.len(),
            all@ == joined(parts@.take(i as int)),
        decreases parts@.len() - i,
    {
        let part = &parts[i];
        let mut j: usize = 0;
        let ghost before = all@;
        assert(part@.take(0) =~= Seq::<u8>::empty());
        assert(before + part@.take(0) =~= before);
        while j < part.len()
            invariant
                j <= part@.len(),
                all@ == before + part@.take(j as int),
            decreases part@.len() - j,
        {
            all.push(part[j]);
            assert(part@.take(j + 1) =~= part@.take(j as int).push(part@[j as int]));
            j = j + 1;
        }
        assert(part@.take(j as int) =~= part@);
        assert(parts@.take(i + 1).drop_last() =~= parts@.take(i as int));
        i = i + 1;
    }
    assert(parts@.take(i as int) =~= parts@);
    all
}

/// The binding of an agent's prompt.
pub fn bind(agent: &AgentInfo) -> (binding: Json)
    ensures
        binding@ == binding_of(*agent),
        is_counted(agent.state_change_seq),
{
    let mut fields: Vec<(String, Json)> = Vec::new();
    push_field(&mut fields, "terminal_id", Json::of_text(agent.terminal_id.as_str()));
    push_field(&mut fields, "pane_id", Json::of_text(agent.pane_id.as_str()));
    push_field(&mut fields, "agent", Json::of_option(&agent.agent));
    let session = match &agent.agent_session {
        Some(session) => session.clone(),
        None => Json::Null,
    };
    push_field(&mut fields, "native_session", session);
    push_field(&mut fields, "state_change_seq", Json::of_u64(agent.state_change_seq));
    Json::Table(fields)
}

/// The fingerprint of a prompt.
pub fn prompt_fingerprint(binding: &Json, screen: &str) -> (fingerprint: String)
    ensures
        fingerprint@ == fingerprint_of(binding@, screen@),
        is_plain(evidence(binding@, screen@), MAX_DEPTH as nat) ==> is_readable(binding@, screen@),
{
    let mut parts: Vec<Json> = Vec::new();
    parts.push(binding.clone());
    parts.push(Json::of_text(screen));
    proof {
        crate::json::lemma_list_model(parts@);
        assert(list_model(parts@) =~= seq![binding@, JsonModel::Text(screen@)]);
    }
    digest_text(print_json(&Json::List(parts)).as_str())
}

/// The document that shows the choices.
fn choices_json(choices: &Vec<MenuOption>) -> (list: Vec<Json>)
    ensures
        list_model(list@) == choices_model(menu_view(choices@)),
{
    let mut list: Vec<Json> = Vec::new();
    let mut i: usize = 0;
    let ghost all = choices_model(menu_view(choices@));
    while i < choices.len()
        invariant
            i <= choices@.len(),
            all == choices_model(menu_view(choices@)),
            list_model(list@) == all.take(i as int),
        decreases choices@.len() - i,
    {
        let mut fields: Vec<(String, Json)> = Vec::new();
        push_field(&mut fields, "key", Json::of_text(choices[i].key.as_str()));
        push_field(&mut fields, "label", Json::of_text(choices[i].label.as_str()));
        let ghost before = list@;
        let item = Json::Table(fields);
        assert(item@ == choice_model(choices@[i as int]@));
        list.push(item);
        proof {
            assert(list@.drop_last() =~= before);
            assert(all[i as int] == choice_model(choices@[i as int]@));
            assert(all.take(i + 1) =~= all.take(i as int).push(all[i as int]));
        }
        i = i + 1;
    }
    assert(all.take(i as int) =~= all);
    list
}

/// The answer that shows a prompt.
fn show(id: String, shown: &ShownPrompt, input_queued: bool) -> (response: ApiResponse)
    ensures
        response@ == shown_response(id@, shown@, input_queued),
{
    let mut fields: Vec<(String, Json)> = Vec::new();
    push_field(&mut fields, "binding", shown.binding.clone());
    push_field(&mut fields, "screen", Json::of_text(shown.screen.as_str()));
    push_field(&mut fields, "options", Json::List(choices_json(&shown.choices)));
    push_field(&mut fields, "fingerprint", Json::of_text(shown.fingerprint.as_str()));
    push_field(&mut fields, "input_queued", Json::Bool(input_queued));
    push_field(&mut fields, "acceptance", Json::of_text("unverified"));
    ApiResponse { id, outcome: Ok(ApiResult::NativePrompt { prompt: Json::Table(fields) }) }
}

/// Whether an option is the key of one of the choices.
fn lists(choices: &Vec<MenuOption>, option: &str) -> (b: bool)
    ensures
        b == is_listed(menu_view(choices@), option@),
{
    let mut i: usize = 0;
    let ghost all = menu_view(choices@);
    while i < choices.len()
        invariant
            i <= choices@.len(),
            all == menu_view(choices@),
            forall|k: int| 0 <= k < i ==> (#[trigger] all[k]).key != option@,
        decreases choices@.len() - i,
    {
        assert(all[i as int] == choices@[i as int]@);
        if text_eq(choices[i].key.as_str(), option) {
            return true;
        }
        i = i + 1;
    }
    false
}

/// The part of the screen that is searched for a menu.
fn take_dialog(screen: &str, dialog_at: usize) -> (text: String)
    ensures
        text@ == dialog(screen@, dialog_at as nat),
{
    let chars = chars_of(screen);
    let len = chars.len();
    let start = if dialog_at <= len {
        dialog_at
    } else {
        len
    };
    let text = string_of(&chars, start, len);
    assert(text@ =~= dialog(screen@, dialog_at as nat));
    text
}

/// Why a request is refused where a lookup finds nothing.
fn missing_message(lookup: Lookup) -> (message: &'static str)
    ensures
        message@ == missing(lookup),
{
    match lookup {
        Lookup::Terminal => "native terminal is missing",
        Lookup::KnownAgent => "native agent is unknown",
        Lookup::Runtime => "native runtime is missing",
        _ => "foreground agent changed",
    }
}

/// The lookup after this one.
fn following(lookup: Lookup) -> (next: Lookup)
    ensures
        next == next_lookup(lookup),
{
    match lookup {
        Lookup::Target => Lookup::Terminal,
        Lookup::Terminal => Lookup::KnownAgent,
        Lookup::KnownAgent => Lookup::Runtime,
        Lookup::Runtime => Lookup::Foreground,
        Lookup::Foreground => Lookup::Screen,
        Lookup::Screen => Lookup::Screen,
    }
}

/// Starts a request to inspect or answer a native prompt.
pub fn handle_agent_prompt_answer(id: String, params: AgentPromptAnswerParams) -> (started: (
    PromptAnswer,
    PromptAction,
))
    ensures
        started.0@ == opened(id@, params).0,
        started.1@ == opened(id@, params).1,
{
    if params.option.is_some() != params.expected_prompt.is_some() {
        let response = encode_error(
            id.clone(),
            "invalid_params",
            "option and expected_prompt must be supplied together",
        );
        return (
            PromptAnswer { id, params, stage: Stage::Closed },
            PromptAction::Respond(response),
        );
    }
    let target = params.target.clone();
    (PromptAnswer { id, params, stage: Stage::Agent }, PromptAction::FindAgent { target })
}

impl PromptAnswer {
    /// Refuses the request and closes it.
    fn refuse(&mut self, code: &str, message: &str) -> (action: PromptAction)
        ensures
            final(self)@ == old(self)@.refused(code@, message@).0,
            action@ == old(self)@.refused(code@, message@).1,
    {
        self.stage = Stage::Closed;
        PromptAction::Respond(encode_error(self.id.clone(), code, message))
    }

    /// Goes on to a lookup.
    fn look(&mut self, lookup: Lookup, binding: Json) -> (action: PromptAction)
        ensures
            final(self)@ == old(self)@.to(StageModel::Looking { lookup, binding: binding@ }),
            action@ == (ActionModel::Look { lookup, target: old(self)@.target }),
    {
        self.stage = Stage::Looking { lookup, binding };
        PromptAction::Look { lookup, target: self.params.target.clone() }
    }

    /// Goes on when the agent is known.
    fn agent_found(&mut self, found: Result<AgentInfo, ApiError>) -> (action: PromptAction)
        ensures
            final(self)@ == old(self)@.on_agent(found).0,
            action@ == old(self)@.on_agent(found).1,
            found matches Ok(agent) ==> qualifies(agent) ==> is_counted(agent.state_change_seq),
    {
        match found {
            Err(error) => self.refuse(error.code.as_str(), error.message.as_str()),
            Ok(agent) => {
                let blocked = match agent.agent_status {
                    AgentStatus::Blocked => true,
                    _ => false,
                };
                if !blocked || agent.launch_pending || agent.agent_session.is_none() {
                    self.refuse(
                        "native_prompt_unavailable",
                        "a blocked native conversation is required",
                    )
                } else {
                    let binding = bind(&agent);
                    self.look(Lookup::Target, binding)
                }
            },
        }
    }

    /// Goes on when the prompt and its fingerprint are known: shows it, or sees to it that only
    /// an option of this very prompt gets further.
    pub fn prompt_shown(&mut self, seq: u64, shown: ShownPrompt) -> (action: PromptAction)
        ensures
            final(self)@ == old(self)@.on_shown(seq, shown@).0,
            action@ == old(self)@.on_shown(seq, shown@).1,
    {
        let option = match &self.params.option {
            None => {
                let response = show(self.id.clone(), &shown, false);
                self.stage = Stage::Closed;
                return PromptAction::Respond(response);
            },
            Some(option) => option.clone(),
        };
        let expected = match &self.params.expected_prompt {
            Some(expected) => text_eq(expected.as_str(), shown.fingerprint.as_str()),
            None => false,
        };
        if !expected {
            return self.refuse(
                "native_prompt_changed",
                "prompt or native binding changed; inspect again",
            );
        }
        if !lists(&shown.choices, option.as_str()) {
            return self.refuse("invalid_option", "option is not an explicit key in this prompt");
        }
        self.stage = Stage::Encoding { seq, shown };
        PromptAction::EncodeKey { option }
    }

    /// Goes on when the screen has been captured.
    fn screen_captured(
        &mut self,
        binding: Json,
        seq: u64,
        screen: String,
        dialog_at: usize,
        seq_after: u64,
    ) -> (action: PromptAction)
        ensures
            final(self)@ == old(self)@.on_screen(
                binding@,
                seq,
                screen@,
                dialog_at as nat,
                seq_after,
            ).0,
            action@ == old(self)@.on_screen(
                binding@,
                seq,
                screen@,
                dialog_at as nat,
                seq_after,
            ).1,
            is_evident(binding@, seq, screen@, dialog_at as nat, seq_after),
    {
        if seq % 2 != 0 || seq_after != seq {
            return self.refuse("native_prompt_changed", "terminal changed during capture");
        }
        let menu = if region_fits(screen.as_str()) {
            options(take_dialog(screen.as_str(), dialog_at).as_str())
        } else {
            None
        };
        let choices = match menu {
            Some(choices) => choices,
            None => {
                return self.refuse(
                    "native_prompt_unsupported",
                    "a complete bounded numbered menu is required",
                );
            },
        };
        let fingerprint = prompt_fingerprint(&binding, screen.as_str());
        self.prompt_shown(seq, ShownPrompt { binding, screen, choices, fingerprint })
    }

    /// Goes on after an event. The state moves on at most once per event; an event that does not
    /// belong to the state is left alone.
    pub fn step(&mut self, event: PromptEvent) -> (action: PromptAction)
        ensures
            final(self)@ == old(self)@.advance(event).0,
            action@ == old(self)@.advance(event).1,
            tells_evidence(old(self)@, event),
    {
        let mut stage = Stage::Closed;
        std::mem::swap(&mut stage, &mut self.stage);
        match (stage, event) {
            (Stage::Agent, PromptEvent::Agent(found)) => self.agent_found(found),
            (Stage::Looking { lookup: Lookup::Target, binding }, PromptEvent::Target(found)) => {
                match found {
                    Err(error) => self.refuse(error.code.as_str(), error.message.as_str()),
                    Ok(_) => self.look(Lookup::Terminal, binding),
                }
            },
            (
                Stage::Looking { lookup: Lookup::Screen, binding },
                PromptEvent::Captured { seq, screen, dialog_at, seq_after },
            ) => self.screen_captured(binding, seq, screen, dialog_at, seq_after),
            (Stage::Looking { lookup, binding }, PromptEvent::Found(found)) => {
                let here = match lookup {
                    Lookup::Target => false,
                    Lookup::Screen => false,
                    _ => true,
                };
                if !here {
                    self.stage = Stage::Looking { lookup, binding };
                    PromptAction::Wait
                } else if !found {
                    self.refuse("native_prompt_unavailable", missing_message(lookup))
                } else {
                    self.look(following(lookup), binding)
                }
            },
            (Stage::Encoding { seq, shown }, PromptEvent::Encoded(encoded)) => match encoded {
                None => self.refuse("invalid_option", "option key cannot be encoded"),
                Some(keys) => {
                    self.stage = Stage::Sending { shown };
                    PromptAction::SendKey { seq, keys: join_keys(&keys) }
                },
            },
            (Stage::Sending { shown }, PromptEvent::Sent(sent)) => match sent {
                Err(reason) => self.refuse("native_prompt_not_sent", reason.as_str()),
                Ok(_) => PromptAction::Respond(show(self.id.clone(), &shown, true)),
            },
            (stage, _) => {
                self.stage = stage;
                PromptAction::Wait
            },
        }
    }
}

/// The evidence of an agent whose conversation is named by a plain document is plain itself, so
/// its printed text is read back.
pub proof fn law_evidence_is_plain(agent: AgentInfo, screen: Seq<char>)
    requires
        agent.agent_session matches Some(session) ==> is_plain(session@, (MAX_DEPTH - 2) as nat),
    ensures
        is_plain(evidence(binding_of(agent), screen), MAX_DEPTH as nat),
{
    let binding = binding_of(agent);
    let depth = (MAX_DEPTH - 1) as nat;
    assert(is_plain(binding, depth)) by {
        assert forall|name: Seq<char>| #[trigger]
            binding->Table_0.contains_key(name) implies is_plain(
            binding->Table_0[name],
            (depth - 1) as nat,
        ) by {}
    }
    assert(is_plain(JsonModel::Text(screen), depth));
}

/// Two agents have one binding only where terminal, pane, harness, conversation and state
/// transition are the same.
pub proof fn law_bindings_tell_agents_apart(a: AgentInfo, b: AgentInfo)
    ensures
        is_counted(a.state_change_seq) && is_counted(b.state_change_seq) && a.agent_session is Some
            && b.agent_session is Some ==> (binding_of(a) == binding_of(b) <==> {
            &&& a.terminal_id@ == b.terminal_id@
            &&& a.pane_id@ == b.pane_id@
            &&& text_view(a.agent) == text_view(b.agent)
            &&& a.agent_session->0@ == b.agent_session->0@
            &&& a.state_change_seq == b.state_change_seq
        }),
{
    reveal_strlit("terminal_id");
    reveal_strlit("pane_id");
    reveal_strlit("agent");
    reveal_strlit("native_session");
    reveal_strlit("state_change_seq");
    assert("terminal_id"@.len() == 11);
    assert("pane_id"@.len() == 7);
    assert("agent"@.len() == 5);
    assert("native_session"@.len() == 14);
    assert("state_change_seq"@.len() == 16);
    let p = binding_of(a);
    let q = binding_of(b);
    assert(p.at("terminal_id"@) == JsonModel::Text(a.terminal_id@));
    assert(q.at("terminal_id"@) == JsonModel::Text(b.terminal_id@));
    assert(p.at("pane_id"@) == JsonModel::Text(a.pane_id@));
    assert(q.at("pane_id"@) == JsonModel::Text(b.pane_id@));
    assert(p.at("agent"@) == text_or_null(text_view(a.agent)));
    assert(q.at("agent"@) == text_or_null(text_view(b.agent)));
    assert(p.at("state_change_seq"@) == JsonModel::Number(number_of(a.state_change_seq)));
    assert(q.at("state_change_seq"@) == JsonModel::Number(number_of(b.state_change_seq)));
    if a.agent_session is Some && b.agent_session is Some {
        assert(p.at("native_session"@) == a.agent_session->0@);
        assert(q.at("native_session"@) == b.agent_session->0@);
    }
}

/// The same evidence has one fingerprint. Evidence that is printed in another way has another,
/// unless the digests of its printed texts collide; and evidence that differs in the binding or
/// anywhere on the screen is printed in another way, where its printed texts are read back.
pub proof fn law_fingerprints_tell_prompts_apart(
    binding: JsonModel,
    screen: Seq<char>,
    other_binding: JsonModel,
    other_screen: Seq<char>,
)
    ensures
        binding == other_binding && screen == other_screen ==> fingerprint_of(binding, screen)
            == fingerprint_of(other_binding, other_screen),
        !do_collide(
            json_text(evidence(binding, screen)),
            json_text(evidence(other_binding, other_screen)),
        ) ==> (fingerprint_of(binding, screen) == fingerprint_of(other_binding, other_screen)
            <==> json_text(evidence(binding, screen)) == json_text(
            evidence(other_binding, other_screen),
        )),
        (binding != other_binding || screen != other_screen) && is_readable(binding, screen)
            && is_readable(other_binding, other_screen) && !do_collide(
            json_text(evidence(binding, screen)),
            json_text(evidence(other_binding, other_screen)),
        ) ==> fingerprint_of(binding, screen) != fingerprint_of(other_binding, other_screen),
{
    let one = evidence(binding, screen);
    let other = evidence(other_binding, other_screen);
    if fingerprint_of(binding, screen) == fingerprint_of(other_binding, other_screen) {
        lemma_digests_tell_apart(json_text(one), json_text(other));
        if is_readable(binding, screen) && is_readable(other_binding, other_screen) && json_text(
            one,
        ) == json_text(other) {
            assert(one == other);
            assert(one->List_0[0] == other->List_0[0]);
            assert(one->List_0[1] == other->List_0[1]);
        }
    }
}

/// Prompts of two agents in identified conversations have one fingerprint where nothing differs,
/// and different ones where the screen, the conversation, the terminal, the pane, the harness or
/// the state transition does, unless the digests of their printed evidence collide.
pub proof fn law_changed_evidence_changes_the_fingerprint(
    a: AgentInfo,
    screen: Seq<char>,
    b: AgentInfo,
    other_screen: Seq<char>,
)
    ensures
        ({
            let p = binding_of(a);
            let q = binding_of(b);
            &&& a.agent_session is Some && b.agent_session is Some
            &&& is_counted(a.state_change_seq) && is_counted(b.state_change_seq)
            &&& is_readable(p, screen) && is_readable(q, other_screen)
            &&& !do_collide(json_text(evidence(p, screen)), json_text(evidence(q, other_screen)))
        }) ==> (fingerprint_of(binding_of(a), screen) == fingerprint_of(
            binding_of(b),
            other_screen,
        ) <==> {
            &&& screen == other_screen
            &&& a.agent_session->0@ == b.agent_session->0@
            &&& a.terminal_id@ == b.terminal_id@
            &&& a.pane_id@ == b.pane_id@
            &&& text_view(a.agent) == text_view(b.agent)
            &&& a.state_change_seq == b.state_change_seq
        }),
{
    law_bindings_tell_agents_apart(a, b);
    law_fingerprints_tell_prompts_apart(binding_of(a), screen, binding_of(b), other_screen);
}

/// Unchanged evidence is not refused: a request that names the fingerprint of what is captured, on
/// a screen that did not change meanwhile, and a key of its menu, has that key encoded.
pub proof fn law_unchanged_prompts_are_answered(
    request: PromptModel,
    binding: JsonModel,
    seq: u64,
    screen: Seq<char>,
    dialog_at: nat,
)
    ensures
        seq % 2 == 0 && request.expected_prompt == Some(fingerprint_of(binding, screen)) && (
        request.option matches Some(option) && screen_menu(screen, dialog_at) matches Some(choices)
            && is_listed(choices, option)) ==> request.on_screen(
            binding,
            seq,
            screen,
            dialog_at,
            seq,
        ).1 == (ActionModel::EncodeKey { option: request.option->0 }),
{
}

/// A prompt whose answer was asked for by its fingerprint and by one of its keys.
pub open spec fn is_answered(request: PromptModel, shown: ShownModel) -> bool {
    &&& request.option matches Some(option) && is_listed(shown.choices, option)
    &&& request.expected_prompt == Some(fingerprint_of(shown.binding, shown.screen))
    &&& exists|dialog_at: nat| #[trigger]
        screen_menu(shown.screen, dialog_at) == Some(shown.choices)
}

/// A request gets as far as encoding and sending a key only for a prompt that it answers.
pub open spec fn guarded(request: PromptModel) -> bool {
    match request.stage {
        StageModel::Encoding { seq, shown } => seq % 2 == 0 && is_answered(request, shown),
        StageModel::Sending { shown } => is_answered(request, shown),
        _ => true,
    }
}

/// Every request is guarded from its start on, whatever the runtime finds.
pub proof fn law_requests_are_guarded(
    id: Seq<char>,
    params: AgentPromptAnswerParams,
    request: PromptModel,
    event: PromptEvent,
)
    ensures
        guarded(opened(id, params).0),
        guarded(request) ==> guarded(request.advance(event).0),
{
    if guarded(request) {
        if let (
            StageModel::Looking { lookup: Lookup::Screen, binding },
            PromptEvent::Captured { seq, screen, dialog_at, seq_after },
        ) = (request.stage, event) {
            if let Some(choices) = screen_menu(screen@, dialog_at as nat) {
                assert(screen_menu(screen@, dialog_at as nat) == Some(choices));
            }
        }
    }
}

/// A key is sent only for a request that names the fingerprint of the prompt's binding and
/// screen and one of the menu's keys, only on the content revision of the capture, and then it
/// is what the encoder made of the key, with nothing added.
pub proof fn law_only_a_guarded_key_is_sent(request: PromptModel, event: PromptEvent)
    requires
        guarded(request),
    ensures
        request.advance(event).1 matches ActionModel::SendKey { seq, keys } ==> {
            &&& request.stage matches StageModel::Encoding { seq: captured, shown } && captured
                == seq && is_answered(request, shown)
            &&& event matches PromptEvent::Encoded(Some(parts)) && keys == joined(parts@)
        },
        request.advance(event).1 matches ActionModel::EncodeKey { option } ==> request.option
            == Some(option),
{
}

/// A request without an option never has a key encoded or sent.
pub proof fn law_inspecting_sends_nothing(request: PromptModel, event: PromptEvent)
    requires
        guarded(request),
        request.option is None,
    ensures
        !(request.advance(event).1 is EncodeKey),
        !(request.advance(event).1 is SendKey),
        request.advance(event).0.option is None,
{
}

/// That a key was queued is reported only after it was sent and accepted for transport.
pub proof fn law_queued_means_sent(request: PromptModel, event: PromptEvent)
    ensures
        request.advance(event).1 matches ActionModel::Respond(response) ==> (response.outcome
            matches Ok(ResultModel::NativePrompt { prompt }) ==> (prompt.at("input_queued"@)
            == JsonModel::Bool(true) <==> request.stage is Sending)),
{
    reveal_strlit("binding");
    reveal_strlit("screen");
    reveal_strlit("options");
    reveal_strlit("fingerprint");
    reveal_strlit("input_queued");
    reveal_strlit("acceptance");
    assert("acceptance"@.len() != "input_queued"@.len());
}

/// How far a request has come, as a number.
pub open spec fn progress(request: PromptModel) -> int {
    match request.stage {
        StageModel::Agent => 0,
        StageModel::Looking { lookup, .. } => match lookup {
            Lookup::Target => 1,
            Lookup::Terminal => 2,
            Lookup::KnownAgent => 3,
            Lookup::Runtime => 4,
            Lookup::Foreground => 5,
            Lookup::Screen => 6,
        },
        StageModel::Encoding { .. } => 7,
        StageModel::Sending { .. } => 8,
        StageModel::Closed => 9,
    }
}

/// A request after some events.
pub open spec fn after(request: PromptModel, events: Seq<PromptEvent>) -> PromptModel
    decreases events.len(),
{
    if events.len() == 0 {
        request
    } else {
        after(request, events.drop_last()).advance(events.last()).0
    }
}

/// What a request asks for at one of some events.
pub open spec fn action_at(request: PromptModel, events: Seq<PromptEvent>, i: int) -> ActionModel {
    after(request, events.take(i)).advance(events[i]).1
}

/// A request moves on with every event that belongs to it, and stays as it is with any other.
pub proof fn law_requests_move_on(request: PromptModel, event: PromptEvent)
    ensures
        request.advance(event).1 is Wait ==> request.advance(event).0 == request,
        !(request.advance(event).1 is Wait) ==> progress(request.advance(event).0) > progress(
            request,
        ),
        request.advance(event).1 is Respond ==> request.advance(event).0.stage is Closed,
        request.stage is Closed ==> request.advance(event).1 is Wait,
{
}

proof fn lemma_progress(request: PromptModel, events: Seq<PromptEvent>, i: int, j: int)
    requires
        0 <= i <= j <= events.len(),
    ensures
        progress(after(request, events.take(i))) <= progress(after(request, events.take(j))),
    decreases j - i,
{
    if i < j {
        lemma_progress(request, events, i, j - 1);
        assert(events.take(j).drop_last() =~= events.take(j - 1));
        law_requests_move_on(after(request, events.take(j - 1)), events[j - 1]);
    }
}

/// Whatever happens, a request sends at most one key and is answered at most once, and no key is
/// sent after the answer.
pub proof fn law_one_key_one_answer(
    request: PromptModel,
    events: Seq<PromptEvent>,
    i: int,
    j: int,
)
    requires
        0 <= i < j < events.len(),
    ensures
        action_at(request, events, i) is SendKey ==> !(action_at(request, events, j) is SendKey),
        action_at(request, events, i) is Respond ==> action_at(request, events, j) is Wait,
{
    lemma_progress(request, events, i + 1, j);
    assert(events.take(i + 1).drop_last() =~= events.take(i));
    law_requests_move_on(after(request, events.take(i)), events[i]);
    law_requests_move_on(after(request, events.take(j)), events[j]);
}

/// A request starts with its agent being looked up where an option and the prompt that it answers
/// come together or not at all; any other is refused. It keeps what it was asked.
pub proof fn law_requests_start_with_their_agent(id: Seq<char>, params: AgentPromptAnswerParams)
    ensures
        ({
            let (request, action) = opened(id, params);
            let whole = params.option is Some <==> params.expected_prompt is Some;
            &&& request.id == id && request.target == params.target@
            &&& request.option == text_view(params.option)
            &&& request.expected_prompt == text_view(params.expected_prompt)
            &&& whole ==> request.stage is Agent && action == (ActionModel::FindAgent {
                target: params.target@,
            })
            &&& !whole ==> request.stage is Closed && is_refusal(
                action,
                id,
                "invalid_params"@,
                "option and expected_prompt must be supplied together"@,
            )
        }),
{
}

/// The request is refused, in these words.
pub open spec fn is_refusal(
    action: ActionModel,
    id: Seq<char>,
    code: Seq<char>,
    message: Seq<char>,
) -> bool {
    action matches ActionModel::Respond(response) && response.id == id && (
    response.outcome matches Err(error) && error.code == code && error.message == message)
}

/// No step changes what a request was asked.
pub proof fn law_requests_keep_what_they_were_asked(request: PromptModel, event: PromptEvent)
    ensures
        ({
            let next = request.advance(event).0;
            &&& next.id == request.id && next.target == request.target
            &&& next.option == request.option && next.expected_prompt == request.expected_prompt
        }),
{
}

/// A binding holds the terminal, the pane, the harness, the conversation and the state transition of
/// an agent, and nothing else.
pub proof fn law_bindings_hold_whose_prompt_it_is(agent: AgentInfo)
    ensures
        ({
            let binding = binding_of(agent);
            &&& binding.at("terminal_id"@) == JsonModel::Text(agent.terminal_id@)
            &&& binding.at("pane_id"@) == JsonModel::Text(agent.pane_id@)
            &&& binding.at("agent"@) == match agent.agent {
                Some(name) => JsonModel::Text(name@),
                None => JsonModel::Null,
            }
            &&& binding.at("native_session"@) == match agent.agent_session {
                Some(session) => session@,
                None => JsonModel::Null,
            }
            &&& binding.at("state_change_seq"@) == JsonModel::Number(
                number_of(agent.state_change_seq),
            )
            &&& binding matches JsonModel::Table(fields) && fields.dom() =~= set![
                "terminal_id"@,
                "pane_id"@,
                "agent"@,
                "native_session"@,
                "state_change_seq"@,
            ]
        }),
{
    reveal_strlit("terminal_id");
    reveal_strlit("pane_id");
    reveal_strlit("agent");
    reveal_strlit("native_session");
    reveal_strlit("state_change_seq");
    assert("terminal_id"@.len() == 11);
    assert("pane_id"@.len() == 7);
    assert("agent"@.len() == 5);
    assert("native_session"@.len() == 14);
    assert("state_change_seq"@.len() == 16);
}

/// An agent goes on to the lookups exactly if it is blocked, launched and in an identified
/// conversation; its binding is taken then. What the runtime says against the target is handed on.
pub proof fn law_blocked_agents_are_looked_up(request: PromptModel, found: Result<AgentInfo, ApiError>)
    requires
        request.stage is Agent,
    ensures
        ({
            let (next, action) = request.advance(PromptEvent::Agent(found));
            match found {
                Ok(agent) => if agent.agent_status is Blocked && !agent.launch_pending
                    && agent.agent_session is Some {
                    &&& next.stage == (StageModel::Looking {
                        lookup: Lookup::Target,
                        binding: binding_of(agent),
                    })
                    &&& action == (ActionModel::Look {
                        lookup: Lookup::Target,
                        target: request.target,
                    })
                } else {
                    next.stage is Closed && is_refusal(
                        action,
                        request.id,
                        "native_prompt_unavailable"@,
                        "a blocked native conversation is required"@,
                    )
                },
                Err(error) => next.stage is Closed && is_refusal(
                    action,
                    request.id,
                    error.code@,
                    error.message@,
                ),
            }
        }),
{
}

/// The target, its terminal, its known agent, its runtime and the agent in the foreground are looked
/// up one after the other, and then the screen; each has to be there. The binding stays.
pub proof fn law_lookups_follow_each_other(
    request: PromptModel,
    binding: JsonModel,
    target: Result<(), ApiError>,
)
    ensures
        ({
            let at = |lookup: Lookup| request.to(StageModel::Looking { lookup, binding });
            let goes = |from: Lookup, event: PromptEvent, to: Lookup|
                at(from).advance(event) == (
                    at(to),
                    ActionModel::Look { lookup: to, target: request.target },
                );
            let ends = |from: Lookup, words: Seq<char>|
                {
                    let (next, action) = at(from).advance(PromptEvent::Found(false));
                    next.stage is Closed && is_refusal(
                        action,
                        request.id,
                        "native_prompt_unavailable"@,
                        words,
                    )
                };
            &&& goes(Lookup::Target, PromptEvent::Target(Ok(())), Lookup::Terminal)
            &&& goes(Lookup::Terminal, PromptEvent::Found(true), Lookup::KnownAgent)
            &&& goes(Lookup::KnownAgent, PromptEvent::Found(true), Lookup::Runtime)
            &&& goes(Lookup::Runtime, PromptEvent::Found(true), Lookup::Foreground)
            &&& goes(Lookup::Foreground, PromptEvent::Found(true), Lookup::Screen)
            &&& ends(Lookup::Terminal, "native terminal is missing"@)
            &&& ends(Lookup::KnownAgent, "native agent is unknown"@)
            &&& ends(Lookup::Runtime, "native runtime is missing"@)
            &&& ends(Lookup::Foreground, "foreground agent changed"@)
            &&& target matches Err(error) ==> {
                let (next, action) = at(Lookup::Target).advance(PromptEvent::Target(target));
                next.stage is Closed && is_refusal(action, request.id, error.code@, error.message@)
            }
        }),
{
}

/// The dialog is what stands on the screen from its place on, and nothing where that is behind the
/// screen.
pub proof fn law_the_dialog_is_the_rest_of_the_screen(history: Seq<char>, rest: Seq<char>, more: nat)
    ensures
        dialog(history + rest, history.len()) == rest,
        dialog(rest, rest.len() + more) == Seq::<char>::empty(),
{
    assert(dialog(history + rest, history.len()) =~= rest);
    assert(dialog(rest, rest.len() + more) =~= Seq::<char>::empty());
}

/// What a document that shows a prompt says.
pub open spec fn shows(
    prompt: JsonModel,
    binding: JsonModel,
    screen: Seq<char>,
    choices: Seq<OptionModel>,
    queued: bool,
) -> bool {
    &&& prompt.at("binding"@) == binding
    &&& prompt.at("screen"@) == JsonModel::Text(screen)
    &&& prompt.at("fingerprint"@) == JsonModel::Text(
        text_digest(json_text(JsonModel::List(seq![binding, JsonModel::Text(screen)]))),
    )
    &&& prompt.at("input_queued"@) == JsonModel::Bool(queued)
    &&& prompt.at("acceptance"@) == JsonModel::Text("unverified"@)
    &&& prompt.at("options"@) matches JsonModel::List(options) && options.len() == choices.len()
        && forall|i: int|
        0 <= i < choices.len() ==> (#[trigger] options[i]).at("key"@) == JsonModel::Text(
            choices[i].key,
        ) && options[i].at("label"@) == JsonModel::Text(choices[i].label)
}

proof fn lemma_shows(shown: ShownModel, queued: bool)
    requires
        shown.fingerprint == fingerprint_of(shown.binding, shown.screen),
    ensures
        shows(
            prompt_model(shown, queued),
            shown.binding,
            shown.screen,
            shown.choices,
            queued,
        ),
{
    reveal_strlit("binding");
    reveal_strlit("screen");
    reveal_strlit("options");
    reveal_strlit("fingerprint");
    reveal_strlit("input_queued");
    reveal_strlit("acceptance");
    reveal_strlit("key");
    reveal_strlit("label");
    assert("binding"@.len() == 7);
    assert("screen"@.len() == 6);
    assert("options"@.len() == 7);
    assert("binding"@[0] == 'b');
    assert("options"@[0] == 'o');
    assert("fingerprint"@.len() == 11);
    assert("input_queued"@.len() == 12);
    assert("acceptance"@.len() == 10);
    assert("key"@.len() == 3);
    assert("label"@.len() == 5);
    let prompt = prompt_model(shown, queued);
    assert(prompt.at("options"@) == JsonModel::List(choices_model(shown.choices)));
}

/// What follows from a screen. It has to be stable, within 4096 bytes and 32 lines, and show a menu
/// in its dialog. A request without an option is then shown the prompt. One with an option has to
/// name the fingerprint of the binding and the whole screen and a key of the menu, and then has that
/// key encoded. Everything else is refused in its own words.
pub proof fn law_screens_are_shown_or_answered(
    request: PromptModel,
    binding: JsonModel,
    seq: u64,
    screen: String,
    dialog_at: usize,
    seq_after: u64,
)
    requires
        request.stage == (StageModel::Looking { lookup: Lookup::Screen, binding }),
    ensures
        ({
            let (next, action) = request.advance(
                PromptEvent::Captured { seq, screen, dialog_at, seq_after },
            );
            let fits = utf8_len(screen@) <= 4096 && lines(screen@).len() <= 32;
            let menu = menu_of(dialog(screen@, dialog_at as nat));
            let fingerprint = text_digest(
                json_text(JsonModel::List(seq![binding, JsonModel::Text(screen@)])),
            );
            let stable = seq % 2 == 0 && seq_after == seq;
            &&& !stable ==> next.stage is Closed && is_refusal(
                action,
                request.id,
                "native_prompt_changed"@,
                "terminal changed during capture"@,
            )
            &&& stable && (!fits || menu is None) ==> next.stage is Closed && is_refusal(
                action,
                request.id,
                "native_prompt_unsupported"@,
                "a complete bounded numbered menu is required"@,
            )
            &&& stable && fits ==> (menu matches Some(choices) ==> match request.option {
                None => {
                    &&& next.stage is Closed
                    &&& action matches ActionModel::Respond(response) && response.id == request.id
                        && (response.outcome matches Ok(ResultModel::NativePrompt { prompt })
                        && shows(prompt, binding, screen@, choices, false))
                },
                Some(option) => {
                    let listed = exists|i: int|
                        0 <= i < choices.len() && (#[trigger] choices[i]).key == option;
                    &&& request.expected_prompt != Some(fingerprint) ==> next.stage is Closed
                        && is_refusal(
                        action,
                        request.id,
                        "native_prompt_changed"@,
                        "prompt or native binding changed; inspect again"@,
                    )
                    &&& request.expected_prompt == Some(fingerprint) && !listed ==> next.stage is Closed
                        && is_refusal(
                        action,
                        request.id,
                        "invalid_option"@,
                        "option is not an explicit key in this prompt"@,
                    )
                    &&& request.expected_prompt == Some(fingerprint) && listed ==> {
                        &&& action == (ActionModel::EncodeKey { option })
                        &&& next.stage == (StageModel::Encoding {
                            seq,
                            shown: ShownModel { binding, screen: screen@, choices, fingerprint },
                        })
                    }
                },
            })
        }),
{
    if let Some(choices) = menu_of(dialog(screen@, dialog_at as nat)) {
        let fingerprint = fingerprint_of(binding, screen@);
        lemma_shows(ShownModel { binding, screen: screen@, choices, fingerprint }, false);
    }
}

/// Byte strings are joined whole and in their order.
pub proof fn law_keys_are_joined_whole(parts: Seq<Vec<u8>>, part: Vec<u8>)
    ensures
        joined(Seq::empty()) == Seq::<u8>::empty(),
        joined(parts.push(part)) == joined(parts) + part@,
{
    assert(parts.push(part).drop_last() =~= parts);
}

/// An encoded key is sent whole, on the content revision of the capture, and the request is answered
/// with the prompt and that the key was queued once it was; a key that cannot be encoded or is not
/// taken is refused in those words.
pub proof fn law_encoded_keys_are_sent(
    request: PromptModel,
    seq: u64,
    shown: ShownModel,
    keys: Vec<Vec<u8>>,
    reason: String,
)
    requires
        shown.fingerprint == fingerprint_of(shown.binding, shown.screen),
    ensures
        ({
            let encoding = request.to(StageModel::Encoding { seq, shown });
            let sending = request.to(StageModel::Sending { shown });
            let (gone, refused) = encoding.advance(PromptEvent::Encoded(None));
            let (closed, answer) = sending.advance(PromptEvent::Sent(Ok(())));
            let (unsent, words) = sending.advance(PromptEvent::Sent(Err(reason)));
            &&& encoding.advance(PromptEvent::Encoded(Some(keys))) == (
                sending,
                ActionModel::SendKey { seq, keys: joined(keys@) },
            )
            &&& gone.stage is Closed && is_refusal(
                refused,
                request.id,
                "invalid_option"@,
                "option key cannot be encoded"@,
            )
            &&& closed.stage is Closed
            &&& answer matches ActionModel::Respond(response) && response.id == request.id && (
            response.outcome matches Ok(ResultModel::NativePrompt { prompt }) && shows(
                prompt,
                shown.binding,
                shown.screen,
                shown.choices,
                true,
            ))
            &&& unsent.stage is Closed && is_refusal(
                words,
                request.id,
                "native_prompt_not_sent"@,
                reason@,
            )
        }),
{
    lemma_shows(shown, true);
}

/// A fingerprint is the digest of what is shown as a document: a list of whose prompt it is and of the
/// whole screen.
pub proof fn law_fingerprints_are_of_prompt_and_screen(
    binding: JsonModel,
    screen: Seq<char>,
    i: int,
)
    ensures
        ({
            let shown = JsonModel::List(seq![binding, JsonModel::Text(screen)]);
            let bytes = sha256(encode_utf8(json_text(shown)));
            0 <= i < bytes.len() ==> {
                let fingerprint = fingerprint_of(binding, screen);
                &&& fingerprint.len() == 2 * bytes.len()
                &&& 16 * hex_value(fingerprint[2 * i]) + hex_value(fingerprint[2 * i + 1])
                    == bytes[i]
            }
        }),
{
    let shown = JsonModel::List(seq![binding, JsonModel::Text(screen)]);
    if 0 <= i < sha256(encode_utf8(json_text(shown))).len() {
        law_digests_are_of_the_bytes_of_a_text(json_text(shown), i);
    }
}

/// A request under way and what is to be done stand for what they hold.
pub proof fn law_requests_stand_for_what_they_hold(
    request: PromptAnswer,
    shown: ShownPrompt,
    action: PromptAction,
)
    ensures
        request@.id == request.id@ && request@.target == request.params.target@,
        match request.params.option {
            Some(option) => request@.option == Some(option@),
            None => request@.option is None,
        },
        match request.params.expected_prompt {
            Some(expected) => request@.expected_prompt == Some(expected@),
            None => request@.expected_prompt is None,
        },
        match request.stage {
            Stage::Agent => request@.stage is Agent,
            Stage::Looking { lookup, binding } => request@.stage == (StageModel::Looking {
                lookup,
                binding: binding@,
            }),
            Stage::Encoding { seq, shown } => request@.stage == (StageModel::Encoding {
                seq,
                shown: shown@,
            }),
            Stage::Sending { shown } => request@.stage == (StageModel::Sending { shown: shown@ }),
            Stage::Closed => request@.stage is Closed,
        },
        shown@.binding == shown.binding@ && shown@.screen == shown.screen@,
        shown@.choices == menu_view(shown.choices@) && shown@.fingerprint == shown.fingerprint@,
        match action {
            PromptAction::FindAgent { target } => action@ == (ActionModel::FindAgent {
                target: target@,
            }),
            PromptAction::Look { lookup, target } => action@ == (ActionModel::Look {
                lookup,
                target: target@,
            }),
            PromptAction::EncodeKey { option } => action@ == (ActionModel::EncodeKey {
                option: option@,
            }),
            PromptAction::SendKey { seq, keys } => action@ == (ActionModel::SendKey {
                seq,
                keys: keys@,
            }),
            PromptAction::Respond(response) => action@ == ActionModel::Respond(response@),
            PromptAction::Wait => action@ is Wait,
        },
{
}

} // verus!
