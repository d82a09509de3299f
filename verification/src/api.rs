//! Requests to the runtime and their answers.
use vstd::prelude::*;

use crate::activity::{
    answered, is_bounded, is_first_expiry, law_the_first_expiry_is_the_smallest, takes,
    ActivityReportParams, ActivityState, Nanos, ReportModel,
};
use crate::json::{json_text, print_json, push_field, Json, JsonModel};

verus! {

/// Why a request was refused.
#[derive(Debug, PartialEq)]
pub struct ApiError {
    pub code: String,
    pub message: String,
}

/// What a request brought.
#[derive(Debug, PartialEq)]
pub enum ApiResult {
    ActivityReported { changed: bool },
    NativePrompt { prompt: Json },
}

/// The answer to the request of that name.
#[derive(Debug, PartialEq)]
pub struct ApiResponse {
    pub id: String,
    pub outcome: Result<ApiResult, ApiError>,
}

/// The content of an `ApiResult`.
pub enum ResultModel {
    ActivityReported { changed: bool },
    NativePrompt { prompt: JsonModel },
}

/// The content of an `ApiError`.
pub struct ErrorModel {
    pub code: Seq<char>,
    pub message: Seq<char>,
}

/// The content of an `ApiResponse`.
pub struct ResponseModel {
    pub id: Seq<char>,
    pub outcome: Result<ResultModel, ErrorModel>,
}

impl View for ApiError {
    type V = ErrorModel;

    open spec fn view(&self) -> ErrorModel {
        ErrorModel { code: self.code@, message: self.message@ }
    }
}

impl View for ApiResult {
    type V = ResultModel;

    open spec fn view(&self) -> ResultModel {
        match *self {
            ApiResult::ActivityReported { changed } => ResultModel::ActivityReported { changed },
            ApiResult::NativePrompt { prompt } => ResultModel::NativePrompt { prompt: prompt@ },
        }
    }
}

impl View for ApiResponse {
    type V = ResponseModel;

    open spec fn view(&self) -> ResponseModel {
        ResponseModel {
            id: self.id@,
            outcome: match self.outcome {
                Ok(result) => Ok(result@),
                Err(error) => Err(error@),
            },
        }
    }
}

/// The answer that refuses a request.
pub open spec fn refusal(id: Seq<char>, code: Seq<char>, message: Seq<char>) -> ResponseModel {
    ResponseModel { id, outcome: Err(ErrorModel { code, message }) }
}

/// Refuses a request.
pub fn encode_error(id: String, code: &str, message: &str) -> (response: ApiResponse)
    ensures
        response@ == refusal(id@, code@, message@),
{
    ApiResponse {
        id,
        outcome: Err(ApiError { code: code.to_string(), message: message.to_string() }),
    }
}

/// What a request brought, as a document.
pub open spec fn result_document(result: ResultModel) -> JsonModel {
    JsonModel::Table(
        match result {
            ResultModel::ActivityReported { changed } => map![
                "changed"@ => JsonModel::Bool(changed),
            ],
            ResultModel::NativePrompt { prompt } => map!["prompt"@ => prompt],
        },
    )
}

/// An answer as a document: its name, and what the request brought or why it was refused.
pub open spec fn response_document(response: ResponseModel) -> JsonModel {
    let named = map!["id"@ => JsonModel::Text(response.id)];
    JsonModel::Table(
        match response.outcome {
            Ok(result) => named.insert("result"@, result_document(result)),
            Err(error) => named.insert(
                "error"@,
                JsonModel::Table(
                    map![
                        "code"@ => JsonModel::Text(error.code),
                        "message"@ => JsonModel::Text(error.message),
                    ],
                ),
            ),
        },
    )
}

/// Writes an answer.
pub fn encode_response(response: &ApiResponse) -> (text: String)
    ensures
        text@ == json_text(response_document(response@)),
{
    let mut fields: Vec<(String, Json)> = Vec::new();
    push_field(&mut fields, "id", Json::of_text(response.id.as_str()));
    let mut inner: Vec<(String, Json)> = Vec::new();
    match &response.outcome {
        Ok(result) => {
            match result {
                ApiResult::ActivityReported { changed } => {
                    push_field(&mut inner, "changed", Json::Bool(*changed));
                },
                ApiResult::NativePrompt { prompt } => {
                    push_field(&mut inner, "prompt", prompt.clone());
                },
            }
            push_field(&mut fields, "result", Json::Table(inner));
        },
        Err(error) => {
            push_field(&mut inner, "code", Json::of_text(error.code.as_str()));
            push_field(&mut inner, "message", Json::of_text(error.message.as_str()));
            push_field(&mut fields, "error", Json::Table(inner));
        },
    }
    print_json(&Json::Table(fields))
}

/// The earlier of two moments, where there is one.
pub open spec fn earlier(a: Option<Nanos>, b: Option<Nanos>) -> Option<Nanos> {
    match (a, b) {
        (Some(x), Some(y)) => Some(
            if x < y {
                x
            } else {
                y
            },
        ),
        (Some(x), None) => Some(x),
        (None, y) => y,
    }
}

/// The runtime as far as activity reports reach it.
pub struct App {
    /// What the sources reported.
    pub activity: ActivityState,
    /// The first moment at which metadata of an agent is over.
    pub agent_metadata_expiry: Option<Nanos>,
    /// The moment at which the runtime is to look for metadata that is over.
    pub metadata_deadline: Option<Nanos>,
}

/// The runtime wakes up for the first of all moments at which something is over.
pub open spec fn is_synced(
    held: Map<Seq<char>, ReportModel>,
    agent_metadata_expiry: Option<Nanos>,
    deadline: Option<Nanos>,
) -> bool {
    exists|moment: Option<Nanos>| #[trigger]
        is_first_expiry(held, moment) && deadline == earlier(agent_metadata_expiry, moment)
}

impl App {
    /// Moves the deadline to the first moment at which metadata is over.
    pub fn sync_agent_metadata_deadline(&mut self)
        requires
            old(self).activity.wf(),
        ensures
            final(self).activity == old(self).activity,
            final(self).agent_metadata_expiry == old(self).agent_metadata_expiry,
            is_synced(
                old(self).activity@,
                old(self).agent_metadata_expiry,
                final(self).metadata_deadline,
            ),
    {
        let moment = self.activity.next_expiry();
        self.metadata_deadline = match (self.agent_metadata_expiry, moment) {
            (Some(a), Some(b)) => if a < b {
                Some(a)
            } else {
                Some(b)
            },
            (Some(a), None) => Some(a),
            (None, b) => b,
        };
        assert(is_first_expiry(self.activity@, moment));
    }

    /// Takes an activity report at a moment and answers it. A report touches no pane, agent or
    /// workspace: only what is held of activity, and the deadline at which that is looked at.
    pub fn handle_activity_report(
        &mut self,
        id: String,
        params: ActivityReportParams,
        now: Nanos,
    ) -> (response: ApiResponse)
        requires
            old(self).activity.wf(),
            takes(old(self).activity@, params, now) ==> now + params.ttl_ms * 1_000_000
                <= u128::MAX,
        ensures
            final(self).activity.wf(),
            final(self).activity@ == answered(old(self).activity@, params, now).0,
            is_bounded(final(self).activity@),
            final(self).agent_metadata_expiry == old(self).agent_metadata_expiry,
            match answered(old(self).activity@, params, now).1 {
                Ok(changed) => {
                    &&& response@ == (ResponseModel {
                        id: id@,
                        outcome: Ok(ResultModel::ActivityReported { changed }),
                    })
                    &&& is_synced(
                        final(self).activity@,
                        old(self).agent_metadata_expiry,
                        final(self).metadata_deadline,
                    )
                },
                Err(message) => {
                    &&& response@ == refusal(id@, "invalid_params"@, message)
                    &&& final(self).metadata_deadline == old(self).metadata_deadline
                },
            },
    {
        match self.activity.report(params, now) {
            Ok(changed) => {
                self.sync_agent_metadata_deadline();
                ApiResponse { id, outcome: Ok(ApiResult::ActivityReported { changed }) }
            },
            Err(message) => encode_error(id, "invalid_params", message),
        }
    }
}

/// The runtime wakes up at the first of all moments at which something is over, its agents' metadata
/// with it, and at none where nothing will be.
pub proof fn law_the_deadline_is_the_first_moment(
    held: Map<Seq<char>, ReportModel>,
    agent_metadata_expiry: Option<Nanos>,
    deadline: Option<Nanos>,
    name: Seq<char>,
)
    requires
        is_synced(held, agent_metadata_expiry, deadline),
    ensures
        held.contains_key(name) ==> (deadline matches Some(d) && d <= held[name].deadline),
        agent_metadata_expiry matches Some(moment) ==> (deadline matches Some(d) && d <= moment),
        deadline matches Some(d) ==> agent_metadata_expiry == Some(d) || exists|source: Seq<char>|
            #[trigger]
            held.contains_key(source) && held[source].deadline == d,
{
    let moment = choose|moment: Option<Nanos>| #[trigger]
        is_first_expiry(held, moment) && deadline == earlier(agent_metadata_expiry, moment);
    law_the_first_expiry_is_the_smallest(held, moment, name);
}

/// An answer names its request, and holds either what the request brought or why it was refused,
/// never both, and nothing else.
pub proof fn law_answers_say_what_came_of_a_request(response: ResponseModel, name: Seq<char>)
    ensures
        ({
            let document = response_document(response);
            &&& document.at("id"@) == JsonModel::Text(response.id)
            &&& match response.outcome {
                Ok(ResultModel::ActivityReported { changed }) => document.at("result"@).at(
                    "changed"@,
                ) == JsonModel::Bool(changed),
                Ok(ResultModel::NativePrompt { prompt }) => document.at("result"@).at("prompt"@)
                    == prompt,
                Err(error) => document.at("error"@).at("code"@) == JsonModel::Text(error.code)
                    && document.at("error"@).at("message"@) == JsonModel::Text(error.message),
            }
            &&& document.get("error"@) is Some <==> response.outcome is Err
            &&& document.get("result"@) is Some <==> response.outcome is Ok
            &&& name != "id"@ && name != "result"@ && name != "error"@ ==> document.get(
                name,
            ) is None
        }),
{
    reveal_strlit("id");
    reveal_strlit("result");
    reveal_strlit("error");
    reveal_strlit("code");
    reveal_strlit("message");
    assert("id"@.len() == 2);
    assert("result"@.len() == 6);
    assert("error"@.len() == 5);
    assert("code"@.len() == 4);
    assert("message"@.len() == 7);
}

/// A refusal says why, under the name of its request.
pub proof fn law_refusals_say_why(id: Seq<char>, code: Seq<char>, message: Seq<char>)
    ensures
        refusal(id, code, message).id == id,
        refusal(id, code, message).outcome matches Err(error) && error.code == code
            && error.message == message,
{
}

/// An answer stands for what it holds.
pub proof fn law_answers_stand_for_what_they_hold(response: ApiResponse)
    ensures
        response@.id == response.id@,
        match response.outcome {
            Ok(ApiResult::ActivityReported { changed }) => response@.outcome == Ok::<
                ResultModel,
                ErrorModel,
            >(ResultModel::ActivityReported { changed }),
            Ok(ApiResult::NativePrompt { prompt }) => response@.outcome == Ok::<
                ResultModel,
                ErrorModel,
            >(ResultModel::NativePrompt { prompt: prompt@ }),
            Err(error) => response@.outcome == Err::<ResultModel, ErrorModel>(
                ErrorModel { code: error.code@, message: error.message@ },
            ),
        },
{
}

} // verus!
