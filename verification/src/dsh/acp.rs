//! The agent protocol: one JSON document on each line, in the shape of JSON-RPC.
use vstd::prelude::*;
use vstd::utf8::{encode_scalar, encode_utf8};

use super::error::{invalid, invalid_about, invalid_data, DriverError, ErrorKind, FaultModel};
use crate::json::{
    is_plain, json_document, json_text, number_of, parse_json, print_json, push_field,
    signed_number, table_model, Json, JsonFailure, JsonModel, MAX_DEPTH,
};
use crate::text::{lemma_utf8_add, utf8_len};

verus! {

/// The most bytes of a line, its newline with them.
pub const MAX_FRAME: usize = 1048576;

/// What is wrong with a line before it is read: nothing came, or it is not a whole line.
pub open spec fn line_fault(line: Seq<u8>) -> Option<FaultModel> {
    if line.len() == 0 {
        Some(FaultModel { kind: ErrorKind::UnexpectedEof, message: "DSH ACP disconnected"@ })
    } else if line.len() > MAX_FRAME || line.last() != 10 {
        Some(invalid_data("oversized ACP frame"@))
    } else {
        None
    }
}

/// The document on a line.
pub open spec fn frame_of(line: Seq<u8>) -> Result<JsonModel, FaultModel> {
    match line_fault(line) {
        Some(fault) => Err(fault),
        None => read_frame(json_document(line)),
    }
}

pub open spec fn read_frame(document: Result<JsonModel, (bool, Seq<char>)>) -> Result<
    JsonModel,
    FaultModel,
> {
    match document {
        Ok(frame) => Ok(frame),
        Err((_, text)) => Err(invalid_data("invalid ACP frame: "@ + text)),
    }
}

/// What a result stands for.
pub open spec fn frame_view(result: Result<Json, DriverError>) -> Result<JsonModel, FaultModel> {
    match result {
        Ok(json) => Ok(json@),
        Err(error) => Err(error@),
    }
}

/// Checks that a line is a whole one and within bounds. The line is what was read up to a newline
/// or to one byte more than a line may have.
pub fn check_line(line: &[u8]) -> (checked: Result<(), DriverError>)
    ensures
        match (checked, line_fault(line@)) {
            (Ok(_), None) => true,
            (Err(error), Some(fault)) => error@ == fault,
            _ => false,
        },
{
    if line.len() == 0 {
        return Err(
            DriverError {
                kind: ErrorKind::UnexpectedEof,
                message: "DSH ACP disconnected".to_string(),
            },
        );
    }
    if line.len() > MAX_FRAME || line[line.len() - 1] != 10 {
        return Err(invalid("oversized ACP frame"));
    }
    Ok(())
}

/// Takes a document that was read from a line, or words the failure to read it.
pub fn accept_frame(read: Result<Json, JsonFailure>) -> (frame: Result<Json, DriverError>)
    ensures
        frame_view(frame) == match read {
            Ok(json) => Ok(json@),
            Err(failure) => Err(invalid_data("invalid ACP frame: "@ + failure.text@)),
        },
        frame_view(frame) == read_frame(
            match read {
                Ok(json) => Ok(json@),
                Err(failure) => Err((failure.eof, failure.text@)),
            },
        ),
{
    match read {
        Ok(json) => Ok(json),
        Err(failure) => Err(invalid_about("invalid ACP frame: ", failure.text.as_str())),
    }
}

/// Reads the document on a line.
pub fn decode_frame(line: &[u8]) -> (frame: Result<Json, DriverError>)
    ensures
        frame_view(frame) == frame_of(line@),
{
    match check_line(line) {
        Ok(_) => accept_frame(parse_json(line)),
        Err(error) => Err(error),
    }
}

/// Writes a message as a line. A plain message that is within bounds is read back from it.
pub fn encode_frame(message: &Json) -> (line: String)
    ensures
        line@ == json_text(message@) + "\n"@,
        is_plain(message@, MAX_DEPTH as nat) && utf8_len(line@) <= MAX_FRAME ==> frame_of(
            encode_utf8(line@),
        ) == Ok::<JsonModel, FaultModel>(message@),
{
    let mut line = print_json(message);
    let ghost text = line@;
    line.push_str("\n");
    proof {
        lemma_utf8_add(text, "\n"@);
        lemma_newline();
        assert(encode_utf8(line@) =~= encode_utf8(text).push(10u8));
    }
    line
}

/// A newline takes one byte.
proof fn lemma_newline()
    ensures
        encode_utf8("\n"@) == seq![10u8],
{
    reveal_strlit("\n");
    let rest = "\n"@.drop_first();
    assert(rest.len() == 0);
    assert(encode_utf8(rest) =~= Seq::<u8>::empty());
    assert(encode_utf8("\n"@) =~= encode_scalar('\n' as u32));
    assert((10u32 & 0x7F) as u8 == 10u8) by (bit_vector);
}

/// A request of that number.
pub open spec fn request_model(id: u64, method: Seq<char>, params: JsonModel) -> JsonModel {
    JsonModel::Table(
        map![
            "jsonrpc"@ => JsonModel::Text("2.0"@),
            "id"@ => JsonModel::Number(number_of(id)),
            "method"@ => JsonModel::Text(method),
            "params"@ => params,
        ],
    )
}

/// A message that wants no answer.
pub open spec fn notice_model(method: Seq<char>, params: JsonModel) -> JsonModel {
    JsonModel::Table(
        map![
            "jsonrpc"@ => JsonModel::Text("2.0"@),
            "method"@ => JsonModel::Text(method),
            "params"@ => params,
        ],
    )
}

/// A table with one field.
pub open spec fn single(name: Seq<char>, value: JsonModel) -> JsonModel {
    JsonModel::Table(map![name => value])
}

/// A table with one text, the session's name.
pub open spec fn session_params(session: Seq<char>) -> JsonModel {
    single("sessionId"@, JsonModel::Text(session))
}

/// The answer to a request that the driver does not know.
pub open spec fn unsupported_model(id: JsonModel) -> JsonModel {
    JsonModel::Table(
        map![
            "jsonrpc"@ => JsonModel::Text("2.0"@),
            "id"@ => id,
            "error"@ => JsonModel::Table(
                map![
                    "code"@ => JsonModel::Number(signed_number(-32601i64)),
                    "message"@ => JsonModel::Text("Unsupported client method"@),
                ],
            ),
        ],
    )
}

/// The answer to a request for a permission.
pub open spec fn outcome_model(id: JsonModel, outcome: JsonModel) -> JsonModel {
    JsonModel::Table(
        map![
            "jsonrpc"@ => JsonModel::Text("2.0"@),
            "id"@ => id,
            "result"@ => single("outcome"@, outcome),
        ],
    )
}

/// Starts a message.
fn message() -> (fields: Vec<(String, Json)>)
    ensures
        table_model(fields@) == map!["jsonrpc"@ => JsonModel::Text("2.0"@)],
{
    let mut fields: Vec<(String, Json)> = Vec::new();
    push_field(&mut fields, "jsonrpc", Json::of_text("2.0"));
    fields
}

/// Writes a request.
pub fn request_message(id: u64, method: &str, params: Json) -> (json: Json)
    ensures
        json@ == request_model(id, method@, params@),
{
    let mut fields = message();
    push_field(&mut fields, "id", Json::of_u64(id));
    push_field(&mut fields, "method", Json::of_text(method));
    push_field(&mut fields, "params", params);
    Json::Table(fields)
}

/// Writes a message that wants no answer.
pub fn notice_message(method: &str, params: Json) -> (json: Json)
    ensures
        json@ == notice_model(method@, params@),
{
    let mut fields = message();
    push_field(&mut fields, "method", Json::of_text(method));
    push_field(&mut fields, "params", params);
    Json::Table(fields)
}

/// Writes a table with one field.
pub fn single_field(name: &str, value: Json) -> (json: Json)
    ensures
        json@ == single(name@, value@),
{
    let mut fields: Vec<(String, Json)> = Vec::new();
    push_field(&mut fields, name, value);
    Json::Table(fields)
}

/// Writes the answer to a request for a permission.
pub fn outcome_message(id: Json, outcome: Json) -> (json: Json)
    ensures
        json@ == outcome_model(id@, outcome@),
{
    let mut fields = message();
    push_field(&mut fields, "id", id);
    push_field(&mut fields, "result", single_field("outcome", outcome));
    Json::Table(fields)
}

/// Writes the answer to a request that the driver does not know.
pub fn unsupported_message(id: Json) -> (json: Json)
    ensures
        json@ == unsupported_model(id@),
{
    let mut error: Vec<(String, Json)> = Vec::new();
    push_field(&mut error, "code", Json::of_i64(-32601));
    push_field(&mut error, "message", Json::of_text("Unsupported client method"));
    let mut fields = message();
    push_field(&mut fields, "id", id);
    push_field(&mut fields, "error", Json::Table(error));
    Json::Table(fields)
}

/// A line of 1 to 1048576 bytes that ends with a newline is read as the document on it, or refused in
/// the reader's words. Nothing at all means that the agent is gone; any other line is refused.
pub proof fn law_whole_lines_are_read(line: Seq<u8>)
    ensures
        line.len() == 0 ==> frame_of(line) == Err::<JsonModel, FaultModel>(
            FaultModel { kind: ErrorKind::UnexpectedEof, message: "DSH ACP disconnected"@ },
        ),
        0 < line.len() <= 1048576 && line[line.len() - 1] == 10 ==> match json_document(line) {
            Ok(document) => frame_of(line) == Ok::<JsonModel, FaultModel>(document),
            Err((_, words)) => frame_of(line) == Err::<JsonModel, FaultModel>(
                FaultModel {
                    kind: ErrorKind::InvalidData,
                    message: "invalid ACP frame: "@ + words,
                },
            ),
        },
        line.len() > 1048576 || line.len() > 0 && line[line.len() - 1] != 10 ==> frame_of(line)
            == Err::<JsonModel, FaultModel>(
            FaultModel { kind: ErrorKind::InvalidData, message: "oversized ACP frame"@ },
        ),
{
}

/// Parameters that name a session hold its name and nothing else.
pub proof fn law_session_parameters_name_the_session(session: Seq<char>, name: Seq<char>)
    ensures
        session_params(session).at("sessionId"@) == JsonModel::Text(session),
        name != "sessionId"@ ==> session_params(session).get(name) is None,
{
}

} // verus!
