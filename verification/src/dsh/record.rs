//! The record of how a session was launched, and its restoring.
use vstd::prelude::*;
use vstd::utf8::encode_utf8;

use super::acp::encode_frame;
use super::error::{invalid, invalid_data, DriverError, ErrorKind, FaultModel};
use super::options::{parse_view, Options, OptionsModel};
use crate::digest::{session_journal, text_digest};
use crate::json::{
    is_plain, json_document, json_text, number_of, parse_json, push_field, Json, JsonFailure,
    JsonModel, MAX_DEPTH,
};
use crate::text::{text_eq, utf8_len};

verus! {

/// The most bytes of a launch record.
pub const MAX_RECORD: usize = 65536;

/// How a session was launched, for the driver that restores it.
pub open spec fn record_model(
    session: Seq<char>,
    cwd: Seq<char>,
    binary: Seq<char>,
    journal: Seq<char>,
) -> JsonModel {
    JsonModel::Table(
        map![
            "protocol"@ => JsonModel::Number(number_of(1)),
            "session_id"@ => JsonModel::Text(session),
            "cwd"@ => JsonModel::Text(cwd),
            "binary"@ => JsonModel::Text(binary),
            "journal"@ => JsonModel::Text(journal),
        ],
    )
}

/// Options with what a record says of the executable and the journal, where they say nothing
/// themselves.
pub open spec fn rebound(
    options: OptionsModel,
    binary: Option<Seq<char>>,
    journal: Option<Seq<char>>,
) -> OptionsModel {
    OptionsModel {
        journal: match options.journal {
            Some(own) => Some(own),
            None => journal,
        },
        binary: if options.binary == "dsh"@ {
            match binary {
                Some(recorded) => recorded,
                None => "dsh"@,
            }
        } else {
            options.binary
        },
        ..options
    }
}

/// The options for a session that is restored from a record. It has to be the same session in the
/// same directory.
pub open spec fn restored(options: OptionsModel, record: JsonModel, cwd: Seq<char>) -> Result<
    OptionsModel,
    FaultModel,
> {
    if record.at("session_id"@).text() != options.resume || record.at("cwd"@).text() != Some(cwd) {
        Err(invalid_data("DSH restore binding changed"@))
    } else {
        Ok(rebound(options, record.at("binary"@).text(), record.at("journal"@).text()))
    }
}

/// The options for a session, by how the bytes of its record read.
pub open spec fn restored_from(
    options: OptionsModel,
    document: Result<JsonModel, (bool, Seq<char>)>,
    cwd: Seq<char>,
) -> Result<OptionsModel, FaultModel> {
    match document {
        Ok(record) => restored(options, record, cwd),
        Err((eof, text)) => Err(
            FaultModel {
                kind: if eof {
                    ErrorKind::UnexpectedEof
                } else {
                    ErrorKind::InvalidData
                },
                message: text,
            },
        ),
    }
}

/// The options for a session that is restored from the bytes of its record.
pub open spec fn restoring(options: OptionsModel, raw: Seq<u8>, cwd: Seq<char>) -> Result<
    OptionsModel,
    FaultModel,
> {
    if raw.len() > MAX_RECORD {
        Err(invalid_data("oversized DSH launch record"@))
    } else {
        restored_from(options, json_document(raw), cwd)
    }
}

proof fn lemma_record(session: Seq<char>, cwd: Seq<char>, binary: Seq<char>, journal: Seq<char>)
    ensures
        ({
            let record = record_model(session, cwd, binary, journal);
            &&& is_plain(record, MAX_DEPTH as nat)
            &&& record.at("session_id"@).text() == Some(session)
            &&& record.at("cwd"@).text() == Some(cwd)
            &&& record.at("binary"@).text() == Some(binary)
            &&& record.at("journal"@).text() == Some(journal)
        }),
{
    reveal_strlit("session_id");
    reveal_strlit("cwd");
    reveal_strlit("binary");
    reveal_strlit("journal");
    assert("session_id"@.len() == 10);
    assert("cwd"@.len() == 3);
    assert("binary"@.len() == 6);
    assert("journal"@.len() == 7);
    reveal_with_fuel(is_plain, 2);
}

/// Where the journal of a session is kept.
#[derive(Debug, PartialEq, Eq)]
pub enum Journal {
    /// At a path that was given.
    Given(String),
    /// Beside the record, under a name of the session's own.
    Own(String),
}

/// Says where the journal of a session is kept.
pub fn journal_of(options: &Options, session: &str) -> (journal: Journal)
    ensures
        match (journal, options@.journal) {
            (Journal::Given(path), Some(given)) => path@ == given,
            (Journal::Own(name), None) => name@ == text_digest(session@) + ".json"@,
            _ => false,
        },
{
    match &options.journal {
        Some(path) => Journal::Given(path.clone()),
        None => Journal::Own(session_journal(session)),
    }
}

/// Writes the record of a session as a line. From it, where it is within bounds, the session is
/// restored in the same directory, with its executable and its journal.
pub fn write_record(session: &str, cwd: &str, binary: &str, journal: &str) -> (line: String)
    ensures
        line@ == json_text(record_model(session@, cwd@, binary@, journal@)) + "\n"@,
        utf8_len(line@) <= MAX_RECORD ==> forall|options: OptionsModel|
            options.resume == Some(session@) ==> #[trigger] restoring(
                options,
                encode_utf8(line@),
                cwd@,
            ) == Ok::<OptionsModel, FaultModel>(rebound(options, Some(binary@), Some(journal@))),
{
    let mut fields: Vec<(String, Json)> = Vec::new();
    push_field(&mut fields, "protocol", Json::of_u64(1));
    push_field(&mut fields, "session_id", Json::of_text(session));
    push_field(&mut fields, "cwd", Json::of_text(cwd));
    push_field(&mut fields, "binary", Json::of_text(binary));
    push_field(&mut fields, "journal", Json::of_text(journal));
    proof {
        lemma_record(session@, cwd@, binary@, journal@);
    }
    encode_frame(&Json::Table(fields))
}

/// Fills options in from a record.
pub fn restore_from(
    options: Options,
    read: Result<Json, JsonFailure>,
    cwd: &str,
) -> (filled: Result<Options, DriverError>)
    requires
        options@.resume is Some,
    ensures
        parse_view(filled) == restored_from(
            options@,
            match read {
                Ok(record) => Ok(record@),
                Err(failure) => Err((failure.eof, failure.text@)),
            },
            cwd@,
        ),
{
    let record = match read {
        Ok(record) => record,
        Err(failure) => {
            let kind = if failure.eof {
                ErrorKind::UnexpectedEof
            } else {
                ErrorKind::InvalidData
            };
            return Err(DriverError { kind, message: failure.text });
        },
    };
    let same = match &options.resume {
        Some(session) => record.says("session_id", session.as_str()),
        None => false,
    };
    if !same || !record.says("cwd", cwd) {
        return Err(invalid("DSH restore binding changed"));
    }
    let mut filled = options;
    if filled.journal.is_none() {
        if let Some(journal) = record.text_at("journal") {
            filled.journal = Some(journal.to_string());
        }
    }
    if text_eq(filled.binary.as_str(), "dsh") {
        if let Some(binary) = record.text_at("binary") {
            filled.binary = binary.to_string();
        }
    }
    Ok(filled)
}

/// Fills options in from the bytes of a record.
pub fn restore(options: Options, raw: &[u8], cwd: &str) -> (filled: Result<Options, DriverError>)
    requires
        options@.resume is Some,
    ensures
        parse_view(filled) == restoring(options@, raw@, cwd@),
{
    if raw.len() > MAX_RECORD {
        return Err(invalid("oversized DSH launch record"));
    }
    restore_from(options, parse_json(raw), cwd)
}

/// A record restores a session exactly if it is of that session and of the same directory. What the
/// options name themselves stays; a journal that they do not name, and an executable that is the
/// default, are those of the record, where it has them. Nothing else changes, least of all the
/// prompt.
pub proof fn law_records_restore_their_session(
    options: OptionsModel,
    record: JsonModel,
    cwd: Seq<char>,
    session: Seq<char>,
)
    requires
        options.resume == Some(session),
    ensures
        record.at("session_id"@) != JsonModel::Text(session) || record.at("cwd"@)
            != JsonModel::Text(cwd) ==> restored(options, record, cwd) == Err::<
            OptionsModel,
            FaultModel,
        >(FaultModel { kind: ErrorKind::InvalidData, message: "DSH restore binding changed"@ }),
        record.at("session_id"@) == JsonModel::Text(session) && record.at("cwd"@)
            == JsonModel::Text(cwd) ==> (restored(options, record, cwd) matches Ok(filled) && {
            &&& filled.resume == options.resume && filled.initial == options.initial
            &&& filled.model == options.model && filled.effort == options.effort
            &&& filled.catalog == options.catalog
            &&& options.journal is Some ==> filled.journal == options.journal
            &&& options.journal is None ==> match record.at("journal"@) {
                JsonModel::Text(path) => filled.journal == Some(path),
                _ => filled.journal is None,
            }
            &&& options.binary != "dsh"@ ==> filled.binary == options.binary
            &&& options.binary == "dsh"@ ==> match record.at("binary"@) {
                JsonModel::Text(binary) => filled.binary == binary,
                _ => filled.binary == "dsh"@,
            }
        }),
{
}

/// The bytes of a record are read up to 65536 of them; bytes that are no document are refused in the
/// reader's words, as ending too early where they do.
pub proof fn law_records_are_read_within_bounds(
    options: OptionsModel,
    raw: Seq<u8>,
    cwd: Seq<char>,
)
    ensures
        raw.len() > 65536 ==> restoring(options, raw, cwd) == Err::<OptionsModel, FaultModel>(
            FaultModel { kind: ErrorKind::InvalidData, message: "oversized DSH launch record"@ },
        ),
        raw.len() <= 65536 ==> match json_document(raw) {
            Ok(record) => restoring(options, raw, cwd) == restored(options, record, cwd),
            Err((true, words)) => restoring(options, raw, cwd) == Err::<OptionsModel, FaultModel>(
                FaultModel { kind: ErrorKind::UnexpectedEof, message: words },
            ),
            Err((false, words)) => restoring(options, raw, cwd) == Err::<OptionsModel, FaultModel>(
                FaultModel { kind: ErrorKind::InvalidData, message: words },
            ),
        },
{
}

/// A record holds the session, its directory, its executable and its journal.
pub proof fn law_records_hold_how_it_was_launched(
    session: Seq<char>,
    cwd: Seq<char>,
    binary: Seq<char>,
    journal: Seq<char>,
)
    ensures
        ({
            let record = record_model(session, cwd, binary, journal);
            &&& record.at("protocol"@) == JsonModel::Number(number_of(1))
            &&& record.at("session_id"@) == JsonModel::Text(session)
            &&& record.at("cwd"@) == JsonModel::Text(cwd)
            &&& record.at("binary"@) == JsonModel::Text(binary)
            &&& record.at("journal"@) == JsonModel::Text(journal)
        }),
{
    lemma_record(session, cwd, binary, journal);
    reveal_strlit("protocol");
    reveal_strlit("session_id");
    reveal_strlit("cwd");
    reveal_strlit("binary");
    reveal_strlit("journal");
    assert("protocol"@.len() == 8);
    assert("session_id"@.len() == 10);
    assert("cwd"@.len() == 3);
    assert("binary"@.len() == 6);
    assert("journal"@.len() == 7);
}

} // verus!
