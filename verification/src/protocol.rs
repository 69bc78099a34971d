//! The line protocol between the host and the process that started it. The host
//! asks that process for each call of an import, one line for one line, and ends
//! with one line that tells the result or the failure.

use vstd::prelude::*;
use vstd::utf8::encode_utf8;

use crate::ability::{ability_checked, validate_ability, Ability};
use crate::error::{because, plain, told, ErrorKind, Failure, HostError};
use crate::json::{json_read, put, Json, JsonTree};
use crate::text::same;

verus! {

/// Who answers a call of an import.
#[derive(Debug, PartialEq, Eq)]
pub enum Provider {
    /// The session of the resident host.
    Resident,
    /// The process at the other end of the protocol, which is sent this message.
    Remote(Json),
}

/// The value of a [`Provider`].
#[verifier::ext_equal]
pub enum Answerer {
    Resident,
    Remote(JsonTree),
}

impl View for Provider {
    type V = Answerer;

    open spec fn view(&self) -> Answerer {
        match *self {
            Provider::Resident => Answerer::Resident,
            Provider::Remote(message) => Answerer::Remote(message@),
        }
    }
}

/// The message that asks for a call.
pub open spec fn call_tree(name: Seq<char>, ability: Ability, value: i64) -> JsonTree {
    JsonTree::Object(
        map![
            "type"@ => JsonTree::Text("provider-call"@),
            "import"@ => JsonTree::Text(name),
            "ability"@ => ability.tree(),
            "payload"@ => JsonTree::Object(map!["value"@ => JsonTree::Whole(value as int)]),
        ],
    )
}

/// Who answers a call: the session where there is one, else the protocol.
pub open spec fn answerer(
    name: Seq<char>,
    ability: Ability,
    value: i64,
    resident: bool,
    remote: bool,
) -> Result<Answerer, Failure> {
    match ability_checked(name, ability) {
        Err(failure) => Err(failure),
        Ok(_) => if resident {
            Ok(Answerer::Resident)
        } else if remote {
            Ok(Answerer::Remote(call_tree(name, ability, value)))
        } else {
            Err(plain(ErrorKind::NoProvider))
        },
    }
}

/// Admits a call of an import and decides who answers it. The ability is the one
/// that the import was bound with, and is checked at every call.
pub fn provider_call(
    name: &str,
    ability: &Ability,
    value: i64,
    resident: bool,
    remote: bool,
) -> (provider: Result<Provider, HostError>)
    ensures
        told(provider) == answerer(name@, *ability, value, resident, remote),
{
    match validate_ability(name, ability) {
        Err(error) => {
            return Err(error);
        },
        Ok(_) => {},
    }
    if resident {
        return Ok(Provider::Resident);
    }
    if !remote {
        return Err(HostError::plain(ErrorKind::NoProvider));
    }
    let mut payload: Vec<(String, Json)> = Vec::new();
    put(&mut payload, "value", Json::Signed(value));
    let inner: Json = Json::Object(payload);
    let mut entries: Vec<(String, Json)> = Vec::new();
    put(&mut entries, "type", Json::from_text("provider-call"));
    put(&mut entries, "import", Json::from_text(name));
    put(&mut entries, "ability", ability.to_json());
    put(&mut entries, "payload", inner);
    Ok(Provider::Remote(Json::Object(entries)))
}

/// What a message answers to a call of the import `name`.
pub open spec fn answered(name: Seq<char>, message: JsonTree) -> Result<i64, Failure> {
    if message.member_text("type"@) != Some("provider-result"@) {
        Err(plain(ErrorKind::ExpectedProviderResult))
    } else if message.member_text("import"@) != Some(name) {
        Err(plain(ErrorKind::ProviderImportMismatch))
    } else {
        match message.member_integer("value"@) {
            Some(value) => Ok(value),
            None => Err(plain(ErrorKind::ProviderValueMissing)),
        }
    }
}

/// Reads what a message answers to a call of the import `name`.
pub fn provider_result(name: &str, message: &Json) -> (value: Result<i64, HostError>)
    ensures
        told(value) == answered(name@, message@),
{
    let typed: bool = match message.get_text("type") {
        Some(kind) => same(kind.as_str(), "provider-result"),
        None => false,
    };
    if !typed {
        return Err(HostError::plain(ErrorKind::ExpectedProviderResult));
    }
    let matching: bool = match message.get_text("import") {
        Some(import) => same(import.as_str(), name),
        None => false,
    };
    if !matching {
        return Err(HostError::plain(ErrorKind::ProviderImportMismatch));
    }
    match message.get_integer("value") {
        Some(value) => Ok(value),
        None => Err(HostError::plain(ErrorKind::ProviderValueMissing)),
    }
}

/// What a line answers to a call of the import `name`. An empty line, without
/// even the line feed that ends one, is the end of the protocol.
pub open spec fn line_answered(name: Seq<char>, line: Seq<char>) -> Result<i64, Failure> {
    if line.len() == 0 {
        Err(plain(ErrorKind::ProviderClosed))
    } else {
        match json_read(encode_utf8(line)) {
            Err(cause) => Err(because(plain(ErrorKind::InvalidProviderResponse), cause)),
            Ok(message) => answered(name, message),
        }
    }
}

/// Reads what a line answers to a call of the import `name`.
pub fn provider_response(name: &str, line: &str) -> (value: Result<i64, HostError>)
    ensures
        told(value) == line_answered(name@, line@),
{
    if line.is_empty() {
        return Err(HostError::plain(ErrorKind::ProviderClosed));
    }
    match Json::read(line.as_bytes()) {
        Err(cause) => Err(
            HostError::plain(ErrorKind::InvalidProviderResponse).because(cause.as_str()),
        ),
        Ok(message) => provider_result(name, &message),
    }
}

/// The answer that gives `value` to a call of the import `name`.
pub open spec fn answer_tree(name: Seq<char>, value: i64) -> JsonTree {
    JsonTree::Object(
        map![
            "type"@ => JsonTree::Text("provider-result"@),
            "import"@ => JsonTree::Text(name),
            "value"@ => JsonTree::Whole(value as int),
        ],
    )
}

/// An answer gives its value to the import that it names, and to no other.
pub proof fn lemma_answer_is_for_its_import(name: Seq<char>, other: Seq<char>, value: i64)
    requires
        name != other,
    ensures
        answered(name, answer_tree(name, value)) == Ok::<i64, Failure>(value),
        answered(other, answer_tree(name, value)) == Err::<i64, Failure>(
            plain(ErrorKind::ProviderImportMismatch),
        ),
{
    reveal_strlit("type");
    reveal_strlit("import");
    reveal_strlit("value");
    assert("type"@.len() == 4 && "import"@.len() == 6 && "value"@.len() == 5);
    let message = answer_tree(name, value);
    assert(message.member("type"@) == Some(JsonTree::Text("provider-result"@)));
    assert(message.member("import"@) == Some(JsonTree::Text(name)));
    assert(message.member("value"@) == Some(JsonTree::Whole(value as int)));
}

/// The message that ends the protocol: the result of the run, or its failure.
pub open spec fn terminal_tree(outcome: Result<i64, Seq<char>>) -> JsonTree {
    match outcome {
        Ok(value) => JsonTree::Object(
            map![
                "type"@ => JsonTree::Text("result"@),
                "value"@ => JsonTree::Whole(value as int),
            ],
        ),
        Err(message) => JsonTree::Object(
            map![
                "type"@ => JsonTree::Text("error"@),
                "message"@ => JsonTree::Text(message),
            ],
        ),
    }
}

/// Tells the result of a run, or its failure.
pub fn terminal_message(outcome: &Result<i64, String>) -> (message: Json)
    ensures
        message@ == terminal_tree(
            match *outcome {
                Ok(value) => Ok(value),
                Err(text) => Err(text@),
            },
        ),
{
    let mut entries: Vec<(String, Json)> = Vec::new();
    match outcome {
        Ok(value) => {
            put(&mut entries, "type", Json::from_text("result"));
            put(&mut entries, "value", Json::Signed(*value));
        },
        Err(text) => {
            put(&mut entries, "type", Json::from_text("error"));
            put(&mut entries, "message", Json::from_text(text.as_str()));
        },
    }
    Json::Object(entries)
}

/// The notice of a call that failed.
pub open spec fn failure_tree(name: Seq<char>, message: Seq<char>) -> JsonTree {
    JsonTree::Object(
        map![
            "capability"@ => JsonTree::Text(name),
            "error"@ => JsonTree::Text(message),
            "type"@ => JsonTree::Text("provider-error"@),
        ],
    )
}

/// Tells that a call of an import failed.
pub fn failure_notice(name: &str, message: &str) -> (notice: Json)
    ensures
        notice@ == failure_tree(name@, message@),
{
    let mut entries: Vec<(String, Json)> = Vec::new();
    put(&mut entries, "capability", Json::from_text(name));
    put(&mut entries, "error", Json::from_text(message));
    put(&mut entries, "type", Json::from_text("provider-error"));
    Json::Object(entries)
}

} // verus!
