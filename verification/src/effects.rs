//! The effects of a resident component: the capabilities that a configuration
//! grants, and the session in which one run uses them. A session takes the
//! scalar effects in a chain: an HTTP result, then its durable checkpoint, then
//! a generation that reads it.

use std::sync::Arc;

use vstd::prelude::*;
use vstd::utf8::{decode_utf8, encode_utf8};

use crate::ability::{ability_checked, validate_ability, Ability, Import};
use crate::error::{about, because, plain, told, ErrorKind, Failure, HostError};
use crate::json::{json_text, lemma_trees_push, put, trees, Json, JsonTree};
use crate::storage::{admitted_line, append_json_line, i64_field, record_i64, HostPath};
use crate::text::{chars_of, same, trim, trimmed};
use crate::transaction::{
    read_request, requested, written, written_result, Request, StorageRequest,
};
use crate::value::{val_trees, Val, ValTree};

verus! {

/// A request to one HTTP endpoint, and its bounds.
#[derive(Debug, PartialEq, Eq)]
pub struct HttpCapability {
    pub endpoint: String,
    pub request_body: Json,
    /// The only argument that a component may call it with.
    pub request_code: i64,
    pub max_response_bytes: u64,
    pub deadline_ms: u64,
    pub audit_id: String,
}

/// An append-only log, and its bounds.
#[derive(Debug, PartialEq, Eq)]
pub struct StorageCapability {
    pub log: HostPath,
    pub max_write_bytes: u64,
    pub deadline_ms: u64,
    pub audit_id: String,
}

/// A generation by one model, and its bounds.
#[derive(Debug, PartialEq, Eq)]
pub struct LlmCapability {
    pub endpoint: String,
    pub model: String,
    pub prompt: String,
    /// What a component gets where text was generated.
    pub success_code: i64,
    pub max_request_bytes: u64,
    pub max_response_bytes: u64,
    pub deadline_ms: u64,
    pub audit_id: String,
}

/// The capabilities that a resident component is granted.
#[derive(Debug, PartialEq, Eq)]
pub struct ResidentCapabilityConfig {
    pub format: String,
    pub http: Option<HttpCapability>,
    pub storage: Option<StorageCapability>,
    pub llm: Option<LlmCapability>,
}

/// The value of an [`Import`].
#[verifier::ext_equal]
pub struct Grant {
    pub name: Seq<char>,
    pub target: Seq<char>,
    pub operation: Seq<char>,
    pub max_bytes: u64,
    pub max_items: u64,
    pub deadline_ms: u64,
    pub audit_id: Seq<char>,
}

impl View for Import {
    type V = Grant;

    open spec fn view(&self) -> Grant {
        Grant {
            name: self.name@,
            target: self.ability.target@,
            operation: self.ability.operation@,
            max_bytes: self.ability.max_bytes,
            max_items: self.ability.max_items,
            deadline_ms: self.ability.deadline_ms,
            audit_id: self.ability.audit_id@,
        }
    }
}

/// The values of a sequence of imports.
pub open spec fn grants(imports: Seq<Import>) -> Seq<Grant> {
    Seq::new(imports.len(), |i: int| imports[i]@)
}

impl HttpCapability {
    pub open spec fn grant(self) -> Grant {
        Grant {
            name: "aiueos-http-post"@,
            target: self.endpoint@,
            operation: "http/post"@,
            max_bytes: self.max_response_bytes,
            max_items: 1,
            deadline_ms: self.deadline_ms,
            audit_id: self.audit_id@,
        }
    }
}

impl StorageCapability {
    pub open spec fn grant(self) -> Grant {
        Grant {
            name: "aiueos-storage-transact"@,
            target: self.log.text@,
            operation: "storage/transact"@,
            max_bytes: self.max_write_bytes,
            max_items: 1,
            deadline_ms: self.deadline_ms,
            audit_id: self.audit_id@,
        }
    }
}

impl LlmCapability {
    pub open spec fn grant(self) -> Grant {
        Grant {
            name: "aiueos-llm-generate"@,
            target: self.endpoint@,
            operation: "llm/generate"@,
            max_bytes: self.max_response_bytes,
            max_items: 1,
            deadline_ms: self.deadline_ms,
            audit_id: self.audit_id@,
        }
    }
}

impl ResidentCapabilityConfig {
    /// What the configuration grants: one import for each capability it has.
    pub open spec fn grants(self) -> Seq<Grant> {
        let http = match self.http {
            Some(http) => seq![http.grant()],
            None => seq![],
        };
        let storage = match self.storage {
            Some(storage) => seq![storage.grant()],
            None => seq![],
        };
        let llm = match self.llm {
            Some(llm) => seq![llm.grant()],
            None => seq![],
        };
        http + storage + llm
    }
}

/// The imports that a configuration grants.
pub fn resident_imports(config: &ResidentCapabilityConfig) -> (imports: Vec<Import>)
    ensures
        grants(imports@) == config.grants(),
{
    let mut imports: Vec<Import> = Vec::new();
    match &config.http {
        Some(http) => {
            imports.push(
                Import {
                    name: "aiueos-http-post".to_owned(),
                    ability: Ability {
                        target: http.endpoint.clone(),
                        operation: "http/post".to_owned(),
                        max_bytes: http.max_response_bytes,
                        max_items: 1,
                        deadline_ms: http.deadline_ms,
                        audit_id: http.audit_id.clone(),
                    },
                },
            );
        },
        None => {},
    }
    match &config.storage {
        Some(storage) => {
            imports.push(
                Import {
                    name: "aiueos-storage-transact".to_owned(),
                    ability: Ability {
                        target: storage.log.text.clone(),
                        operation: "storage/transact".to_owned(),
                        max_bytes: storage.max_write_bytes,
                        max_items: 1,
                        deadline_ms: storage.deadline_ms,
                        audit_id: storage.audit_id.clone(),
                    },
                },
            );
        },
        None => {},
    }
    match &config.llm {
        Some(llm) => {
            imports.push(
                Import {
                    name: "aiueos-llm-generate".to_owned(),
                    ability: Ability {
                        target: llm.endpoint.clone(),
                        operation: "llm/generate".to_owned(),
                        max_bytes: llm.max_response_bytes,
                        max_items: 1,
                        deadline_ms: llm.deadline_ms,
                        audit_id: llm.audit_id.clone(),
                    },
                },
            );
        },
        None => {},
    }
    assert(grants(imports@) =~= config.grants());
    imports
}

/// The use that one run makes of its capabilities.
#[derive(Debug)]
pub struct EffectSession {
    pub config: Arc<ResidentCapabilityConfig>,
    pub http_response: Option<Json>,
    pub http_result: Option<i64>,
    pub stored_bytes: Option<i64>,
    pub events: Vec<Json>,
}

/// The value of an [`EffectSession`].
#[verifier::ext_equal]
pub struct Session {
    pub http_response: Option<JsonTree>,
    pub http_result: Option<i64>,
    pub stored_bytes: Option<i64>,
    pub events: Seq<JsonTree>,
}

impl View for EffectSession {
    type V = Session;

    open spec fn view(&self) -> Session {
        Session {
            http_response: match self.http_response {
                Some(json) => Some(json@),
                None => None,
            },
            http_result: self.http_result,
            stored_bytes: self.stored_bytes,
            events: trees(self.events@),
        }
    }
}

/// The event that records a scalar effect.
pub open spec fn event_tree(
    capability: Seq<char>,
    ability: Ability,
    request: i64,
    result: i64,
    response_bytes: nat,
    at_ms: int,
) -> JsonTree {
    JsonTree::Object(
        map![
            "ability-audit-id"@ => JsonTree::Text(ability.audit_id@),
            "at-ms"@ => JsonTree::Whole(at_ms),
            "capability"@ => JsonTree::Text(capability),
            "request"@ => JsonTree::Whole(request as int),
            "response-bytes"@ => JsonTree::Whole(response_bytes as int),
            "result"@ => JsonTree::Whole(result as int),
            "target"@ => JsonTree::Text(ability.target@),
        ],
    )
}

/// The event that records a write of structured storage.
pub open spec fn transaction_tree(
    ability: Ability,
    request: Request,
    version: i64,
    response_bytes: nat,
    at_ms: int,
) -> JsonTree {
    JsonTree::Object(
        map![
            "ability-audit-id"@ => JsonTree::Text(ability.audit_id@),
            "at-ms"@ => JsonTree::Whole(at_ms),
            "capability"@ => JsonTree::Text("aiueos-storage-transact"@),
            "operation"@ => JsonTree::Text(request.operation),
            "request-key"@ => JsonTree::Text(request.key),
            "response-bytes"@ => JsonTree::Whole(response_bytes as int),
            "result-version"@ => JsonTree::Whole(version as int),
            "target"@ => JsonTree::Text(ability.target@),
        ],
    )
}

/// The case of a variant that answers a call.
pub open spec fn answer_case(answer: ValTree) -> Seq<char> {
    match answer {
        ValTree::Variant(case, _) => case,
        _ => seq![],
    }
}

/// The version that an answer tells of its key, where the key has one.
pub open spec fn answer_version(answer: ValTree) -> Option<i64> {
    match answer {
        ValTree::Variant(_, Some(payload)) => match *payload {
            ValTree::Record(fields) => match i64_field(fields, "current-version"@) {
                Ok(version) => Some(version),
                Err(_) => None,
            },
            _ => None,
        },
        _ => None,
    }
}

/// The event that records a call of structured storage that was answered without
/// a write: the case of the answer, and the version of the key where it has one.
pub open spec fn refusal_tree(
    ability: Ability,
    request: Request,
    answer: ValTree,
    at_ms: int,
) -> JsonTree {
    let told = map![
        "ability-audit-id"@ => JsonTree::Text(ability.audit_id@),
        "at-ms"@ => JsonTree::Whole(at_ms),
        "capability"@ => JsonTree::Text("aiueos-storage-transact"@),
        "operation"@ => JsonTree::Text(request.operation),
        "request-key"@ => JsonTree::Text(request.key),
        "response-bytes"@ => JsonTree::Whole(0),
        "result-case"@ => JsonTree::Text(answer_case(answer)),
        "target"@ => JsonTree::Text(ability.target@),
    ];
    match answer_version(answer) {
        Some(version) => JsonTree::Object(
            told.insert("result-version"@, JsonTree::Whole(version as int)),
        ),
        None => JsonTree::Object(told),
    }
}

impl Session {
    /// The session after a further event.
    pub open spec fn with_event(self, event: JsonTree) -> Session {
        Session { events: self.events.push(event), ..self }
    }

    /// The session after an HTTP result, before its event.
    pub open spec fn with_http(self, response: JsonTree, result: i64) -> Session {
        Session { http_response: Some(response), http_result: Some(result), ..self }
    }

    /// The session after a checkpoint, before its event.
    pub open spec fn with_checkpoint(self, result: i64) -> Session {
        Session { stored_bytes: Some(result), ..self }
    }
}

/// What a call of a capability does outside the host.
#[derive(Debug, PartialEq, Eq)]
pub enum Effect {
    /// Posts `body` to `endpoint` and keeps the response.
    Post { endpoint: String, body: Json, deadline_ms: u64, max_response_bytes: u64 },
    /// Adds the response that was kept to the log.
    Checkpoint { log: HostPath, response: Json, max_write_bytes: u64 },
    /// Posts `body` to `endpoint` and reads the text that was generated.
    Generate { endpoint: String, body: Json, deadline_ms: u64, max_response_bytes: u64 },
}

/// The value of an [`Effect`].
#[verifier::ext_equal]
pub enum Action {
    Post { endpoint: Seq<char>, body: JsonTree, deadline_ms: u64, max_response_bytes: u64 },
    Checkpoint { log: HostPath, response: JsonTree, max_write_bytes: u64 },
    Generate { endpoint: Seq<char>, body: JsonTree, deadline_ms: u64, max_response_bytes: u64 },
}

impl View for Effect {
    type V = Action;

    open spec fn view(&self) -> Action {
        match *self {
            Effect::Post { endpoint, body, deadline_ms, max_response_bytes } => Action::Post {
                endpoint: endpoint@,
                body: body@,
                deadline_ms,
                max_response_bytes,
            },
            Effect::Checkpoint { log, response, max_write_bytes } => Action::Checkpoint {
                log,
                response: response@,
                max_write_bytes,
            },
            Effect::Generate { endpoint, body, deadline_ms, max_response_bytes } => {
                Action::Generate {
                    endpoint: endpoint@,
                    body: body@,
                    deadline_ms,
                    max_response_bytes,
                }
            },
        }
    }
}

/// The prompt of a generation: the configured one, and the text of its context.
pub open spec fn prompt_with(prompt: Seq<char>, context: Seq<char>) -> Seq<char> {
    prompt + "\n\nBounded provider context:\n"@ + context
}

/// The prompt of a generation whose context is an HTTP response.
pub open spec fn full_prompt(prompt: Seq<char>, context: JsonTree) -> Seq<char> {
    prompt_with(prompt, decode_utf8(json_text(context)))
}

/// The request of a generation.
pub open spec fn generation_tree(model: Seq<char>, prompt: Seq<char>) -> JsonTree {
    JsonTree::Object(
        map![
            "model"@ => JsonTree::Text(model),
            "prompt"@ => JsonTree::Text(prompt),
            "stream"@ => JsonTree::Bool(false),
        ],
    )
}

/// What a generation with this prompt does, where the prompt keeps within the
/// bound of a request.
pub open spec fn generation_action(llm: LlmCapability, prompt: Seq<char>) -> Result<
    Action,
    Failure,
> {
    if encode_utf8(prompt).len() > llm.max_request_bytes as usize {
        Err(plain(ErrorKind::LlmRequestOversize))
    } else {
        Ok(
            Action::Generate {
                endpoint: llm.endpoint@,
                body: generation_tree(llm.model@, prompt),
                deadline_ms: llm.deadline_ms,
                max_response_bytes: llm.max_response_bytes,
            },
        )
    }
}

/// What a call of the HTTP capability does.
pub open spec fn http_action(config: ResidentCapabilityConfig, value: i64) -> Result<
    Action,
    Failure,
> {
    match config.http {
        None => Err(plain(ErrorKind::HttpNotConfigured)),
        Some(http) => if value != http.request_code {
            Err(plain(ErrorKind::HttpRequestCode))
        } else {
            Ok(
                Action::Post {
                    endpoint: http.endpoint@,
                    body: http.request_body@,
                    deadline_ms: http.deadline_ms,
                    max_response_bytes: http.max_response_bytes,
                },
            )
        },
    }
}

/// What a scalar call of the storage capability does.
pub open spec fn storage_action(
    config: ResidentCapabilityConfig,
    session: Session,
    value: i64,
) -> Result<Action, Failure> {
    match config.storage {
        None => Err(plain(ErrorKind::StorageNotConfigured)),
        Some(storage) => match session.http_response {
            None => Err(plain(ErrorKind::StorageNeedsHttp)),
            Some(response) => if session.http_result != Some(value) {
                Err(plain(ErrorKind::StorageInputMismatch))
            } else {
                Ok(
                    Action::Checkpoint {
                        log: storage.log,
                        response,
                        max_write_bytes: storage.max_write_bytes,
                    },
                )
            },
        },
    }
}

/// What a call of the LLM capability does.
pub open spec fn llm_action(
    config: ResidentCapabilityConfig,
    session: Session,
    value: i64,
) -> Result<Action, Failure> {
    match config.llm {
        None => Err(plain(ErrorKind::LlmNotConfigured)),
        Some(llm) => if session.stored_bytes != Some(value) {
            Err(plain(ErrorKind::LlmCheckpointMismatch))
        } else {
            match session.http_response {
                None => Err(plain(ErrorKind::LlmNeedsHttp)),
                Some(context) => generation_action(llm, full_prompt(llm.prompt@, context)),
            }
        },
    }
}

/// What a scalar call of a capability does.
pub open spec fn action(
    config: ResidentCapabilityConfig,
    session: Session,
    name: Seq<char>,
    value: i64,
) -> Result<Action, Failure> {
    if name == "aiueos-http-post"@ {
        http_action(config, value)
    } else if name == "aiueos-storage-transact"@ {
        storage_action(config, session, value)
    } else if name == "aiueos-llm-generate"@ {
        llm_action(config, session, value)
    } else {
        Err(about(ErrorKind::CapabilityNotImplemented, name))
    }
}

/// Asks a model to go on from the configured prompt and the text of a context.
/// Both together must keep within the bound of a request.
pub fn generation_request(llm: &LlmCapability, context: &str) -> (effect: Result<
    Effect,
    HostError,
>)
    ensures
        told(effect) == generation_action(*llm, prompt_with(llm.prompt@, context@)),
{
    let mut prompt: String = llm.prompt.clone();
    prompt.append("\n\nBounded provider context:\n");
    prompt.append(context);
    if prompt.as_str().as_bytes().len() > llm.max_request_bytes as usize {
        return Err(HostError::plain(ErrorKind::LlmRequestOversize));
    }
    let mut entries: Vec<(String, Json)> = Vec::new();
    put(&mut entries, "model", Json::from_text(llm.model.as_str()));
    put(&mut entries, "prompt", Json::Text(prompt));
    put(&mut entries, "stream", Json::Bool(false));
    Ok(
        Effect::Generate {
            endpoint: llm.endpoint.clone(),
            body: Json::Object(entries),
            deadline_ms: llm.deadline_ms,
            max_response_bytes: llm.max_response_bytes,
        },
    )
}

/// The record of a checkpoint.
pub open spec fn checkpoint_tree(response: JsonTree, at_ms: int) -> JsonTree {
    JsonTree::Object(
        map![
            "format"@ => JsonTree::Text("cloud-itonami.effect-checkpoint/v1"@),
            "http-response"@ => response,
            "recorded-at-ms"@ => JsonTree::Whole(at_ms),
        ],
    )
}

/// Makes the line that records a checkpoint.
pub fn checkpoint_line(log: &HostPath, response: &Json, at_ms: u128, max_write_bytes: u64) -> (line:
    Result<Vec<u8>, HostError>)
    requires
        at_ms <= u64::MAX,
    ensures
        told(line) == admitted_line(
            log.absolute,
            checkpoint_tree(response@, at_ms as int),
            max_write_bytes,
        ),
{
    let mut entries: Vec<(String, Json)> = Vec::new();
    put(&mut entries, "format", Json::from_text("cloud-itonami.effect-checkpoint/v1"));
    put(&mut entries, "http-response", response.clone());
    put(&mut entries, "recorded-at-ms", Json::Unsigned(at_ms as u64));
    append_json_line(log, &Json::Object(entries), max_write_bytes)
}

/// The text that a model generated, where it generated any but white space.
pub open spec fn generated(response: JsonTree) -> Option<Seq<char>> {
    match response.member_text("response"@) {
        Some(text) => if trim(text).len() > 0 {
            Some(text)
        } else {
            None
        },
        None => None,
    }
}

/// Reads the length of the text that a model generated.
pub fn generated_bytes(response: &Json) -> (length: Result<usize, HostError>)
    ensures
        match length {
            Ok(length) => generated(response@) matches Some(text) && length == encode_utf8(
                text,
            ).len(),
            Err(error) => generated(response@) is None && error@ == plain(ErrorKind::LlmNoText),
        },
{
    match response.get_text("response") {
        Some(text) => {
            let chars: Vec<char> = chars_of(text.as_str());
            if trimmed(chars.as_slice()).len() == 0 {
                Err(HostError::plain(ErrorKind::LlmNoText))
            } else {
                Ok(text.as_str().as_bytes().len())
            }
        },
        None => Err(HostError::plain(ErrorKind::LlmNoText)),
    }
}

/// What is said of a length that does not fit in 64 bits with a sign.
pub open spec fn out_of_range() -> Seq<char> {
    "out of range integral type conversion attempted"@
}

/// Whether a time, where one was read, can be written as a JSON number.
pub open spec fn fits(at: Result<u128, HostError>) -> bool {
    at matches Ok(at_ms) ==> at_ms <= u64::MAX
}

/// What a call gives that is recorded at the time that was read: its result, or
/// why there is no time.
pub open spec fn timed<T>(at: Result<u128, HostError>, result: T) -> Result<T, Failure> {
    match at {
        Ok(_) => Ok(result),
        Err(error) => Err(error@),
    }
}

impl Session {
    /// The session after a scalar effect was recorded at the time that was read.
    pub open spec fn with_effect(
        self,
        at: Result<u128, HostError>,
        capability: Seq<char>,
        ability: Ability,
        request: i64,
        result: i64,
        response_bytes: nat,
    ) -> Session {
        match at {
            Ok(at_ms) => self.with_event(
                event_tree(capability, ability, request, result, response_bytes, at_ms as int),
            ),
            Err(_) => self,
        }
    }
}

impl EffectSession {
    /// A session in which nothing has happened.
    pub fn new(config: Arc<ResidentCapabilityConfig>) -> (session: EffectSession)
        ensures
            session.config == config,
            session@ == (Session {
                http_response: None,
                http_result: None,
                stored_bytes: None,
                events: seq![],
            }),
    {
        EffectSession {
            config,
            http_response: None,
            http_result: None,
            stored_bytes: None,
            events: Vec::new(),
        }
    }

    /// Records a scalar effect at the time that was read; nothing is recorded
    /// where none was.
    pub fn event(
        &mut self,
        capability: &str,
        ability: &Ability,
        request: i64,
        result: i64,
        response_bytes: usize,
        at: Result<u128, HostError>,
    ) -> (recorded: Result<(), HostError>)
        requires
            fits(at),
        ensures
            final(self).config == old(self).config,
            told(recorded) == timed(at, ()),
            final(self)@ == old(self)@.with_effect(
                at,
                capability@,
                *ability,
                request,
                result,
                response_bytes as nat,
            ),
    {
        let at_ms: u128 = match at {
            Ok(at_ms) => at_ms,
            Err(error) => {
                return Err(error);
            },
        };
        let mut entries: Vec<(String, Json)> = Vec::new();
        put(&mut entries, "ability-audit-id", Json::from_text(ability.audit_id.as_str()));
        put(&mut entries, "at-ms", Json::Unsigned(at_ms as u64));
        put(&mut entries, "capability", Json::from_text(capability));
        put(&mut entries, "request", Json::Signed(request));
        put(&mut entries, "response-bytes", Json::Unsigned(response_bytes as u64));
        put(&mut entries, "result", Json::Signed(result));
        put(&mut entries, "target", Json::from_text(ability.target.as_str()));
        let event: Json = Json::Object(entries);
        proof {
            lemma_trees_push(self.events@, event);
        }
        self.events.push(event);
        Ok(())
    }

    /// Decides what a scalar call of a capability does outside the host. Nothing
    /// is done yet.
    pub fn invoke(&self, name: &str, value: i64) -> (effect: Result<Effect, HostError>)
        ensures
            told(effect) == action(*self.config, self@, name@, value),
    {
        if same(name, "aiueos-http-post") {
            match &self.config.http {
                None => Err(HostError::plain(ErrorKind::HttpNotConfigured)),
                Some(http) => if value != http.request_code {
                    Err(HostError::plain(ErrorKind::HttpRequestCode))
                } else {
                    Ok(
                        Effect::Post {
                            endpoint: http.endpoint.clone(),
                            body: http.request_body.clone(),
                            deadline_ms: http.deadline_ms,
                            max_response_bytes: http.max_response_bytes,
                        },
                    )
                },
            }
        } else if same(name, "aiueos-storage-transact") {
            match (&self.config.storage, &self.http_response) {
                (None, _) => Err(HostError::plain(ErrorKind::StorageNotConfigured)),
                (Some(_), None) => Err(HostError::plain(ErrorKind::StorageNeedsHttp)),
                (Some(storage), Some(response)) => match self.http_result {
                    Some(result) if result == value => Ok(
                        Effect::Checkpoint {
                            log: storage.log.clone(),
                            response: response.clone(),
                            max_write_bytes: storage.max_write_bytes,
                        },
                    ),
                    _ => Err(HostError::plain(ErrorKind::StorageInputMismatch)),
                },
            }
        } else if same(name, "aiueos-llm-generate") {
            match (&self.config.llm, self.stored_bytes) {
                (None, _) => Err(HostError::plain(ErrorKind::LlmNotConfigured)),
                (Some(llm), Some(stored)) if stored == value => match &self.http_response {
                    None => Err(HostError::plain(ErrorKind::LlmNeedsHttp)),
                    Some(context) => generation_request(llm, context.encode_text().as_str()),
                },
                _ => Err(HostError::plain(ErrorKind::LlmCheckpointMismatch)),
            }
        } else {
            Err(HostError::about(ErrorKind::CapabilityNotImplemented, name))
        }
    }

    /// Takes the response of an HTTP call, whose body was `response_bytes` long.
    /// The length is what the component gets.
    pub fn http_done(
        &mut self,
        ability: &Ability,
        value: i64,
        response: Json,
        response_bytes: usize,
        at: Result<u128, HostError>,
    ) -> (result: Result<i64, HostError>)
        requires
            fits(at),
        ensures
            final(self).config == old(self).config,
            if response_bytes > i64::MAX {
                &&& told(result) == Err::<i64, Failure>(
                    because(plain(ErrorKind::HttpLengthNotScalar), out_of_range()),
                )
                &&& final(self)@ == old(self)@
            } else {
                let held = old(self)@.with_http(response@, response_bytes as i64);
                &&& told(result) == timed(at, response_bytes as i64)
                &&& final(self)@ == held.with_effect(
                    at,
                    "aiueos-http-post"@,
                    *ability,
                    value,
                    response_bytes as i64,
                    response_bytes as nat,
                )
            },
    {
        if response_bytes as u64 > 0x7fff_ffff_ffff_ffff {
            return Err(
                HostError::plain(ErrorKind::HttpLengthNotScalar).because(
                    "out of range integral type conversion attempted",
                ),
            );
        }
        let result: i64 = response_bytes as i64;
        self.http_response = Some(response);
        self.http_result = Some(result);
        match self.event("aiueos-http-post", ability, value, result, response_bytes, at) {
            Ok(_) => Ok(result),
            Err(error) => Err(error),
        }
    }

    /// Takes the length of the line that a checkpoint added to the log. The
    /// length is what the component gets.
    pub fn checkpoint_done(
        &mut self,
        ability: &Ability,
        value: i64,
        written_bytes: usize,
        at: Result<u128, HostError>,
    ) -> (result: Result<i64, HostError>)
        requires
            fits(at),
        ensures
            final(self).config == old(self).config,
            if written_bytes > i64::MAX {
                &&& told(result) == Err::<i64, Failure>(
                    because(plain(ErrorKind::WriteLengthNotScalar), out_of_range()),
                )
                &&& final(self)@ == old(self)@
            } else {
                let held = old(self)@.with_checkpoint(written_bytes as i64);
                &&& told(result) == timed(at, written_bytes as i64)
                &&& final(self)@ == held.with_effect(
                    at,
                    "aiueos-storage-transact"@,
                    *ability,
                    value,
                    written_bytes as i64,
                    written_bytes as nat,
                )
            },
    {
        if written_bytes as u64 > 0x7fff_ffff_ffff_ffff {
            return Err(
                HostError::plain(ErrorKind::WriteLengthNotScalar).because(
                    "out of range integral type conversion attempted",
                ),
            );
        }
        let result: i64 = written_bytes as i64;
        self.stored_bytes = Some(result);
        match self.event("aiueos-storage-transact", ability, value, result, written_bytes, at) {
            Ok(_) => Ok(result),
            Err(error) => Err(error),
        }
    }

    /// Takes the response of a generation, whose body was `response_bytes` long.
    /// The component gets the configured code, and the event tells how long the
    /// text is.
    pub fn generation_done(
        &mut self,
        ability: &Ability,
        value: i64,
        response: &Json,
        response_bytes: usize,
        at: Result<u128, HostError>,
    ) -> (result: Result<i64, HostError>)
        requires
            fits(at),
        ensures
            final(self).config == old(self).config,
            match (old(self).config.llm, generated(response@)) {
                (None, _) => {
                    &&& told(result) == Err::<i64, Failure>(plain(ErrorKind::LlmNotConfigured))
                    &&& final(self)@ == old(self)@
                },
                (Some(_), None) => {
                    &&& told(result) == Err::<i64, Failure>(plain(ErrorKind::LlmNoText))
                    &&& final(self)@ == old(self)@
                },
                (Some(llm), Some(text)) => {
                    let length = encode_utf8(text).len();
                    &&& told(result) == timed(at, llm.success_code)
                    &&& final(self)@ == old(self)@.with_effect(
                        at,
                        "aiueos-llm-generate"@,
                        *ability,
                        value,
                        llm.success_code,
                        if length < response_bytes {
                            length
                        } else {
                            response_bytes as nat
                        },
                    )
                },
            },
    {
        let result: i64 = match &self.config.llm {
            None => {
                return Err(HostError::plain(ErrorKind::LlmNotConfigured));
            },
            Some(llm) => llm.success_code,
        };
        let length: usize = match generated_bytes(response) {
            Err(error) => {
                return Err(error);
            },
            Ok(length) => length,
        };
        let told_bytes: usize = if length < response_bytes {
            length
        } else {
            response_bytes
        };
        match self.event("aiueos-llm-generate", ability, value, result, told_bytes, at) {
            Ok(_) => Ok(result),
            Err(error) => Err(error),
        }
    }

    /// Admits a call of structured storage and reads the request that it makes.
    pub fn transact_value(&self, ability: &Ability, params: &Vec<Val>, results: usize) -> (request:
        Result<StorageRequest, HostError>)
        ensures
            told(request) == admitted_request(
                *self.config,
                *ability,
                val_trees(params@),
                results as nat,
            ),
    {
        match validate_ability("aiueos-storage-transact", ability) {
            Err(error) => {
                return Err(error);
            },
            Ok(_) => {},
        }
        match &self.config.storage {
            None => Err(HostError::plain(ErrorKind::StorageNotConfigured)),
            Some(storage) => read_request(params, results, storage.max_write_bytes),
        }
    }

    /// Takes the length of the line that recorded a request with its version,
    /// and makes the result that the component gets.
    pub fn transaction_done(
        &mut self,
        ability: &Ability,
        request: &StorageRequest,
        version: i64,
        written_bytes: usize,
        at: Result<u128, HostError>,
    ) -> (result: Result<Val, HostError>)
        requires
            fits(at),
        ensures
            final(self).config == old(self).config,
            told(result) == timed(at, written(request@.key, request@.value, version)),
            final(self)@ == match at {
                Ok(at_ms) => old(self)@.with_event(
                    transaction_tree(
                        *ability,
                        request@,
                        version,
                        written_bytes as nat,
                        at_ms as int,
                    ),
                ),
                Err(_) => old(self)@,
            },
    {
        let at_ms: u128 = match at {
            Ok(at_ms) => at_ms,
            Err(error) => {
                return Err(error);
            },
        };
        let mut entries: Vec<(String, Json)> = Vec::new();
        put(&mut entries, "ability-audit-id", Json::from_text(ability.audit_id.as_str()));
        put(&mut entries, "at-ms", Json::Unsigned(at_ms as u64));
        put(&mut entries, "capability", Json::from_text("aiueos-storage-transact"));
        put(&mut entries, "operation", Json::from_text(request.operation.as_str()));
        put(&mut entries, "request-key", Json::from_text(request.key.as_str()));
        put(&mut entries, "response-bytes", Json::Unsigned(written_bytes as u64));
        put(&mut entries, "result-version", Json::Signed(version));
        put(&mut entries, "target", Json::from_text(ability.target.as_str()));
        let event: Json = Json::Object(entries);
        proof {
            lemma_trees_push(self.events@, event);
        }
        self.events.push(event);
        Ok(written_result(request, version))
    }

    /// Takes the answer to a request that wrote nothing, records the call and gives
    /// the answer to the component.
    pub fn transaction_refused(
        &mut self,
        ability: &Ability,
        request: &StorageRequest,
        answer: Val,
        at: Result<u128, HostError>,
    ) -> (result: Result<Val, HostError>)
        requires
            fits(at),
        ensures
            final(self).config == old(self).config,
            told(result) == timed(at, answer@),
            final(self)@ == match at {
                Ok(at_ms) => old(self)@.with_event(
                    refusal_tree(*ability, request@, answer@, at_ms as int),
                ),
                Err(_) => old(self)@,
            },
    {
        let at_ms: u128 = match at {
            Ok(at_ms) => at_ms,
            Err(error) => {
                return Err(error);
            },
        };
        let mut entries: Vec<(String, Json)> = Vec::new();
        put(&mut entries, "ability-audit-id", Json::from_text(ability.audit_id.as_str()));
        put(&mut entries, "at-ms", Json::Unsigned(at_ms as u64));
        put(&mut entries, "capability", Json::from_text("aiueos-storage-transact"));
        put(&mut entries, "operation", Json::from_text(request.operation.as_str()));
        put(&mut entries, "request-key", Json::from_text(request.key.as_str()));
        put(&mut entries, "response-bytes", Json::Unsigned(0));
        put(&mut entries, "result-case", Json::Text(case_of(&answer)));
        put(&mut entries, "target", Json::from_text(ability.target.as_str()));
        match version_of(&answer) {
            Some(version) => {
                put(&mut entries, "result-version", Json::Signed(version));
            },
            None => {},
        }
        let event: Json = Json::Object(entries);
        proof {
            lemma_trees_push(self.events@, event);
        }
        self.events.push(event);
        Ok(answer)
    }
}

fn case_of(answer: &Val) -> (case: String)
    ensures
        case@ == answer_case(answer@),
{
    match answer {
        Val::Variant(case, _) => case.clone(),
        _ => String::new(),
    }
}

fn version_of(answer: &Val) -> (version: Option<i64>)
    ensures
        version == answer_version(answer@),
{
    proof {
        reveal_with_fuel(Val::tree, 3);
    }
    match answer {
        Val::Variant(_, Some(payload)) => match &**payload {
            Val::Record(fields) => match record_i64(fields, "current-version") {
                Ok(version) => Some(version),
                Err(_) => None,
            },
            _ => None,
        },
        _ => None,
    }
}

/// The request that an admitted call of structured storage makes.
pub open spec fn admitted_request(
    config: ResidentCapabilityConfig,
    ability: Ability,
    params: Seq<ValTree>,
    results: nat,
) -> Result<Request, Failure> {
    match ability_checked("aiueos-storage-transact"@, ability) {
        Err(failure) => Err(failure),
        Ok(_) => match config.storage {
            None => Err(plain(ErrorKind::StorageNotConfigured)),
            Some(storage) => requested(params, results, storage.max_write_bytes),
        },
    }
}

/// The names of the three capabilities differ.
proof fn lemma_capabilities_differ()
    ensures
        "aiueos-http-post"@ != "aiueos-storage-transact"@,
        "aiueos-http-post"@ != "aiueos-llm-generate"@,
        "aiueos-storage-transact"@ != "aiueos-llm-generate"@,
{
    reveal_strlit("aiueos-http-post");
    reveal_strlit("aiueos-storage-transact");
    reveal_strlit("aiueos-llm-generate");
    assert("aiueos-http-post"@.len() == 16);
    assert("aiueos-storage-transact"@.len() == 23);
    assert("aiueos-llm-generate"@.len() == 19);
}

/// A checkpoint is made of the latest HTTP response, and only by a call that
/// gives the result of that response.
pub proof fn lemma_checkpoint_follows_http(
    config: ResidentCapabilityConfig,
    session: Session,
    value: i64,
)
    requires
        action(config, session, "aiueos-storage-transact"@, value) is Ok,
    ensures
        session.http_result == Some(value),
        session.http_response is Some,
        config.storage matches Some(storage) && action(
            config,
            session,
            "aiueos-storage-transact"@,
            value,
        ) == Ok::<Action, Failure>(
            Action::Checkpoint {
                log: storage.log,
                response: session.http_response->0,
                max_write_bytes: storage.max_write_bytes,
            },
        ),
{
    lemma_capabilities_differ();
}

/// A generation reads the latest HTTP response, keeps within the bound of a
/// request, and is asked for only by a call that gives the length of the latest
/// checkpoint.
pub proof fn lemma_generation_follows_checkpoint(
    config: ResidentCapabilityConfig,
    session: Session,
    value: i64,
)
    requires
        action(config, session, "aiueos-llm-generate"@, value) is Ok,
    ensures
        session.stored_bytes == Some(value),
        session.http_response is Some,
        config.llm matches Some(llm) && {
            let prompt = full_prompt(llm.prompt@, session.http_response->0);
            &&& encode_utf8(prompt).len() <= llm.max_request_bytes as usize
            &&& action(config, session, "aiueos-llm-generate"@, value) == Ok::<Action, Failure>(
                Action::Generate {
                    endpoint: llm.endpoint@,
                    body: generation_tree(llm.model@, prompt),
                    deadline_ms: llm.deadline_ms,
                    max_response_bytes: llm.max_response_bytes,
                },
            )
        },
{
    lemma_capabilities_differ();
}

/// In a session in which nothing has happened only HTTP can be called.
pub proof fn lemma_chain_starts_with_http(
    config: ResidentCapabilityConfig,
    session: Session,
    name: Seq<char>,
    value: i64,
)
    requires
        session.http_response is None,
        session.stored_bytes is None,
        action(config, session, name, value) is Ok,
    ensures
        name == "aiueos-http-post"@,
{
}

/// After an HTTP result the checkpoint takes that result and no other, and after
/// a checkpoint the generation takes its length and no other.
pub proof fn lemma_chain_is_tight(
    config: ResidentCapabilityConfig,
    session: Session,
    response: JsonTree,
    result: i64,
    stored: i64,
    value: i64,
)
    ensures
        action(
            config,
            session.with_http(response, result),
            "aiueos-storage-transact"@,
            value,
        ) is Ok <==> config.storage is Some && value == result,
        action(
            config,
            session.with_checkpoint(stored),
            "aiueos-llm-generate"@,
            value,
        ) is Ok ==> value == stored,
{
    lemma_capabilities_differ();
}

/// What holds of the event that records a scalar effect: it tells the capability
/// and whose ability was used, and reads back from its text.
pub proof fn lemma_event_tells(
    capability: Seq<char>,
    ability: Ability,
    request: i64,
    result: i64,
    response_bytes: nat,
    at_ms: int,
)
    ensures
        ({
            let event = event_tree(capability, ability, request, result, response_bytes, at_ms);
            &&& event.member_text("capability"@) == Some(capability)
            &&& event.member_text("ability-audit-id"@) == Some(ability.audit_id@)
            &&& event.member_text("target"@) == Some(ability.target@)
            &&& event.member_integer("request"@) == Some(request)
            &&& event.member_integer("result"@) == Some(result)
            &&& event.exact(1)
        }),
{
    reveal_strlit("ability-audit-id");
    reveal_strlit("at-ms");
    reveal_strlit("capability");
    reveal_strlit("request");
    reveal_strlit("response-bytes");
    reveal_strlit("result");
    reveal_strlit("target");
    assert("ability-audit-id"@.len() == 16 && "at-ms"@.len() == 5 && "capability"@.len() == 10);
    assert("request"@.len() == 7 && "response-bytes"@.len() == 14 && "result"@.len() == 6);
    assert("target"@.len() == 6 && "target"@[0] == 't' && "result"@[0] == 'r');
    let event = event_tree(capability, ability, request, result, response_bytes, at_ms);
    let all = event->Object_0;
    assert(all.dom() =~= set![
        "ability-audit-id"@,
        "at-ms"@,
        "capability"@,
        "request"@,
        "response-bytes"@,
        "result"@,
        "target"@,
    ]);
    assert(event.member("capability"@) == Some(JsonTree::Text(capability)));
    assert(event.member("ability-audit-id"@) == Some(JsonTree::Text(ability.audit_id@)));
    assert(event.member("target"@) == Some(JsonTree::Text(ability.target@)));
    assert(event.member("request"@) == Some(JsonTree::Whole(request as int)));
    assert(event.member("result"@) == Some(JsonTree::Whole(result as int)));
    assert forall|k: Seq<char>| #[trigger] all.dom().contains(k) implies all[k].exact(0) by {
        assert(all[k] is Text || all[k] is Whole);
    }
}

/// What holds of the event that records a write of structured storage: it tells
/// the capability, whose ability was used, and which version the key has, and
/// reads back from its text.
pub proof fn lemma_transaction_tells(
    ability: Ability,
    request: Request,
    version: i64,
    response_bytes: nat,
    at_ms: int,
)
    ensures
        ({
            let event = transaction_tree(ability, request, version, response_bytes, at_ms);
            &&& event.member_text("capability"@) == Some("aiueos-storage-transact"@)
            &&& event.member_text("ability-audit-id"@) == Some(ability.audit_id@)
            &&& event.member_text("target"@) == Some(ability.target@)
            &&& event.member_text("request-key"@) == Some(request.key)
            &&& event.member_integer("result-version"@) == Some(version)
            &&& event.exact(1)
        }),
{
    reveal_strlit("ability-audit-id");
    reveal_strlit("at-ms");
    reveal_strlit("capability");
    reveal_strlit("operation");
    reveal_strlit("request-key");
    reveal_strlit("response-bytes");
    reveal_strlit("result-version");
    reveal_strlit("target");
    assert("ability-audit-id"@.len() == 16 && "at-ms"@.len() == 5 && "capability"@.len() == 10);
    assert("operation"@.len() == 9 && "request-key"@.len() == 11 && "target"@.len() == 6);
    assert("response-bytes"@.len() == 14 && "result-version"@.len() == 14);
    assert("response-bytes"@[3] == 'p' && "result-version"@[3] == 'u');
    let event = transaction_tree(ability, request, version, response_bytes, at_ms);
    let all = event->Object_0;
    assert(all.dom() =~= set![
        "ability-audit-id"@,
        "at-ms"@,
        "capability"@,
        "operation"@,
        "request-key"@,
        "response-bytes"@,
        "result-version"@,
        "target"@,
    ]);
    assert(event.member("capability"@) == Some(JsonTree::Text("aiueos-storage-transact"@)));
    assert(event.member("ability-audit-id"@) == Some(JsonTree::Text(ability.audit_id@)));
    assert(event.member("target"@) == Some(JsonTree::Text(ability.target@)));
    assert(event.member("request-key"@) == Some(JsonTree::Text(request.key)));
    assert(event.member("result-version"@) == Some(JsonTree::Whole(version as int)));
    assert forall|k: Seq<char>| #[trigger] all.dom().contains(k) implies all[k].exact(0) by {
        assert(all[k] is Text || all[k] is Whole);
    }
}

/// What holds of the event that records a call of structured storage that wrote
/// nothing: it tells the capability, whose ability was used, the key, and the case
/// of the answer, and reads back from its text.
pub proof fn lemma_refusal_tells(ability: Ability, request: Request, answer: ValTree, at_ms: int)
    ensures
        ({
            let event = refusal_tree(ability, request, answer, at_ms);
            &&& event.member_text("capability"@) == Some("aiueos-storage-transact"@)
            &&& event.member_text("ability-audit-id"@) == Some(ability.audit_id@)
            &&& event.member_text("target"@) == Some(ability.target@)
            &&& event.member_text("request-key"@) == Some(request.key)
            &&& event.member_text("result-case"@) == Some(answer_case(answer))
            &&& event.member_integer("response-bytes"@) == Some(0i64)
            &&& event.member_integer("result-version"@) == answer_version(answer)
            &&& event.exact(1)
        }),
{
    reveal_strlit("ability-audit-id");
    reveal_strlit("at-ms");
    reveal_strlit("capability");
    reveal_strlit("operation");
    reveal_strlit("request-key");
    reveal_strlit("response-bytes");
    reveal_strlit("result-case");
    reveal_strlit("result-version");
    reveal_strlit("target");
    assert("ability-audit-id"@.len() == 16 && "at-ms"@.len() == 5 && "capability"@.len() == 10);
    assert("operation"@.len() == 9 && "request-key"@.len() == 11 && "target"@.len() == 6);
    assert("result-case"@.len() == 11 && "request-key"@[2] == 'q' && "result-case"@[2] == 's');
    assert("response-bytes"@.len() == 14 && "result-version"@.len() == 14);
    assert("response-bytes"@[3] == 'p' && "result-version"@[3] == 'u');
    let event = refusal_tree(ability, request, answer, at_ms);
    let all = event->Object_0;
    assert(all.dom().finite());
    assert(event.member("capability"@) == Some(JsonTree::Text("aiueos-storage-transact"@)));
    assert(event.member("ability-audit-id"@) == Some(JsonTree::Text(ability.audit_id@)));
    assert(event.member("target"@) == Some(JsonTree::Text(ability.target@)));
    assert(event.member("request-key"@) == Some(JsonTree::Text(request.key)));
    assert(event.member("result-case"@) == Some(JsonTree::Text(answer_case(answer))));
    assert(event.member("response-bytes"@) == Some(JsonTree::Whole(0)));
    assert(event.member("result-version"@) == match answer_version(answer) {
        Some(version) => Some(JsonTree::Whole(version as int)),
        None => None,
    });
    assert forall|k: Seq<char>| #[trigger] all.dom().contains(k) implies all[k].exact(0) by {
        assert(all[k] is Text || all[k] is Whole);
    }
}

/// A call of a capability that was answered.
pub enum AnsweredCall {
    /// A scalar call.
    Scalar {
        capability: Seq<char>,
        ability: Ability,
        parameter: i64,
        result: i64,
        response_bytes: nat,
        at_ms: int,
    },
    /// A request of structured storage that was written.
    Written {
        ability: Ability,
        request: Request,
        version: i64,
        response_bytes: nat,
        at_ms: int,
    },
    /// A request of structured storage that was answered without a write.
    Refused { ability: Ability, request: Request, answer: ValTree, at_ms: int },
}

impl AnsweredCall {
    /// The capability that was called.
    pub open spec fn capability(self) -> Seq<char> {
        match self {
            AnsweredCall::Scalar { capability, .. } => capability,
            _ => "aiueos-storage-transact"@,
        }
    }

    /// The ability that the call used.
    pub open spec fn ability(self) -> Ability {
        match self {
            AnsweredCall::Scalar { ability, .. } => ability,
            AnsweredCall::Written { ability, .. } => ability,
            AnsweredCall::Refused { ability, .. } => ability,
        }
    }

    /// The event that records the call.
    pub open spec fn event(self) -> JsonTree {
        match self {
            AnsweredCall::Scalar {
                capability,
                ability,
                parameter,
                result,
                response_bytes,
                at_ms,
            } => event_tree(capability, ability, parameter, result, response_bytes, at_ms),
            AnsweredCall::Written { ability, request, version, response_bytes, at_ms } => {
                transaction_tree(ability, request, version, response_bytes, at_ms)
            },
            AnsweredCall::Refused { ability, request, answer, at_ms } => refusal_tree(
                ability,
                request,
                answer,
                at_ms,
            ),
        }
    }
}

/// The events that record calls, one for each in turn.
pub open spec fn events_of(calls: Seq<AnsweredCall>) -> Seq<JsonTree> {
    Seq::new(calls.len(), |i: int| calls[i].event())
}

/// The event of an answered call tells its capability and whose ability was used,
/// and reads back from its text.
pub proof fn lemma_call_tells(call: AnsweredCall)
    ensures
        call.event().member_text("capability"@) == Some(call.capability()),
        call.event().member_text("ability-audit-id"@) == Some(call.ability().audit_id@),
        call.event().member_text("target"@) == Some(call.ability().target@),
        call.event().exact(1),
{
    match call {
        AnsweredCall::Scalar { capability, ability, parameter, result, response_bytes, at_ms } => {
            lemma_event_tells(capability, ability, parameter, result, response_bytes, at_ms);
        },
        AnsweredCall::Written { ability, request, version, response_bytes, at_ms } => {
            lemma_transaction_tells(ability, request, version, response_bytes, at_ms);
        },
        AnsweredCall::Refused { ability, request, answer, at_ms } => {
            lemma_refusal_tells(ability, request, answer, at_ms);
        },
    }
}

impl Session {
    /// A session has a response exactly where it has the result of one, and a
    /// checkpoint only where it has a response.
    pub open spec fn well_formed(self) -> bool {
        &&& self.http_response is Some <==> self.http_result is Some
        &&& self.stored_bytes is Some ==> self.http_response is Some
    }
}

/// A session starts well formed, and an HTTP result and an event keep it so; the
/// events that were recorded are kept.
pub proof fn lemma_session_kept(
    session: Session,
    response: JsonTree,
    result: i64,
    event: JsonTree,
)
    requires
        session.well_formed(),
    ensures
        (Session { http_response: None, http_result: None, stored_bytes: None, events: seq![] })
            .well_formed(),
        session.with_http(response, result).well_formed(),
        session.with_event(event).well_formed(),
        session.with_http(response, result).events == session.events,
        session.with_checkpoint(result).events == session.events,
        session.events.is_prefix_of(session.with_event(event).events),
{
}

/// The checkpoint of an admitted call keeps a session well formed: it follows an
/// HTTP response.
pub proof fn lemma_checkpoint_kept(
    config: ResidentCapabilityConfig,
    session: Session,
    value: i64,
    stored: i64,
)
    requires
        session.well_formed(),
        action(config, session, "aiueos-storage-transact"@, value) is Ok,
    ensures
        session.with_checkpoint(stored).well_formed(),
        session.with_checkpoint(stored).http_response is Some,
{
    lemma_checkpoint_follows_http(config, session, value);
}

/// In a well-formed session a generation never lacks its HTTP response.
pub proof fn lemma_generation_has_context(
    config: ResidentCapabilityConfig,
    session: Session,
    value: i64,
)
    requires
        session.well_formed(),
    ensures
        action(config, session, "aiueos-llm-generate"@, value) != Err::<Action, Failure>(
            plain(ErrorKind::LlmNeedsHttp),
        ),
{
    lemma_capabilities_differ();
}

} // verus!
