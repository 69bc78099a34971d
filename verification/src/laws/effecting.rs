//! The effects of a resident component: each goes where its grant says, follows the
//! one before it, and is recorded as it was.

use vstd::prelude::*;
use vstd::utf8::{decode_utf8, encode_utf8};

use crate::ability::{Ability, Import};
use crate::config::check_capabilities;
use crate::effects::{
    answer_case, answer_version, checkpoint_line, checkpoint_tree, event_tree, generated_bytes,
    generation_request, grants, refusal_tree, resident_imports, transaction_tree, Effect,
    EffectSession, HttpCapability, LlmCapability, ResidentCapabilityConfig, StorageCapability,
};
use crate::endpoint::loopback_endpoint;
use crate::error::{ErrorKind, Failure, HostError};
use crate::json::{json_text, Json, JsonTree};
use crate::laws::holding::only;
use crate::laws::linking::{lemma_may, may};
use crate::laws::reading::{all_blank, blank, is_trimmed, lemma_trim, lemma_trim_unique};
use crate::laws::storing::{answers, tells_current};
use crate::storage::{field, i64_field, HostPath};
use crate::text::trim;
use crate::transaction::{read_request, StorageRequest};
use crate::value::{Val, ValTree};

verus! {

/// Whether an import is the grant of an HTTP capability.
pub open spec fn grants_http(import: Import, http: HttpCapability) -> bool {
    &&& import.name@ == "aiueos-http-post"@
    &&& import.ability.target@ == http.endpoint@
    &&& import.ability.operation@ == "http/post"@
    &&& import.ability.max_bytes == http.max_response_bytes
    &&& import.ability.max_items == 1
    &&& import.ability.deadline_ms == http.deadline_ms
    &&& import.ability.audit_id@ == http.audit_id@
}

/// Whether an import is the grant of a storage capability.
pub open spec fn grants_storage(import: Import, storage: StorageCapability) -> bool {
    &&& import.name@ == "aiueos-storage-transact"@
    &&& import.ability.target@ == storage.log.text@
    &&& import.ability.operation@ == "storage/transact"@
    &&& import.ability.max_bytes == storage.max_write_bytes
    &&& import.ability.max_items == 1
    &&& import.ability.deadline_ms == storage.deadline_ms
    &&& import.ability.audit_id@ == storage.audit_id@
}

/// Whether an import is the grant of an LLM capability.
pub open spec fn grants_llm(import: Import, llm: LlmCapability) -> bool {
    &&& import.name@ == "aiueos-llm-generate"@
    &&& import.ability.target@ == llm.endpoint@
    &&& import.ability.operation@ == "llm/generate"@
    &&& import.ability.max_bytes == llm.max_response_bytes
    &&& import.ability.max_items == 1
    &&& import.ability.deadline_ms == llm.deadline_ms
    &&& import.ability.audit_id@ == llm.audit_id@
}

/// How many capabilities a configuration has.
pub open spec fn count(config: ResidentCapabilityConfig) -> int {
    (if config.http is Some {
        1int
    } else {
        0
    }) + (if config.storage is Some {
        1int
    } else {
        0
    }) + (if config.llm is Some {
        1int
    } else {
        0
    })
}

/// Whether an import is the grant of a capability that a configuration has.
pub open spec fn is_grant(import: Import, config: ResidentCapabilityConfig) -> bool {
    ||| config.http matches Some(http) && grants_http(import, http)
    ||| config.storage matches Some(storage) && grants_storage(import, storage)
    ||| config.llm matches Some(llm) && grants_llm(import, llm)
}

/// What a configuration grants is one import for each of its capabilities.
pub proof fn lemma_grants(config: &ResidentCapabilityConfig, imports: Seq<Import>)
    requires
        grants(imports) == config.grants(),
    ensures
        imports.len() == count(*config),
        forall|i: int| 0 <= i < imports.len() ==> is_grant(#[trigger] imports[i], *config),
        config.http matches Some(http) ==> exists|i: int|
            0 <= i < imports.len() && #[trigger] grants_http(imports[i], http),
        config.storage matches Some(storage) ==> exists|i: int|
            0 <= i < imports.len() && #[trigger] grants_storage(imports[i], storage),
        config.llm matches Some(llm) ==> exists|i: int|
            0 <= i < imports.len() && #[trigger] grants_llm(imports[i], llm),
{
    let granted = grants(imports);
    assert(granted.len() == imports.len());
    assert forall|i: int| 0 <= i < imports.len() implies #[trigger] granted[i]
        == imports[i]@ by {}
    let h: int = if config.http is Some {
        1
    } else {
        0
    };
    let s: int = if config.storage is Some {
        1
    } else {
        0
    };
    if let Some(http) = &config.http {
        assert(granted[0] == http.grant());
        assert(grants_http(imports[0], *http));
    }
    if let Some(storage) = &config.storage {
        assert(granted[h] == storage.grant());
        assert(grants_storage(imports[h], *storage));
    }
    if let Some(llm) = &config.llm {
        assert(granted[h + s] == llm.grant());
        assert(grants_llm(imports[h + s], *llm));
    }
    assert forall|i: int| 0 <= i < imports.len() implies is_grant(
        #[trigger] imports[i],
        *config,
    ) by {
        assert(granted[i] == imports[i]@);
        assert(i == 0 || i == h || i == h + s);
    }
}

/// A component is granted one import for each capability that the configuration has,
/// with the endpoint or log, the bounds and the audit id of that capability, and no
/// other.
pub proof fn law_grants_are_the_capabilities(
    config: &ResidentCapabilityConfig,
    imports: Vec<Import>,
)
    requires
        call_ensures(resident_imports, (config,), imports),
    ensures
        imports@.len() == count(*config),
        forall|i: int| 0 <= i < imports@.len() ==> is_grant(#[trigger] imports@[i], *config),
        config.http matches Some(http) ==> exists|i: int|
            0 <= i < imports@.len() && #[trigger] grants_http(imports@[i], http),
        config.storage matches Some(storage) ==> exists|i: int|
            0 <= i < imports@.len() && #[trigger] grants_storage(imports@[i], storage),
        config.llm matches Some(llm) ==> exists|i: int|
            0 <= i < imports@.len() && #[trigger] grants_llm(imports@[i], llm),
{
    lemma_grants(config, imports@);
}

/// The names of the three capabilities differ.
proof fn lemma_three_names()
    ensures
        "aiueos-http-post"@ != "aiueos-storage-transact"@,
        "aiueos-http-post"@ != "aiueos-llm-generate"@,
        "aiueos-storage-transact"@ != "aiueos-llm-generate"@,
{
    reveal_strlit("aiueos-http-post");
    reveal_strlit("aiueos-storage-transact");
    reveal_strlit("aiueos-llm-generate");
    assert("aiueos-http-post"@.len() == 16);
    assert("aiueos-storage-transact"@.len() == 23);
    assert("aiueos-llm-generate"@.len() == 19);
}

/// The target of a grant is where its effect goes, and its bounds are those of the
/// effect: what is posted goes to the target, and what is recorded goes to the log
/// whose path the target is.
pub proof fn law_target_is_where_the_effect_goes(
    session: &EffectSession,
    imports: Vec<Import>,
    i: int,
    name: &str,
    value: i64,
    effect: Effect,
)
    requires
        call_ensures(resident_imports, (&*session.config,), imports),
        call_ensures(EffectSession::invoke, (session, name, value), Ok(effect)),
        0 <= i < imports@.len(),
        imports@[i].name@ == name@,
    ensures
        match effect {
            Effect::Post { endpoint, deadline_ms, max_response_bytes, .. } => {
                &&& imports@[i].ability.operation@ == "http/post"@
                &&& endpoint@ == imports@[i].ability.target@
                &&& deadline_ms == imports@[i].ability.deadline_ms
                &&& max_response_bytes == imports@[i].ability.max_bytes
            },
            Effect::Generate { endpoint, deadline_ms, max_response_bytes, .. } => {
                &&& imports@[i].ability.operation@ == "llm/generate"@
                &&& endpoint@ == imports@[i].ability.target@
                &&& deadline_ms == imports@[i].ability.deadline_ms
                &&& max_response_bytes == imports@[i].ability.max_bytes
            },
            Effect::Checkpoint { log, max_write_bytes, .. } => {
                &&& imports@[i].ability.operation@ == "storage/transact"@
                &&& log.text@ == imports@[i].ability.target@
                &&& max_write_bytes == imports@[i].ability.max_bytes
            },
        },
{
    law_grants_are_the_capabilities(&*session.config, imports);
    lemma_three_names();
}

/// The target of each grant of a configuration that is used is on this machine: an
/// endpoint of literal loopback, or the path of an absolute log.
pub proof fn law_targets_are_on_this_machine(
    config: &ResidentCapabilityConfig,
    imports: Vec<Import>,
    i: int,
    target: &str,
    endpoint: Result<(u16, String), HostError>,
)
    requires
        call_ensures(check_capabilities, (config,), Ok(())),
        call_ensures(resident_imports, (config,), imports),
        0 <= i < imports@.len(),
        target@ == imports@[i].ability.target@,
        call_ensures(loopback_endpoint, (target,), endpoint),
    ensures
        imports@[i].name@ == "aiueos-storage-transact"@ ==> (config.storage matches Some(storage)
            && storage.log.absolute && storage.log.text@ == target@),
        imports@[i].name@ != "aiueos-storage-transact"@ ==> endpoint is Ok,
{
    law_grants_are_the_capabilities(config, imports);
    lemma_three_names();
}

/// HTTP is called with the configured code and no other argument, and posts the
/// configured body to the configured endpoint.
pub proof fn law_http_posts_what_is_configured(
    session: &EffectSession,
    name: &str,
    value: i64,
    effect: Result<Effect, HostError>,
)
    requires
        call_ensures(EffectSession::invoke, (session, name, value), effect),
        name@ == "aiueos-http-post"@,
    ensures
        match session.config.http {
            None => effect matches Err(error) && error.kind == ErrorKind::HttpNotConfigured,
            Some(http) => if value != http.request_code {
                effect matches Err(error) && error.kind == ErrorKind::HttpRequestCode
            } else {
                effect matches Ok(Effect::Post { endpoint, body, deadline_ms, max_response_bytes })
                    && endpoint@ == http.endpoint@ && body@ == http.request_body@ && deadline_ms
                    == http.deadline_ms && max_response_bytes == http.max_response_bytes
            },
        },
{
}

/// A checkpoint is made of the response that the session holds, in the configured
/// log, and only by a call that gives the result of that response.
pub proof fn law_checkpoint_is_of_the_response(
    session: &EffectSession,
    name: &str,
    value: i64,
    effect: Result<Effect, HostError>,
)
    requires
        call_ensures(EffectSession::invoke, (session, name, value), effect),
        name@ == "aiueos-storage-transact"@,
    ensures
        match (session.config.storage, session.http_response) {
            (None, _) => effect matches Err(error) && error.kind
                == ErrorKind::StorageNotConfigured,
            (Some(_), None) => effect matches Err(error) && error.kind
                == ErrorKind::StorageNeedsHttp,
            (Some(storage), Some(held)) => if session.http_result != Some(value) {
                effect matches Err(error) && error.kind == ErrorKind::StorageInputMismatch
            } else {
                effect matches Ok(Effect::Checkpoint { log, response, max_write_bytes }) && log
                    == storage.log && response@ == held@ && max_write_bytes
                    == storage.max_write_bytes
            },
        },
{
    lemma_three_names();
}

/// Whether a JSON value asks a model to go on from a prompt, in one piece.
pub open spec fn asks(body: JsonTree, model: Seq<char>, prompt: Seq<char>) -> bool {
    &&& body.member("model"@) == Some(JsonTree::Text(model))
    &&& body.member("prompt"@) == Some(JsonTree::Text(prompt))
    &&& body.member("stream"@) == Some(JsonTree::Bool(false))
    &&& only(body, set!["model"@, "prompt"@, "stream"@])
}

/// A model is asked at the configured endpoint to go on from the configured prompt and
/// the text of the response that the session holds, where both keep within the bound,
/// and only by a call that gives the length of the checkpoint.
pub proof fn law_model_is_asked_about_the_response(
    session: &EffectSession,
    name: &str,
    value: i64,
    effect: Result<Effect, HostError>,
)
    requires
        call_ensures(EffectSession::invoke, (session, name, value), effect),
        name@ == "aiueos-llm-generate"@,
    ensures
        match session.config.llm {
            None => effect matches Err(error) && error.kind == ErrorKind::LlmNotConfigured,
            Some(llm) => if session.stored_bytes != Some(value) {
                effect matches Err(error) && error.kind == ErrorKind::LlmCheckpointMismatch
            } else {
                match session.http_response {
                    None => effect matches Err(error) && error.kind == ErrorKind::LlmNeedsHttp,
                    Some(held) => {
                        let prompt = llm.prompt@ + "\n\nBounded provider context:\n"@
                            + decode_utf8(json_text(held@));
                        if encode_utf8(prompt).len() > llm.max_request_bytes as usize {
                            effect matches Err(error) && error.kind
                                == ErrorKind::LlmRequestOversize
                        } else {
                            effect matches Ok(
                                Effect::Generate {
                                    endpoint,
                                    body,
                                    deadline_ms,
                                    max_response_bytes,
                                },
                            ) && endpoint@ == llm.endpoint@ && asks(body@, llm.model@, prompt)
                                && deadline_ms == llm.deadline_ms && max_response_bytes
                                == llm.max_response_bytes
                        }
                    },
                }
            },
        },
{
    lemma_three_names();
    reveal_strlit("model");
    reveal_strlit("prompt");
    reveal_strlit("stream");
    assert("model"@.len() == 5 && "prompt"@.len() == 6 && "stream"@.len() == 6);
    assert("prompt"@[0] == 'p' && "stream"@[0] == 's');
    if let Ok(Effect::Generate { endpoint, body, deadline_ms, max_response_bytes }) = effect {
        assert(body@->Object_0.dom() =~= set!["model"@, "prompt"@, "stream"@]);
    }
}

/// A model is asked for what it is configured to be asked, and for the context that it
/// is given.
pub proof fn law_model_is_asked_about_the_context(
    llm: &LlmCapability,
    context: &str,
    effect: Result<Effect, HostError>,
)
    requires
        call_ensures(generation_request, (llm, context), effect),
    ensures
        ({
            let prompt = llm.prompt@ + "\n\nBounded provider context:\n"@ + context@;
            if encode_utf8(prompt).len() > llm.max_request_bytes as usize {
                effect matches Err(error) && error.kind == ErrorKind::LlmRequestOversize
            } else {
                effect matches Ok(
                    Effect::Generate { endpoint, body, deadline_ms, max_response_bytes },
                ) && endpoint@ == llm.endpoint@ && asks(body@, llm.model@, prompt) && deadline_ms
                    == llm.deadline_ms && max_response_bytes == llm.max_response_bytes
            }
        }),
{
    reveal_strlit("model");
    reveal_strlit("prompt");
    reveal_strlit("stream");
    assert("model"@.len() == 5 && "prompt"@.len() == 6 && "stream"@.len() == 6);
    assert("prompt"@[0] == 'p' && "stream"@[0] == 's');
    if let Ok(Effect::Generate { endpoint, body, deadline_ms, max_response_bytes }) = effect {
        assert(body@->Object_0.dom() =~= set!["model"@, "prompt"@, "stream"@]);
    }
}

/// No other import has an effect.
pub proof fn law_nothing_else_has_an_effect(
    session: &EffectSession,
    name: &str,
    value: i64,
    effect: Result<Effect, HostError>,
)
    requires
        call_ensures(EffectSession::invoke, (session, name, value), effect),
        name@ != "aiueos-http-post"@,
        name@ != "aiueos-storage-transact"@,
        name@ != "aiueos-llm-generate"@,
    ensures
        effect matches Err(error) && error.kind == ErrorKind::CapabilityNotImplemented
            && error.subject@ == name@,
{
}

/// Whether an event records a scalar call: which capability was called with whose
/// ability, with what, what it gave, how long the answer was and when.
pub open spec fn records_call(
    event: JsonTree,
    capability: Seq<char>,
    ability: Ability,
    request: i64,
    result: i64,
    response_bytes: int,
    at_ms: int,
) -> bool {
    &&& event.member("capability"@) == Some(JsonTree::Text(capability))
    &&& event.member("ability-audit-id"@) == Some(JsonTree::Text(ability.audit_id@))
    &&& event.member("target"@) == Some(JsonTree::Text(ability.target@))
    &&& event.member("request"@) == Some(JsonTree::Whole(request as int))
    &&& event.member("result"@) == Some(JsonTree::Whole(result as int))
    &&& event.member("response-bytes"@) == Some(JsonTree::Whole(response_bytes))
    &&& event.member("at-ms"@) == Some(JsonTree::Whole(at_ms))
    &&& only(
        event,
        set![
            "ability-audit-id"@,
            "at-ms"@,
            "capability"@,
            "request"@,
            "response-bytes"@,
            "result"@,
            "target"@,
        ],
    )
}

proof fn lemma_records_call(
    capability: Seq<char>,
    ability: Ability,
    request: i64,
    result: i64,
    response_bytes: nat,
    at_ms: int,
)
    ensures
        records_call(
            event_tree(capability, ability, request, result, response_bytes, at_ms),
            capability,
            ability,
            request,
            result,
            response_bytes as int,
            at_ms,
        ),
{
    reveal_strlit("ability-audit-id");
    reveal_strlit("at-ms");
    reveal_strlit("capability");
    reveal_strlit("request");
    reveal_strlit("response-bytes");
    reveal_strlit("result");
    reveal_strlit("target");
    assert("ability-audit-id"@.len() == 16 && "at-ms"@.len() == 5 && "capability"@.len() == 10);
    assert("request"@.len() == 7 && "response-bytes"@.len() == 14 && "result"@.len() == 6);
    assert("target"@.len() == 6 && "target"@[0] == 't' && "result"@[0] == 'r');
    let event = event_tree(capability, ability, request, result, response_bytes, at_ms);
    assert(event->Object_0.dom() =~= set![
        "ability-audit-id"@,
        "at-ms"@,
        "capability"@,
        "request"@,
        "response-bytes"@,
        "result"@,
        "target"@,
    ]);
}

/// Whether the events of `after` are those of `before` and then one that records this
/// scalar call.
pub open spec fn one_more_call(
    before: EffectSession,
    after: EffectSession,
    capability: Seq<char>,
    ability: Ability,
    request: i64,
    result: i64,
    response_bytes: int,
    at_ms: int,
) -> bool {
    exists|event: JsonTree| #[trigger]
        records_call(event, capability, ability, request, result, response_bytes, at_ms)
            && after@.events == before@.events.push(event)
}

/// A session starts with its configuration and nothing else.
pub proof fn law_session_starts_empty(
    config: std::sync::Arc<ResidentCapabilityConfig>,
    session: EffectSession,
)
    requires
        call_ensures(EffectSession::new, (config,), session),
    ensures
        session.config == config,
        session.http_response is None,
        session.http_result is None,
        session.stored_bytes is None,
        session@.events.len() == 0,
{
}

/// An HTTP call gives the length of the response, the session holds that response and
/// its length from then on, and the call is recorded.
pub proof fn law_http_gives_the_length(
    session: &mut EffectSession,
    ability: &Ability,
    value: i64,
    response: Json,
    response_bytes: usize,
    at: Result<u128, HostError>,
    result: Result<i64, HostError>,
)
    requires
        call_ensures(
            EffectSession::http_done,
            (session, ability, value, response, response_bytes, at),
            result,
        ),
        response_bytes <= i64::MAX,
    ensures
        final(session).config == old(session).config,
        final(session).http_response matches Some(held) && held@ == response@,
        final(session).http_result == Some(response_bytes as i64),
        final(session).stored_bytes == old(session).stored_bytes,
        match at {
            Ok(at_ms) => result == Ok::<i64, HostError>(response_bytes as i64) && one_more_call(
                *old(session),
                *final(session),
                "aiueos-http-post"@,
                *ability,
                value,
                response_bytes as i64,
                response_bytes as int,
                at_ms as int,
            ),
            Err(error) => (result matches Err(told) && told@ == error@) && final(session)@.events
                == old(session)@.events,
        },
{
    if let Ok(at_ms) = at {
        lemma_records_call(
            "aiueos-http-post"@,
            *ability,
            value,
            response_bytes as i64,
            response_bytes as nat,
            at_ms as int,
        );
    }
}

/// A checkpoint gives the length of its line, the session holds that length from then
/// on and the response as before, and the call is recorded.
pub proof fn law_checkpoint_gives_the_length(
    session: &mut EffectSession,
    ability: &Ability,
    value: i64,
    written_bytes: usize,
    at: Result<u128, HostError>,
    result: Result<i64, HostError>,
)
    requires
        call_ensures(
            EffectSession::checkpoint_done,
            (session, ability, value, written_bytes, at),
            result,
        ),
        written_bytes <= i64::MAX,
    ensures
        final(session).config == old(session).config,
        final(session)@.http_response == old(session)@.http_response,
        final(session).http_result == old(session).http_result,
        final(session).stored_bytes == Some(written_bytes as i64),
        match at {
            Ok(at_ms) => result == Ok::<i64, HostError>(written_bytes as i64) && one_more_call(
                *old(session),
                *final(session),
                "aiueos-storage-transact"@,
                *ability,
                value,
                written_bytes as i64,
                written_bytes as int,
                at_ms as int,
            ),
            Err(error) => (result matches Err(told) && told@ == error@) && final(session)@.events
                == old(session)@.events,
        },
{
    if let Ok(at_ms) = at {
        lemma_records_call(
            "aiueos-storage-transact"@,
            *ability,
            value,
            written_bytes as i64,
            written_bytes as nat,
            at_ms as int,
        );
    }
}

/// A length that is no scalar is given to nobody, and changes nothing.
pub proof fn law_too_long_changes_nothing(
    session: &mut EffectSession,
    other: &mut EffectSession,
    ability: &Ability,
    value: i64,
    response: Json,
    length: usize,
    at: Result<u128, HostError>,
    posted: Result<i64, HostError>,
    written: Result<i64, HostError>,
)
    requires
        call_ensures(
            EffectSession::http_done,
            (session, ability, value, response, length, at),
            posted,
        ),
        call_ensures(
            EffectSession::checkpoint_done,
            (other, ability, value, length, at),
            written,
        ),
        length > i64::MAX,
    ensures
        posted matches Err(error) && error.kind == ErrorKind::HttpLengthNotScalar && error@.cause
            == Some("out of range integral type conversion attempted"@),
        written matches Err(error) && error.kind == ErrorKind::WriteLengthNotScalar
            && error@.cause == Some("out of range integral type conversion attempted"@),
        final(session)@ == old(session)@,
        final(other)@ == old(other)@,
{
}

/// The text that a model generated is what it says under `response`, where that is
/// not white space alone.
pub proof fn law_generated_text_is_the_response(response: &Json, length: Result<usize, HostError>)
    requires
        call_ensures(generated_bytes, (response,), length),
    ensures
        match response@.member("response"@) {
            Some(JsonTree::Text(text)) => if all_blank(text) {
                length matches Err(error) && error.kind == ErrorKind::LlmNoText
            } else {
                length matches Ok(length) && length == encode_utf8(text).len()
            },
            _ => length matches Err(error) && error.kind == ErrorKind::LlmNoText,
        },
{
    if let Some(JsonTree::Text(text)) = response@.member("response"@) {
        lemma_blank_trims(text);
    }
}

proof fn lemma_blank_trims(text: Seq<char>)
    ensures
        all_blank(text) <==> trim(text).len() == 0,
{
    lemma_trim(text);
    let bare = trim(text);
    if all_blank(text) {
        let none: Seq<char> = seq![];
        assert(all_blank(none));
        assert(text =~= text + none + none);
        assert(is_trimmed(text, none));
        lemma_trim_unique(text, none);
    }
    if bare.len() == 0 {
        let (front, back) = choose|front: Seq<char>, back: Seq<char>|
            #![trigger all_blank(front), all_blank(back)]
            all_blank(front) && all_blank(back) && text == front + bare + back;
        assert forall|i: int| 0 <= i < text.len() implies blank(#[trigger] text[i]) by {
            if i < front.len() {
                assert(blank(front[i]));
            } else {
                assert(blank(back[i - front.len()]));
            }
        }
    }
}

/// A generation gives the configured code where text was generated, and the call is
/// recorded with the length of the text, or of the response where that is shorter;
/// nothing else changes.
pub proof fn law_generation_gives_the_code(
    session: &mut EffectSession,
    ability: &Ability,
    value: i64,
    response: &Json,
    response_bytes: usize,
    at: Result<u128, HostError>,
    result: Result<i64, HostError>,
    length: Result<usize, HostError>,
)
    requires
        call_ensures(
            EffectSession::generation_done,
            (session, ability, value, response, response_bytes, at),
            result,
        ),
        call_ensures(generated_bytes, (response,), length),
    ensures
        final(session).config == old(session).config,
        final(session)@.http_response == old(session)@.http_response,
        final(session).http_result == old(session).http_result,
        final(session).stored_bytes == old(session).stored_bytes,
        match (old(session).config.llm, length, at) {
            (Some(llm), Ok(length), Ok(at_ms)) => result == Ok::<i64, HostError>(llm.success_code)
                && one_more_call(
                *old(session),
                *final(session),
                "aiueos-llm-generate"@,
                *ability,
                value,
                llm.success_code,
                if length <= response_bytes {
                    length as int
                } else {
                    response_bytes as int
                },
                at_ms as int,
            ),
            (None, _, _) => (result matches Err(error) && error.kind
                == ErrorKind::LlmNotConfigured) && final(session)@.events == old(session)@.events,
            (Some(_), Err(none), _) => (result matches Err(error) && error@ == none@)
                && final(session)@.events == old(session)@.events,
            (Some(_), Ok(_), Err(untimed)) => (result matches Err(error) && error@ == untimed@)
                && final(session)@.events == old(session)@.events,
        },
{
    let name = "aiueos-llm-generate"@;
    assert forall|code: i64, told: nat, at_ms: int|
        records_call(
            #[trigger] event_tree(name, *ability, value, code, told, at_ms),
            name,
            *ability,
            value,
            code,
            told as int,
            at_ms,
        ) by {
        lemma_records_call(name, *ability, value, code, told, at_ms);
    }
}

/// What every event of structured storage tells.
pub open spec fn request_keys() -> Set<Seq<char>> {
    set![
        "ability-audit-id"@,
        "at-ms"@,
        "capability"@,
        "operation"@,
        "request-key"@,
        "response-bytes"@,
        "target"@,
    ]
}

/// A scalar effect is recorded at the time that was read, and nothing else is changed;
/// without a time nothing is recorded, and why there is none is told.
pub proof fn law_effect_is_recorded(
    session: &mut EffectSession,
    capability: &str,
    ability: &Ability,
    request: i64,
    result: i64,
    response_bytes: usize,
    at: Result<u128, HostError>,
    recorded: Result<(), HostError>,
)
    requires
        call_ensures(
            EffectSession::event,
            (session, capability, ability, request, result, response_bytes, at),
            recorded,
        ),
    ensures
        final(session).config == old(session).config,
        final(session)@.http_response == old(session)@.http_response,
        final(session).http_result == old(session).http_result,
        final(session).stored_bytes == old(session).stored_bytes,
        match at {
            Ok(at_ms) => recorded is Ok && one_more_call(
                *old(session),
                *final(session),
                capability@,
                *ability,
                request,
                result,
                response_bytes as int,
                at_ms as int,
            ),
            Err(error) => (recorded matches Err(told) && told@ == error@) && final(session)@.events
                == old(session)@.events,
        },
{
    if let Ok(at_ms) = at {
        lemma_records_call(
            capability@,
            *ability,
            request,
            result,
            response_bytes as nat,
            at_ms as int,
        );
    }
}

/// Whether an event records a request of structured storage: the capability, whose
/// ability, the operation, the key, the length of what was written, and when.
pub open spec fn records_request(
    event: JsonTree,
    ability: Ability,
    request: StorageRequest,
    written_bytes: int,
    at_ms: int,
) -> bool {
    &&& event.member("capability"@) == Some(JsonTree::Text("aiueos-storage-transact"@))
    &&& event.member("ability-audit-id"@) == Some(JsonTree::Text(ability.audit_id@))
    &&& event.member("target"@) == Some(JsonTree::Text(ability.target@))
    &&& event.member("operation"@) == Some(JsonTree::Text(request.operation@))
    &&& event.member("request-key"@) == Some(JsonTree::Text(request.key@))
    &&& event.member("response-bytes"@) == Some(JsonTree::Whole(written_bytes))
    &&& event.member("at-ms"@) == Some(JsonTree::Whole(at_ms))
}

proof fn lemma_request_keys()
    ensures
        "ability-audit-id"@.len() == 16,
        "at-ms"@.len() == 5,
        "capability"@.len() == 10,
        "operation"@.len() == 9,
        "request-key"@.len() == 11 && "request-key"@[2] == 'q',
        "result-case"@.len() == 11 && "result-case"@[2] == 's',
        "response-bytes"@.len() == 14 && "response-bytes"@[3] == 'p',
        "result-version"@.len() == 14 && "result-version"@[3] == 'u',
        "target"@.len() == 6,
{
    reveal_strlit("ability-audit-id");
    reveal_strlit("at-ms");
    reveal_strlit("capability");
    reveal_strlit("operation");
    reveal_strlit("request-key");
    reveal_strlit("response-bytes");
    reveal_strlit("result-case");
    reveal_strlit("result-version");
    reveal_strlit("target");
}

/// A written request is recorded with its version, the component is told what was
/// written, and nothing else changes.
pub proof fn law_write_is_recorded(
    session: &mut EffectSession,
    ability: &Ability,
    request: &StorageRequest,
    version: i64,
    written_bytes: usize,
    at: Result<u128, HostError>,
    result: Result<Val, HostError>,
)
    requires
        call_ensures(
            EffectSession::transaction_done,
            (session, ability, request, version, written_bytes, at),
            result,
        ),
    ensures
        final(session).config == old(session).config,
        final(session)@.http_response == old(session)@.http_response,
        final(session).http_result == old(session).http_result,
        final(session).stored_bytes == old(session).stored_bytes,
        match at {
            Ok(at_ms) => {
                &&& result matches Ok(told) && answers(
                    told@,
                    "written"@,
                    seq![
                        ("key"@, ValTree::Text(request.key@)),
                        ("value"@, ValTree::Text(request.value@)),
                        ("version"@, ValTree::S64(version)),
                    ],
                )
                &&& exists|event: JsonTree| #[trigger]
                    records_request(event, *ability, *request, written_bytes as int, at_ms as int)
                        && event.member("result-version"@) == Some(
                        JsonTree::Whole(version as int),
                    ) && only(event, request_keys().insert("result-version"@))
                        && final(session)@.events == old(session)@.events.push(event)
            },
            Err(error) => (result matches Err(told) && told@ == error@) && final(session)@.events
                == old(session)@.events,
        },
{
    if let Ok(at_ms) = at {
        lemma_request_keys();
        let event = transaction_tree(
            *ability,
            request@,
            version,
            written_bytes as nat,
            at_ms as int,
        );
        assert(records_request(event, *ability, *request, written_bytes as int, at_ms as int));
        assert(event->Object_0.dom() =~= request_keys().insert("result-version"@));
    }
}

/// A refused request is recorded, too: with the case of its answer, with the version of
/// its key where the answer tells one, and with nothing written. The component gets the
/// answer, and nothing else changes.
pub proof fn law_refusal_is_recorded(
    session: &mut EffectSession,
    ability: &Ability,
    request: &StorageRequest,
    answer: Val,
    at_ms: u128,
    result: Result<Val, HostError>,
)
    requires
        call_ensures(
            EffectSession::transaction_refused,
            (session, ability, request, answer, Ok(at_ms)),
            result,
        ),
    ensures
        final(session).config == old(session).config,
        final(session)@.http_response == old(session)@.http_response,
        final(session).http_result == old(session).http_result,
        final(session).stored_bytes == old(session).stored_bytes,
        result matches Ok(told) && told@ == answer@,
        exists|event: JsonTree| #[trigger]
            records_request(event, *ability, *request, 0, at_ms as int) && final(session)@.events
                == old(session)@.events.push(event) && (answer@ matches ValTree::Variant(case, _)
                ==> event.member("result-case"@) == Some(JsonTree::Text(case))) && (forall|
                key: Seq<char>,
                version: i64,
            | #[trigger]
                tells_current(answer@, key, version) ==> event.member("result-version"@) == Some(
                    JsonTree::Whole(version as int),
                )) && (answer@ == ValTree::Variant(
                "conflict-missing"@,
                Some(Box::new(ValTree::Bool(true))),
            ) ==> event.member("result-version"@) is None) && (only(
                event,
                request_keys().insert("result-case"@),
            ) || only(
                event,
                request_keys().insert("result-case"@).insert("result-version"@),
            )),
{
    lemma_request_keys();
    let event = refusal_tree(*ability, request@, answer@, at_ms as int);
    assert(records_request(event, *ability, *request, 0, at_ms as int));
    if answer_version(answer@) is Some {
        assert(event->Object_0.dom() =~= request_keys().insert("result-case"@).insert(
            "result-version"@,
        ));
    } else {
        assert(event->Object_0.dom() =~= request_keys().insert("result-case"@));
    }
    assert(event.member("result-case"@) == Some(JsonTree::Text(answer_case(answer@))));
    assert(event.member("result-version"@) == match answer_version(answer@) {
        Some(version) => Some(JsonTree::Whole(version as int)),
        None => None,
    });
    assert forall|key: Seq<char>, version: i64| #[trigger] tells_current(
        answer@,
        key,
        version,
    ) implies event.member("result-version"@) == Some(JsonTree::Whole(version as int)) by {
        lemma_current_version(key, version);
    }
}

proof fn lemma_current_version(key: Seq<char>, version: i64)
    ensures
        i64_field(
            seq![("key"@, ValTree::Text(key)), ("current-version"@, ValTree::S64(version))],
            "current-version"@,
        ) == Ok::<i64, Failure>(version),
{
    reveal_strlit("key");
    reveal_strlit("current-version");
    assert("key"@.len() == 3 && "current-version"@.len() == 15);
    let fields = seq![("key"@, ValTree::Text(key)), ("current-version"@, ValTree::S64(version))];
    let front = fields.drop_last();
    assert(front =~= seq![("key"@, ValTree::Text(key))]);
    let none = front.drop_last();
    assert(none =~= seq![]);
    assert(field(none, "current-version"@) is None);
    assert(field(front, "current-version"@) is None);
}

/// A refused request without a time is not recorded.
pub proof fn law_untimed_refusal_changes_nothing(
    session: &mut EffectSession,
    ability: &Ability,
    request: &StorageRequest,
    answer: Val,
    error: HostError,
    result: Result<Val, HostError>,
)
    requires
        call_ensures(
            EffectSession::transaction_refused,
            (session, ability, request, answer, Err(error)),
            result,
        ),
    ensures
        result matches Err(told) && told@ == error@,
        final(session)@ == old(session)@,
{
}

/// A call of structured storage is admitted with an ability for it and with a
/// configured log, and is then read within the bound of that log.
pub proof fn law_structured_call_is_admitted(
    session: &EffectSession,
    ability: &Ability,
    params: &Vec<Val>,
    results: usize,
    request: Result<StorageRequest, HostError>,
)
    requires
        call_ensures(EffectSession::transact_value, (session, ability, params, results), request),
    ensures
        request is Ok ==> may("aiueos-storage-transact"@, *ability) && session.config.storage
            is Some,
        may("aiueos-storage-transact"@, *ability) && session.config.storage is None ==> (
        request matches Err(error) && error.kind == ErrorKind::StorageNotConfigured),
        forall|read: Result<StorageRequest, HostError>|
            may("aiueos-storage-transact"@, *ability) && session.config.storage is Some
                && #[trigger] call_ensures(
                read_request,
                (params, results, session.config.storage->0.max_write_bytes),
                read,
            ) ==> match (request, read) {
                (Ok(one), Ok(other)) => one@ == other@,
                (Err(one), Err(other)) => one@ == other@,
                _ => false,
            },
{
    lemma_may("aiueos-storage-transact"@, *ability);
}

/// The line of a checkpoint holds the response as it was and the time.
pub proof fn law_checkpoint_line_holds_the_response(
    log: &HostPath,
    response: &Json,
    at_ms: u128,
    max_write_bytes: u64,
    line: Result<Vec<u8>, HostError>,
)
    requires
        call_ensures(checkpoint_line, (log, response, at_ms, max_write_bytes), line),
    ensures
        line matches Ok(bytes) ==> log.absolute && max_write_bytes > 0 && bytes@.len()
            <= max_write_bytes as usize && exists|tree: JsonTree| #[trigger]
            is_checkpoint(tree, response@, at_ms as int) && bytes@ == json_text(tree) + seq![10u8],
        line matches Err(error) ==> if !log.absolute || max_write_bytes == 0 {
            error.kind == ErrorKind::LogNotAdmitted
        } else {
            error.kind == ErrorKind::WriteOversize && exists|tree: JsonTree| #[trigger]
                is_checkpoint(tree, response@, at_ms as int) && json_text(tree).len() + 1
                    > max_write_bytes as usize
        },
{
    reveal_strlit("format");
    reveal_strlit("http-response");
    reveal_strlit("recorded-at-ms");
    assert("format"@.len() == 6 && "http-response"@.len() == 13 && "recorded-at-ms"@.len() == 14);
    let tree = checkpoint_tree(response@, at_ms as int);
    assert(tree->Object_0.dom() =~= set!["format"@, "http-response"@, "recorded-at-ms"@]);
    assert(is_checkpoint(tree, response@, at_ms as int));
    assert(json_text(tree).push(10) =~= json_text(tree) + seq![10u8]);
}

/// Whether a JSON value is the checkpoint of a response.
pub open spec fn is_checkpoint(tree: JsonTree, response: JsonTree, at_ms: int) -> bool {
    &&& tree.member("format"@) == Some(JsonTree::Text("cloud-itonami.effect-checkpoint/v1"@))
    &&& tree.member("http-response"@) == Some(response)
    &&& tree.member("recorded-at-ms"@) == Some(JsonTree::Whole(at_ms))
    &&& only(tree, set!["format"@, "http-response"@, "recorded-at-ms"@])
}

/// The chain of effects holds from one call to the next: after an HTTP call the
/// checkpoint takes the result of that call, whatever came before, and no other.
pub proof fn law_checkpoint_follows_the_call(
    session: &mut EffectSession,
    ability: &Ability,
    value: i64,
    response: Json,
    response_bytes: usize,
    at: Result<u128, HostError>,
    result: Result<i64, HostError>,
    name: &str,
    given: i64,
    effect: Result<Effect, HostError>,
)
    requires
        call_ensures(
            EffectSession::http_done,
            (session, ability, value, response, response_bytes, at),
            result,
        ),
        response_bytes <= i64::MAX,
        call_ensures(EffectSession::invoke, (&*final(session), name, given), effect),
        name@ == "aiueos-storage-transact"@,
    ensures
        effect is Ok <==> final(session).config.storage is Some && given == response_bytes,
        effect matches Ok(Effect::Checkpoint { response: held, .. }) ==> held@ == response@,
{
    lemma_three_names();
}

/// After a checkpoint the generation takes the length of that checkpoint and no other.
pub proof fn law_generation_follows_the_checkpoint(
    session: &mut EffectSession,
    ability: &Ability,
    value: i64,
    written_bytes: usize,
    at: Result<u128, HostError>,
    result: Result<i64, HostError>,
    name: &str,
    given: i64,
    effect: Result<Effect, HostError>,
)
    requires
        call_ensures(
            EffectSession::checkpoint_done,
            (session, ability, value, written_bytes, at),
            result,
        ),
        written_bytes <= i64::MAX,
        call_ensures(EffectSession::invoke, (&*final(session), name, given), effect),
        name@ == "aiueos-llm-generate"@,
    ensures
        effect is Ok ==> given == written_bytes && effect->Ok_0 is Generate,
        given != written_bytes && final(session).config.llm is Some ==> (effect matches Err(error)
            && error.kind == ErrorKind::LlmCheckpointMismatch),
{
    lemma_three_names();
}

} // verus!
