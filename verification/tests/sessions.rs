//! The chain of scalar effects of the resident host.

use std::sync::Arc;

use tender_component::ability::Ability;
use tender_component::effects::{
    checkpoint_line, resident_imports, Effect, EffectSession, HttpCapability, LlmCapability,
    ResidentCapabilityConfig, StorageCapability,
};
use tender_component::error::{ErrorKind, HostError};
use tender_component::json::Json;
use tender_component::storage::HostPath;

fn config() -> ResidentCapabilityConfig {
    ResidentCapabilityConfig {
        format: "kototama.resident-capabilities/v1".to_owned(),
        http: Some(HttpCapability {
            endpoint: "http://127.0.0.1:1/http".to_owned(),
            request_body: Json::Object(vec![("q".to_owned(), Json::Unsigned(1))]),
            request_code: 41,
            max_response_bytes: 1024,
            deadline_ms: 1000,
            audit_id: "http".to_owned(),
        }),
        storage: Some(StorageCapability {
            log: HostPath::new("/var/effects.jsonl".to_owned()),
            max_write_bytes: 4096,
            deadline_ms: 2000,
            audit_id: "storage".to_owned(),
        }),
        llm: Some(LlmCapability {
            endpoint: "http://127.0.0.1:2/llm".to_owned(),
            model: "model".to_owned(),
            prompt: "prompt".to_owned(),
            success_code: 7,
            max_request_bytes: 64,
            max_response_bytes: 512,
            deadline_ms: 3000,
            audit_id: "llm".to_owned(),
        }),
    }
}

fn empty() -> ResidentCapabilityConfig {
    ResidentCapabilityConfig {
        format: "kototama.resident-capabilities/v1".to_owned(),
        http: None,
        storage: None,
        llm: None,
    }
}

fn ability(operation: &str) -> Ability {
    Ability {
        target: "target".to_owned(),
        operation: operation.to_owned(),
        max_bytes: 1,
        max_items: 1,
        deadline_ms: 1,
        audit_id: "audit".to_owned(),
    }
}

fn kind_of(result: Result<Effect, HostError>) -> ErrorKind {
    result.unwrap_err().kind
}

#[test]
fn resident_capability_config_can_grant_storage_only() {
    let config = ResidentCapabilityConfig {
        format: "kototama.resident-capabilities/v1".to_owned(),
        http: None,
        storage: Some(StorageCapability {
            log: HostPath::new("/tmp/order-values.jsonl".to_owned()),
            max_write_bytes: 65536,
            deadline_ms: 1000,
            audit_id: "storage-only".to_owned(),
        }),
        llm: None,
    };
    let imports = resident_imports(&config);
    assert_eq!(imports.len(), 1);
    assert_eq!(imports[0].name, "aiueos-storage-transact");
}

#[test]
fn every_capability_grants_one_import() {
    let imports = resident_imports(&config());
    let names: Vec<&str> = imports.iter().map(|import| import.name.as_str()).collect();
    assert_eq!(
        names,
        vec!["aiueos-http-post", "aiueos-storage-transact", "aiueos-llm-generate"]
    );
    assert_eq!(
        imports[0].ability,
        Ability {
            target: "http://127.0.0.1:1/http".to_owned(),
            operation: "http/post".to_owned(),
            max_bytes: 1024,
            max_items: 1,
            deadline_ms: 1000,
            audit_id: "http".to_owned(),
        }
    );
    assert_eq!(imports[1].ability.target, "/var/effects.jsonl");
    assert_eq!(imports[1].ability.operation, "storage/transact");
    assert_eq!(imports[1].ability.max_bytes, 4096);
    assert_eq!(imports[2].ability.operation, "llm/generate");
    assert_eq!(imports[2].ability.max_bytes, 512);
    assert_eq!(resident_imports(&empty()), vec![]);
}

#[test]
fn the_chain_is_taken_in_order() {
    let mut session = EffectSession::new(Arc::new(config()));
    assert_eq!(kind_of(session.invoke("aiueos-storage-transact", 0)), ErrorKind::StorageNeedsHttp);
    assert_eq!(
        kind_of(session.invoke("aiueos-llm-generate", 0)),
        ErrorKind::LlmCheckpointMismatch
    );
    assert_eq!(
        session.invoke("aiueos-http-post", 41),
        Ok(Effect::Post {
            endpoint: "http://127.0.0.1:1/http".to_owned(),
            body: Json::Object(vec![("q".to_owned(), Json::Unsigned(1))]),
            deadline_ms: 1000,
            max_response_bytes: 1024,
        })
    );
    let response = Json::Object(vec![("ok".to_owned(), Json::Bool(true))]);
    assert_eq!(
        session.http_done(&ability("http/post"), 41, response.clone(), 11, Ok(100)),
        Ok(11)
    );
    assert_eq!(
        kind_of(session.invoke("aiueos-storage-transact", 12)),
        ErrorKind::StorageInputMismatch
    );
    assert_eq!(
        session.invoke("aiueos-storage-transact", 11),
        Ok(Effect::Checkpoint {
            log: HostPath::new("/var/effects.jsonl".to_owned()),
            response,
            max_write_bytes: 4096,
        })
    );
    assert_eq!(session.checkpoint_done(&ability("storage/transact"), 11, 90, Ok(200)), Ok(90));
    assert_eq!(
        kind_of(session.invoke("aiueos-llm-generate", 91)),
        ErrorKind::LlmCheckpointMismatch
    );
    let effect = session.invoke("aiueos-llm-generate", 90).unwrap();
    match effect {
        Effect::Generate { endpoint, body, deadline_ms, max_response_bytes } => {
            assert_eq!(endpoint, "http://127.0.0.1:2/llm");
            assert_eq!(
                body.encode(),
                b"{\"model\":\"model\",\"prompt\":\"prompt\\n\\nBounded provider context:\\n{\\\"ok\\\":true}\",\"stream\":false}"
                    .to_vec()
            );
            assert_eq!((deadline_ms, max_response_bytes), (3000, 512));
        }
        _ => panic!("a text is generated"),
    }
    let generated = Json::parse(b"{\"response\":\" hi \"}").unwrap();
    assert_eq!(
        session.generation_done(&ability("llm/generate"), 90, &generated, 19, Ok(300)),
        Ok(7)
    );
    let told: Vec<Vec<u8>> = session.events.iter().map(Json::encode).collect();
    assert_eq!(
        told,
        vec![
            b"{\"ability-audit-id\":\"audit\",\"at-ms\":100,\"capability\":\"aiueos-http-post\",\"request\":41,\"response-bytes\":11,\"result\":11,\"target\":\"target\"}".to_vec(),
            b"{\"ability-audit-id\":\"audit\",\"at-ms\":200,\"capability\":\"aiueos-storage-transact\",\"request\":11,\"response-bytes\":90,\"result\":90,\"target\":\"target\"}".to_vec(),
            b"{\"ability-audit-id\":\"audit\",\"at-ms\":300,\"capability\":\"aiueos-llm-generate\",\"request\":90,\"response-bytes\":4,\"result\":7,\"target\":\"target\"}".to_vec(),
        ]
    );
}

#[test]
fn a_capability_that_is_not_granted_is_refused() {
    let session = EffectSession::new(Arc::new(empty()));
    assert_eq!(kind_of(session.invoke("aiueos-http-post", 1)), ErrorKind::HttpNotConfigured);
    assert_eq!(
        kind_of(session.invoke("aiueos-storage-transact", 1)),
        ErrorKind::StorageNotConfigured
    );
    assert_eq!(kind_of(session.invoke("aiueos-llm-generate", 1)), ErrorKind::LlmNotConfigured);
    let error = session.invoke("aiueos-clock-now", 1).unwrap_err();
    assert_eq!(
        error.message(),
        "resident provider does not implement capability aiueos-clock-now"
    );
    let full = EffectSession::new(Arc::new(config()));
    assert_eq!(kind_of(full.invoke("aiueos-http-post", 1)), ErrorKind::HttpRequestCode);
}

#[test]
fn a_generation_keeps_within_its_bound() {
    let mut session = EffectSession::new(Arc::new(config()));
    session.stored_bytes = Some(5);
    assert_eq!(kind_of(session.invoke("aiueos-llm-generate", 5)), ErrorKind::LlmNeedsHttp);
    // The prompt, the sentence between and the context are 64 bytes.
    session.http_response = Some(Json::Text("x".repeat(64 - 6 - 28 - 2)));
    assert!(session.invoke("aiueos-llm-generate", 5).is_ok());
    session.http_response = Some(Json::Text("x".repeat(65 - 6 - 28 - 2)));
    assert_eq!(kind_of(session.invoke("aiueos-llm-generate", 5)), ErrorKind::LlmRequestOversize);
}

#[test]
fn a_generation_without_text_is_refused() {
    let mut session = EffectSession::new(Arc::new(config()));
    for text in ["{}", "{\"response\":1}", "{\"response\":\" \\n\\u2003\"}", "[]"] {
        let response = Json::parse(text.as_bytes()).unwrap();
        assert_eq!(
            session.generation_done(&ability("llm/generate"), 1, &response, 9, Ok(1)),
            Err(HostError::plain(ErrorKind::LlmNoText))
        );
    }
    let response = Json::parse(b"{\"response\":\"long text\"}").unwrap();
    assert_eq!(
        session.generation_done(&ability("llm/generate"), 1, &response, 3, Ok(1)),
        Ok(7)
    );
    assert_eq!(session.events[0].get_integer("response-bytes"), Some(3));
    let mut bare = EffectSession::new(Arc::new(empty()));
    assert_eq!(
        bare.generation_done(&ability("llm/generate"), 1, &response, 3, Ok(1)).unwrap_err().kind,
        ErrorKind::LlmNotConfigured
    );
}

#[test]
fn nothing_is_recorded_without_a_time() {
    let stopped = || HostError::plain(ErrorKind::ClockBeforeEpoch);
    let mut session = EffectSession::new(Arc::new(config()));
    assert_eq!(
        session.http_done(&ability("http/post"), 41, Json::Null, 4, Err(stopped())),
        Err(stopped())
    );
    assert_eq!(session.http_result, Some(4));
    assert!(session.events.is_empty());
    assert_eq!(
        session.event("aiueos-http-post", &ability("http/post"), 1, 2, 3, Err(stopped())),
        Err(stopped())
    );
    assert!(session.events.is_empty());
}

#[test]
fn a_length_must_fit_the_scalar_interface() {
    let mut session = EffectSession::new(Arc::new(config()));
    assert_eq!(
        session
            .http_done(&ability("http/post"), 41, Json::Null, usize::MAX, Ok(1))
            .unwrap_err(),
        HostError::plain(ErrorKind::HttpLengthNotScalar)
            .because(&i64::try_from(usize::MAX).unwrap_err().to_string())
    );
    assert_eq!(
        session
            .checkpoint_done(&ability("storage/transact"), 41, usize::MAX, Ok(1))
            .unwrap_err(),
        HostError::plain(ErrorKind::WriteLengthNotScalar)
            .because(&i64::try_from(usize::MAX).unwrap_err().to_string())
    );
    assert!(session.http_response.is_none() && session.stored_bytes.is_none());
}

#[test]
fn a_checkpoint_is_one_line() {
    let log = HostPath::new("/log".to_owned());
    let response = Json::parse(b"{\"b\":[1,null],\"a\":-2}").unwrap();
    assert_eq!(
        checkpoint_line(&log, &response, 9, 4096),
        Ok(b"{\"format\":\"cloud-itonami.effect-checkpoint/v1\",\"http-response\":{\"a\":-2,\"b\":[1,null]},\"recorded-at-ms\":9}\n".to_vec())
    );
    assert_eq!(
        checkpoint_line(&log, &response, 9, 10).unwrap_err().kind,
        ErrorKind::WriteOversize
    );
}
