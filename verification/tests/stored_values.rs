//! The log of the storage capability, and requests of structured storage.

use std::sync::Arc;

use tender_component::ability::Ability;
use tender_component::clock::now_ms;
use tender_component::effects::{
    EffectSession, HttpCapability, LlmCapability, ResidentCapabilityConfig, StorageCapability,
};
use tender_component::error::{ErrorKind, HostError};
use tender_component::json::Json;
use tender_component::storage::{
    append_json_line, conditional_values, json_line, record_i64, record_string, HostPath,
};
use tender_component::transaction::{
    decide, read_request, transact, Decision, Step, StorageRequest,
};
use tender_component::value::Val;

/// A log in memory: nothing where it was never written.
struct Log {
    path: HostPath,
    text: Option<String>,
}

impl Log {
    fn new(path: &str) -> Log {
        Log { path: HostPath::new(path.to_owned()), text: None }
    }

    fn size(&self) -> u64 {
        self.text.as_ref().map_or(0, |text| text.len() as u64)
    }

    fn append(&mut self, line: &[u8]) {
        let mut text = self.text.take().unwrap_or_default();
        text.push_str(std::str::from_utf8(line).unwrap());
        self.text = Some(text);
    }
}

fn structured_session(log: &Log) -> EffectSession {
    EffectSession::new(Arc::new(ResidentCapabilityConfig {
        format: "kototama.resident-capabilities/v1".to_owned(),
        http: Some(HttpCapability {
            endpoint: "http://127.0.0.1:1/http".to_owned(),
            request_body: Json::Object(vec![]),
            request_code: 1,
            max_response_bytes: 1024,
            deadline_ms: 1000,
            audit_id: "http".to_owned(),
        }),
        storage: Some(StorageCapability {
            log: log.path.clone(),
            max_write_bytes: 65536,
            deadline_ms: 1000,
            audit_id: "storage".to_owned(),
        }),
        llm: Some(LlmCapability {
            endpoint: "http://127.0.0.1:1/llm".to_owned(),
            model: "model".to_owned(),
            prompt: "prompt".to_owned(),
            success_code: 1,
            max_request_bytes: 1024,
            max_response_bytes: 1024,
            deadline_ms: 1000,
            audit_id: "llm".to_owned(),
        }),
    }))
}

fn storage_ability(path: &HostPath) -> Ability {
    Ability {
        target: path.text.clone(),
        operation: "storage/transact".to_owned(),
        max_bytes: 65536,
        max_items: 1,
        deadline_ms: 1000,
        audit_id: "order-commit".to_owned(),
    }
}

fn put_new(key: &str, value: &str) -> Vec<Val> {
    vec![Val::Variant(
        "put-new".to_owned(),
        Some(Box::new(Val::Record(vec![
            ("key".to_owned(), Val::Text(key.to_owned())),
            ("value".to_owned(), Val::Text(value.to_owned())),
        ]))),
    )]
}

fn put_existing(key: &str, value: &str, expected: i64) -> Vec<Val> {
    vec![Val::Variant(
        "put-existing".to_owned(),
        Some(Box::new(Val::Record(vec![
            ("key".to_owned(), Val::Text(key.to_owned())),
            ("value".to_owned(), Val::Text(value.to_owned())),
            ("expected-version".to_owned(), Val::S64(expected)),
        ]))),
    )]
}

/// Carries a request out on a log in memory.
fn carry_out(
    session: &mut EffectSession,
    log: &mut Log,
    ability: &Ability,
    params: Vec<Val>,
) -> Result<Val, HostError> {
    let request = session.transact_value(ability, &params, 1)?;
    match transact(&request, &log.path, log.text.as_deref(), log.size(), 65536, now_ms())? {
        Step::Refused(value) => {
            session.transaction_refused(ability, &request, value, now_ms())
        }
        Step::Append { version, line } => {
            log.append(&line);
            session.transaction_done(ability, &request, version, line.len(), now_ms())
        }
    }
}

#[test]
fn structured_storage_is_linearized_by_expected_version() {
    let mut log = Log::new("/tmp/tender-structured-storage.jsonl");
    let ability = storage_ability(&log.path);
    let mut session = structured_session(&log);

    let result =
        carry_out(&mut session, &mut log, &ability, put_new("order/1", "v1")).unwrap();
    assert!(matches!(
        &result,
        Val::Variant(case, Some(payload))
            if case == "written"
                && matches!(payload.as_ref(), Val::Record(fields)
                    if matches!(fields.last(), Some((name, Val::S64(1))) if name == "version"))
    ));

    let result =
        carry_out(&mut session, &mut log, &ability, put_new("order/1", "duplicate")).unwrap();
    assert!(matches!(
        &result,
        Val::Variant(case, Some(_)) if case == "conflict-current"
    ));

    let result =
        carry_out(&mut session, &mut log, &ability, put_existing("order/1", "stale", 0)).unwrap();
    assert!(matches!(
        &result,
        Val::Variant(case, Some(_)) if case == "conflict-current"
    ));

    let result =
        carry_out(&mut session, &mut log, &ability, put_existing("order/1", "v2", 1)).unwrap();
    assert!(matches!(
        &result,
        Val::Variant(case, Some(payload))
            if case == "written"
                && matches!(payload.as_ref(), Val::Record(fields)
                    if matches!(fields.last(), Some((name, Val::S64(2))) if name == "version"))
    ));
    let values = conditional_values(log.text.as_deref(), log.size(), 65536).unwrap();
    assert_eq!(values.get("order/1"), Some((&"v2".to_owned(), 2)));
    assert_eq!(session.events.len(), 4);
}

#[test]
fn structured_replace_of_missing_value_fails_closed() {
    let mut log = Log::new("/tmp/tender-structured-storage-missing.jsonl");
    let ability = storage_ability(&log.path);
    let mut session = structured_session(&log);
    let result = carry_out(
        &mut session,
        &mut log,
        &ability,
        put_existing("order/missing", "value", 1),
    )
    .unwrap();
    assert!(matches!(
        &result,
        Val::Variant(case, Some(payload))
            if case == "conflict-missing"
                && matches!(payload.as_ref(), Val::Bool(true))
    ));
    assert!(log.text.is_none(), "a rejected replace performs no write");
    assert_eq!(session.events.len(), 1);
}

#[test]
fn a_refused_request_is_recorded_with_its_answer() {
    let log = Log::new("/log");
    let ability = storage_ability(&log.path);
    let mut session = structured_session(&log);
    let request = read_request(&put_existing("k", "v", 4), 1, 100).unwrap();
    let current = || match decide(&request, Some(7)) {
        Ok(Decision::Refused(value)) => value,
        _ => panic!("the request is refused"),
    };
    let missing = || match decide(&request, None) {
        Ok(Decision::Refused(value)) => value,
        _ => panic!("the request is refused"),
    };
    let stopped = || HostError::plain(ErrorKind::ClockBeforeEpoch);
    assert_eq!(
        session.transaction_refused(&ability, &request, current(), Err(stopped())),
        Err(stopped())
    );
    assert!(session.events.is_empty());
    assert_eq!(
        session.transaction_refused(&ability, &request, current(), Ok(11)),
        Ok(current())
    );
    assert_eq!(
        session.transaction_refused(&ability, &request, missing(), Ok(12)),
        Ok(missing())
    );
    let texts: Vec<String> =
        session.events.iter().map(|event| event.encode_text()).collect();
    assert_eq!(
        texts,
        vec![
            "{\"ability-audit-id\":\"order-commit\",\"at-ms\":11,\"capability\":\"aiueos-storage-transact\",\"operation\":\"put-existing\",\"request-key\":\"k\",\"response-bytes\":0,\"result-case\":\"conflict-current\",\"result-version\":7,\"target\":\"/log\"}",
            "{\"ability-audit-id\":\"order-commit\",\"at-ms\":12,\"capability\":\"aiueos-storage-transact\",\"operation\":\"put-existing\",\"request-key\":\"k\",\"response-bytes\":0,\"result-case\":\"conflict-missing\",\"target\":\"/log\"}",
        ]
    );
}

#[test]
fn a_conflict_tells_the_version_of_the_key() {
    let request = read_request(&put_existing("k", "v", 4), 1, 100).unwrap();
    assert_eq!(
        decide(&request, Some(7)),
        Ok(Decision::Refused(Val::Variant(
            "conflict-current".to_owned(),
            Some(Box::new(Val::Record(vec![
                ("key".to_owned(), Val::Text("k".to_owned())),
                ("current-version".to_owned(), Val::S64(7)),
            ])))
        )))
    );
    assert_eq!(decide(&request, Some(4)), Ok(Decision::Write(5)));
}

#[test]
fn a_decision_fails_one_reason_each() {
    let overflow = read_request(&put_existing("k", "v", i64::MAX), 1, 100).unwrap();
    assert_eq!(
        decide(&overflow, Some(i64::MAX)).unwrap_err().kind,
        ErrorKind::StructuredVersionOverflow
    );
    let unknown = StorageRequest {
        operation: "delete".to_owned(),
        key: "k".to_owned(),
        value: "v".to_owned(),
        expected: Ok(1),
    };
    assert_eq!(
        decide(&unknown, Some(1)).unwrap_err().kind,
        ErrorKind::StructuredOperationUnknown
    );
    let mut params = put_new("k", "v");
    params[0] = Val::Variant(
        "put-existing".to_owned(),
        Some(Box::new(Val::Record(vec![
            ("key".to_owned(), Val::Text("k".to_owned())),
            ("value".to_owned(), Val::Text("v".to_owned())),
        ]))),
    );
    let unnamed = read_request(&params, 1, 100).unwrap();
    let error = decide(&unnamed, None).unwrap_err();
    assert_eq!(error.kind, ErrorKind::StorageFieldMissing);
    assert_eq!(
        error.message(),
        "structured storage record is missing field expected-version"
    );
}

#[test]
fn a_structured_request_has_one_shape() {
    assert_eq!(
        read_request(&vec![], 1, 9).unwrap_err().kind,
        ErrorKind::StructuredRequestShape
    );
    assert_eq!(
        read_request(&vec![Val::Variant("put-new".to_owned(), None)], 1, 9).unwrap_err().kind,
        ErrorKind::StructuredRequestShape
    );
    assert_eq!(
        read_request(
            &vec![Val::Variant("put-new".to_owned(), Some(Box::new(Val::Bool(true))))],
            1,
            9
        )
        .unwrap_err()
        .kind,
        ErrorKind::StructuredPayloadShape
    );
    assert_eq!(
        read_request(&put_new("k", "v"), 2, 9).unwrap_err().kind,
        ErrorKind::StructuredResultShape
    );
    assert_eq!(
        read_request(&put_new("", "v"), 1, 9).unwrap_err().kind,
        ErrorKind::StructuredRequestBounds
    );
    assert_eq!(
        read_request(&put_new(&"é".repeat(2049), "v"), 1, 9).unwrap_err().kind,
        ErrorKind::StructuredRequestBounds
    );
    assert!(read_request(&put_new(&"é".repeat(2048), "v"), 1, 9).is_ok());
    assert_eq!(
        read_request(&put_new("k", "0123456789"), 1, 9).unwrap_err().kind,
        ErrorKind::StructuredRequestBounds
    );
}

#[test]
fn a_field_is_found_by_name() {
    let fields = vec![
        ("a".to_owned(), Val::Text("x".to_owned())),
        ("a".to_owned(), Val::S64(2)),
        ("b".to_owned(), Val::S64(3)),
    ];
    assert_eq!(record_string(&fields, "a"), Ok("x".to_owned()));
    assert_eq!(record_i64(&fields, "b"), Ok(3));
    assert_eq!(
        record_i64(&fields, "a").unwrap_err().message(),
        "structured storage field a must be s64"
    );
    assert_eq!(
        record_string(&fields, "b").unwrap_err().message(),
        "structured storage field b must be a string"
    );
    assert_eq!(record_string(&fields, "c").unwrap_err().kind, ErrorKind::StorageFieldMissing);
}

#[test]
fn a_line_is_admitted_within_its_bound() {
    let log = HostPath::new("/log".to_owned());
    assert_eq!(append_json_line(&log, &Json::Null, 5), Ok(b"null\n".to_vec()));
    assert_eq!(
        append_json_line(&log, &Json::Null, 4).unwrap_err().kind,
        ErrorKind::WriteOversize
    );
    assert_eq!(
        append_json_line(&log, &Json::Null, 0).unwrap_err().kind,
        ErrorKind::LogNotAdmitted
    );
    let relative = HostPath::new("log".to_owned());
    assert!(!relative.absolute && log.absolute);
    assert_eq!(
        append_json_line(&relative, &Json::Null, 9).unwrap_err().kind,
        ErrorKind::LogNotAdmitted
    );
    assert_eq!(json_line(&Json::Bool(true)), b"true\n".to_vec());
}

#[test]
fn the_latest_record_of_a_key_counts() {
    let record = |key: &str, value: &str, version: i64| {
        format!(
            "{{\"format\":\"kototama.conditional-value/v1\",\"key\":\"{key}\",\"value\":\"{value}\",\"version\":{version}}}"
        )
    };
    let log = format!(
        "{}\r\n\n  \nnot json\n{{\"format\":\"other\",\"key\":\"a\",\"value\":\"x\",\"version\":9}}\n{}\n{}\n{{\"format\":\"kototama.conditional-value/v1\",\"key\":\"a\",\"value\":\"x\"}}\n{}",
        record("a", "one", 1),
        record("b", "two", 1),
        record("a", "three", 2),
        record("c", "four", 1)
    );
    let values = conditional_values(Some(&log), log.len() as u64, 4096).unwrap();
    assert_eq!(values.get("a"), Some((&"three".to_owned(), 2)));
    assert_eq!(values.get("b"), Some((&"two".to_owned(), 1)));
    assert_eq!(values.get("c"), Some((&"four".to_owned(), 1)));
    assert_eq!(values.get("d"), None);
}

#[test]
fn a_namespace_keeps_within_its_quota() {
    assert!(conditional_values(None, 0, 1).unwrap().get("a").is_none());
    assert!(conditional_values(Some(""), 9, 9).is_ok());
    assert!(matches!(
        conditional_values(Some(""), 10, 9),
        Err(HostError { kind: ErrorKind::NamespaceOversize, .. })
    ));
}

#[test]
fn a_write_is_recorded_in_one_line() {
    let path = HostPath::new("/log".to_owned());
    let request = read_request(&put_new("k", "a\nb"), 1, 1000).unwrap();
    let step = transact(&request, &path, None, 0, 1000, Ok(42)).unwrap();
    assert_eq!(
        step,
        Step::Append {
            version: 1,
            line: b"{\"format\":\"kototama.conditional-value/v1\",\"key\":\"k\",\"recorded-at-ms\":42,\"value\":\"a\\nb\",\"version\":1}\n"
                .to_vec()
        }
    );
    if let Step::Append { line, .. } = step {
        let text = String::from_utf8(line).unwrap();
        let values = conditional_values(Some(&text), text.len() as u64, 1000).unwrap();
        assert_eq!(values.get("k"), Some((&"a\nb".to_owned(), 1)));
    }
    assert_eq!(
        transact(&request, &path, None, 0, 20, Ok(42)).unwrap_err().kind,
        ErrorKind::WriteOversize
    );
    assert_eq!(
        transact(&request, &path, Some(""), 21, 20, Ok(42)).unwrap_err().kind,
        ErrorKind::NamespaceOversize
    );
    let stopped = HostError::plain(ErrorKind::ClockBeforeEpoch);
    assert_eq!(
        transact(&request, &path, None, 0, 1000, Err(stopped)).unwrap_err().message(),
        "system clock is before Unix epoch"
    );
}

#[test]
fn a_structured_call_needs_its_ability_and_its_log() {
    let log = Log::new("/log");
    let mut session = structured_session(&log);
    let mut ability = storage_ability(&log.path);
    ability.max_items = 0;
    assert_eq!(
        session.transact_value(&ability, &put_new("k", "v"), 1).unwrap_err().kind,
        ErrorKind::UnboundedAbility
    );
    ability.max_items = 1;
    session.config = Arc::new(ResidentCapabilityConfig {
        format: String::new(),
        http: None,
        storage: None,
        llm: None,
    });
    assert_eq!(
        session.transact_value(&ability, &put_new("k", "v"), 1).unwrap_err().kind,
        ErrorKind::StorageNotConfigured
    );
}

#[test]
fn a_structured_write_is_told_in_its_event() {
    let log = Log::new("/log");
    let mut session = structured_session(&log);
    let ability = storage_ability(&log.path);
    let request = read_request(&put_new("k", "v"), 1, 1000).unwrap();
    let result = session.transaction_done(&ability, &request, 1, 77, Ok(5)).unwrap();
    assert_eq!(
        result,
        Val::Variant(
            "written".to_owned(),
            Some(Box::new(Val::Record(vec![
                ("key".to_owned(), Val::Text("k".to_owned())),
                ("value".to_owned(), Val::Text("v".to_owned())),
                ("version".to_owned(), Val::S64(1)),
            ])))
        )
    );
    assert_eq!(
        session.events[0].encode(),
        b"{\"ability-audit-id\":\"order-commit\",\"at-ms\":5,\"capability\":\"aiueos-storage-transact\",\"operation\":\"put-new\",\"request-key\":\"k\",\"response-bytes\":77,\"result-version\":1,\"target\":\"/log\"}"
            .to_vec()
    );
}
