//! What a resident host runs, and what it tells.

use std::sync::Arc;

use tender_component::ability::{admit_imports, Ability};
use tender_component::config::{BindAddress, ResidentConfig, StartupMode};
use tender_component::effects::{EffectSession, ResidentCapabilityConfig, StorageCapability};
use tender_component::error::ErrorKind;
use tender_component::json::{copies, Json};
use tender_component::resident::{
    admit_invocation, check_export, execute_invocation, execute_resident, health, ready_notice,
    request_digest, resident_run, InvocationRequest,
};
use tender_component::seal::{sha256_hex, SigningKey};
use tender_component::storage::HostPath;
use tender_component::transaction::{decide, read_request, Decision};
use tender_component::value::Val;

fn config(granted: bool) -> ResidentConfig {
    let capabilities = ResidentCapabilityConfig {
        format: "kototama.resident-capabilities/v1".to_owned(),
        http: None,
        storage: Some(StorageCapability {
            log: HostPath::new("/log".to_owned()),
            max_write_bytes: 9,
            deadline_ms: 8,
            audit_id: "storage".to_owned(),
        }),
        llm: None,
    };
    ResidentConfig {
        bind: BindAddress::V4 { octets: [127, 0, 0, 1], port: 18901 },
        component: HostPath::new("/component.wasm".to_owned()),
        component_cid: "cid".to_owned(),
        component_sha256: "sha".to_owned(),
        expected_result: 5,
        fuel: 1000,
        memory_pages: 16,
        node: "node".to_owned(),
        receipt_log: HostPath::new("/receipts".to_owned()),
        signing_key: SigningKey::from_bytes([7u8; 32]),
        capabilities: if granted { Some(Arc::new(capabilities)) } else { None },
        capability_config_sha256: if granted { Some("config-sha".to_owned()) } else { None },
        startup_mode: StartupMode::ExecuteMain,
    }
}

fn body_of(receipt: &Json) -> String {
    let payload = receipt.get_text("payload").unwrap();
    assert_eq!(receipt.get("body").unwrap().encode(), payload.as_bytes().to_vec());
    assert_eq!(
        receipt.get_text("signature").unwrap(),
        &SigningKey::from_bytes([7u8; 32]).sign(payload.as_bytes())
    );
    payload.clone()
}

#[test]
fn health_tells_what_is_granted() {
    let key = SigningKey::from_bytes([7u8; 32]).public_key();
    assert_eq!(
        health(&config(true)).encode(),
        format!(
            "{{\"ambient-wasi\":false,\"capabilities\":[\"aiueos-storage-transact\"],\"capability-config-sha256\":\"config-sha\",\"component-cid\":\"cid\",\"component-sha256\":\"sha\",\"node\":\"node\",\"ready\":true,\"receipt-public-key\":\"{key}\",\"runtime\":\"tender-component/0.1.0+wasmtime-42.0.1\",\"startup-mode\":\"execute-main\"}}"
        )
        .into_bytes()
    );
    let bare = health(&config(false));
    assert_eq!(bare.get("capabilities"), Some(&Json::Array(vec![])));
    assert_eq!(bare.get("capability-config-sha256"), Some(&Json::Null));
}

#[test]
fn a_host_tells_where_it_listens() {
    assert_eq!(
        ready_notice(&config(false), "127.0.0.1:18901").encode(),
        b"{\"bind\":\"127.0.0.1:18901\",\"component-cid\":\"cid\",\"node\":\"node\",\"ready\":true}"
            .to_vec()
    );
}

#[test]
fn a_resident_run_has_what_is_granted() {
    let run = resident_run(&config(true), None, vec![]);
    assert_eq!(run.kind, "run");
    assert_eq!(run.component, "/component.wasm");
    assert_eq!(run.capability_mode, "function");
    assert_eq!((run.fuel, run.memory_pages), (1000, 16));
    assert_eq!(run.export, None);
    assert_eq!(run.imports.len(), 1);
    assert_eq!(admit_imports(&run.imports).unwrap(), run.imports);
    let bare = resident_run(&config(false), Some("go".to_owned()), vec![Json::Null]);
    assert!(bare.imports.is_empty());
    assert_eq!(bare.export, Some("go".to_owned()));
    assert_eq!(bare.params, vec![Json::Null]);
}

#[test]
fn an_execution_is_told_in_full() {
    let key = SigningKey::from_bytes([7u8; 32]).public_key();
    let effects = vec![
        Json::parse(b"{\"capability\":\"a\",\"x\":1}").unwrap(),
        Json::parse(b"{\"x\":2}").unwrap(),
        Json::parse(b"{\"capability\":\"b\"}").unwrap(),
    ];
    let receipt =
        execute_resident(&config(true), &vec![Val::S64(5), Val::Other], effects, 10, 20).unwrap();
    assert_eq!(
        body_of(&receipt),
        format!(
            "{{\"ambient-wasi\":false,\"capabilities\":[\"a\",\"b\"],\"capability-config-sha256\":\"config-sha\",\"component-cid\":\"cid\",\"component-sha256\":\"sha\",\"effects\":[{{\"capability\":\"a\",\"x\":1}},{{\"x\":2}},{{\"capability\":\"b\"}}],\"expected-result\":5,\"finished-at-ms\":20,\"format\":\"kototama.component-execution-receipt/v1\",\"fuel\":1000,\"memory-pages\":16,\"node\":\"node\",\"receipt-public-key\":\"{key}\",\"result\":5,\"runtime\":\"tender-component/0.1.0+wasmtime-42.0.1\",\"started-at-ms\":10,\"status\":\"ok\"}}"
        )
    );
}

#[test]
fn a_receipt_records_every_answered_call() {
    let mut session = EffectSession::new(config(true).capabilities.unwrap());
    let ability = Ability {
        target: "/log".to_owned(),
        operation: "storage/transact".to_owned(),
        max_bytes: 9,
        max_items: 1,
        deadline_ms: 8,
        audit_id: "storage".to_owned(),
    };
    let record = Val::Record(vec![
        ("key".to_owned(), Val::Text("k".to_owned())),
        ("value".to_owned(), Val::Text("v".to_owned())),
    ]);
    let params = vec![Val::Variant("put-new".to_owned(), Some(Box::new(record)))];
    let request = read_request(&params, 1, 9).unwrap();
    session.event("aiueos-clock-now", &ability, 1, 2, 3, Ok(4)).unwrap();
    session.transaction_done(&ability, &request, 1, 9, Ok(5)).unwrap();
    let answer = match decide(&request, Some(1)) {
        Ok(Decision::Refused(answer)) => answer,
        _ => panic!("the key is there"),
    };
    session.transaction_refused(&ability, &request, answer, Ok(6)).unwrap();
    let receipt =
        execute_resident(&config(true), &vec![Val::S64(5)], copies(&session.events), 1, 9)
            .unwrap();
    let body = receipt.get("body").unwrap();
    assert_eq!(
        body.get("capabilities").unwrap().encode_text(),
        "[\"aiueos-clock-now\",\"aiueos-storage-transact\",\"aiueos-storage-transact\"]"
    );
    assert_eq!(body.get("effects"), Some(&Json::Array(copies(&session.events))));
    assert_eq!(Json::parse(body_of(&receipt).as_bytes()).unwrap().encode(), body.encode());
}

#[test]
fn an_execution_must_have_the_expected_result() {
    let kind =
        |results: Vec<Val>| execute_resident(&config(false), &results, vec![], 1, 2).unwrap_err();
    assert_eq!(kind(vec![Val::S64(6)]).kind, ErrorKind::ResultMismatch);
    assert_eq!(kind(vec![]).kind, ErrorKind::MainNotScalar);
    assert_eq!(kind(vec![Val::Bool(true)]).message(), "Component main must return s64");
}

#[test]
fn an_export_name_has_a_closed_syntax() {
    assert_eq!(check_export("get-order-1"), Ok(()));
    assert_eq!(check_export(&"a".repeat(128)), Ok(()));
    let long = "a".repeat(129);
    for name in ["", "Main", "a b", "a_b", "é", long.as_str()] {
        assert_eq!(check_export(name).unwrap_err().kind, ErrorKind::ExportNameSyntax);
    }
}

#[test]
fn an_invocation_is_admitted_with_its_digest() {
    let request = InvocationRequest {
        export: "go".to_owned(),
        params: vec![Json::Unsigned(1), Json::Text("x".to_owned())],
    };
    let expected = sha256_hex(b"{\"export\":\"go\",\"params\":[1,\"x\"]}");
    assert_eq!(request_digest(&request), expected);
    let (digest, run) = admit_invocation(&config(true), Ok(request)).unwrap();
    assert_eq!(digest, expected);
    assert_eq!(run.export, Some("go".to_owned()));
    assert_eq!(run.params.len(), 2);
    assert_eq!(run.imports.len(), 1);
    assert_eq!(
        admit_invocation(&config(true), Err("missing field `export`".to_owned()))
            .unwrap_err()
            .chain(),
        "Component invocation body is invalid: missing field `export`"
    );
    let wrong = InvocationRequest { export: "GO".to_owned(), params: vec![] };
    assert_eq!(
        admit_invocation(&config(true), Ok(wrong)).unwrap_err().message(),
        "Component invocation export name is outside the admitted syntax"
    );
}

#[test]
fn an_invocation_is_told_in_full() {
    let key = SigningKey::from_bytes([7u8; 32]).public_key();
    let results = vec![Val::Text("out".to_owned()), Val::S64(-1)];
    let receipt =
        execute_invocation(&config(false), "go", "digest", &results, vec![], 1, 2).unwrap();
    assert_eq!(
        body_of(&receipt),
        format!(
            "{{\"ambient-wasi\":false,\"capability-config-sha256\":null,\"component-cid\":\"cid\",\"component-sha256\":\"sha\",\"effects\":[],\"export\":\"go\",\"finished-at-ms\":2,\"format\":\"kototama.component-invocation-receipt/v1\",\"fuel\":1000,\"memory-pages\":16,\"node\":\"node\",\"output\":[\"out\",-1],\"receipt-public-key\":\"{key}\",\"request-sha256\":\"digest\",\"runtime\":\"tender-component/0.1.0+wasmtime-42.0.1\",\"started-at-ms\":1,\"status\":\"ok\"}}"
        )
    );
    assert_eq!(
        execute_invocation(&config(false), "go", "digest", &vec![Val::Other], vec![], 1, 2)
            .unwrap_err()
            .kind,
        ErrorKind::ResultTypeNotAdmitted
    );
}
