//! Admission of a run, and the calls that it makes.

use tender_component::ability::{
    admit_imports, allowed_binding, default_capability_mode, validate_ability, Ability, Import,
};
use tender_component::error::{ErrorKind, HostError};
use tender_component::json::Json;
use tender_component::run::{
    admit_run, export_name, memory_limit, prepare_call, report_results, scalar_result,
    storage_answer, storage_call, Linkage, Run, Signature, StorageCall,
};
use tender_component::value::{ComponentType, Val};

fn import(name: &str, operation: &str) -> Import {
    Import {
        name: name.to_owned(),
        ability: Ability {
            target: "target".to_owned(),
            operation: operation.to_owned(),
            max_bytes: 1,
            max_items: 1,
            deadline_ms: 1,
            audit_id: "audit".to_owned(),
        },
    }
}

fn all_imports() -> Vec<Import> {
    vec![
        import("aiueos-storage-transact", "storage/transact"),
        import("aiueos-log-append", "log/append"),
        import("aiueos-llm-generate", "llm/generate"),
        import("aiueos-http-post", "http/post"),
        import("aiueos-clock-now", "clock/now"),
    ]
}

fn run(mode: &str, imports: Vec<Import>) -> Run {
    Run {
        kind: "run".to_owned(),
        component: "/component.wasm".to_owned(),
        capability_mode: mode.to_owned(),
        imports,
        fuel: 1,
        memory_pages: 1,
        export: None,
        params: vec![],
    }
}

#[test]
fn a_binding_is_one_of_a_closed_set() {
    assert_eq!(default_capability_mode(), "function");
    assert_eq!(
        allowed_binding("aiueos-http-post"),
        Some(("kotoba:application/http-post@1.0.0", "post", "http/post"))
    );
    assert_eq!(
        allowed_binding("aiueos-clock-now"),
        Some(("kotoba:application/clock@1.0.0", "now", "clock/now"))
    );
    assert_eq!(
        allowed_binding("aiueos-log-append"),
        Some(("kotoba:application/log@1.0.0", "append", "log/append"))
    );
    assert_eq!(
        allowed_binding("aiueos-llm-generate"),
        Some(("kotoba:application/llm@1.0.0", "generate", "llm/generate"))
    );
    assert_eq!(
        allowed_binding("aiueos-storage-transact"),
        Some(("kotoba:application/storage@1.0.0", "transact", "storage/transact"))
    );
    assert_eq!(allowed_binding("wasi:cli/environment"), None);
}

#[test]
fn an_ability_is_bounded_in_every_part() {
    let good = import("aiueos-clock-now", "clock/now").ability;
    assert_eq!(validate_ability("aiueos-clock-now", &good), Ok(()));
    assert_eq!(
        validate_ability("aiueos-clock", &good).unwrap_err().message(),
        "unrecognized aiueos Component import: aiueos-clock"
    );
    assert_eq!(
        validate_ability("aiueos-http-post", &good).unwrap_err().message(),
        "import aiueos-http-post is bound to an invalid operation"
    );
    let parts = [
        Ability { target: String::new(), ..good.clone() },
        Ability { audit_id: String::new(), ..good.clone() },
        Ability { max_bytes: 0, ..good.clone() },
        Ability { max_items: 0, ..good.clone() },
        Ability { deadline_ms: 0, ..good.clone() },
    ];
    for part in parts {
        assert_eq!(
            validate_ability("aiueos-clock-now", &part).unwrap_err().message(),
            "import aiueos-clock-now has an unbounded or incomplete ability"
        );
    }
}

#[test]
fn imports_are_admitted_in_the_order_of_their_names() {
    let admitted = admit_imports(&all_imports()).unwrap();
    let names: Vec<&str> = admitted.iter().map(|import| import.name.as_str()).collect();
    assert_eq!(
        names,
        vec![
            "aiueos-clock-now",
            "aiueos-http-post",
            "aiueos-llm-generate",
            "aiueos-log-append",
            "aiueos-storage-transact"
        ]
    );
    let mut twice = all_imports();
    twice.push(import("aiueos-clock-now", "clock/now"));
    assert_eq!(admit_imports(&twice).unwrap_err().kind, ErrorKind::DuplicateImport);
    twice.push(import("other", "other"));
    assert_eq!(admit_imports(&twice).unwrap_err().kind, ErrorKind::DuplicateImport);
    assert_eq!(admit_imports(&vec![]), Ok(vec![]));
}

#[test]
fn a_run_links_its_imports() {
    let links = admit_run(&run("function", all_imports())).unwrap();
    assert_eq!(links.len(), 5);
    assert_eq!(links[0].interface, "kotoba:application/clock@1.0.0");
    assert_eq!(links[0].linkage, Linkage::Scalar { function: "now".to_owned() });
    assert_eq!(links[4].name, "aiueos-storage-transact");
    assert_eq!(links[4].linkage, Linkage::Storage { function: "transact".to_owned() });
    let linear = admit_run(&run("linear-resource", all_imports())).unwrap();
    assert_eq!(
        linear[4].linkage,
        Linkage::Linear {
            resource: "transact-capability".to_owned(),
            issue: "issue-transact".to_owned(),
            execute: "execute-transact".to_owned(),
        }
    );
}

#[test]
fn a_run_is_refused_before_its_imports() {
    let mut request = run("function", vec![import("other", "other")]);
    assert_eq!(admit_run(&request).unwrap_err().kind, ErrorKind::UnrecognizedImport);
    request.kind = "stop".to_owned();
    assert_eq!(
        admit_run(&request).unwrap_err().message(),
        "first protocol envelope must be a run request"
    );
}

#[test]
fn memory_is_counted_in_pages() {
    assert_eq!(memory_limit(0), 0);
    assert_eq!(memory_limit(16), 1048576);
    assert_eq!(memory_limit(u64::MAX), u64::MAX as usize);
    assert_eq!(memory_limit(1 << 48), u64::MAX as usize);
    assert_eq!(memory_limit((1 << 48) - 1), (u64::MAX - 65535) as usize);
}

#[test]
fn a_call_is_prepared_by_its_signature() {
    let mut request = run("function", vec![]);
    assert_eq!(export_name(&request), "main");
    assert_eq!(
        prepare_call(&request, &None).unwrap_err().message(),
        "Component does not export main"
    );
    request.export = Some("go".to_owned());
    assert_eq!(
        prepare_call(&request, &None).unwrap_err().message(),
        "Component does not export go"
    );
    let signature = Some(Signature {
        params: vec![ComponentType::S64, ComponentType::Bool],
        results: vec![ComponentType::Text],
    });
    assert_eq!(
        prepare_call(&request, &signature).unwrap_err().kind,
        ErrorKind::ParameterCount
    );
    request.params = vec![Json::Unsigned(1), Json::Unsigned(1)];
    assert_eq!(prepare_call(&request, &signature).unwrap_err().kind, ErrorKind::BoolParameter);
    request.params = vec![Json::Unsigned(1), Json::Bool(true)];
    assert_eq!(
        prepare_call(&request, &signature),
        Ok((vec![Val::S64(1), Val::Bool(true)], vec![Val::Text(String::new())]))
    );
    let closed = Some(Signature {
        params: vec![ComponentType::S64, ComponentType::Bool],
        results: vec![ComponentType::Other],
    });
    assert_eq!(
        prepare_call(&request, &closed).unwrap_err().kind,
        ErrorKind::ResultTypeNotAdmitted
    );
}

#[test]
fn the_first_result_is_the_scalar_one() {
    assert_eq!(scalar_result(&vec![Val::S64(3), Val::Bool(true)]), Ok(3));
    assert_eq!(scalar_result(&vec![]).unwrap_err().kind, ErrorKind::MainNotScalar);
    assert_eq!(
        scalar_result(&vec![Val::Bool(true), Val::S64(3)]).unwrap_err().kind,
        ErrorKind::MainNotScalar
    );
    assert_eq!(
        report_results(&vec![Val::S64(3), Val::Bool(true)]),
        Ok(vec![Json::Signed(3), Json::Bool(true)])
    );
    assert_eq!(
        report_results(&vec![Val::S64(3), Val::Other]).unwrap_err().kind,
        ErrorKind::ResultTypeNotAdmitted
    );
}

#[test]
fn a_storage_call_is_scalar_or_structured() {
    assert_eq!(storage_call(&vec![Val::S64(4)], false), Ok(StorageCall::Scalar(4)));
    assert_eq!(storage_call(&vec![Val::S64(4)], true), Ok(StorageCall::Scalar(4)));
    assert_eq!(storage_call(&vec![Val::Other], true), Ok(StorageCall::Structured));
    assert_eq!(
        storage_call(&vec![Val::S64(4), Val::S64(4)], true),
        Ok(StorageCall::Structured)
    );
    assert_eq!(
        storage_call(&vec![Val::Other], false),
        Err(HostError::plain(ErrorKind::StructuredStorageUnprovided))
    );
    assert_eq!(storage_answer(9, 1), Ok(Val::S64(9)));
    assert_eq!(storage_answer(9, 2).unwrap_err().kind, ErrorKind::StorageResultCount);
}
