//! The resident host: the runs that it makes of its component, and what it tells
//! of them. Every run that ends well is told in a signed receipt.

use vstd::prelude::*;

use crate::ability::{
    ability_checked, default_capability_mode, imports_checked, lemma_admitted_exactly, Import,
};
use crate::config::{
    capabilities_checked, http_checked, llm_checked, storage_checked, ResidentConfig,
};
use crate::effects::{
    action, events_of, grants, lemma_call_tells, resident_imports, Action, AnsweredCall, Grant,
    ResidentCapabilityConfig, Session,
};
use crate::endpoint::{endpoint_of, loopback_prefix};
use crate::error::{because, plain, told, ErrorKind, Failure, HostError};
use crate::json::{
    copies, json_text, lemma_trees, lemma_trees_push, put, read_depth, trees, Json, JsonTree,
};
use crate::run::{report_results, reported_results, scalar_of, scalar_result, Run};
use crate::seal::{
    ed25519_public_key, hex_text, receipt_envelope, receipt_tree, sha256_hex, sha256_of,
};
use crate::text::chars_of;
use crate::value::{lemma_reported_is_exact, nests, val_trees, Val, ValTree};

verus! {

/// What the host and its engine are called.
pub open spec fn runtime() -> Seq<char> {
    "tender-component/0.1.0+wasmtime-42.0.1"@
}

/// A request to call one export with parameters.
#[derive(Debug, PartialEq, Eq)]
pub struct InvocationRequest {
    pub export: String,
    pub params: Vec<Json>,
}

/// Whether an export may be called by this name: 1 to 128 small letters, digits
/// and hyphens.
pub open spec fn export_syntax(name: Seq<char>) -> bool {
    &&& 0 < name.len() <= 128
    &&& forall|i: int|
        0 <= i < name.len() ==> ('a' <= #[trigger] name[i] <= 'z' || '0' <= name[i] <= '9'
            || name[i] == '-')
}

/// Checks the name of the export that is to be called.
pub fn check_export(name: &str) -> (checked: Result<(), HostError>)
    ensures
        told(checked) == if export_syntax(name@) {
            Ok::<(), Failure>(())
        } else {
            Err(plain(ErrorKind::ExportNameSyntax))
        },
{
    let chars: Vec<char> = chars_of(name);
    if chars.len() == 0 || chars.len() > 128 {
        return Err(HostError::plain(ErrorKind::ExportNameSyntax));
    }
    let mut i: usize = 0;
    while i < chars.len()
        invariant
            i <= chars@.len(),
            chars@ == name@,
            forall|j: int|
                0 <= j < i ==> ('a' <= #[trigger] chars@[j] <= 'z' || '0' <= chars@[j] <= '9'
                    || chars@[j] == '-'),
        decreases chars.len() - i,
    {
        let c: char = chars[i];
        if !(('a' <= c && c <= 'z') || ('0' <= c && c <= '9') || c == '-') {
            assert(!('a' <= name@[i as int] <= 'z'));
            return Err(HostError::plain(ErrorKind::ExportNameSyntax));
        }
        i += 1;
    }
    Ok(())
}

/// The request as it is told.
pub open spec fn invocation_tree(export: Seq<char>, params: Seq<JsonTree>) -> JsonTree {
    JsonTree::Object(
        map!["export"@ => JsonTree::Text(export), "params"@ => JsonTree::Array(params)],
    )
}

/// The hexadecimal text of the digest of a request.
pub fn request_digest(invocation: &InvocationRequest) -> (digest: String)
    ensures
        digest@ == hex_text(
            sha256_of(json_text(invocation_tree(invocation.export@, trees(invocation.params@)))),
        ),
{
    let mut entries: Vec<(String, Json)> = Vec::new();
    put(&mut entries, "export", Json::from_text(invocation.export.as_str()));
    put(&mut entries, "params", Json::Array(copies(&invocation.params)));
    sha256_hex(Json::Object(entries).encode().as_slice())
}

/// The imports that a host grants its component.
pub open spec fn granted_imports(config: ResidentConfig) -> Seq<Grant> {
    match config.capabilities {
        Some(capabilities) => capabilities.grants(),
        None => seq![],
    }
}

fn imports_of(config: &ResidentConfig) -> (imports: Vec<Import>)
    ensures
        grants(imports@) == granted_imports(*config),
{
    match &config.capabilities {
        Some(capabilities) => resident_imports(capabilities),
        None => {
            let imports: Vec<Import> = Vec::new();
            assert(grants(imports@) =~= seq![]);
            imports
        },
    }
}

/// The run that a host makes of its component: with the imports that it grants,
/// within its bounds, of the export and with the parameters that are given.
pub fn resident_run(config: &ResidentConfig, export: Option<String>, params: Vec<Json>) -> (run:
    Run)
    ensures
        run.kind@ == "run"@,
        run.component@ == config.component.text@,
        run.capability_mode@ == "function"@,
        grants(run.imports@) == granted_imports(*config),
        run.fuel == config.fuel,
        run.memory_pages == config.memory_pages,
        run.export == export,
        run.params == params,
{
    Run {
        kind: "run".to_owned(),
        component: config.component.text.clone(),
        capability_mode: default_capability_mode(),
        imports: imports_of(config),
        fuel: config.fuel,
        memory_pages: config.memory_pages,
        export,
        params,
    }
}

/// A text that may be missing.
pub open spec fn text_or_null(text: Option<String>) -> JsonTree {
    match text {
        Some(text) => JsonTree::Text(text@),
        None => JsonTree::Null,
    }
}

fn json_or_null(text: &Option<String>) -> (json: Json)
    ensures
        json@ == text_or_null(*text),
{
    match text {
        Some(text) => Json::from_text(text.as_str()),
        None => Json::Null,
    }
}

/// The names of imports.
pub open spec fn grant_names(granted: Seq<Grant>) -> Seq<JsonTree> {
    Seq::new(granted.len(), |i: int| JsonTree::Text(granted[i].name))
}

fn names_of(imports: &Vec<Import>) -> (names: Vec<Json>)
    ensures
        trees(names@) == grant_names(grants(imports@)),
{
    let mut names: Vec<Json> = Vec::new();
    let mut i: usize = 0;
    while i < imports.len()
        invariant
            i <= imports@.len(),
            names@.len() == i,
            forall|j: int|
                0 <= j < i ==> (#[trigger] names@[j])@ == JsonTree::Text(imports@[j].name@),
        decreases imports.len() - i,
    {
        names.push(Json::from_text(imports[i].name.as_str()));
        i += 1;
    }
    proof {
        lemma_trees(names@);
        assert forall|j: int| 0 <= j < names@.len() implies #[trigger] trees(names@)[j]
            == grant_names(grants(imports@))[j] by {
            assert(names@[j]@ == JsonTree::Text(imports@[j].name@));
        }
        assert(trees(names@) =~= grant_names(grants(imports@)));
    }
    names
}

/// What a host tells of itself where it is ready.
pub open spec fn health_tree(config: ResidentConfig) -> JsonTree {
    JsonTree::Object(
        map![
            "ambient-wasi"@ => JsonTree::Bool(false),
            "capabilities"@ => JsonTree::Array(grant_names(granted_imports(config))),
            "capability-config-sha256"@ => text_or_null(config.capability_config_sha256),
            "component-cid"@ => JsonTree::Text(config.component_cid@),
            "component-sha256"@ => JsonTree::Text(config.component_sha256@),
            "node"@ => JsonTree::Text(config.node@),
            "ready"@ => JsonTree::Bool(true),
            "receipt-public-key"@ => JsonTree::Text(
                hex_text(ed25519_public_key(config.signing_key@)),
            ),
            "runtime"@ => JsonTree::Text(runtime()),
            "startup-mode"@ => JsonTree::Text(config.startup_mode.name()),
        ],
    )
}

/// Tells that a host is ready, and what it grants.
pub fn health(config: &ResidentConfig) -> (json: Json)
    ensures
        json@ == health_tree(*config),
{
    let mut entries: Vec<(String, Json)> = Vec::new();
    put(&mut entries, "ambient-wasi", Json::Bool(false));
    put(&mut entries, "capabilities", Json::Array(names_of(&imports_of(config))));
    put(&mut entries, "capability-config-sha256", json_or_null(&config.capability_config_sha256));
    put(&mut entries, "component-cid", Json::from_text(config.component_cid.as_str()));
    put(&mut entries, "component-sha256", Json::from_text(config.component_sha256.as_str()));
    put(&mut entries, "node", Json::from_text(config.node.as_str()));
    put(&mut entries, "ready", Json::Bool(true));
    put(&mut entries, "receipt-public-key", Json::Text(config.signing_key.public_key()));
    put(&mut entries, "runtime", Json::from_text("tender-component/0.1.0+wasmtime-42.0.1"));
    put(&mut entries, "startup-mode", Json::from_text(config.startup_mode.as_text()));
    Json::Object(entries)
}

/// The notice that a host listens at `bind`.
pub open spec fn ready_tree(config: ResidentConfig, bind: Seq<char>) -> JsonTree {
    JsonTree::Object(
        map![
            "bind"@ => JsonTree::Text(bind),
            "component-cid"@ => JsonTree::Text(config.component_cid@),
            "node"@ => JsonTree::Text(config.node@),
            "ready"@ => JsonTree::Bool(true),
        ],
    )
}

/// Tells that a host listens at `bind`.
pub fn ready_notice(config: &ResidentConfig, bind: &str) -> (json: Json)
    ensures
        json@ == ready_tree(*config, bind@),
{
    let mut entries: Vec<(String, Json)> = Vec::new();
    put(&mut entries, "bind", Json::from_text(bind));
    put(&mut entries, "component-cid", Json::from_text(config.component_cid.as_str()));
    put(&mut entries, "node", Json::from_text(config.node.as_str()));
    put(&mut entries, "ready", Json::Bool(true));
    Json::Object(entries)
}

/// The capabilities that the effects of a run used, in turn.
pub open spec fn used_capabilities(effects: Seq<JsonTree>) -> Seq<JsonTree>
    decreases effects.len(),
{
    if effects.len() == 0 {
        seq![]
    } else {
        let earlier = used_capabilities(effects.drop_last());
        match effects.last().member("capability"@) {
            Some(capability) => earlier.push(capability),
            None => earlier,
        }
    }
}

fn capabilities_of(effects: &Vec<Json>) -> (used: Vec<Json>)
    ensures
        trees(used@) == used_capabilities(trees(effects@)),
{
    let ghost all = trees(effects@);
    let mut used: Vec<Json> = Vec::new();
    let mut i: usize = 0;
    assert(all.take(0) =~= seq![]);
    proof {
        lemma_trees(effects@);
    }
    while i < effects.len()
        invariant
            i <= effects@.len(),
            all == trees(effects@),
            all.len() == effects@.len(),
            trees(used@) == used_capabilities(all.take(i as int)),
        decreases effects.len() - i,
    {
        proof {
            lemma_trees(effects@);
            assert(all.take(i + 1).drop_last() =~= all.take(i as int));
            assert(all.take(i + 1).last() == effects@[i as int]@);
        }
        match effects[i].get("capability") {
            Some(capability) => {
                let copy: Json = capability.clone();
                proof {
                    lemma_trees_push(used@, copy);
                }
                used.push(copy);
            },
            None => {},
        }
        i += 1;
    }
    assert(all.take(i as int) =~= all);
    used
}

/// What a receipt tells of a run of the main export.
pub open spec fn execution_tree(
    config: ResidentConfig,
    result: i64,
    effects: Seq<JsonTree>,
    started_at_ms: int,
    finished_at_ms: int,
) -> JsonTree {
    JsonTree::Object(
        map![
            "ambient-wasi"@ => JsonTree::Bool(false),
            "capabilities"@ => JsonTree::Array(used_capabilities(effects)),
            "capability-config-sha256"@ => text_or_null(config.capability_config_sha256),
            "component-cid"@ => JsonTree::Text(config.component_cid@),
            "component-sha256"@ => JsonTree::Text(config.component_sha256@),
            "effects"@ => JsonTree::Array(effects),
            "expected-result"@ => JsonTree::Whole(config.expected_result as int),
            "finished-at-ms"@ => JsonTree::Whole(finished_at_ms),
            "format"@ => JsonTree::Text("kototama.component-execution-receipt/v1"@),
            "fuel"@ => JsonTree::Whole(config.fuel as int),
            "memory-pages"@ => JsonTree::Whole(config.memory_pages as int),
            "node"@ => JsonTree::Text(config.node@),
            "receipt-public-key"@ => JsonTree::Text(
                hex_text(ed25519_public_key(config.signing_key@)),
            ),
            "result"@ => JsonTree::Whole(result as int),
            "runtime"@ => JsonTree::Text(runtime()),
            "started-at-ms"@ => JsonTree::Whole(started_at_ms),
            "status"@ => JsonTree::Text("ok"@),
        ],
    )
}

/// Tells a run of the main export in a signed receipt, where it has the result
/// that the host expects.
fn execution_receipt(
    config: &ResidentConfig,
    result: i64,
    effects: Vec<Json>,
    started_at_ms: u128,
    finished_at_ms: u128,
) -> (receipt: Result<Json, HostError>)
    requires
        started_at_ms <= u64::MAX,
        finished_at_ms <= u64::MAX,
    ensures
        told(receipt) == if result != config.expected_result {
            Err::<JsonTree, Failure>(plain(ErrorKind::ResultMismatch))
        } else {
            Ok(
                receipt_tree(
                    execution_tree(
                        *config,
                        result,
                        trees(effects@),
                        started_at_ms as int,
                        finished_at_ms as int,
                    ),
                    config.signing_key@,
                ),
            )
        },
{
    if result != config.expected_result {
        return Err(HostError::plain(ErrorKind::ResultMismatch));
    }
    let used: Vec<Json> = capabilities_of(&effects);
    let mut entries: Vec<(String, Json)> = Vec::new();
    put(&mut entries, "ambient-wasi", Json::Bool(false));
    put(&mut entries, "capabilities", Json::Array(used));
    put(&mut entries, "capability-config-sha256", json_or_null(&config.capability_config_sha256));
    put(&mut entries, "component-cid", Json::from_text(config.component_cid.as_str()));
    put(&mut entries, "component-sha256", Json::from_text(config.component_sha256.as_str()));
    put(&mut entries, "effects", Json::Array(effects));
    put(&mut entries, "expected-result", Json::Signed(config.expected_result));
    put(&mut entries, "finished-at-ms", Json::Unsigned(finished_at_ms as u64));
    put(&mut entries, "format", Json::from_text("kototama.component-execution-receipt/v1"));
    put(&mut entries, "fuel", Json::Unsigned(config.fuel));
    put(&mut entries, "memory-pages", Json::Unsigned(config.memory_pages));
    put(&mut entries, "node", Json::from_text(config.node.as_str()));
    put(&mut entries, "receipt-public-key", Json::Text(config.signing_key.public_key()));
    put(&mut entries, "result", Json::Signed(result));
    put(&mut entries, "runtime", Json::from_text("tender-component/0.1.0+wasmtime-42.0.1"));
    put(&mut entries, "started-at-ms", Json::Unsigned(started_at_ms as u64));
    put(&mut entries, "status", Json::from_text("ok"));
    Ok(receipt_envelope(&Json::Object(entries), &config.signing_key))
}

/// What a receipt tells of a call of one export.
pub open spec fn invocation_body_tree(
    config: ResidentConfig,
    export: Seq<char>,
    request_sha256: Seq<char>,
    output: Seq<JsonTree>,
    effects: Seq<JsonTree>,
    started_at_ms: int,
    finished_at_ms: int,
) -> JsonTree {
    JsonTree::Object(
        map![
            "ambient-wasi"@ => JsonTree::Bool(false),
            "capability-config-sha256"@ => text_or_null(config.capability_config_sha256),
            "component-cid"@ => JsonTree::Text(config.component_cid@),
            "component-sha256"@ => JsonTree::Text(config.component_sha256@),
            "effects"@ => JsonTree::Array(effects),
            "export"@ => JsonTree::Text(export),
            "finished-at-ms"@ => JsonTree::Whole(finished_at_ms),
            "format"@ => JsonTree::Text("kototama.component-invocation-receipt/v1"@),
            "fuel"@ => JsonTree::Whole(config.fuel as int),
            "memory-pages"@ => JsonTree::Whole(config.memory_pages as int),
            "node"@ => JsonTree::Text(config.node@),
            "output"@ => JsonTree::Array(output),
            "receipt-public-key"@ => JsonTree::Text(
                hex_text(ed25519_public_key(config.signing_key@)),
            ),
            "request-sha256"@ => JsonTree::Text(request_sha256),
            "runtime"@ => JsonTree::Text(runtime()),
            "started-at-ms"@ => JsonTree::Whole(started_at_ms),
            "status"@ => JsonTree::Text("ok"@),
        ],
    )
}

/// Tells a call of one export in a signed receipt.
fn invocation_receipt(
    config: &ResidentConfig,
    export: &str,
    request_sha256: &str,
    output: Vec<Json>,
    effects: Vec<Json>,
    started_at_ms: u128,
    finished_at_ms: u128,
) -> (receipt: Json)
    requires
        started_at_ms <= u64::MAX,
        finished_at_ms <= u64::MAX,
    ensures
        receipt@ == receipt_tree(
            invocation_body_tree(
                *config,
                export@,
                request_sha256@,
                trees(output@),
                trees(effects@),
                started_at_ms as int,
                finished_at_ms as int,
            ),
            config.signing_key@,
        ),
{
    let mut entries: Vec<(String, Json)> = Vec::new();
    put(&mut entries, "ambient-wasi", Json::Bool(false));
    put(&mut entries, "capability-config-sha256", json_or_null(&config.capability_config_sha256));
    put(&mut entries, "component-cid", Json::from_text(config.component_cid.as_str()));
    put(&mut entries, "component-sha256", Json::from_text(config.component_sha256.as_str()));
    put(&mut entries, "effects", Json::Array(effects));
    put(&mut entries, "export", Json::from_text(export));
    put(&mut entries, "finished-at-ms", Json::Unsigned(finished_at_ms as u64));
    put(&mut entries, "format", Json::from_text("kototama.component-invocation-receipt/v1"));
    put(&mut entries, "fuel", Json::Unsigned(config.fuel));
    put(&mut entries, "memory-pages", Json::Unsigned(config.memory_pages));
    put(&mut entries, "node", Json::from_text(config.node.as_str()));
    put(&mut entries, "output", Json::Array(output));
    put(&mut entries, "receipt-public-key", Json::Text(config.signing_key.public_key()));
    put(&mut entries, "request-sha256", Json::from_text(request_sha256));
    put(&mut entries, "runtime", Json::from_text("tender-component/0.1.0+wasmtime-42.0.1"));
    put(&mut entries, "started-at-ms", Json::Unsigned(started_at_ms as u64));
    put(&mut entries, "status", Json::from_text("ok"));
    receipt_envelope(&Json::Object(entries), &config.signing_key)
}

/// The receipt of a run of the main export that had these results.
pub open spec fn executed(
    config: ResidentConfig,
    results: Seq<ValTree>,
    effects: Seq<JsonTree>,
    started_at_ms: int,
    finished_at_ms: int,
) -> Result<JsonTree, Failure> {
    match scalar_of(results) {
        Err(failure) => Err(failure),
        Ok(result) => if result != config.expected_result {
            Err(plain(ErrorKind::ResultMismatch))
        } else {
            Ok(
                receipt_tree(
                    execution_tree(config, result, effects, started_at_ms, finished_at_ms),
                    config.signing_key@,
                ),
            )
        },
    }
}

/// Tells a run of the main export in a signed receipt, where its result is the
/// one that the host expects.
pub fn execute_resident(
    config: &ResidentConfig,
    results: &Vec<Val>,
    effects: Vec<Json>,
    started_at_ms: u128,
    finished_at_ms: u128,
) -> (receipt: Result<Json, HostError>)
    requires
        started_at_ms <= u64::MAX,
        finished_at_ms <= u64::MAX,
    ensures
        told(receipt) == executed(
            *config,
            val_trees(results@),
            trees(effects@),
            started_at_ms as int,
            finished_at_ms as int,
        ),
{
    match scalar_result(results) {
        Err(error) => Err(error),
        Ok(result) => execution_receipt(config, result, effects, started_at_ms, finished_at_ms),
    }
}

/// Admits a request to call one export, where one was read: gives the digest of
/// the request and the run that it makes.
pub fn admit_invocation(
    config: &ResidentConfig,
    read: Result<InvocationRequest, String>,
) -> (admitted: Result<(String, Run), HostError>)
    ensures
        match (admitted, read) {
            (Ok((digest, run)), Ok(invocation)) => {
                &&& export_syntax(invocation.export@)
                &&& digest@ == hex_text(
                    sha256_of(
                        json_text(
                            invocation_tree(invocation.export@, trees(invocation.params@)),
                        ),
                    ),
                )
                &&& run.kind@ == "run"@
                &&& run.component@ == config.component.text@
                &&& run.capability_mode@ == "function"@
                &&& grants(run.imports@) == granted_imports(*config)
                &&& run.fuel == config.fuel
                &&& run.memory_pages == config.memory_pages
                &&& run.export == Some(invocation.export)
                &&& run.params == invocation.params
            },
            (Err(error), Ok(invocation)) => !export_syntax(invocation.export@) && error@ == plain(
                ErrorKind::ExportNameSyntax,
            ),
            (Err(error), Err(cause)) => error@ == because(
                plain(ErrorKind::InvocationInvalid),
                cause@,
            ),
            (Ok(_), Err(_)) => false,
        },
{
    let invocation: InvocationRequest = match read {
        Err(cause) => {
            return Err(HostError::plain(ErrorKind::InvocationInvalid).because(cause.as_str()));
        },
        Ok(invocation) => invocation,
    };
    match check_export(invocation.export.as_str()) {
        Err(error) => {
            return Err(error);
        },
        Ok(_) => {},
    }
    let digest: String = request_digest(&invocation);
    Ok((digest, resident_run(config, Some(invocation.export), invocation.params)))
}

/// The receipt of a call of one export that had these results.
pub open spec fn invoked(
    config: ResidentConfig,
    export: Seq<char>,
    request_sha256: Seq<char>,
    results: Seq<ValTree>,
    effects: Seq<JsonTree>,
    started_at_ms: int,
    finished_at_ms: int,
) -> Result<JsonTree, Failure> {
    match reported_results(results) {
        Err(failure) => Err(failure),
        Ok(output) => Ok(
            receipt_tree(
                invocation_body_tree(
                    config,
                    export,
                    request_sha256,
                    output,
                    effects,
                    started_at_ms,
                    finished_at_ms,
                ),
                config.signing_key@,
            ),
        ),
    }
}

/// Tells a call of one export in a signed receipt, where its results can be
/// reported.
pub fn execute_invocation(
    config: &ResidentConfig,
    export: &str,
    request_sha256: &str,
    results: &Vec<Val>,
    effects: Vec<Json>,
    started_at_ms: u128,
    finished_at_ms: u128,
) -> (receipt: Result<Json, HostError>)
    requires
        started_at_ms <= u64::MAX,
        finished_at_ms <= u64::MAX,
    ensures
        told(receipt) == invoked(
            *config,
            export@,
            request_sha256@,
            val_trees(results@),
            trees(effects@),
            started_at_ms as int,
            finished_at_ms as int,
        ),
{
    match report_results(results) {
        Err(error) => Err(error),
        Ok(output) => Ok(
            invocation_receipt(
                config,
                export,
                request_sha256,
                output,
                effects,
                started_at_ms,
                finished_at_ms,
            ),
        ),
    }
}

/// What a configuration grants is admitted: the host links all of it, and
/// nothing else.
pub proof fn lemma_granted_is_admitted(config: ResidentCapabilityConfig, imports: Seq<Import>)
    requires
        capabilities_checked(config) is Ok,
        grants(imports) == config.grants(),
    ensures
        imports_checked(imports) is Ok,
{
    reveal_strlit("aiueos-http-post");
    reveal_strlit("aiueos-storage-transact");
    reveal_strlit("aiueos-llm-generate");
    reveal_strlit("aiueos-clock-now");
    reveal_strlit("aiueos-log-append");
    reveal_strlit("http://127.0.0.1:");
    assert("aiueos-http-post"@.len() == 16 && "aiueos-clock-now"@.len() == 16);
    assert("aiueos-http-post"@[7] == 'h' && "aiueos-clock-now"@[7] == 'c');
    assert("aiueos-storage-transact"@.len() == 23 && "aiueos-log-append"@.len() == 17);
    assert("aiueos-llm-generate"@.len() == 19);
    assert(loopback_prefix().len() == 17);
    let all = config.grants();
    let http: nat = if config.http is Some {
        1
    } else {
        0
    };
    let storage: nat = if config.storage is Some {
        1
    } else {
        0
    };
    assert(imports.len() == grants(imports).len());
    assert forall|i: int| 0 <= i < all.len() implies #[trigger] all[i] == if i < http {
        config.http->0.grant()
    } else if i < http + storage {
        config.storage->0.grant()
    } else {
        config.llm->0.grant()
    } && (http + storage <= i ==> config.llm is Some && i == http + storage) by {}
    assert forall|i: int| 0 <= i < imports.len() implies ability_checked(
        (#[trigger] imports[i]).name@,
        imports[i].ability,
    ) is Ok by {
        assert(grants(imports)[i] == imports[i]@);
        assert(all[i] == imports[i]@);
        if i < http {
            assert(http_checked(config.http->0) is Ok);
            assert(config.http->0.endpoint@.len() >= 17);
        } else if i < http + storage {
            assert(storage_checked(config.storage->0) is Ok);
        } else {
            assert(llm_checked(config.llm->0) is Ok);
            assert(config.llm->0.endpoint@.len() >= 17);
        }
    }
    assert forall|i: int, j: int| 0 <= i < j < imports.len() implies (#[trigger] imports[i]).name@
        != (#[trigger] imports[j]).name@ by {
        assert(grants(imports)[i] == imports[i]@ && grants(imports)[j] == imports[j]@);
        assert(all[i].name != all[j].name);
    }
    lemma_admitted_exactly(imports);
}

/// The effects of a configuration stay on the machine: what is posted goes to a
/// loopback endpoint, and what is recorded goes to a path that does not depend on
/// the working directory.
pub proof fn lemma_effects_stay_on_the_machine(
    config: ResidentCapabilityConfig,
    session: Session,
    name: Seq<char>,
    value: i64,
)
    requires
        capabilities_checked(config) is Ok,
    ensures
        match action(config, session, name, value) {
            Ok(Action::Post { endpoint, deadline_ms, max_response_bytes, .. }) => endpoint_of(
                endpoint,
            ) is Ok && deadline_ms > 0 && max_response_bytes > 0,
            Ok(Action::Generate { endpoint, deadline_ms, max_response_bytes, .. }) => endpoint_of(
                endpoint,
            ) is Ok && deadline_ms > 0 && max_response_bytes > 0,
            Ok(Action::Checkpoint { log, max_write_bytes, .. }) => log.absolute && max_write_bytes
                > 0,
            Err(_) => true,
        },
{
}

/// The receipt of a run tells the capability of every effect, in turn.
pub proof fn lemma_receipt_tells_capabilities(
    effects: Seq<JsonTree>,
    event: JsonTree,
    capability: Seq<char>,
)
    requires
        event.member_text("capability"@) == Some(capability),
    ensures
        used_capabilities(effects.push(event)) == used_capabilities(effects).push(
            JsonTree::Text(capability),
        ),
{
    assert(effects.push(event).drop_last() =~= effects);
}

/// Calls that are answered after others are told after them.
proof fn lemma_used_by_calls(events: Seq<JsonTree>, calls: Seq<AnsweredCall>)
    ensures
        used_capabilities(events + events_of(calls)) == used_capabilities(events)
            + called_capabilities(calls),
    decreases calls.len(),
{
    if calls.len() == 0 {
        assert(events + events_of(calls) =~= events);
        let used = used_capabilities(events);
        assert(used + called_capabilities(calls) =~= used);
    } else {
        let front = calls.drop_last();
        let last = calls.last();
        lemma_used_by_calls(events, front);
        lemma_call_tells(last);
        assert(events + events_of(calls) =~= (events + events_of(front)).push(last.event()));
        lemma_receipt_tells_capabilities(
            events + events_of(front),
            last.event(),
            last.capability(),
        );
        assert(used_capabilities(events) + called_capabilities(calls) =~= (used_capabilities(events)
            + called_capabilities(front)).push(JsonTree::Text(last.capability())));
    }
}

/// The capabilities that calls used, in turn.
pub open spec fn called_capabilities(calls: Seq<AnsweredCall>) -> Seq<JsonTree> {
    Seq::new(calls.len(), |i: int| JsonTree::Text(calls[i].capability()))
}

/// What a receipt tells of a run holds its effects and the capabilities that they
/// used.
proof fn lemma_execution_holds(
    config: ResidentConfig,
    result: i64,
    effects: Seq<JsonTree>,
    started_at_ms: int,
    finished_at_ms: int,
)
    ensures
        ({
            let body = execution_tree(config, result, effects, started_at_ms, finished_at_ms);
            &&& body.member("effects"@) == Some(JsonTree::Array(effects))
            &&& body.member("capabilities"@) == Some(JsonTree::Array(used_capabilities(effects)))
        }),
{
    reveal_strlit("capabilities");
    reveal_strlit("capability-config-sha256");
    reveal_strlit("component-cid");
    reveal_strlit("component-sha256");
    reveal_strlit("effects");
    reveal_strlit("expected-result");
    reveal_strlit("finished-at-ms");
    reveal_strlit("format");
    reveal_strlit("fuel");
    reveal_strlit("memory-pages");
    reveal_strlit("node");
    reveal_strlit("receipt-public-key");
    reveal_strlit("result");
    reveal_strlit("runtime");
    reveal_strlit("started-at-ms");
    reveal_strlit("status");
    assert("capabilities"@.len() == 12 && "capability-config-sha256"@.len() == 24);
    assert("component-cid"@.len() == 13 && "component-sha256"@.len() == 16);
    assert("effects"@.len() == 7 && "expected-result"@.len() == 15);
    assert("finished-at-ms"@.len() == 14 && "format"@.len() == 6 && "fuel"@.len() == 4);
    assert("memory-pages"@.len() == 12 && "memory-pages"@[0] == 'm' && "capabilities"@[0] == 'c');
    assert("node"@.len() == 4 && "receipt-public-key"@.len() == 18 && "result"@.len() == 6);
    assert("runtime"@.len() == 7 && "runtime"@[0] == 'r' && "effects"@[0] == 'e');
    assert("started-at-ms"@.len() == 13 && "status"@.len() == 6);
}

/// Every answered call is recorded: each adds exactly one event that tells its
/// capability, so that the effects and the capabilities in the receipt of a run
/// tell every call that was answered, in turn, and no other.
pub proof fn lemma_every_answered_call_is_recorded(
    config: ResidentConfig,
    result: i64,
    calls: Seq<AnsweredCall>,
    started_at_ms: int,
    finished_at_ms: int,
)
    ensures
        events_of(calls).len() == calls.len(),
        forall|i: int|
            0 <= i < calls.len() ==> (#[trigger] events_of(calls)[i]).member_text("capability"@)
                == Some(calls[i].capability()),
        ({
            let body = execution_tree(
                config,
                result,
                events_of(calls),
                started_at_ms,
                finished_at_ms,
            );
            &&& body.member("effects"@) == Some(JsonTree::Array(events_of(calls)))
            &&& body.member("capabilities"@) == Some(
                JsonTree::Array(called_capabilities(calls)),
            )
            &&& body.exact(read_depth())
        }),
{
    assert forall|i: int| 0 <= i < calls.len() implies (#[trigger] events_of(
        calls,
    )[i]).member_text("capability"@) == Some(calls[i].capability()) && events_of(calls)[i].exact(
        1,
    ) by {
        lemma_call_tells(calls[i]);
    }
    let none: Seq<JsonTree> = seq![];
    lemma_used_by_calls(none, calls);
    assert(none + events_of(calls) =~= events_of(calls));
    assert(used_capabilities(none) + called_capabilities(calls) =~= called_capabilities(calls));
    lemma_execution_holds(config, result, events_of(calls), started_at_ms, finished_at_ms);
    lemma_execution_is_exact(config, result, events_of(calls), started_at_ms, finished_at_ms);
}

/// Every answered call is recorded in the receipt of a call of one export, too: its
/// effects are the events of the calls, in turn.
pub proof fn lemma_invocation_records_every_call(
    config: ResidentConfig,
    export: Seq<char>,
    request_sha256: Seq<char>,
    output: Seq<JsonTree>,
    calls: Seq<AnsweredCall>,
    started_at_ms: int,
    finished_at_ms: int,
)
    ensures
        invocation_body_tree(
            config,
            export,
            request_sha256,
            output,
            events_of(calls),
            started_at_ms,
            finished_at_ms,
        ).member("effects"@) == Some(JsonTree::Array(events_of(calls))),
        forall|i: int|
            0 <= i < calls.len() ==> (#[trigger] events_of(calls)[i]).member_text("capability"@)
                == Some(calls[i].capability()),
{
    reveal_strlit("effects");
    reveal_strlit("export");
    reveal_strlit("finished-at-ms");
    reveal_strlit("format");
    reveal_strlit("fuel");
    reveal_strlit("memory-pages");
    reveal_strlit("node");
    reveal_strlit("output");
    reveal_strlit("receipt-public-key");
    reveal_strlit("request-sha256");
    reveal_strlit("runtime");
    reveal_strlit("started-at-ms");
    reveal_strlit("status");
    assert("effects"@.len() == 7 && "export"@.len() == 6 && "finished-at-ms"@.len() == 14);
    assert("format"@.len() == 6 && "fuel"@.len() == 4 && "memory-pages"@.len() == 12);
    assert("node"@.len() == 4 && "output"@.len() == 6 && "receipt-public-key"@.len() == 18);
    assert("request-sha256"@.len() == 14 && "started-at-ms"@.len() == 13);
    assert("runtime"@.len() == 7 && "runtime"@[0] == 'r' && "effects"@[0] == 'e');
    assert("status"@.len() == 6);
    assert forall|i: int| 0 <= i < calls.len() implies (#[trigger] events_of(
        calls,
    )[i]).member_text("capability"@) == Some(calls[i].capability()) by {
        lemma_call_tells(calls[i]);
    }
}

/// A further answered call adds its event to those of a session, and nothing else.
pub proof fn lemma_answered_call_adds_one_event(
    session: Session,
    calls: Seq<AnsweredCall>,
    call: AnsweredCall,
)
    requires
        session.events == events_of(calls),
    ensures
        session.with_event(call.event()).events == events_of(calls.push(call)),
        session.with_event(call.event()).events.len() == session.events.len() + 1,
{
    assert(session.events.push(call.event()) =~= events_of(calls.push(call)));
}

/// Where its effects are exact, so is what a receipt tells of a run: the payload
/// of the receipt reads as the body.
pub proof fn lemma_execution_is_exact(
    config: ResidentConfig,
    result: i64,
    effects: Seq<JsonTree>,
    started_at_ms: int,
    finished_at_ms: int,
)
    requires
        forall|i: int| 0 <= i < effects.len() ==> (#[trigger] effects[i]).exact(1),
    ensures
        execution_tree(config, result, effects, started_at_ms, finished_at_ms).exact(read_depth()),
{
    let body = execution_tree(config, result, effects, started_at_ms, finished_at_ms);
    let all = body->Object_0;
    lemma_used_exact(effects);
    let below = (read_depth() - 1) as nat;
    let under = (below - 1) as nat;
    assert forall|i: int| 0 <= i < effects.len() implies (#[trigger] effects[i]).exact(under) by {
        lemma_exact_deeper(effects[i], 1, under);
    }
    assert forall|i: int| 0 <= i < used_capabilities(effects).len() implies (
    #[trigger] used_capabilities(effects)[i]).exact(under) by {
        lemma_exact_deeper(used_capabilities(effects)[i], 0, under);
    }
    assert(JsonTree::Array(effects).exact(below));
    assert(JsonTree::Array(used_capabilities(effects)).exact(below));
    assert(all.dom().finite());
    assert forall|k: Seq<char>| #[trigger] all.dom().contains(k) implies all[k].exact(below) by {
        assert(all[k] is Text || all[k] is Whole || all[k] is Bool || all[k] is Null || all[k]
            == JsonTree::Array(effects) || all[k] == JsonTree::Array(used_capabilities(effects)));
    }
}

/// What is exact at one depth is exact at any greater one.
proof fn lemma_exact_deeper(tree: JsonTree, depth: nat, deeper: nat)
    requires
        tree.exact(depth),
        depth <= deeper,
    ensures
        tree.exact(deeper),
    decreases tree,
{
    match tree {
        JsonTree::Array(items) => {
            assert forall|i: int| 0 <= i < items.len() implies (#[trigger] items[i]).exact(
                (deeper - 1) as nat,
            ) by {
                lemma_exact_deeper(items[i], (depth - 1) as nat, (deeper - 1) as nat);
            }
        },
        JsonTree::Object(members) => {
            assert forall|key: Seq<char>| #[trigger] members.dom().contains(
                key,
            ) implies members[key].exact((deeper - 1) as nat) by {
                assert(decreases_to!(tree => members[key]));
                lemma_exact_deeper(members[key], (depth - 1) as nat, (deeper - 1) as nat);
            }
        },
        _ => {},
    }
}

/// The capabilities that exact effects tell are exact.
proof fn lemma_used_exact(effects: Seq<JsonTree>)
    requires
        forall|i: int| 0 <= i < effects.len() ==> (#[trigger] effects[i]).exact(1),
    ensures
        forall|i: int|
            0 <= i < used_capabilities(effects).len() ==> (#[trigger] used_capabilities(
                effects,
            )[i]).exact(0),
    decreases effects.len(),
{
    if effects.len() > 0 {
        let front = effects.drop_last();
        assert forall|i: int| 0 <= i < front.len() implies (#[trigger] front[i]).exact(1) by {
            assert(effects[i].exact(1));
        }
        lemma_used_exact(front);
        assert(effects[effects.len() - 1].exact(1));
        let earlier = used_capabilities(front);
        let later = used_capabilities(effects);
        assert forall|i: int| 0 <= i < later.len() implies (#[trigger] later[i]).exact(0) by {
            if i < earlier.len() {
                assert(later[i] == earlier[i]);
            }
        }
    }
}

/// Where its effects and its output are exact, so is what a receipt tells of a
/// call of one export: the payload of the receipt reads as the body.
pub proof fn lemma_invocation_is_exact(
    config: ResidentConfig,
    export: Seq<char>,
    request_sha256: Seq<char>,
    output: Seq<JsonTree>,
    effects: Seq<JsonTree>,
    started_at_ms: int,
    finished_at_ms: int,
)
    requires
        forall|i: int| 0 <= i < effects.len() ==> (#[trigger] effects[i]).exact(1),
        forall|i: int|
            0 <= i < output.len() ==> (#[trigger] output[i]).exact((read_depth() - 2) as nat),
    ensures
        invocation_body_tree(
            config,
            export,
            request_sha256,
            output,
            effects,
            started_at_ms,
            finished_at_ms,
        ).exact(read_depth()),
{
    let body = invocation_body_tree(
        config,
        export,
        request_sha256,
        output,
        effects,
        started_at_ms,
        finished_at_ms,
    );
    let all = body->Object_0;
    let below = (read_depth() - 1) as nat;
    let under = (below - 1) as nat;
    assert forall|i: int| 0 <= i < effects.len() implies (#[trigger] effects[i]).exact(under) by {
        lemma_exact_deeper(effects[i], 1, under);
    }
    assert(JsonTree::Array(effects).exact(below));
    assert(JsonTree::Array(output).exact(below));
    assert(all.dom().finite());
    assert forall|k: Seq<char>| #[trigger] all.dom().contains(k) implies all[k].exact(below) by {
        assert(all[k] is Text || all[k] is Whole || all[k] is Bool || all[k] is Null || all[k]
            == JsonTree::Array(effects) || all[k] == JsonTree::Array(output));
    }
}

/// What results are reported as reads back from its text, as deep as each nests.
proof fn lemma_results_are_exact(results: Seq<ValTree>, depth: nat)
    requires
        forall|i: int| 0 <= i < results.len() ==> nests(#[trigger] results[i], depth),
    ensures
        reported_results(results) matches Ok(output) ==> forall|i: int|
            0 <= i < output.len() ==> (#[trigger] output[i]).exact(depth),
    decreases results.len(),
{
    if results.len() > 0 {
        let front = results.drop_last();
        assert forall|i: int| 0 <= i < front.len() implies nests(#[trigger] front[i], depth) by {
            assert(nests(results[i], depth));
        }
        lemma_results_are_exact(front, depth);
        assert(nests(results[results.len() - 1], depth));
        lemma_reported_is_exact(results.last(), depth);
    }
}

/// The receipt of a call of one export reads back: where its results nest no
/// deeper than two levels short of what JSON is read to, the payload of the
/// receipt reads as the body, whatever calls of capabilities were answered.
pub proof fn lemma_invocation_reads_back(
    config: ResidentConfig,
    export: Seq<char>,
    request_sha256: Seq<char>,
    results: Seq<ValTree>,
    calls: Seq<AnsweredCall>,
    started_at_ms: int,
    finished_at_ms: int,
)
    requires
        forall|i: int|
            0 <= i < results.len() ==> nests(#[trigger] results[i], (read_depth() - 2) as nat),
    ensures
        reported_results(results) matches Ok(output) ==> invocation_body_tree(
            config,
            export,
            request_sha256,
            output,
            events_of(calls),
            started_at_ms,
            finished_at_ms,
        ).exact(read_depth()),
{
    if let Ok(output) = reported_results(results) {
        lemma_results_are_exact(results, (read_depth() - 2) as nat);
        assert forall|i: int| 0 <= i < calls.len() implies (#[trigger] events_of(calls)[i]).exact(
            1,
        ) by {
            lemma_call_tells(calls[i]);
        }
        lemma_invocation_is_exact(
            config,
            export,
            request_sha256,
            output,
            events_of(calls),
            started_at_ms,
            finished_at_ms,
        );
    }
}

} // verus!
