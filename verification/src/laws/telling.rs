//! What the resident host tells: of itself, of the runs that it makes, and of what
//! they did. Every receipt is sealed with the key that the host tells.

use vstd::prelude::*;
use vstd::utf8::{decode_utf8, encode_utf8};

use crate::ability::Import;
use crate::config::{ResidentConfig, StartupMode};
use crate::effects::{grants, resident_imports};
use crate::error::{ErrorKind, HostError};
use crate::json::{json_text, lemma_trees, trees, Json, JsonTree};
use crate::laws::effecting::{count, is_grant, lemma_grants};
use crate::laws::holding::only;
use crate::laws::reading::{is_trimmed, lemma_trim_unique, worth_of};
use crate::resident::{
    admit_invocation, check_export, execute_invocation, execute_resident, execution_tree,
    grant_names, granted_imports, health, invocation_body_tree, invocation_tree, ready_notice,
    request_digest, resident_run, used_capabilities, InvocationRequest,
};
use crate::run::{report_results, reported_results, Run};
use crate::seal::{
    ed25519_public_key, ed25519_signature, hex_bytes, hex_digit, hex_text, hex_value,
    read_signing_key, receipt_envelope, receipt_tree, sealed, sha256_hex, sha256_of,
    SigningKey,
};
use crate::value::{val_trees, Val, ValTree};

verus! {

/// Whether a text is bytes in small hexadecimal digits, the high half of each first.
pub open spec fn is_hex(text: Seq<char>, bytes: Seq<u8>) -> bool {
    &&& text.len() == 2 * bytes.len()
    &&& forall|i: int|
        0 <= i < bytes.len() ==> {
            &&& worth_of(text[2 * i]) == Some(#[trigger] bytes[i] as int / 16)
            &&& worth_of(text[2 * i + 1]) == Some(bytes[i] as int % 16)
        }
    &&& forall|i: int|
        0 <= i < text.len() ==> ('0' <= #[trigger] text[i] <= '9' || 'a' <= text[i] <= 'f')
}

/// The hexadecimal text of bytes writes them.
pub proof fn lemma_is_hex(bytes: Seq<u8>)
    ensures
        is_hex(hex_text(bytes), bytes),
{
    let text = hex_text(bytes);
    assert forall|i: int| 0 <= i < bytes.len() implies {
        &&& worth_of(text[2 * i]) == Some(#[trigger] bytes[i] as int / 16)
        &&& worth_of(text[2 * i + 1]) == Some(bytes[i] as int % 16)
    } by {
        assert((2 * i) / 2 == i && (2 * i) % 2 == 0);
        assert((2 * i + 1) / 2 == i && (2 * i + 1) % 2 == 1);
        assert(text[2 * i] == hex_digit(bytes[i] as int / 16));
        assert(text[2 * i + 1] == hex_digit(bytes[i] as int % 16));
    }
    assert forall|i: int| 0 <= i < text.len() implies ('0' <= #[trigger] text[i] <= '9' || 'a'
        <= text[i] <= 'f') by {
        if i % 2 == 0 {
            assert(text[i] == hex_digit(bytes[i / 2] as int / 16));
        } else {
            assert(text[i] == hex_digit(bytes[i / 2] as int % 16));
        }
    }
}

/// A digest is told in hexadecimal digits.
pub proof fn law_digest_is_of_the_bytes(bytes: &[u8], text: String)
    requires
        call_ensures(sha256_hex, (bytes,), text),
    ensures
        is_hex(text@, sha256_of(bytes@)),
{
    lemma_is_hex(sha256_of(bytes@));
}

/// A key tells its own public key, and signs the message that it is given.
pub proof fn law_key_is_its_own(
    key: &SigningKey,
    message: &[u8],
    public: String,
    signature: String,
)
    requires
        call_ensures(SigningKey::public_key, (key,), public),
        call_ensures(SigningKey::sign, (key, message), signature),
    ensures
        is_hex(public@, ed25519_public_key(key@)),
        is_hex(signature@, ed25519_signature(key@, message@)),
{
    lemma_is_hex(ed25519_public_key(key@));
    lemma_is_hex(ed25519_signature(key@, message@));
}

/// Whether hexadecimal digits, small or capital, write these bytes.
pub open spec fn hex_writes(text: Seq<char>, bytes: Seq<u8>) -> bool {
    &&& text.len() == 2 * bytes.len()
    &&& forall|i: int|
        0 <= i < text.len() ==> (worth_of(#[trigger] text[i]) matches Some(worth) && worth < 16)
    &&& forall|i: int|
        0 <= i < bytes.len() ==> #[trigger] bytes[i] as int == worth_of(text[2 * i])->0 * 16
            + worth_of(text[2 * i + 1])->0
}

/// What hexadecimal digits are read as is what they write.
pub proof fn lemma_hex_writes(text: Seq<char>)
    ensures
        match hex_bytes(text) {
            Some(bytes) => hex_writes(text, bytes),
            None => forall|bytes: Seq<u8>| !#[trigger] hex_writes(text, bytes),
        },
        forall|one: Seq<u8>, other: Seq<u8>|
            #![trigger hex_writes(text, one), hex_writes(text, other)]
            hex_writes(text, one) && hex_writes(text, other) ==> one == other,
{
    assert forall|c: char| (#[trigger] hex_value(c) is Some) == (worth_of(c) matches Some(worth)
        && worth < 16) by {}
    assert forall|c: char| #[trigger] hex_value(c) is Some implies hex_value(c) == worth_of(c)
        && 0 <= hex_value(c)->0 < 16 by {}
    match hex_bytes(text) {
        Some(bytes) => {
            assert forall|i: int| 0 <= i < text.len() implies (worth_of(
                #[trigger] text[i],
            ) matches Some(worth) && worth < 16) by {
                assert(hex_value(text[i]) is Some);
            }
            assert forall|i: int| 0 <= i < bytes.len() implies #[trigger] bytes[i] as int
                == worth_of(text[2 * i])->0 * 16 + worth_of(text[2 * i + 1])->0 by {
                assert(hex_value(text[2 * i]) is Some && hex_value(text[2 * i + 1]) is Some);
            }
        },
        None => {
            assert forall|bytes: Seq<u8>| !#[trigger] hex_writes(text, bytes) by {
                if hex_writes(text, bytes) {
                    assert(text.len() % 2 == 0);
                    assert forall|i: int| 0 <= i < text.len() implies hex_value(#[trigger] text[i])
                        is Some by {
                        assert(worth_of(text[i]) is Some);
                    }
                }
            }
        },
    }
    assert forall|one: Seq<u8>, other: Seq<u8>|
        #![trigger hex_writes(text, one), hex_writes(text, other)]
        hex_writes(text, one) && hex_writes(text, other) implies one == other by {
        assert forall|i: int| 0 <= i < one.len() implies one[i] == other[i] by {
            assert(one[i] as int == other[i] as int);
        }
        assert(one =~= other);
    }
}

/// The key that signs receipts is the 32 bytes that the text writes in hexadecimal
/// digits, with white space around them or not; anything else is refused.
pub proof fn law_key_is_what_the_text_writes(
    encoded: &str,
    text: Seq<char>,
    key: Result<SigningKey, HostError>,
)
    requires
        call_ensures(read_signing_key, (encoded,), key),
        is_trimmed(encoded@, text),
    ensures
        match key {
            Ok(key) => hex_writes(text, key@) && key@.len() == 32,
            Err(error) => if exists|bytes: Seq<u8>| #[trigger] hex_writes(text, bytes) {
                error.kind == ErrorKind::SeedLength && text.len() != 64
            } else {
                error.kind == ErrorKind::SeedNotHex && error.cause is Some
            },
        },
{
    lemma_trim_unique(encoded@, text);
    lemma_hex_writes(text);
    if let Some(bytes) = hex_bytes(text) {
        assert(hex_writes(text, bytes));
    }
}

/// Whether a receipt seals a body with a key: it holds the body, the text of the body,
/// and the signature of exactly that text.
pub open spec fn seals(receipt: JsonTree, body: JsonTree, seed: Seq<u8>) -> bool {
    &&& receipt.member("algorithm"@) == Some(JsonTree::Text("ed25519"@))
    &&& receipt.member("body"@) == Some(body)
    &&& receipt.member("payload"@) matches Some(JsonTree::Text(payload)) && encode_utf8(payload)
        == json_text(body)
    &&& receipt.member("signature"@) matches Some(JsonTree::Text(signature)) && is_hex(
        signature,
        ed25519_signature(seed, json_text(body)),
    )
    &&& only(receipt, set!["algorithm"@, "body"@, "payload"@, "signature"@])
}

/// A receipt seals the body that it is given with the key that it is given.
pub proof fn law_receipt_seals_the_body(body: &Json, key: &SigningKey, receipt: Json)
    requires
        call_ensures(receipt_envelope, (body, key), receipt),
    ensures
        seals(receipt@, body@, key@),
{
    lemma_is_hex(ed25519_signature(key@, json_text(body@)));
    reveal_strlit("algorithm");
    reveal_strlit("body");
    reveal_strlit("payload");
    reveal_strlit("signature");
    assert("body"@.len() == 4 && "payload"@.len() == 7);
    assert("algorithm"@[0] == 'a' && "signature"@[0] == 's');
    assert("algorithm"@.len() == 9 && "signature"@.len() == 9);
    assert(receipt@->Object_0.dom() =~= set!["algorithm"@, "body"@, "payload"@, "signature"@]);
}

/// A receipt is put together of the body, the payload and the signature that it is
/// given, and of nothing else.
pub proof fn law_receipt_is_put_together(
    body: &Json,
    payload: String,
    signature: String,
    receipt: Json,
)
    requires
        call_ensures(sealed, (body, payload, signature), receipt),
    ensures
        receipt@.member("algorithm"@) == Some(JsonTree::Text("ed25519"@)),
        receipt@.member("body"@) == Some(body@),
        receipt@.member("payload"@) == Some(JsonTree::Text(payload@)),
        receipt@.member("signature"@) == Some(JsonTree::Text(signature@)),
        only(receipt@, set!["algorithm"@, "body"@, "payload"@, "signature"@]),
{
    reveal_strlit("algorithm");
    reveal_strlit("body");
    reveal_strlit("payload");
    reveal_strlit("signature");
    assert("body"@.len() == 4 && "payload"@.len() == 7);
    assert("algorithm"@[0] == 'a' && "signature"@[0] == 's');
    assert("algorithm"@.len() == 9 && "signature"@.len() == 9);
    assert(receipt@->Object_0.dom() =~= set!["algorithm"@, "body"@, "payload"@, "signature"@]);
}

/// The keys of what the host tells differ.
proof fn lemma_keys()
    ensures
        "ambient-wasi"@.len() == 12 && "ambient-wasi"@[0] == 'a',
        "capabilities"@.len() == 12 && "capabilities"@[0] == 'c',
        "capability-config-sha256"@.len() == 24,
        "component-cid"@.len() == 13 && "component-cid"@[0] == 'c',
        "component-sha256"@.len() == 16,
        "effects"@.len() == 7 && "effects"@[0] == 'e',
        "expected-result"@.len() == 15,
        "export"@.len() == 6 && "export"@[0] == 'e',
        "finished-at-ms"@.len() == 14 && "finished-at-ms"@[0] == 'f',
        "format"@.len() == 6 && "format"@[0] == 'f',
        "fuel"@.len() == 4 && "fuel"@[0] == 'f',
        "memory-pages"@.len() == 12 && "memory-pages"@[0] == 'm',
        "node"@.len() == 4 && "node"@[0] == 'n',
        "output"@.len() == 6 && "output"@[0] == 'o',
        "ready"@.len() == 5,
        "receipt-public-key"@.len() == 18,
        "request-sha256"@.len() == 14 && "request-sha256"@[0] == 'r',
        "result"@.len() == 6 && "result"@[0] == 'r',
        "runtime"@.len() == 7 && "runtime"@[0] == 'r',
        "started-at-ms"@.len() == 13 && "started-at-ms"@[0] == 's',
        "startup-mode"@.len() == 12 && "startup-mode"@[0] == 's',
        "status"@.len() == 6 && "status"@[0] == 's',
{
    reveal_strlit("ambient-wasi");
    reveal_strlit("capabilities");
    reveal_strlit("capability-config-sha256");
    reveal_strlit("component-cid");
    reveal_strlit("component-sha256");
    reveal_strlit("effects");
    reveal_strlit("expected-result");
    reveal_strlit("export");
    reveal_strlit("finished-at-ms");
    reveal_strlit("format");
    reveal_strlit("fuel");
    reveal_strlit("memory-pages");
    reveal_strlit("node");
    reveal_strlit("output");
    reveal_strlit("ready");
    reveal_strlit("receipt-public-key");
    reveal_strlit("request-sha256");
    reveal_strlit("result");
    reveal_strlit("runtime");
    reveal_strlit("started-at-ms");
    reveal_strlit("startup-mode");
    reveal_strlit("status");
}

/// Whether a member is the text of a value that may be missing.
pub open spec fn member_or_null(tree: JsonTree, key: Seq<char>, text: Option<String>) -> bool {
    tree.member(key) == Some(
        match text {
            Some(text) => JsonTree::Text(text@),
            None => JsonTree::Null,
        },
    )
}

/// Whether a JSON value tells which component a host runs, on which node, with which
/// capabilities pinned, without WASI, and under which key receipts are sealed.
pub open spec fn tells_host(tree: JsonTree, config: ResidentConfig) -> bool {
    &&& tree.member("ambient-wasi"@) == Some(JsonTree::Bool(false))
    &&& member_or_null(tree, "capability-config-sha256"@, config.capability_config_sha256)
    &&& tree.member("component-cid"@) == Some(JsonTree::Text(config.component_cid@))
    &&& tree.member("component-sha256"@) == Some(JsonTree::Text(config.component_sha256@))
    &&& tree.member("node"@) == Some(JsonTree::Text(config.node@))
    &&& tree.member("runtime"@) == Some(
        JsonTree::Text("tender-component/0.1.0+wasmtime-42.0.1"@),
    )
    &&& tree.member("receipt-public-key"@) matches Some(JsonTree::Text(key)) && is_hex(
        key,
        ed25519_public_key(config.signing_key@),
    )
}

/// A host that is ready tells itself, how it started, and the names of the imports
/// that it grants, in turn; none where nothing is configured.
pub proof fn law_health_tells_the_host(
    config: &ResidentConfig,
    json: Json,
    imports: Vec<Import>,
)
    requires
        call_ensures(health, (config,), json),
        match config.capabilities {
            Some(capabilities) => call_ensures(resident_imports, (&*capabilities,), imports),
            None => imports@.len() == 0,
        },
    ensures
        tells_host(json@, *config),
        json@.member("ready"@) == Some(JsonTree::Bool(true)),
        json@.member("startup-mode"@) == Some(
            JsonTree::Text(
                match config.startup_mode {
                    StartupMode::ExecuteMain => "execute-main"@,
                    StartupMode::CompileOnly => "compile-only"@,
                },
            ),
        ),
        only(
            json@,
            set![
                "ambient-wasi"@,
                "capabilities"@,
                "capability-config-sha256"@,
                "component-cid"@,
                "component-sha256"@,
                "node"@,
                "ready"@,
                "receipt-public-key"@,
                "runtime"@,
                "startup-mode"@,
            ],
        ),
        json@.member("capabilities"@) matches Some(JsonTree::Array(names)) && names.len()
            == imports@.len() && forall|i: int|
            0 <= i < imports@.len() ==> #[trigger] names[i] == JsonTree::Text(imports@[i].name@),
{
    lemma_keys();
    lemma_is_hex(ed25519_public_key(config.signing_key@));
    let granted = granted_imports(*config);
    let names = grant_names(granted);
    assert(json@->Object_0.dom() =~= set![
        "ambient-wasi"@,
        "capabilities"@,
        "capability-config-sha256"@,
        "component-cid"@,
        "component-sha256"@,
        "node"@,
        "ready"@,
        "receipt-public-key"@,
        "runtime"@,
        "startup-mode"@,
    ]);
    assert(json@.member("capabilities"@) == Some(JsonTree::Array(names)));
    assert forall|i: int| 0 <= i < imports@.len() implies #[trigger] names[i] == JsonTree::Text(
        imports@[i].name@,
    ) by {
        assert(grants(imports@)[i] == imports@[i]@);
    }
    assert(grants(imports@).len() == imports@.len());
}

/// A host that listens tells where, and who it is.
pub proof fn law_notice_tells_where(config: &ResidentConfig, bind: &str, json: Json)
    requires
        call_ensures(ready_notice, (config, bind), json),
    ensures
        json@.member("bind"@) == Some(JsonTree::Text(bind@)),
        json@.member("component-cid"@) == Some(JsonTree::Text(config.component_cid@)),
        json@.member("node"@) == Some(JsonTree::Text(config.node@)),
        json@.member("ready"@) == Some(JsonTree::Bool(true)),
        only(json@, set!["bind"@, "component-cid"@, "node"@, "ready"@]),
{
    lemma_keys();
    reveal_strlit("bind");
    assert("bind"@.len() == 4 && "bind"@[0] == 'b');
    assert(json@->Object_0.dom() =~= set!["bind"@, "component-cid"@, "node"@, "ready"@]);
}

/// What every receipt tells.
pub open spec fn run_keys() -> Set<Seq<char>> {
    set![
        "ambient-wasi"@,
        "capability-config-sha256"@,
        "component-cid"@,
        "component-sha256"@,
        "effects"@,
        "finished-at-ms"@,
        "format"@,
        "fuel"@,
        "memory-pages"@,
        "node"@,
        "receipt-public-key"@,
        "runtime"@,
        "started-at-ms"@,
        "status"@,
    ]
}

/// Whether a JSON value tells a run: the host, its bounds, what the run did, and when
/// it was.
pub open spec fn tells_run(
    body: JsonTree,
    config: ResidentConfig,
    effects: Seq<JsonTree>,
    started_at_ms: int,
    finished_at_ms: int,
) -> bool {
    &&& tells_host(body, config)
    &&& body.member("status"@) == Some(JsonTree::Text("ok"@))
    &&& body.member("fuel"@) == Some(JsonTree::Whole(config.fuel as int))
    &&& body.member("memory-pages"@) == Some(JsonTree::Whole(config.memory_pages as int))
    &&& body.member("effects"@) == Some(JsonTree::Array(effects))
    &&& body.member("started-at-ms"@) == Some(JsonTree::Whole(started_at_ms))
    &&& body.member("finished-at-ms"@) == Some(JsonTree::Whole(finished_at_ms))
}

proof fn lemma_used(effects: Seq<JsonTree>)
    requires
        forall|i: int|
            0 <= i < effects.len() ==> (#[trigger] effects[i]).member("capability"@) is Some,
    ensures
        used_capabilities(effects).len() == effects.len(),
        forall|i: int|
            0 <= i < effects.len() ==> (#[trigger] effects[i]).member("capability"@) == Some(
                used_capabilities(effects)[i],
            ),
    decreases effects.len(),
{
    if effects.len() > 0 {
        let front = effects.drop_last();
        assert forall|i: int| 0 <= i < front.len() implies (#[trigger] front[i]).member(
            "capability"@,
        ) is Some by {
            assert(effects[i].member("capability"@) is Some);
        }
        lemma_used(front);
        assert(effects[effects.len() - 1].member("capability"@) is Some);
        assert forall|i: int| 0 <= i < effects.len() implies (#[trigger] effects[i]).member(
            "capability"@,
        ) == Some(used_capabilities(effects)[i]) by {
            if i < front.len() {
                assert(front[i].member("capability"@) is Some);
            }
        }
    }
}

/// A run of the main export is told exactly where its result is the one that the host
/// expects. The receipt is sealed with the key of the host, and tells the host, the
/// result, the effects, and the capability of each effect in turn.
pub proof fn law_run_is_told(
    config: &ResidentConfig,
    results: &Vec<Val>,
    effects: Vec<Json>,
    started_at_ms: u128,
    finished_at_ms: u128,
    receipt: Result<Json, HostError>,
)
    requires
        call_ensures(
            execute_resident,
            (config, results, effects, started_at_ms, finished_at_ms),
            receipt,
        ),
    ensures
        receipt is Ok <==> results@.len() > 0 && results@[0]@ == ValTree::S64(
            config.expected_result,
        ),
        receipt matches Err(error) ==> error.kind == if results@.len() > 0 && results@[0]@ is S64 {
            ErrorKind::ResultMismatch
        } else {
            ErrorKind::MainNotScalar
        },
        receipt matches Ok(receipt) ==> receipt@.member("body"@) matches Some(body) && {
            &&& tells_run(
                body,
                *config,
                trees(effects@),
                started_at_ms as int,
                finished_at_ms as int,
            )
            &&& body.member("format"@) == Some(
                JsonTree::Text("kototama.component-execution-receipt/v1"@),
            )
            &&& only(
                body,
                run_keys().insert("capabilities"@).insert("expected-result"@).insert("result"@),
            )
            &&& body.member("result"@) == Some(JsonTree::Whole(config.expected_result as int))
            &&& body.member("expected-result"@) == Some(
                JsonTree::Whole(config.expected_result as int),
            )
            &&& (forall|i: int|
                0 <= i < effects@.len() ==> (#[trigger] effects@[i])@.member("capability"@)
                    is Some) ==> (body.member("capabilities"@) matches Some(JsonTree::Array(used))
                && used.len() == effects@.len() && forall|i: int|
                0 <= i < effects@.len() ==> (#[trigger] effects@[i])@.member("capability"@)
                    == Some(used[i]))
        },
{
    if results@.len() > 0 {
        assert(val_trees(results@)[0] == results@[0]@);
    }
    if receipt is Ok {
        lemma_keys();
        lemma_is_hex(ed25519_public_key(config.signing_key@));
        let all = trees(effects@);
        lemma_trees(effects@);
        let body = execution_tree(
            *config,
            config.expected_result,
            all,
            started_at_ms as int,
            finished_at_ms as int,
        );
        lemma_body_member(body, config.signing_key@);
        assert(body->Object_0.dom() =~= run_keys().insert("capabilities"@).insert(
            "expected-result"@,
        ).insert("result"@));
        if forall|i: int|
            0 <= i < effects@.len() ==> (#[trigger] effects@[i])@.member("capability"@) is Some {
            assert forall|i: int| 0 <= i < all.len() implies (#[trigger] all[i]).member(
                "capability"@,
            ) is Some by {
                assert(effects@[i]@.member("capability"@) is Some);
            }
            lemma_used(all);
            assert forall|i: int| 0 <= i < effects@.len() implies (#[trigger] effects@[i])@.member(
                "capability"@,
            ) == Some(used_capabilities(all)[i]) by {
                assert(all[i] == effects@[i]@);
            }
        }
    }
}

proof fn lemma_body_member(body: JsonTree, seed: Seq<u8>)
    ensures
        receipt_tree(body, seed).member("body"@) == Some(body),
        receipt_tree(body, seed).member("algorithm"@) == Some(JsonTree::Text("ed25519"@)),
        receipt_tree(body, seed).member("payload"@) == Some(
            JsonTree::Text(decode_utf8(json_text(body))),
        ),
        receipt_tree(body, seed).member("signature"@) matches Some(JsonTree::Text(signature))
            && is_hex(signature, ed25519_signature(seed, json_text(body))),
        only(
            receipt_tree(body, seed),
            set!["algorithm"@, "body"@, "payload"@, "signature"@],
        ),
{
    lemma_is_hex(ed25519_signature(seed, json_text(body)));
    reveal_strlit("algorithm");
    reveal_strlit("body");
    reveal_strlit("payload");
    reveal_strlit("signature");
    assert("body"@.len() == 4 && "payload"@.len() == 7);
    assert("algorithm"@[0] == 'a' && "signature"@[0] == 's');
    assert("algorithm"@.len() == 9 && "signature"@.len() == 9);
    assert(receipt_tree(body, seed)->Object_0.dom() =~= set![
        "algorithm"@,
        "body"@,
        "payload"@,
        "signature"@,
    ]);
}

/// A receipt is signed with the key that the host tells: whatever it tells, its
/// signature is that of the text of its body by the key of the host.
pub proof fn law_receipts_are_signed_by_the_host(
    config: &ResidentConfig,
    results: &Vec<Val>,
    effects: Vec<Json>,
    export: &str,
    digest: &str,
    started_at_ms: u128,
    finished_at_ms: u128,
    run: Result<Json, HostError>,
    call: Result<Json, HostError>,
)
    requires
        call_ensures(
            execute_resident,
            (config, results, effects, started_at_ms, finished_at_ms),
            run,
        ),
        call_ensures(
            execute_invocation,
            (config, export, digest, results, effects, started_at_ms, finished_at_ms),
            call,
        ),
    ensures
        run matches Ok(receipt) ==> signed_by(receipt@, config.signing_key@),
        call matches Ok(receipt) ==> signed_by(receipt@, config.signing_key@),
{
    if run is Ok {
        lemma_body_member(
            execution_tree(
                *config,
                config.expected_result,
                trees(effects@),
                started_at_ms as int,
                finished_at_ms as int,
            ),
            config.signing_key@,
        );
    }
    if call is Ok {
        lemma_body_member(
            invocation_body_tree(
                *config,
                export@,
                digest@,
                reported_results(val_trees(results@))->Ok_0,
                trees(effects@),
                started_at_ms as int,
                finished_at_ms as int,
            ),
            config.signing_key@,
        );
    }
}

/// Whether the signature of a receipt is that of its body by a key.
pub open spec fn signed_by(receipt: JsonTree, seed: Seq<u8>) -> bool {
    &&& receipt.member("algorithm"@) == Some(JsonTree::Text("ed25519"@))
    &&& only(receipt, set!["algorithm"@, "body"@, "payload"@, "signature"@])
    &&& receipt.member("body"@) matches Some(body) && {
        &&& receipt.member("payload"@) == Some(JsonTree::Text(decode_utf8(json_text(body))))
        &&& receipt.member("signature"@) matches Some(JsonTree::Text(signature)) && is_hex(
            signature,
            ed25519_signature(seed, json_text(body)),
        )
    }
}

/// A call of one export is told exactly where its results can be reported. The receipt
/// tells the host, the export, the digest of the request, the output and the effects.
pub proof fn law_call_is_told(
    config: &ResidentConfig,
    export: &str,
    digest: &str,
    results: &Vec<Val>,
    effects: Vec<Json>,
    started_at_ms: u128,
    finished_at_ms: u128,
    receipt: Result<Json, HostError>,
    output: Result<Vec<Json>, HostError>,
)
    requires
        call_ensures(
            execute_invocation,
            (config, export, digest, results, effects, started_at_ms, finished_at_ms),
            receipt,
        ),
        call_ensures(report_results, (results,), output),
    ensures
        match output {
            Err(error) => receipt matches Err(told) && told@ == error@,
            Ok(output) => receipt matches Ok(receipt) && (receipt@.member(
                "body"@,
            ) matches Some(body) && {
                &&& tells_run(
                    body,
                    *config,
                    trees(effects@),
                    started_at_ms as int,
                    finished_at_ms as int,
                )
                &&& body.member("format"@) == Some(
                    JsonTree::Text("kototama.component-invocation-receipt/v1"@),
                )
                &&& only(
                    body,
                    run_keys().insert("export"@).insert("output"@).insert("request-sha256"@),
                )
                &&& body.member("export"@) == Some(JsonTree::Text(export@))
                &&& body.member("request-sha256"@) == Some(JsonTree::Text(digest@))
                &&& body.member("output"@) == Some(JsonTree::Array(trees(output@)))
            }),
        },
{
    if let Ok(output) = output {
        lemma_keys();
        lemma_is_hex(ed25519_public_key(config.signing_key@));
        let body = invocation_body_tree(
            *config,
            export@,
            digest@,
            trees(output@),
            trees(effects@),
            started_at_ms as int,
            finished_at_ms as int,
        );
        lemma_body_member(body, config.signing_key@);
        assert(body->Object_0.dom() =~= run_keys().insert("export"@).insert("output"@).insert(
            "request-sha256"@,
        ));
    }
}

/// Whether a name is that of an export that may be called: 1 to 128 small letters,
/// digits and hyphens.
pub open spec fn callable(name: Seq<char>) -> bool {
    &&& 1 <= name.len() <= 128
    &&& forall|i: int|
        0 <= i < name.len() ==> {
            let code = #[trigger] name[i] as int;
            0x61 <= code <= 0x7a || 0x30 <= code <= 0x39 || code == 0x2d
        }
}

/// An export is called by a name that may be called, and by no other.
pub proof fn law_export_has_a_callable_name(name: &str, checked: Result<(), HostError>)
    requires
        call_ensures(check_export, (name,), checked),
    ensures
        checked is Ok <==> callable(name@),
        checked matches Err(error) ==> error.kind == ErrorKind::ExportNameSyntax,
{
    if callable(name@) {
        assert forall|i: int| 0 <= i < name@.len() implies ('a' <= #[trigger] name@[i] <= 'z' || '0'
            <= name@[i] <= '9' || name@[i] == '-') by {
            let code = name@[i] as int;
        }
    }
}

/// Whether a digest is that of a request: of the text of its export and parameters.
pub open spec fn digests(digest: Seq<char>, export: Seq<char>, params: Seq<JsonTree>) -> bool {
    exists|tree: JsonTree| #[trigger]
        is_request(tree, export, params) && is_hex(digest, sha256_of(json_text(tree)))
}

/// Whether a JSON value is a request to call an export with parameters, and nothing
/// else.
pub open spec fn is_request(tree: JsonTree, export: Seq<char>, params: Seq<JsonTree>) -> bool {
    tree matches JsonTree::Object(members) && members.dom() == set!["export"@, "params"@]
        && members["export"@] == JsonTree::Text(export) && members["params"@] == JsonTree::Array(
        params,
    )
}

proof fn lemma_digests(export: Seq<char>, params: Seq<JsonTree>)
    ensures
        digests(
            hex_text(sha256_of(json_text(invocation_tree(export, params)))),
            export,
            params,
        ),
{
    reveal_strlit("export");
    reveal_strlit("params");
    assert("export"@[0] == 'e' && "params"@[0] == 'p');
    let tree = invocation_tree(export, params);
    assert(tree->Object_0.dom() =~= set!["export"@, "params"@]);
    assert(is_request(tree, export, params));
    lemma_is_hex(sha256_of(json_text(tree)));
}

/// The digest of a request is that of its export and its parameters.
pub proof fn law_request_digest(invocation: &InvocationRequest, digest: String)
    requires
        call_ensures(request_digest, (invocation,), digest),
    ensures
        digests(digest@, invocation.export@, trees(invocation.params@)),
{
    lemma_digests(invocation.export@, trees(invocation.params@));
}

/// Whether a run is one of the component of a host, within its bounds and with the
/// imports that the host grants.
pub open spec fn runs_component(run: Run, config: ResidentConfig) -> bool {
    &&& run.kind@ == "run"@
    &&& run.component@ == config.component.text@
    &&& run.capability_mode@ == "function"@
    &&& run.fuel == config.fuel
    &&& run.memory_pages == config.memory_pages
    &&& match config.capabilities {
        None => run.imports@.len() == 0,
        Some(capabilities) => {
            &&& run.imports@.len() == count(*capabilities)
            &&& forall|i: int|
                0 <= i < run.imports@.len() ==> is_grant(
                    #[trigger] run.imports@[i],
                    *capabilities,
                )
        },
    }
}

proof fn lemma_granted(run: Run, config: ResidentConfig)
    requires
        grants(run.imports@) == granted_imports(config),
    ensures
        match config.capabilities {
            None => run.imports@.len() == 0,
            Some(capabilities) => {
                &&& run.imports@.len() == count(*capabilities)
                &&& forall|i: int|
                    0 <= i < run.imports@.len() ==> is_grant(
                        #[trigger] run.imports@[i],
                        *capabilities,
                    )
            },
        },
{
    assert(grants(run.imports@).len() == run.imports@.len());
    if let Some(capabilities) = config.capabilities {
        lemma_grants(&*capabilities, run.imports@);
    }
}

/// The host runs its own component, within its own bounds and with its own grants, and
/// calls the export with the parameters that it is given.
pub proof fn law_host_runs_its_component(
    config: &ResidentConfig,
    export: Option<String>,
    params: Vec<Json>,
    run: Run,
)
    requires
        call_ensures(resident_run, (config, export, params), run),
    ensures
        runs_component(run, *config),
        run.export == export,
        run.params == params,
{
    lemma_granted(run, *config);
}

/// A request to call an export is admitted exactly where it was read and its export may
/// be called; the run is then of that export with those parameters.
pub proof fn law_invocation_is_admitted(
    config: &ResidentConfig,
    read: Result<InvocationRequest, String>,
    admitted: Result<(String, Run), HostError>,
)
    requires
        call_ensures(admit_invocation, (config, read), admitted),
    ensures
        match read {
            Err(cause) => admitted matches Err(error) && error.kind == ErrorKind::InvocationInvalid
                && error@.cause == Some(cause@),
            Ok(invocation) => if callable(invocation.export@) {
                admitted matches Ok((digest, run)) && {
                    &&& runs_component(run, *config)
                    &&& run.export == Some(invocation.export)
                    &&& run.params == invocation.params
                    &&& digests(digest@, invocation.export@, trees(invocation.params@))
                }
            } else {
                admitted matches Err(error) && error.kind == ErrorKind::ExportNameSyntax
            },
        },
{
    if let Ok(invocation) = read {
        let name = invocation.export@;
        if callable(name) {
            assert forall|i: int| 0 <= i < name.len() implies ('a' <= #[trigger] name[i] <= 'z'
                || '0' <= name[i] <= '9' || name[i] == '-') by {
                let code = name[i] as int;
            }
        }
        lemma_digests(invocation.export@, trees(invocation.params@));
        if let Ok((digest, run)) = admitted {
            lemma_granted(run, *config);
        }
    }
}

} // verus!
