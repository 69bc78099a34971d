//! The configuration of the resident host.

use tender_component::config::{
    admit_bind, bind_text, check_capabilities, check_pin, expected_result, is_digest,
    parse_positive_env, read_capability_config, required_env, resident_config, startup_mode,
    BindAddress, PinErrors, ResidentConfig, ResidentInputs, StartupMode,
};
use tender_component::effects::{
    HttpCapability, LlmCapability, ResidentCapabilityConfig, StorageCapability,
};
use tender_component::error::{ErrorKind, HostError};
use tender_component::json::Json;
use tender_component::seal::{sha256_hex, SigningKey};
use tender_component::storage::HostPath;

fn set(text: &str) -> Result<String, String> {
    Ok(text.to_owned())
}

fn unset<T>() -> Result<T, String> {
    Err("environment variable not found".to_owned())
}

fn unread<T>(cause: &str) -> Result<T, String> {
    Err(cause.to_owned())
}

fn path(text: &str) -> Result<HostPath, String> {
    Ok(HostPath::new(text.to_owned()))
}

fn storage_only() -> ResidentCapabilityConfig {
    ResidentCapabilityConfig {
        format: "kototama.resident-capabilities/v1".to_owned(),
        http: None,
        storage: Some(StorageCapability {
            log: HostPath::new("/log".to_owned()),
            max_write_bytes: 1,
            deadline_ms: 1,
            audit_id: "storage".to_owned(),
        }),
        llm: None,
    }
}

fn http() -> HttpCapability {
    HttpCapability {
        endpoint: "http://127.0.0.1:1/http".to_owned(),
        request_body: Json::Null,
        request_code: 1,
        max_response_bytes: 1,
        deadline_ms: 1,
        audit_id: "http".to_owned(),
    }
}

fn llm() -> LlmCapability {
    LlmCapability {
        endpoint: "http://127.0.0.1:1/llm".to_owned(),
        model: "model".to_owned(),
        prompt: "prompt".to_owned(),
        success_code: 1,
        max_request_bytes: 1,
        max_response_bytes: 1,
        deadline_ms: 1,
        audit_id: "llm".to_owned(),
    }
}

fn inputs() -> ResidentInputs {
    ResidentInputs {
        bind: Ok(BindAddress::V4 { octets: [127, 0, 0, 1], port: 18901 }),
        component_path: path("/component.wasm"),
        component_is_file: true,
        component_bytes: Ok(b"component".to_vec()),
        component_sha256: Ok(sha256_hex(b"component")),
        seed_path: path("/seed"),
        seed_text: Ok("07".repeat(32)),
        receipt_log: path("/receipts.jsonl"),
        capability_path: path("/capabilities.json"),
        capability_is_file: true,
        capability_bytes: Ok(b"capabilities".to_vec()),
        capability_sha256: Ok(sha256_hex(b"capabilities")),
        capability_config: Ok(storage_only()),
        startup_mode: set("compile-only"),
        component_cid: set("cid"),
        expected_result: set("-42"),
        fuel: set("1000"),
        memory_pages: set("16"),
        node: set("node"),
    }
}

fn refused(inputs: ResidentInputs) -> HostError {
    match resident_config(inputs) {
        Err(error) => error,
        Ok(_) => panic!("the configuration is refused"),
    }
}

fn admitted(inputs: ResidentInputs) -> ResidentConfig {
    match resident_config(inputs) {
        Ok(config) => config,
        Err(error) => panic!("{}", error.message()),
    }
}

#[test]
fn public_bind_is_rejected() {
    // 0.0.0.0:18901 and 127.0.0.1:18901
    let public = BindAddress::V4 { octets: [0, 0, 0, 0], port: 18901 };
    let loopback = BindAddress::V4 { octets: [127, 0, 0, 1], port: 18901 };
    assert!(!public.is_loopback());
    assert!(loopback.is_loopback());
}

#[test]
fn a_host_listens_on_loopback_alone() {
    let one = BindAddress::V6 { segments: [0, 0, 0, 0, 0, 0, 0, 1], port: 1 };
    let mapped = BindAddress::V6 { segments: [0, 0, 0, 0, 0, 0xffff, 0x7f00, 1], port: 1 };
    let far = BindAddress::V4 { octets: [127, 9, 9, 9], port: 1 };
    assert_eq!(admit_bind(Ok(one)), Ok(one));
    assert_eq!(admit_bind(Ok(far)), Ok(far));
    assert_eq!(admit_bind(Ok(mapped)).unwrap_err().kind, ErrorKind::BindNotLoopback);
    assert_eq!(
        admit_bind(unread("invalid socket address syntax")).unwrap_err().chain(),
        "KOTOTAMA_BIND_ADDR must be a socket address: invalid socket address syntax"
    );
    assert_eq!(bind_text(&unset()), "127.0.0.1:18901");
    assert_eq!(bind_text(&set("[::1]:9")), "[::1]:9");
}

#[test]
fn a_required_variable_is_there_and_not_empty() {
    assert_eq!(required_env("A", &set("x")), Ok("x".to_owned()));
    assert_eq!(required_env("A", &unset()).unwrap_err().message(), "A is required");
    assert_eq!(
        required_env("A", &unset()).unwrap_err().chain(),
        "A is required: environment variable not found"
    );
    assert_eq!(required_env("A", &set("")).unwrap_err().cause, None);
    assert_eq!(required_env("A", &set("")).unwrap_err().message(), "A must not be empty");
}

#[test]
fn a_bound_is_a_positive_number() {
    assert_eq!(parse_positive_env("F", &set("18446744073709551615")), Ok(u64::MAX));
    assert_eq!(parse_positive_env("F", &set("+7")), Ok(7));
    assert_eq!(
        parse_positive_env("F", &set("18446744073709551616")).unwrap_err().message(),
        "F must be a positive integer"
    );
    for text in ["18446744073709551616", "-1", " 1", "1x", "x", "+", "-", "184467440737095516160x"] {
        let error = parse_positive_env("F", &set(text)).unwrap_err();
        assert_eq!(error.cause, Some(text.parse::<u64>().unwrap_err().to_string()), "{text}");
    }
    assert_eq!(
        parse_positive_env("F", &set("-1")).unwrap_err().kind,
        ErrorKind::VariableNotInteger
    );
    assert_eq!(
        parse_positive_env("F", &set(" 1")).unwrap_err().kind,
        ErrorKind::VariableNotInteger
    );
    assert_eq!(parse_positive_env("F", &set("0")).unwrap_err().message(), "F must be positive");
    assert_eq!(parse_positive_env("F", &unset()).unwrap_err().kind, ErrorKind::VariableRequired);
}

#[test]
fn an_expected_result_is_a_signed_number() {
    assert_eq!(expected_result(&set("-9223372036854775808")), Ok(i64::MIN));
    assert_eq!(expected_result(&set("9223372036854775807")), Ok(i64::MAX));
    for text in ["9223372036854775808", "-9223372036854775809", "-", "+", "1.0", "x", "--1", "+-1"] {
        assert_eq!(
            expected_result(&set(text)).unwrap_err().message(),
            "KOTOTAMA_EXPECTED_RESULT must be i64"
        );
        assert_eq!(
            expected_result(&set(text)).unwrap_err().cause,
            Some(text.parse::<i64>().unwrap_err().to_string())
        );
    }
    assert_eq!(expected_result(&set("")).unwrap_err().kind, ErrorKind::VariableEmpty);
}

#[test]
fn a_startup_mode_is_one_of_two() {
    assert_eq!(startup_mode(&unset()), Ok(StartupMode::ExecuteMain));
    assert_eq!(startup_mode(&set("execute-main")), Ok(StartupMode::ExecuteMain));
    assert_eq!(startup_mode(&set("compile-only")), Ok(StartupMode::CompileOnly));
    assert_eq!(startup_mode(&set("")).unwrap_err().kind, ErrorKind::StartupModeUnknown);
    assert_eq!(StartupMode::CompileOnly.as_text(), "compile-only");
}

#[test]
fn a_digest_has_64_hexadecimal_digits() {
    assert!(is_digest(&sha256_hex(b"x")));
    assert!(is_digest(&"A".repeat(64)));
    assert!(!is_digest(&"a".repeat(63)));
    assert!(!is_digest(&"g".repeat(64)));
    assert!(!is_digest(&"é".repeat(32)));
}

#[test]
fn a_pinned_file_has_its_digest() {
    let file = HostPath::new("/file".to_owned());
    let errors = PinErrors {
        path: ErrorKind::ComponentPath,
        syntax: ErrorKind::ComponentDigestSyntax,
        mismatch: ErrorKind::ComponentDigestMismatch,
    };
    let bytes = Ok(b"abc".to_vec());
    let digest = sha256_hex(b"abc");
    let check = |file: &HostPath,
                 is_file: bool,
                 digest: Result<String, String>,
                 bytes: &Result<Vec<u8>, String>| {
        check_pin(file, is_file, "DIGEST", &digest, bytes, errors)
    };
    assert_eq!(check(&file, true, Ok(digest.clone()), &bytes), Ok(digest.clone()));
    assert_eq!(
        check(&file, false, Ok(digest.clone()), &bytes).unwrap_err().kind,
        ErrorKind::ComponentPath
    );
    let relative = HostPath::new("file".to_owned());
    assert_eq!(
        check(&relative, true, Ok(digest.clone()), &bytes).unwrap_err().kind,
        ErrorKind::ComponentPath
    );
    assert_eq!(
        check(&file, true, unset(), &bytes).unwrap_err().message(),
        "DIGEST is required"
    );
    assert_eq!(
        check(&file, true, set("abc"), &bytes).unwrap_err().kind,
        ErrorKind::ComponentDigestSyntax
    );
    assert_eq!(
        check(&file, true, Ok(digest.clone()), &unread("gone")).unwrap_err().chain(),
        "cannot read Component /file: gone"
    );
    assert_eq!(
        check(&file, true, Ok(sha256_hex(b"abd")), &bytes).unwrap_err().kind,
        ErrorKind::ComponentDigestMismatch
    );
    assert_eq!(
        check(&file, true, Ok(digest.to_uppercase()), &bytes).unwrap_err().kind,
        ErrorKind::ComponentDigestMismatch
    );
}

#[test]
fn capabilities_are_checked_in_turn() {
    let kind = |config: &ResidentCapabilityConfig| check_capabilities(config).unwrap_err().kind;
    assert_eq!(check_capabilities(&storage_only()), Ok(()));
    let mut config = storage_only();
    config.format = "other".to_owned();
    assert_eq!(kind(&config), ErrorKind::CapabilityConfigFormat);
    let mut config = storage_only();
    config.storage = None;
    assert_eq!(kind(&config), ErrorKind::CapabilityConfigEmpty);
    let mut config = storage_only();
    config.storage.as_mut().unwrap().log = HostPath::new("log".to_owned());
    assert_eq!(kind(&config), ErrorKind::StorageCapabilityUnbounded);
    config.storage.as_mut().unwrap().log = HostPath::new(String::new());
    assert_eq!(kind(&config), ErrorKind::StorageCapabilityUnbounded);
    config.storage.as_mut().unwrap().log = HostPath { text: String::new(), absolute: true };
    assert_eq!(kind(&config), ErrorKind::StorageCapabilityUnbounded);
    let mut config = storage_only();
    config.http = Some(HttpCapability { endpoint: "http://host/".to_owned(), ..http() });
    assert_eq!(kind(&config), ErrorKind::EndpointNotLoopback);
    config.http = Some(HttpCapability { max_response_bytes: 0, ..http() });
    assert_eq!(kind(&config), ErrorKind::HttpCapabilityUnbounded);
    config.http = Some(http());
    config.llm = Some(LlmCapability { prompt: String::new(), ..llm() });
    assert_eq!(kind(&config), ErrorKind::LlmCapabilityUnbounded);
    config.llm = Some(LlmCapability { endpoint: "http://127.0.0.1:0/".to_owned(), ..llm() });
    assert_eq!(kind(&config), ErrorKind::EndpointPortZero);
    config.llm = Some(llm());
    assert_eq!(check_capabilities(&config), Ok(()));
    config.http = None;
    assert_eq!(kind(&config), ErrorKind::LlmWithoutHttp);
}

#[test]
fn no_file_grants_no_capability() {
    let grant = |path, is_file, config| {
        read_capability_config(&path, is_file, &unset(), &unset(), config)
    };
    assert_eq!(grant(unset(), false, unset()), Ok(None));
    assert_eq!(grant(path(""), false, unset()), Ok(None));
    assert_eq!(
        grant(path("relative"), true, Ok(storage_only())).unwrap_err().message(),
        "KOTOTAMA_CAPABILITY_CONFIG_PATH must be an absolute file"
    );
    let bytes = Ok(b"{}".to_vec());
    let digest = Ok(sha256_hex(b"{}"));
    let unknown = unread("unknown field `ambient-network`");
    assert_eq!(
        read_capability_config(&path("/c"), true, &digest, &bytes, unknown).unwrap_err().chain(),
        "resident capability configuration is invalid: unknown field `ambient-network`"
    );
    assert_eq!(
        read_capability_config(&path("/c"), true, &digest, &bytes, Ok(storage_only())),
        Ok(Some((storage_only(), sha256_hex(b"{}"))))
    );
}

#[test]
fn a_host_is_configured() {
    let config = admitted(inputs());
    assert_eq!(config.bind, BindAddress::V4 { octets: [127, 0, 0, 1], port: 18901 });
    assert_eq!(config.component.text, "/component.wasm");
    assert_eq!(config.component_cid, "cid");
    assert_eq!(config.component_sha256, sha256_hex(b"component"));
    assert_eq!(config.expected_result, -42);
    assert_eq!((config.fuel, config.memory_pages), (1000, 16));
    assert_eq!(config.node, "node");
    assert_eq!(config.receipt_log.text, "/receipts.jsonl");
    assert_eq!(
        config.signing_key.public_key(),
        SigningKey::from_bytes([7u8; 32]).public_key()
    );
    assert_eq!(config.capabilities.as_deref(), Some(&storage_only()));
    assert_eq!(config.capability_config_sha256, Some(sha256_hex(b"capabilities")));
    assert_eq!(config.startup_mode, StartupMode::CompileOnly);
    let bare = admitted(ResidentInputs { capability_path: unset(), ..inputs() });
    assert!(bare.capabilities.is_none() && bare.capability_config_sha256.is_none());
}

#[test]
fn a_host_is_refused_for_the_first_reason() {
    let nothing = || ResidentInputs {
        bind: unset(),
        component_path: unset(),
        component_is_file: false,
        component_bytes: unset(),
        component_sha256: unset(),
        seed_path: unset(),
        seed_text: unset(),
        receipt_log: unset(),
        capability_path: unset(),
        capability_is_file: false,
        capability_bytes: unset(),
        capability_sha256: unset(),
        capability_config: unset(),
        startup_mode: unset(),
        component_cid: unset(),
        expected_result: unset(),
        fuel: unset(),
        memory_pages: unset(),
        node: unset(),
    };
    assert_eq!(refused(nothing()).kind, ErrorKind::BindSyntax);
    let bound = || ResidentInputs { bind: inputs().bind, ..nothing() };
    assert_eq!(refused(bound()).message(), "KOTOTAMA_COMPONENT_PATH is required");
    let with_component = || ResidentInputs {
        component_path: inputs().component_path,
        component_is_file: true,
        component_bytes: inputs().component_bytes,
        component_sha256: inputs().component_sha256,
        ..bound()
    };
    assert_eq!(refused(with_component()).message(), "KOTOTAMA_RECEIPT_SEED_PATH is required");
    assert_eq!(
        refused(ResidentInputs { seed_path: path("/seed"), ..with_component() }).message(),
        "KOTOTAMA_RECEIPT_LOG is required"
    );
    assert_eq!(
        refused(ResidentInputs {
            seed_path: path("/seed"),
            receipt_log: path("log"),
            ..with_component()
        })
        .message(),
        "receipt key and log paths must be absolute"
    );
    let with_receipts = || ResidentInputs {
        seed_path: path("/seed"),
        receipt_log: path("/log"),
        ..with_component()
    };
    assert_eq!(
        refused(ResidentInputs { capability_path: path("/c"), ..with_receipts() }).kind,
        ErrorKind::CapabilityPath
    );
    assert_eq!(
        refused(ResidentInputs { startup_mode: set("run"), ..with_receipts() }).message(),
        "KOTOTAMA_STARTUP_MODE must be execute-main or compile-only"
    );
    assert_eq!(refused(with_receipts()).message(), "KOTOTAMA_COMPONENT_CID is required");
    assert_eq!(
        refused(ResidentInputs { expected_result: unset(), ..inputs() }).message(),
        "KOTOTAMA_EXPECTED_RESULT is required"
    );
    assert_eq!(
        refused(ResidentInputs { fuel: set("0"), memory_pages: unset(), ..inputs() }).message(),
        "KOTOTAMA_FUEL must be positive"
    );
    assert_eq!(
        refused(ResidentInputs { memory_pages: set("x"), node: unset(), ..inputs() }).message(),
        "KOTOTAMA_MEMORY_PAGES must be a positive integer"
    );
    assert_eq!(
        refused(ResidentInputs { node: set(""), seed_text: unset(), ..inputs() }).message(),
        "KOTOTAMA_NODE must not be empty"
    );
    assert_eq!(
        refused(ResidentInputs { seed_text: unread("denied"), ..inputs() }).chain(),
        "cannot read receipt signing key /seed: denied"
    );
    assert_eq!(
        refused(ResidentInputs { seed_text: set("0g"), ..inputs() }).chain(),
        "receipt signing key is not hex: Invalid character 'g' at position 1"
    );
    assert_eq!(
        refused(ResidentInputs { component_bytes: unread("denied"), ..inputs() }).chain(),
        "cannot read Component /component.wasm: denied"
    );
    assert_eq!(
        refused(ResidentInputs { seed_text: set("07"), ..inputs() }).kind,
        ErrorKind::SeedLength
    );
    assert_eq!(
        refused(ResidentInputs { component_bytes: Ok(b"other".to_vec()), ..inputs() })
            .message(),
        "resident Component bytes do not match KOTOTAMA_COMPONENT_SHA256"
    );
    assert_eq!(
        refused(ResidentInputs { capability_bytes: Ok(b"other".to_vec()), ..inputs() })
            .message(),
        "resident capability configuration does not match its admitted SHA-256"
    );
}
