//! The line protocol, JSON texts, and what comes from the machine.

use tender_component::ability::Ability;
use tender_component::clock::{clock_reading, now_ms};
use tender_component::engine::{engine_failure, wasmtime_result};
use tender_component::error::ErrorKind;
use tender_component::json::{copies, Json};
use tender_component::number::decimal_of;
use tender_component::protocol::{
    failure_notice, provider_call, provider_response, provider_result, terminal_message, Provider,
};

fn ability() -> Ability {
    Ability {
        target: "t".to_owned(),
        operation: "clock/now".to_owned(),
        max_bytes: 1,
        max_items: 2,
        deadline_ms: 3,
        audit_id: "a".to_owned(),
    }
}

#[test]
fn a_call_is_answered_by_one_provider() {
    assert_eq!(
        provider_call("aiueos-clock-now", &ability(), 1, true, true),
        Ok(Provider::Resident)
    );
    assert_eq!(
        provider_call("aiueos-clock-now", &ability(), 1, false, false).unwrap_err().message(),
        "Component requested a capability but no admitted provider is installed"
    );
    assert_eq!(
        provider_call("aiueos-http-post", &ability(), 1, true, true).unwrap_err().kind,
        ErrorKind::InvalidOperation
    );
    match provider_call("aiueos-clock-now", &ability(), -5, false, true) {
        Ok(Provider::Remote(message)) => assert_eq!(
            message.encode(),
            b"{\"ability\":{\"audit-id\":\"a\",\"deadline-ms\":3,\"max-bytes\":1,\"max-items\":2,\"operation\":\"clock/now\",\"target\":\"t\"},\"import\":\"aiueos-clock-now\",\"payload\":{\"value\":-5},\"type\":\"provider-call\"}"
                .to_vec()
        ),
        _ => panic!("the protocol is asked"),
    }
}

#[test]
fn an_answer_is_for_its_import() {
    let line = "{\"type\":\"provider-result\",\"import\":\"a\",\"value\":-7}\n";
    assert_eq!(provider_response("a", line), Ok(-7));
    let kind = |line: &str| provider_response("a", line).unwrap_err().kind;
    assert_eq!(provider_response("b", line).unwrap_err().kind, ErrorKind::ProviderImportMismatch);
    assert_eq!(kind(""), ErrorKind::ProviderClosed);
    assert_eq!(kind("\n"), ErrorKind::InvalidProviderResponse);
    assert_eq!(kind("{} {}"), ErrorKind::InvalidProviderResponse);
    assert_eq!(
        provider_response("a", "{} {}").unwrap_err().chain(),
        "invalid provider response: trailing characters at line 1 column 4"
    );
    assert_eq!(kind("[]"), ErrorKind::ExpectedProviderResult);
    assert_eq!(kind("{\"type\":\"error\"}"), ErrorKind::ExpectedProviderResult);
    assert_eq!(
        kind("{\"type\":\"provider-result\",\"import\":1}"),
        ErrorKind::ProviderImportMismatch
    );
    assert_eq!(
        kind("{\"type\":\"provider-result\",\"import\":\"a\",\"value\":1.5}"),
        ErrorKind::ProviderValueMissing
    );
    assert_eq!(
        provider_result(
            "a",
            &Json::parse(b"{\"type\":\"provider-result\",\"import\":\"a\",\"value\":9223372036854775808}")
                .unwrap()
        )
        .unwrap_err()
        .message(),
        "provider response must contain an i64 value"
    );
}

#[test]
fn a_run_ends_with_one_message() {
    assert_eq!(
        terminal_message(&Ok(3)).encode(),
        b"{\"type\":\"result\",\"value\":3}".to_vec()
    );
    assert_eq!(
        terminal_message(&Err("no: \"x\"".to_owned())).encode(),
        b"{\"message\":\"no: \\\"x\\\"\",\"type\":\"error\"}".to_vec()
    );
    assert_eq!(
        failure_notice("aiueos-clock-now", "no").encode(),
        b"{\"capability\":\"aiueos-clock-now\",\"error\":\"no\",\"type\":\"provider-error\"}".to_vec()
    );
}

#[test]
fn a_text_reads_back() {
    let text = "{\"a\":[true,null,-1,18446744073709551615],\"b\":\"\\u0000\\n\\\"\\\\\u{10ffff}\"}";
    let json = Json::parse(text.as_bytes()).unwrap();
    assert_eq!(Json::parse(&json.encode()), Some(json.clone()));
    assert_eq!(json.encode_text().into_bytes(), json.encode());
    assert!(json.encode().iter().all(|byte| *byte >= 0x20));
    assert_eq!(copies(&vec![json.clone()]), vec![json]);
}

#[test]
fn the_later_member_counts() {
    let json = Json::parse(b"{\"a\":1,\"a\":2}").unwrap();
    assert_eq!(json.get_integer("a"), Some(2));
    let built = Json::Object(vec![
        ("a".to_owned(), Json::Unsigned(1)),
        ("a".to_owned(), Json::Unsigned(2)),
    ]);
    assert_eq!(built.get_integer("a"), Some(2));
    assert_eq!(built.encode(), b"{\"a\":2}".to_vec());
    let mixed = Json::Object(vec![
        ("b".to_owned(), Json::Unsigned(3)),
        ("a".to_owned(), Json::Unsigned(4)),
        ("b".to_owned(), Json::Null),
        ("a".to_owned(), Json::Unsigned(1)),
        ("b".to_owned(), Json::Unsigned(2)),
    ]);
    assert_eq!(mixed.encode(), b"{\"a\":1,\"b\":2}".to_vec());
}

#[test]
fn members_are_written_in_order() {
    let json = Json::parse(b" { \"b\" : 1 , \"a\" : [ 1.5 , -0 ] } ").unwrap();
    assert_eq!(json.encode(), b"{\"a\":[1.5,-0.0],\"b\":1}".to_vec());
    assert!(Json::parse(b"").is_none());
    assert!(Json::parse(b"{").is_none());
    assert!(Json::parse(b"1 2").is_none());
    assert!(Json::parse(b"\"\xff\"").is_none());
}

#[test]
fn nesting_is_read_to_a_depth() {
    let nested = |depth: usize| format!("{}{}", "[".repeat(depth), "]".repeat(depth));
    assert!(Json::parse(nested(127).as_bytes()).is_some());
    assert!(Json::parse(nested(128).as_bytes()).is_none());
}

#[test]
fn a_number_is_written_in_decimal() {
    assert_eq!(decimal_of(0), "0");
    assert_eq!(decimal_of(9), "9");
    assert_eq!(decimal_of(10), "10");
    assert_eq!(decimal_of(u64::MAX), "18446744073709551615");
}

#[test]
fn the_clock_is_after_the_epoch() {
    assert_eq!(clock_reading(Ok(5)), Ok(5));
    assert_eq!(
        clock_reading(Err("second time provided was later than self".to_owned()))
            .unwrap_err()
            .chain(),
        "system clock is before Unix epoch: second time provided was later than self"
    );
    let earlier = now_ms().unwrap();
    // Some day in 2020.
    assert!(earlier > 1_577_836_800_000);
    assert!(now_ms().unwrap() >= earlier);
}

#[test]
fn an_engine_failure_tells_its_context() {
    assert_eq!(
        engine_failure("cannot compile", "bad magic").message(),
        "cannot compile: bad magic"
    );
    let fine: Result<u8, wasmtime::Error> = Ok(4);
    assert_eq!(wasmtime_result(fine, "x"), Ok(4));
    let failed: Result<u8, wasmtime::Error> = Err(wasmtime::Error::msg("trap"));
    assert_eq!(
        wasmtime_result(failed, "Component export failed").unwrap_err().message(),
        "Component export failed: trap"
    );
}
