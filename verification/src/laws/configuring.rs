//! The configuration of the resident host: it is what the environment says, pinned to
//! the bytes that it names, and nothing in it is left unbounded.

use vstd::prelude::*;

use crate::config::{
    admit_bind, bind_text, check_capabilities, check_digest, check_pin, digest_syntax,
    expected_checked, expected_result, is_digest, parse_positive_env, positive,
    read_capability_config, required_env, resident_config, startup_mode, take_path, text_view,
    BindAddress, PinErrors, ResidentConfig, ResidentInputs, StartupMode,
};
use crate::effects::{
    HttpCapability, LlmCapability, ResidentCapabilityConfig, StorageCapability,
};
use crate::endpoint::{endpoint_of, loopback_endpoint};
use crate::error::{ErrorKind, Failure, HostError};
use crate::laws::reading::{
    is_trimmed, lemma_signed_writes, lemma_trim, lemma_trim_unique, lemma_unsigned_writes,
    unsigned_part, worth_of, writes, writes_signed,
};
use crate::laws::telling::{hex_writes, is_hex, lemma_hex_writes, lemma_is_hex};
use crate::number::{signed, signed_of, unsigned_of, NumberError};
use crate::seal::{hex_bytes, hex_text, hex_value, seed_of, sha256_of};
use crate::storage::HostPath;
use crate::text::trim;

verus! {

/// A variable that must be there is taken as it is; one that is not set or is empty is
/// refused by its name.
pub proof fn law_variable_is_taken_as_it_is(
    name: &str,
    value: &Result<String, String>,
    text: Result<String, HostError>,
)
    requires
        call_ensures(required_env, (name, value), text),
    ensures
        match *value {
            Ok(set) => if set@.len() > 0 {
                text matches Ok(taken) && taken@ == set@
            } else {
                text matches Err(error) && error.kind == ErrorKind::VariableEmpty
                    && error.subject@ == name@
            },
            Err(cause) => text matches Err(error) && error.kind == ErrorKind::VariableRequired
                && error.subject@ == name@ && error@.cause == Some(cause@),
        },
{
}

/// A bound is the positive number that its variable writes.
pub proof fn law_bound_is_the_number_written(
    name: &str,
    value: &Result<String, String>,
    number: Result<u64, HostError>,
)
    requires
        call_ensures(parse_positive_env, (name, value), number),
    ensures
        match number {
            Ok(bound) => bound > 0 && (*value matches Ok(text) && writes(
                unsigned_part(text@),
                10,
                bound as int,
            )),
            Err(error) => error.subject@ == name@ && match *value {
                Err(_) => error.kind == ErrorKind::VariableRequired,
                Ok(text) => {
                    &&& forall|bound: u64|
                        bound > 0 ==> !#[trigger] writes(unsigned_part(text@), 10, bound as int)
                    &&& error.kind == if text@.len() == 0 {
                        ErrorKind::VariableEmpty
                    } else if writes(unsigned_part(text@), 10, 0) {
                        ErrorKind::VariableNotPositive
                    } else {
                        ErrorKind::VariableNotInteger
                    }
                },
            },
        },
{
    if let Ok(text) = value {
        lemma_unsigned_writes(text@, 10, u64::MAX as nat);
        if number is Err {
            assert forall|bound: u64| bound > 0 implies !#[trigger] writes(
                unsigned_part(text@),
                10,
                bound as int,
            ) by {
                if writes(unsigned_part(text@), 10, bound as int) {
                    assert(writes(unsigned_part(text@), 10, (bound as nat) as int));
                    assert(text@.len() > 0);
                }
            }
        }
    }
}

/// The result that is expected is the number that its variable writes, with a sign or
/// none.
pub proof fn law_expected_result_is_the_number_written(
    value: &Result<String, String>,
    number: Result<i64, HostError>,
)
    requires
        call_ensures(expected_result, (value,), number),
    ensures
        match number {
            Ok(expected) => *value matches Ok(text) && writes_signed(text@, expected as int),
            Err(error) => match *value {
                Err(_) => error.kind == ErrorKind::VariableRequired && error.subject@
                    == "KOTOTAMA_EXPECTED_RESULT"@,
                Ok(text) => {
                    &&& forall|expected: i64| !#[trigger] writes_signed(text@, expected as int)
                    &&& error.kind == if text@.len() == 0 {
                        ErrorKind::VariableEmpty
                    } else {
                        ErrorKind::ExpectedResultSyntax
                    }
                },
            },
        },
{
    if let Ok(text) = value {
        lemma_signed_writes(text@);
    }
}

/// Why a variable writes no number is told as the cause.
pub proof fn law_reason_is_the_cause(
    name: &str,
    text: String,
    chars: &[char],
    bound: HostError,
    expected: HostError,
    unsigned: NumberError,
    signed: NumberError,
    first: &'static str,
    second: &'static str,
)
    requires
        text@.len() > 0,
        chars@ == text@,
        call_ensures(parse_positive_env, (name, &Ok(text)), Err(bound)),
        call_ensures(expected_result, (&Ok(text),), Err(expected)),
        call_ensures(unsigned_of, (chars, 10u32, u64::MAX), Err(unsigned)),
        call_ensures(signed_of, (chars,), Err(signed)),
        call_ensures(NumberError::text, (&unsigned,), first),
        call_ensures(NumberError::text, (&signed,), second),
    ensures
        bound@.cause == Some(first@),
        expected@.cause == Some(second@),
{
}

/// Whether only this machine reaches an address: 127.0.0.0/8, or ::1.
pub open spec fn on_this_machine(address: BindAddress) -> bool {
    match address {
        BindAddress::V4 { octets, .. } => octets@[0] == 127,
        BindAddress::V6 { segments, .. } => {
            &&& forall|i: int| 0 <= i < 7 ==> #[trigger] segments@[i] == 0
            &&& segments@[7] == 1
        },
    }
}

/// An address is loopback where only this machine reaches it.
pub proof fn lemma_on_this_machine(address: BindAddress)
    ensures
        address.loopback() <==> on_this_machine(address),
{
    if let BindAddress::V6 { segments, .. } = address {
        let one = seq![0u16, 0u16, 0u16, 0u16, 0u16, 0u16, 0u16, 1u16];
        if on_this_machine(address) {
            assert(segments@ =~= one);
        }
        if address.loopback() {
            assert forall|i: int| 0 <= i < 7 implies #[trigger] segments@[i] == 0 by {
                assert(one[i] == 0);
            }
            assert(one[7] == 1);
        }
    }
}

/// A host listens on the address that it is told, where only this machine reaches it,
/// and on no other.
pub proof fn law_host_listens_on_this_machine(
    bind: Result<BindAddress, String>,
    admitted: Result<BindAddress, HostError>,
)
    requires
        call_ensures(admit_bind, (bind,), admitted),
    ensures
        match (bind, admitted) {
            (Ok(address), Ok(taken)) => taken == address && on_this_machine(address),
            (Ok(address), Err(error)) => !on_this_machine(address) && error.kind
                == ErrorKind::BindNotLoopback,
            (Err(cause), Err(error)) => error.kind == ErrorKind::BindSyntax && error@.cause
                == Some(cause@),
            (Err(_), Ok(_)) => false,
        },
{
    if let Ok(address) = bind {
        lemma_on_this_machine(address);
    }
}

/// A host is told the address that the variable names, and a loopback address where it
/// names none.
pub proof fn law_default_address_is_loopback(value: &Result<String, String>, text: String)
    requires
        call_ensures(bind_text, (value,), text),
    ensures
        match *value {
            Ok(set) => text@ == set@,
            Err(_) => text@ == "127.0.0.1:18901"@,
        },
{
}

/// A digest is 64 hexadecimal digits.
pub proof fn law_digest_syntax(text: &str, yes: bool)
    requires
        call_ensures(is_digest, (text,), yes),
    ensures
        yes <==> text@.len() == 64 && forall|i: int|
            0 <= i < 64 ==> (worth_of(#[trigger] text@[i]) matches Some(worth) && worth < 16),
{
    lemma_digest_syntax(text@);
}

proof fn lemma_digest_syntax(text: Seq<char>)
    ensures
        digest_syntax(text) <==> text.len() == 64 && forall|i: int|
            0 <= i < 64 ==> (worth_of(#[trigger] text[i]) matches Some(worth) && worth < 16),
{
    assert forall|c: char| (#[trigger] hex_value(c) is Some) == (worth_of(c) matches Some(worth)
        && worth < 16) by {}
    if digest_syntax(text) {
        assert forall|i: int| 0 <= i < 64 implies (worth_of(#[trigger] text[i]) matches Some(worth)
            && worth < 16) by {
            assert(hex_value(text[i]) is Some);
        }
    }
    if text.len() == 64 && !digest_syntax(text) {
        let i = choose|i: int| 0 <= i < text.len() && hex_value(#[trigger] text[i]) is None;
        assert(!(worth_of(text[i]) matches Some(worth) && worth < 16));
    }
}

/// A file is pinned exactly where it is an absolute file whose bytes have the digest
/// that the variable names.
pub proof fn law_file_is_pinned_to_its_bytes(
    path: &HostPath,
    is_file: bool,
    variable: &str,
    digest: &Result<String, String>,
    bytes: &Result<Vec<u8>, String>,
    errors: PinErrors,
    checked: Result<String, HostError>,
)
    requires
        call_ensures(check_pin, (path, is_file, variable, digest, bytes, errors), checked),
    ensures
        checked matches Ok(pinned) ==> path.absolute && is_file && (*digest matches Ok(named)
            && named@ == pinned@) && (*bytes matches Ok(read) && is_hex(
            pinned@,
            sha256_of(read@),
        )),
        path.absolute && is_file && (*digest matches Ok(named) && named@.len() == 64 && (
        *bytes matches Ok(read) && named@ == hex_text(sha256_of(read@)))) ==> checked is Ok,
        !path.absolute || !is_file ==> (checked matches Err(error) && error.kind == errors.path),
{
    if let Ok(read) = bytes {
        lemma_is_hex(sha256_of(read@));
        if let Ok(named) = digest {
            if named@ == hex_text(sha256_of(read@)) {
                assert forall|i: int| 0 <= i < named@.len() implies hex_value(#[trigger] named@[i])
                    is Some by {}
            }
        }
    }
}

/// Whether a text is 64 hexadecimal digits.
pub open spec fn names_a_digest(text: Seq<char>) -> bool {
    text.len() == 64 && forall|i: int|
        0 <= i < 64 ==> (worth_of(#[trigger] text[i]) matches Some(worth) && worth < 16)
}

/// Whether a failure is the one of a file that is not what it is pinned to: the first
/// of the path, the digest that the variable names, the bytes, and their digest.
pub open spec fn unpinned(
    failure: Failure,
    path: HostPath,
    is_file: bool,
    variable: Seq<char>,
    digest: Result<String, String>,
    bytes: Result<Vec<u8>, String>,
    kinds: PinErrors,
) -> bool {
    if !path.absolute || !is_file {
        failure.kind == kinds.path
    } else {
        match digest {
            Err(cause) => failure.kind == ErrorKind::VariableRequired && failure.subject
                == variable && failure.cause == Some(cause@),
            Ok(named) => if named@.len() == 0 {
                failure.kind == ErrorKind::VariableEmpty && failure.subject == variable
            } else if !names_a_digest(named@) {
                failure.kind == kinds.syntax
            } else {
                match bytes {
                    Err(cause) => failure.kind == ErrorKind::ComponentUnreadable && failure.subject
                        == path.text@ && failure.cause == Some(cause@),
                    Ok(read) => named@ != hex_text(sha256_of(read@)) && failure.kind
                        == kinds.mismatch,
                }
            },
        }
    }
}

/// What keeps a file from being pinned is told.
pub proof fn law_unpinned_file_is_told(
    path: &HostPath,
    is_file: bool,
    variable: &str,
    digest: &Result<String, String>,
    bytes: &Result<Vec<u8>, String>,
    errors: PinErrors,
    error: HostError,
)
    requires
        call_ensures(check_pin, (path, is_file, variable, digest, bytes, errors), Err(error)),
    ensures
        unpinned(error@, *path, is_file, variable@, *digest, *bytes, errors),
{
    if let Ok(named) = digest {
        lemma_digest_syntax(named@);
    }
}

/// A file whose bytes have another digest than the one it is pinned to is refused.
pub proof fn law_other_bytes_are_refused(
    path: &HostPath,
    is_file: bool,
    variable: &str,
    named: String,
    read: Vec<u8>,
    errors: PinErrors,
    checked: Result<String, HostError>,
)
    requires
        call_ensures(
            check_pin,
            (path, is_file, variable, &Ok(named), &Ok(read), errors),
            checked,
        ),
        path.absolute,
        is_file,
        named@.len() == 64,
        forall|i: int|
            0 <= i < 64 ==> (worth_of(#[trigger] named@[i]) matches Some(worth) && worth < 16),
        named@ != hex_text(sha256_of(read@)),
    ensures
        checked matches Err(error) && error.kind == errors.mismatch,
{
    lemma_digest_syntax(named@);
}

/// Whether an HTTP capability is whole and bounded.
pub open spec fn whole_http(http: HttpCapability) -> bool {
    &&& endpoint_of(http.endpoint@) is Ok
    &&& http.audit_id@.len() > 0
    &&& http.max_response_bytes > 0
    &&& http.deadline_ms > 0
}

/// Whether a storage capability is whole and bounded.
pub open spec fn whole_storage(storage: StorageCapability) -> bool {
    &&& storage.log.absolute
    &&& storage.log.text@.len() > 0
    &&& storage.audit_id@.len() > 0
    &&& storage.max_write_bytes > 0
    &&& storage.deadline_ms > 0
}

/// Whether an LLM capability is whole and bounded.
pub open spec fn whole_llm(llm: LlmCapability) -> bool {
    &&& endpoint_of(llm.endpoint@) is Ok
    &&& llm.audit_id@.len() > 0
    &&& llm.model@.len() > 0
    &&& llm.prompt@.len() > 0
    &&& llm.max_request_bytes > 0
    &&& llm.max_response_bytes > 0
    &&& llm.deadline_ms > 0
}

/// Whether a configuration of capabilities may be used: it is of the format, grants
/// something, leaves nothing unbounded, and has no model without the HTTP call that a
/// model goes on from.
pub open spec fn usable(config: ResidentCapabilityConfig) -> bool {
    &&& config.format@ == "kototama.resident-capabilities/v1"@
    &&& config.http is Some || config.storage is Some || config.llm is Some
    &&& config.http matches Some(http) ==> whole_http(http)
    &&& config.storage matches Some(storage) ==> whole_storage(storage)
    &&& config.llm matches Some(llm) ==> whole_llm(llm)
    &&& config.llm is Some ==> config.http is Some
}

/// A configuration of capabilities is used exactly where it may be.
pub proof fn law_capabilities_are_whole(
    config: &ResidentCapabilityConfig,
    checked: Result<(), HostError>,
)
    requires
        call_ensures(check_capabilities, (config,), checked),
    ensures
        checked is Ok <==> usable(*config),
        config.format@ != "kototama.resident-capabilities/v1"@ ==> (checked matches Err(error)
            && error.kind == ErrorKind::CapabilityConfigFormat),
{
}

/// What a configuration of capabilities lacks is told, the first of it in turn.
pub proof fn law_first_lack_is_told(
    config: &ResidentCapabilityConfig,
    error: HostError,
    http_endpoint: &str,
    llm_endpoint: &str,
    http: Result<(u16, String), HostError>,
    llm: Result<(u16, String), HostError>,
)
    requires
        call_ensures(check_capabilities, (config,), Err(error)),
        config.http matches Some(held) ==> http_endpoint@ == held.endpoint@,
        config.llm matches Some(held) ==> llm_endpoint@ == held.endpoint@,
        call_ensures(loopback_endpoint, (http_endpoint,), http),
        call_ensures(loopback_endpoint, (llm_endpoint,), llm),
        config.format@ == "kototama.resident-capabilities/v1"@,
    ensures
        ({
            let sound_http = config.http matches Some(held) ==> whole_http(held);
            let sound_storage = config.storage matches Some(held) ==> whole_storage(held);
            let sound_llm = config.llm matches Some(held) ==> whole_llm(held);
            if config.http is None && config.storage is None && config.llm is None {
                error.kind == ErrorKind::CapabilityConfigEmpty
            } else if !sound_http {
                match http {
                    Err(refused) => error@ == refused@,
                    Ok(_) => error.kind == ErrorKind::HttpCapabilityUnbounded,
                }
            } else if !sound_storage {
                error.kind == ErrorKind::StorageCapabilityUnbounded
            } else if !sound_llm {
                match llm {
                    Err(refused) => error@ == refused@,
                    Ok(_) => error.kind == ErrorKind::LlmCapabilityUnbounded,
                }
            } else {
                error.kind == ErrorKind::LlmWithoutHttp
            }
        }),
{
}

/// The endpoint of a capability that is whole is one that is accepted.
pub proof fn law_whole_endpoints_are_accepted(
    config: &ResidentCapabilityConfig,
    endpoint: &str,
    read: Result<(u16, String), HostError>,
)
    requires
        call_ensures(check_capabilities, (config,), Ok(())),
        call_ensures(loopback_endpoint, (endpoint,), read),
        (config.http matches Some(http) && http.endpoint@ == endpoint@) || (config.llm matches Some(
            llm,
        ) && llm.endpoint@ == endpoint@),
    ensures
        read is Ok,
{
}

/// How a host starts is what the variable names; it runs its main export where the
/// variable names nothing.
pub proof fn law_startup_is_as_named(
    value: &Result<String, String>,
    mode: Result<StartupMode, HostError>,
)
    requires
        call_ensures(startup_mode, (value,), mode),
    ensures
        mode == Ok::<StartupMode, HostError>(StartupMode::CompileOnly) <==> (*value matches Ok(text)
            && text@ == "compile-only"@),
        mode == Ok::<StartupMode, HostError>(StartupMode::ExecuteMain) <==> (*value is Err || (
        *value matches Ok(text) && text@ == "execute-main"@)),
        mode matches Err(error) ==> error.kind == ErrorKind::StartupModeUnknown,
{
    reveal_strlit("compile-only");
    reveal_strlit("execute-main");
    assert("compile-only"@[0] == 'c' && "execute-main"@[0] == 'e');
}

/// A path that must be named is taken as it is.
pub proof fn law_path_is_taken_as_it_is(
    name: &str,
    path: Result<HostPath, String>,
    taken: Result<HostPath, HostError>,
)
    requires
        call_ensures(take_path, (name, path), taken),
    ensures
        match path {
            Ok(named) => if named.text@.len() > 0 {
                taken == Ok::<HostPath, HostError>(named)
            } else {
                taken matches Err(error) && error.kind == ErrorKind::VariableEmpty
                    && error.subject@ == name@
            },
            Err(cause) => taken matches Err(error) && error.kind == ErrorKind::VariableRequired
                && error.subject@ == name@ && error@.cause == Some(cause@),
        },
{
}

/// Capabilities are granted exactly as a pinned file that may be used says; none are
/// where no file is named.
pub proof fn law_capabilities_come_from_the_pinned_file(
    path: &Result<HostPath, String>,
    is_file: bool,
    digest: &Result<String, String>,
    bytes: &Result<Vec<u8>, String>,
    config: Result<ResidentCapabilityConfig, String>,
    read: Result<Option<(ResidentCapabilityConfig, String)>, HostError>,
)
    requires
        call_ensures(read_capability_config, (path, is_file, digest, bytes, config), read),
    ensures
        *path is Err || (*path matches Ok(named) && named.text@.len() == 0) ==> read == Ok::<
            Option<(ResidentCapabilityConfig, String)>,
            HostError,
        >(None),
        read matches Ok(Some((granted, pinned))) ==> {
            &&& *path matches Ok(named) && named.absolute && named.text@.len() > 0
            &&& is_file
            &&& config == Ok::<ResidentCapabilityConfig, String>(granted)
            &&& usable(granted)
            &&& *digest matches Ok(text) && text@ == pinned@
            &&& *bytes matches Ok(held) && is_hex(pinned@, sha256_of(held@))
        },
        read == Ok::<Option<(ResidentCapabilityConfig, String)>, HostError>(None) ==> *path is Err
            || (*path matches Ok(named) && named.text@.len() == 0),
{
    if let Ok(held) = bytes {
        lemma_is_hex(sha256_of(held@));
    }
}

/// Why no capabilities are granted where a file is named is told: what keeps it from
/// being pinned, that it could not be read as a configuration, or what it lacks.
pub proof fn law_refused_capabilities_are_told(
    path: &Result<HostPath, String>,
    is_file: bool,
    digest: &Result<String, String>,
    bytes: &Result<Vec<u8>, String>,
    config: Result<ResidentCapabilityConfig, String>,
    error: HostError,
    checked: Result<(), HostError>,
)
    requires
        call_ensures(read_capability_config, (path, is_file, digest, bytes, config), Err(error)),
        config matches Ok(held) ==> call_ensures(check_capabilities, (&held,), checked),
    ensures
        *path matches Ok(named) && named.text@.len() > 0 && if named.absolute && is_file
            && pinned_bytes(*digest, *bytes) {
            match config {
                Err(cause) => error.kind == ErrorKind::CapabilityConfigInvalid && error@.cause
                    == Some(cause@),
                Ok(_) => checked matches Err(lack) && error@ == lack@,
            }
        } else {
            unpinned(
                error@,
                named,
                is_file,
                "KOTOTAMA_CAPABILITY_CONFIG_SHA256"@,
                *digest,
                *bytes,
                (PinErrors {
                    path: ErrorKind::CapabilityPath,
                    syntax: ErrorKind::CapabilityDigestSyntax,
                    mismatch: ErrorKind::CapabilityDigestMismatch,
                }),
            )
        },
{
    lemma_pinned_text(*digest, *bytes);
    if let Ok(text) = digest {
        lemma_digest_syntax(text@);
    }
    if let Ok(held) = bytes {
        lemma_is_hex(sha256_of(held@));
    }
}

/// Whether a text that was read is not empty.
pub open spec fn filled(value: Result<String, String>) -> bool {
    value matches Ok(text) && text@.len() > 0
}

/// Whether a text that was read writes a positive number.
pub open spec fn writes_bound(value: Result<String, String>) -> bool {
    value matches Ok(text) && exists|bound: u64|
        bound > 0 && #[trigger] writes(unsigned_part(text@), 10, bound as int)
}

/// Whether a path that was read is absolute and not empty.
pub open spec fn named_absolute(path: Result<HostPath, String>) -> bool {
    path matches Ok(named) && named.text@.len() > 0 && named.absolute
}

/// Whether bytes that were read have the digest that was read.
pub open spec fn pinned_bytes(
    digest: Result<String, String>,
    bytes: Result<Vec<u8>, String>,
) -> bool {
    digest matches Ok(text) && (bytes matches Ok(read) && text@.len() == 64 && text@ == hex_text(
        sha256_of(read@),
    ))
}

/// Whether a text that was read writes 32 bytes in hexadecimal digits.
pub open spec fn writes_seed(value: Result<String, String>) -> bool {
    value matches Ok(text) && exists|bare: Seq<char>, seed: Seq<u8>|
        #![trigger is_trimmed(text@, bare), hex_writes(bare, seed)]
        is_trimmed(text@, bare) && hex_writes(bare, seed) && seed.len() == 32
}

/// Whether everything that a host reads first is there: where it listens, its component,
/// where its receipts go, what it grants, and how it starts.
pub open spec fn grounded(inputs: ResidentInputs) -> bool {
    &&& inputs.bind matches Ok(address) && on_this_machine(address)
    &&& named_absolute(inputs.component_path)
    &&& inputs.component_is_file
    &&& pinned_bytes(inputs.component_sha256, inputs.component_bytes)
    &&& named_absolute(inputs.seed_path)
    &&& named_absolute(inputs.receipt_log)
    &&& inputs.capability_path matches Ok(path) ==> path.text@.len() == 0 || {
        &&& path.absolute
        &&& inputs.capability_is_file
        &&& pinned_bytes(inputs.capability_sha256, inputs.capability_bytes)
        &&& inputs.capability_config matches Ok(config) && usable(config)
    }
    &&& inputs.startup_mode matches Ok(text) ==> text@ == "execute-main"@ || text@
        == "compile-only"@
}

/// Whether a host can be configured: everything that it needs is there, and is what it
/// is pinned to.
pub open spec fn configurable(inputs: ResidentInputs) -> bool {
    &&& grounded(inputs)
    &&& filled(inputs.component_cid)
    &&& inputs.expected_result matches Ok(text) && exists|number: i64| #[trigger]
        writes_signed(text@, number as int)
    &&& writes_bound(inputs.fuel)
    &&& writes_bound(inputs.memory_pages)
    &&& filled(inputs.node)
    &&& writes_seed(inputs.seed_text)
}

proof fn lemma_bound(name: Seq<char>, value: Result<String, String>)
    ensures
        positive(name, text_view(value)) is Ok <==> writes_bound(value),
        positive(name, text_view(value)) matches Ok(bound) ==> bound > 0 && writes(
            unsigned_part(value->Ok_0@),
            10,
            bound as int,
        ),
{
    if let Ok(text) = value {
        lemma_unsigned_writes(text@, 10, u64::MAX as nat);
        if let Ok(bound) = positive(name, text_view(value)) {
            assert(writes(unsigned_part(text@), 10, bound as int));
        }
        if writes_bound(value) {
            let bound = choose|bound: u64|
                bound > 0 && #[trigger] writes(unsigned_part(text@), 10, bound as int);
            assert(writes(unsigned_part(text@), 10, (bound as nat) as int));
            assert(text@.len() > 0);
        }
    }
}

proof fn lemma_expected(value: Result<String, String>)
    ensures
        expected_checked(text_view(value)) is Ok <==> (value matches Ok(text) && exists|number: i64|
            #[trigger]
            writes_signed(text@, number as int)),
        expected_checked(text_view(value)) matches Ok(number) ==> writes_signed(
            value->Ok_0@,
            number as int,
        ),
{
    if let Ok(text) = value {
        lemma_signed_writes(text@);
        if let Some(number) = signed(text@) {
            assert(writes_signed(text@, (number as i64) as int));
        }
    }
}

proof fn lemma_pinned_text(digest: Result<String, String>, bytes: Result<Vec<u8>, String>)
    ensures
        pinned_bytes(digest, bytes) ==> digest_syntax(digest->Ok_0@),
{
    if pinned_bytes(digest, bytes) {
        lemma_is_hex(sha256_of(bytes->Ok_0@));
        let text = digest->Ok_0@;
        assert forall|i: int| 0 <= i < text.len() implies hex_value(
            #[trigger] text[i],
        ) is Some by {}
    }
}

proof fn lemma_seed(value: Result<String, String>)
    ensures
        writes_seed(value) <==> (value matches Ok(text) && (seed_of(text@) is Ok)),
        value matches Ok(text) ==> (seed_of(text@) matches Ok(seed) ==> hex_writes(
            trim(text@),
            seed,
        ) && seed.len() == 32),
{
    if let Ok(text) = value {
        let bare = trim(text@);
        lemma_trim(text@);
        lemma_hex_writes(bare);
        if seed_of(text@) is Ok {
            let seed = hex_bytes(bare)->0;
            assert(is_trimmed(text@, bare) && hex_writes(bare, seed));
        }
        if writes_seed(value) {
            let (other, seed) = choose|other: Seq<char>, seed: Seq<u8>|
                #![trigger is_trimmed(text@, other), hex_writes(other, seed)]
                is_trimmed(text@, other) && hex_writes(other, seed) && seed.len() == 32;
            lemma_trim_unique(text@, other);
        }
    }
}

/// A host is configured exactly where everything that it needs is there.
pub proof fn law_host_is_configured_whole(
    inputs: ResidentInputs,
    config: Result<ResidentConfig, HostError>,
)
    requires
        call_ensures(resident_config, (inputs,), config),
    ensures
        config is Ok <==> configurable(inputs),
{
    if let Ok(address) = inputs.bind {
        lemma_on_this_machine(address);
    }
    lemma_bound("KOTOTAMA_FUEL"@, inputs.fuel);
    lemma_bound("KOTOTAMA_MEMORY_PAGES"@, inputs.memory_pages);
    lemma_expected(inputs.expected_result);
    lemma_pinned_text(inputs.component_sha256, inputs.component_bytes);
    lemma_pinned_text(inputs.capability_sha256, inputs.capability_bytes);
    lemma_seed(inputs.seed_text);
}

/// A host is what the environment says: each part of its configuration is the one that
/// was read for it.
pub proof fn law_host_is_as_configured(inputs: ResidentInputs, config: ResidentConfig)
    requires
        call_ensures(resident_config, (inputs,), Ok(config)),
    ensures
        inputs.bind == Ok::<BindAddress, String>(config.bind),
        on_this_machine(config.bind),
        inputs.component_path == Ok::<HostPath, String>(config.component),
        config.component.absolute,
        inputs.component_sha256 matches Ok(text) && text@ == config.component_sha256@,
        inputs.component_bytes matches Ok(bytes) && is_hex(
            config.component_sha256@,
            sha256_of(bytes@),
        ),
        inputs.receipt_log == Ok::<HostPath, String>(config.receipt_log),
        config.receipt_log.absolute,
        inputs.component_cid matches Ok(text) && text@ == config.component_cid@,
        inputs.node matches Ok(text) && text@ == config.node@,
        inputs.expected_result matches Ok(text) && writes_signed(
            text@,
            config.expected_result as int,
        ),
        inputs.fuel matches Ok(text) && writes(unsigned_part(text@), 10, config.fuel as int),
        inputs.memory_pages matches Ok(text) && writes(
            unsigned_part(text@),
            10,
            config.memory_pages as int,
        ),
        config.fuel > 0,
        config.memory_pages > 0,
        config.startup_mode == if inputs.startup_mode matches Ok(text) && text@
            == "compile-only"@ {
            StartupMode::CompileOnly
        } else {
            StartupMode::ExecuteMain
        },
        inputs.seed_text matches Ok(text) && hex_writes(trim(text@), config.signing_key@),
{
    if let Ok(address) = inputs.bind {
        lemma_on_this_machine(address);
    }
    lemma_bound("KOTOTAMA_FUEL"@, inputs.fuel);
    lemma_bound("KOTOTAMA_MEMORY_PAGES"@, inputs.memory_pages);
    lemma_expected(inputs.expected_result);
    lemma_seed(inputs.seed_text);
    if let Ok(bytes) = inputs.component_bytes {
        lemma_is_hex(sha256_of(bytes@));
    }
    reveal_strlit("compile-only");
    reveal_strlit("execute-main");
    assert("compile-only"@[0] == 'c' && "execute-main"@[0] == 'e');
}

/// A host grants what its pinned file says, and nothing where no file is named.
pub proof fn law_host_grants_what_is_pinned(inputs: ResidentInputs, config: ResidentConfig)
    requires
        call_ensures(resident_config, (inputs,), Ok(config)),
    ensures
        if inputs.capability_path matches Ok(path) && path.text@.len() > 0 {
            &&& config.capabilities matches Some(held) && usable(*held) && inputs.capability_config
                == Ok::<ResidentCapabilityConfig, String>(*held)
            &&& config.capability_config_sha256 matches Some(digest) && (
            inputs.capability_sha256 matches Ok(text) && text@ == digest@) && (
            inputs.capability_bytes matches Ok(bytes) && is_hex(digest@, sha256_of(bytes@)))
        } else {
            config.capabilities is None && config.capability_config_sha256 is None
        },
{
    if let Ok(bytes) = inputs.capability_bytes {
        lemma_is_hex(sha256_of(bytes@));
    }
}

/// Where a host cannot be configured, the first reason is told, in the order in which
/// its parts are read.
pub proof fn law_first_reason_is_told(
    inputs: ResidentInputs,
    error: HostError,
    bind: Result<BindAddress, HostError>,
    mode: Result<StartupMode, HostError>,
    capabilities: Result<Option<(ResidentCapabilityConfig, String)>, HostError>,
    expected: Result<i64, HostError>,
)
    requires
        call_ensures(resident_config, (inputs,), Err(error)),
        call_ensures(admit_bind, (inputs.bind,), bind),
        call_ensures(startup_mode, (&inputs.startup_mode,), mode),
        call_ensures(
            read_capability_config,
            (
                &inputs.capability_path,
                inputs.capability_is_file,
                &inputs.capability_sha256,
                &inputs.capability_bytes,
                inputs.capability_config,
            ),
            capabilities,
        ),
        call_ensures(expected_result, (&inputs.expected_result,), expected),
    ensures
        bind matches Err(first) ==> error@ == first@,
        bind is Ok ==> {
            let component = named_absolute(inputs.component_path) && inputs.component_is_file
                && pinned_bytes(inputs.component_sha256, inputs.component_bytes);
            let receipts = named_absolute(inputs.seed_path) && named_absolute(inputs.receipt_log);
            &&& component && receipts ==> (capabilities matches Err(first) ==> error@ == first@)
            &&& component && receipts && capabilities is Ok ==> (mode matches Err(first) ==> error@
                == first@)
            &&& component && receipts && capabilities is Ok && mode is Ok && filled(
                inputs.component_cid,
            ) ==> (expected matches Err(first) ==> error@ == first@)
            &&& component && !receipts ==> match inputs.seed_path {
                Err(cause) => error.kind == ErrorKind::VariableRequired && error.subject@
                    == "KOTOTAMA_RECEIPT_SEED_PATH"@ && error@.cause == Some(cause@),
                Ok(seed) => if seed.text@.len() == 0 {
                    error.kind == ErrorKind::VariableEmpty && error.subject@
                        == "KOTOTAMA_RECEIPT_SEED_PATH"@
                } else {
                    match inputs.receipt_log {
                        Err(cause) => error.kind == ErrorKind::VariableRequired && error.subject@
                            == "KOTOTAMA_RECEIPT_LOG"@ && error@.cause == Some(cause@),
                        Ok(log) => if log.text@.len() == 0 {
                            error.kind == ErrorKind::VariableEmpty && error.subject@
                                == "KOTOTAMA_RECEIPT_LOG"@
                        } else {
                            error.kind == ErrorKind::ReceiptPaths
                        },
                    }
                },
            }
            &&& !component ==> match inputs.component_path {
                Err(cause) => error.kind == ErrorKind::VariableRequired && error.subject@
                    == "KOTOTAMA_COMPONENT_PATH"@ && error@.cause == Some(cause@),
                Ok(path) => if path.text@.len() == 0 {
                    error.kind == ErrorKind::VariableEmpty && error.subject@
                        == "KOTOTAMA_COMPONENT_PATH"@
                } else {
                    unpinned(
                        error@,
                        path,
                        inputs.component_is_file,
                        "KOTOTAMA_COMPONENT_SHA256"@,
                        inputs.component_sha256,
                        inputs.component_bytes,
                        (PinErrors {
                            path: ErrorKind::ComponentPath,
                            syntax: ErrorKind::ComponentDigestSyntax,
                            mismatch: ErrorKind::ComponentDigestMismatch,
                        }),
                    )
                },
            }
        },
{
    lemma_pinned_text(inputs.component_sha256, inputs.component_bytes);
    if let Ok(text) = inputs.component_sha256 {
        lemma_digest_syntax(text@);
    }
    if let Ok(bytes) = inputs.component_bytes {
        lemma_is_hex(sha256_of(bytes@));
    }
    lemma_expected(inputs.expected_result);
}

/// The first reason among those that are read last, in the order in which they are.
pub proof fn law_next_reason_is_told(
    inputs: ResidentInputs,
    error: HostError,
    cid: Result<String, HostError>,
    expected: Result<i64, HostError>,
    fuel: Result<u64, HostError>,
    pages: Result<u64, HostError>,
    node: Result<String, HostError>,
)
    requires
        call_ensures(resident_config, (inputs,), Err(error)),
        grounded(inputs),
        call_ensures(required_env, ("KOTOTAMA_COMPONENT_CID", &inputs.component_cid), cid),
        call_ensures(expected_result, (&inputs.expected_result,), expected),
        call_ensures(parse_positive_env, ("KOTOTAMA_FUEL", &inputs.fuel), fuel),
        call_ensures(parse_positive_env, ("KOTOTAMA_MEMORY_PAGES", &inputs.memory_pages), pages),
        call_ensures(required_env, ("KOTOTAMA_NODE", &inputs.node), node),
    ensures
        match (cid, expected, fuel, pages, node) {
            (Err(first), _, _, _, _) => error@ == first@,
            (Ok(_), Err(first), _, _, _) => error@ == first@,
            (Ok(_), Ok(_), Err(first), _, _) => error@ == first@,
            (Ok(_), Ok(_), Ok(_), Err(first), _) => error@ == first@,
            (Ok(_), Ok(_), Ok(_), Ok(_), Err(first)) => error@ == first@,
            _ => match inputs.seed_text {
                Err(cause) => error.kind == ErrorKind::SeedUnreadable && error@.cause == Some(
                    cause@,
                ) && (inputs.seed_path matches Ok(path) && error.subject@ == path.text@),
                Ok(_) => error.kind == ErrorKind::SeedNotHex || error.kind
                    == ErrorKind::SeedLength,
            },
        },
{
    if let Ok(address) = inputs.bind {
        lemma_on_this_machine(address);
    }
    lemma_pinned_text(inputs.component_sha256, inputs.component_bytes);
    lemma_pinned_text(inputs.capability_sha256, inputs.capability_bytes);
}

/// A digest is compared with the one that the variable names, letter for letter; what
/// keeps it from being compared is told.
pub proof fn law_digest_is_compared(
    path: &HostPath,
    is_file: bool,
    variable: &str,
    digest: &Result<String, String>,
    actual: &Result<String, String>,
    errors: PinErrors,
    checked: Result<String, HostError>,
)
    requires
        call_ensures(check_digest, (path, is_file, variable, digest, actual, errors), checked),
    ensures
        checked matches Ok(pinned) ==> path.absolute && is_file && (*digest matches Ok(named)
            && named@ == pinned@) && (*actual matches Ok(held) && held@ == pinned@)
            && pinned@.len() == 64,
        checked matches Err(error) ==> if !path.absolute || !is_file {
            error.kind == errors.path
        } else {
            match *digest {
                Err(cause) => error.kind == ErrorKind::VariableRequired && error.subject@
                    == variable@ && error@.cause == Some(cause@),
                Ok(named) => if named@.len() == 0 {
                    error.kind == ErrorKind::VariableEmpty && error.subject@ == variable@
                } else if !names_a_digest(named@) {
                    error.kind == errors.syntax
                } else {
                    match *actual {
                        Err(cause) => error.kind == ErrorKind::ComponentUnreadable
                            && error.subject@ == path.text@ && error@.cause == Some(cause@),
                        Ok(held) => held@ != named@ && error.kind == errors.mismatch,
                    }
                },
            }
        },
{
    if let Ok(named) = digest {
        lemma_digest_syntax(named@);
    }
}

} // verus!
