//! The configuration of the resident host. It comes from variables of the
//! environment and from the files that they name; nothing is taken from
//! elsewhere, and every digest that a variable pins is checked.

use std::sync::Arc;

use vstd::prelude::*;

use crate::effects::{
    HttpCapability, LlmCapability, ResidentCapabilityConfig, StorageCapability,
};
use crate::endpoint::{endpoint_of, loopback_endpoint};
use crate::error::{about, because, plain, told, ErrorKind, Failure, HostError};
use crate::number::{
    signed, signed_error, signed_of, unsigned, unsigned_error, unsigned_of,
};
use crate::seal::{
    all_hex, hex_text, hex_value, read_signing_key, seed_of, sha256_hex, sha256_of, SigningKey,
};
use crate::storage::HostPath;
use crate::text::{chars_of, same};

verus! {

/// A text that was read, or what was said of why it could not be.
pub open spec fn text_view(value: Result<String, String>) -> Result<Seq<char>, Seq<char>> {
    match value {
        Ok(text) => Ok(text@),
        Err(cause) => Err(cause@),
    }
}

/// The text of a variable that must be there.
pub open spec fn required(name: Seq<char>, value: Result<Seq<char>, Seq<char>>) -> Result<
    Seq<char>,
    Failure,
> {
    match value {
        Err(cause) => Err(because(about(ErrorKind::VariableRequired, name), cause)),
        Ok(text) => if text.len() == 0 {
            Err(about(ErrorKind::VariableEmpty, name))
        } else {
            Ok(text)
        },
    }
}

/// Takes a variable that must be there.
pub fn required_env(name: &str, value: &Result<String, String>) -> (text: Result<
    String,
    HostError,
>)
    ensures
        told(text) == required(name@, text_view(*value)),
{
    match value {
        Err(cause) => Err(
            HostError::about(ErrorKind::VariableRequired, name).because(cause.as_str()),
        ),
        Ok(text) => if text.as_str().is_empty() {
            Err(HostError::about(ErrorKind::VariableEmpty, name))
        } else {
            Ok(text.clone())
        },
    }
}

/// The positive number that a variable writes.
pub open spec fn positive(name: Seq<char>, value: Result<Seq<char>, Seq<char>>) -> Result<
    u64,
    Failure,
> {
    match required(name, value) {
        Err(failure) => Err(failure),
        Ok(text) => match unsigned(text, 10, u64::MAX as nat) {
            None => Err(
                because(
                    about(ErrorKind::VariableNotInteger, name),
                    unsigned_error(text, 10, u64::MAX as nat).wording(),
                ),
            ),
            Some(number) => if number == 0 {
                Err(about(ErrorKind::VariableNotPositive, name))
            } else {
                Ok(number as u64)
            },
        },
    }
}

/// Takes a variable that must write a positive number.
pub fn parse_positive_env(name: &str, value: &Result<String, String>) -> (number: Result<
    u64,
    HostError,
>)
    ensures
        told(number) == positive(name@, text_view(*value)),
{
    let text: String = match required_env(name, value) {
        Err(error) => {
            return Err(error);
        },
        Ok(text) => text,
    };
    let chars: Vec<char> = chars_of(text.as_str());
    match unsigned_of(chars.as_slice(), 10, u64::MAX) {
        Err(cause) => Err(
            HostError::about(ErrorKind::VariableNotInteger, name).because(cause.text()),
        ),
        Ok(number) => if number == 0 {
            Err(HostError::about(ErrorKind::VariableNotPositive, name))
        } else {
            Ok(number)
        },
    }
}

/// An address that a host can listen on.
#[derive(Clone, Copy, Debug, PartialEq, Eq)]
pub enum BindAddress {
    V4 { octets: [u8; 4], port: u16 },
    V6 { segments: [u16; 8], port: u16 },
}

impl BindAddress {
    /// Whether only the machine itself can reach the address: `127.0.0.0/8`, or
    /// `::1`.
    pub open spec fn loopback(self) -> bool {
        match self {
            BindAddress::V4 { octets, .. } => octets@[0] == 127,
            BindAddress::V6 { segments, .. } => segments@ == seq![
                0u16,
                0u16,
                0u16,
                0u16,
                0u16,
                0u16,
                0u16,
                1u16,
            ],
        }
    }

    /// Tells whether only the machine itself can reach the address.
    pub fn is_loopback(&self) -> (yes: bool)
        ensures
            yes == self.loopback(),
    {
        match self {
            BindAddress::V4 { octets, .. } => octets[0] == 127,
            BindAddress::V6 { segments, .. } => {
                let yes: bool = segments[0] == 0 && segments[1] == 0 && segments[2] == 0
                    && segments[3] == 0 && segments[4] == 0 && segments[5] == 0 && segments[6] == 0
                    && segments[7] == 1;
                proof {
                    let one = seq![0u16, 0u16, 0u16, 0u16, 0u16, 0u16, 0u16, 1u16];
                    if yes {
                        assert(segments@ =~= one);
                    } else {
                        assert(one[0] == 0 && one[1] == 0 && one[2] == 0 && one[3] == 0);
                        assert(one[4] == 0 && one[5] == 0 && one[6] == 0 && one[7] == 1);
                    }
                }
                yes
            },
        }
    }
}

/// The text of the address that a host listens on where a variable names one or
/// none.
pub fn bind_text(value: &Result<String, String>) -> (text: String)
    ensures
        text@ == match *value {
            Ok(text) => text@,
            Err(_) => "127.0.0.1:18901"@,
        },
{
    match value {
        Ok(text) => text.clone(),
        Err(_) => "127.0.0.1:18901".to_owned(),
    }
}

/// The address that a host may listen on, where the text of one was read.
pub open spec fn bind_checked(bind: Result<BindAddress, String>) -> Result<
    BindAddress,
    Failure,
> {
    match bind {
        Err(cause) => Err(because(plain(ErrorKind::BindSyntax), cause@)),
        Ok(address) => if !address.loopback() {
            Err(plain(ErrorKind::BindNotLoopback))
        } else {
            Ok(address)
        },
    }
}

/// Admits the address that a host listens on.
pub fn admit_bind(bind: Result<BindAddress, String>) -> (admitted: Result<
    BindAddress,
    HostError,
>)
    ensures
        match admitted {
            Ok(address) => bind_checked(bind) == Ok::<BindAddress, Failure>(address),
            Err(error) => bind_checked(bind) == Err::<BindAddress, Failure>(error@),
        },
{
    match bind {
        Err(cause) => Err(HostError::plain(ErrorKind::BindSyntax).because(cause.as_str())),
        Ok(address) => if !address.is_loopback() {
            Err(HostError::plain(ErrorKind::BindNotLoopback))
        } else {
            Ok(address)
        },
    }
}

/// Whether a text writes a SHA-256 digest: 64 hexadecimal digits.
pub open spec fn digest_syntax(text: Seq<char>) -> bool {
    text.len() == 64 && all_hex(text)
}

/// Tells whether a text writes a SHA-256 digest.
pub fn is_digest(text: &str) -> (yes: bool)
    ensures
        yes == digest_syntax(text@),
{
    let chars: Vec<char> = chars_of(text);
    if chars.len() != 64 {
        return false;
    }
    let mut i: usize = 0;
    while i < chars.len()
        invariant
            i <= chars@.len(),
            chars@ == text@,
            forall|j: int| 0 <= j < i ==> hex_value(#[trigger] chars@[j]) is Some,
        decreases chars.len() - i,
    {
        let c: char = chars[i];
        if !(('0' <= c && c <= '9') || ('a' <= c && c <= 'f') || ('A' <= c && c <= 'F')) {
            assert(hex_value(text@[i as int]) is None);
            return false;
        }
        i += 1;
    }
    true
}

/// What is said of a pinned file that is refused.
#[derive(Clone, Copy, Debug, PartialEq, Eq, Structural)]
pub struct PinErrors {
    pub path: ErrorKind,
    pub syntax: ErrorKind,
    pub mismatch: ErrorKind,
}

/// The digest that a file is pinned to, where the digest of the file is `actual`,
/// or the file could not be read for the reason that stands there.
pub open spec fn pinned_to(
    path: HostPath,
    is_file: bool,
    variable: Seq<char>,
    digest: Result<Seq<char>, Seq<char>>,
    actual: Result<Seq<char>, Seq<char>>,
    errors: PinErrors,
) -> Result<Seq<char>, Failure> {
    if !path.absolute || !is_file {
        Err(plain(errors.path))
    } else {
        match required(variable, digest) {
            Err(failure) => Err(failure),
            Ok(expected) => if !digest_syntax(expected) {
                Err(plain(errors.syntax))
            } else {
                match actual {
                    Err(cause) => Err(
                        because(about(ErrorKind::ComponentUnreadable, path.text@), cause),
                    ),
                    Ok(actual) => if actual != expected {
                        Err(plain(errors.mismatch))
                    } else {
                        Ok(expected)
                    },
                }
            },
        }
    }
}

/// The digest that a file is pinned to, where its bytes have it.
pub open spec fn pinned(
    path: HostPath,
    is_file: bool,
    variable: Seq<char>,
    digest: Result<Seq<char>, Seq<char>>,
    bytes: Result<Seq<u8>, Seq<char>>,
    errors: PinErrors,
) -> Result<Seq<char>, Failure> {
    let actual = match bytes {
        Ok(bytes) => Ok(hex_text(sha256_of(bytes))),
        Err(cause) => Err(cause),
    };
    pinned_to(path, is_file, variable, digest, actual, errors)
}

/// Bytes that were read, or what was said of why they could not be.
pub open spec fn bytes_view(bytes: Result<Vec<u8>, String>) -> Result<Seq<u8>, Seq<char>> {
    match bytes {
        Ok(bytes) => Ok(bytes@),
        Err(cause) => Err(cause@),
    }
}

/// Checks the digest of a file against the one that a variable pins it to.
pub fn check_digest(
    path: &HostPath,
    is_file: bool,
    variable: &str,
    digest: &Result<String, String>,
    actual: &Result<String, String>,
    errors: PinErrors,
) -> (checked: Result<String, HostError>)
    ensures
        told(checked) == pinned_to(
            *path,
            is_file,
            variable@,
            text_view(*digest),
            text_view(*actual),
            errors,
        ),
{
    if !path.absolute || !is_file {
        return Err(HostError::plain(errors.path));
    }
    let expected: String = match required_env(variable, digest) {
        Err(error) => {
            return Err(error);
        },
        Ok(text) => text,
    };
    if !is_digest(expected.as_str()) {
        return Err(HostError::plain(errors.syntax));
    }
    match actual {
        Err(cause) => Err(
            HostError::about(ErrorKind::ComponentUnreadable, path.text.as_str()).because(
                cause.as_str(),
            ),
        ),
        Ok(actual) => if !same(actual.as_str(), expected.as_str()) {
            Err(HostError::plain(errors.mismatch))
        } else {
            Ok(expected)
        },
    }
}

/// Checks the bytes of a file against the digest that a variable pins it to.
pub fn check_pin(
    path: &HostPath,
    is_file: bool,
    variable: &str,
    digest: &Result<String, String>,
    bytes: &Result<Vec<u8>, String>,
    errors: PinErrors,
) -> (checked: Result<String, HostError>)
    ensures
        told(checked) == pinned(
            *path,
            is_file,
            variable@,
            text_view(*digest),
            bytes_view(*bytes),
            errors,
        ),
{
    let actual: Result<String, String> = match bytes {
        Ok(bytes) => Ok(sha256_hex(bytes.as_slice())),
        Err(cause) => Err(cause.clone()),
    };
    check_digest(path, is_file, variable, digest, &actual, errors)
}

/// Whether every part of an HTTP capability is there and bounded.
pub open spec fn http_checked(http: HttpCapability) -> Result<(), Failure> {
    match endpoint_of(http.endpoint@) {
        Err(failure) => Err(failure),
        Ok(_) => if http.audit_id@.len() == 0 || http.max_response_bytes == 0 || http.deadline_ms
            == 0 {
            Err(plain(ErrorKind::HttpCapabilityUnbounded))
        } else {
            Ok(())
        },
    }
}

/// Whether every part of a storage capability is there and bounded.
pub open spec fn storage_checked(storage: StorageCapability) -> Result<(), Failure> {
    if !storage.log.absolute || storage.log.text@.len() == 0 || storage.audit_id@.len() == 0
        || storage.max_write_bytes == 0 || storage.deadline_ms == 0 {
        Err(plain(ErrorKind::StorageCapabilityUnbounded))
    } else {
        Ok(())
    }
}

/// Whether every part of an LLM capability is there and bounded.
pub open spec fn llm_checked(llm: LlmCapability) -> Result<(), Failure> {
    match endpoint_of(llm.endpoint@) {
        Err(failure) => Err(failure),
        Ok(_) => if llm.audit_id@.len() == 0 || llm.model@.len() == 0 || llm.prompt@.len() == 0
            || llm.max_request_bytes == 0 || llm.max_response_bytes == 0 || llm.deadline_ms == 0 {
            Err(plain(ErrorKind::LlmCapabilityUnbounded))
        } else {
            Ok(())
        },
    }
}

/// Whether a configuration may be used: it has the format, it grants something,
/// all that it grants is bounded, and it grants no LLM without HTTP.
pub open spec fn capabilities_checked(config: ResidentCapabilityConfig) -> Result<(), Failure> {
    let http = match config.http {
        Some(http) => http_checked(http),
        None => Ok(()),
    };
    let storage = match config.storage {
        Some(storage) => storage_checked(storage),
        None => Ok(()),
    };
    let llm = match config.llm {
        Some(llm) => llm_checked(llm),
        None => Ok(()),
    };
    if config.format@ != "kototama.resident-capabilities/v1"@ {
        Err(plain(ErrorKind::CapabilityConfigFormat))
    } else if config.http is None && config.storage is None && config.llm is None {
        Err(plain(ErrorKind::CapabilityConfigEmpty))
    } else if http is Err {
        http
    } else if storage is Err {
        storage
    } else if llm is Err {
        llm
    } else if config.llm is Some && config.http is None {
        Err(plain(ErrorKind::LlmWithoutHttp))
    } else {
        Ok(())
    }
}

/// Checks a configuration of capabilities.
pub fn check_capabilities(config: &ResidentCapabilityConfig) -> (checked: Result<(), HostError>)
    ensures
        told(checked) == capabilities_checked(*config),
{
    if !same(config.format.as_str(), "kototama.resident-capabilities/v1") {
        return Err(HostError::plain(ErrorKind::CapabilityConfigFormat));
    }
    if config.http.is_none() && config.storage.is_none() && config.llm.is_none() {
        return Err(HostError::plain(ErrorKind::CapabilityConfigEmpty));
    }
    match &config.http {
        Some(http) => {
            match loopback_endpoint(http.endpoint.as_str()) {
                Err(error) => {
                    return Err(error);
                },
                Ok(_) => {},
            }
            if http.audit_id.as_str().is_empty() || http.max_response_bytes == 0
                || http.deadline_ms == 0 {
                return Err(HostError::plain(ErrorKind::HttpCapabilityUnbounded));
            }
        },
        None => {},
    }
    match &config.storage {
        Some(storage) => {
            if !storage.log.absolute || storage.log.text.as_str().is_empty()
                || storage.audit_id.as_str().is_empty() || storage.max_write_bytes == 0
                || storage.deadline_ms == 0 {
                return Err(HostError::plain(ErrorKind::StorageCapabilityUnbounded));
            }
        },
        None => {},
    }
    match &config.llm {
        Some(llm) => {
            match loopback_endpoint(llm.endpoint.as_str()) {
                Err(error) => {
                    return Err(error);
                },
                Ok(_) => {},
            }
            if llm.audit_id.as_str().is_empty() || llm.model.as_str().is_empty()
                || llm.prompt.as_str().is_empty() || llm.max_request_bytes == 0
                || llm.max_response_bytes == 0 || llm.deadline_ms == 0 {
                return Err(HostError::plain(ErrorKind::LlmCapabilityUnbounded));
            }
        },
        None => {},
    }
    if config.llm.is_some() && config.http.is_none() {
        return Err(HostError::plain(ErrorKind::LlmWithoutHttp));
    }
    Ok(())
}

/// What a host does with its component before it is ready.
#[derive(Clone, Copy, Debug, PartialEq, Eq, Structural)]
pub enum StartupMode {
    /// Runs its main export once.
    ExecuteMain,
    /// Compiles it.
    CompileOnly,
}

impl StartupMode {
    /// What the mode is called.
    pub open spec fn name(self) -> Seq<char> {
        match self {
            StartupMode::ExecuteMain => "execute-main"@,
            StartupMode::CompileOnly => "compile-only"@,
        }
    }

    /// What the mode is called.
    pub fn as_text(&self) -> (text: &'static str)
        ensures
            text@ == self.name(),
    {
        match self {
            StartupMode::ExecuteMain => "execute-main",
            StartupMode::CompileOnly => "compile-only",
        }
    }
}

/// The mode that a variable names; the main export is run where it names none.
pub open spec fn startup_checked(value: Result<Seq<char>, Seq<char>>) -> Result<
    StartupMode,
    Failure,
> {
    match value {
        Err(_) => Ok(StartupMode::ExecuteMain),
        Ok(text) => if text == "execute-main"@ {
            Ok(StartupMode::ExecuteMain)
        } else if text == "compile-only"@ {
            Ok(StartupMode::CompileOnly)
        } else {
            Err(plain(ErrorKind::StartupModeUnknown))
        },
    }
}

/// Reads the mode that a variable names.
pub fn startup_mode(value: &Result<String, String>) -> (mode: Result<StartupMode, HostError>)
    ensures
        match mode {
            Ok(mode) => startup_checked(text_view(*value)) == Ok::<StartupMode, Failure>(mode),
            Err(error) => startup_checked(text_view(*value)) == Err::<StartupMode, Failure>(error@),
        },
{
    match value {
        Err(_) => Ok(StartupMode::ExecuteMain),
        Ok(text) => if same(text.as_str(), "execute-main") {
            Ok(StartupMode::ExecuteMain)
        } else if same(text.as_str(), "compile-only") {
            Ok(StartupMode::CompileOnly)
        } else {
            Err(HostError::plain(ErrorKind::StartupModeUnknown))
        },
    }
}

/// The integer that a variable writes.
pub open spec fn expected_checked(value: Result<Seq<char>, Seq<char>>) -> Result<i64, Failure> {
    match required("KOTOTAMA_EXPECTED_RESULT"@, value) {
        Err(failure) => Err(failure),
        Ok(text) => match signed(text) {
            None => Err(
                because(plain(ErrorKind::ExpectedResultSyntax), signed_error(text).wording()),
            ),
            Some(number) => Ok(number as i64),
        },
    }
}

/// Reads the result that a run of the component must have.
pub fn expected_result(value: &Result<String, String>) -> (number: Result<i64, HostError>)
    ensures
        told(number) == expected_checked(text_view(*value)),
{
    let text: String = match required_env("KOTOTAMA_EXPECTED_RESULT", value) {
        Err(error) => {
            return Err(error);
        },
        Ok(text) => text,
    };
    let chars: Vec<char> = chars_of(text.as_str());
    match signed_of(chars.as_slice()) {
        Err(cause) => Err(
            HostError::plain(ErrorKind::ExpectedResultSyntax).because(cause.text()),
        ),
        Ok(number) => Ok(number),
    }
}

/// The path that a variable must name.
pub open spec fn required_path(name: Seq<char>, path: Result<HostPath, String>) -> Result<
    HostPath,
    Failure,
> {
    match path {
        Err(cause) => Err(because(about(ErrorKind::VariableRequired, name), cause@)),
        Ok(path) => if path.text@.len() == 0 {
            Err(about(ErrorKind::VariableEmpty, name))
        } else {
            Ok(path)
        },
    }
}

/// Takes a path that a variable must name.
pub fn take_path(name: &str, path: Result<HostPath, String>) -> (taken: Result<
    HostPath,
    HostError,
>)
    ensures
        match taken {
            Ok(taken) => required_path(name@, path) == Ok::<HostPath, Failure>(taken),
            Err(error) => required_path(name@, path) == Err::<HostPath, Failure>(error@),
        },
{
    match path {
        Err(cause) => Err(
            HostError::about(ErrorKind::VariableRequired, name).because(cause.as_str()),
        ),
        Ok(path) => if path.text.as_str().is_empty() {
            Err(HostError::about(ErrorKind::VariableEmpty, name))
        } else {
            Ok(path)
        },
    }
}

/// What the environment and the files that it names hold. Where a variable or a
/// file could not be read, this is what was said of why.
pub struct ResidentInputs {
    /// The address that the text of [`bind_text`] writes, where it writes one.
    pub bind: Result<BindAddress, String>,
    pub component_path: Result<HostPath, String>,
    pub component_is_file: bool,
    pub component_bytes: Result<Vec<u8>, String>,
    pub component_sha256: Result<String, String>,
    pub seed_path: Result<HostPath, String>,
    pub seed_text: Result<String, String>,
    pub receipt_log: Result<HostPath, String>,
    pub capability_path: Result<HostPath, String>,
    pub capability_is_file: bool,
    pub capability_bytes: Result<Vec<u8>, String>,
    pub capability_sha256: Result<String, String>,
    /// The configuration that the bytes of its file write, where they write one.
    pub capability_config: Result<ResidentCapabilityConfig, String>,
    pub startup_mode: Result<String, String>,
    pub component_cid: Result<String, String>,
    pub expected_result: Result<String, String>,
    pub fuel: Result<String, String>,
    pub memory_pages: Result<String, String>,
    pub node: Result<String, String>,
}

/// The configuration of a resident host.
pub struct ResidentConfig {
    pub bind: BindAddress,
    pub component: HostPath,
    pub component_cid: String,
    pub component_sha256: String,
    pub expected_result: i64,
    pub fuel: u64,
    pub memory_pages: u64,
    pub node: String,
    pub receipt_log: HostPath,
    pub signing_key: SigningKey,
    pub capabilities: Option<Arc<ResidentCapabilityConfig>>,
    pub capability_config_sha256: Option<String>,
    pub startup_mode: StartupMode,
}

/// What is said of a component that is not what it is pinned to.
pub open spec fn component_errors() -> PinErrors {
    PinErrors {
        path: ErrorKind::ComponentPath,
        syntax: ErrorKind::ComponentDigestSyntax,
        mismatch: ErrorKind::ComponentDigestMismatch,
    }
}

/// What is said of a capability configuration that is not what it is pinned to.
pub open spec fn capability_errors() -> PinErrors {
    PinErrors {
        path: ErrorKind::CapabilityPath,
        syntax: ErrorKind::CapabilityDigestSyntax,
        mismatch: ErrorKind::CapabilityDigestMismatch,
    }
}

/// The capabilities that a pinned file grants, and its digest; none where no file
/// is named.
pub open spec fn granted(
    path: Result<HostPath, String>,
    is_file: bool,
    digest: Result<Seq<char>, Seq<char>>,
    bytes: Result<Seq<u8>, Seq<char>>,
    config: Result<ResidentCapabilityConfig, String>,
) -> Result<Option<(ResidentCapabilityConfig, Seq<char>)>, Failure> {
    match path {
        Err(_) => Ok(None),
        Ok(path) => if path.text@.len() == 0 {
            Ok(None)
        } else {
            match pinned(
                path,
                is_file,
                "KOTOTAMA_CAPABILITY_CONFIG_SHA256"@,
                digest,
                bytes,
                capability_errors(),
            ) {
                Err(failure) => Err(failure),
                Ok(digest) => match config {
                    Err(cause) => Err(because(plain(ErrorKind::CapabilityConfigInvalid), cause@)),
                    Ok(config) => match capabilities_checked(config) {
                        Err(failure) => Err(failure),
                        Ok(_) => Ok(Some((config, digest))),
                    },
                },
            }
        },
    }
}

/// The seed that the file at `path` writes, where it could be read.
pub open spec fn key_checked(path: HostPath, text: Result<Seq<char>, Seq<char>>) -> Result<
    Seq<u8>,
    Failure,
> {
    match text {
        Err(cause) => Err(because(about(ErrorKind::SeedUnreadable, path.text@), cause)),
        Ok(text) => seed_of(text),
    }
}

impl ResidentInputs {
    /// The path of the component and the digest that it is pinned to.
    pub open spec fn component(self) -> Result<(HostPath, Seq<char>), Failure> {
        match required_path("KOTOTAMA_COMPONENT_PATH"@, self.component_path) {
            Err(failure) => Err(failure),
            Ok(path) => match pinned(
                path,
                self.component_is_file,
                "KOTOTAMA_COMPONENT_SHA256"@,
                text_view(self.component_sha256),
                bytes_view(self.component_bytes),
                component_errors(),
            ) {
                Err(failure) => Err(failure),
                Ok(digest) => Ok((path, digest)),
            },
        }
    }

    /// The paths of the key that signs receipts and of the log that takes them.
    pub open spec fn receipt_paths(self) -> Result<(HostPath, HostPath), Failure> {
        match (
            required_path("KOTOTAMA_RECEIPT_SEED_PATH"@, self.seed_path),
            required_path("KOTOTAMA_RECEIPT_LOG"@, self.receipt_log),
        ) {
            (Err(failure), _) => Err(failure),
            (Ok(_), Err(failure)) => Err(failure),
            (Ok(seed), Ok(log)) => if !seed.absolute || !log.absolute {
                Err(plain(ErrorKind::ReceiptPaths))
            } else {
                Ok((seed, log))
            },
        }
    }

    /// The capabilities that are granted and the digest that they are pinned to.
    pub open spec fn granted(self) -> Result<
        Option<(ResidentCapabilityConfig, Seq<char>)>,
        Failure,
    > {
        granted(
            self.capability_path,
            self.capability_is_file,
            text_view(self.capability_sha256),
            bytes_view(self.capability_bytes),
            self.capability_config,
        )
    }

    /// The seed of the key that signs receipts.
    pub open spec fn seed(self) -> Result<Seq<u8>, Failure> {
        match self.receipt_paths() {
            Err(failure) => Err(failure),
            Ok((path, _)) => key_checked(path, text_view(self.seed_text)),
        }
    }

    /// Why no host can be configured, where none can. The first reason counts.
    pub open spec fn refusal(self) -> Option<Failure> {
        if bind_checked(self.bind) is Err {
            Some(bind_checked(self.bind)->Err_0)
        } else if self.component() is Err {
            Some(self.component()->Err_0)
        } else if self.receipt_paths() is Err {
            Some(self.receipt_paths()->Err_0)
        } else if self.granted() is Err {
            Some(self.granted()->Err_0)
        } else if startup_checked(text_view(self.startup_mode)) is Err {
            Some(startup_checked(text_view(self.startup_mode))->Err_0)
        } else if required("KOTOTAMA_COMPONENT_CID"@, text_view(self.component_cid)) is Err {
            Some(required("KOTOTAMA_COMPONENT_CID"@, text_view(self.component_cid))->Err_0)
        } else if expected_checked(text_view(self.expected_result)) is Err {
            Some(expected_checked(text_view(self.expected_result))->Err_0)
        } else if positive("KOTOTAMA_FUEL"@, text_view(self.fuel)) is Err {
            Some(positive("KOTOTAMA_FUEL"@, text_view(self.fuel))->Err_0)
        } else if positive("KOTOTAMA_MEMORY_PAGES"@, text_view(self.memory_pages)) is Err {
            Some(positive("KOTOTAMA_MEMORY_PAGES"@, text_view(self.memory_pages))->Err_0)
        } else if required("KOTOTAMA_NODE"@, text_view(self.node)) is Err {
            Some(required("KOTOTAMA_NODE"@, text_view(self.node))->Err_0)
        } else if self.seed() is Err {
            Some(self.seed()->Err_0)
        } else {
            None
        }
    }
}

impl ResidentConfig {
    /// Whether this is the host that the environment configures.
    pub open spec fn configured_by(self, inputs: ResidentInputs) -> bool {
        &&& bind_checked(inputs.bind) == Ok::<BindAddress, Failure>(self.bind)
        &&& inputs.component() == Ok::<(HostPath, Seq<char>), Failure>(
            (self.component, self.component_sha256@),
        )
        &&& inputs.receipt_paths() matches Ok((_, log)) && log == self.receipt_log
        &&& match inputs.granted() {
            Ok(Some((config, digest))) => {
                &&& self.capabilities matches Some(held) && *held == config
                &&& self.capability_config_sha256 matches Some(text) && text@ == digest
            },
            Ok(None) => self.capabilities is None && self.capability_config_sha256 is None,
            Err(_) => false,
        }
        &&& startup_checked(text_view(inputs.startup_mode)) == Ok::<StartupMode, Failure>(
            self.startup_mode,
        )
        &&& required("KOTOTAMA_COMPONENT_CID"@, text_view(inputs.component_cid)) == Ok::<
            Seq<char>,
            Failure,
        >(self.component_cid@)
        &&& expected_checked(text_view(inputs.expected_result)) == Ok::<i64, Failure>(
            self.expected_result,
        )
        &&& positive("KOTOTAMA_FUEL"@, text_view(inputs.fuel)) == Ok::<u64, Failure>(self.fuel)
        &&& positive("KOTOTAMA_MEMORY_PAGES"@, text_view(inputs.memory_pages)) == Ok::<
            u64,
            Failure,
        >(self.memory_pages)
        &&& required("KOTOTAMA_NODE"@, text_view(inputs.node)) == Ok::<Seq<char>, Failure>(
            self.node@,
        )
        &&& inputs.seed() == Ok::<Seq<u8>, Failure>(self.signing_key@)
    }

    /// What holds of every host that is configured: it listens where only the
    /// machine itself reaches it, its fuel and memory are bounded, its paths do
    /// not depend on the working directory, and all that it grants is bounded.
    pub open spec fn well_formed(self) -> bool {
        &&& self.bind.loopback()
        &&& self.fuel > 0
        &&& self.memory_pages > 0
        &&& self.component.absolute
        &&& self.receipt_log.absolute
        &&& digest_syntax(self.component_sha256@)
        &&& self.capabilities matches Some(config) ==> capabilities_checked(*config) is Ok
        &&& self.capabilities is Some <==> self.capability_config_sha256 is Some
    }
}

/// Reads the capabilities that a pinned file grants.
pub fn read_capability_config(
    path: &Result<HostPath, String>,
    is_file: bool,
    digest: &Result<String, String>,
    bytes: &Result<Vec<u8>, String>,
    config: Result<ResidentCapabilityConfig, String>,
) -> (read: Result<Option<(ResidentCapabilityConfig, String)>, HostError>)
    ensures
        granted(*path, is_file, text_view(*digest), bytes_view(*bytes), config) == match read {
            Ok(Some((config, digest))) => Ok::<
                Option<(ResidentCapabilityConfig, Seq<char>)>,
                Failure,
            >(Some((config, digest@))),
            Ok(None) => Ok(None),
            Err(error) => Err(error@),
        },
{
    let path: &HostPath = match path {
        Ok(path) => if path.text.as_str().is_empty() {
            return Ok(None);
        } else {
            path
        },
        Err(_) => {
            return Ok(None);
        },
    };
    let errors: PinErrors = PinErrors {
        path: ErrorKind::CapabilityPath,
        syntax: ErrorKind::CapabilityDigestSyntax,
        mismatch: ErrorKind::CapabilityDigestMismatch,
    };
    let digest: String = match check_pin(
        path,
        is_file,
        "KOTOTAMA_CAPABILITY_CONFIG_SHA256",
        digest,
        bytes,
        errors,
    ) {
        Err(error) => {
            return Err(error);
        },
        Ok(digest) => digest,
    };
    match config {
        Err(cause) => Err(
            HostError::plain(ErrorKind::CapabilityConfigInvalid).because(cause.as_str()),
        ),
        Ok(config) => match check_capabilities(&config) {
            Err(error) => Err(error),
            Ok(_) => Ok(Some((config, digest))),
        },
    }
}

/// Configures a resident host. The bytes of its component are those that the
/// environment pins.
pub fn resident_config(inputs: ResidentInputs) -> (config: Result<ResidentConfig, HostError>)
    ensures
        match config {
            Ok(config) => {
                &&& inputs.refusal() is None
                &&& config.configured_by(inputs)
                &&& config.well_formed()
                &&& inputs.component_bytes matches Ok(bytes) && config.component_sha256@
                    == hex_text(sha256_of(bytes@))
            },
            Err(error) => inputs.refusal() == Some(error@),
        },
{
    let bind: BindAddress = match admit_bind(inputs.bind) {
        Err(error) => {
            return Err(error);
        },
        Ok(bind) => bind,
    };
    let component: HostPath = match take_path("KOTOTAMA_COMPONENT_PATH", inputs.component_path) {
        Err(error) => {
            return Err(error);
        },
        Ok(path) => path,
    };
    let errors: PinErrors = PinErrors {
        path: ErrorKind::ComponentPath,
        syntax: ErrorKind::ComponentDigestSyntax,
        mismatch: ErrorKind::ComponentDigestMismatch,
    };
    let component_sha256: String = match check_pin(
        &component,
        inputs.component_is_file,
        "KOTOTAMA_COMPONENT_SHA256",
        &inputs.component_sha256,
        &inputs.component_bytes,
        errors,
    ) {
        Err(error) => {
            return Err(error);
        },
        Ok(digest) => digest,
    };
    let seed_path: HostPath = match take_path("KOTOTAMA_RECEIPT_SEED_PATH", inputs.seed_path) {
        Err(error) => {
            return Err(error);
        },
        Ok(path) => path,
    };
    let receipt_log: HostPath = match take_path("KOTOTAMA_RECEIPT_LOG", inputs.receipt_log) {
        Err(error) => {
            return Err(error);
        },
        Ok(path) => path,
    };
    if !seed_path.absolute || !receipt_log.absolute {
        return Err(HostError::plain(ErrorKind::ReceiptPaths));
    }
    let (capabilities, capability_config_sha256): (
        Option<Arc<ResidentCapabilityConfig>>,
        Option<String>,
    ) = match read_capability_config(
        &inputs.capability_path,
        inputs.capability_is_file,
        &inputs.capability_sha256,
        &inputs.capability_bytes,
        inputs.capability_config,
    ) {
        Err(error) => {
            return Err(error);
        },
        Ok(Some((config, digest))) => (Some(Arc::new(config)), Some(digest)),
        Ok(None) => (None, None),
    };
    let mode: StartupMode = match startup_mode(&inputs.startup_mode) {
        Err(error) => {
            return Err(error);
        },
        Ok(mode) => mode,
    };
    let component_cid: String = match required_env(
        "KOTOTAMA_COMPONENT_CID",
        &inputs.component_cid,
    ) {
        Err(error) => {
            return Err(error);
        },
        Ok(text) => text,
    };
    let expected: i64 = match expected_result(&inputs.expected_result) {
        Err(error) => {
            return Err(error);
        },
        Ok(number) => number,
    };
    let fuel: u64 = match parse_positive_env("KOTOTAMA_FUEL", &inputs.fuel) {
        Err(error) => {
            return Err(error);
        },
        Ok(number) => number,
    };
    let memory_pages: u64 = match parse_positive_env(
        "KOTOTAMA_MEMORY_PAGES",
        &inputs.memory_pages,
    ) {
        Err(error) => {
            return Err(error);
        },
        Ok(number) => number,
    };
    let node: String = match required_env("KOTOTAMA_NODE", &inputs.node) {
        Err(error) => {
            return Err(error);
        },
        Ok(text) => text,
    };
    let signing_key: SigningKey = match &inputs.seed_text {
        Err(cause) => {
            return Err(
                HostError::about(ErrorKind::SeedUnreadable, seed_path.text.as_str()).because(
                    cause.as_str(),
                ),
            );
        },
        Ok(text) => match read_signing_key(text.as_str()) {
            Err(error) => {
                return Err(error);
            },
            Ok(key) => key,
        },
    };
    Ok(
        ResidentConfig {
            bind,
            component,
            component_cid,
            component_sha256,
            expected_result: expected,
            fuel,
            memory_pages,
            node,
            receipt_log,
            signing_key,
            capabilities,
            capability_config_sha256,
            startup_mode: mode,
        },
    )
}

} // verus!
