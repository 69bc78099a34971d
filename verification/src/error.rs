//! Failures of the host: what was refused, and the sentence that tells it.

use vstd::prelude::*;

verus! {

/// The reason for a refusal. Each reason has one fixed sentence (see [`wording`]).
#[derive(Clone, Copy, Debug, PartialEq, Eq, Structural)]
pub enum ErrorKind {
    /// "unrecognized aiueos Component import: `subject`"
    UnrecognizedImport,
    /// "import `subject` is bound to an invalid operation"
    InvalidOperation,
    /// "import `subject` has an unbounded or incomplete ability"
    UnboundedAbility,
    /// "Component requested a capability but no admitted provider is installed"
    NoProvider,
    /// "provider closed protocol before responding"
    ProviderClosed,
    /// "invalid provider response"
    InvalidProviderResponse,
    /// "expected provider-result response"
    ExpectedProviderResult,
    /// "provider response import does not match request"
    ProviderImportMismatch,
    /// "provider response must contain an i64 value"
    ProviderValueMissing,
    /// "`subject`"
    EngineFailure,
    /// "Component bool parameter must be JSON boolean"
    BoolParameter,
    /// "Component s64 parameter must be a JSON integer"
    S64Parameter,
    /// "Component string parameter must be a JSON string"
    StringParameter,
    /// "Component record parameter must be a JSON object"
    RecordParameter,
    /// "Component record is missing `subject`"
    RecordFieldMissing,
    /// "Component record contains an unknown field"
    RecordFieldUnknown,
    /// "Component variant parameter must be a JSON object"
    VariantParameter,
    /// "Component variant requires case and optional value only"
    VariantShape,
    /// "Component variant requires a string case"
    VariantCaseText,
    /// "Component variant case is outside the closed type"
    VariantCaseUnknown,
    /// "Component variant case requires a value"
    VariantValueMissing,
    /// "Component variant case does not accept a value"
    VariantValueUnexpected,
    /// "Component invocation parameter type is not admitted by the JSON bridge"
    ParameterTypeNotAdmitted,
    /// "Component result variant has no cases"
    ResultVariantEmpty,
    /// "Component invocation result type is not admitted by the JSON bridge"
    ResultTypeNotAdmitted,
    /// "first protocol envelope must be a run request"
    NotRunRequest,
    /// "duplicate Component import"
    DuplicateImport,
    /// "Component does not export `subject`"
    ExportMissing,
    /// "Component invocation parameter count does not match export"
    ParameterCount,
    /// "Component main must return s64"
    MainNotScalar,
    /// "storage capability must return one result"
    StorageResultCount,
    /// "structured storage requires a resident admitted provider"
    StructuredStorageUnprovided,
    /// "resident capability endpoint must use literal loopback HTTP"
    EndpointNotLoopback,
    /// "resident capability endpoint has an invalid port"
    EndpointPortInvalid,
    /// "resident capability endpoint port must be positive"
    EndpointPortZero,
    /// "chunked response has an incomplete size line"
    ChunkSizeIncomplete,
    /// "chunked response size is not UTF-8"
    ChunkSizeNotUtf8,
    /// "chunked response has an invalid size"
    ChunkSizeInvalid,
    /// "chunked response exceeds its admitted byte bound"
    ChunkOversize,
    /// "chunked response is missing a chunk terminator"
    ChunkTerminatorMissing,
    /// "resident capability HTTP bounds must be positive"
    HttpBoundsNotPositive,
    /// "resident capability response exceeds its admitted byte bound"
    ResponseOversize,
    /// "resident capability returned an invalid HTTP response"
    ResponseInvalid,
    /// "resident capability HTTP headers are not UTF-8"
    ResponseHeadersNotUtf8,
    /// "resident capability returned an invalid HTTP status"
    ResponseStatusInvalid,
    /// "resident capability endpoint returned HTTP `subject`"
    ResponseStatusRejected,
    /// "resident capability response body exceeds its admitted byte bound"
    ResponseBodyOversize,
    /// "resident capability response body is not JSON"
    ResponseBodyNotJson,
    /// "resident storage capability requires an absolute bounded log"
    LogNotAdmitted,
    /// "resident storage write exceeds its admitted byte bound"
    WriteOversize,
    /// "structured storage field `subject` must be a string"
    StorageFieldNotString,
    /// "structured storage field `subject` must be s64"
    StorageFieldNotS64,
    /// "structured storage record is missing field `subject`"
    StorageFieldMissing,
    /// "resident structured storage namespace exceeds its admitted quota"
    NamespaceOversize,
    /// "HTTP capability is not configured"
    HttpNotConfigured,
    /// "HTTP capability request code is outside the admitted operation"
    HttpRequestCode,
    /// "HTTP response length does not fit the scalar Component ABI"
    HttpLengthNotScalar,
    /// "storage capability is not configured"
    StorageNotConfigured,
    /// "storage capability requires a prior HTTP result"
    StorageNeedsHttp,
    /// "storage capability input does not match the prior HTTP result"
    StorageInputMismatch,
    /// "storage write length does not fit the scalar Component ABI"
    WriteLengthNotScalar,
    /// "LLM capability is not configured"
    LlmNotConfigured,
    /// "LLM capability input does not match the durable checkpoint"
    LlmCheckpointMismatch,
    /// "LLM capability requires a prior HTTP result"
    LlmNeedsHttp,
    /// "LLM request exceeds its admitted byte bound"
    LlmRequestOversize,
    /// "LLM provider returned no bounded text result"
    LlmNoText,
    /// "resident provider does not implement capability `subject`"
    CapabilityNotImplemented,
    /// "structured storage requires one request variant"
    StructuredRequestShape,
    /// "structured storage request case requires a record payload"
    StructuredPayloadShape,
    /// "structured storage must return one result variant"
    StructuredResultShape,
    /// "structured storage request exceeds its admitted bounds"
    StructuredRequestBounds,
    /// "structured storage version overflow"
    StructuredVersionOverflow,
    /// "structured storage operation is outside the admitted subset"
    StructuredOperationUnknown,
    /// "`subject` is required"
    VariableRequired,
    /// "`subject` must not be empty"
    VariableEmpty,
    /// "`subject` must be a positive integer"
    VariableNotInteger,
    /// "`subject` must be positive"
    VariableNotPositive,
    /// "cannot read Component `subject`"
    ComponentUnreadable,
    /// "cannot read receipt signing key `subject`"
    SeedUnreadable,
    /// "receipt signing key is not hex"
    SeedNotHex,
    /// "receipt signing key must contain exactly 32 bytes"
    SeedLength,
    /// "KOTOTAMA_CAPABILITY_CONFIG_PATH must be an absolute file"
    CapabilityPath,
    /// "KOTOTAMA_CAPABILITY_CONFIG_SHA256 must be lowercase SHA-256 hex"
    CapabilityDigestSyntax,
    /// "resident capability configuration does not match its admitted SHA-256"
    CapabilityDigestMismatch,
    /// "resident capability configuration is invalid"
    CapabilityConfigInvalid,
    /// "resident capability configuration format is unsupported"
    CapabilityConfigFormat,
    /// "resident capability configuration must grant at least one capability"
    CapabilityConfigEmpty,
    /// "resident HTTP capability contains an unbounded field"
    HttpCapabilityUnbounded,
    /// "resident storage capability contains an unbounded field"
    StorageCapabilityUnbounded,
    /// "resident LLM capability contains an unbounded field"
    LlmCapabilityUnbounded,
    /// "resident scalar HTTP and LLM capabilities must be granted together"
    LlmWithoutHttp,
    /// "KOTOTAMA_BIND_ADDR must be a socket address"
    BindSyntax,
    /// "resident Component host must bind a loopback address"
    BindNotLoopback,
    /// "KOTOTAMA_COMPONENT_PATH must be an absolute file"
    ComponentPath,
    /// "KOTOTAMA_COMPONENT_SHA256 must be lowercase SHA-256 hex"
    ComponentDigestSyntax,
    /// "resident Component bytes do not match KOTOTAMA_COMPONENT_SHA256"
    ComponentDigestMismatch,
    /// "receipt key and log paths must be absolute"
    ReceiptPaths,
    /// "KOTOTAMA_STARTUP_MODE must be execute-main or compile-only"
    StartupModeUnknown,
    /// "KOTOTAMA_EXPECTED_RESULT must be i64"
    ExpectedResultSyntax,
    /// "system clock is before Unix epoch"
    ClockBeforeEpoch,
    /// "Component result does not match admitted expected result"
    ResultMismatch,
    /// "Component invocation export name is outside the admitted syntax"
    ExportNameSyntax,
    /// "Component invocation body is invalid"
    InvocationInvalid,
    /// "HTTP header is incomplete or too large"
    HeaderIncomplete,
    /// "HTTP header is not UTF-8"
    HeaderNotUtf8,
    /// "only HTTP/1.1 is accepted"
    VersionNotHttp11,
    /// "HTTP Content-Length is invalid"
    ContentLengthInvalid,
    /// "HTTP request body exceeds its admitted byte bound"
    RequestOversize,
}

/// A refusal as the host reports it: the reason, the name, path, number or text
/// that its sentence mentions (empty where the sentence mentions none), and what
/// was told of its cause.
#[derive(Debug, PartialEq, Eq)]
pub struct HostError {
    pub kind: ErrorKind,
    pub subject: String,
    pub cause: Option<String>,
}

/// The value of a [`HostError`].
#[verifier::ext_equal]
pub struct Failure {
    pub kind: ErrorKind,
    pub subject: Seq<char>,
    pub cause: Option<Seq<char>>,
}

impl View for HostError {
    type V = Failure;

    open spec fn view(&self) -> Failure {
        Failure {
            kind: self.kind,
            subject: self.subject@,
            cause: match self.cause {
                Some(cause) => Some(cause@),
                None => None,
            },
        }
    }
}

impl Clone for HostError {
    fn clone(&self) -> (copy: HostError)
        ensures
            copy@ == self@,
    {
        let cause: Option<String> = match &self.cause {
            Some(cause) => Some(cause.clone()),
            None => None,
        };
        HostError { kind: self.kind, subject: self.subject.clone(), cause }
    }
}

impl Failure {
    /// The sentence of the failure: the wording of its kind around its subject.
    pub open spec fn message(self) -> Seq<char> {
        wording(self.kind).0 + self.subject + wording(self.kind).1
    }

    /// The sentence of the failure, and its cause behind it.
    pub open spec fn chain(self) -> Seq<char> {
        match self.cause {
            Some(cause) => self.message() + ": "@ + cause,
            None => self.message(),
        }
    }
}

/// The failure whose sentence mentions nothing, without a cause.
pub open spec fn plain(kind: ErrorKind) -> Failure {
    Failure { kind, subject: Seq::<char>::empty(), cause: None }
}

/// The failure whose sentence mentions `subject`, without a cause.
pub open spec fn about(kind: ErrorKind, subject: Seq<char>) -> Failure {
    Failure { kind, subject, cause: None }
}

/// The failure with this cause.
pub open spec fn because(failure: Failure, cause: Seq<char>) -> Failure {
    Failure { cause: Some(cause), ..failure }
}

/// A result taken by the values of both sides.
pub open spec fn told<T: View>(result: Result<T, HostError>) -> Result<T::V, Failure> {
    match result {
        Ok(value) => Ok(value@),
        Err(error) => Err(error@),
    }
}

impl HostError {
    pub fn plain(kind: ErrorKind) -> (error: HostError)
        ensures
            error@ == plain(kind),
    {
        HostError { kind, subject: String::new(), cause: None }
    }

    pub fn about(kind: ErrorKind, subject: &str) -> (error: HostError)
        ensures
            error@ == about(kind, subject@),
    {
        HostError { kind, subject: subject.to_owned(), cause: None }
    }

    /// The refusal with this cause.
    pub fn because(self, cause: &str) -> (error: HostError)
        ensures
            error@ == because(self@, cause@),
    {
        HostError { kind: self.kind, subject: self.subject, cause: Some(cause.to_owned()) }
    }

    /// The sentence that reports this refusal, and its cause behind it.
    pub fn chain(&self) -> (text: String)
        ensures
            text@ == self@.chain(),
    {
        let mut text: String = self.message();
        match &self.cause {
            Some(cause) => {
                text.append(": ");
                text.append(cause.as_str());
            },
            None => {},
        }
        text
    }

    /// The sentence that reports this refusal.
    pub fn message(&self) -> (text: String)
        ensures
            text@ == self@.message(),
    {
        let (before, after) = words(self.kind);
        let mut text = before.to_owned();
        text.append(self.subject.as_str());
        text.append(after);
        text
    }
}

/// What a kind says before and after its subject.
pub open spec fn wording(kind: ErrorKind) -> (Seq<char>, Seq<char>) {
    match kind {
        ErrorKind::UnrecognizedImport => ("unrecognized aiueos Component import: "@, ""@),
        ErrorKind::InvalidOperation => ("import "@, " is bound to an invalid operation"@),
        ErrorKind::UnboundedAbility => ("import "@, " has an unbounded or incomplete ability"@),
        ErrorKind::NoProvider => (
            "Component requested a capability but no admitted provider is installed"@,
            ""@,
        ),
        ErrorKind::ProviderClosed => ("provider closed protocol before responding"@, ""@),
        ErrorKind::InvalidProviderResponse => ("invalid provider response"@, ""@),
        ErrorKind::ExpectedProviderResult => ("expected provider-result response"@, ""@),
        ErrorKind::ProviderImportMismatch => (
            "provider response import does not match request"@,
            ""@,
        ),
        ErrorKind::ProviderValueMissing => ("provider response must contain an i64 value"@, ""@),
        ErrorKind::EngineFailure => (""@, ""@),
        ErrorKind::BoolParameter => ("Component bool parameter must be JSON boolean"@, ""@),
        ErrorKind::S64Parameter => ("Component s64 parameter must be a JSON integer"@, ""@),
        ErrorKind::StringParameter => ("Component string parameter must be a JSON string"@, ""@),
        ErrorKind::RecordParameter => ("Component record parameter must be a JSON object"@, ""@),
        ErrorKind::RecordFieldMissing => ("Component record is missing "@, ""@),
        ErrorKind::RecordFieldUnknown => ("Component record contains an unknown field"@, ""@),
        ErrorKind::VariantParameter => ("Component variant parameter must be a JSON object"@, ""@),
        ErrorKind::VariantShape => (
            "Component variant requires case and optional value only"@,
            ""@,
        ),
        ErrorKind::VariantCaseText => ("Component variant requires a string case"@, ""@),
        ErrorKind::VariantCaseUnknown => (
            "Component variant case is outside the closed type"@,
            ""@,
        ),
        ErrorKind::VariantValueMissing => ("Component variant case requires a value"@, ""@),
        ErrorKind::VariantValueUnexpected => (
            "Component variant case does not accept a value"@,
            ""@,
        ),
        ErrorKind::ParameterTypeNotAdmitted => (
            "Component invocation parameter type is not admitted by the JSON bridge"@,
            ""@,
        ),
        ErrorKind::ResultVariantEmpty => ("Component result variant has no cases"@, ""@),
        ErrorKind::ResultTypeNotAdmitted => (
            "Component invocation result type is not admitted by the JSON bridge"@,
            ""@,
        ),
        ErrorKind::NotRunRequest => ("first protocol envelope must be a run request"@, ""@),
        ErrorKind::DuplicateImport => ("duplicate Component import"@, ""@),
        ErrorKind::ExportMissing => ("Component does not export "@, ""@),
        ErrorKind::ParameterCount => (
            "Component invocation parameter count does not match export"@,
            ""@,
        ),
        ErrorKind::MainNotScalar => ("Component main must return s64"@, ""@),
        ErrorKind::StorageResultCount => ("storage capability must return one result"@, ""@),
        ErrorKind::StructuredStorageUnprovided => (
            "structured storage requires a resident admitted provider"@,
            ""@,
        ),
        ErrorKind::EndpointNotLoopback => (
            "resident capability endpoint must use literal loopback HTTP"@,
            ""@,
        ),
        ErrorKind::EndpointPortInvalid => (
            "resident capability endpoint has an invalid port"@,
            ""@,
        ),
        ErrorKind::EndpointPortZero => ("resident capability endpoint port must be positive"@, ""@),
        ErrorKind::ChunkSizeIncomplete => ("chunked response has an incomplete size line"@, ""@),
        ErrorKind::ChunkSizeNotUtf8 => ("chunked response size is not UTF-8"@, ""@),
        ErrorKind::ChunkSizeInvalid => ("chunked response has an invalid size"@, ""@),
        ErrorKind::ChunkOversize => ("chunked response exceeds its admitted byte bound"@, ""@),
        ErrorKind::ChunkTerminatorMissing => (
            "chunked response is missing a chunk terminator"@,
            ""@,
        ),
        ErrorKind::HttpBoundsNotPositive => (
            "resident capability HTTP bounds must be positive"@,
            ""@,
        ),
        ErrorKind::ResponseOversize => (
            "resident capability response exceeds its admitted byte bound"@,
            ""@,
        ),
        ErrorKind::ResponseInvalid => (
            "resident capability returned an invalid HTTP response"@,
            ""@,
        ),
        ErrorKind::ResponseHeadersNotUtf8 => (
            "resident capability HTTP headers are not UTF-8"@,
            ""@,
        ),
        ErrorKind::ResponseStatusInvalid => (
            "resident capability returned an invalid HTTP status"@,
            ""@,
        ),
        ErrorKind::ResponseStatusRejected => ("resident capability endpoint returned HTTP "@, ""@),
        ErrorKind::ResponseBodyOversize => (
            "resident capability response body exceeds its admitted byte bound"@,
            ""@,
        ),
        ErrorKind::ResponseBodyNotJson => ("resident capability response body is not JSON"@, ""@),
        ErrorKind::LogNotAdmitted => (
            "resident storage capability requires an absolute bounded log"@,
            ""@,
        ),
        ErrorKind::WriteOversize => (
            "resident storage write exceeds its admitted byte bound"@,
            ""@,
        ),
        ErrorKind::StorageFieldNotString => ("structured storage field "@, " must be a string"@),
        ErrorKind::StorageFieldNotS64 => ("structured storage field "@, " must be s64"@),
        ErrorKind::StorageFieldMissing => ("structured storage record is missing field "@, ""@),
        ErrorKind::NamespaceOversize => (
            "resident structured storage namespace exceeds its admitted quota"@,
            ""@,
        ),
        ErrorKind::HttpNotConfigured => ("HTTP capability is not configured"@, ""@),
        ErrorKind::HttpRequestCode => (
            "HTTP capability request code is outside the admitted operation"@,
            ""@,
        ),
        ErrorKind::HttpLengthNotScalar => (
            "HTTP response length does not fit the scalar Component ABI"@,
            ""@,
        ),
        ErrorKind::StorageNotConfigured => ("storage capability is not configured"@, ""@),
        ErrorKind::StorageNeedsHttp => ("storage capability requires a prior HTTP result"@, ""@),
        ErrorKind::StorageInputMismatch => (
            "storage capability input does not match the prior HTTP result"@,
            ""@,
        ),
        ErrorKind::WriteLengthNotScalar => (
            "storage write length does not fit the scalar Component ABI"@,
            ""@,
        ),
        ErrorKind::LlmNotConfigured => ("LLM capability is not configured"@, ""@),
        ErrorKind::LlmCheckpointMismatch => (
            "LLM capability input does not match the durable checkpoint"@,
            ""@,
        ),
        ErrorKind::LlmNeedsHttp => ("LLM capability requires a prior HTTP result"@, ""@),
        ErrorKind::LlmRequestOversize => ("LLM request exceeds its admitted byte bound"@, ""@),
        ErrorKind::LlmNoText => ("LLM provider returned no bounded text result"@, ""@),
        ErrorKind::CapabilityNotImplemented => (
            "resident provider does not implement capability "@,
            ""@,
        ),
        ErrorKind::StructuredRequestShape => (
            "structured storage requires one request variant"@,
            ""@,
        ),
        ErrorKind::StructuredPayloadShape => (
            "structured storage request case requires a record payload"@,
            ""@,
        ),
        ErrorKind::StructuredResultShape => (
            "structured storage must return one result variant"@,
            ""@,
        ),
        ErrorKind::StructuredRequestBounds => (
            "structured storage request exceeds its admitted bounds"@,
            ""@,
        ),
        ErrorKind::StructuredVersionOverflow => ("structured storage version overflow"@, ""@),
        ErrorKind::StructuredOperationUnknown => (
            "structured storage operation is outside the admitted subset"@,
            ""@,
        ),
        ErrorKind::VariableRequired => (""@, " is required"@),
        ErrorKind::VariableEmpty => (""@, " must not be empty"@),
        ErrorKind::VariableNotInteger => (""@, " must be a positive integer"@),
        ErrorKind::VariableNotPositive => (""@, " must be positive"@),
        ErrorKind::ComponentUnreadable => ("cannot read Component "@, ""@),
        ErrorKind::SeedUnreadable => ("cannot read receipt signing key "@, ""@),
        ErrorKind::SeedNotHex => ("receipt signing key is not hex"@, ""@),
        ErrorKind::SeedLength => ("receipt signing key must contain exactly 32 bytes"@, ""@),
        ErrorKind::CapabilityPath => (
            "KOTOTAMA_CAPABILITY_CONFIG_PATH must be an absolute file"@,
            ""@,
        ),
        ErrorKind::CapabilityDigestSyntax => (
            "KOTOTAMA_CAPABILITY_CONFIG_SHA256 must be lowercase SHA-256 hex"@,
            ""@,
        ),
        ErrorKind::CapabilityDigestMismatch => (
            "resident capability configuration does not match its admitted SHA-256"@,
            ""@,
        ),
        ErrorKind::CapabilityConfigInvalid => (
            "resident capability configuration is invalid"@,
            ""@,
        ),
        ErrorKind::CapabilityConfigFormat => (
            "resident capability configuration format is unsupported"@,
            ""@,
        ),
        ErrorKind::CapabilityConfigEmpty => (
            "resident capability configuration must grant at least one capability"@,
            ""@,
        ),
        ErrorKind::HttpCapabilityUnbounded => (
            "resident HTTP capability contains an unbounded field"@,
            ""@,
        ),
        ErrorKind::StorageCapabilityUnbounded => (
            "resident storage capability contains an unbounded field"@,
            ""@,
        ),
        ErrorKind::LlmCapabilityUnbounded => (
            "resident LLM capability contains an unbounded field"@,
            ""@,
        ),
        ErrorKind::LlmWithoutHttp => (
            "resident scalar HTTP and LLM capabilities must be granted together"@,
            ""@,
        ),
        ErrorKind::BindSyntax => ("KOTOTAMA_BIND_ADDR must be a socket address"@, ""@),
        ErrorKind::BindNotLoopback => (
            "resident Component host must bind a loopback address"@,
            ""@,
        ),
        ErrorKind::ComponentPath => ("KOTOTAMA_COMPONENT_PATH must be an absolute file"@, ""@),
        ErrorKind::ComponentDigestSyntax => (
            "KOTOTAMA_COMPONENT_SHA256 must be lowercase SHA-256 hex"@,
            ""@,
        ),
        ErrorKind::ComponentDigestMismatch => (
            "resident Component bytes do not match KOTOTAMA_COMPONENT_SHA256"@,
            ""@,
        ),
        ErrorKind::ReceiptPaths => ("receipt key and log paths must be absolute"@, ""@),
        ErrorKind::StartupModeUnknown => (
            "KOTOTAMA_STARTUP_MODE must be execute-main or compile-only"@,
            ""@,
        ),
        ErrorKind::ExpectedResultSyntax => ("KOTOTAMA_EXPECTED_RESULT must be i64"@, ""@),
        ErrorKind::ClockBeforeEpoch => ("system clock is before Unix epoch"@, ""@),
        ErrorKind::ResultMismatch => (
            "Component result does not match admitted expected result"@,
            ""@,
        ),
        ErrorKind::ExportNameSyntax => (
            "Component invocation export name is outside the admitted syntax"@,
            ""@,
        ),
        ErrorKind::InvocationInvalid => ("Component invocation body is invalid"@, ""@),
        ErrorKind::HeaderIncomplete => ("HTTP header is incomplete or too large"@, ""@),
        ErrorKind::HeaderNotUtf8 => ("HTTP header is not UTF-8"@, ""@),
        ErrorKind::VersionNotHttp11 => ("only HTTP/1.1 is accepted"@, ""@),
        ErrorKind::ContentLengthInvalid => ("HTTP Content-Length is invalid"@, ""@),
        ErrorKind::RequestOversize => ("HTTP request body exceeds its admitted byte bound"@, ""@),
    }
}

fn words(kind: ErrorKind) -> (parts: (&'static str, &'static str))
    ensures
        (parts.0@, parts.1@) == wording(kind),
{
    match kind {
        ErrorKind::UnrecognizedImport => ("unrecognized aiueos Component import: ", ""),
        ErrorKind::InvalidOperation => ("import ", " is bound to an invalid operation"),
        ErrorKind::UnboundedAbility => ("import ", " has an unbounded or incomplete ability"),
        ErrorKind::NoProvider => (
            "Component requested a capability but no admitted provider is installed",
            "",
        ),
        ErrorKind::ProviderClosed => ("provider closed protocol before responding", ""),
        ErrorKind::InvalidProviderResponse => ("invalid provider response", ""),
        ErrorKind::ExpectedProviderResult => ("expected provider-result response", ""),
        ErrorKind::ProviderImportMismatch => (
            "provider response import does not match request",
            "",
        ),
        ErrorKind::ProviderValueMissing => ("provider response must contain an i64 value", ""),
        ErrorKind::EngineFailure => ("", ""),
        ErrorKind::BoolParameter => ("Component bool parameter must be JSON boolean", ""),
        ErrorKind::S64Parameter => ("Component s64 parameter must be a JSON integer", ""),
        ErrorKind::StringParameter => ("Component string parameter must be a JSON string", ""),
        ErrorKind::RecordParameter => ("Component record parameter must be a JSON object", ""),
        ErrorKind::RecordFieldMissing => ("Component record is missing ", ""),
        ErrorKind::RecordFieldUnknown => ("Component record contains an unknown field", ""),
        ErrorKind::VariantParameter => ("Component variant parameter must be a JSON object", ""),
        ErrorKind::VariantShape => ("Component variant requires case and optional value only", ""),
        ErrorKind::VariantCaseText => ("Component variant requires a string case", ""),
        ErrorKind::VariantCaseUnknown => ("Component variant case is outside the closed type", ""),
        ErrorKind::VariantValueMissing => ("Component variant case requires a value", ""),
        ErrorKind::VariantValueUnexpected => ("Component variant case does not accept a value", ""),
        ErrorKind::ParameterTypeNotAdmitted => (
            "Component invocation parameter type is not admitted by the JSON bridge",
            "",
        ),
        ErrorKind::ResultVariantEmpty => ("Component result variant has no cases", ""),
        ErrorKind::ResultTypeNotAdmitted => (
            "Component invocation result type is not admitted by the JSON bridge",
            "",
        ),
        ErrorKind::NotRunRequest => ("first protocol envelope must be a run request", ""),
        ErrorKind::DuplicateImport => ("duplicate Component import", ""),
        ErrorKind::ExportMissing => ("Component does not export ", ""),
        ErrorKind::ParameterCount => (
            "Component invocation parameter count does not match export",
            "",
        ),
        ErrorKind::MainNotScalar => ("Component main must return s64", ""),
        ErrorKind::StorageResultCount => ("storage capability must return one result", ""),
        ErrorKind::StructuredStorageUnprovided => (
            "structured storage requires a resident admitted provider",
            "",
        ),
        ErrorKind::EndpointNotLoopback => (
            "resident capability endpoint must use literal loopback HTTP",
            "",
        ),
        ErrorKind::EndpointPortInvalid => ("resident capability endpoint has an invalid port", ""),
        ErrorKind::EndpointPortZero => ("resident capability endpoint port must be positive", ""),
        ErrorKind::ChunkSizeIncomplete => ("chunked response has an incomplete size line", ""),
        ErrorKind::ChunkSizeNotUtf8 => ("chunked response size is not UTF-8", ""),
        ErrorKind::ChunkSizeInvalid => ("chunked response has an invalid size", ""),
        ErrorKind::ChunkOversize => ("chunked response exceeds its admitted byte bound", ""),
        ErrorKind::ChunkTerminatorMissing => ("chunked response is missing a chunk terminator", ""),
        ErrorKind::HttpBoundsNotPositive => (
            "resident capability HTTP bounds must be positive",
            "",
        ),
        ErrorKind::ResponseOversize => (
            "resident capability response exceeds its admitted byte bound",
            "",
        ),
        ErrorKind::ResponseInvalid => ("resident capability returned an invalid HTTP response", ""),
        ErrorKind::ResponseHeadersNotUtf8 => ("resident capability HTTP headers are not UTF-8", ""),
        ErrorKind::ResponseStatusInvalid => (
            "resident capability returned an invalid HTTP status",
            "",
        ),
        ErrorKind::ResponseStatusRejected => ("resident capability endpoint returned HTTP ", ""),
        ErrorKind::ResponseBodyOversize => (
            "resident capability response body exceeds its admitted byte bound",
            "",
        ),
        ErrorKind::ResponseBodyNotJson => ("resident capability response body is not JSON", ""),
        ErrorKind::LogNotAdmitted => (
            "resident storage capability requires an absolute bounded log",
            "",
        ),
        ErrorKind::WriteOversize => ("resident storage write exceeds its admitted byte bound", ""),
        ErrorKind::StorageFieldNotString => ("structured storage field ", " must be a string"),
        ErrorKind::StorageFieldNotS64 => ("structured storage field ", " must be s64"),
        ErrorKind::StorageFieldMissing => ("structured storage record is missing field ", ""),
        ErrorKind::NamespaceOversize => (
            "resident structured storage namespace exceeds its admitted quota",
            "",
        ),
        ErrorKind::HttpNotConfigured => ("HTTP capability is not configured", ""),
        ErrorKind::HttpRequestCode => (
            "HTTP capability request code is outside the admitted operation",
            "",
        ),
        ErrorKind::HttpLengthNotScalar => (
            "HTTP response length does not fit the scalar Component ABI",
            "",
        ),
        ErrorKind::StorageNotConfigured => ("storage capability is not configured", ""),
        ErrorKind::StorageNeedsHttp => ("storage capability requires a prior HTTP result", ""),
        ErrorKind::StorageInputMismatch => (
            "storage capability input does not match the prior HTTP result",
            "",
        ),
        ErrorKind::WriteLengthNotScalar => (
            "storage write length does not fit the scalar Component ABI",
            "",
        ),
        ErrorKind::LlmNotConfigured => ("LLM capability is not configured", ""),
        ErrorKind::LlmCheckpointMismatch => (
            "LLM capability input does not match the durable checkpoint",
            "",
        ),
        ErrorKind::LlmNeedsHttp => ("LLM capability requires a prior HTTP result", ""),
        ErrorKind::LlmRequestOversize => ("LLM request exceeds its admitted byte bound", ""),
        ErrorKind::LlmNoText => ("LLM provider returned no bounded text result", ""),
        ErrorKind::CapabilityNotImplemented => (
            "resident provider does not implement capability ",
            "",
        ),
        ErrorKind::StructuredRequestShape => (
            "structured storage requires one request variant",
            "",
        ),
        ErrorKind::StructuredPayloadShape => (
            "structured storage request case requires a record payload",
            "",
        ),
        ErrorKind::StructuredResultShape => (
            "structured storage must return one result variant",
            "",
        ),
        ErrorKind::StructuredRequestBounds => (
            "structured storage request exceeds its admitted bounds",
            "",
        ),
        ErrorKind::StructuredVersionOverflow => ("structured storage version overflow", ""),
        ErrorKind::StructuredOperationUnknown => (
            "structured storage operation is outside the admitted subset",
            "",
        ),
        ErrorKind::VariableRequired => ("", " is required"),
        ErrorKind::VariableEmpty => ("", " must not be empty"),
        ErrorKind::VariableNotInteger => ("", " must be a positive integer"),
        ErrorKind::VariableNotPositive => ("", " must be positive"),
        ErrorKind::ComponentUnreadable => ("cannot read Component ", ""),
        ErrorKind::SeedUnreadable => ("cannot read receipt signing key ", ""),
        ErrorKind::SeedNotHex => ("receipt signing key is not hex", ""),
        ErrorKind::SeedLength => ("receipt signing key must contain exactly 32 bytes", ""),
        ErrorKind::CapabilityPath => (
            "KOTOTAMA_CAPABILITY_CONFIG_PATH must be an absolute file",
            "",
        ),
        ErrorKind::CapabilityDigestSyntax => (
            "KOTOTAMA_CAPABILITY_CONFIG_SHA256 must be lowercase SHA-256 hex",
            "",
        ),
        ErrorKind::CapabilityDigestMismatch => (
            "resident capability configuration does not match its admitted SHA-256",
            "",
        ),
        ErrorKind::CapabilityConfigInvalid => ("resident capability configuration is invalid", ""),
        ErrorKind::CapabilityConfigFormat => (
            "resident capability configuration format is unsupported",
            "",
        ),
        ErrorKind::CapabilityConfigEmpty => (
            "resident capability configuration must grant at least one capability",
            "",
        ),
        ErrorKind::HttpCapabilityUnbounded => (
            "resident HTTP capability contains an unbounded field",
            "",
        ),
        ErrorKind::StorageCapabilityUnbounded => (
            "resident storage capability contains an unbounded field",
            "",
        ),
        ErrorKind::LlmCapabilityUnbounded => (
            "resident LLM capability contains an unbounded field",
            "",
        ),
        ErrorKind::LlmWithoutHttp => (
            "resident scalar HTTP and LLM capabilities must be granted together",
            "",
        ),
        ErrorKind::BindSyntax => ("KOTOTAMA_BIND_ADDR must be a socket address", ""),
        ErrorKind::BindNotLoopback => ("resident Component host must bind a loopback address", ""),
        ErrorKind::ComponentPath => ("KOTOTAMA_COMPONENT_PATH must be an absolute file", ""),
        ErrorKind::ComponentDigestSyntax => (
            "KOTOTAMA_COMPONENT_SHA256 must be lowercase SHA-256 hex",
            "",
        ),
        ErrorKind::ComponentDigestMismatch => (
            "resident Component bytes do not match KOTOTAMA_COMPONENT_SHA256",
            "",
        ),
        ErrorKind::ReceiptPaths => ("receipt key and log paths must be absolute", ""),
        ErrorKind::StartupModeUnknown => (
            "KOTOTAMA_STARTUP_MODE must be execute-main or compile-only",
            "",
        ),
        ErrorKind::ExpectedResultSyntax => ("KOTOTAMA_EXPECTED_RESULT must be i64", ""),
        ErrorKind::ClockBeforeEpoch => ("system clock is before Unix epoch", ""),
        ErrorKind::ResultMismatch => (
            "Component result does not match admitted expected result",
            "",
        ),
        ErrorKind::ExportNameSyntax => (
            "Component invocation export name is outside the admitted syntax",
            "",
        ),
        ErrorKind::InvocationInvalid => ("Component invocation body is invalid", ""),
        ErrorKind::HeaderIncomplete => ("HTTP header is incomplete or too large", ""),
        ErrorKind::HeaderNotUtf8 => ("HTTP header is not UTF-8", ""),
        ErrorKind::VersionNotHttp11 => ("only HTTP/1.1 is accepted", ""),
        ErrorKind::ContentLengthInvalid => ("HTTP Content-Length is invalid", ""),
        ErrorKind::RequestOversize => ("HTTP request body exceeds its admitted byte bound", ""),
    }
}

} // verus!
