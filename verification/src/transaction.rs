//! Requests of structured storage: what a component asks, what is decided from
//! the version that its key has, and the record that a decision to write makes.

use vstd::prelude::*;
use vstd::utf8::encode_utf8;

use crate::error::{plain, told, ErrorKind, Failure, HostError};
use crate::json::{json_text, put, read_depth, reads_back, Json, JsonTree};
use crate::storage::{
    admitted_line, append_json_line, conditional_values, ends_line, i64_field, lemma_line_added,
    line_of, record_i64, record_string, recorded, string_field, value_format, values_of, HostPath,
    StoredValues,
};
use crate::text::same;
use crate::value::{field_trees, lemma_field_trees_push, val_trees, Val, ValTree};

verus! {

/// How many bytes a key may have.
pub const MAX_KEY_BYTES: usize = 4096;

/// A request to store a value.
#[derive(Debug, PartialEq, Eq)]
pub struct StorageRequest {
    pub operation: String,
    pub key: String,
    pub value: String,
    /// The version that the request replaces, or why it names none.
    pub expected: Result<i64, HostError>,
}

/// The value of a [`StorageRequest`].
#[verifier::ext_equal]
pub struct Request {
    pub operation: Seq<char>,
    pub key: Seq<char>,
    pub value: Seq<char>,
    pub expected: Result<i64, Failure>,
}

impl View for StorageRequest {
    type V = Request;

    open spec fn view(&self) -> Request {
        Request {
            operation: self.operation@,
            key: self.key@,
            value: self.value@,
            expected: told(self.expected),
        }
    }
}

/// Whether a key and a value keep within the bounds of a namespace.
pub open spec fn within_bounds(key: Seq<char>, value: Seq<char>, max_write_bytes: u64) -> bool {
    &&& key.len() > 0
    &&& encode_utf8(key).len() <= MAX_KEY_BYTES
    &&& encode_utf8(value).len() <= max_write_bytes as usize
}

/// The request that the parameters of a call make, where the call has `results`
/// results.
pub open spec fn requested(params: Seq<ValTree>, results: nat, max_write_bytes: u64) -> Result<
    Request,
    Failure,
> {
    if params.len() != 1 {
        Err(plain(ErrorKind::StructuredRequestShape))
    } else {
        match params[0] {
            ValTree::Variant(operation, Some(payload)) => match *payload {
                ValTree::Record(fields) => if results != 1 {
                    Err(plain(ErrorKind::StructuredResultShape))
                } else {
                    match (string_field(fields, "key"@), string_field(fields, "value"@)) {
                        (Err(failure), _) => Err(failure),
                        (Ok(_), Err(failure)) => Err(failure),
                        (Ok(key), Ok(value)) => if !within_bounds(key, value, max_write_bytes) {
                            Err(plain(ErrorKind::StructuredRequestBounds))
                        } else {
                            Ok(
                                Request {
                                    operation,
                                    key,
                                    value,
                                    expected: i64_field(fields, "expected-version"@),
                                },
                            )
                        },
                    }
                },
                _ => Err(plain(ErrorKind::StructuredPayloadShape)),
            },
            _ => Err(plain(ErrorKind::StructuredRequestShape)),
        }
    }
}

/// Reads the request that a call makes.
pub fn read_request(params: &Vec<Val>, results: usize, max_write_bytes: u64) -> (request: Result<
    StorageRequest,
    HostError,
>)
    ensures
        told(request) == requested(val_trees(params@), results as nat, max_write_bytes),
{
    if params.len() != 1 {
        return Err(HostError::plain(ErrorKind::StructuredRequestShape));
    }
    proof {
        reveal_with_fuel(Val::tree, 3);
        assert(val_trees(params@)[0] == params@[0]@);
    }
    match &params[0] {
        Val::Variant(operation, Some(payload)) => match &**payload {
            Val::Record(fields) => {
                if results != 1 {
                    return Err(HostError::plain(ErrorKind::StructuredResultShape));
                }
                let key: String = match record_string(fields, "key") {
                    Err(error) => {
                        return Err(error);
                    },
                    Ok(key) => key,
                };
                let value: String = match record_string(fields, "value") {
                    Err(error) => {
                        return Err(error);
                    },
                    Ok(value) => value,
                };
                if key.as_str().is_empty() || key.as_str().as_bytes().len() > MAX_KEY_BYTES
                    || value.as_str().as_bytes().len() > max_write_bytes as usize {
                    return Err(HostError::plain(ErrorKind::StructuredRequestBounds));
                }
                Ok(
                    StorageRequest {
                        operation: operation.clone(),
                        key,
                        value,
                        expected: record_i64(fields, "expected-version"),
                    },
                )
            },
            _ => Err(HostError::plain(ErrorKind::StructuredPayloadShape)),
        },
        _ => Err(HostError::plain(ErrorKind::StructuredRequestShape)),
    }
}

/// What is done with a request.
#[derive(Debug, PartialEq, Eq)]
pub enum Decision {
    /// Nothing is written; the component gets this result.
    Refused(Val),
    /// The value is written with this version.
    Write(i64),
}

/// The value of a [`Decision`].
#[verifier::ext_equal]
pub enum Verdict {
    Refused(ValTree),
    Write(i64),
}

impl View for Decision {
    type V = Verdict;

    open spec fn view(&self) -> Verdict {
        match *self {
            Decision::Refused(value) => Verdict::Refused(value@),
            Decision::Write(version) => Verdict::Write(version),
        }
    }
}

/// The result that tells the version a key has.
pub open spec fn conflict_current(key: Seq<char>, version: i64) -> ValTree {
    ValTree::Variant(
        "conflict-current"@,
        Some(
            Box::new(
                ValTree::Record(
                    seq![
                        ("key"@, ValTree::Text(key)),
                        ("current-version"@, ValTree::S64(version)),
                    ],
                ),
            ),
        ),
    )
}

/// The result that tells that a key has no value.
pub open spec fn conflict_missing() -> ValTree {
    ValTree::Variant("conflict-missing"@, Some(Box::new(ValTree::Bool(true))))
}

/// The result that tells what was written.
pub open spec fn written(key: Seq<char>, value: Seq<char>, version: i64) -> ValTree {
    ValTree::Variant(
        "written"@,
        Some(
            Box::new(
                ValTree::Record(
                    seq![
                        ("key"@, ValTree::Text(key)),
                        ("value"@, ValTree::Text(value)),
                        ("version"@, ValTree::S64(version)),
                    ],
                ),
            ),
        ),
    )
}

/// What is done with a request for a key whose version is `current`.
pub open spec fn decided(request: Request, current: Option<i64>) -> Result<Verdict, Failure> {
    if request.operation == "put-new"@ {
        match current {
            Some(version) => Ok(Verdict::Refused(conflict_current(request.key, version))),
            None => Ok(Verdict::Write(1)),
        }
    } else if request.operation == "put-existing"@ {
        match request.expected {
            Err(failure) => Err(failure),
            Ok(expected) => match current {
                None => Ok(Verdict::Refused(conflict_missing())),
                Some(version) => if version != expected {
                    Ok(Verdict::Refused(conflict_current(request.key, version)))
                } else if version == i64::MAX {
                    Err(plain(ErrorKind::StructuredVersionOverflow))
                } else {
                    Ok(Verdict::Write((version + 1) as i64))
                },
            },
        }
    } else {
        Err(plain(ErrorKind::StructuredOperationUnknown))
    }
}

fn current_conflict(key: &String, version: i64) -> (value: Val)
    ensures
        value@ == conflict_current(key@, version),
{
    let mut fields: Vec<(String, Val)> = Vec::new();
    let first: (String, Val) = ("key".to_owned(), Val::Text(key.clone()));
    let second: (String, Val) = ("current-version".to_owned(), Val::S64(version));
    proof {
        reveal_with_fuel(Val::tree, 3);
        lemma_field_trees_push(fields@, first);
        lemma_field_trees_push(fields@.push(first), second);
    }
    fields.push(first);
    fields.push(second);
    let value: Val = Val::Variant(
        "conflict-current".to_owned(),
        Some(Box::new(Val::Record(fields))),
    );
    assert(field_trees(fields@) =~= seq![
        ("key"@, ValTree::Text(key@)),
        ("current-version"@, ValTree::S64(version)),
    ]);
    value
}

/// Tells a component what was written for it.
pub fn written_result(request: &StorageRequest, version: i64) -> (value: Val)
    ensures
        value@ == written(request@.key, request@.value, version),
{
    let mut fields: Vec<(String, Val)> = Vec::new();
    let first: (String, Val) = ("key".to_owned(), Val::Text(request.key.clone()));
    let second: (String, Val) = ("value".to_owned(), Val::Text(request.value.clone()));
    let third: (String, Val) = ("version".to_owned(), Val::S64(version));
    proof {
        reveal_with_fuel(Val::tree, 3);
        lemma_field_trees_push(fields@, first);
        lemma_field_trees_push(fields@.push(first), second);
        lemma_field_trees_push(fields@.push(first).push(second), third);
    }
    fields.push(first);
    fields.push(second);
    fields.push(third);
    assert(field_trees(fields@) =~= seq![
        ("key"@, ValTree::Text(request@.key)),
        ("value"@, ValTree::Text(request@.value)),
        ("version"@, ValTree::S64(version)),
    ]);
    Val::Variant("written".to_owned(), Some(Box::new(Val::Record(fields))))
}

/// Decides what is done with a request for a key whose version is `current`.
pub fn decide(request: &StorageRequest, current: Option<i64>) -> (decision: Result<
    Decision,
    HostError,
>)
    ensures
        told(decision) == decided(request@, current),
{
    proof {
        reveal_with_fuel(Val::tree, 3);
    }
    if same(request.operation.as_str(), "put-new") {
        match current {
            Some(version) => Ok(Decision::Refused(current_conflict(&request.key, version))),
            None => Ok(Decision::Write(1)),
        }
    } else if same(request.operation.as_str(), "put-existing") {
        match &request.expected {
            Err(error) => Err(error.clone()),
            Ok(expected) => match current {
                None => Ok(
                    Decision::Refused(
                        Val::Variant(
                            "conflict-missing".to_owned(),
                            Some(Box::new(Val::Bool(true))),
                        ),
                    ),
                ),
                Some(version) => if version != *expected {
                    Ok(Decision::Refused(current_conflict(&request.key, version)))
                } else if version == i64::MAX {
                    Err(HostError::plain(ErrorKind::StructuredVersionOverflow))
                } else {
                    Ok(Decision::Write(version + 1))
                },
            },
        }
    } else {
        Err(HostError::plain(ErrorKind::StructuredOperationUnknown))
    }
}

/// The record of a value.
pub open spec fn value_record(
    key: Seq<char>,
    value: Seq<char>,
    version: i64,
    at_ms: int,
) -> JsonTree {
    JsonTree::Object(
        map![
            "format"@ => JsonTree::Text(value_format()),
            "key"@ => JsonTree::Text(key),
            "recorded-at-ms"@ => JsonTree::Whole(at_ms),
            "value"@ => JsonTree::Text(value),
            "version"@ => JsonTree::Whole(version as int),
        ],
    )
}

/// A record tells the key, value and version that it was made of, and reads back
/// from its text.
pub proof fn lemma_value_record(key: Seq<char>, value: Seq<char>, version: i64, at_ms: int)
    ensures
        recorded(value_record(key, value, version, at_ms)) == Some((key, (value, version))),
        value_record(key, value, version, at_ms).exact(read_depth()),
{
    reveal_strlit("format");
    reveal_strlit("key");
    reveal_strlit("recorded-at-ms");
    reveal_strlit("value");
    reveal_strlit("version");
    assert("format"@[0] == 'f');
    assert("key"@.len() == 3);
    assert("recorded-at-ms"@.len() == 14);
    assert("value"@.len() == 5);
    assert("version"@[0] == 'v' && "version"@.len() == 7);
    let record = value_record(key, value, version, at_ms);
    let all = record->Object_0;
    assert(all.dom() =~= set!["format"@, "key"@, "recorded-at-ms"@, "value"@, "version"@]);
    assert(record.member("format"@) == Some(JsonTree::Text(value_format())));
    assert(record.member("key"@) == Some(JsonTree::Text(key)));
    assert(record.member("value"@) == Some(JsonTree::Text(value)));
    assert(record.member("version"@) == Some(JsonTree::Whole(version as int)));
    assert forall|k: Seq<char>| #[trigger] all.dom().contains(k) implies all[k].exact(
        (read_depth() - 1) as nat,
    ) by {
        assert(all[k] is Text || all[k] is Whole);
    }
}

/// What was written is read back: where the text of a record reads back, a log
/// that its line is added to records the value under its key, with its version,
/// and every other key as before.
pub proof fn lemma_write_reads_back(
    log: Seq<u8>,
    key: Seq<char>,
    value: Seq<char>,
    version: i64,
    at_ms: int,
)
    requires
        ends_line(log),
        reads_back(
            json_text(value_record(key, value, version, at_ms)),
            value_record(key, value, version, at_ms),
        ),
    ensures
        values_of(log + line_of(value_record(key, value, version, at_ms))) == values_of(log).insert(
            key,
            (value, version),
        ),
{
    let record = value_record(key, value, version, at_ms);
    lemma_value_record(key, value, version, at_ms);
    lemma_line_added(Map::empty(), log, json_text(record));
}

/// Makes the line that records a value with its version. Whatever log the line
/// is added to at the end of a line, the log then records the value under its
/// key, and every other key as before.
pub fn record_line(
    path: &HostPath,
    request: &StorageRequest,
    version: i64,
    at_ms: u128,
    max_write_bytes: u64,
) -> (line: Result<Vec<u8>, HostError>)
    requires
        at_ms <= u64::MAX,
    ensures
        told(line) == admitted_line(
            path.absolute,
            value_record(request@.key, request@.value, version, at_ms as int),
            max_write_bytes,
        ),
        line matches Ok(bytes) ==> forall|log: Seq<u8>|
            ends_line(log) ==> #[trigger] values_of(log + bytes@) == values_of(log).insert(
                request@.key,
                (request@.value, version),
            ),
{
    let mut entries: Vec<(String, Json)> = Vec::new();
    put(&mut entries, "format", Json::from_text("kototama.conditional-value/v1"));
    put(&mut entries, "key", Json::from_text(request.key.as_str()));
    put(&mut entries, "recorded-at-ms", Json::Unsigned(at_ms as u64));
    put(&mut entries, "value", Json::from_text(request.value.as_str()));
    put(&mut entries, "version", Json::Signed(version));
    let line: Result<Vec<u8>, HostError> = append_json_line(
        path,
        &Json::Object(entries),
        max_write_bytes,
    );
    proof {
        if line is Ok {
            assert forall|log: Seq<u8>| ends_line(log) implies #[trigger] values_of(
                log + line->Ok_0@,
            ) == values_of(log).insert(request@.key, (request@.value, version)) by {
                lemma_write_reads_back(
                    log,
                    request@.key,
                    request@.value,
                    version,
                    at_ms as int,
                );
            }
        }
    }
    line
}

/// The version that a key has among values.
pub open spec fn version_in(values: Map<Seq<char>, (Seq<char>, i64)>, key: Seq<char>) -> Option<
    i64,
> {
    if values.dom().contains(key) {
        Some(values[key].1)
    } else {
        None
    }
}

/// What is done with a request for a key of a log.
#[derive(Debug, PartialEq, Eq)]
pub enum Step {
    /// Nothing is written; the component gets this result once its session has
    /// recorded the call.
    Refused(Val),
    /// The line is added to the log; it records the value with this version.
    Append { version: i64, line: Vec<u8> },
}

/// The value of a [`Step`].
#[verifier::ext_equal]
pub enum Course {
    Refused(ValTree),
    Append { version: i64, line: Seq<u8> },
}

impl View for Step {
    type V = Course;

    open spec fn view(&self) -> Course {
        match *self {
            Step::Refused(value) => Course::Refused(value@),
            Step::Append { version, line } => Course::Append { version, line: line@ },
        }
    }
}

/// The values that a log records, where it is there yet.
pub open spec fn log_values(log: Option<&str>) -> Map<Seq<char>, (Seq<char>, i64)> {
    match log {
        None => Map::empty(),
        Some(text) => values_of(encode_utf8(text@)),
    }
}

/// What is done with a request at a time, where the log of `size` bytes holds
/// these values.
pub open spec fn course(
    request: Request,
    path: HostPath,
    log: Option<&str>,
    size: u64,
    max_write_bytes: u64,
    at: Result<u128, HostError>,
) -> Result<Course, Failure> {
    if log is Some && size > max_write_bytes {
        Err(plain(ErrorKind::NamespaceOversize))
    } else {
        match decided(request, version_in(log_values(log), request.key)) {
            Err(failure) => Err(failure),
            Ok(Verdict::Refused(value)) => Ok(Course::Refused(value)),
            Ok(Verdict::Write(version)) => match at {
                Err(error) => Err(error@),
                Ok(at_ms) => match admitted_line(
                    path.absolute,
                    value_record(request.key, request.value, version, at_ms as int),
                    max_write_bytes,
                ) {
                    Err(failure) => Err(failure),
                    Ok(line) => Ok(Course::Append { version, line }),
                },
            },
        }
    }
}

/// Decides what is done with a request for a key of the log of a namespace, and
/// makes the line that the log takes. Added to the log, where the log ends at the
/// end of a line, the line makes of its values what the request makes of them.
pub fn transact(
    request: &StorageRequest,
    path: &HostPath,
    log: Option<&str>,
    size: u64,
    max_write_bytes: u64,
    at: Result<u128, HostError>,
) -> (step: Result<Step, HostError>)
    requires
        at matches Ok(at_ms) ==> at_ms <= u64::MAX,
    ensures
        told(step) == course(request@, *path, log, size, max_write_bytes, at),
        match step {
            Ok(Step::Append { line, .. }) => match log {
                None => values_of(line@) == values_after(log_values(log), request@),
                Some(text) => ends_line(encode_utf8(text@)) ==> values_of(
                    encode_utf8(text@) + line@,
                ) == values_after(log_values(log), request@),
            },
            _ => true,
        },
{
    let values: StoredValues = match conditional_values(log, size, max_write_bytes) {
        Err(error) => {
            return Err(error);
        },
        Ok(values) => values,
    };
    let current: Option<i64> = match values.get(request.key.as_str()) {
        Some((_, version)) => Some(version),
        None => None,
    };
    assert(current == version_in(log_values(log), request@.key));
    match decide(request, current) {
        Err(error) => Err(error),
        Ok(Decision::Refused(value)) => Ok(Step::Refused(value)),
        Ok(Decision::Write(version)) => {
            let at_ms: u128 = match at {
                Err(error) => {
                    return Err(error);
                },
                Ok(at_ms) => at_ms,
            };
            match record_line(path, request, version, at_ms, max_write_bytes) {
                Err(error) => Err(error),
                Ok(line) => {
                    proof {
                        let empty: Seq<u8> = seq![];
                        assert(ends_line(empty));
                        assert(empty + line@ =~= line@);
                        assert(values_of(empty + line@) == values_of(empty).insert(
                            request@.key,
                            (request@.value, version),
                        ));
                    }
                    Ok(Step::Append { version, line })
                },
            }
        },
    }
}

/// The values after a request was decided and carried out.
pub open spec fn values_after(
    values: Map<Seq<char>, (Seq<char>, i64)>,
    request: Request,
) -> Map<Seq<char>, (Seq<char>, i64)> {
    match decided(request, version_in(values, request.key)) {
        Ok(Verdict::Write(version)) => values.insert(request.key, (request.value, version)),
        _ => values,
    }
}

/// A write makes the first version of a key that had none, or the next version
/// of the one that the request names; no other key changes.
pub proof fn lemma_versions_follow(
    values: Map<Seq<char>, (Seq<char>, i64)>,
    request: Request,
    version: i64,
)
    requires
        decided(request, version_in(values, request.key)) == Ok::<Verdict, Failure>(
            Verdict::Write(version),
        ),
    ensures
        match version_in(values, request.key) {
            None => request.operation == "put-new"@ && version == 1,
            Some(current) => request.operation == "put-existing"@ && request.expected == Ok::<
                i64,
                Failure,
            >(current) && version == current + 1,
        },
        version_in(values_after(values, request), request.key) == Some(version),
        forall|key: Seq<char>|
            key != request.key ==> #[trigger] version_in(values_after(values, request), key)
                == version_in(values, key),
{
}

/// A request that is refused, or fails, changes no value.
pub proof fn lemma_refusal_keeps_values(
    values: Map<Seq<char>, (Seq<char>, i64)>,
    request: Request,
)
    requires
        !(decided(request, version_in(values, request.key)) matches Ok(Verdict::Write(_))),
    ensures
        values_after(values, request) == values,
{
}

/// Of two requests that replace one version of a key, one after the other, only
/// the first is carried out: the second is told the version that the first made.
pub proof fn lemma_one_replaces(
    values: Map<Seq<char>, (Seq<char>, i64)>,
    first: Request,
    second: Request,
    version: i64,
)
    requires
        first.operation == "put-existing"@,
        second.operation == "put-existing"@,
        first.key == second.key,
        first.expected == second.expected,
        decided(first, version_in(values, first.key)) == Ok::<Verdict, Failure>(
            Verdict::Write(version),
        ),
    ensures
        decided(second, version_in(values_after(values, first), second.key)) == Ok::<
            Verdict,
            Failure,
        >(Verdict::Refused(conflict_current(second.key, version))),
{
    reveal_strlit("put-new");
    reveal_strlit("put-existing");
    assert("put-new"@.len() != "put-existing"@.len());
}

/// A key is new once: a request that makes it anew after it was made is refused
/// and told the version that it has.
pub proof fn lemma_new_once(
    values: Map<Seq<char>, (Seq<char>, i64)>,
    first: Request,
    second: Request,
    version: i64,
)
    requires
        second.operation == "put-new"@,
        first.key == second.key,
        decided(first, version_in(values, first.key)) == Ok::<Verdict, Failure>(
            Verdict::Write(version),
        ),
    ensures
        decided(second, version_in(values_after(values, first), second.key)) == Ok::<
            Verdict,
            Failure,
        >(Verdict::Refused(conflict_current(second.key, version))),
{
}

/// A request that replaces a value of a key that has none is refused and told
/// that it has none.
pub proof fn lemma_missing_is_refused(
    values: Map<Seq<char>, (Seq<char>, i64)>,
    request: Request,
)
    requires
        request.operation == "put-existing"@,
        request.expected is Ok,
        version_in(values, request.key) is None,
    ensures
        decided(request, version_in(values, request.key)) == Ok::<Verdict, Failure>(
            Verdict::Refused(conflict_missing()),
        ),
        values_after(values, request) == values,
{
    reveal_strlit("put-new");
    reveal_strlit("put-existing");
    assert("put-new"@.len() != "put-existing"@.len());
}

/// The values after requests were decided and carried out, one after the other.
pub open spec fn values_after_all(
    values: Map<Seq<char>, (Seq<char>, i64)>,
    requests: Seq<Request>,
) -> Map<Seq<char>, (Seq<char>, i64)>
    decreases requests.len(),
{
    if requests.len() == 0 {
        values
    } else {
        values_after(values_after_all(values, requests.drop_last()), requests.last())
    }
}

/// Whatever is requested, no key is lost and no version falls.
pub proof fn lemma_versions_never_fall(
    values: Map<Seq<char>, (Seq<char>, i64)>,
    requests: Seq<Request>,
    key: Seq<char>,
)
    ensures
        version_in(values, key) matches Some(version) ==> (version_in(
            values_after_all(values, requests),
            key,
        ) matches Some(later) && later >= version),
    decreases requests.len(),
{
    if requests.len() > 0 {
        lemma_versions_never_fall(values, requests.drop_last(), key);
    }
}

} // verus!
