//! Structured storage: a value is stored under the key that the request names, and
//! only where the version that the request names is the current one.

use vstd::prelude::*;
use vstd::utf8::encode_utf8;

use crate::error::{ErrorKind, HostError};
use crate::json::{json_parse, json_text, Json, JsonTree};
use crate::laws::holding::only;
use crate::storage::{
    append_json_line, applied, bare_line, conditional_values, field, recorded, replayed, HostPath,
    StoredValues,
};
use crate::text::{first_at, lemma_first_at, stands_at};
use crate::transaction::{
    decide, read_request, record_line, transact, value_record, written_result, Decision, Step,
    StorageRequest,
};
use crate::value::{val_trees, Val, ValTree};

verus! {

/// Whether the first field of this name stands at `i` and has this value.
pub open spec fn named_at(
    fields: Seq<(Seq<char>, ValTree)>,
    name: Seq<char>,
    value: ValTree,
    i: int,
) -> bool {
    &&& 0 <= i < fields.len()
    &&& fields[i] == (name, value)
    &&& forall|j: int| 0 <= j < i ==> (#[trigger] fields[j]).0 != name
}

/// Whether the first field of this name has this value.
pub open spec fn named(fields: Seq<(Seq<char>, ValTree)>, name: Seq<char>, value: ValTree) -> bool {
    exists|i: int| #[trigger] named_at(fields, name, value, i)
}

/// Whether no field has this name.
pub open spec fn unnamed(fields: Seq<(Seq<char>, ValTree)>, name: Seq<char>) -> bool {
    forall|i: int| 0 <= i < fields.len() ==> (#[trigger] fields[i]).0 != name
}

/// The field that is looked up is the first of its name.
proof fn lemma_field_is_named(fields: Seq<(Seq<char>, ValTree)>, name: Seq<char>)
    ensures
        match field(fields, name) {
            Some(value) => named(fields, name, value),
            None => unnamed(fields, name),
        },
    decreases fields.len(),
{
    if fields.len() > 0 {
        let front = fields.drop_last();
        lemma_field_is_named(front, name);
        match field(front, name) {
            Some(value) => {
                let i = choose|i: int| #[trigger] named_at(front, name, value, i);
                assert forall|j: int| 0 <= j < i implies (#[trigger] fields[j]).0 != name by {
                    assert(front[j] == fields[j]);
                }
                assert(fields[i] == front[i]);
                assert(named_at(fields, name, value, i));
            },
            None => {
                assert forall|j: int| 0 <= j < front.len() implies (#[trigger] fields[j]).0
                    != name by {
                    assert(front[j] == fields[j]);
                }
                if fields.last().0 == name {
                    assert(named_at(fields, name, fields.last().1, fields.len() - 1));
                }
            },
        }
    }
}

/// The first field of a name has one value.
proof fn lemma_named_once(
    fields: Seq<(Seq<char>, ValTree)>,
    name: Seq<char>,
    one: ValTree,
    other: ValTree,
)
    requires
        named(fields, name, one),
        named(fields, name, other),
    ensures
        one == other,
{
    let i = choose|i: int| #[trigger] named_at(fields, name, one, i);
    let j = choose|j: int| #[trigger] named_at(fields, name, other, j);
    if i < j {
        assert(fields[i].0 != name);
    }
    if j < i {
        assert(fields[j].0 != name);
    }
}

/// Where the first field of a name has a value, the look-up gives it.
proof fn lemma_named_is_field(fields: Seq<(Seq<char>, ValTree)>, name: Seq<char>, value: ValTree)
    requires
        named(fields, name, value),
    ensures
        field(fields, name) == Some(value),
{
    lemma_field_is_named(fields, name);
    let i = choose|i: int| #[trigger] named_at(fields, name, value, i);
    assert(fields[i].0 == name);
    match field(fields, name) {
        Some(found) => {
            lemma_named_once(fields, name, found, value);
        },
        None => {},
    }
}

/// A request that is read is the one that was made: its operation is the case of
/// the parameter, and its key, value and expected version are what the fields of
/// those names hold, letter for letter and within the bounds.
pub proof fn law_request_is_as_made(
    params: &Vec<Val>,
    results: usize,
    max_write_bytes: u64,
    request: StorageRequest,
)
    requires
        call_ensures(read_request, (params, results, max_write_bytes), Ok(request)),
    ensures
        params@.len() == 1,
        results == 1,
        match params@[0]@ {
            ValTree::Variant(operation, Some(payload)) => match *payload {
                ValTree::Record(fields) => {
                    &&& request.operation@ == operation
                    &&& named(fields, "key"@, ValTree::Text(request.key@))
                    &&& named(fields, "value"@, ValTree::Text(request.value@))
                    &&& match request.expected {
                        Ok(version) => named(fields, "expected-version"@, ValTree::S64(version)),
                        Err(_) => forall|version: i64| !#[trigger]
                            named(fields, "expected-version"@, ValTree::S64(version)),
                    }
                },
                _ => false,
            },
            _ => false,
        },
        request.key@.len() > 0,
        encode_utf8(request.key@).len() <= 4096,
        encode_utf8(request.value@).len() <= max_write_bytes as usize,
{
    assert(val_trees(params@)[0] == params@[0]@);
    let fields = (*(params@[0]@->Variant_1->0))->Record_0;
    lemma_field_is_named(fields, "key"@);
    lemma_field_is_named(fields, "value"@);
    lemma_field_is_named(fields, "expected-version"@);
    if request.expected is Err {
        assert forall|version: i64| !#[trigger] named(
            fields,
            "expected-version"@,
            ValTree::S64(version),
        ) by {
            if named(fields, "expected-version"@, ValTree::S64(version)) {
                lemma_named_is_field(fields, "expected-version"@, ValTree::S64(version));
            }
        }
    }
}

/// A request that is made within the bounds is read, whatever its key and value
/// are.
pub proof fn law_request_within_bounds_is_read(
    params: &Vec<Val>,
    max_write_bytes: u64,
    read: Result<StorageRequest, HostError>,
    operation: Seq<char>,
    fields: Seq<(Seq<char>, ValTree)>,
    key: Seq<char>,
    value: Seq<char>,
)
    requires
        call_ensures(read_request, (params, 1usize, max_write_bytes), read),
        params@.len() == 1,
        params@[0]@ == ValTree::Variant(operation, Some(Box::new(ValTree::Record(fields)))),
        named(fields, "key"@, ValTree::Text(key)),
        named(fields, "value"@, ValTree::Text(value)),
        0 < key.len(),
        encode_utf8(key).len() <= 4096,
        encode_utf8(value).len() <= max_write_bytes as usize,
    ensures
        read matches Ok(request) && request.operation@ == operation && request.key@ == key
            && request.value@ == value,
{
    assert(val_trees(params@)[0] == params@[0]@);
    lemma_named_is_field(fields, "key"@, ValTree::Text(key));
    lemma_named_is_field(fields, "value"@, ValTree::Text(value));
}

/// A request beyond the bounds is refused for its bounds.
pub proof fn law_request_beyond_bounds_is_refused(
    params: &Vec<Val>,
    max_write_bytes: u64,
    read: Result<StorageRequest, HostError>,
    operation: Seq<char>,
    fields: Seq<(Seq<char>, ValTree)>,
    key: Seq<char>,
    value: Seq<char>,
)
    requires
        call_ensures(read_request, (params, 1usize, max_write_bytes), read),
        params@.len() == 1,
        params@[0]@ == ValTree::Variant(operation, Some(Box::new(ValTree::Record(fields)))),
        named(fields, "key"@, ValTree::Text(key)),
        named(fields, "value"@, ValTree::Text(value)),
        key.len() == 0 || encode_utf8(key).len() > 4096 || encode_utf8(value).len()
            > max_write_bytes as usize,
    ensures
        read matches Err(error) && error.kind == ErrorKind::StructuredRequestBounds,
{
    assert(val_trees(params@)[0] == params@[0]@);
    lemma_named_is_field(fields, "key"@, ValTree::Text(key));
    lemma_named_is_field(fields, "value"@, ValTree::Text(value));
}

/// What is no request is refused for the first thing that it lacks: one parameter that
/// is a case with a payload, a record as the payload, one result, and a key and a value
/// that are texts.
pub proof fn law_other_shapes_are_refused(
    params: &Vec<Val>,
    results: usize,
    max_write_bytes: u64,
    read: Result<StorageRequest, HostError>,
)
    requires
        call_ensures(read_request, (params, results, max_write_bytes), read),
    ensures
        params@.len() != 1 ==> (read matches Err(error) && error.kind
            == ErrorKind::StructuredRequestShape),
        params@.len() == 1 ==> match params@[0]@ {
            ValTree::Variant(_, Some(payload)) => match *payload {
                ValTree::Record(fields) => if results != 1 {
                    read matches Err(error) && error.kind == ErrorKind::StructuredResultShape
                } else {
                    &&& unnamed(fields, "key"@) ==> (read matches Err(error) && error.kind
                        == ErrorKind::StorageFieldMissing && error.subject@ == "key"@)
                    &&& forall|key: ValTree| #[trigger]
                        named(fields, "key"@, key) ==> {
                            &&& !(key is Text) ==> (read matches Err(error) && error.kind
                                == ErrorKind::StorageFieldNotString && error.subject@ == "key"@)
                            &&& key is Text && unnamed(fields, "value"@) ==> (read matches Err(
                                error,
                            ) && error.kind == ErrorKind::StorageFieldMissing && error.subject@
                                == "value"@)
                            &&& forall|value: ValTree|
                                key is Text && #[trigger] named(fields, "value"@, value) && !(
                                value is Text) ==> (read matches Err(error) && error.kind
                                    == ErrorKind::StorageFieldNotString && error.subject@
                                    == "value"@)
                        }
                },
                _ => read matches Err(error) && error.kind == ErrorKind::StructuredPayloadShape,
            },
            _ => read matches Err(error) && error.kind == ErrorKind::StructuredRequestShape,
        },
{
    if params@.len() == 1 {
        assert(val_trees(params@)[0] == params@[0]@);
        if let ValTree::Variant(_, Some(payload)) = params@[0]@ {
            if let ValTree::Record(fields) = *payload {
                lemma_field_is_named(fields, "key"@);
                lemma_field_is_named(fields, "value"@);
                assert forall|key: ValTree| #[trigger] named(fields, "key"@, key) implies field(
                    fields,
                    "key"@,
                ) == Some(key) by {
                    lemma_named_is_field(fields, "key"@, key);
                }
                assert forall|value: ValTree| #[trigger] named(
                    fields,
                    "value"@,
                    value,
                ) implies field(fields, "value"@) == Some(value) by {
                    lemma_named_is_field(fields, "value"@, value);
                }
                assert(unnamed(fields, "key"@) ==> field(fields, "key"@) is None) by {
                    if let Some(key) = field(fields, "key"@) {
                        let i = choose|i: int| #[trigger] named_at(fields, "key"@, key, i);
                        assert(fields[i].0 == "key"@);
                    }
                }
                assert(unnamed(fields, "value"@) ==> field(fields, "value"@) is None) by {
                    if let Some(value) = field(fields, "value"@) {
                        let i = choose|i: int| #[trigger] named_at(fields, "value"@, value, i);
                        assert(fields[i].0 == "value"@);
                    }
                }
            }
        }
    }
}

/// Whether an answer is the case `case` of a record with these fields.
pub open spec fn answers(
    answer: ValTree,
    case: Seq<char>,
    fields: Seq<(Seq<char>, ValTree)>,
) -> bool {
    answer == ValTree::Variant(case, Some(Box::new(ValTree::Record(fields))))
}

/// Whether an answer tells that a key has this version already.
pub open spec fn tells_current(answer: ValTree, key: Seq<char>, version: i64) -> bool {
    answers(
        answer,
        "conflict-current"@,
        seq![("key"@, ValTree::Text(key)), ("current-version"@, ValTree::S64(version))],
    )
}

/// A new key is made once: a request that makes one is carried out with version 1
/// where the key has no value, and is told the version where it has one.
pub proof fn law_put_new(
    request: &StorageRequest,
    current: Option<i64>,
    decision: Result<Decision, HostError>,
)
    requires
        call_ensures(decide, (request, current), decision),
        request.operation@ == "put-new"@,
    ensures
        match current {
            None => decision == Ok::<Decision, HostError>(Decision::Write(1)),
            Some(version) => decision matches Ok(Decision::Refused(answer)) && tells_current(
                answer@,
                request.key@,
                version,
            ),
        },
{
}

/// A value is replaced only by a request that names its version, and gets the next
/// version; any other request is told the version, or that there is no value.
pub proof fn law_put_existing(
    request: &StorageRequest,
    current: Option<i64>,
    expected: i64,
    decision: Result<Decision, HostError>,
)
    requires
        call_ensures(decide, (request, current), decision),
        request.operation@ == "put-existing"@,
        request.expected == Ok::<i64, HostError>(expected),
    ensures
        match current {
            None => decision matches Ok(Decision::Refused(answer)) && answer@ == ValTree::Variant(
                "conflict-missing"@,
                Some(Box::new(ValTree::Bool(true))),
            ),
            Some(version) => if version != expected {
                decision matches Ok(Decision::Refused(answer)) && tells_current(
                    answer@,
                    request.key@,
                    version,
                )
            } else if version == i64::MAX {
                decision matches Err(error) && error.kind == ErrorKind::StructuredVersionOverflow
            } else {
                decision matches Ok(Decision::Write(next)) && next == version + 1
            },
        },
{
    reveal_strlit("put-new");
    reveal_strlit("put-existing");
    assert("put-new"@.len() != "put-existing"@.len());
}

/// Nothing is done for a request that replaces a value and names no version, nor
/// for one of another operation.
pub proof fn law_other_requests_fail(
    request: &StorageRequest,
    current: Option<i64>,
    decision: Result<Decision, HostError>,
)
    requires
        call_ensures(decide, (request, current), decision),
        request.operation@ != "put-new"@,
        request.operation@ == "put-existing"@ ==> request.expected is Err,
    ensures
        decision matches Err(error) && if request.operation@ == "put-existing"@ {
            error@ == request.expected->Err_0@
        } else {
            error.kind == ErrorKind::StructuredOperationUnknown
        },
{
}

/// The component is told the key, the value and the version that were written.
pub proof fn law_component_is_told_what_was_written(
    request: &StorageRequest,
    version: i64,
    told: Val,
)
    requires
        call_ensures(written_result, (request, version), told),
    ensures
        answers(
            told@,
            "written"@,
            seq![
                ("key"@, ValTree::Text(request.key@)),
                ("value"@, ValTree::Text(request.value@)),
                ("version"@, ValTree::S64(version)),
            ],
        ),
{
}

/// Whether a JSON value is the record of a value with its version.
pub open spec fn records(tree: JsonTree, key: Seq<char>, value: Seq<char>, version: i64) -> bool {
    tree matches JsonTree::Object(members) && {
        &&& members.dom().contains("format"@)
        &&& members["format"@] == JsonTree::Text("kototama.conditional-value/v1"@)
        &&& members.dom().contains("key"@)
        &&& members["key"@] == JsonTree::Text(key)
        &&& members.dom().contains("value"@)
        &&& members["value"@] == JsonTree::Text(value)
        &&& members.dom().contains("version"@)
        &&& members["version"@] == JsonTree::Whole(version as int)
    }
}

/// What a JSON value records is what its members say.
proof fn lemma_recorded(tree: JsonTree)
    ensures
        match recorded(tree) {
            Some((key, (value, version))) => records(tree, key, value, version),
            None => forall|key: Seq<char>, value: Seq<char>, version: i64|
                !#[trigger] records(tree, key, value, version),
        },
{
}

/// Bytes without a line feed that are added to a log at the end of a line, and a
/// line feed, are read after all that the log holds.
proof fn lemma_line_read(
    values: Map<Seq<char>, (Seq<char>, i64)>,
    log: Seq<u8>,
    line: Seq<u8>,
)
    requires
        log.len() == 0 || log.last() == 10,
        forall|i: int| 0 <= i < line.len() ==> #[trigger] line[i] != 10,
    ensures
        replayed(values, log + line.push(10)) == applied(replayed(values, log), bare_line(line)),
        line.len() > 0 ==> replayed(values, log + line) == applied(replayed(values, log), line),
    decreases log.len(),
{
    let feed = seq![10u8];
    let longer = log + line.push(10);
    let open = log + line;
    lemma_first_at(longer, feed, 0);
    lemma_first_at(open, feed, 0);
    assert(longer.subrange(longer.len() - 1, longer.len() as int) =~= feed);
    assert(stands_at(longer, feed, longer.len() - 1));
    let at = first_at(longer, feed, 0)->0;
    assert(longer.subrange(at, at + 1)[0] == 10);
    assert(longer[at] == 10);
    if log.len() == 0 {
        assert(longer =~= line.push(10));
        assert(open =~= line);
        if at < line.len() {
            assert(line[at] == 10);
        }
        assert(longer.take(at) =~= line);
        assert(longer.skip(at + 1) =~= seq![]);
        assert(replayed(applied(values, bare_line(line)), longer.skip(at + 1)) == applied(
            values,
            bare_line(line),
        ));
        assert(replayed(values, log) == values);
        if first_at(open, feed, 0) is Some {
            let place = first_at(open, feed, 0)->0;
            assert(open.subrange(place, place + 1)[0] == line[place]);
        }
    } else {
        lemma_first_at(log, feed, 0);
        assert(log.subrange(log.len() - 1, log.len() as int) =~= feed);
        assert(stands_at(log, feed, log.len() - 1));
        let first = first_at(log, feed, 0)->0;
        assert(log.subrange(first, first + 1) =~= longer.subrange(first, first + 1));
        assert(log.subrange(first, first + 1) =~= open.subrange(first, first + 1));
        assert(stands_at(longer, feed, first));
        assert(stands_at(open, feed, first));
        if at < first {
            assert(log.subrange(at, at + 1) =~= longer.subrange(at, at + 1));
            assert(stands_at(log, feed, at));
        }
        let place = first_at(open, feed, 0)->0;
        if place < first {
            assert(log.subrange(place, place + 1) =~= open.subrange(place, place + 1));
            assert(stands_at(log, feed, place));
        }
        assert(at == first && place == first);
        assert(longer.take(at) =~= log.take(at));
        assert(open.take(at) =~= log.take(at));
        assert(longer.skip(at + 1) =~= log.skip(at + 1) + line.push(10));
        assert(open.skip(at + 1) =~= log.skip(at + 1) + line);
        let rest = log.skip(at + 1);
        assert(rest.len() > 0 ==> rest.last() == log.last());
        lemma_line_read(applied(values, bare_line(log.take(at))), rest, line);
    }
}

/// The latest record of a key counts, and nothing but a record counts: a line that
/// is added to a log changes the value of the key that it records, to what it
/// records, and no other; a line that records nothing changes none.
pub proof fn law_each_line_counts(
    log: &str,
    longer: &str,
    line: Seq<u8>,
    before: StoredValues,
    after: StoredValues,
    size: u64,
    later_size: u64,
    max_bytes: u64,
)
    requires
        call_ensures(conditional_values, (Some(log), size, max_bytes), Ok(before)),
        call_ensures(conditional_values, (Some(longer), later_size, max_bytes), Ok(after)),
        encode_utf8(log@).len() == 0 || encode_utf8(log@).last() == 10,
        forall|i: int| 0 <= i < line.len() ==> #[trigger] line[i] != 10,
        line.len() > 0 ==> line.last() != 13,
        ({
            ||| encode_utf8(longer@) == encode_utf8(log@) + line.push(10)
            ||| encode_utf8(longer@) == encode_utf8(log@) + line.push(13).push(10)
            ||| line.len() > 0 && encode_utf8(longer@) == encode_utf8(log@) + line
        }),
    ensures
        forall|tree: JsonTree, key: Seq<char>, value: Seq<char>, version: i64|
            json_parse(line) == Some(tree) && #[trigger] records(tree, key, value, version)
                ==> after@ == before@.insert(key, (value, version)),
        (forall|tree: JsonTree, key: Seq<char>, value: Seq<char>, version: i64|
            json_parse(line) == Some(tree) ==> !#[trigger] records(tree, key, value, version))
            ==> after@ == before@,
{
    let empty = Map::<Seq<char>, (Seq<char>, i64)>::empty();
    lemma_line_read(empty, encode_utf8(log@), line);
    assert forall|i: int| 0 <= i < line.push(13).len() implies #[trigger] line.push(13)[i]
        != 10 by {
        if i < line.len() {
            assert(line[i] != 10);
        }
    }
    lemma_line_read(empty, encode_utf8(log@), line.push(13));
    assert(line.push(13).drop_last() =~= line);
    assert(after@ == applied(before@, line));
    match json_parse(line) {
        Some(tree) => {
            lemma_recorded(tree);
        },
        None => {},
    }
}

/// A log that is not there yet records nothing, and one over its quota is refused.
pub proof fn law_quota(
    log: Option<&str>,
    size: u64,
    max_bytes: u64,
    values: Result<StoredValues, HostError>,
)
    requires
        call_ensures(conditional_values, (log, size, max_bytes), values),
    ensures
        log is None ==> (values matches Ok(values) && values@ == Map::<
            Seq<char>,
            (Seq<char>, i64),
        >::empty()),
        log is Some && size > max_bytes ==> (values matches Err(error) && error.kind
            == ErrorKind::NamespaceOversize),
        log is Some && size <= max_bytes ==> values is Ok,
{
}

/// A line of a log is the compact text of its JSON value and a line feed, and
/// only an absolute log with a bound that holds the line takes it.
pub proof fn law_line_is_bounded(
    path: &HostPath,
    json: &Json,
    max_bytes: u64,
    line: Result<Vec<u8>, HostError>,
)
    requires
        call_ensures(append_json_line, (path, json, max_bytes), line),
    ensures
        line matches Ok(bytes) ==> path.absolute && 0 < max_bytes && bytes@.len()
            <= max_bytes as usize && bytes@ == json_text(json@) + seq![10u8],
        !path.absolute || max_bytes == 0 ==> (line matches Err(error) && error.kind
            == ErrorKind::LogNotAdmitted),
        path.absolute && max_bytes > 0 && json_text(json@).len() + 1 > max_bytes as usize ==> (
        line matches Err(error) && error.kind == ErrorKind::WriteOversize),
        path.absolute && max_bytes > 0 && json_text(json@).len() < max_bytes as usize
            ==> line is Ok,
{
    assert(json_text(json@).push(10) =~= json_text(json@) + seq![10u8]);
}

/// What is written is read: the log that takes the line of a request records the
/// value of the request under its key with the version that the request got, and
/// every other key as before. The version is 1 for a key that was not there, and
/// else the next after the one that the request names.
pub proof fn law_written_is_read(
    request: &StorageRequest,
    path: &HostPath,
    log: &str,
    longer: &str,
    size: u64,
    later_size: u64,
    max_bytes: u64,
    at: Result<u128, HostError>,
    version: i64,
    line: Vec<u8>,
    before: StoredValues,
    after: StoredValues,
)
    requires
        call_ensures(
            transact,
            (request, path, Some(log), size, max_bytes, at),
            Ok(Step::Append { version, line }),
        ),
        call_ensures(conditional_values, (Some(log), size, max_bytes), Ok(before)),
        call_ensures(conditional_values, (Some(longer), later_size, max_bytes), Ok(after)),
        encode_utf8(log@).len() == 0 || encode_utf8(log@).last() == 10,
        encode_utf8(longer@) == encode_utf8(log@) + line@,
    ensures
        after@ == before@.insert(request.key@, (request.value@, version)),
        before@.dom().contains(request.key@) ==> request.operation@ == "put-existing"@
            && request.expected == Ok::<i64, HostError>(before@[request.key@].1) && version
            == before@[request.key@].1 + 1,
        !before@.dom().contains(request.key@) ==> request.operation@ == "put-new"@ && version == 1,
{
}

/// The first value of a log is read, too.
pub proof fn law_first_value_is_read(
    request: &StorageRequest,
    path: &HostPath,
    log: &str,
    size: u64,
    later_size: u64,
    max_bytes: u64,
    at: Result<u128, HostError>,
    version: i64,
    line: Vec<u8>,
    after: StoredValues,
)
    requires
        call_ensures(
            transact,
            (request, path, None::<&str>, size, max_bytes, at),
            Ok(Step::Append { version, line }),
        ),
        call_ensures(conditional_values, (Some(log), later_size, max_bytes), Ok(after)),
        encode_utf8(log@) == line@,
    ensures
        request.operation@ == "put-new"@,
        version == 1,
        after@ == Map::<Seq<char>, (Seq<char>, i64)>::empty().insert(
            request.key@,
            (request.value@, 1i64),
        ),
{
}

/// A request is answered from the version that its key has in the log: what is
/// decided of that version is what is done.
pub proof fn law_log_decides(
    request: &StorageRequest,
    path: &HostPath,
    log: Option<&str>,
    size: u64,
    max_bytes: u64,
    at: Result<u128, HostError>,
    step: Result<Step, HostError>,
    before: StoredValues,
    decision: Result<Decision, HostError>,
)
    requires
        call_ensures(transact, (request, path, log, size, max_bytes, at), step),
        call_ensures(conditional_values, (log, size, max_bytes), Ok(before)),
        call_ensures(
            decide,
            (
                request,
                if before@.dom().contains(request.key@) {
                    Some(before@[request.key@].1)
                } else {
                    None
                },
            ),
            decision,
        ),
    ensures
        match decision {
            Err(error) => step matches Err(told) && told@ == error@,
            Ok(Decision::Refused(answer)) => step matches Ok(Step::Refused(told)) && told@
                == answer@,
            Ok(Decision::Write(version)) => match step {
                Ok(Step::Append { version: written, .. }) => at is Ok && written == version,
                Ok(Step::Refused(_)) => false,
                Err(error) => match at {
                    Err(untimed) => error@ == untimed@,
                    Ok(at_ms) => if !path.absolute || max_bytes == 0 {
                        error.kind == ErrorKind::LogNotAdmitted
                    } else {
                        error.kind == ErrorKind::WriteOversize && exists|tree: JsonTree|
                            #[trigger]
                            records(tree, request.key@, request.value@, version) && tree.member(
                                "recorded-at-ms"@,
                            ) == Some(JsonTree::Whole(at_ms as int)) && json_text(tree).len() + 1
                                > max_bytes as usize
                    },
                },
            },
        },
{
    if let (Ok(Decision::Write(version)), Ok(at_ms)) = (decision, at) {
        lemma_record_tells(request.key@, request.value@, version, at_ms as int);
    }
}

/// A record has its members.
proof fn lemma_record_tells(key: Seq<char>, value: Seq<char>, version: i64, at_ms: int)
    ensures
        records(value_record(key, value, version, at_ms), key, value, version),
        value_record(key, value, version, at_ms).member("recorded-at-ms"@) == Some(
            JsonTree::Whole(at_ms),
        ),
{
    reveal_strlit("format");
    reveal_strlit("key");
    reveal_strlit("recorded-at-ms");
    reveal_strlit("value");
    reveal_strlit("version");
    assert("format"@.len() == 6 && "key"@.len() == 3 && "recorded-at-ms"@.len() == 14);
    assert("value"@.len() == 5 && "version"@.len() == 7);
}

/// The record of a request tells its key, value and version, and when it was made.
pub proof fn law_record_tells_the_request(
    path: &HostPath,
    request: &StorageRequest,
    version: i64,
    at_ms: u128,
    max_write_bytes: u64,
    line: Vec<u8>,
)
    requires
        call_ensures(record_line, (path, request, version, at_ms, max_write_bytes), Ok(line)),
    ensures
        path.absolute,
        line@.len() <= max_write_bytes as usize,
        exists|tree: JsonTree| #[trigger]
            records(tree, request.key@, request.value@, version) && tree.member(
                "recorded-at-ms"@,
            ) == Some(JsonTree::Whole(at_ms as int)) && only(
                tree,
                set!["format"@, "key"@, "recorded-at-ms"@, "value"@, "version"@],
            ) && line@ == json_text(tree) + seq![10u8],
{
    let tree = value_record(request.key@, request.value@, version, at_ms as int);
    lemma_record_tells(request.key@, request.value@, version, at_ms as int);
    assert(tree->Object_0.dom() =~= set![
        "format"@,
        "key"@,
        "recorded-at-ms"@,
        "value"@,
        "version"@,
    ]);
    assert(json_text(tree).push(10) =~= json_text(tree) + seq![10u8]);
}

} // verus!
