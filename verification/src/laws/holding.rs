//! What the other operations are built on: JSON values, texts, refusals and stored
//! values give back what was put into them.

use vstd::prelude::*;
use vstd::utf8::{decode_utf8_encode_utf8, encode_utf8, valid_utf8};

use crate::ability::{allowed_binding, default_capability_mode};
use crate::clock::clock_reading;
use crate::config::{BindAddress, StartupMode};
use crate::endpoint::post_message;
use crate::engine::{engine_failure, error_wording, wasmtime_result};
use crate::error::{wording, ErrorKind, HostError};
use crate::json::{copies, count_members, lemma_trees, members, trees, Json, JsonTree};
use crate::laws::configuring::{lemma_on_this_machine, on_this_machine};
use crate::laws::linking::bound;
use crate::laws::reading::{lemma_decimal_writes, writes};
use crate::number::decimal;
use crate::storage::{
    admit_line, check_namespace, conditional_record, conditional_values, field, json_line,
    record_i64, record_string, replay, HostPath, StoredValue, StoredValues,
};
use crate::text::{
    bytes_after, find_bytes, find_chars, lemma_first_at, same, stands_at, starts, utf8_text,
};
use crate::value::{field_trees, Val, ValTree};

verus! {

/// Whether a JSON value is an object with these members and no other.
pub open spec fn only(tree: JsonTree, keys: Set<Seq<char>>) -> bool {
    tree matches JsonTree::Object(members) && members.dom() == keys
}

/// Whether the entry at `i` is the last of its key.
pub open spec fn last_entry(entries: Seq<(String, Json)>, key: Seq<char>, i: int) -> bool {
    &&& 0 <= i < entries.len()
    &&& entries[i].0@ == key
    &&& forall|j: int| i < j < entries.len() ==> (#[trigger] entries[j]).0@ != key
}

proof fn lemma_members(entries: Seq<(String, Json)>, key: Seq<char>)
    ensures
        members(entries).dom().contains(key) ==> exists|i: int| #[trigger]
            last_entry(entries, key, i) && members(entries)[key] == entries[i].1@,
        !members(entries).dom().contains(key) ==> forall|i: int|
            0 <= i < entries.len() ==> (#[trigger] entries[i]).0@ != key,
    decreases entries.len(),
{
    if entries.len() > 0 {
        let front = entries.drop_last();
        let last = entries.len() - 1;
        lemma_members(front, key);
        if entries[last].0@ == key {
            assert(last_entry(entries, key, last));
        } else {
            if members(front).dom().contains(key) {
                let i = choose|i: int| #[trigger]
                    last_entry(front, key, i) && members(front)[key] == front[i].1@;
                assert forall|j: int| i < j < entries.len() implies (#[trigger] entries[j]).0@
                    != key by {
                    if j < last {
                        assert(front[j] == entries[j]);
                    }
                }
                assert(last_entry(entries, key, i));
            } else {
                assert forall|i: int| 0 <= i < entries.len() implies (#[trigger] entries[i]).0@
                    != key by {
                    if i < last {
                        assert(front[i] == entries[i]);
                    }
                }
            }
        }
    }
}

/// A member of an object is what stands last under its key; nothing but an object has
/// members.
pub proof fn law_member_is_the_last_of_its_key(json: &Json, key: &str, found: Option<&Json>)
    requires
        call_ensures(Json::get, (json, key), found),
    ensures
        match *json {
            Json::Object(entries) => match found {
                Some(member) => exists|i: int| #[trigger]
                    last_entry(entries@, key@, i) && member@ == entries@[i].1@,
                None => forall|i: int|
                    0 <= i < entries@.len() ==> (#[trigger] entries@[i]).0@ != key@,
            },
            _ => found is None,
        },
{
    if let Json::Object(entries) = *json {
        lemma_members(entries@, key@);
    }
}

/// An integer is a number that fits, however it is held.
pub proof fn law_integer_is_the_number(json: &Json, found: Option<i64>)
    requires
        call_ensures(Json::as_integer, (json,), found),
    ensures
        match *json {
            Json::Signed(number) => found == Some(number),
            Json::Unsigned(number) => if number <= 0x7fff_ffff_ffff_ffff {
                found matches Some(held) && held == number
            } else {
                found is None
            },
            _ => found is None,
        },
{
}

/// A text is a text and nothing else.
pub proof fn law_text_is_the_text(json: &Json, found: Option<&String>)
    requires
        call_ensures(Json::as_text, (json,), found),
    ensures
        match *json {
            Json::Text(text) => found matches Some(held) && held@ == text@,
            _ => found is None,
        },
{
}

/// The text and the integer under a key are those of the member under it.
pub proof fn law_member_is_read_under_its_key(
    json: &Json,
    key: &str,
    member: Option<&Json>,
    text: Option<&String>,
    integer: Option<i64>,
)
    requires
        call_ensures(Json::get, (json, key), member),
        call_ensures(Json::get_text, (json, key), text),
        call_ensures(Json::get_integer, (json, key), integer),
    ensures
        text matches Some(held) ==> (member matches Some(found) && found@ == JsonTree::Text(held@)),
        text is None ==> !(member matches Some(found) && found@ is Text),
        integer matches Some(held) ==> (member matches Some(found) && found@ == JsonTree::Whole(
            held as int,
        )),
        integer is None ==> !(member matches Some(found) && (found@ matches JsonTree::Whole(number)
            && -0x8000_0000_0000_0000 <= number <= 0x7fff_ffff_ffff_ffff)),
{
}

/// An object has as many members as it has keys.
pub proof fn law_each_key_counts_once(entries: &Vec<(String, Json)>, count: usize)
    requires
        call_ensures(count_members, (entries,), count),
    ensures
        exists|keys: Set<Seq<char>>| #[trigger]
            keys.len() == count && keys.finite() && forall|key: Seq<char>| #[trigger]
                keys.contains(key) <==> exists|i: int|
                    0 <= i < entries@.len() && (#[trigger] entries@[i]).0@ == key,
{
    let keys = members(entries@).dom();
    lemma_keys(entries@);
    assert forall|key: Seq<char>| #[trigger] keys.contains(key) <==> exists|i: int|
        0 <= i < entries@.len() && (#[trigger] entries@[i]).0@ == key by {
        lemma_members(entries@, key);
        if keys.contains(key) {
            let i = choose|i: int| #[trigger] last_entry(entries@, key, i);
            assert(entries@[i].0@ == key);
        }
    }
    assert(keys.len() == count);
}

proof fn lemma_keys(entries: Seq<(String, Json)>)
    ensures
        members(entries).dom().finite(),
    decreases entries.len(),
{
    if entries.len() > 0 {
        lemma_keys(entries.drop_last());
    }
}

/// Copies are what they were copied from, in order.
pub proof fn law_copies_are_the_same(items: &Vec<Json>, copied: Vec<Json>)
    requires
        call_ensures(copies, (items,), copied),
    ensures
        copied@.len() == items@.len(),
        forall|i: int| 0 <= i < items@.len() ==> (#[trigger] copied@[i])@ == items@[i]@,
{
    lemma_trees(items@);
    lemma_trees(copied@);
    let all = trees(items@);
    assert forall|i: int| 0 <= i < items@.len() implies (#[trigger] copied@[i])@ == items@[i]@ by {
        assert(trees(copied@)[i] == all[i]);
    }
}

/// What is written as JSON reads back as it was: as bytes and as a text, whichever way
/// it is read.
pub proof fn law_json_reads_back(
    json: &Json,
    bytes: Vec<u8>,
    text: String,
    again: &[u8],
    read: Result<Json, String>,
    parsed: Option<Json>,
)
    requires
        json@.exact(127),
        call_ensures(Json::encode, (json,), bytes),
        call_ensures(Json::encode_text, (json,), text),
        again@ == bytes@,
        call_ensures(Json::read, (again,), read),
        call_ensures(Json::parse, (again,), parsed),
    ensures
        read matches Ok(same) && same@ == json@,
        parsed matches Some(same) && same@ == json@,
        encode_utf8(text@) == bytes@,
        forall|i: int| 0 <= i < bytes@.len() ==> #[trigger] bytes@[i] >= 0x20,
{
    decode_utf8_encode_utf8(bytes@);
}

/// What cannot be read is parsed as nothing, and what is read is what is parsed.
pub proof fn law_parsed_is_what_is_read(
    bytes: &[u8],
    read: Result<Json, String>,
    parsed: Option<Json>,
)
    requires
        call_ensures(Json::read, (bytes,), read),
        call_ensures(Json::parse, (bytes,), parsed),
    ensures
        match (read, parsed) {
            (Ok(one), Some(other)) => one@ == other@,
            (Err(_), None) => true,
            _ => false,
        },
{
}

/// A refusal is of the kind and about the subject that it is made with, and has the
/// cause that it is given.
pub proof fn law_refusal_is_as_made(
    kind: ErrorKind,
    subject: &str,
    cause: &str,
    plain: HostError,
    about: HostError,
    because: HostError,
)
    requires
        call_ensures(HostError::plain, (kind,), plain),
        call_ensures(HostError::about, (kind, subject), about),
        call_ensures(HostError::because, (about, cause), because),
    ensures
        plain.kind == kind && plain.subject@.len() == 0 && plain.cause is None,
        about.kind == kind && about.subject@ == subject@ && about.cause is None,
        because.kind == kind && because.subject@ == subject@ && because@.cause == Some(cause@),
{
    assert(because@.kind == about@.kind);
}

/// A refusal is told in its sentence, with its cause behind it where it has one.
pub proof fn law_cause_is_told_behind_the_sentence(
    error: &HostError,
    sentence: String,
    text: String,
)
    requires
        call_ensures(HostError::message, (error,), sentence),
        call_ensures(HostError::chain, (error,), text),
    ensures
        match error.cause {
            Some(cause) => text@ == sentence@ + ": "@ + cause@,
            None => text@ == sentence@,
        },
{
}

/// Refusals of one kind about different subjects are told apart.
pub proof fn law_subjects_are_told_apart(
    one: &HostError,
    other: &HostError,
    first: String,
    second: String,
)
    requires
        call_ensures(HostError::message, (one,), first),
        call_ensures(HostError::message, (other,), second),
        one.kind == other.kind,
    ensures
        first@ == second@ <==> one.subject@ == other.subject@,
{
    let head = wording(one.kind).0;
    let tail = wording(one.kind).1;
    assert(first@ == head + one.subject@ + tail);
    assert(second@ == head + other.subject@ + tail);
    assert((head + one.subject@ + tail).len() == head.len() + one.subject@.len() + tail.len());
    assert((head + other.subject@ + tail).len() == head.len() + other.subject@.len() + tail.len());
    if first@ == second@ {
        assert(one.subject@.len() == other.subject@.len());
        assert forall|i: int| 0 <= i < one.subject@.len() implies one.subject@[i]
            == other.subject@[i] by {
            assert(first@[head.len() + i] == one.subject@[i]);
            assert(second@[head.len() + i] == other.subject@[i]);
        }
        assert(one.subject@ =~= other.subject@);
    }
}

/// What a refusal is about is told where its sentence says what was wrong with it.
pub proof fn law_sentence_tells_what_is_wrong_with_the_subject(
    error: &HostError,
    sentence: String,
)
    requires
        call_ensures(HostError::message, (error,), sentence),
    ensures
        match error.kind {
            ErrorKind::UnrecognizedImport => sentence@ == "unrecognized aiueos Component import: "@
                + error.subject@,
            ErrorKind::InvalidOperation => sentence@ == "import "@ + error.subject@
                + " is bound to an invalid operation"@,
            ErrorKind::UnboundedAbility => sentence@ == "import "@ + error.subject@
                + " has an unbounded or incomplete ability"@,
            ErrorKind::ExportMissing => sentence@ == "Component does not export "@
                + error.subject@,
            ErrorKind::RecordFieldMissing => sentence@ == "Component record is missing "@
                + error.subject@,
            ErrorKind::StorageFieldMissing => sentence@
                == "structured storage record is missing field "@ + error.subject@,
            ErrorKind::StorageFieldNotString => sentence@ == "structured storage field "@
                + error.subject@ + " must be a string"@,
            ErrorKind::StorageFieldNotS64 => sentence@ == "structured storage field "@
                + error.subject@ + " must be s64"@,
            ErrorKind::CapabilityNotImplemented => sentence@
                == "resident provider does not implement capability "@ + error.subject@,
            ErrorKind::ResponseStatusRejected => sentence@
                == "resident capability endpoint returned HTTP "@ + error.subject@,
            ErrorKind::VariableRequired => sentence@ == error.subject@ + " is required"@,
            ErrorKind::VariableEmpty => sentence@ == error.subject@ + " must not be empty"@,
            ErrorKind::VariableNotInteger => sentence@ == error.subject@
                + " must be a positive integer"@,
            ErrorKind::VariableNotPositive => sentence@ == error.subject@ + " must be positive"@,
            ErrorKind::ComponentUnreadable => sentence@ == "cannot read Component "@
                + error.subject@,
            ErrorKind::SeedUnreadable => sentence@ == "cannot read receipt signing key "@
                + error.subject@,
            ErrorKind::EngineFailure => sentence@ == error.subject@,
            _ => true,
        },
{
    reveal_strlit("");
    let none = ""@;
    assert(none.len() == 0);
    let subject = error.subject@;
    assert(none + subject =~= subject);
    let whole = wording(error.kind).0 + subject;
    assert(whole + none =~= whole);
    assert(subject + none =~= subject);
}

/// The clock tells the time that it read, or why it could not.
pub proof fn law_clock_tells_what_it_read(
    elapsed_ms: Result<u128, String>,
    reading: Result<u128, HostError>,
)
    requires
        call_ensures(clock_reading, (elapsed_ms,), reading),
    ensures
        match (elapsed_ms, reading) {
            (Ok(millis), Ok(told)) => told == millis,
            (Err(cause), Err(error)) => error.kind == ErrorKind::ClockBeforeEpoch && error@.cause
                == Some(cause@),
            _ => false,
        },
{
}

/// A failure of the engine is told as what it was doing and what it said of it.
pub proof fn law_engine_failure_tells_what_it_was_doing(
    context: &str,
    text: &str,
    error: HostError,
    sentence: String,
)
    requires
        call_ensures(engine_failure, (context, text), error),
        call_ensures(HostError::message, (&error,), sentence),
    ensures
        sentence@ == context@ + ": "@ + text@,
{
    reveal_strlit("");
    assert(""@.len() == 0);
    assert(sentence@ =~= context@ + ": "@ + text@);
}

/// What the engine gives is kept, and how it fails is told.
pub proof fn law_engine_result_is_kept<T>(
    result: Result<T, wasmtime::Error>,
    context: &str,
    turned: Result<T, HostError>,
)
    requires
        call_ensures(wasmtime_result::<T>, (result, context), turned),
    ensures
        match (result, turned) {
            (Ok(value), Ok(kept)) => kept == value,
            (Err(cause), Err(error)) => error.kind == ErrorKind::EngineFailure && error.subject@
                == context@ + ": "@ + error_wording(cause),
            _ => false,
        },
{
}

/// An import is bound to its own interface, function and operation, and one outside
/// the closed set to none.
pub proof fn law_import_has_its_own_binding(
    name: &str,
    binding: Option<(&'static str, &'static str, &'static str)>,
)
    requires
        call_ensures(allowed_binding, (name,), binding),
    ensures
        match binding {
            Some((interface, function, operation)) => bound(
                name@,
                interface@,
                function@,
                operation@,
            ),
            None => forall|interface: Seq<char>, function: Seq<char>, operation: Seq<char>|
                !#[trigger] bound(name@, interface, function, operation),
        },
{
}

/// Where no mode is named, capabilities are bound as functions.
pub proof fn law_default_mode_is_function(mode: String)
    requires
        call_ensures(default_capability_mode, (), mode),
    ensures
        mode@ == "function"@,
        mode@ != "linear-resource"@,
{
    reveal_strlit("function");
    reveal_strlit("linear-resource");
    assert("function"@.len() == 8 && "linear-resource"@.len() == 15);
}

/// A line is the text of its value, and the line feed that ends it.
pub proof fn law_line_is_the_text_of_its_value(json: &Json, bytes: Vec<u8>, line: Vec<u8>)
    requires
        call_ensures(Json::encode, (json,), bytes),
        call_ensures(json_line, (json,), line),
    ensures
        line@ == bytes@ + seq![10u8],
        forall|i: int| 0 <= i < line@.len() - 1 ==> #[trigger] line@[i] != 10,
{
    assert(line@ =~= bytes@ + seq![10u8]);
    assert forall|i: int| 0 <= i < line@.len() - 1 implies #[trigger] line@[i] != 10 by {
        assert(bytes@[i] >= 0x20);
    }
}

/// A line is admitted as it is, and only to an absolute path within its bound.
pub proof fn law_line_is_admitted_as_it_is(
    path: &HostPath,
    line: Vec<u8>,
    max_bytes: u64,
    admitted: Result<Vec<u8>, HostError>,
)
    requires
        call_ensures(admit_line, (path, line, max_bytes), admitted),
        max_bytes <= usize::MAX,
    ensures
        match admitted {
            Ok(taken) => path.absolute && max_bytes > 0 && line@.len() <= max_bytes && taken@
                == line@,
            Err(error) => if !path.absolute || max_bytes == 0 {
                error.kind == ErrorKind::LogNotAdmitted
            } else {
                line@.len() > max_bytes && error.kind == ErrorKind::WriteOversize
            },
        },
{
}

/// Whether the field at `i` is the first of its name.
pub open spec fn first_field(fields: Seq<(String, Val)>, name: Seq<char>, i: int) -> bool {
    &&& 0 <= i < fields.len()
    &&& fields[i].0@ == name
    &&& forall|j: int| 0 <= j < i ==> (#[trigger] fields[j]).0@ != name
}

proof fn lemma_field(fields: Seq<(String, Val)>, name: Seq<char>)
    ensures
        field(field_trees(fields), name) matches Some(value) ==> exists|i: int| #[trigger]
            first_field(fields, name, i) && fields[i].1@ == value,
        field(field_trees(fields), name) is None ==> forall|i: int|
            0 <= i < fields.len() ==> (#[trigger] fields[i]).0@ != name,
    decreases fields.len(),
{
    if fields.len() > 0 {
        let front = fields.drop_last();
        let last = fields.len() - 1;
        lemma_field(front, name);
        assert(field_trees(fields).drop_last() =~= field_trees(front));
        match field(field_trees(front), name) {
            Some(value) => {
                let i = choose|i: int| #[trigger]
                    first_field(front, name, i) && front[i].1@ == value;
                assert forall|j: int| 0 <= j < i implies (#[trigger] fields[j]).0@ != name by {
                    assert(front[j] == fields[j]);
                }
                assert(first_field(fields, name, i));
            },
            None => {
                assert forall|j: int| 0 <= j < last implies (#[trigger] fields[j]).0@ != name by {
                    assert(front[j] == fields[j]);
                }
                if fields[last].0@ == name {
                    assert(first_field(fields, name, last));
                }
            },
        }
    }
}

/// A field of a record is read by its name, the first where there are more, and only as
/// what it is.
pub proof fn law_field_is_read_by_its_name(
    fields: &Vec<(String, Val)>,
    name: &str,
    text: Result<String, HostError>,
    number: Result<i64, HostError>,
)
    requires
        call_ensures(record_string, (fields, name), text),
        call_ensures(record_i64, (fields, name), number),
    ensures
        forall|i: int| #[trigger]
            first_field(fields@, name@, i) ==> match fields@[i].1@ {
                ValTree::Text(held) => (text matches Ok(read) && read@ == held) && (
                number matches Err(error) && error.kind == ErrorKind::StorageFieldNotS64
                    && error.subject@ == name@),
                ValTree::S64(held) => number == Ok::<i64, HostError>(held) && (text matches Err(
                    error,
                ) && error.kind == ErrorKind::StorageFieldNotString && error.subject@ == name@),
                _ => text is Err && number is Err,
            },
        (forall|i: int| 0 <= i < fields@.len() ==> (#[trigger] fields@[i]).0@ != name@) ==> (
        text matches Err(error) && error.kind == ErrorKind::StorageFieldMissing && error.subject@
            == name@) && (number matches Err(error) && error.kind
            == ErrorKind::StorageFieldMissing && error.subject@ == name@),
{
    lemma_field(fields@, name@);
    if let Some(value) = field(field_trees(fields@), name@) {
        let at = choose|at: int| #[trigger]
            first_field(fields@, name@, at) && fields@[at].1@ == value;
        assert forall|i: int| #[trigger] first_field(fields@, name@, i) implies i == at by {
            if i < at {
                assert(fields@[i].0@ != name@);
            }
            if at < i {
                assert(fields@[at].0@ != name@);
            }
        }
        assert(fields@[at].0@ == name@);
    } else {
        assert forall|i: int| !#[trigger] first_field(fields@, name@, i) by {
            if first_field(fields@, name@, i) {
                assert(fields@[i].0@ != name@);
            }
        }
    }
}

/// What is stored under a key is found under it, and under no other.
pub proof fn law_stored_is_found(
    values: &mut StoredValues,
    value: StoredValue,
    before: Option<(&String, i64)>,
    after: Option<(&String, i64)>,
    key: &str,
)
    requires
        call_ensures(StoredValues::insert, (values, value), ()),
        call_ensures(StoredValues::get, (&*old(values), key), before),
        call_ensures(StoredValues::get, (&*final(values), key), after),
    ensures
        if key@ == value.key@ {
            after matches Some((text, version)) && text@ == value.value@ && version
                == value.version
        } else {
            match (before, after) {
                (Some((text, version)), Some((kept, same))) => kept@ == text@ && same == version,
                (None, None) => true,
                _ => false,
            }
        },
{
}

/// A JSON value records a value exactly where it has the format of one, a key and a
/// value that are texts, and a version that is an integer.
pub proof fn law_record_is_read_as_written(json: &Json, record: Option<StoredValue>)
    requires
        call_ensures(conditional_record, (json,), record),
    ensures
        record matches Some(read) ==> {
            &&& json@.member("format"@) == Some(JsonTree::Text("kototama.conditional-value/v1"@))
            &&& json@.member("key"@) == Some(JsonTree::Text(read.key@))
            &&& json@.member("value"@) == Some(JsonTree::Text(read.value@))
            &&& json@.member("version"@) == Some(JsonTree::Whole(read.version as int))
        },
        record is None ==> !({
            &&& json@.member("format"@) == Some(JsonTree::Text("kototama.conditional-value/v1"@))
            &&& json@.member("key"@) matches Some(JsonTree::Text(_))
            &&& json@.member("value"@) matches Some(JsonTree::Text(_))
            &&& json@.member("version"@) matches Some(JsonTree::Whole(version))
                && -0x8000_0000_0000_0000 <= version <= 0x7fff_ffff_ffff_ffff
        }),
{
}

/// A log within its bound is replayed as it is.
pub proof fn law_log_is_replayed_as_it_is(
    log: &[u8],
    text: &str,
    size: u64,
    max_bytes: u64,
    replayed: StoredValues,
    values: Result<StoredValues, HostError>,
)
    requires
        log@ == encode_utf8(text@),
        size <= max_bytes,
        call_ensures(replay, (log,), replayed),
        call_ensures(conditional_values, (Some(text), size, max_bytes), values),
    ensures
        values matches Ok(read) && read@ == replayed@,
{
}

/// A namespace is refused exactly where it is beyond its bound.
pub proof fn law_namespace_is_bounded(size: u64, max_bytes: u64, checked: Result<(), HostError>)
    requires
        call_ensures(check_namespace, (size, max_bytes), checked),
    ensures
        checked is Ok <==> size <= max_bytes,
        checked matches Err(error) ==> error.kind == ErrorKind::NamespaceOversize,
{
}

/// Texts are the same exactly where they have the same characters.
pub proof fn law_same_texts(a: &str, b: &str, equal: bool)
    requires
        call_ensures(same, (a, b), equal),
    ensures
        equal <==> a@.len() == b@.len() && forall|i: int| 0 <= i < a@.len() ==> a@[i] == b@[i],
{
    if a@.len() == b@.len() && forall|i: int| 0 <= i < a@.len() ==> a@[i] == b@[i] {
        assert(a@ =~= b@);
    }
}

/// What is found stands there, and nowhere before; where nothing is found it stands
/// nowhere.
pub proof fn law_first_is_found(s: &[u8], pattern: &[u8], from: usize, found: Option<usize>)
    requires
        from <= s@.len(),
        call_ensures(find_bytes, (s, pattern, from), found),
    ensures
        match found {
            Some(at) => {
                &&& from <= at && at + pattern@.len() <= s@.len()
                &&& s@.subrange(at as int, at + pattern@.len()) == pattern@
                &&& forall|i: int|
                    from <= i < at && i + pattern@.len() <= s@.len() ==> #[trigger] s@.subrange(
                        i,
                        i + pattern@.len(),
                    ) != pattern@
            },
            None => forall|i: int|
                from <= i && i + pattern@.len() <= s@.len() ==> #[trigger] s@.subrange(
                    i,
                    i + pattern@.len(),
                ) != pattern@,
        },
{
    lemma_first_at(s@, pattern@, from as int);
    let end: int = match found {
        Some(at) => at as int,
        None => s@.len() as int + 1,
    };
    assert forall|i: int|
        from <= i < end && i + pattern@.len() <= s@.len() implies #[trigger] s@.subrange(
        i,
        i + pattern@.len(),
    ) != pattern@ by {
        assert(!stands_at(s@, pattern@, i));
    }
}

/// The same of characters.
pub proof fn law_first_text_is_found(
    s: &[char],
    pattern: &[char],
    from: usize,
    found: Option<usize>,
)
    requires
        from <= s@.len(),
        call_ensures(find_chars, (s, pattern, from), found),
    ensures
        match found {
            Some(at) => {
                &&& from <= at && at + pattern@.len() <= s@.len()
                &&& s@.subrange(at as int, at + pattern@.len()) == pattern@
                &&& forall|i: int|
                    from <= i < at && i + pattern@.len() <= s@.len() ==> #[trigger] s@.subrange(
                        i,
                        i + pattern@.len(),
                    ) != pattern@
            },
            None => forall|i: int|
                from <= i && i + pattern@.len() <= s@.len() ==> #[trigger] s@.subrange(
                    i,
                    i + pattern@.len(),
                ) != pattern@,
        },
{
    lemma_first_at(s@, pattern@, from as int);
    let end: int = match found {
        Some(at) => at as int,
        None => s@.len() as int + 1,
    };
    assert forall|i: int|
        from <= i < end && i + pattern@.len() <= s@.len() implies #[trigger] s@.subrange(
        i,
        i + pattern@.len(),
    ) != pattern@ by {
        assert(!stands_at(s@, pattern@, i));
    }
}

/// A text starts with another exactly where its first characters are those.
pub proof fn law_prefix(s: &[char], prefix: &[char], yes: bool)
    requires
        call_ensures(starts, (s, prefix), yes),
    ensures
        yes <==> exists|rest: Seq<char>| s@ == #[trigger] (prefix@ + rest),
{
    if yes {
        let rest = s@.skip(prefix@.len() as int);
        assert(s@.subrange(0, prefix@.len() as int) == prefix@);
        assert(s@ =~= prefix@ + rest);
    } else if exists|rest: Seq<char>| s@ == #[trigger] (prefix@ + rest) {
        let rest = choose|rest: Seq<char>| s@ == #[trigger] (prefix@ + rest);
        assert((prefix@ + rest).subrange(0, prefix@.len() as int) =~= prefix@);
    }
}

/// Bytes follow the bytes of the text that they are put behind.
pub proof fn law_bytes_follow_the_text(text: &str, bytes: &Vec<u8>, all: Vec<u8>)
    requires
        call_ensures(bytes_after, (text, bytes), all),
    ensures
        all@ == encode_utf8(text@) + bytes@,
{
}

/// Bytes are a text exactly where they are UTF-8, and then the text that they encode.
pub proof fn law_text_is_what_the_bytes_encode(bytes: &[u8], text: Result<&str, String>)
    requires
        call_ensures(utf8_text, (bytes,), text),
    ensures
        text is Ok <==> valid_utf8(bytes@),
        text matches Ok(read) ==> encode_utf8(read@) == bytes@,
{
    if text is Ok {
        decode_utf8_encode_utf8(bytes@);
    }
}

/// What is sent names the path and the port, tells how many bytes the payload has, and
/// ends with the payload.
pub proof fn law_message_carries_its_payload(
    port: u16,
    path: &str,
    payload: &Vec<u8>,
    bytes: Vec<u8>,
)
    requires
        call_ensures(post_message, (port, path, payload), bytes),
    ensures
        exists|host: Seq<char>, length: Seq<char>|
            #![trigger writes(host, 10, port as int), writes(length, 10, payload@.len() as int)]
            writes(host, 10, port as int) && writes(length, 10, payload@.len() as int) && bytes@
                == encode_utf8(
                "POST "@ + path@ + " HTTP/1.1\r\nHost: 127.0.0.1:"@ + host
                    + "\r\nContent-Type: application/json\r\nContent-Length: "@ + length
                    + "\r\nConnection: close\r\n\r\n"@,
            ) + payload@,
{
    lemma_decimal_writes(port as nat);
    lemma_decimal_writes(payload@.len());
    assert(writes(decimal(port as nat), 10, port as int));
    assert(writes(decimal(payload@.len()), 10, payload@.len() as int));
}

/// An address is loopback exactly where only this machine reaches it.
pub proof fn law_loopback_is_this_machine(address: &BindAddress, yes: bool)
    requires
        call_ensures(BindAddress::is_loopback, (address,), yes),
    ensures
        yes <==> on_this_machine(*address),
{
    lemma_on_this_machine(*address);
}

/// A way to start is told by its name.
pub proof fn law_startup_is_told_by_its_name(mode: &StartupMode, text: &'static str)
    requires
        call_ensures(StartupMode::as_text, (mode,), text),
    ensures
        match *mode {
            StartupMode::ExecuteMain => text@ == "execute-main"@,
            StartupMode::CompileOnly => text@ == "compile-only"@,
        },
{
}

} // verus!
