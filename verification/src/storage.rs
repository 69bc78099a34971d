//! The storage capability: an append-only log of JSON lines, and the versioned
//! values that its lines record. A value is replaced only by a request that
//! names the version it replaces.

use vstd::prelude::*;
use vstd::slice::slice_subrange;
use vstd::utf8::encode_utf8;

use crate::error::{about, plain, told, ErrorKind, Failure, HostError};
use crate::json::{json_parse, json_text, reads_back, Json, JsonTree};
use crate::text::{find_bytes, first_at, lemma_first_at, same, stands_at};
use crate::value::{field_trees, lemma_field_trees, Val, ValTree};

verus! {

/// A path of the machine that the host runs on.
#[derive(Debug, PartialEq, Eq)]
pub struct HostPath {
    pub text: String,
    /// Whether the path does not depend on the working directory.
    pub absolute: bool,
}

impl Clone for HostPath {
    fn clone(&self) -> (copy: HostPath)
        ensures
            copy == *self,
    {
        HostPath { text: self.text.clone(), absolute: self.absolute }
    }
}

/// `std::path::Path::is_absolute`. Which paths are absolute depends on the
/// machine; it is only said that an absolute path starts with a root, so that the
/// empty path is none.
#[verifier::external_body]
fn path_is_absolute(text: &str) -> (absolute: bool)
    ensures
        absolute ==> text@.len() > 0,
{
    std::path::Path::new(text).is_absolute()
}

impl HostPath {
    /// An absolute path is not empty.
    pub open spec fn well_formed(self) -> bool {
        self.absolute ==> self.text@.len() > 0
    }

    /// The path that `text` writes.
    pub fn new(text: String) -> (path: HostPath)
        ensures
            path.well_formed(),
            path.text@ == text@,
    {
        let absolute: bool = path_is_absolute(text.as_str());
        HostPath { text, absolute }
    }
}

/// The line that a JSON value is written as: its compact text, and a line feed.
pub open spec fn line_of(tree: JsonTree) -> Seq<u8> {
    json_text(tree).push(10)
}

/// Writes a JSON value as a line.
pub fn json_line(json: &Json) -> (line: Vec<u8>)
    ensures
        line@ == line_of(json@),
        reads_back(json_text(json@), json@),
{
    let mut line: Vec<u8> = json.encode();
    line.push(10);
    line
}

/// The line that an admitted log takes, where the line is `line`.
pub open spec fn bounded_line(absolute: bool, line: Seq<u8>, max_bytes: u64) -> Result<
    Seq<u8>,
    Failure,
> {
    if !absolute || max_bytes == 0 {
        Err(plain(ErrorKind::LogNotAdmitted))
    } else if line.len() > max_bytes as usize {
        Err(plain(ErrorKind::WriteOversize))
    } else {
        Ok(line)
    }
}

/// The line that an admitted log takes for a JSON value.
pub open spec fn admitted_line(absolute: bool, tree: JsonTree, max_bytes: u64) -> Result<
    Seq<u8>,
    Failure,
> {
    bounded_line(absolute, line_of(tree), max_bytes)
}

/// Admits a line to a log.
pub fn admit_line(path: &HostPath, line: Vec<u8>, max_bytes: u64) -> (admitted: Result<
    Vec<u8>,
    HostError,
>)
    ensures
        told(admitted) == bounded_line(path.absolute, line@, max_bytes),
{
    if !path.absolute || max_bytes == 0 {
        return Err(HostError::plain(ErrorKind::LogNotAdmitted));
    }
    if line.len() > max_bytes as usize {
        return Err(HostError::plain(ErrorKind::WriteOversize));
    }
    Ok(line)
}

/// Makes the line that records a JSON value in a log.
pub fn append_json_line(path: &HostPath, json: &Json, max_bytes: u64) -> (line: Result<
    Vec<u8>,
    HostError,
>)
    ensures
        told(line) == admitted_line(path.absolute, json@, max_bytes),
        line is Ok ==> reads_back(json_text(json@), json@),
{
    admit_line(path, json_line(json), max_bytes)
}

/// The first field of this name.
pub open spec fn field(fields: Seq<(Seq<char>, ValTree)>, name: Seq<char>) -> Option<ValTree>
    decreases fields.len(),
{
    if fields.len() == 0 {
        None
    } else {
        match field(fields.drop_last(), name) {
            Some(value) => Some(value),
            None => if fields.last().0 == name {
                Some(fields.last().1)
            } else {
                None
            },
        }
    }
}

proof fn lemma_field_stays(fields: Seq<(Seq<char>, ValTree)>, n: int, name: Seq<char>)
    requires
        0 <= n <= fields.len(),
        field(fields.take(n), name) is Some,
    ensures
        field(fields, name) == field(fields.take(n), name),
    decreases fields.len(),
{
    if n < fields.len() {
        let front = fields.drop_last();
        assert(front.take(n) =~= fields.take(n));
        lemma_field_stays(front, n, name);
    } else {
        assert(fields.take(n) =~= fields);
    }
}

fn find_field<'a>(fields: &'a Vec<(String, Val)>, name: &str) -> (found: Option<&'a Val>)
    ensures
        match found {
            Some(value) => field(field_trees(fields@), name@) == Some(value@),
            None => field(field_trees(fields@), name@) is None,
        },
{
    let ghost trees = field_trees(fields@);
    proof {
        lemma_field_trees(fields@);
        assert(trees.take(0) =~= seq![]);
    }
    let mut i: usize = 0;
    while i < fields.len()
        invariant
            i <= fields@.len(),
            trees == field_trees(fields@),
            trees.len() == fields@.len(),
            field(trees.take(i as int), name@) is None,
        decreases fields.len() - i,
    {
        proof {
            lemma_field_trees(fields@);
            assert(trees.take(i + 1).drop_last() =~= trees.take(i as int));
            assert(trees.take(i + 1).last() == trees[i as int]);
        }
        if same(fields[i].0.as_str(), name) {
            proof {
                lemma_field_stays(trees, i + 1, name@);
            }
            return Some(&fields[i].1);
        }
        i += 1;
    }
    assert(trees.take(i as int) =~= trees);
    None
}

/// The text of a record's field.
pub open spec fn string_field(fields: Seq<(Seq<char>, ValTree)>, name: Seq<char>) -> Result<
    Seq<char>,
    Failure,
> {
    match field(fields, name) {
        None => Err(about(ErrorKind::StorageFieldMissing, name)),
        Some(ValTree::Text(text)) => Ok(text),
        Some(_) => Err(about(ErrorKind::StorageFieldNotString, name)),
    }
}

/// The integer of a record's field.
pub open spec fn i64_field(fields: Seq<(Seq<char>, ValTree)>, name: Seq<char>) -> Result<
    i64,
    Failure,
> {
    match field(fields, name) {
        None => Err(about(ErrorKind::StorageFieldMissing, name)),
        Some(ValTree::S64(number)) => Ok(number),
        Some(_) => Err(about(ErrorKind::StorageFieldNotS64, name)),
    }
}

/// Reads the text of a record's field.
pub fn record_string(fields: &Vec<(String, Val)>, name: &str) -> (text: Result<String, HostError>)
    ensures
        told(text) == string_field(field_trees(fields@), name@),
{
    match find_field(fields, name) {
        None => Err(HostError::about(ErrorKind::StorageFieldMissing, name)),
        Some(Val::Text(text)) => Ok(text.clone()),
        Some(_) => Err(HostError::about(ErrorKind::StorageFieldNotString, name)),
    }
}

/// Reads the integer of a record's field.
pub fn record_i64(fields: &Vec<(String, Val)>, name: &str) -> (number: Result<i64, HostError>)
    ensures
        told(number) == i64_field(field_trees(fields@), name@),
{
    match find_field(fields, name) {
        None => Err(HostError::about(ErrorKind::StorageFieldMissing, name)),
        Some(Val::S64(number)) => Ok(*number),
        Some(_) => Err(HostError::about(ErrorKind::StorageFieldNotS64, name)),
    }
}

/// A value as a log records it.
#[derive(Debug, PartialEq, Eq)]
pub struct StoredValue {
    pub key: String,
    pub value: String,
    pub version: i64,
}

/// The latest value of each key of a log.
pub struct StoredValues {
    entries: Vec<StoredValue>,
}

/// The values by key that a sequence of entries gives; the later one counts.
pub closed spec fn by_key(entries: Seq<StoredValue>) -> Map<Seq<char>, (Seq<char>, i64)>
    decreases entries.len(),
{
    if entries.len() == 0 {
        Map::empty()
    } else {
        by_key(entries.drop_last()).insert(
            entries.last().key@,
            (entries.last().value@, entries.last().version),
        )
    }
}

impl View for StoredValues {
    type V = Map<Seq<char>, (Seq<char>, i64)>;

    closed spec fn view(&self) -> Map<Seq<char>, (Seq<char>, i64)> {
        by_key(self.entries@)
    }
}

impl StoredValues {
    /// No key has two entries.
    pub closed spec fn well_formed(self) -> bool {
        forall|i: int, j: int|
            0 <= i < j < self.entries@.len() ==> #[trigger] self.entries@[i].key@
                != #[trigger] self.entries@[j].key@
    }

    /// No values.
    pub fn new() -> (values: StoredValues)
        ensures
            values.well_formed(),
            values@ == Map::<Seq<char>, (Seq<char>, i64)>::empty(),
    {
        StoredValues { entries: Vec::new() }
    }

    fn position(&self, key: &str) -> (found: Option<usize>)
        requires
            self.well_formed(),
        ensures
            match found {
                Some(i) => i < self.entries@.len() && self.entries@[i as int].key@ == key@,
                None => forall|i: int|
                    0 <= i < self.entries@.len() ==> #[trigger] self.entries@[i].key@ != key@,
            },
    {
        let mut i: usize = 0;
        while i < self.entries.len()
            invariant
                i <= self.entries@.len(),
                forall|j: int| 0 <= j < i ==> #[trigger] self.entries@[j].key@ != key@,
            decreases self.entries.len() - i,
        {
            if same(self.entries[i].key.as_str(), key) {
                return Some(i);
            }
            i += 1;
        }
        None
    }

    /// The latest value and version of a key.
    pub fn get(&self, key: &str) -> (found: Option<(&String, i64)>)
        requires
            self.well_formed(),
        ensures
            match found {
                Some((value, version)) => self@.dom().contains(key@) && self@[key@] == (
                    value@,
                    version,
                ),
                None => !self@.dom().contains(key@),
            },
    {
        proof {
            lemma_by_key(self.entries@);
        }
        match self.position(key) {
            Some(i) => Some((&self.entries[i].value, self.entries[i].version)),
            None => None,
        }
    }

    /// Records a value in the place of what its key had.
    pub fn insert(&mut self, value: StoredValue)
        requires
            old(self).well_formed(),
        ensures
            final(self).well_formed(),
            final(self)@ == old(self)@.insert(value.key@, (value.value@, value.version)),
    {
        let ghost earlier = self.entries@;
        let ghost key = value.key@;
        let ghost content = (value.value@, value.version);
        let ghost at: int;
        match self.position(value.key.as_str()) {
            Some(i) => {
                self.entries.set(i, value);
                proof {
                    at = i as int;
                }
            },
            None => {
                self.entries.push(value);
                proof {
                    at = earlier.len() as int;
                }
            },
        }
        proof {
            assert(self.entries@[at].key@ == key);
            assert(self.well_formed());
            lemma_by_key(earlier);
            lemma_by_key(self.entries@);
            let later = by_key(self.entries@);
            let wanted = by_key(earlier).insert(key, content);
            assert forall|k: Seq<char>| later.dom().contains(k) == wanted.dom().contains(k) by {
                if later.dom().contains(k) {
                    let i = choose|i: int|
                        0 <= i < self.entries@.len() && #[trigger] self.entries@[i].key@ == k;
                    if k != key {
                        assert(earlier[i].key@ == k);
                    }
                }
                if wanted.dom().contains(k) {
                    if k != key {
                        assert(by_key(earlier).dom().contains(k));
                        let i = choose|i: int|
                            0 <= i < earlier.len() && #[trigger] earlier[i].key@ == k;
                        assert(self.entries@[i].key@ == k);
                    }
                }
            }
            assert forall|k: Seq<char>| wanted.dom().contains(k) implies later[k] == wanted[k] by {
                assert(later.dom().contains(k));
                let i = choose|i: int|
                    0 <= i < self.entries@.len() && #[trigger] self.entries@[i].key@ == k;
                assert(self.entries@[i].key@ == k);
                if k != key {
                    assert(earlier[i].key@ == k);
                }
            }
            assert(later =~= wanted);
        }
    }
}

/// Where no key has two entries, the entries are the values by key.
proof fn lemma_by_key(entries: Seq<StoredValue>)
    requires
        forall|i: int, j: int|
            0 <= i < j < entries.len() ==> #[trigger] entries[i].key@ != #[trigger] entries[j].key@,
    ensures
        forall|i: int|
            0 <= i < entries.len() ==> by_key(entries).dom().contains(
                #[trigger] entries[i].key@,
            ) && by_key(entries)[entries[i].key@] == (entries[i].value@, entries[i].version),
        forall|k: Seq<char>| #[trigger]
            by_key(entries).dom().contains(k) ==> exists|i: int|
                0 <= i < entries.len() && #[trigger] entries[i].key@ == k,
    decreases entries.len(),
{
    if entries.len() > 0 {
        let front = entries.drop_last();
        lemma_by_key(front);
        assert forall|i: int| 0 <= i < entries.len() implies by_key(entries).dom().contains(
            #[trigger] entries[i].key@,
        ) && by_key(entries)[entries[i].key@] == (entries[i].value@, entries[i].version) by {
            if i < front.len() {
                assert(front[i].key@ == entries[i].key@);
                assert(entries[i].key@ != entries[entries.len() - 1].key@);
            }
        }
        assert forall|k: Seq<char>| #[trigger] by_key(entries).dom().contains(k) implies exists|
            i: int,
        |
            0 <= i < entries.len() && #[trigger] entries[i].key@ == k by {
            if k == entries.last().key@ {
                assert(entries[entries.len() - 1].key@ == k);
            } else {
                assert(by_key(front).dom().contains(k));
                let i = choose|i: int| 0 <= i < front.len() && #[trigger] front[i].key@ == k;
                assert(entries[i].key@ == k);
            }
        }
    }
}

/// What the format of a recorded value is called.
pub open spec fn value_format() -> Seq<char> {
    "kototama.conditional-value/v1"@
}

/// The key, value and version that a JSON value records, where it records one.
pub open spec fn recorded(tree: JsonTree) -> Option<(Seq<char>, (Seq<char>, i64))> {
    if tree.member_text("format"@) != Some(value_format()) {
        None
    } else {
        match (
            tree.member_text("key"@),
            tree.member_text("value"@),
            tree.member_integer("version"@),
        ) {
            (Some(key), Some(value), Some(version)) => Some((key, (value, version))),
            _ => None,
        }
    }
}

/// Reads what a JSON value records.
pub fn conditional_record(json: &Json) -> (record: Option<StoredValue>)
    ensures
        match record {
            Some(record) => recorded(json@) == Some(
                (record.key@, (record.value@, record.version)),
            ),
            None => recorded(json@) is None,
        },
{
    match json.get_text("format") {
        Some(format) => if !same(format.as_str(), "kototama.conditional-value/v1") {
            return None;
        },
        None => {
            return None;
        },
    }
    match (json.get_text("key"), json.get_text("value"), json.get_integer("version")) {
        (Some(key), Some(value), Some(version)) => Some(
            StoredValue { key: key.clone(), value: value.clone(), version },
        ),
        _ => None,
    }
}

/// A line of a log without the carriage return that ends it.
pub open spec fn bare_line(line: Seq<u8>) -> Seq<u8> {
    if line.len() > 0 && line.last() == 13 {
        line.drop_last()
    } else {
        line
    }
}

/// The values after a line. A line that records no value changes none; a blank
/// line is one, as it holds no JSON value.
pub open spec fn applied(values: Map<Seq<char>, (Seq<char>, i64)>, line: Seq<u8>) -> Map<
    Seq<char>,
    (Seq<char>, i64),
> {
    match json_parse(line) {
        None => values,
        Some(tree) => match recorded(tree) {
            None => values,
            Some((key, content)) => values.insert(key, content),
        },
    }
}

/// The values after the lines of a log, which a line feed ends each; the last
/// line need not be ended.
pub open spec fn replayed(values: Map<Seq<char>, (Seq<char>, i64)>, log: Seq<u8>) -> Map<
    Seq<char>,
    (Seq<char>, i64),
>
    decreases log.len(),
{
    if log.len() == 0 {
        values
    } else {
        match first_at(log, seq![10u8], 0) {
            None => applied(values, log),
            Some(at) => {
                proof {
                    lemma_first_at(log, seq![10u8], 0);
                }
                replayed(applied(values, bare_line(log.take(at))), log.skip(at + 1))
            },
        }
    }
}

/// The values that a log records.
pub open spec fn values_of(log: Seq<u8>) -> Map<Seq<char>, (Seq<char>, i64)> {
    replayed(Map::empty(), log)
}

fn apply_line(values: &mut StoredValues, line: &[u8])
    requires
        old(values).well_formed(),
    ensures
        final(values).well_formed(),
        final(values)@ == applied(old(values)@, line@),
{
    match Json::parse(line) {
        None => {},
        Some(json) => {
            match conditional_record(&json) {
                None => {},
                Some(record) => {
                    values.insert(record);
                },
            }
        },
    }
}

/// Reads the values that a log records.
pub fn replay(log: &[u8]) -> (values: StoredValues)
    ensures
        values.well_formed(),
        values@ == values_of(log@),
{
    let feed: [u8; 1] = [10];
    assert(feed@ =~= seq![10u8]);
    let mut values: StoredValues = StoredValues::new();
    let mut start: usize = 0;
    assert(log@.skip(0) =~= log@);
    while start < log.len()
        invariant
            start <= log@.len(),
            log@.len() == log.len(),
            feed@ == seq![10u8],
            values.well_formed(),
            replayed(values@, log@.skip(start as int)) == values_of(log@),
        decreases log.len() - start,
    {
        let rest: &[u8] = slice_subrange(log, start, log.len());
        assert(rest@ =~= log@.skip(start as int));
        match find_bytes(rest, &feed, 0) {
            None => {
                apply_line(&mut values, rest);
                return values;
            },
            Some(at) => {
                let end: usize = if at > 0 && rest[at - 1] == 13 {
                    at - 1
                } else {
                    at
                };
                let line: &[u8] = slice_subrange(rest, 0, end);
                assert(line@ =~= bare_line(rest@.take(at as int)));
                assert(rest@.skip(at + 1) =~= log@.skip(start + at + 1));
                apply_line(&mut values, line);
                start += at + 1;
            },
        }
    }
    assert(log@.skip(start as int) =~= seq![]);
    values
}

/// Checks that a log keeps within the quota of its namespace.
pub fn check_namespace(size: u64, max_bytes: u64) -> (checked: Result<(), HostError>)
    ensures
        told(checked) == if size > max_bytes {
            Err::<(), Failure>(plain(ErrorKind::NamespaceOversize))
        } else {
            Ok(())
        },
{
    if size > max_bytes {
        Err(HostError::plain(ErrorKind::NamespaceOversize))
    } else {
        Ok(())
    }
}

/// Reads the values of a namespace: none where its log does not exist yet, and
/// those that the log of `size` bytes records where it keeps within the quota.
pub fn conditional_values(log: Option<&str>, size: u64, max_bytes: u64) -> (values: Result<
    StoredValues,
    HostError,
>)
    ensures
        match values {
            Ok(values) => values.well_formed() && match log {
                None => values@ == Map::<Seq<char>, (Seq<char>, i64)>::empty(),
                Some(text) => size <= max_bytes && values@ == values_of(encode_utf8(text@)),
            },
            Err(error) => log is Some && size > max_bytes && error@ == plain(
                ErrorKind::NamespaceOversize,
            ),
        },
{
    match log {
        None => Ok(StoredValues::new()),
        Some(text) => match check_namespace(size, max_bytes) {
            Err(error) => Err(error),
            Ok(_) => Ok(replay(text.as_bytes())),
        },
    }
}

/// Whether a log ends at the end of a line.
pub open spec fn ends_line(log: Seq<u8>) -> bool {
    log.len() == 0 || log.last() == 10
}

/// A line without control characters that is added to a log at the end of a
/// line is read after all that the log holds.
pub proof fn lemma_line_added(
    values: Map<Seq<char>, (Seq<char>, i64)>,
    log: Seq<u8>,
    line: Seq<u8>,
)
    requires
        ends_line(log),
        forall|i: int| 0 <= i < line.len() ==> #[trigger] line[i] >= 0x20,
    ensures
        replayed(values, log + line.push(10)) == applied(replayed(values, log), line),
    decreases log.len(),
{
    let feed = seq![10u8];
    let longer = log + line.push(10);
    lemma_first_at(longer, feed, 0);
    assert(longer.subrange(longer.len() - 1, longer.len() as int) =~= feed);
    assert(stands_at(longer, feed, longer.len() - 1));
    let at = first_at(longer, feed, 0)->0;
    assert(longer.subrange(at, at + 1)[0] == 10);
    assert(longer[at] == 10);
    if log.len() == 0 {
        assert(longer =~= line.push(10));
        if at < line.len() {
            assert(line[at] == 10);
        }
        assert(longer.take(at) =~= line);
        assert(bare_line(line) == line);
        assert(longer.skip(at + 1) =~= seq![]);
        assert(replayed(applied(values, line), longer.skip(at + 1)) == applied(values, line));
        assert(replayed(values, log) == values);
    } else {
        lemma_first_at(log, feed, 0);
        assert(log.subrange(log.len() - 1, log.len() as int) =~= feed);
        assert(stands_at(log, feed, log.len() - 1));
        let first = first_at(log, feed, 0)->0;
        assert(log.subrange(first, first + 1) =~= longer.subrange(first, first + 1));
        assert(stands_at(longer, feed, first));
        if at < first {
            assert(log.subrange(at, at + 1) =~= longer.subrange(at, at + 1));
            assert(stands_at(log, feed, at));
        }
        assert(at == first);
        assert(longer.take(at) =~= log.take(at));
        assert(longer.skip(at + 1) =~= log.skip(at + 1) + line.push(10));
        let rest = log.skip(at + 1);
        assert(rest.len() > 0 ==> rest.last() == log.last());
        lemma_line_added(applied(values, bare_line(log.take(at))), rest, line);
    }
}

} // verus!
