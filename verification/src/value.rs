//! Component values, and the bridge between them and JSON. The bridge admits
//! booleans, 64-bit integers, strings, records and variants, and nothing else.

use vstd::prelude::*;

use crate::error::{about, plain, ErrorKind, Failure, HostError};
use crate::json::{count_members, members, put, Json, JsonTree};
use crate::text::same;

verus! {

/// The type of a component's parameter or result, as far as the bridge admits it.
#[derive(Debug, PartialEq, Eq)]
pub enum ComponentType {
    Bool,
    S64,
    Text,
    /// The fields of a record, by name.
    Record(Vec<(String, ComponentType)>),
    /// The cases of a variant, by name, each with the type of its payload.
    Variant(Vec<(String, Option<ComponentType>)>),
    /// Any other type.
    Other,
}

/// A component value, as far as the bridge admits it.
#[derive(Debug, PartialEq, Eq)]
pub enum Val {
    Bool(bool),
    S64(i64),
    Text(String),
    Record(Vec<(String, Val)>),
    Variant(String, Option<Box<Val>>),
    /// Any other value.
    Other,
}

/// The value that a [`Val`] is.
#[verifier::ext_equal]
pub enum ValTree {
    Bool(bool),
    S64(i64),
    Text(Seq<char>),
    Record(Seq<(Seq<char>, ValTree)>),
    Variant(Seq<char>, Option<Box<ValTree>>),
    Other,
}

impl Val {
    pub open spec fn tree(self) -> ValTree
        decreases self,
    {
        match self {
            Val::Bool(truth) => ValTree::Bool(truth),
            Val::S64(number) => ValTree::S64(number),
            Val::Text(text) => ValTree::Text(text@),
            Val::Record(fields) => ValTree::Record(field_trees(fields@)),
            Val::Variant(case, payload) => ValTree::Variant(
                case@,
                match payload {
                    Some(value) => Some(Box::new(value.tree())),
                    None => None,
                },
            ),
            Val::Other => ValTree::Other,
        }
    }
}

impl View for Val {
    type V = ValTree;

    open spec fn view(&self) -> ValTree {
        self.tree()
    }
}

/// The values of the fields of a record.
pub open spec fn field_trees(fields: Seq<(String, Val)>) -> Seq<(Seq<char>, ValTree)>
    decreases fields,
{
    if fields.len() == 0 {
        seq![]
    } else {
        field_trees(fields.drop_last()).push((fields.last().0@, fields.last().1.tree()))
    }
}

/// The values of a sequence.
pub open spec fn val_trees(values: Seq<Val>) -> Seq<ValTree> {
    Seq::new(values.len(), |i: int| values[i]@)
}

/// The fields of a record, one for one.
pub proof fn lemma_field_trees(fields: Seq<(String, Val)>)
    ensures
        field_trees(fields).len() == fields.len(),
        forall|i: int|
            0 <= i < fields.len() ==> #[trigger] field_trees(fields)[i] == (
                fields[i].0@,
                fields[i].1@,
            ),
    decreases fields.len(),
{
    if fields.len() > 0 {
        lemma_field_trees(fields.drop_last());
    }
}

/// A further field gives a further value.
pub proof fn lemma_field_trees_push(fields: Seq<(String, Val)>, field: (String, Val))
    ensures
        field_trees(fields.push(field)) == field_trees(fields).push((field.0@, field.1@)),
{
    assert(fields.push(field).drop_last() =~= fields);
}

/// Where a case of this name comes first.
pub open spec fn case_at(cases: Seq<(String, Option<ComponentType>)>, name: Seq<char>) -> Option<
    int,
>
    decreases cases.len(),
{
    if cases.len() == 0 {
        None
    } else {
        match case_at(cases.drop_last(), name) {
            Some(i) => Some(i),
            None => if cases.last().0@ == name {
                Some(cases.len() - 1)
            } else {
                None
            },
        }
    }
}

/// A case is found among the cases.
pub proof fn lemma_case_at(cases: Seq<(String, Option<ComponentType>)>, name: Seq<char>)
    ensures
        case_at(cases, name) matches Some(i) ==> 0 <= i < cases.len(),
    decreases cases.len(),
{
    if cases.len() > 0 {
        lemma_case_at(cases.drop_last(), name);
    }
}

/// The value of type `ty` that a JSON value gives.
pub open spec fn admitted(ty: ComponentType, json: JsonTree) -> Result<ValTree, Failure>
    decreases ty, 1nat,
{
    match ty {
        ComponentType::Bool => match json {
            JsonTree::Bool(truth) => Ok(ValTree::Bool(truth)),
            _ => Err(plain(ErrorKind::BoolParameter)),
        },
        ComponentType::S64 => match json.integer() {
            Some(number) => Ok(ValTree::S64(number)),
            None => Err(plain(ErrorKind::S64Parameter)),
        },
        ComponentType::Text => match json.text() {
            Some(text) => Ok(ValTree::Text(text)),
            None => Err(plain(ErrorKind::StringParameter)),
        },
        ComponentType::Record(fields) => match json {
            JsonTree::Object(object) => match admitted_fields(fields@, object) {
                Err(failure) => Err(failure),
                Ok(values) => if fields@.len() != object.len() {
                    Err(plain(ErrorKind::RecordFieldUnknown))
                } else {
                    Ok(ValTree::Record(values))
                },
            },
            _ => Err(plain(ErrorKind::RecordParameter)),
        },
        ComponentType::Variant(cases) => match json {
            JsonTree::Object(object) => if object.len() != 1 && object.len() != 2 {
                Err(plain(ErrorKind::VariantShape))
            } else {
                match json.member_text("case"@) {
                    None => Err(plain(ErrorKind::VariantCaseText)),
                    Some(name) => admitted_case(cases@, name, json.member("value"@)),
                }
            },
            _ => Err(plain(ErrorKind::VariantParameter)),
        },
        ComponentType::Other => Err(plain(ErrorKind::ParameterTypeNotAdmitted)),
    }
}

/// The values of the fields of a record, in the order of its type. The first
/// field that is missing or refused counts.
pub open spec fn admitted_fields(
    fields: Seq<(String, ComponentType)>,
    object: Map<Seq<char>, JsonTree>,
) -> Result<Seq<(Seq<char>, ValTree)>, Failure>
    decreases fields, 0nat,
{
    if fields.len() == 0 {
        Ok(seq![])
    } else {
        match admitted_fields(fields.drop_last(), object) {
            Err(failure) => Err(failure),
            Ok(values) => if !object.dom().contains(fields.last().0@) {
                Err(about(ErrorKind::RecordFieldMissing, fields.last().0@))
            } else {
                match admitted(fields.last().1, object[fields.last().0@]) {
                    Err(failure) => Err(failure),
                    Ok(value) => Ok(values.push((fields.last().0@, value))),
                }
            },
        }
    }
}

/// The variant of the case `name`, with or without a payload as its type has it.
pub open spec fn admitted_case(
    cases: Seq<(String, Option<ComponentType>)>,
    name: Seq<char>,
    payload: Option<JsonTree>,
) -> Result<ValTree, Failure>
    decreases cases, 0nat,
{
    match case_at(cases, name) {
        None => Err(plain(ErrorKind::VariantCaseUnknown)),
        Some(i) => {
            proof {
                lemma_case_at(cases, name);
            }
            match (cases[i].1, payload) {
                (Some(ty), Some(json)) => match admitted(ty, json) {
                    Err(failure) => Err(failure),
                    Ok(value) => Ok(ValTree::Variant(name, Some(Box::new(value)))),
                },
                (Some(_), None) => Err(plain(ErrorKind::VariantValueMissing)),
                (None, Some(_)) => Err(plain(ErrorKind::VariantValueUnexpected)),
                (None, None) => Ok(ValTree::Variant(name, None)),
            }
        },
    }
}

proof fn lemma_fields_refused(
    fields: Seq<(String, ComponentType)>,
    n: int,
    object: Map<Seq<char>, JsonTree>,
)
    requires
        0 <= n <= fields.len(),
        admitted_fields(fields.take(n), object) is Err,
    ensures
        admitted_fields(fields, object) == admitted_fields(fields.take(n), object),
    decreases fields.len(),
{
    if n < fields.len() {
        let front = fields.drop_last();
        assert(front.take(n) =~= fields.take(n));
        lemma_fields_refused(front, n, object);
    } else {
        assert(fields.take(n) =~= fields);
    }
}

proof fn lemma_case_stays(cases: Seq<(String, Option<ComponentType>)>, n: int, name: Seq<char>)
    requires
        0 <= n <= cases.len(),
        case_at(cases.take(n), name) is Some,
    ensures
        case_at(cases, name) == case_at(cases.take(n), name),
    decreases cases.len(),
{
    if n < cases.len() {
        let front = cases.drop_last();
        assert(front.take(n) =~= cases.take(n));
        lemma_case_stays(front, n, name);
    } else {
        assert(cases.take(n) =~= cases);
    }
}

fn find_case(cases: &Vec<(String, Option<ComponentType>)>, name: &str) -> (found: Option<usize>)
    ensures
        match found {
            Some(i) => i < cases@.len() && case_at(cases@, name@) == Some(i as int),
            None => case_at(cases@, name@) is None,
        },
{
    let mut i: usize = 0;
    assert(cases@.take(0) =~= seq![]);
    while i < cases.len()
        invariant
            i <= cases@.len(),
            case_at(cases@.take(i as int), name@) is None,
        decreases cases.len() - i,
    {
        assert(cases@.take(i + 1).drop_last() =~= cases@.take(i as int));
        if same(cases[i].0.as_str(), name) {
            proof {
                lemma_case_stays(cases@, i + 1, name@);
            }
            return Some(i);
        }
        i += 1;
    }
    assert(cases@.take(i as int) =~= cases@);
    None
}

/// The type of a field is smaller than that of its record.
pub proof fn lemma_field_smaller(ty: ComponentType, i: int)
    requires
        ty matches ComponentType::Record(fields) && 0 <= i < fields@.len(),
    ensures
        decreases_to!(ty => ty->Record_0@[i].1),
{
    let fields = ty->Record_0;
    assert(decreases_to!(ty => fields@));
    assert(decreases_to!(fields@ => fields@[i]));
    assert(decreases_to!(fields@[i] => fields@[i].1));
}

/// The type of a payload is smaller than that of its variant.
pub proof fn lemma_case_smaller(ty: ComponentType, i: int)
    requires
        ty matches ComponentType::Variant(cases) && 0 <= i < cases@.len() && cases@[i].1 is Some,
    ensures
        decreases_to!(ty => ty->Variant_0@[i].1->0),
{
    let cases = ty->Variant_0;
    assert(decreases_to!(ty => cases@));
    assert(decreases_to!(cases@ => cases@[i]));
    assert(decreases_to!(cases@[i] => cases@[i].1));
    assert(decreases_to!(cases@[i].1 => cases@[i].1->0));
}

/// Reads a parameter of type `ty` from JSON.
pub fn value_from_json(ty: &ComponentType, json: &Json) -> (value: Result<Val, HostError>)
    ensures
        match value {
            Ok(value) => admitted(*ty, json@) == Ok::<ValTree, Failure>(value@),
            Err(error) => admitted(*ty, json@) == Err::<ValTree, Failure>(error@),
        },
    decreases ty,
{
    match ty {
        ComponentType::Bool => match json {
            Json::Bool(truth) => Ok(Val::Bool(*truth)),
            _ => Err(HostError::plain(ErrorKind::BoolParameter)),
        },
        ComponentType::S64 => match json.as_integer() {
            Some(number) => Ok(Val::S64(number)),
            None => Err(HostError::plain(ErrorKind::S64Parameter)),
        },
        ComponentType::Text => match json.as_text() {
            Some(text) => Ok(Val::Text(text.clone())),
            None => Err(HostError::plain(ErrorKind::StringParameter)),
        },
        ComponentType::Record(fields) => match json {
            Json::Object(entries) => {
                let ghost object = members(entries@);
                let mut values: Vec<(String, Val)> = Vec::new();
                let mut i: usize = 0;
                assert(fields@.take(0) =~= seq![]);
                while i < fields.len()
                    invariant
                        i <= fields@.len(),
                        *ty == ComponentType::Record(*fields),
                        *json == Json::Object(*entries),
                        object == members(entries@),
                        admitted_fields(fields@.take(i as int), object) == Ok::<
                            Seq<(Seq<char>, ValTree)>,
                            Failure,
                        >(field_trees(values@)),
                    decreases fields.len() - i,
                {
                    proof {
                        let longer = fields@.take(i + 1);
                        assert(longer.drop_last() =~= fields@.take(i as int));
                        assert(longer.last() == fields@[i as int]);
                        if admitted_fields(longer, object) is Err {
                            lemma_fields_refused(fields@, i + 1, object);
                        }
                        lemma_field_smaller(*ty, i as int);
                    }
                    match json.get(fields[i].0.as_str()) {
                        None => {
                            return Err(
                                HostError::about(
                                    ErrorKind::RecordFieldMissing,
                                    fields[i].0.as_str(),
                                ),
                            );
                        },
                        Some(member) => {
                            match value_from_json(&fields[i].1, member) {
                                Err(error) => {
                                    return Err(error);
                                },
                                Ok(value) => {
                                    let field: (String, Val) = (fields[i].0.clone(), value);
                                    proof {
                                        lemma_field_trees_push(values@, field);
                                    }
                                    values.push(field);
                                },
                            }
                        },
                    }
                    i += 1;
                }
                assert(fields@.take(i as int) =~= fields@);
                if fields.len() != count_members(entries) {
                    return Err(HostError::plain(ErrorKind::RecordFieldUnknown));
                }
                Ok(Val::Record(values))
            },
            _ => Err(HostError::plain(ErrorKind::RecordParameter)),
        },
        ComponentType::Variant(cases) => match json {
            Json::Object(entries) => {
                let count: usize = count_members(entries);
                if count != 1 && count != 2 {
                    return Err(HostError::plain(ErrorKind::VariantShape));
                }
                match json.get_text("case") {
                    None => Err(HostError::plain(ErrorKind::VariantCaseText)),
                    Some(name) => match find_case(cases, name.as_str()) {
                        None => Err(HostError::plain(ErrorKind::VariantCaseUnknown)),
                        Some(i) => match (&cases[i].1, json.get("value")) {
                            (Some(payload), Some(member)) => {
                                proof {
                                    lemma_case_smaller(*ty, i as int);
                                }
                                match value_from_json(payload, member) {
                                    Err(error) => Err(error),
                                    Ok(value) => Ok(
                                        Val::Variant(name.clone(), Some(Box::new(value))),
                                    ),
                                }
                            },
                            (Some(_), None) => Err(
                                HostError::plain(ErrorKind::VariantValueMissing),
                            ),
                            (None, Some(_)) => Err(
                                HostError::plain(ErrorKind::VariantValueUnexpected),
                            ),
                            (None, None) => Ok(Val::Variant(name.clone(), None)),
                        },
                    },
                }
            },
            _ => Err(HostError::plain(ErrorKind::VariantParameter)),
        },
        ComponentType::Other => Err(HostError::plain(ErrorKind::ParameterTypeNotAdmitted)),
    }
}

/// The value that holds the place of a result of type `ty`.
pub open spec fn default_of(ty: ComponentType) -> Result<ValTree, Failure>
    decreases ty, 1nat,
{
    match ty {
        ComponentType::Bool => Ok(ValTree::Bool(false)),
        ComponentType::S64 => Ok(ValTree::S64(0)),
        ComponentType::Text => Ok(ValTree::Text(seq![])),
        ComponentType::Record(fields) => match default_fields(fields@) {
            Err(failure) => Err(failure),
            Ok(values) => Ok(ValTree::Record(values)),
        },
        ComponentType::Variant(cases) => if cases@.len() == 0 {
            Err(plain(ErrorKind::ResultVariantEmpty))
        } else {
            match cases@[0].1 {
                None => Ok(ValTree::Variant(cases@[0].0@, None)),
                Some(payload) => match default_of(payload) {
                    Err(failure) => Err(failure),
                    Ok(value) => Ok(ValTree::Variant(cases@[0].0@, Some(Box::new(value)))),
                },
            }
        },
        ComponentType::Other => Err(plain(ErrorKind::ResultTypeNotAdmitted)),
    }
}

/// The values that hold the places of the fields of a record.
pub open spec fn default_fields(fields: Seq<(String, ComponentType)>) -> Result<
    Seq<(Seq<char>, ValTree)>,
    Failure,
>
    decreases fields, 0nat,
{
    if fields.len() == 0 {
        Ok(seq![])
    } else {
        match default_fields(fields.drop_last()) {
            Err(failure) => Err(failure),
            Ok(values) => match default_of(fields.last().1) {
                Err(failure) => Err(failure),
                Ok(value) => Ok(values.push((fields.last().0@, value))),
            },
        }
    }
}

proof fn lemma_defaults_refused(fields: Seq<(String, ComponentType)>, n: int)
    requires
        0 <= n <= fields.len(),
        default_fields(fields.take(n)) is Err,
    ensures
        default_fields(fields) == default_fields(fields.take(n)),
    decreases fields.len(),
{
    if n < fields.len() {
        let front = fields.drop_last();
        assert(front.take(n) =~= fields.take(n));
        lemma_defaults_refused(front, n);
    } else {
        assert(fields.take(n) =~= fields);
    }
}

/// Makes a value that holds the place of a result.
pub fn default_value(ty: &ComponentType) -> (value: Result<Val, HostError>)
    ensures
        match value {
            Ok(value) => default_of(*ty) == Ok::<ValTree, Failure>(value@),
            Err(error) => default_of(*ty) == Err::<ValTree, Failure>(error@),
        },
    decreases ty,
{
    match ty {
        ComponentType::Bool => Ok(Val::Bool(false)),
        ComponentType::S64 => Ok(Val::S64(0)),
        ComponentType::Text => Ok(Val::Text(String::new())),
        ComponentType::Record(fields) => {
            let mut values: Vec<(String, Val)> = Vec::new();
            let mut i: usize = 0;
            assert(fields@.take(0) =~= seq![]);
            while i < fields.len()
                invariant
                    i <= fields@.len(),
                    *ty == ComponentType::Record(*fields),
                    default_fields(fields@.take(i as int)) == Ok::<
                        Seq<(Seq<char>, ValTree)>,
                        Failure,
                    >(field_trees(values@)),
                decreases fields.len() - i,
            {
                proof {
                    let longer = fields@.take(i + 1);
                    assert(longer.drop_last() =~= fields@.take(i as int));
                    assert(longer.last() == fields@[i as int]);
                    if default_fields(longer) is Err {
                        lemma_defaults_refused(fields@, i + 1);
                    }
                    lemma_field_smaller(*ty, i as int);
                }
                match default_value(&fields[i].1) {
                    Err(error) => {
                        return Err(error);
                    },
                    Ok(value) => {
                        let field: (String, Val) = (fields[i].0.clone(), value);
                        proof {
                            lemma_field_trees_push(values@, field);
                        }
                        values.push(field);
                    },
                }
                i += 1;
            }
            assert(fields@.take(i as int) =~= fields@);
            Ok(Val::Record(values))
        },
        ComponentType::Variant(cases) => {
            if cases.len() == 0 {
                return Err(HostError::plain(ErrorKind::ResultVariantEmpty));
            }
            match &cases[0].1 {
                None => Ok(Val::Variant(cases[0].0.clone(), None)),
                Some(payload) => {
                    proof {
                        lemma_case_smaller(*ty, 0);
                    }
                    match default_value(payload) {
                        Err(error) => Err(error),
                        Ok(value) => Ok(Val::Variant(cases[0].0.clone(), Some(Box::new(value)))),
                    }
                },
            }
        },
        ComponentType::Other => Err(HostError::plain(ErrorKind::ResultTypeNotAdmitted)),
    }
}

/// The JSON value that a component value is reported as.
pub open spec fn reported(value: ValTree) -> Result<JsonTree, Failure>
    decreases value, 1nat,
{
    match value {
        ValTree::Bool(truth) => Ok(JsonTree::Bool(truth)),
        ValTree::S64(number) => Ok(JsonTree::Whole(number as int)),
        ValTree::Text(text) => Ok(JsonTree::Text(text)),
        ValTree::Record(fields) => match reported_fields(fields) {
            Err(failure) => Err(failure),
            Ok(object) => Ok(JsonTree::Object(object)),
        },
        ValTree::Variant(case, payload) => match payload {
            None => Ok(JsonTree::Object(map!["case"@ => JsonTree::Text(case)])),
            Some(payload) => match reported(*payload) {
                Err(failure) => Err(failure),
                Ok(json) => Ok(
                    JsonTree::Object(map!["case"@ => JsonTree::Text(case), "value"@ => json]),
                ),
            },
        },
        ValTree::Other => Err(plain(ErrorKind::ResultTypeNotAdmitted)),
    }
}

/// The members that the fields of a record are reported as.
pub open spec fn reported_fields(fields: Seq<(Seq<char>, ValTree)>) -> Result<
    Map<Seq<char>, JsonTree>,
    Failure,
>
    decreases fields, 0nat,
{
    if fields.len() == 0 {
        Ok(Map::empty())
    } else {
        match reported_fields(fields.drop_last()) {
            Err(failure) => Err(failure),
            Ok(object) => match reported(fields.last().1) {
                Err(failure) => Err(failure),
                Ok(json) => Ok(object.insert(fields.last().0, json)),
            },
        }
    }
}

proof fn lemma_reported_refused(fields: Seq<(Seq<char>, ValTree)>, n: int)
    requires
        0 <= n <= fields.len(),
        reported_fields(fields.take(n)) is Err,
    ensures
        reported_fields(fields) == reported_fields(fields.take(n)),
    decreases fields.len(),
{
    if n < fields.len() {
        let front = fields.drop_last();
        assert(front.take(n) =~= fields.take(n));
        lemma_reported_refused(front, n);
    } else {
        assert(fields.take(n) =~= fields);
    }
}

proof fn lemma_val_field_smaller(value: Val, i: int)
    requires
        value matches Val::Record(fields) && 0 <= i < fields@.len(),
    ensures
        decreases_to!(value => value->Record_0@[i].1),
{
    let fields = value->Record_0;
    assert(decreases_to!(value => fields@));
    assert(decreases_to!(fields@ => fields@[i]));
    assert(decreases_to!(fields@[i] => fields@[i].1));
}

/// Reports a component value as JSON.
pub fn value_to_json(value: &Val) -> (json: Result<Json, HostError>)
    ensures
        match json {
            Ok(json) => reported(value@) == Ok::<JsonTree, Failure>(json@),
            Err(error) => reported(value@) == Err::<JsonTree, Failure>(error@),
        },
    decreases value,
{
    match value {
        Val::Bool(truth) => Ok(Json::Bool(*truth)),
        Val::S64(number) => Ok(Json::Signed(*number)),
        Val::Text(text) => Ok(Json::Text(text.clone())),
        Val::Record(fields) => {
            let mut entries: Vec<(String, Json)> = Vec::new();
            let mut i: usize = 0;
            let ghost trees = field_trees(fields@);
            proof {
                lemma_field_trees(fields@);
                assert(trees.take(0) =~= seq![]);
            }
            while i < fields.len()
                invariant
                    i <= fields@.len(),
                    *value == Val::Record(*fields),
                    trees == field_trees(fields@),
                    trees.len() == fields@.len(),
                    reported_fields(trees.take(i as int)) == Ok::<
                        Map<Seq<char>, JsonTree>,
                        Failure,
                    >(members(entries@)),
                decreases fields.len() - i,
            {
                proof {
                    lemma_field_trees(fields@);
                    let longer = trees.take(i + 1);
                    assert(longer.drop_last() =~= trees.take(i as int));
                    assert(longer.last() == trees[i as int]);
                    if reported_fields(longer) is Err {
                        lemma_reported_refused(trees, i + 1);
                    }
                    lemma_val_field_smaller(*value, i as int);
                }
                match value_to_json(&fields[i].1) {
                    Err(error) => {
                        return Err(error);
                    },
                    Ok(json) => {
                        put(&mut entries, fields[i].0.as_str(), json);
                    },
                }
                i += 1;
            }
            assert(trees.take(i as int) =~= trees);
            Ok(Json::Object(entries))
        },
        Val::Variant(case, payload) => {
            let mut entries: Vec<(String, Json)> = Vec::new();
            put(&mut entries, "case", Json::Text(case.clone()));
            match payload {
                None => Ok(Json::Object(entries)),
                Some(payload) => {
                    match value_to_json(payload) {
                        Err(error) => Err(error),
                        Ok(json) => {
                            put(&mut entries, "value", json);
                            Ok(Json::Object(entries))
                        },
                    }
                },
            }
        },
        Val::Other => Err(HostError::plain(ErrorKind::ResultTypeNotAdmitted)),
    }
}

/// Whether a value is of type `ty`.
pub open spec fn has_type(ty: ComponentType, value: ValTree) -> bool
    decreases ty, 1nat,
{
    match (ty, value) {
        (ComponentType::Bool, ValTree::Bool(_)) => true,
        (ComponentType::S64, ValTree::S64(_)) => true,
        (ComponentType::Text, ValTree::Text(_)) => true,
        (ComponentType::Record(fields), ValTree::Record(values)) => have_types(fields@, values),
        (ComponentType::Variant(cases), ValTree::Variant(name, payload)) => case_has_type(
            cases@,
            name,
            payload,
        ),
        _ => false,
    }
}

/// Whether values are the fields of a record, by name and type and in order.
pub open spec fn have_types(
    fields: Seq<(String, ComponentType)>,
    values: Seq<(Seq<char>, ValTree)>,
) -> bool
    decreases fields, 0nat,
{
    if fields.len() == 0 {
        values.len() == 0
    } else {
        &&& values.len() > 0
        &&& values.last().0 == fields.last().0@
        &&& has_type(fields.last().1, values.last().1)
        &&& have_types(fields.drop_last(), values.drop_last())
    }
}

/// Whether a case of this name takes this payload, or none.
pub open spec fn case_has_type(
    cases: Seq<(String, Option<ComponentType>)>,
    name: Seq<char>,
    payload: Option<Box<ValTree>>,
) -> bool
    decreases cases, 0nat,
{
    match case_at(cases, name) {
        None => false,
        Some(i) => {
            proof {
                lemma_case_at(cases, name);
            }
            match (cases[i].1, payload) {
                (Some(ty), Some(value)) => has_type(ty, *value),
                (None, None) => true,
                _ => false,
            }
        },
    }
}

/// Whether no record of a type has two fields of one name.
pub open spec fn distinct_fields(ty: ComponentType) -> bool
    decreases ty, 1nat,
{
    match ty {
        ComponentType::Record(fields) => distinct_names(fields@),
        ComponentType::Variant(cases) => distinct_payloads(cases@),
        _ => true,
    }
}

/// Whether no two fields have one name, and so on within each.
pub open spec fn distinct_names(fields: Seq<(String, ComponentType)>) -> bool
    decreases fields, 0nat,
{
    if fields.len() == 0 {
        true
    } else {
        &&& distinct_names(fields.drop_last())
        &&& distinct_fields(fields.last().1)
        &&& forall|i: int|
            0 <= i < fields.len() - 1 ==> (#[trigger] fields[i]).0@ != fields.last().0@
    }
}

/// Whether the fields within each case have names of their own.
pub open spec fn distinct_payloads(cases: Seq<(String, Option<ComponentType>)>) -> bool
    decreases cases, 0nat,
{
    if cases.len() == 0 {
        true
    } else {
        &&& distinct_payloads(cases.drop_last())
        &&& match cases.last().1 {
            Some(ty) => distinct_fields(ty),
            None => true,
        }
    }
}

proof fn lemma_distinct_payload(cases: Seq<(String, Option<ComponentType>)>, i: int)
    requires
        distinct_payloads(cases),
        0 <= i < cases.len(),
    ensures
        cases[i].1 matches Some(ty) ==> distinct_fields(ty),
    decreases cases.len(),
{
    if i < cases.len() - 1 {
        lemma_distinct_payload(cases.drop_last(), i);
    }
}

/// What the bridge admits is of the type that it was admitted as.
pub proof fn lemma_admitted_has_type(ty: ComponentType, json: JsonTree)
    ensures
        admitted(ty, json) matches Ok(value) ==> has_type(ty, value),
    decreases ty, 1nat,
{
    match ty {
        ComponentType::Record(fields) => match json {
            JsonTree::Object(object) => {
                lemma_admitted_have_types(fields@, object);
            },
            _ => {},
        },
        ComponentType::Variant(cases) => match json.member_text("case"@) {
            Some(name) => {
                lemma_case_at(cases@, name);
                match case_at(cases@, name) {
                    Some(i) => match (cases@[i].1, json.member("value"@)) {
                        (Some(payload), Some(member)) => {
                            lemma_case_smaller(ty, i);
                            lemma_admitted_has_type(payload, member);
                        },
                        _ => {},
                    },
                    None => {},
                }
            },
            None => {},
        },
        _ => {},
    }
}

proof fn lemma_admitted_have_types(
    fields: Seq<(String, ComponentType)>,
    object: Map<Seq<char>, JsonTree>,
)
    ensures
        admitted_fields(fields, object) matches Ok(values) ==> have_types(fields, values),
    decreases fields, 0nat,
{
    if fields.len() > 0 {
        lemma_admitted_have_types(fields.drop_last(), object);
        lemma_admitted_has_type(fields.last().1, object[fields.last().0@]);
        match admitted_fields(fields, object) {
            Ok(values) => {
                let earlier = admitted_fields(fields.drop_last(), object)->Ok_0;
                assert(values.drop_last() =~= earlier);
            },
            Err(_) => {},
        }
    }
}

/// What holds the place of a result is of the type of the result.
pub proof fn lemma_default_has_type(ty: ComponentType)
    ensures
        default_of(ty) matches Ok(value) ==> has_type(ty, value),
    decreases ty, 1nat,
{
    match ty {
        ComponentType::Record(fields) => {
            lemma_default_have_types(fields@);
        },
        ComponentType::Variant(cases) => {
            if cases@.len() > 0 {
                lemma_first_case(cases@);
                match cases@[0].1 {
                    Some(payload) => {
                        lemma_case_smaller(ty, 0);
                        lemma_default_has_type(payload);
                    },
                    None => {},
                }
            }
        },
        _ => {},
    }
}

proof fn lemma_default_have_types(fields: Seq<(String, ComponentType)>)
    ensures
        default_fields(fields) matches Ok(values) ==> have_types(fields, values),
    decreases fields, 0nat,
{
    if fields.len() > 0 {
        lemma_default_have_types(fields.drop_last());
        lemma_default_has_type(fields.last().1);
        match default_fields(fields) {
            Ok(values) => {
                let earlier = default_fields(fields.drop_last())->Ok_0;
                assert(values.drop_last() =~= earlier);
            },
            Err(_) => {},
        }
    }
}

proof fn lemma_first_case(cases: Seq<(String, Option<ComponentType>)>)
    requires
        cases.len() > 0,
    ensures
        case_at(cases, cases[0].0@) == Some(0int),
    decreases cases.len(),
{
    if cases.len() > 1 {
        lemma_first_case(cases.drop_last());
    } else {
        assert(case_at(cases.drop_last(), cases[0].0@) is None);
    }
}

/// Every value of a type is reported, and what it is reported as is admitted as
/// that value again.
pub proof fn lemma_reported_is_admitted(ty: ComponentType, value: ValTree)
    requires
        distinct_fields(ty),
        has_type(ty, value),
    ensures
        reported(value) matches Ok(json) && admitted(ty, json) == Ok::<ValTree, Failure>(value),
    decreases ty, 1nat,
{
    match (ty, value) {
        (ComponentType::Record(fields), ValTree::Record(values)) => {
            lemma_fields_reported(fields@, values);
            let object = reported_fields(values)->Ok_0;
            lemma_fields_admitted(fields@, values, object);
        },
        (ComponentType::Variant(cases), ValTree::Variant(name, payload)) => {
            reveal_strlit("case");
            reveal_strlit("value");
            assert("case"@.len() == 4 && "value"@.len() == 5);
            lemma_case_at(cases@, name);
            let i = case_at(cases@, name)->0;
            match payload {
                Some(inner) => {
                    lemma_case_smaller(ty, i);
                    lemma_distinct_payload(cases@, i);
                    lemma_reported_is_admitted(cases@[i].1->0, *inner);
                    let json = reported(value)->Ok_0;
                    let object = json->Object_0;
                    assert(object.dom() =~= set!["case"@, "value"@]);
                    assert(object.len() == 2);
                    assert(json.member("case"@) == Some(JsonTree::Text(name)));
                    assert(json.member("value"@) == Some(reported(*inner)->Ok_0));
                },
                None => {
                    let json = reported(value)->Ok_0;
                    let object = json->Object_0;
                    assert(object.dom() =~= set!["case"@]);
                    assert(object.len() == 1);
                    assert(json.member("case"@) == Some(JsonTree::Text(name)));
                    assert(json.member("value"@) is None);
                },
            }
        },
        _ => {},
    }
}

/// The fields of a record are reported as a member each.
proof fn lemma_fields_reported(
    fields: Seq<(String, ComponentType)>,
    values: Seq<(Seq<char>, ValTree)>,
)
    requires
        distinct_names(fields),
        have_types(fields, values),
    ensures
        values.len() == fields.len(),
        reported_fields(values) is Ok,
        reported_fields(values)->Ok_0.dom().finite(),
        reported_fields(values)->Ok_0.len() == fields.len(),
        forall|i: int|
            0 <= i < fields.len() ==> {
                let name = (#[trigger] fields[i]).0@;
                &&& reported_fields(values)->Ok_0.dom().contains(name)
                &&& reported(values[i].1) == Ok::<JsonTree, Failure>(
                    reported_fields(values)->Ok_0[name],
                )
            },
        forall|key: Seq<char>| #[trigger]
            reported_fields(values)->Ok_0.dom().contains(key) ==> exists|i: int|
                0 <= i < fields.len() && #[trigger] fields[i].0@ == key,
    decreases fields, 0nat,
{
    if fields.len() > 0 {
        let front = fields.drop_last();
        let earlier = values.drop_last();
        let last = fields.len() - 1;
        lemma_fields_reported(front, earlier);
        lemma_reported_is_admitted(fields.last().1, values.last().1);
        let before = reported_fields(earlier)->Ok_0;
        let after = reported_fields(values)->Ok_0;
        let key = fields.last().0@;
        if before.dom().contains(key) {
            let i = choose|i: int| 0 <= i < front.len() && #[trigger] front[i].0@ == key;
            assert(fields[i].0@ != key);
        }
        assert(after.dom() =~= before.dom().insert(key));
        assert forall|i: int| 0 <= i < fields.len() implies {
            let name = (#[trigger] fields[i]).0@;
            &&& after.dom().contains(name)
            &&& reported(values[i].1) == Ok::<JsonTree, Failure>(after[name])
        } by {
            if i < last {
                assert(front[i] == fields[i]);
                assert(earlier[i] == values[i]);
                assert(fields[i].0@ != key);
            }
        }
        assert forall|k: Seq<char>| #[trigger] after.dom().contains(k) implies exists|i: int|
            0 <= i < fields.len() && #[trigger] fields[i].0@ == k by {
            if k == key {
                assert(fields[last].0@ == k);
            } else {
                assert(before.dom().contains(k));
                let i = choose|i: int| 0 <= i < front.len() && #[trigger] front[i].0@ == k;
                assert(fields[i].0@ == k);
            }
        }
    } else {
        assert(reported_fields(values)->Ok_0 =~= Map::empty());
    }
}

/// The fields of a record are admitted from a member each.
proof fn lemma_fields_admitted(
    fields: Seq<(String, ComponentType)>,
    values: Seq<(Seq<char>, ValTree)>,
    object: Map<Seq<char>, JsonTree>,
)
    requires
        distinct_names(fields),
        have_types(fields, values),
        values.len() == fields.len(),
        forall|i: int|
            0 <= i < fields.len() ==> {
                let name = (#[trigger] fields[i]).0@;
                &&& object.dom().contains(name)
                &&& reported(values[i].1) == Ok::<JsonTree, Failure>(object[name])
            },
    ensures
        admitted_fields(fields, object) == Ok::<Seq<(Seq<char>, ValTree)>, Failure>(values),
    decreases fields, 0nat,
{
    if fields.len() > 0 {
        let front = fields.drop_last();
        let earlier = values.drop_last();
        let last = fields.len() - 1;
        assert forall|i: int| 0 <= i < front.len() implies {
            let name = (#[trigger] front[i]).0@;
            &&& object.dom().contains(name)
            &&& reported(earlier[i].1) == Ok::<JsonTree, Failure>(object[name])
        } by {
            assert(front[i] == fields[i]);
            assert(earlier[i] == values[i]);
        }
        lemma_fields_admitted(front, earlier, object);
        lemma_reported_is_admitted(fields.last().1, values.last().1);
        assert(object.dom().contains(fields[last].0@));
        assert(earlier.push((fields[last].0@, values[last].1)) =~= values);
    } else {
        assert(values =~= seq![]);
    }
}

/// What the bridge admits from JSON it reports, and admits what it reported as
/// the same value; where the JSON value holds no extras, it is reported itself.
pub proof fn lemma_bridge_round_trip(ty: ComponentType, json: JsonTree, value: ValTree)
    requires
        distinct_fields(ty),
        admitted(ty, json) == Ok::<ValTree, Failure>(value),
    ensures
        reported(value) matches Ok(told) && admitted(ty, told) == Ok::<ValTree, Failure>(value),
        without_extras(ty, json) ==> reported(value) == Ok::<JsonTree, Failure>(json),
{
    lemma_admitted_has_type(ty, json);
    lemma_reported_is_admitted(ty, value);
    if without_extras(ty, json) {
        lemma_admitted_is_reported(ty, json);
    }
}

/// Whether a JSON value holds nothing that the bridge passes over as type `ty`: a
/// case without a payload has no further key. An object has finitely many members.
pub open spec fn without_extras(ty: ComponentType, json: JsonTree) -> bool
    decreases ty, 1nat,
{
    match (ty, json) {
        (ComponentType::Record(fields), JsonTree::Object(object)) => object.dom().finite()
            && fields_without_extras(fields@, object),
        (ComponentType::Variant(cases), JsonTree::Object(object)) => object.dom().finite()
            && case_without_extras(cases@, json, object),
        _ => true,
    }
}

/// Whether the members of a record hold nothing that is passed over.
pub open spec fn fields_without_extras(
    fields: Seq<(String, ComponentType)>,
    object: Map<Seq<char>, JsonTree>,
) -> bool
    decreases fields, 0nat,
{
    if fields.len() == 0 {
        true
    } else {
        &&& fields_without_extras(fields.drop_last(), object)
        &&& without_extras(fields.last().1, object[fields.last().0@])
    }
}

/// Whether a case holds nothing that is passed over.
pub open spec fn case_without_extras(
    cases: Seq<(String, Option<ComponentType>)>,
    json: JsonTree,
    object: Map<Seq<char>, JsonTree>,
) -> bool
    decreases cases, 0nat,
{
    match json.member_text("case"@) {
        None => true,
        Some(name) => match case_at(cases, name) {
            None => true,
            Some(i) => {
                proof {
                    lemma_case_at(cases, name);
                }
                match (cases[i].1, json.member("value"@)) {
                    (Some(ty), Some(payload)) => without_extras(ty, payload),
                    _ => object.len() == 1,
                }
            },
        },
    }
}

/// What a JSON value without extras is admitted as is reported as that JSON value.
pub proof fn lemma_admitted_is_reported(ty: ComponentType, json: JsonTree)
    requires
        distinct_fields(ty),
        without_extras(ty, json),
        admitted(ty, json) is Ok,
    ensures
        reported(admitted(ty, json)->Ok_0) == Ok::<JsonTree, Failure>(json),
    decreases ty, 1nat,
{
    match (ty, json) {
        (ComponentType::Record(fields), JsonTree::Object(object)) => {
            lemma_fields_are_reported(fields@, object);
            let values = admitted_fields(fields@, object)->Ok_0;
            let told = reported_fields(values)->Ok_0;
            assert(told.dom().subset_of(object.dom()));
            assert(told.dom().len() == object.dom().len());
            lemma_same_size(told.dom(), object.dom());
            assert(told =~= object);
        },
        (ComponentType::Variant(cases), JsonTree::Object(object)) => {
            reveal_strlit("case");
            reveal_strlit("value");
            assert("case"@.len() == 4 && "value"@.len() == 5);
            let name = json.member_text("case"@)->0;
            lemma_case_at(cases@, name);
            let i = case_at(cases@, name)->0;
            match (cases@[i].1, json.member("value"@)) {
                (Some(payload), Some(member)) => {
                    lemma_case_smaller(ty, i);
                    lemma_distinct_payload(cases@, i);
                    lemma_admitted_is_reported(payload, member);
                    let told = map!["case"@ => JsonTree::Text(name), "value"@ => member];
                    assert(told.dom() =~= set!["case"@, "value"@]);
                    assert(told.dom().subset_of(object.dom()));
                    lemma_two_members(object);
                    lemma_same_size(told.dom(), object.dom());
                    assert(told =~= object);
                },
                _ => {
                    let told = map!["case"@ => JsonTree::Text(name)];
                    assert(told.dom() =~= set!["case"@]);
                    assert(told.dom().subset_of(object.dom()));
                    lemma_same_size(told.dom(), object.dom());
                    assert(told =~= object);
                },
            }
        },
        _ => {},
    }
}

/// An object with one or two members that has both a case and a value has two.
proof fn lemma_two_members(object: Map<Seq<char>, JsonTree>)
    requires
        object.dom().finite(),
        object.len() == 1 || object.len() == 2,
        object.dom().contains("case"@),
        object.dom().contains("value"@),
        "case"@ != "value"@,
    ensures
        object.dom().len() == 2,
{
    vstd::set_lib::lemma_len_subset(set!["case"@, "value"@], object.dom());
    assert(set!["case"@, "value"@].len() == 2);
}

/// A set within a finite one of the same size is that set.
proof fn lemma_same_size(part: Set<Seq<char>>, all: Set<Seq<char>>)
    requires
        part.subset_of(all),
        all.finite(),
        part.len() == all.len(),
    ensures
        part == all,
{
    vstd::set_lib::lemma_subset_equality(part, all);
}

/// The members that the fields of a record were admitted from are what the fields
/// are reported as.
proof fn lemma_fields_are_reported(
    fields: Seq<(String, ComponentType)>,
    object: Map<Seq<char>, JsonTree>,
)
    requires
        distinct_names(fields),
        fields_without_extras(fields, object),
        admitted_fields(fields, object) is Ok,
    ensures
        ({
            let told = reported_fields(admitted_fields(fields, object)->Ok_0);
            &&& told is Ok
            &&& told->Ok_0.dom().finite()
            &&& told->Ok_0.dom().len() == fields.len()
            &&& forall|key: Seq<char>| #[trigger]
                told->Ok_0.dom().contains(key) ==> object.dom().contains(key) && told->Ok_0[key]
                    == object[key]
            &&& forall|key: Seq<char>| #[trigger]
                told->Ok_0.dom().contains(key) ==> exists|i: int|
                    0 <= i < fields.len() && #[trigger] fields[i].0@ == key
        }),
    decreases fields, 0nat,
{
    let values = admitted_fields(fields, object)->Ok_0;
    if fields.len() > 0 {
        let front = fields.drop_last();
        let last = fields.len() - 1;
        let key = fields.last().0@;
        lemma_fields_are_reported(front, object);
        lemma_admitted_is_reported(fields.last().1, object[key]);
        let earlier = admitted_fields(front, object)->Ok_0;
        assert(values.drop_last() =~= earlier);
        let before = reported_fields(earlier)->Ok_0;
        let after = reported_fields(values)->Ok_0;
        if before.dom().contains(key) {
            let i = choose|i: int| 0 <= i < front.len() && #[trigger] front[i].0@ == key;
            assert(fields[i].0@ != key);
        }
        assert(after.dom() =~= before.dom().insert(key));
        assert forall|k: Seq<char>| #[trigger] after.dom().contains(k) implies exists|i: int|
            0 <= i < fields.len() && #[trigger] fields[i].0@ == k by {
            if k == key {
                assert(fields[last].0@ == k);
            } else {
                assert(before.dom().contains(k));
                let i = choose|i: int| 0 <= i < front.len() && #[trigger] front[i].0@ == k;
                assert(fields[i].0@ == k);
            }
        }
    } else {
        assert(reported_fields(values)->Ok_0 =~= Map::empty());
    }
}

/// Whether a value nests at most `depth` records and variants.
pub open spec fn nests(value: ValTree, depth: nat) -> bool
    decreases value,
{
    match value {
        ValTree::Record(fields) => depth > 0 && forall|i: int|
            0 <= i < fields.len() ==> nests((#[trigger] fields[i]).1, (depth - 1) as nat),
        ValTree::Variant(_, Some(payload)) => depth > 0 && nests(*payload, (depth - 1) as nat),
        ValTree::Variant(_, None) => depth > 0,
        _ => true,
    }
}

/// What a value is reported as reads back from its text, as deep as the value
/// nests.
pub proof fn lemma_reported_is_exact(value: ValTree, depth: nat)
    requires
        nests(value, depth),
    ensures
        reported(value) matches Ok(json) ==> json.exact(depth),
    decreases value, 1nat,
{
    match value {
        ValTree::Record(fields) => {
            assert forall|i: int| 0 <= i < fields.len() implies nests(
                (#[trigger] fields[i]).1,
                (depth - 1) as nat,
            ) by {}
            lemma_reported_fields_exact(fields, (depth - 1) as nat);
        },
        ValTree::Variant(case, Some(payload)) => {
            lemma_reported_is_exact(*payload, (depth - 1) as nat);
            if reported(value) is Ok {
                let all = reported(value)->Ok_0->Object_0;
                assert(all.dom().finite());
                assert forall|k: Seq<char>| #[trigger] all.dom().contains(k) implies all[k].exact(
                    (depth - 1) as nat,
                ) by {
                    assert(all[k] is Text || all[k] == reported(*payload)->Ok_0);
                }
            }
        },
        ValTree::Variant(case, None) => {
            let all = reported(value)->Ok_0->Object_0;
            assert(all.dom().finite());
            assert forall|k: Seq<char>| #[trigger] all.dom().contains(k) implies all[k].exact(
                (depth - 1) as nat,
            ) by {
                assert(all[k] is Text);
            }
        },
        _ => {},
    }
}

proof fn lemma_reported_fields_exact(fields: Seq<(Seq<char>, ValTree)>, depth: nat)
    requires
        forall|i: int| 0 <= i < fields.len() ==> nests((#[trigger] fields[i]).1, depth),
    ensures
        reported_fields(fields) matches Ok(object) ==> object.dom().finite() && forall|
            key: Seq<char>,
        | #[trigger]
            object.dom().contains(key) ==> object[key].exact(depth),
    decreases fields, 0nat,
{
    if fields.len() > 0 {
        let front = fields.drop_last();
        assert forall|i: int| 0 <= i < front.len() implies nests(
            (#[trigger] front[i]).1,
            depth,
        ) by {
            assert(front[i] == fields[i]);
        }
        assert(nests(fields[fields.len() - 1].1, depth));
        lemma_reported_fields_exact(front, depth);
        lemma_reported_is_exact(fields.last().1, depth);
    }
}

} // verus!
