//! The bridge between component values and JSON: what crosses it says the same on both
//! sides, and what cannot cross is refused.

use vstd::prelude::*;

use crate::error::{ErrorKind, Failure, HostError};
use crate::json::{lemma_trees, trees, Json, JsonTree};
use crate::run::{
    admitted_params, call_params, call_results, default_results, prepare_call, report_results,
    reported_results, Run, Signature,
};
use crate::value::{
    admitted, admitted_fields, case_at, default_fields, default_of, default_value, distinct_fields,
    lemma_bridge_round_trip, lemma_case_smaller, lemma_field_smaller, reported, reported_fields,
    val_trees, value_from_json, value_to_json, ComponentType, Val, ValTree,
};

verus! {

/// Whether no later field has the name of the field at `i`.
pub open spec fn is_last(fields: Seq<(Seq<char>, ValTree)>, i: int) -> bool {
    forall|j: int| i < j < fields.len() ==> (#[trigger] fields[j]).0 != fields[i].0
}

/// Whether a JSON value says what a value is: a record field for field, a variant by
/// its case and its payload.
pub open spec fn agrees(value: ValTree, json: JsonTree) -> bool
    decreases value,
{
    match value {
        ValTree::Bool(truth) => json == JsonTree::Bool(truth),
        ValTree::S64(number) => json == JsonTree::Whole(number as int),
        ValTree::Text(text) => json == JsonTree::Text(text),
        ValTree::Record(fields) => match json {
            JsonTree::Object(object) => forall|i: int|
                0 <= i < fields.len() && is_last(fields, i) ==> object.dom().contains(
                    (#[trigger] fields[i]).0,
                ) && agrees(fields[i].1, object[fields[i].0]),
            _ => false,
        },
        ValTree::Variant(case, payload) => match json {
            JsonTree::Object(object) => {
                &&& object.dom().contains("case"@)
                &&& object["case"@] == JsonTree::Text(case)
                &&& match payload {
                    Some(inner) => object.dom().contains("value"@) && agrees(
                        *inner,
                        object["value"@],
                    ),
                    None => !object.dom().contains("value"@),
                }
            },
            _ => false,
        },
        ValTree::Other => false,
    }
}

/// Whether a JSON value that says what a value is says nothing else.
pub open spec fn says_no_more(value: ValTree, json: JsonTree) -> bool
    decreases value,
{
    match (value, json) {
        (ValTree::Record(fields), JsonTree::Object(object)) => {
            &&& forall|key: Seq<char>| #[trigger]
                object.dom().contains(key) ==> exists|i: int|
                    0 <= i < fields.len() && (#[trigger] fields[i]).0 == key
            &&& forall|i: int|
                0 <= i < fields.len() && is_last(fields, i) ==> says_no_more(
                    (#[trigger] fields[i]).1,
                    object[fields[i].0],
                )
        },
        (ValTree::Variant(_, Some(inner)), JsonTree::Object(object)) => {
            &&& object.dom() == set!["case"@, "value"@]
            &&& says_no_more(*inner, object["value"@])
        },
        (ValTree::Variant(_, None), JsonTree::Object(object)) => object.dom() == set!["case"@],
        _ => true,
    }
}

/// Whether the case at `i` is the first of its name.
pub open spec fn first_case(
    cases: Seq<(String, Option<ComponentType>)>,
    name: Seq<char>,
    i: int,
) -> bool {
    &&& 0 <= i < cases.len()
    &&& cases[i].0@ == name
    &&& forall|j: int| 0 <= j < i ==> (#[trigger] cases[j]).0@ != name
}

/// Whether a value is one of a type.
pub open spec fn fits(ty: ComponentType, value: ValTree) -> bool
    decreases value,
{
    match value {
        ValTree::Bool(_) => ty is Bool,
        ValTree::S64(_) => ty is S64,
        ValTree::Text(_) => ty is Text,
        ValTree::Record(values) => match ty {
            ComponentType::Record(fields) => {
                &&& values.len() == fields@.len()
                &&& forall|i: int|
                    0 <= i < values.len() ==> (#[trigger] values[i]).0 == fields@[i].0@ && fits(
                        fields@[i].1,
                        values[i].1,
                    )
            },
            _ => false,
        },
        ValTree::Variant(name, payload) => match ty {
            ComponentType::Variant(cases) => exists|i: int| #[trigger]
                first_case(cases@, name, i) && match (cases@[i].1, payload) {
                    (Some(inner), Some(held)) => fits(inner, *held),
                    (None, None) => true,
                    _ => false,
                },
            _ => false,
        },
        ValTree::Other => false,
    }
}

/// Whether a JSON value has the shape of a type.
pub open spec fn shaped(ty: ComponentType, json: JsonTree) -> bool
    decreases json,
{
    match ty {
        ComponentType::Bool => json is Bool,
        ComponentType::S64 => json matches JsonTree::Whole(number) && -0x8000_0000_0000_0000
            <= number <= 0x7fff_ffff_ffff_ffff,
        ComponentType::Text => json is Text,
        ComponentType::Record(fields) => match json {
            JsonTree::Object(object) => {
                &&& object.len() == fields@.len()
                &&& forall|i: int|
                    0 <= i < fields@.len() ==> object.dom().contains((#[trigger] fields@[i]).0@)
                        && shaped(fields@[i].1, object[fields@[i].0@])
            },
            _ => false,
        },
        ComponentType::Variant(cases) => match json {
            JsonTree::Object(object) => {
                &&& object.len() == 1 || object.len() == 2
                &&& object.dom().contains("case"@)
                &&& object["case"@] matches JsonTree::Text(name) && exists|i: int| #[trigger]
                    first_case(cases@, name, i) && match cases@[i].1 {
                        Some(inner) => object.dom().contains("value"@) && shaped(
                            inner,
                            object["value"@],
                        ),
                        None => !object.dom().contains("value"@),
                    }
            },
            _ => false,
        },
        ComponentType::Other => false,
    }
}

/// Whether a value is the one that holds the place of a result: no, zero, nothing, and
/// the first case.
pub open spec fn at_rest(ty: ComponentType, value: ValTree) -> bool
    decreases value,
{
    match value {
        ValTree::Bool(truth) => !truth,
        ValTree::S64(number) => number == 0,
        ValTree::Text(text) => text.len() == 0,
        ValTree::Record(values) => match ty {
            ComponentType::Record(fields) => forall|i: int|
                0 <= i < values.len() ==> at_rest(fields@[i].1, (#[trigger] values[i]).1),
            _ => false,
        },
        ValTree::Variant(name, payload) => match ty {
            ComponentType::Variant(cases) => {
                &&& cases@.len() > 0
                &&& cases@[0].0@ == name
                &&& payload matches Some(held) ==> (cases@[0].1 matches Some(inner) && at_rest(
                    inner,
                    *held,
                ))
            },
            _ => false,
        },
        ValTree::Other => false,
    }
}

/// Whether a type has a value at rest.
pub open spec fn can_rest(ty: ComponentType) -> bool
    decreases ty,
{
    match ty {
        ComponentType::Record(fields) => forall|i: int|
            0 <= i < fields@.len() ==> can_rest((#[trigger] fields@[i]).1),
        ComponentType::Variant(cases) => cases@.len() > 0 && match cases@[0].1 {
            Some(inner) => can_rest(inner),
            None => true,
        },
        ComponentType::Other => false,
        _ => true,
    }
}

/// Whether a value can be told in JSON.
pub open spec fn tellable(value: ValTree) -> bool
    decreases value,
{
    match value {
        ValTree::Record(fields) => forall|i: int|
            0 <= i < fields.len() ==> tellable((#[trigger] fields[i]).1),
        ValTree::Variant(_, Some(inner)) => tellable(*inner),
        ValTree::Other => false,
        _ => true,
    }
}

proof fn lemma_first_case_is_found(cases: Seq<(String, Option<ComponentType>)>, name: Seq<char>)
    ensures
        match case_at(cases, name) {
            Some(i) => first_case(cases, name, i),
            None => forall|i: int| 0 <= i < cases.len() ==> (#[trigger] cases[i]).0@ != name,
        },
    decreases cases.len(),
{
    if cases.len() > 0 {
        let front = cases.drop_last();
        lemma_first_case_is_found(front, name);
        if let Some(i) = case_at(front, name) {
            assert forall|j: int| 0 <= j < i implies (#[trigger] cases[j]).0@ != name by {
                assert(front[j] == cases[j]);
            }
        } else {
            assert forall|j: int| 0 <= j < cases.len() - 1 implies (#[trigger] cases[j]).0@
                != name by {
                assert(front[j] == cases[j]);
            }
        }
    }
}

proof fn lemma_first_case_is_one(
    cases: Seq<(String, Option<ComponentType>)>,
    name: Seq<char>,
    i: int,
)
    requires
        first_case(cases, name, i),
    ensures
        case_at(cases, name) == Some(i),
{
    lemma_first_case_is_found(cases, name);
    if let Some(j) = case_at(cases, name) {
        if j < i {
            assert(cases[j].0@ != name);
        }
        if i < j {
            assert(cases[i].0@ != name);
        }
    } else {
        assert(cases[i].0@ != name);
    }
}

proof fn lemma_fields(fields: Seq<(String, ComponentType)>, object: Map<Seq<char>, JsonTree>)
    ensures
        admitted_fields(fields, object) matches Ok(values) ==> values.len() == fields.len()
            && forall|i: int|
            0 <= i < fields.len() ==> (#[trigger] values[i]).0 == fields[i].0@
                && object.dom().contains(fields[i].0@) && admitted(
                fields[i].1,
                object[fields[i].0@],
            ) == Ok::<ValTree, Failure>(values[i].1),
        admitted_fields(fields, object) matches Err(failure) ==> exists|i: int| #[trigger]
            refused_at(fields, object, i, failure),
    decreases fields.len(),
{
    if fields.len() > 0 {
        let front = fields.drop_last();
        let last = fields.len() - 1;
        lemma_fields(front, object);
        match admitted_fields(front, object) {
            Ok(earlier) => {
                if let Ok(values) = admitted_fields(fields, object) {
                    assert forall|i: int| 0 <= i < fields.len() implies (#[trigger] values[i]).0
                        == fields[i].0@ && object.dom().contains(fields[i].0@) && admitted(
                        fields[i].1,
                        object[fields[i].0@],
                    ) == Ok::<ValTree, Failure>(values[i].1) by {
                        if i < last {
                            assert(values[i] == earlier[i]);
                            assert(front[i] == fields[i]);
                        }
                    }
                    assert(values.len() == fields.len());
                } else {
                    let failure = admitted_fields(fields, object)->Err_0;
                    assert forall|j: int| 0 <= j < last implies object.dom().contains(
                        (#[trigger] fields[j]).0@,
                    ) && admitted(fields[j].1, object[fields[j].0@]) is Ok by {
                        assert(front[j] == fields[j]);
                        assert(earlier[j].0 == front[j].0@);
                    }
                    assert(refused_at(fields, object, last, failure));
                }
            },
            Err(failure) => {
                let i = choose|i: int| #[trigger] refused_at(front, object, i, failure);
                assert forall|j: int| 0 <= j < i implies object.dom().contains(
                    (#[trigger] fields[j]).0@,
                ) && admitted(fields[j].1, object[fields[j].0@]) is Ok by {
                    assert(front[j] == fields[j]);
                }
                assert(front[i] == fields[i]);
                assert(refused_at(fields, object, i, failure));
                assert(admitted_fields(fields, object) is Err);
            },
        }
    }
}

spec fn refused_at(
    fields: Seq<(String, ComponentType)>,
    object: Map<Seq<char>, JsonTree>,
    i: int,
    failure: Failure,
) -> bool {
    &&& 0 <= i < fields.len()
    &&& forall|j: int|
        0 <= j < i ==> object.dom().contains((#[trigger] fields[j]).0@) && admitted(
            fields[j].1,
            object[fields[j].0@],
        ) is Ok
    &&& if object.dom().contains(fields[i].0@) {
        admitted(fields[i].1, object[fields[i].0@]) == Err::<ValTree, Failure>(failure)
    } else {
        failure.kind == ErrorKind::RecordFieldMissing && failure.subject == fields[i].0@
    }
}

/// What is admitted says what it was admitted from, and is of the type.
proof fn lemma_admitted(ty: ComponentType, json: JsonTree)
    ensures
        admitted(ty, json) is Ok <==> shaped(ty, json),
        admitted(ty, json) matches Ok(value) ==> agrees(value, json) && fits(ty, value),
    decreases ty,
{
    match (ty, json) {
        (ComponentType::Record(fields), JsonTree::Object(object)) => {
            lemma_fields(fields@, object);
            assert forall|i: int| 0 <= i < fields@.len() implies (admitted(
                (#[trigger] fields@[i]).1,
                object[fields@[i].0@],
            ) is Ok <==> shaped(fields@[i].1, object[fields@[i].0@])) && (admitted(
                fields@[i].1,
                object[fields@[i].0@],
            ) matches Ok(value) ==> agrees(value, object[fields@[i].0@]) && fits(
                fields@[i].1,
                value,
            )) by {
                lemma_field_smaller(ty, i);
                lemma_admitted(fields@[i].1, object[fields@[i].0@]);
            }
            match admitted_fields(fields@, object) {
                Ok(values) => {
                    assert forall|i: int| 0 <= i < fields@.len() implies object.dom().contains(
                        (#[trigger] fields@[i]).0@,
                    ) && shaped(fields@[i].1, object[fields@[i].0@]) by {
                        assert(values[i].0 == fields@[i].0@);
                    }
                    assert forall|i: int| 0 <= i < values.len() implies (#[trigger] values[i]).0
                        == fields@[i].0@ && fits(fields@[i].1, values[i].1) && agrees(
                        values[i].1,
                        object[values[i].0],
                    ) by {
                        assert(fields@[i].0@ == values[i].0);
                    }
                    if let Ok(value) = admitted(ty, json) {
                        assert(value->Record_0 == values);
                        assert(fits(ty, value));
                        assert(agrees(value, json));
                    }
                },
                Err(failure) => {
                    let i = choose|i: int| #[trigger] refused_at(fields@, object, i, failure);
                    assert(fields@[i].0@ == fields@[i].0@);
                    assert(!(object.dom().contains(fields@[i].0@) && shaped(
                        fields@[i].1,
                        object[fields@[i].0@],
                    )));
                },
            }
        },
        (ComponentType::Variant(cases), JsonTree::Object(object)) => {
            if object.dom().contains("case"@) && object["case"@] is Text {
                let name = object["case"@]->Text_0;
                assert(json.member_text("case"@) == Some(name));
                lemma_first_case_is_found(cases@, name);
                if let Some(i) = case_at(cases@, name) {
                    if let Some(inner) = cases@[i].1 {
                        lemma_case_smaller(ty, i);
                        lemma_admitted(inner, object["value"@]);
                    }
                    assert forall|j: int| #[trigger] first_case(cases@, name, j) implies j == i by {
                        lemma_first_case_is_one(cases@, name, j);
                    }
                    if let Ok(value) = admitted(ty, json) {
                        assert(first_case(cases@, value->Variant_0, i));
                        assert(fits(ty, value));
                        assert(agrees(value, json));
                    }
                }
            }
        },
        _ => {},
    }
}

/// What a component takes says what its caller wrote, and is of the type that it
/// takes; it is taken exactly where what was written has the shape of that type.
pub proof fn law_parameter_says_what_was_written(
    ty: &ComponentType,
    json: &Json,
    value: Result<Val, HostError>,
)
    requires
        call_ensures(value_from_json, (ty, json), value),
    ensures
        value is Ok <==> shaped(*ty, json@),
        value matches Ok(taken) ==> agrees(taken@, json@) && fits(*ty, taken@),
{
    lemma_admitted(*ty, json@);
}

/// What is not taken is refused for what it is not.
pub proof fn law_refused_parameter_is_told(ty: &ComponentType, json: &Json, error: HostError)
    requires
        call_ensures(value_from_json, (ty, json), Err(error)),
    ensures
        match *ty {
            ComponentType::Bool => error.kind == ErrorKind::BoolParameter,
            ComponentType::S64 => error.kind == ErrorKind::S64Parameter,
            ComponentType::Text => error.kind == ErrorKind::StringParameter,
            ComponentType::Other => error.kind == ErrorKind::ParameterTypeNotAdmitted,
            ComponentType::Record(fields) => match json@ {
                JsonTree::Object(object) => {
                    &&& forall|i: int|
                        0 <= i < fields@.len() && !object.dom().contains(
                            (#[trigger] fields@[i]).0@,
                        ) && (forall|j: int|
                            0 <= j < i ==> object.dom().contains((#[trigger] fields@[j]).0@)
                                && shaped(fields@[j].1, object[fields@[j].0@])) ==> error.kind
                            == ErrorKind::RecordFieldMissing && error.subject@ == fields@[i].0@
                    &&& (forall|j: int|
                        0 <= j < fields@.len() ==> object.dom().contains(
                            (#[trigger] fields@[j]).0@,
                        ) && shaped(fields@[j].1, object[fields@[j].0@])) ==> error.kind
                        == ErrorKind::RecordFieldUnknown
                },
                _ => error.kind == ErrorKind::RecordParameter,
            },
            ComponentType::Variant(cases) => match json@ {
                JsonTree::Object(object) => if object.len() != 1 && object.len() != 2 {
                    error.kind == ErrorKind::VariantShape
                } else if !object.dom().contains("case"@) || !(object["case"@] is Text) {
                    error.kind == ErrorKind::VariantCaseText
                } else {
                    let name = object["case"@]->Text_0;
                    &&& (forall|i: int| 0 <= i < cases@.len() ==> (#[trigger] cases@[i]).0@ != name)
                        ==> error.kind == ErrorKind::VariantCaseUnknown
                    &&& forall|i: int| #[trigger]
                        first_case(cases@, name, i) ==> match cases@[i].1 {
                            Some(_) => !object.dom().contains("value"@) ==> error.kind
                                == ErrorKind::VariantValueMissing,
                            None => error.kind == ErrorKind::VariantValueUnexpected,
                        }
                },
                _ => error.kind == ErrorKind::VariantParameter,
            },
        },
{
    match (*ty, json@) {
        (ComponentType::Record(fields), JsonTree::Object(object)) => {
            lemma_fields(fields@, object);
            assert forall|i: int| 0 <= i < fields@.len() implies (admitted(
                (#[trigger] fields@[i]).1,
                object[fields@[i].0@],
            ) is Ok <==> shaped(fields@[i].1, object[fields@[i].0@])) by {
                lemma_admitted(fields@[i].1, object[fields@[i].0@]);
            }
            if let Err(failure) = admitted_fields(fields@, object) {
                let at = choose|at: int| #[trigger] refused_at(fields@, object, at, failure);
                assert(fields@[at].0@ == fields@[at].0@);
                assert forall|i: int|
                    0 <= i < fields@.len() && !object.dom().contains((#[trigger] fields@[i]).0@)
                        && (forall|j: int|
                        0 <= j < i ==> object.dom().contains((#[trigger] fields@[j]).0@) && shaped(
                            fields@[j].1,
                            object[fields@[j].0@],
                        )) implies error.kind == ErrorKind::RecordFieldMissing && error.subject@
                    == fields@[i].0@ by {
                    if i < at {
                        assert(object.dom().contains(fields@[i].0@));
                    }
                    if at < i {
                        assert(object.dom().contains(fields@[at].0@) && shaped(
                            fields@[at].1,
                            object[fields@[at].0@],
                        ));
                    }
                }
            } else {
                let values = admitted_fields(fields@, object)->Ok_0;
                assert forall|i: int| 0 <= i < fields@.len() implies object.dom().contains(
                    (#[trigger] fields@[i]).0@,
                ) by {
                    assert(values[i].0 == fields@[i].0@);
                }
            }
        },
        (ComponentType::Variant(cases), JsonTree::Object(object)) => {
            if object.dom().contains("case"@) && object["case"@] is Text {
                let name = object["case"@]->Text_0;
                assert(json@.member_text("case"@) == Some(name));
                lemma_first_case_is_found(cases@, name);
                assert forall|i: int| #[trigger] first_case(cases@, name, i) implies case_at(
                    cases@,
                    name,
                ) == Some(i) by {
                    lemma_first_case_is_one(cases@, name, i);
                }
            }
        },
        _ => {},
    }
}

proof fn lemma_told_fields(fields: Seq<(Seq<char>, ValTree)>)
    ensures
        reported_fields(fields) is Ok <==> forall|i: int|
            0 <= i < fields.len() ==> reported((#[trigger] fields[i]).1) is Ok,
        reported_fields(fields) matches Ok(object) ==> {
            &&& forall|key: Seq<char>| #[trigger]
                object.dom().contains(key) ==> exists|i: int|
                    0 <= i < fields.len() && (#[trigger] fields[i]).0 == key
            &&& forall|i: int|
                0 <= i < fields.len() && is_last(fields, i) ==> object.dom().contains(
                    (#[trigger] fields[i]).0,
                ) && reported(fields[i].1) == Ok::<JsonTree, Failure>(object[fields[i].0])
        },
    decreases fields.len(),
{
    if fields.len() > 0 {
        let front = fields.drop_last();
        let last = fields.len() - 1;
        lemma_told_fields(front);
        assert(fields[last] == fields.last());
        if reported_fields(front) is Err {
            let i = choose|i: int| 0 <= i < front.len() && reported((#[trigger] front[i]).1) is Err;
            assert(fields[i] == front[i]);
            assert(reported(fields[i].1) is Err);
        } else if reported_fields(fields) is Ok {
            let before = reported_fields(front)->Ok_0;
            let after = reported_fields(fields)->Ok_0;
            assert forall|i: int| 0 <= i < fields.len() implies reported((#[trigger] fields[i]).1)
                is Ok by {
                if i < last {
                    assert(front[i] == fields[i]);
                }
            }
            assert forall|key: Seq<char>| #[trigger] after.dom().contains(key) implies exists|
                i: int,
            |
                0 <= i < fields.len() && (#[trigger] fields[i]).0 == key by {
                if key == fields.last().0 {
                    assert(fields[last].0 == key);
                } else {
                    assert(before.dom().contains(key));
                    let i = choose|i: int| 0 <= i < front.len() && (#[trigger] front[i]).0 == key;
                    assert(fields[i].0 == key);
                }
            }
            assert forall|i: int| 0 <= i < fields.len() && is_last(fields, i) implies
                after.dom().contains((#[trigger] fields[i]).0) && reported(fields[i].1) == Ok::<
                JsonTree,
                Failure,
            >(after[fields[i].0]) by {
                if i < last {
                    assert(fields[last].0 != fields[i].0);
                    assert forall|j: int| i < j < front.len() implies (#[trigger] front[j]).0
                        != front[i].0 by {
                        assert(fields[j].0 != fields[i].0);
                    }
                    assert(is_last(front, i));
                    assert(front[i] == fields[i]);
                }
            }
        }
    }
}

/// What is told says what the value is and no more.
proof fn lemma_told(value: ValTree)
    ensures
        reported(value) is Ok <==> tellable(value),
        reported(value) matches Ok(json) ==> agrees(value, json) && says_no_more(value, json),
        reported(value) matches Err(failure) ==> failure.kind == ErrorKind::ResultTypeNotAdmitted,
    decreases value,
{
    match value {
        ValTree::Record(fields) => {
            lemma_told_fields(fields);
            lemma_told_fields_kind(fields);
            assert forall|i: int| 0 <= i < fields.len() implies (reported((#[trigger] fields[i]).1)
                is Ok <==> tellable(fields[i].1)) && (reported(fields[i].1) matches Ok(json)
                ==> agrees(fields[i].1, json) && says_no_more(fields[i].1, json)) by {
                lemma_told(fields[i].1);
            }
        },
        ValTree::Variant(case, payload) => {
            reveal_strlit("case");
            reveal_strlit("value");
            assert("case"@.len() == 4 && "value"@.len() == 5);
            if let Some(inner) = payload {
                lemma_told(*inner);
            }
            if let Ok(json) = reported(value) {
                let object = json->Object_0;
                if payload is Some {
                    assert(object.dom() =~= set!["case"@, "value"@]);
                } else {
                    assert(object.dom() =~= set!["case"@]);
                }
            }
        },
        _ => {},
    }
}

proof fn lemma_told_fields_kind(fields: Seq<(Seq<char>, ValTree)>)
    ensures
        reported_fields(fields) matches Err(failure) ==> failure.kind
            == ErrorKind::ResultTypeNotAdmitted,
    decreases fields,
{
    if fields.len() > 0 {
        lemma_told_fields_kind(fields.drop_last());
        lemma_told(fields.last().1);
    }
}

/// What a component gives is told as it is, with nothing added; it is told exactly
/// where all of it can be.
pub proof fn law_result_is_told_as_it_is(value: &Val, json: Result<Json, HostError>)
    requires
        call_ensures(value_to_json, (value,), json),
    ensures
        json is Ok <==> tellable(value@),
        json matches Ok(told) ==> agrees(value@, told@) && says_no_more(value@, told@),
        json matches Err(error) ==> error.kind == ErrorKind::ResultTypeNotAdmitted,
{
    lemma_told(value@);
}

/// What a component takes can be told, and what it is told as is taken as the same
/// value again.
pub proof fn law_bridge_goes_both_ways(
    ty: &ComponentType,
    json: &Json,
    value: Val,
    told: Result<Json, HostError>,
    again: Result<Val, HostError>,
)
    requires
        distinct_fields(*ty),
        call_ensures(value_from_json, (ty, json), Ok(value)),
        call_ensures(value_to_json, (&value,), told),
        told matches Ok(text) ==> call_ensures(value_from_json, (ty, &text), again),
    ensures
        told is Ok,
        again matches Ok(same) && same@ == value@,
{
    lemma_bridge_round_trip(*ty, json@, value@);
}

proof fn lemma_default_fields(fields: Seq<(String, ComponentType)>)
    ensures
        default_fields(fields) is Ok <==> forall|i: int|
            0 <= i < fields.len() ==> default_of((#[trigger] fields[i]).1) is Ok,
        default_fields(fields) matches Ok(values) ==> values.len() == fields.len() && forall|
            i: int,
        |
            0 <= i < fields.len() ==> (#[trigger] values[i]).0 == fields[i].0@ && default_of(
                fields[i].1,
            ) == Ok::<ValTree, Failure>(values[i].1),
    decreases fields.len(),
{
    if fields.len() > 0 {
        let front = fields.drop_last();
        let last = fields.len() - 1;
        lemma_default_fields(front);
        assert(fields[last] == fields.last());
        if default_fields(front) is Err {
            let i = choose|i: int|
                0 <= i < front.len() && default_of((#[trigger] front[i]).1) is Err;
            assert(fields[i] == front[i]);
            assert(default_of(fields[i].1) is Err);
        } else if default_fields(fields) is Ok {
            let earlier = default_fields(front)->Ok_0;
            let values = default_fields(fields)->Ok_0;
            assert forall|i: int| 0 <= i < fields.len() implies (#[trigger] values[i]).0
                == fields[i].0@ && default_of(fields[i].1) == Ok::<ValTree, Failure>(
                values[i].1,
            ) by {
                if i < last {
                    assert(values[i] == earlier[i]);
                    assert(front[i] == fields[i]);
                }
            }
            assert forall|i: int| 0 <= i < fields.len() implies default_of((#[trigger] fields[i]).1)
                is Ok by {
                assert(values[i].0 == fields[i].0@);
            }
        }
    }
}

/// What holds a place is of the type and at rest.
proof fn lemma_default(ty: ComponentType)
    ensures
        default_of(ty) is Ok <==> can_rest(ty),
        default_of(ty) matches Ok(value) ==> fits(ty, value) && at_rest(ty, value),
    decreases ty,
{
    match ty {
        ComponentType::Record(fields) => {
            lemma_default_fields(fields@);
            assert forall|i: int| 0 <= i < fields@.len() implies (default_of(
                (#[trigger] fields@[i]).1,
            ) is Ok <==> can_rest(fields@[i].1)) by {
                lemma_field_smaller(ty, i);
                lemma_default(fields@[i].1);
            }
            if let Ok(values) = default_fields(fields@) {
                assert forall|i: int| 0 <= i < values.len() implies (#[trigger] values[i]).0
                    == fields@[i].0@ && fits(fields@[i].1, values[i].1) && at_rest(
                    fields@[i].1,
                    values[i].1,
                ) by {
                    lemma_field_smaller(ty, i);
                    lemma_default(fields@[i].1);
                }
                let value = default_of(ty)->Ok_0;
                assert(value->Record_0 == values);
                assert(fits(ty, value));
                assert(at_rest(ty, value));
            }
        },
        ComponentType::Variant(cases) => {
            if cases@.len() > 0 {
                if let Some(inner) = cases@[0].1 {
                    lemma_case_smaller(ty, 0);
                    lemma_default(inner);
                }
                if let Ok(value) = default_of(ty) {
                    assert(first_case(cases@, value->Variant_0, 0));
                    assert(fits(ty, value));
                }
            }
        },
        _ => {},
    }
}

/// The place of a result holds a value of the type of the result, at rest, exactly
/// where the type has one.
pub proof fn law_place_is_at_rest(ty: &ComponentType, value: Result<Val, HostError>)
    requires
        call_ensures(default_value, (ty,), value),
    ensures
        value is Ok <==> can_rest(*ty),
        value matches Ok(held) ==> fits(*ty, held@) && at_rest(*ty, held@),
        match *ty {
            ComponentType::Variant(cases) => cases@.len() == 0 ==> (value matches Err(error)
                && error.kind == ErrorKind::ResultVariantEmpty),
            ComponentType::Other => value matches Err(error) && error.kind
                == ErrorKind::ResultTypeNotAdmitted,
            _ => true,
        },
{
    lemma_default(*ty);
}

proof fn lemma_params(types: Seq<ComponentType>, params: Seq<JsonTree>)
    requires
        types.len() <= params.len(),
    ensures
        admitted_params(types, params) is Ok <==> forall|i: int|
            0 <= i < types.len() ==> shaped(#[trigger] types[i], params[i]),
        admitted_params(types, params) matches Ok(values) ==> values.len() == types.len() && forall|
            i: int,
        |
            0 <= i < types.len() ==> agrees(#[trigger] values[i], params[i]) && fits(
                types[i],
                values[i],
            ),
    decreases types.len(),
{
    if types.len() > 0 {
        let front = types.drop_last();
        let last = types.len() - 1;
        lemma_params(front, params);
        lemma_admitted(types[last], params[last]);
        if admitted_params(front, params) is Err {
            let i = choose|i: int| 0 <= i < front.len() && !shaped(#[trigger] front[i], params[i]);
            assert(!shaped(types[i], params[i]));
        } else {
            assert forall|i: int| 0 <= i < last implies shaped(#[trigger] types[i], params[i]) by {
                assert(front[i] == types[i]);
            }
            if let Ok(values) = admitted_params(types, params) {
                let earlier = admitted_params(front, params)->Ok_0;
                assert forall|i: int| 0 <= i < types.len() implies agrees(
                    #[trigger] values[i],
                    params[i],
                ) && fits(types[i], values[i]) by {
                    if i < last {
                        assert(values[i] == earlier[i]);
                        assert(front[i] == types[i]);
                    }
                }
            }
        }
    }
}

proof fn lemma_places(types: Seq<ComponentType>)
    ensures
        default_results(types) is Ok <==> forall|i: int|
            0 <= i < types.len() ==> can_rest(#[trigger] types[i]),
        default_results(types) matches Ok(values) ==> values.len() == types.len() && forall|i: int|
            0 <= i < types.len() ==> fits(types[i], #[trigger] values[i]) && at_rest(
                types[i],
                values[i],
            ),
    decreases types.len(),
{
    if types.len() > 0 {
        let front = types.drop_last();
        let last = types.len() - 1;
        lemma_places(front);
        lemma_default(types[last]);
        if default_results(front) is Err {
            let i = choose|i: int| 0 <= i < front.len() && !can_rest(#[trigger] front[i]);
            assert(!can_rest(types[i]));
        } else {
            assert forall|i: int| 0 <= i < last implies can_rest(#[trigger] types[i]) by {
                assert(front[i] == types[i]);
            }
            if let Ok(values) = default_results(types) {
                let earlier = default_results(front)->Ok_0;
                assert forall|i: int| 0 <= i < types.len() implies fits(
                    types[i],
                    #[trigger] values[i],
                ) && at_rest(types[i], values[i]) by {
                    if i < last {
                        assert(values[i] == earlier[i]);
                        assert(front[i] == types[i]);
                    }
                }
            }
        }
    }
}

/// A call takes one value for each parameter that was written, in order, each saying
/// what was written; and it takes them exactly where there are as many as the export
/// has parameters, each of the shape of its own.
pub proof fn law_call_takes_what_was_written(
    types: &Vec<ComponentType>,
    params: &Vec<Json>,
    values: Result<Vec<Val>, HostError>,
)
    requires
        call_ensures(call_params, (types, params), values),
    ensures
        values is Ok <==> types@.len() == params@.len() && forall|i: int|
            0 <= i < types@.len() ==> shaped(#[trigger] types@[i], params@[i]@),
        values matches Ok(taken) ==> taken@.len() == params@.len() && forall|i: int|
            0 <= i < taken@.len() ==> agrees((#[trigger] taken@[i])@, params@[i]@) && fits(
                types@[i],
                taken@[i]@,
            ),
        types@.len() != params@.len() ==> (values matches Err(error) && error.kind
            == ErrorKind::ParameterCount),
{
    let given = trees(params@);
    lemma_trees(params@);
    if types@.len() == params@.len() {
        lemma_params(types@, given);
        assert forall|i: int| 0 <= i < types@.len() implies shaped(#[trigger] types@[i], given[i])
            == shaped(types@[i], params@[i]@) by {}
        if let Ok(taken) = values {
            let told = val_trees(taken@);
            assert forall|i: int| 0 <= i < taken@.len() implies agrees(
                (#[trigger] taken@[i])@,
                params@[i]@,
            ) && fits(types@[i], taken@[i]@) by {
                assert(told[i] == taken@[i]@);
            }
        }
    }
}

/// A call has a place at rest for each of its results, in order.
pub proof fn law_call_has_a_place_for_each_result(
    types: &Vec<ComponentType>,
    values: Result<Vec<Val>, HostError>,
)
    requires
        call_ensures(call_results, (types,), values),
    ensures
        values matches Ok(places) ==> places@.len() == types@.len() && forall|i: int|
            0 <= i < places@.len() ==> fits(types@[i], (#[trigger] places@[i])@) && at_rest(
                types@[i],
                places@[i]@,
            ),
        values is Ok <==> forall|i: int|
            0 <= i < types@.len() ==> can_rest(#[trigger] types@[i]),
{
    lemma_places(types@);
    if let Ok(places) = values {
        let told = val_trees(places@);
        assert forall|i: int| 0 <= i < places@.len() implies fits(
            types@[i],
            (#[trigger] places@[i])@,
        ) && at_rest(types@[i], places@[i]@) by {
            assert(told[i] == places@[i]@);
        }
    }
}

/// A call of an export is prepared from the parameters that were written and the types
/// of the export; where the component has no such export, that is told.
pub proof fn law_export_is_called_with_what_was_written(
    request: &Run,
    signature: &Option<Signature>,
    call: Result<(Vec<Val>, Vec<Val>), HostError>,
)
    requires
        call_ensures(prepare_call, (request, signature), call),
    ensures
        match *signature {
            None => call matches Err(error) && error.kind == ErrorKind::ExportMissing
                && error.subject@ == match request.export {
                Some(name) => name@,
                None => "main"@,
            },
            Some(signature) => {
                &&& call is Ok <==> signature.params@.len() == request.params@.len() && (forall|
                    i: int,
                |
                    0 <= i < signature.params@.len() ==> shaped(
                        #[trigger] signature.params@[i],
                        request.params@[i]@,
                    )) && forall|i: int|
                    0 <= i < signature.results@.len() ==> can_rest(
                        #[trigger] signature.results@[i],
                    )
                &&& call matches Ok((values, places)) ==> {
                    &&& values@.len() == request.params@.len()
                    &&& forall|i: int|
                        0 <= i < values@.len() ==> agrees(
                            (#[trigger] values@[i])@,
                            request.params@[i]@,
                        ) && fits(signature.params@[i], values@[i]@)
                    &&& places@.len() == signature.results@.len()
                    &&& forall|i: int|
                        0 <= i < places@.len() ==> fits(
                            signature.results@[i],
                            (#[trigger] places@[i])@,
                        ) && at_rest(signature.results@[i], places@[i]@)
                }
                &&& signature.params@.len() != request.params@.len() ==> (call matches Err(error)
                    && error.kind == ErrorKind::ParameterCount)
            },
        },
{
    let given = trees(request.params@);
    lemma_trees(request.params@);
    if let Some(signature) = *signature {
        if signature.params@.len() == given.len() {
            lemma_params(signature.params@, given);
            assert forall|i: int| 0 <= i < signature.params@.len() implies shaped(
                #[trigger] signature.params@[i],
                given[i],
            ) == shaped(signature.params@[i], request.params@[i]@) by {}
        }
        lemma_places(signature.results@);
        if let Ok((values, places)) = call {
            let taken = val_trees(values@);
            let held = val_trees(places@);
            assert forall|i: int| 0 <= i < values@.len() implies agrees(
                (#[trigger] values@[i])@,
                request.params@[i]@,
            ) && fits(signature.params@[i], values@[i]@) by {
                assert(taken[i] == values@[i]@);
            }
            assert forall|i: int| 0 <= i < places@.len() implies fits(
                signature.results@[i],
                (#[trigger] places@[i])@,
            ) && at_rest(signature.results@[i], places@[i]@) by {
                assert(held[i] == places@[i]@);
            }
        }
    }
}

proof fn lemma_output(results: Seq<ValTree>)
    ensures
        reported_results(results) is Ok <==> forall|i: int|
            0 <= i < results.len() ==> tellable(#[trigger] results[i]),
        reported_results(results) matches Ok(output) ==> output.len() == results.len() && forall|
            i: int,
        |
            0 <= i < results.len() ==> agrees(results[i], #[trigger] output[i]) && says_no_more(
                results[i],
                output[i],
            ),
    decreases results.len(),
{
    if results.len() > 0 {
        let front = results.drop_last();
        let last = results.len() - 1;
        lemma_output(front);
        lemma_told(results[last]);
        if reported_results(front) is Err {
            let i = choose|i: int| 0 <= i < front.len() && !tellable(#[trigger] front[i]);
            assert(!tellable(results[i]));
        } else {
            assert forall|i: int| 0 <= i < last implies tellable(#[trigger] results[i]) by {
                assert(front[i] == results[i]);
            }
            if let Ok(output) = reported_results(results) {
                let earlier = reported_results(front)->Ok_0;
                assert forall|i: int| 0 <= i < results.len() implies agrees(
                    results[i],
                    #[trigger] output[i],
                ) && says_no_more(results[i], output[i]) by {
                    if i < last {
                        assert(output[i] == earlier[i]);
                        assert(front[i] == results[i]);
                    }
                }
            }
        }
    }
}

/// The results of a call are told one for one, in order, each as it is.
pub proof fn law_results_are_told_in_order(
    results: &Vec<Val>,
    output: Result<Vec<Json>, HostError>,
)
    requires
        call_ensures(report_results, (results,), output),
    ensures
        output is Ok <==> forall|i: int|
            0 <= i < results@.len() ==> tellable((#[trigger] results@[i])@),
        output matches Ok(told) ==> told@.len() == results@.len() && forall|i: int|
            0 <= i < told@.len() ==> agrees(results@[i]@, (#[trigger] told@[i])@) && says_no_more(
                results@[i]@,
                told@[i]@,
            ),
{
    let all = val_trees(results@);
    lemma_output(all);
    assert forall|i: int| 0 <= i < all.len() implies #[trigger] all[i] == results@[i]@ by {}
    if output is Err {
        let i = choose|i: int| 0 <= i < all.len() && !tellable(#[trigger] all[i]);
        assert(!tellable(results@[i]@));
    } else {
        assert forall|i: int| 0 <= i < results@.len() implies tellable(
            (#[trigger] results@[i])@,
        ) by {
            assert(tellable(all[i]));
        }
    }
    if let Ok(told) = output {
        lemma_trees(told@);
        let given = trees(told@);
        assert forall|i: int| 0 <= i < told@.len() implies agrees(
            results@[i]@,
            (#[trigger] told@[i])@,
        ) && says_no_more(results@[i]@, told@[i]@) by {
            assert(given[i] == told@[i]@);
        }
    }
}

} // verus!
