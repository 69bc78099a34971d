//! Runs and calls: a component gets the imports that its run asks for, each bound
//! to its own operation and offered as the run asks, and nothing else.

use vstd::prelude::*;
use vstd::utf8::encode_utf8;

use crate::ability::{
    ability_checked, admissible, admit_imports, binding_of, import_at, import_names,
    imports_checked, in_order, lemma_admitted_exactly, lemma_import_at, lemma_imports_admitted,
    lemma_in_order, validate_ability, Ability, Import,
};
use crate::error::{ErrorKind, Failure, HostError};
use crate::json::{json_parse, Json, JsonTree};
use crate::laws::holding::only;
use crate::protocol::{
    failure_notice, provider_call, provider_response, provider_result, terminal_message, Provider,
};
use crate::run::{
    admit_run, export_name, lemma_import_is_linked, lemma_link_was_asked_for, lemma_links_differ,
    memory_limit, scalar_result, storage_answer, storage_call, Link, Linkage, Run, StorageCall,
};
use crate::value::{val_trees, Val, ValTree};

verus! {

/// Whether an import of this name is one of the closed set, with this interface,
/// function and operation.
pub open spec fn bound(
    name: Seq<char>,
    interface: Seq<char>,
    function: Seq<char>,
    operation: Seq<char>,
) -> bool {
    ||| name == "aiueos-http-post"@ && interface == "kotoba:application/http-post@1.0.0"@
        && function == "post"@ && operation == "http/post"@
    ||| name == "aiueos-clock-now"@ && interface == "kotoba:application/clock@1.0.0"@ && function
        == "now"@ && operation == "clock/now"@
    ||| name == "aiueos-log-append"@ && interface == "kotoba:application/log@1.0.0"@ && function
        == "append"@ && operation == "log/append"@
    ||| name == "aiueos-llm-generate"@ && interface == "kotoba:application/llm@1.0.0"@ && function
        == "generate"@ && operation == "llm/generate"@
    ||| name == "aiueos-storage-transact"@ && interface == "kotoba:application/storage@1.0.0"@
        && function == "transact"@ && operation == "storage/transact"@
}

/// Whether an import of this name may have this operation.
pub open spec fn permits(name: Seq<char>, operation: Seq<char>) -> bool {
    exists|interface: Seq<char>, function: Seq<char>| #[trigger]
        bound(name, interface, function, operation)
}

/// Whether an import may have this ability: the operation is its own, and nothing
/// is left unbounded or unsaid.
pub open spec fn may(name: Seq<char>, ability: Ability) -> bool {
    &&& permits(name, ability.operation@)
    &&& ability.target@.len() > 0
    &&& ability.audit_id@.len() > 0
    &&& ability.max_bytes > 0
    &&& ability.max_items > 0
    &&& ability.deadline_ms > 0
}

/// The names of the closed set differ.
proof fn lemma_names()
    ensures
        "aiueos-http-post"@ != "aiueos-clock-now"@,
        "aiueos-http-post"@ != "aiueos-log-append"@,
        "aiueos-http-post"@ != "aiueos-llm-generate"@,
        "aiueos-http-post"@ != "aiueos-storage-transact"@,
        "aiueos-clock-now"@ != "aiueos-log-append"@,
        "aiueos-clock-now"@ != "aiueos-llm-generate"@,
        "aiueos-clock-now"@ != "aiueos-storage-transact"@,
        "aiueos-log-append"@ != "aiueos-llm-generate"@,
        "aiueos-log-append"@ != "aiueos-storage-transact"@,
        "aiueos-llm-generate"@ != "aiueos-storage-transact"@,
{
    reveal_strlit("aiueos-clock-now");
    reveal_strlit("aiueos-http-post");
    reveal_strlit("aiueos-llm-generate");
    reveal_strlit("aiueos-log-append");
    reveal_strlit("aiueos-storage-transact");
    assert("aiueos-clock-now"@[7] == 'c' && "aiueos-http-post"@[7] == 'h');
    assert("aiueos-llm-generate"@.len() == 19 && "aiueos-log-append"@.len() == 17);
    assert("aiueos-storage-transact"@.len() == 23);
    assert("aiueos-clock-now"@.len() == 16 && "aiueos-http-post"@.len() == 16);
}

/// The binding of an import is its row of the closed set.
proof fn lemma_binding(name: Seq<char>)
    ensures
        match binding_of(name) {
            Some(binding) => bound(
                name,
                binding.interface,
                binding.function,
                binding.operation,
            ) && forall|interface: Seq<char>, function: Seq<char>, operation: Seq<char>|
                #[trigger]
                bound(name, interface, function, operation) ==> operation == binding.operation
                    && function == binding.function && interface == binding.interface,
            None => forall|interface: Seq<char>, function: Seq<char>, operation: Seq<char>|
                !#[trigger] bound(name, interface, function, operation),
        },
{
    lemma_names();
}

/// An ability is checked as an import may have it.
pub proof fn lemma_may(name: Seq<char>, ability: Ability)
    ensures
        ability_checked(name, ability) is Ok <==> may(name, ability),
        ability_checked(name, ability) matches Err(failure) ==> failure.subject == name
            && failure.kind == if !exists|operation: Seq<char>| #[trigger]
            permits(name, operation) {
            ErrorKind::UnrecognizedImport
        } else if !permits(name, ability.operation@) {
            ErrorKind::InvalidOperation
        } else {
            ErrorKind::UnboundedAbility
        },
{
    lemma_binding(name);
    match binding_of(name) {
        Some(binding) => {
            assert(bound(name, binding.interface, binding.function, binding.operation));
            assert(permits(name, binding.operation));
        },
        None => {
            assert forall|operation: Seq<char>| !#[trigger] permits(name, operation) by {
                if permits(name, operation) {
                    let (interface, function) = choose|interface: Seq<char>, function: Seq<char>|
                        #[trigger]
                        bound(name, interface, function, operation);
                    assert(bound(name, interface, function, operation));
                }
            }
        },
    }
}

/// An ability is admitted exactly where the import is of the closed set, the
/// operation is its own, and every bound is there; the refusal names the import and
/// the first of these that fails.
pub proof fn law_ability_is_bounded(
    name: &str,
    ability: &Ability,
    checked: Result<(), HostError>,
)
    requires
        call_ensures(validate_ability, (name, ability), checked),
    ensures
        checked is Ok <==> may(name@, *ability),
        checked matches Err(error) ==> error.subject@ == name@ && error.kind == if !exists|
            operation: Seq<char>,
        | #[trigger]
            permits(name@, operation) {
            ErrorKind::UnrecognizedImport
        } else if !permits(name@, ability.operation@) {
            ErrorKind::InvalidOperation
        } else {
            ErrorKind::UnboundedAbility
        },
{
    lemma_may(name@, *ability);
}

/// Whether every import may have its ability and no two are of one name.
pub open spec fn all_may(imports: Seq<Import>) -> bool {
    &&& forall|i: int|
        0 <= i < imports.len() ==> may((#[trigger] imports[i]).name@, imports[i].ability)
    &&& forall|i: int, j: int|
        0 <= i < j < imports.len() ==> (#[trigger] imports[i]).name@ != (
        #[trigger] imports[j]).name@
}

proof fn lemma_all_may(imports: Seq<Import>)
    ensures
        imports_checked(imports) is Ok <==> all_may(imports),
{
    lemma_admitted_exactly(imports);
    assert forall|i: int| 0 <= i < imports.len() implies (ability_checked(
        (#[trigger] imports[i]).name@,
        imports[i].ability,
    ) is Ok <==> may(imports[i].name@, imports[i].ability)) by {
        lemma_may(imports[i].name@, imports[i].ability);
    }
    if all_may(imports) {
        assert(admissible(imports));
    }
}

/// A run is admitted exactly where it is one and every import of it may have its
/// ability and comes once: one import that fails has the whole run refused.
pub proof fn law_run_is_admitted_whole(request: &Run, links: Result<Vec<Link>, HostError>)
    requires
        call_ensures(admit_run, (request,), links),
    ensures
        links is Ok <==> request.kind@ == "run"@ && all_may(request.imports@),
        request.kind@ != "run"@ ==> (links matches Err(error) && error.kind
            == ErrorKind::NotRunRequest),
{
    lemma_all_may(request.imports@);
}

/// The refusal of a run is that of the first import that fails.
pub proof fn law_first_failure_counts(request: &Run, error: HostError)
    requires
        call_ensures(admit_run, (request,), Err(error)),
        request.kind@ == "run"@,
    ensures
        exists|i: int| #[trigger] first_failure(request.imports@, i, error@),
{
    lemma_first_failure(request.imports@);
}

/// Whether the import at `i` is the first that fails, and fails so.
pub open spec fn first_failure(imports: Seq<Import>, i: int, failure: Failure) -> bool {
    &&& 0 <= i < imports.len()
    &&& all_may(imports.take(i))
    &&& if may(imports[i].name@, imports[i].ability) {
        &&& failure.kind == ErrorKind::DuplicateImport
        &&& exists|j: int| 0 <= j < i && (#[trigger] imports[j]).name@ == imports[i].name@
    } else {
        &&& failure.subject == imports[i].name@
        &&& failure.kind == ErrorKind::UnrecognizedImport || failure.kind
            == ErrorKind::InvalidOperation || failure.kind == ErrorKind::UnboundedAbility
    }
}

proof fn lemma_first_failure(imports: Seq<Import>)
    ensures
        imports_checked(imports) matches Err(failure) ==> exists|i: int| #[trigger]
            first_failure(imports, i, failure),
    decreases imports.len(),
{
    if imports.len() > 0 {
        let front = imports.drop_last();
        let last = imports.len() - 1;
        lemma_first_failure(front);
        lemma_all_may(front);
        lemma_may(imports[last].name@, imports[last].ability);
        lemma_import_at(front, imports[last].name@);
        match imports_checked(imports) {
            Err(failure) => {
                if imports_checked(front) is Err {
                    let i = choose|i: int| #[trigger] first_failure(front, i, failure);
                    assert(front.take(i) =~= imports.take(i));
                    if may(front[i].name@, front[i].ability) {
                        let j = choose|j: int|
                            0 <= j < i && (#[trigger] front[j]).name@ == front[i].name@;
                        assert(imports[j].name@ == imports[i].name@);
                    }
                    assert(first_failure(imports, i, failure));
                } else {
                    assert(imports.take(last) =~= front);
                    if may(imports[last].name@, imports[last].ability) {
                        let j = import_at(front, imports[last].name@)->0;
                        assert(front[j].name@ == imports[last].name@);
                        assert(imports[j].name@ == imports[last].name@);
                    }
                    assert(first_failure(imports, last, failure));
                }
            },
            Ok(_) => {},
        }
    }
}

/// Whether a link offers `function` as a linear resource.
pub open spec fn offered_linear(link: Link, function: Seq<char>) -> bool {
    link.linkage matches Linkage::Linear { resource, issue, execute } && {
        &&& resource@ == function + "-capability"@
        &&& issue@ == "issue-"@ + function
        &&& execute@ == "execute-"@ + function
    }
}

/// Whether a link offers `function` as a function that may be called again.
pub open spec fn offered_again(link: Link, function: Seq<char>) -> bool {
    if link.name@ == "aiueos-storage-transact"@ {
        link.linkage matches Linkage::Storage { function: offered } && offered@ == function
    } else {
        link.linkage matches Linkage::Scalar { function: offered } && offered@ == function
    }
}

/// Every link of a run is offered in the capability mode that the run asks for: as
/// a linear resource in the mode of that name, whatever the import, and in no other
/// mode. It is offered under the interface and function of its import.
pub proof fn law_links_are_offered_as_asked(request: &Run, links: Vec<Link>, i: int)
    requires
        call_ensures(admit_run, (request,), Ok(links)),
        0 <= i < links@.len(),
    ensures
        exists|function: Seq<char>| #[trigger]
            bound(
                links@[i].name@,
                links@[i].interface@,
                function,
                links@[i].ability.operation@,
            ) && if request.capability_mode@ == "linear-resource"@ {
                offered_linear(links@[i], function)
            } else {
                offered_again(links@[i], function)
            },
        (links@[i].linkage is Linear) == (request.capability_mode@ == "linear-resource"@),
{
    let link = links@[i];
    let import = in_order(request.imports@, 5)[i];
    assert(link.links(import, request.capability_mode@));
    lemma_imports_admitted(request.imports@);
    lemma_binding(link.name@);
    let binding = binding_of(link.name@)->0;
    assert(ability_checked(link.name@, link.ability) is Ok);
    assert(bound(link.name@, link.interface@, binding.function, link.ability.operation@));
}

/// The links of a run are its imports, each once and with its own ability.
pub proof fn law_links_are_the_imports(request: &Run, links: Vec<Link>)
    requires
        call_ensures(admit_run, (request,), Ok(links)),
    ensures
        forall|i: int|
            0 <= i < links@.len() ==> exists|j: int|
                0 <= j < request.imports@.len() && (#[trigger] request.imports@[j]).name@ == (
                #[trigger] links@[i]).name@ && request.imports@[j].ability == links@[i].ability,
        forall|j: int|
            0 <= j < request.imports@.len() ==> exists|i: int|
                0 <= i < links@.len() && (#[trigger] links@[i]).name@ == (
                #[trigger] request.imports@[j]).name@,
        forall|i: int, j: int|
            0 <= i < j < links@.len() ==> (#[trigger] links@[i]).name@ != (
            #[trigger] links@[j]).name@,
{
    assert forall|i: int| 0 <= i < links@.len() implies exists|j: int|
        0 <= j < request.imports@.len() && (#[trigger] request.imports@[j]).name@ == (
        #[trigger] links@[i]).name@ && request.imports@[j].ability == links@[i].ability by {
        lemma_link_was_asked_for(*request, links@, i);
    }
    assert forall|j: int| 0 <= j < request.imports@.len() implies exists|i: int|
        0 <= i < links@.len() && (#[trigger] links@[i]).name@ == (
        #[trigger] request.imports@[j]).name@ by {
        lemma_import_is_linked(*request, links@, j);
    }
    assert forall|i: int, j: int| 0 <= i < j < links@.len() implies (#[trigger] links@[i]).name@
        != (#[trigger] links@[j]).name@ by {
        lemma_links_differ(*request, links@, i, j);
    }
}

/// Whether a name stands before another in the alphabet.
pub open spec fn precedes(a: Seq<char>, b: Seq<char>) -> bool {
    exists|k: int| #[trigger] parts_from(a, b, k)
}

/// Whether two names part at `k`, where the first has the lesser letter.
pub open spec fn parts_from(a: Seq<char>, b: Seq<char>, k: int) -> bool {
    &&& 0 <= k < a.len() && k < b.len()
    &&& a.take(k) == b.take(k)
    &&& a[k] < b[k]
}

proof fn lemma_names_in_order(p: int, q: int)
    requires
        0 <= p < q < 5,
    ensures
        precedes(import_names()[p], import_names()[q]),
{
    reveal_strlit("aiueos-clock-now");
    reveal_strlit("aiueos-http-post");
    reveal_strlit("aiueos-llm-generate");
    reveal_strlit("aiueos-log-append");
    reveal_strlit("aiueos-storage-transact");
    let a = import_names()[p];
    let b = import_names()[q];
    if p == 2 && q == 3 {
        assert(a.take(8) =~= b.take(8));
        assert(parts_from(a, b, 8));
    } else {
        assert(a.take(7) =~= b.take(7));
        assert(parts_from(a, b, 7));
    }
}

proof fn lemma_in_order_of_names(imports: Seq<Import>, n: nat)
    requires
        n <= 5,
    ensures
        forall|i: int, j: int|
            0 <= i < j < in_order(imports, n).len() ==> precedes(
                (#[trigger] in_order(imports, n)[i]).name@,
                (#[trigger] in_order(imports, n)[j]).name@,
            ),
    decreases n,
{
    if n > 0 {
        let earlier = in_order(imports, (n - 1) as nat);
        let later = in_order(imports, n);
        lemma_in_order_of_names(imports, (n - 1) as nat);
        lemma_in_order(imports, (n - 1) as nat);
        lemma_import_at(imports, import_names()[n - 1]);
        assert forall|i: int, j: int| 0 <= i < j < later.len() implies precedes(
            (#[trigger] later[i]).name@,
            (#[trigger] later[j]).name@,
        ) by {
            assert(later[i] == earlier[i]);
            if j < earlier.len() {
                assert(later[j] == earlier[j]);
            } else {
                let k = choose|k: int|
                    0 <= k < n - 1 && #[trigger] import_names()[k] == earlier[i].name@;
                lemma_names_in_order(k, n - 1);
            }
        }
    }
}

/// The links of a run are in the order of their names, however the run names them.
pub proof fn law_links_are_in_the_order_of_their_names(request: &Run, links: Vec<Link>)
    requires
        call_ensures(admit_run, (request,), Ok(links)),
    ensures
        forall|i: int, j: int|
            0 <= i < j < links@.len() ==> precedes(
                (#[trigger] links@[i]).name@,
                (#[trigger] links@[j]).name@,
            ),
{
    let imports = in_order(request.imports@, 5);
    lemma_in_order_of_names(request.imports@, 5);
    assert forall|i: int, j: int| 0 <= i < j < links@.len() implies precedes(
        (#[trigger] links@[i]).name@,
        (#[trigger] links@[j]).name@,
    ) by {
        assert(links@[i].links(imports[i], request.capability_mode@));
        assert(links@[j].links(imports[j], request.capability_mode@));
    }
}

/// Imports are admitted exactly where each may have its ability and comes once; what
/// is admitted is the imports, in the order of their names.
pub proof fn law_imports_are_admitted_whole(
    imports: &Vec<Import>,
    admitted: Result<Vec<Import>, HostError>,
)
    requires
        call_ensures(admit_imports, (imports,), admitted),
    ensures
        admitted is Ok <==> all_may(imports@),
        admitted matches Ok(kept) ==> {
            &&& forall|i: int| 0 <= i < kept@.len() ==> imports@.contains(#[trigger] kept@[i])
            &&& forall|j: int| 0 <= j < imports@.len() ==> kept@.contains(#[trigger] imports@[j])
            &&& forall|i: int, j: int|
                0 <= i < j < kept@.len() ==> precedes(
                    (#[trigger] kept@[i]).name@,
                    (#[trigger] kept@[j]).name@,
                )
        },
        admitted matches Err(error) ==> exists|i: int| #[trigger]
            first_failure(imports@, i, error@),
{
    lemma_all_may(imports@);
    lemma_first_failure(imports@);
    if admitted is Ok {
        lemma_imports_admitted(imports@);
        lemma_in_order_of_names(imports@, 5);
    }
}

/// A page is 64 KiB, and more memory is allowed for more pages, as far as a number
/// of bytes goes.
pub proof fn law_memory_follows_pages(pages: u64, bytes: usize)
    requires
        call_ensures(memory_limit, (pages,), bytes),
    ensures
        pages * 65536 <= u64::MAX ==> bytes == ((pages * 65536) as u64) as usize,
        pages * 65536 > u64::MAX ==> bytes == u64::MAX as usize,
{
}

/// A run calls the export that it names, and `main` where it names none.
pub proof fn law_export_is_the_named_one(request: &Run, name: String)
    requires
        call_ensures(export_name, (request,), name),
    ensures
        match request.export {
            Some(export) => name@ == export@,
            None => name@ == "main"@,
        },
{
}

/// The result of a run is the integer that its first result is; a run has none
/// where that is no integer.
pub proof fn law_result_is_the_first(results: &Vec<Val>, value: Result<i64, HostError>)
    requires
        call_ensures(scalar_result, (results,), value),
    ensures
        match value {
            Ok(number) => results@.len() > 0 && results@[0]@ == ValTree::S64(number),
            Err(error) => !(results@.len() > 0 && results@[0]@ is S64) && error.kind
                == ErrorKind::MainNotScalar,
        },
{
    if results@.len() > 0 {
        assert(val_trees(results@)[0] == results@[0]@);
    }
}

/// One integer is a scalar call of storage, with or without a session; anything
/// else is a structured request, and needs a session.
pub proof fn law_storage_calls_are_told_apart(
    params: &Vec<Val>,
    resident: bool,
    call: Result<StorageCall, HostError>,
)
    requires
        call_ensures(storage_call, (params, resident), call),
    ensures
        match call {
            Ok(StorageCall::Scalar(number)) => params@.len() == 1 && params@[0]@ == ValTree::S64(
                number,
            ),
            Ok(StorageCall::Structured) => !(params@.len() == 1 && params@[0]@ is S64) && resident,
            Err(error) => !(params@.len() == 1 && params@[0]@ is S64) && !resident && error.kind
                == ErrorKind::StructuredStorageUnprovided,
        },
{
    if params@.len() == 1 {
        assert(val_trees(params@)[0] == params@[0]@);
    }
}

/// A scalar call of storage is answered with the integer itself, in the one place
/// that there is for it.
pub proof fn law_storage_answers_in_one_place(
    value: i64,
    results: usize,
    answer: Result<Val, HostError>,
)
    requires
        call_ensures(storage_answer, (value, results), answer),
    ensures
        results == 1 ==> (answer matches Ok(told) && told@ == ValTree::S64(value)),
        results != 1 ==> (answer matches Err(error) && error.kind
            == ErrorKind::StorageResultCount),
{
}

/// A call is answered by the session where there is one, else by the other end of
/// the protocol, and never for an import whose ability fails.
pub proof fn law_who_answers(
    name: &str,
    ability: &Ability,
    value: i64,
    resident: bool,
    remote: bool,
    provider: Result<Provider, HostError>,
)
    requires
        call_ensures(provider_call, (name, ability, value, resident, remote), provider),
    ensures
        provider is Ok <==> may(name@, *ability) && (resident || remote),
        provider == Ok::<Provider, HostError>(Provider::Resident) <==> may(name@, *ability)
            && resident,
        may(name@, *ability) && !resident && !remote ==> (provider matches Err(error)
            && error.kind == ErrorKind::NoProvider),
{
    lemma_may(name@, *ability);
}

/// The other end is asked for the call as it was made: for the import, with the
/// ability that it is bound with and the value that it was given.
pub proof fn law_other_end_is_asked_for_the_call(
    name: &str,
    ability: &Ability,
    value: i64,
    resident: bool,
    remote: bool,
    message: Json,
)
    requires
        call_ensures(
            provider_call,
            (name, ability, value, resident, remote),
            Ok(Provider::Remote(message)),
        ),
    ensures
        !resident && remote,
        message@.member("type"@) == Some(JsonTree::Text("provider-call"@)),
        message@.member("import"@) == Some(JsonTree::Text(name@)),
        message@.member("payload"@) matches Some(payload) && payload.member("value"@) == Some(
            JsonTree::Whole(value as int),
        ) && only(payload, set!["value"@]),
        only(message@, set!["type"@, "import"@, "ability"@, "payload"@]),
        message@.member("ability"@) matches Some(told) && {
            &&& only(
                told,
                set![
                    "target"@,
                    "operation"@,
                    "max-bytes"@,
                    "max-items"@,
                    "deadline-ms"@,
                    "audit-id"@,
                ],
            )
            &&& told.member("target"@) == Some(JsonTree::Text(ability.target@))
            &&& told.member("operation"@) == Some(JsonTree::Text(ability.operation@))
            &&& told.member("max-bytes"@) == Some(JsonTree::Whole(ability.max_bytes as int))
            &&& told.member("max-items"@) == Some(JsonTree::Whole(ability.max_items as int))
            &&& told.member("deadline-ms"@) == Some(JsonTree::Whole(ability.deadline_ms as int))
            &&& told.member("audit-id"@) == Some(JsonTree::Text(ability.audit_id@))
        },
{
    reveal_strlit("type");
    reveal_strlit("import");
    reveal_strlit("ability");
    reveal_strlit("payload");
    assert("type"@.len() == 4 && "import"@.len() == 6);
    assert("ability"@.len() == 7 && "payload"@.len() == 7);
    assert("ability"@[0] == 'a' && "payload"@[0] == 'p');
    reveal_strlit("target");
    reveal_strlit("operation");
    reveal_strlit("max-bytes");
    reveal_strlit("max-items");
    reveal_strlit("deadline-ms");
    reveal_strlit("audit-id");
    assert("target"@.len() == 6 && "operation"@.len() == 9 && "max-bytes"@.len() == 9);
    assert("max-items"@.len() == 9 && "deadline-ms"@.len() == 11 && "audit-id"@.len() == 8);
    assert("operation"@[0] == 'o' && "max-bytes"@[0] == 'm' && "max-bytes"@[4] == 'b');
    assert("max-items"@[0] == 'm' && "max-items"@[4] == 'i');
    let told = message@.member("ability"@)->0;
    let payload = message@.member("payload"@)->0;
    assert(message@->Object_0.dom() =~= set!["type"@, "import"@, "ability"@, "payload"@]);
    assert(payload->Object_0.dom() =~= set!["value"@]);
    assert(told->Object_0.dom() =~= set![
        "target"@,
        "operation"@,
        "max-bytes"@,
        "max-items"@,
        "deadline-ms"@,
        "audit-id"@,
    ]);
}

/// A call gets the value of a message exactly where the message is a result for its
/// import and holds an integer; anything else is refused for the first that fails.
pub proof fn law_answer_is_for_the_call(
    name: &str,
    message: &Json,
    value: Result<i64, HostError>,
)
    requires
        call_ensures(provider_result, (name, message), value),
    ensures
        match value {
            Ok(number) => {
                &&& message@.member("type"@) == Some(JsonTree::Text("provider-result"@))
                &&& message@.member("import"@) == Some(JsonTree::Text(name@))
                &&& message@.member("value"@) == Some(JsonTree::Whole(number as int))
            },
            Err(error) => if message@.member("type"@) != Some(
                JsonTree::Text("provider-result"@),
            ) {
                error.kind == ErrorKind::ExpectedProviderResult
            } else if message@.member("import"@) != Some(JsonTree::Text(name@)) {
                error.kind == ErrorKind::ProviderImportMismatch
            } else {
                &&& error.kind == ErrorKind::ProviderValueMissing
                &&& !(message@.member("value"@) matches Some(JsonTree::Whole(number)) && i64::MIN
                    <= number <= i64::MAX)
            },
        },
{
}

/// A line is answered as the message that it writes; no line at all is the end of
/// the protocol.
pub proof fn law_line_is_its_message(
    name: &str,
    line: &str,
    read: Result<i64, HostError>,
    message: &Json,
    value: Result<i64, HostError>,
)
    requires
        call_ensures(provider_response, (name, line), read),
        call_ensures(provider_result, (name, message), value),
    ensures
        line@.len() == 0 ==> (read matches Err(error) && error.kind == ErrorKind::ProviderClosed),
        line@.len() > 0 && json_parse(encode_utf8(line@)) == Some(
            message@,
        ) ==> match (read, value) {
            (Ok(one), Ok(other)) => one == other,
            (Err(one), Err(other)) => one@ == other@,
            _ => false,
        },
        line@.len() > 0 && json_parse(encode_utf8(line@)) is None ==> (
        read matches Err(error) && error.kind == ErrorKind::InvalidProviderResponse),
{
}

/// Why a line is no message is told as the cause.
pub proof fn law_unreadable_line_tells_why(
    name: &str,
    line: &str,
    bytes: &[u8],
    error: HostError,
    cause: String,
)
    requires
        line@.len() > 0,
        bytes@ == encode_utf8(line@),
        call_ensures(provider_response, (name, line), Err(error)),
        call_ensures(Json::read, (bytes,), Err(cause)),
    ensures
        error@.cause == Some(cause@),
{
}

/// The last message tells the result of the run, or else why there is none.
pub proof fn law_last_message_tells_the_outcome(
    outcome: &Result<i64, String>,
    message: Json,
)
    requires
        call_ensures(terminal_message, (outcome,), message),
    ensures
        match *outcome {
            Ok(value) => message@.member("type"@) == Some(JsonTree::Text("result"@))
                && message@.member("value"@) == Some(JsonTree::Whole(value as int))
                && only(message@, set!["type"@, "value"@]),
            Err(text) => message@.member("type"@) == Some(JsonTree::Text("error"@))
                && message@.member("message"@) == Some(JsonTree::Text(text@)) && only(
                message@,
                set!["type"@, "message"@],
            ),
        },
{
    reveal_strlit("type");
    reveal_strlit("value");
    reveal_strlit("message");
    assert("type"@.len() == 4 && "value"@.len() == 5 && "message"@.len() == 7);
    if outcome is Ok {
        assert(message@->Object_0.dom() =~= set!["type"@, "value"@]);
    } else {
        assert(message@->Object_0.dom() =~= set!["type"@, "message"@]);
    }
}

/// The notice of a failure tells which call failed, and why.
pub proof fn law_notice_tells_the_failure(name: &str, message: &str, notice: Json)
    requires
        call_ensures(failure_notice, (name, message), notice),
    ensures
        notice@.member("capability"@) == Some(JsonTree::Text(name@)),
        notice@.member("error"@) == Some(JsonTree::Text(message@)),
        notice@.member("type"@) == Some(JsonTree::Text("provider-error"@)),
        only(notice@, set!["capability"@, "error"@, "type"@]),
{
    reveal_strlit("capability");
    reveal_strlit("error");
    reveal_strlit("type");
    assert("capability"@.len() == 10 && "error"@.len() == 5 && "type"@.len() == 4);
    assert(notice@->Object_0.dom() =~= set!["capability"@, "error"@, "type"@]);
}

} // verus!
