//! A run of a component: what it may import and under which names, how much
//! memory it may have, and the values that go into and come out of its export.

use vstd::prelude::*;

use crate::ability::{
    ability_checked, admit_imports, allowed_binding, binding_of, imports_checked, in_order,
    lemma_imports_admitted, lemma_in_order, Ability, Import,
};
use crate::error::{about, plain, told, ErrorKind, Failure, HostError};
use crate::json::{lemma_trees, lemma_trees_push, trees, Json, JsonTree};
use crate::text::same;
use crate::value::{
    admitted, default_of, default_value, has_type, lemma_admitted_has_type, lemma_default_has_type,
    reported, val_trees, value_from_json, value_to_json, ComponentType, Val, ValTree,
};

verus! {

/// A request to run a component.
#[derive(Debug)]
pub struct Run {
    pub kind: String,
    pub component: String,
    pub capability_mode: String,
    pub imports: Vec<Import>,
    pub fuel: u64,
    pub memory_pages: u64,
    pub export: Option<String>,
    pub params: Vec<Json>,
}

/// How an import is offered to a component.
#[derive(Debug, PartialEq, Eq)]
pub enum Linkage {
    /// As a resource that is issued, and used up by the call.
    Linear { resource: String, issue: String, execute: String },
    /// As a function that takes one integer or one structured request.
    Storage { function: String },
    /// As a function that takes one integer.
    Scalar { function: String },
}

/// An import as it is linked.
#[derive(Debug, PartialEq, Eq)]
pub struct Link {
    pub name: String,
    pub ability: Ability,
    pub interface: String,
    pub linkage: Linkage,
}

/// The value of a [`Linkage`].
#[verifier::ext_equal]
pub enum Offer {
    Linear { resource: Seq<char>, issue: Seq<char>, execute: Seq<char> },
    Storage { function: Seq<char> },
    Scalar { function: Seq<char> },
}

impl View for Linkage {
    type V = Offer;

    open spec fn view(&self) -> Offer {
        match *self {
            Linkage::Linear { resource, issue, execute } => Offer::Linear {
                resource: resource@,
                issue: issue@,
                execute: execute@,
            },
            Linkage::Storage { function } => Offer::Storage { function: function@ },
            Linkage::Scalar { function } => Offer::Scalar { function: function@ },
        }
    }
}

/// How the import `name`, which is bound to `function`, is offered.
pub open spec fn offer_of(name: Seq<char>, function: Seq<char>, mode: Seq<char>) -> Offer {
    if mode == "linear-resource"@ {
        Offer::Linear {
            resource: function + "-capability"@,
            issue: "issue-"@ + function,
            execute: "execute-"@ + function,
        }
    } else if name == "aiueos-storage-transact"@ {
        Offer::Storage { function }
    } else {
        Offer::Scalar { function }
    }
}

impl Link {
    /// Whether this is how `import` is linked in a capability mode.
    pub open spec fn links(self, import: Import, mode: Seq<char>) -> bool {
        match binding_of(import.name@) {
            None => false,
            Some(binding) => {
                &&& self.name@ == import.name@
                &&& self.ability == import.ability
                &&& self.interface@ == binding.interface
                &&& self.linkage@ == offer_of(import.name@, binding.function, mode)
            },
        }
    }
}

fn joined(first: &str, second: &str) -> (both: String)
    ensures
        both@ == first@ + second@,
{
    let mut both: String = first.to_owned();
    both.append(second);
    both
}

/// Links an import of the closed set.
fn link_import(import: &Import, mode: &str) -> (link: Link)
    requires
        binding_of(import.name@) is Some,
    ensures
        link.links(*import, mode@),
{
    let (interface, function, _) = allowed_binding(import.name.as_str()).unwrap();
    let linkage: Linkage = if same(mode, "linear-resource") {
        Linkage::Linear {
            resource: joined(function, "-capability"),
            issue: joined("issue-", function),
            execute: joined("execute-", function),
        }
    } else if same(import.name.as_str(), "aiueos-storage-transact") {
        Linkage::Storage { function: function.to_owned() }
    } else {
        Linkage::Scalar { function: function.to_owned() }
    };
    Link {
        name: import.name.clone(),
        ability: import.ability.clone(),
        interface: interface.to_owned(),
        linkage,
    }
}

/// Whether a run is admitted: it is a run, and its imports are admitted.
pub open spec fn run_checked(request: Run) -> Result<(), Failure> {
    if request.kind@ != "run"@ {
        Err(plain(ErrorKind::NotRunRequest))
    } else {
        imports_checked(request.imports@)
    }
}

/// Admits a run and links its imports, in the order of their names.
pub fn admit_run(request: &Run) -> (links: Result<Vec<Link>, HostError>)
    ensures
        match links {
            Ok(links) => run_checked(*request) is Ok && links_of(*request, links@),
            Err(error) => run_checked(*request) == Err::<(), Failure>(error@),
        },
{
    if !same(request.kind.as_str(), "run") {
        return Err(HostError::plain(ErrorKind::NotRunRequest));
    }
    let imports: Vec<Import> = match admit_imports(&request.imports) {
        Err(error) => {
            return Err(error);
        },
        Ok(imports) => imports,
    };
    let mut links: Vec<Link> = Vec::new();
    let mut i: usize = 0;
    while i < imports.len()
        invariant
            i <= imports@.len(),
            imports@ == in_order(request.imports@, 5),
            links@.len() == i,
            forall|j: int|
                0 <= j < i ==> (#[trigger] links@[j]).links(imports@[j], request.capability_mode@),
        decreases imports.len() - i,
    {
        proof {
            lemma_in_order(request.imports@, 5);
        }
        links.push(link_import(&imports[i], request.capability_mode.as_str()));
        i += 1;
    }
    Ok(links)
}

/// How many bytes of memory so many pages are, as far as the number goes.
pub open spec fn page_bytes(pages: u64) -> u64 {
    if pages * 65536 > u64::MAX {
        u64::MAX
    } else {
        (pages * 65536) as u64
    }
}

/// How many bytes of memory a component of so many pages may have.
pub fn memory_limit(pages: u64) -> (bytes: usize)
    ensures
        bytes == page_bytes(pages) as usize,
{
    match pages.checked_mul(65536) {
        Some(bytes) => bytes as usize,
        None => u64::MAX as usize,
    }
}

/// The export that is called where a run names one or none.
pub open spec fn export_of(export: Option<String>) -> Seq<char> {
    match export {
        Some(name) => name@,
        None => "main"@,
    }
}

/// The export that a run calls.
pub fn export_name(request: &Run) -> (name: String)
    ensures
        name@ == export_of(request.export),
{
    match &request.export {
        Some(name) => name.clone(),
        None => "main".to_owned(),
    }
}

/// The types of the parameters and results of an export.
#[derive(Debug, PartialEq, Eq)]
pub struct Signature {
    pub params: Vec<ComponentType>,
    pub results: Vec<ComponentType>,
}

/// The values that JSON parameters give, one for each type. The first refusal
/// counts.
pub open spec fn admitted_params(types: Seq<ComponentType>, params: Seq<JsonTree>) -> Result<
    Seq<ValTree>,
    Failure,
>
    decreases types.len(),
{
    if types.len() == 0 {
        Ok(seq![])
    } else {
        match admitted_params(types.drop_last(), params) {
            Err(failure) => Err(failure),
            Ok(values) => match admitted(types.last(), params[types.len() - 1]) {
                Err(failure) => Err(failure),
                Ok(value) => Ok(values.push(value)),
            },
        }
    }
}

/// The values that hold the places of the results.
pub open spec fn default_results(types: Seq<ComponentType>) -> Result<Seq<ValTree>, Failure>
    decreases types.len(),
{
    if types.len() == 0 {
        Ok(seq![])
    } else {
        match default_results(types.drop_last()) {
            Err(failure) => Err(failure),
            Ok(values) => match default_of(types.last()) {
                Err(failure) => Err(failure),
                Ok(value) => Ok(values.push(value)),
            },
        }
    }
}

proof fn lemma_params_refused(types: Seq<ComponentType>, n: int, params: Seq<JsonTree>)
    requires
        0 <= n <= types.len(),
        admitted_params(types.take(n), params) is Err,
    ensures
        admitted_params(types, params) == admitted_params(types.take(n), params),
    decreases types.len(),
{
    if n < types.len() {
        let front = types.drop_last();
        assert(front.take(n) =~= types.take(n));
        lemma_params_refused(front, n, params);
    } else {
        assert(types.take(n) =~= types);
    }
}

proof fn lemma_results_refused(types: Seq<ComponentType>, n: int)
    requires
        0 <= n <= types.len(),
        default_results(types.take(n)) is Err,
    ensures
        default_results(types) == default_results(types.take(n)),
    decreases types.len(),
{
    if n < types.len() {
        let front = types.drop_last();
        assert(front.take(n) =~= types.take(n));
        lemma_results_refused(front, n);
    } else {
        assert(types.take(n) =~= types);
    }
}

/// Reads the parameters of a call.
pub fn call_params(types: &Vec<ComponentType>, params: &Vec<Json>) -> (values: Result<
    Vec<Val>,
    HostError,
>)
    ensures
        match values {
            Ok(values) => types@.len() == params@.len() && admitted_params(
                types@,
                trees(params@),
            ) == Ok::<Seq<ValTree>, Failure>(val_trees(values@)),
            Err(error) => if types@.len() != params@.len() {
                error@ == plain(ErrorKind::ParameterCount)
            } else {
                admitted_params(types@, trees(params@)) == Err::<Seq<ValTree>, Failure>(error@)
            },
        },
{
    if params.len() != types.len() {
        return Err(HostError::plain(ErrorKind::ParameterCount));
    }
    let ghost given = trees(params@);
    let mut values: Vec<Val> = Vec::new();
    let mut i: usize = 0;
    assert(types@.take(0) =~= seq![]);
    assert(val_trees(values@) =~= seq![]);
    while i < types.len()
        invariant
            i <= types@.len() == params@.len(),
            given == trees(params@),
            admitted_params(types@.take(i as int), given) == Ok::<Seq<ValTree>, Failure>(
                val_trees(values@),
            ),
        decreases types.len() - i,
    {
        proof {
            lemma_trees(params@);
            let longer = types@.take(i + 1);
            assert(longer.drop_last() =~= types@.take(i as int));
            assert(longer.last() == types@[i as int]);
            if admitted_params(longer, given) is Err {
                lemma_params_refused(types@, i + 1, given);
            }
        }
        match value_from_json(&types[i], &params[i]) {
            Err(error) => {
                return Err(error);
            },
            Ok(value) => {
                proof {
                    assert(val_trees(values@.push(value)) =~= val_trees(values@).push(value@));
                }
                values.push(value);
            },
        }
        i += 1;
    }
    assert(types@.take(i as int) =~= types@);
    Ok(values)
}

/// Makes the values that hold the places of the results of a call.
pub fn call_results(types: &Vec<ComponentType>) -> (values: Result<Vec<Val>, HostError>)
    ensures
        match values {
            Ok(values) => default_results(types@) == Ok::<Seq<ValTree>, Failure>(
                val_trees(values@),
            ),
            Err(error) => default_results(types@) == Err::<Seq<ValTree>, Failure>(error@),
        },
{
    let mut values: Vec<Val> = Vec::new();
    let mut i: usize = 0;
    assert(types@.take(0) =~= seq![]);
    assert(val_trees(values@) =~= seq![]);
    while i < types.len()
        invariant
            i <= types@.len(),
            default_results(types@.take(i as int)) == Ok::<Seq<ValTree>, Failure>(
                val_trees(values@),
            ),
        decreases types.len() - i,
    {
        proof {
            let longer = types@.take(i + 1);
            assert(longer.drop_last() =~= types@.take(i as int));
            assert(longer.last() == types@[i as int]);
            if default_results(longer) is Err {
                lemma_results_refused(types@, i + 1);
            }
        }
        match default_value(&types[i]) {
            Err(error) => {
                return Err(error);
            },
            Ok(value) => {
                proof {
                    assert(val_trees(values@.push(value)) =~= val_trees(values@).push(value@));
                }
                values.push(value);
            },
        }
        i += 1;
    }
    assert(types@.take(i as int) =~= types@);
    Ok(values)
}

/// The values that a call of an export takes, and those that hold the places of
/// its results.
pub open spec fn prepared(
    export: Seq<char>,
    signature: Option<Signature>,
    params: Seq<JsonTree>,
) -> Result<(Seq<ValTree>, Seq<ValTree>), Failure> {
    match signature {
        None => Err(about(ErrorKind::ExportMissing, export)),
        Some(signature) => if signature.params@.len() != params.len() {
            Err(plain(ErrorKind::ParameterCount))
        } else {
            match (
                admitted_params(signature.params@, params),
                default_results(signature.results@),
            ) {
                (Err(failure), _) => Err(failure),
                (Ok(_), Err(failure)) => Err(failure),
                (Ok(values), Ok(places)) => Ok((values, places)),
            }
        },
    }
}

/// Prepares the call that a run makes of its export, where the component has it
/// with this signature.
pub fn prepare_call(request: &Run, signature: &Option<Signature>) -> (call: Result<
    (Vec<Val>, Vec<Val>),
    HostError,
>)
    ensures
        match call {
            Ok((values, places)) => prepared(
                export_of(request.export),
                *signature,
                trees(request.params@),
            ) == Ok::<(Seq<ValTree>, Seq<ValTree>), Failure>(
                (val_trees(values@), val_trees(places@)),
            ),
            Err(error) => prepared(export_of(request.export), *signature, trees(request.params@))
                == Err::<(Seq<ValTree>, Seq<ValTree>), Failure>(error@),
        },
{
    proof {
        lemma_trees(request.params@);
    }
    match signature {
        None => Err(HostError::about(ErrorKind::ExportMissing, export_name(request).as_str())),
        Some(signature) => {
            let values: Vec<Val> = match call_params(&signature.params, &request.params) {
                Err(error) => {
                    return Err(error);
                },
                Ok(values) => values,
            };
            match call_results(&signature.results) {
                Err(error) => Err(error),
                Ok(places) => Ok((values, places)),
            }
        },
    }
}

/// The scalar result of a run: the first of its results.
pub open spec fn scalar_of(results: Seq<ValTree>) -> Result<i64, Failure> {
    if results.len() > 0 {
        match results[0] {
            ValTree::S64(value) => Ok(value),
            _ => Err(plain(ErrorKind::MainNotScalar)),
        }
    } else {
        Err(plain(ErrorKind::MainNotScalar))
    }
}

/// Takes the scalar result of a run.
pub fn scalar_result(results: &Vec<Val>) -> (value: Result<i64, HostError>)
    ensures
        told(value) == scalar_of(val_trees(results@)),
{
    if results.len() == 0 {
        return Err(HostError::plain(ErrorKind::MainNotScalar));
    }
    assert(val_trees(results@)[0] == results@[0]@);
    match &results[0] {
        Val::S64(value) => Ok(*value),
        _ => Err(HostError::plain(ErrorKind::MainNotScalar)),
    }
}

/// What the results of a call are reported as. The first refusal counts.
pub open spec fn reported_results(results: Seq<ValTree>) -> Result<Seq<JsonTree>, Failure>
    decreases results.len(),
{
    if results.len() == 0 {
        Ok(seq![])
    } else {
        match reported_results(results.drop_last()) {
            Err(failure) => Err(failure),
            Ok(earlier) => match reported(results.last()) {
                Err(failure) => Err(failure),
                Ok(json) => Ok(earlier.push(json)),
            },
        }
    }
}

proof fn lemma_output_refused(results: Seq<ValTree>, n: int)
    requires
        0 <= n <= results.len(),
        reported_results(results.take(n)) is Err,
    ensures
        reported_results(results) == reported_results(results.take(n)),
    decreases results.len(),
{
    if n < results.len() {
        let front = results.drop_last();
        assert(front.take(n) =~= results.take(n));
        lemma_output_refused(front, n);
    } else {
        assert(results.take(n) =~= results);
    }
}

/// Reports the results of a call.
pub fn report_results(results: &Vec<Val>) -> (output: Result<Vec<Json>, HostError>)
    ensures
        match output {
            Ok(output) => reported_results(val_trees(results@)) == Ok::<Seq<JsonTree>, Failure>(
                trees(output@),
            ),
            Err(error) => reported_results(val_trees(results@)) == Err::<Seq<JsonTree>, Failure>(
                error@,
            ),
        },
{
    let ghost all = val_trees(results@);
    let mut output: Vec<Json> = Vec::new();
    let mut i: usize = 0;
    assert(all.take(0) =~= seq![]);
    while i < results.len()
        invariant
            i <= results@.len(),
            all == val_trees(results@),
            reported_results(all.take(i as int)) == Ok::<Seq<JsonTree>, Failure>(trees(output@)),
        decreases results.len() - i,
    {
        proof {
            let longer = all.take(i + 1);
            assert(longer.drop_last() =~= all.take(i as int));
            assert(longer.last() == results@[i as int]@);
            if reported_results(longer) is Err {
                lemma_output_refused(all, i + 1);
            }
        }
        match value_to_json(&results[i]) {
            Err(error) => {
                return Err(error);
            },
            Ok(json) => {
                proof {
                    lemma_trees_push(output@, json);
                }
                output.push(json);
            },
        }
        i += 1;
    }
    assert(all.take(i as int) =~= all);
    Ok(output)
}

/// How a call of the storage function is meant.
#[derive(Clone, Copy, Debug, PartialEq, Eq, Structural)]
pub enum StorageCall {
    /// One integer, which is answered with one.
    Scalar(i64),
    /// A structured request of the resident session.
    Structured,
}

/// How a call of the storage function with these parameters is meant, where
/// there is a session or not.
pub open spec fn storage_call_of(params: Seq<ValTree>, resident: bool) -> Result<
    StorageCall,
    Failure,
> {
    if params.len() == 1 && params[0] is S64 {
        Ok(StorageCall::Scalar(params[0]->S64_0))
    } else if !resident {
        Err(plain(ErrorKind::StructuredStorageUnprovided))
    } else {
        Ok(StorageCall::Structured)
    }
}

/// Tells how a call of the storage function is meant.
pub fn storage_call(params: &Vec<Val>, resident: bool) -> (call: Result<StorageCall, HostError>)
    ensures
        match call {
            Ok(call) => storage_call_of(val_trees(params@), resident) == Ok::<StorageCall, Failure>(
                call,
            ),
            Err(error) => storage_call_of(val_trees(params@), resident) == Err::<
                StorageCall,
                Failure,
            >(error@),
        },
{
    if params.len() == 1 {
        assert(val_trees(params@)[0] == params@[0]@);
        match &params[0] {
            Val::S64(value) => {
                return Ok(StorageCall::Scalar(*value));
            },
            _ => {},
        }
    }
    if !resident {
        return Err(HostError::plain(ErrorKind::StructuredStorageUnprovided));
    }
    Ok(StorageCall::Structured)
}

/// Gives the integer that answers a call of the storage function its place, where
/// the call has `results` results.
pub fn storage_answer(value: i64, results: usize) -> (answer: Result<Val, HostError>)
    ensures
        told(answer) == if results != 1 {
            Err::<ValTree, Failure>(plain(ErrorKind::StorageResultCount))
        } else {
            Ok(ValTree::S64(value))
        },
{
    if results != 1 {
        Err(HostError::plain(ErrorKind::StorageResultCount))
    } else {
        Ok(Val::S64(value))
    }
}

/// Whether values are of the types, one for one.
pub open spec fn typed(types: Seq<ComponentType>, values: Seq<ValTree>) -> bool {
    &&& values.len() == types.len()
    &&& forall|i: int| 0 <= i < types.len() ==> has_type(#[trigger] types[i], values[i])
}

proof fn lemma_params_typed(types: Seq<ComponentType>, params: Seq<JsonTree>)
    ensures
        admitted_params(types, params) matches Ok(values) ==> typed(types, values),
    decreases types.len(),
{
    if types.len() > 0 {
        let front = types.drop_last();
        lemma_params_typed(front, params);
        lemma_admitted_has_type(types.last(), params[types.len() - 1]);
        if admitted_params(types, params) is Ok {
            let earlier = admitted_params(front, params)->Ok_0;
            let values = admitted_params(types, params)->Ok_0;
            assert forall|i: int| 0 <= i < types.len() implies has_type(
                #[trigger] types[i],
                values[i],
            ) by {
                if i < front.len() {
                    assert(front[i] == types[i]);
                    assert(values[i] == earlier[i]);
                }
            }
        }
    }
}

proof fn lemma_places_typed(types: Seq<ComponentType>)
    ensures
        default_results(types) matches Ok(values) ==> typed(types, values),
    decreases types.len(),
{
    if types.len() > 0 {
        let front = types.drop_last();
        lemma_places_typed(front);
        lemma_default_has_type(types.last());
        if default_results(types) is Ok {
            let earlier = default_results(front)->Ok_0;
            let values = default_results(types)->Ok_0;
            assert forall|i: int| 0 <= i < types.len() implies has_type(
                #[trigger] types[i],
                values[i],
            ) by {
                if i < front.len() {
                    assert(front[i] == types[i]);
                    assert(values[i] == earlier[i]);
                }
            }
        }
    }
}

/// An export is called with values of its parameter types, and its results have
/// places of their types.
pub proof fn lemma_call_is_typed(
    export: Seq<char>,
    signature: Signature,
    params: Seq<JsonTree>,
)
    ensures
        prepared(export, Some(signature), params) matches Ok((values, places)) ==> typed(
            signature.params@,
            values,
        ) && typed(signature.results@, places),
{
    lemma_params_typed(signature.params@, params);
    lemma_places_typed(signature.results@);
}

/// Whether links are those of a run: its admitted imports, one for one.
pub open spec fn links_of(request: Run, links: Seq<Link>) -> bool {
    let admitted = in_order(request.imports@, 5);
    &&& links.len() == admitted.len()
    &&& forall|i: int|
        0 <= i < links.len() ==> (#[trigger] links[i]).links(admitted[i], request.capability_mode@)
}

/// Whether a link is one of imports, with its ability.
pub open spec fn link_of_one(imports: Seq<Import>, link: Link) -> bool {
    exists|j: int|
        0 <= j < imports.len() && (#[trigger] imports[j]).name@ == link.name@ && imports[j].ability
            == link.ability
}

/// Whether an import has a link of its name.
pub open spec fn linked_by_one(links: Seq<Link>, import: Import) -> bool {
    exists|i: int| 0 <= i < links.len() && (#[trigger] links[i]).name@ == import.name@
}

/// Each link of a run is one of the imports that it asked for, with the ability
/// that was checked.
pub proof fn lemma_link_was_asked_for(request: Run, links: Seq<Link>, i: int)
    requires
        run_checked(request) is Ok,
        links_of(request, links),
        0 <= i < links.len(),
    ensures
        ability_checked(links[i].name@, links[i].ability) is Ok,
        link_of_one(request.imports@, links[i]),
{
    let imports = request.imports@;
    let import = in_order(imports, 5)[i];
    lemma_imports_admitted(imports);
    assert(links[i].links(import, request.capability_mode@));
    assert(imports.contains(import));
    let j = choose|j: int| 0 <= j < imports.len() && imports[j] == import;
    assert(imports[j].name@ == links[i].name@);
}

/// No two links of a run are of one name.
pub proof fn lemma_links_differ(request: Run, links: Seq<Link>, i: int, j: int)
    requires
        run_checked(request) is Ok,
        links_of(request, links),
        0 <= i < j < links.len(),
    ensures
        links[i].name@ != links[j].name@,
{
    let admitted = in_order(request.imports@, 5);
    lemma_imports_admitted(request.imports@);
    assert(links[i].links(admitted[i], request.capability_mode@));
    assert(links[j].links(admitted[j], request.capability_mode@));
    assert(admitted[i].name@ != admitted[j].name@);
}

/// No import of a run is left out of its links.
pub proof fn lemma_import_is_linked(request: Run, links: Seq<Link>, j: int)
    requires
        run_checked(request) is Ok,
        links_of(request, links),
        0 <= j < request.imports@.len(),
    ensures
        linked_by_one(links, request.imports@[j]),
{
    let import = request.imports@[j];
    let admitted = in_order(request.imports@, 5);
    lemma_imports_admitted(request.imports@);
    assert(admitted.contains(import));
    let i = choose|i: int| 0 <= i < admitted.len() && admitted[i] == import;
    assert(links[i].links(admitted[i], request.capability_mode@));
}

/// A component is linked with exactly the imports that its run was admitted with:
/// each link is one of them with the ability that was checked, no two are of one
/// name, and none is left out.
pub proof fn lemma_component_gets_its_imports(request: Run, links: Seq<Link>)
    requires
        run_checked(request) is Ok,
        links_of(request, links),
    ensures
        forall|i: int|
            0 <= i < links.len() ==> ability_checked(
                (#[trigger] links[i]).name@,
                links[i].ability,
            ) is Ok && link_of_one(request.imports@, links[i]),
        forall|i: int, j: int|
            0 <= i < j < links.len() ==> (#[trigger] links[i]).name@ != (#[trigger] links[j]).name@,
        forall|j: int|
            0 <= j < request.imports@.len() ==> linked_by_one(
                links,
                #[trigger] request.imports@[j],
            ),
{
    assert forall|i: int| 0 <= i < links.len() implies ability_checked(
        (#[trigger] links[i]).name@,
        links[i].ability,
    ) is Ok && link_of_one(request.imports@, links[i]) by {
        lemma_link_was_asked_for(request, links, i);
    }
    assert forall|i: int, j: int| 0 <= i < j < links.len() implies (#[trigger] links[i]).name@ != (
    #[trigger] links[j]).name@ by {
        lemma_links_differ(request, links, i, j);
    }
    assert forall|j: int| 0 <= j < request.imports@.len() implies linked_by_one(
        links,
        #[trigger] request.imports@[j],
    ) by {
        lemma_import_is_linked(request, links, j);
    }
}

} // verus!
