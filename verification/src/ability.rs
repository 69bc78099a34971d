//! The closed set of imports that a component may have, and the ability that
//! each is bound to.

use vstd::prelude::*;

use crate::error::{about, plain, told, ErrorKind, Failure, HostError};
use crate::json::{put, Json, JsonTree};
use crate::text::same;

verus! {

/// The mode in which capabilities are bound where a run names none.
pub fn default_capability_mode() -> (mode: String)
    ensures
        mode@ == "function"@,
{
    "function".to_owned()
}

/// What an import may be used for, and how much.
#[derive(Debug, PartialEq, Eq)]
pub struct Ability {
    pub target: String,
    pub operation: String,
    pub max_bytes: u64,
    pub max_items: u64,
    pub deadline_ms: u64,
    pub audit_id: String,
}

impl Clone for Ability {
    fn clone(&self) -> (copy: Ability)
        ensures
            copy == *self,
    {
        Ability {
            target: self.target.clone(),
            operation: self.operation.clone(),
            max_bytes: self.max_bytes,
            max_items: self.max_items,
            deadline_ms: self.deadline_ms,
            audit_id: self.audit_id.clone(),
        }
    }
}

impl Ability {
    /// The ability as a provider is told it.
    pub open spec fn tree(self) -> JsonTree {
        JsonTree::Object(
            map![
                "target"@ => JsonTree::Text(self.target@),
                "operation"@ => JsonTree::Text(self.operation@),
                "max-bytes"@ => JsonTree::Whole(self.max_bytes as int),
                "max-items"@ => JsonTree::Whole(self.max_items as int),
                "deadline-ms"@ => JsonTree::Whole(self.deadline_ms as int),
                "audit-id"@ => JsonTree::Text(self.audit_id@),
            ],
        )
    }

    /// Tells the ability to a provider.
    pub fn to_json(&self) -> (json: Json)
        ensures
            json@ == self.tree(),
    {
        let mut entries: Vec<(String, Json)> = Vec::new();
        put(&mut entries, "target", Json::from_text(self.target.as_str()));
        put(&mut entries, "operation", Json::from_text(self.operation.as_str()));
        put(&mut entries, "max-bytes", Json::Unsigned(self.max_bytes));
        put(&mut entries, "max-items", Json::Unsigned(self.max_items));
        put(&mut entries, "deadline-ms", Json::Unsigned(self.deadline_ms));
        put(&mut entries, "audit-id", Json::from_text(self.audit_id.as_str()));
        Json::Object(entries)
    }

    /// Whether every part of the ability is there and bounded.
    pub open spec fn bounded(self) -> bool {
        &&& self.target@.len() > 0
        &&& self.audit_id@.len() > 0
        &&& self.max_bytes > 0
        &&& self.max_items > 0
        &&& self.deadline_ms > 0
    }
}

/// An import of a component, and its ability.
#[derive(Debug, PartialEq, Eq)]
pub struct Import {
    pub name: String,
    pub ability: Ability,
}

impl Clone for Import {
    fn clone(&self) -> (copy: Import)
        ensures
            copy == *self,
    {
        Import { name: self.name.clone(), ability: self.ability.clone() }
    }
}

/// What an import is bound to.
#[verifier::ext_equal]
pub struct Binding {
    pub interface: Seq<char>,
    pub function: Seq<char>,
    pub operation: Seq<char>,
}

/// The binding of each import that a component may have; no other has one.
pub open spec fn binding_of(name: Seq<char>) -> Option<Binding> {
    if name == "aiueos-http-post"@ {
        Some(
            Binding {
                interface: "kotoba:application/http-post@1.0.0"@,
                function: "post"@,
                operation: "http/post"@,
            },
        )
    } else if name == "aiueos-clock-now"@ {
        Some(
            Binding {
                interface: "kotoba:application/clock@1.0.0"@,
                function: "now"@,
                operation: "clock/now"@,
            },
        )
    } else if name == "aiueos-log-append"@ {
        Some(
            Binding {
                interface: "kotoba:application/log@1.0.0"@,
                function: "append"@,
                operation: "log/append"@,
            },
        )
    } else if name == "aiueos-llm-generate"@ {
        Some(
            Binding {
                interface: "kotoba:application/llm@1.0.0"@,
                function: "generate"@,
                operation: "llm/generate"@,
            },
        )
    } else if name == "aiueos-storage-transact"@ {
        Some(
            Binding {
                interface: "kotoba:application/storage@1.0.0"@,
                function: "transact"@,
                operation: "storage/transact"@,
            },
        )
    } else {
        None
    }
}

/// The interface, function and operation that an import is bound to.
pub fn allowed_binding(name: &str) -> (binding: Option<
    (&'static str, &'static str, &'static str),
>)
    ensures
        match binding {
            Some((interface, function, operation)) => binding_of(name@) == Some(
                Binding { interface: interface@, function: function@, operation: operation@ },
            ),
            None => binding_of(name@) is None,
        },
{
    if same(name, "aiueos-http-post") {
        Some(("kotoba:application/http-post@1.0.0", "post", "http/post"))
    } else if same(name, "aiueos-clock-now") {
        Some(("kotoba:application/clock@1.0.0", "now", "clock/now"))
    } else if same(name, "aiueos-log-append") {
        Some(("kotoba:application/log@1.0.0", "append", "log/append"))
    } else if same(name, "aiueos-llm-generate") {
        Some(("kotoba:application/llm@1.0.0", "generate", "llm/generate"))
    } else if same(name, "aiueos-storage-transact") {
        Some(("kotoba:application/storage@1.0.0", "transact", "storage/transact"))
    } else {
        None
    }
}

/// Whether an import may have this ability.
pub open spec fn ability_checked(name: Seq<char>, ability: Ability) -> Result<(), Failure> {
    match binding_of(name) {
        None => Err(about(ErrorKind::UnrecognizedImport, name)),
        Some(binding) => if ability.operation@ != binding.operation {
            Err(about(ErrorKind::InvalidOperation, name))
        } else if !ability.bounded() {
            Err(about(ErrorKind::UnboundedAbility, name))
        } else {
            Ok(())
        },
    }
}

/// Checks an import's ability: the import is one of the closed set, the
/// operation is its own, and every bound is there.
pub fn validate_ability(name: &str, ability: &Ability) -> (checked: Result<(), HostError>)
    ensures
        told(checked) == ability_checked(name@, *ability),
{
    match allowed_binding(name) {
        None => Err(HostError::about(ErrorKind::UnrecognizedImport, name)),
        Some((_, _, operation)) => {
            if !same(ability.operation.as_str(), operation) {
                Err(HostError::about(ErrorKind::InvalidOperation, name))
            } else if ability.target.as_str().is_empty() || ability.audit_id.as_str().is_empty()
                || ability.max_bytes == 0 || ability.max_items == 0 || ability.deadline_ms == 0 {
                Err(HostError::about(ErrorKind::UnboundedAbility, name))
            } else {
                Ok(())
            }
        },
    }
}

/// Where an import of this name comes first.
pub open spec fn import_at(imports: Seq<Import>, name: Seq<char>) -> Option<int>
    decreases imports.len(),
{
    if imports.len() == 0 {
        None
    } else {
        match import_at(imports.drop_last(), name) {
            Some(i) => Some(i),
            None => if imports.last().name@ == name {
                Some(imports.len() - 1)
            } else {
                None
            },
        }
    }
}

/// Whether a component may have these imports: each is checked, and none may
/// come twice. The first refusal counts.
pub open spec fn imports_checked(imports: Seq<Import>) -> Result<(), Failure>
    decreases imports.len(),
{
    if imports.len() == 0 {
        Ok(())
    } else {
        match imports_checked(imports.drop_last()) {
            Err(failure) => Err(failure),
            Ok(_) => match ability_checked(imports.last().name@, imports.last().ability) {
                Err(failure) => Err(failure),
                Ok(_) => if import_at(imports.drop_last(), imports.last().name@) is Some {
                    Err(plain(ErrorKind::DuplicateImport))
                } else {
                    Ok(())
                },
            },
        }
    }
}

/// The names of the closed set, in their order.
pub open spec fn import_names() -> Seq<Seq<char>> {
    seq![
        "aiueos-clock-now"@,
        "aiueos-http-post"@,
        "aiueos-llm-generate"@,
        "aiueos-log-append"@,
        "aiueos-storage-transact"@,
    ]
}

/// The imports of the first `n` names of the closed set, in the order of the
/// names.
pub open spec fn in_order(imports: Seq<Import>, n: nat) -> Seq<Import>
    decreases n,
{
    if n == 0 {
        seq![]
    } else {
        let earlier = in_order(imports, (n - 1) as nat);
        match import_at(imports, import_names()[n - 1]) {
            Some(i) => earlier.push(imports[i]),
            None => earlier,
        }
    }
}

fn find_import(imports: &Vec<Import>, count: usize, name: &str) -> (found: Option<usize>)
    requires
        count <= imports@.len(),
    ensures
        match found {
            Some(i) => i < count && import_at(imports@.take(count as int), name@) == Some(i as int),
            None => import_at(imports@.take(count as int), name@) is None,
        },
{
    let mut i: usize = 0;
    while i < count
        invariant
            i <= count <= imports@.len(),
            import_at(imports@.take(i as int), name@) is None,
        decreases count - i,
    {
        assert(imports@.take(i + 1).drop_last() =~= imports@.take(i as int));
        if same(imports[i].name.as_str(), name) {
            proof {
                lemma_import_stays(imports@.take(count as int), i + 1, name@);
                assert(imports@.take(count as int).take(i + 1) =~= imports@.take(i + 1));
            }
            return Some(i);
        }
        i += 1;
    }
    None
}

/// What comes first among the first imports comes first among all.
proof fn lemma_import_stays(imports: Seq<Import>, n: int, name: Seq<char>)
    requires
        0 <= n <= imports.len(),
        import_at(imports.take(n), name) is Some,
    ensures
        import_at(imports, name) == import_at(imports.take(n), name),
    decreases imports.len(),
{
    if n < imports.len() {
        let front = imports.drop_last();
        assert(front.take(n) =~= imports.take(n));
        lemma_import_stays(front, n, name);
    } else {
        assert(imports.take(n) =~= imports);
    }
}

/// A refusal among the first imports is the refusal of all.
proof fn lemma_refusal_stays(imports: Seq<Import>, n: int)
    requires
        0 <= n <= imports.len(),
        imports_checked(imports.take(n)) is Err,
    ensures
        imports_checked(imports) == imports_checked(imports.take(n)),
    decreases imports.len(),
{
    if n < imports.len() {
        let front = imports.drop_last();
        assert(front.take(n) =~= imports.take(n));
        lemma_refusal_stays(front, n);
    } else {
        assert(imports.take(n) =~= imports);
    }
}

/// Admits the imports of a component and puts them in the order of their names.
pub fn admit_imports(imports: &Vec<Import>) -> (admitted: Result<Vec<Import>, HostError>)
    ensures
        match admitted {
            Ok(admitted) => imports_checked(imports@) is Ok && admitted@ == in_order(imports@, 5),
            Err(error) => imports_checked(imports@) == Err::<(), Failure>(error@),
        },
{
    let mut i: usize = 0;
    assert(imports@.take(0) =~= seq![]);
    while i < imports.len()
        invariant
            i <= imports@.len(),
            imports_checked(imports@.take(i as int)) is Ok,
        decreases imports.len() - i,
    {
        proof {
            assert(imports@.take(i + 1).drop_last() =~= imports@.take(i as int));
            if imports_checked(imports@.take(i + 1)) is Err {
                lemma_refusal_stays(imports@, i + 1);
            }
        }
        match validate_ability(imports[i].name.as_str(), &imports[i].ability) {
            Err(error) => {
                return Err(error);
            },
            Ok(_) => {},
        }
        if find_import(imports, i, imports[i].name.as_str()).is_some() {
            return Err(HostError::plain(ErrorKind::DuplicateImport));
        }
        i += 1;
    }
    assert(imports@.take(i as int) =~= imports@);
    let names: [&str; 5] = [
        "aiueos-clock-now",
        "aiueos-http-post",
        "aiueos-llm-generate",
        "aiueos-log-append",
        "aiueos-storage-transact",
    ];
    let mut admitted: Vec<Import> = Vec::new();
    let mut n: usize = 0;
    while n < 5
        invariant
            n <= 5,
            names@.len() == 5,
            forall|k: int| 0 <= k < 5 ==> (#[trigger] names@[k])@ == import_names()[k],
            admitted@ == in_order(imports@, n as nat),
        decreases 5 - n,
    {
        assert(imports@.take(imports@.len() as int) =~= imports@);
        match find_import(imports, imports.len(), names[n]) {
            Some(at) => {
                admitted.push(imports[at].clone());
            },
            None => {},
        }
        n += 1;
    }
    Ok(admitted)
}

/// The import that is found has the name that was looked for; where none is
/// found, none has it.
pub proof fn lemma_import_at(imports: Seq<Import>, name: Seq<char>)
    ensures
        match import_at(imports, name) {
            Some(i) => 0 <= i < imports.len() && imports[i].name@ == name,
            None => forall|i: int| 0 <= i < imports.len() ==> (#[trigger] imports[i]).name@ != name,
        },
    decreases imports.len(),
{
    if imports.len() > 0 {
        let front = imports.drop_last();
        lemma_import_at(front, name);
        if import_at(imports, name) is None {
            assert forall|i: int| 0 <= i < imports.len() implies (#[trigger] imports[i]).name@
                != name by {
                if i < front.len() {
                    assert(front[i].name@ != name);
                }
            }
        }
    }
}

/// What is put in order has one of the first `n` names of the closed set, and is
/// among the imports.
pub proof fn lemma_in_order(imports: Seq<Import>, n: nat)
    requires
        n <= 5,
    ensures
        forall|i: int|
            0 <= i < in_order(imports, n).len() ==> {
                &&& imports.contains(#[trigger] in_order(imports, n)[i])
                &&& binding_of(in_order(imports, n)[i].name@) is Some
                &&& exists|k: int|
                    0 <= k < n && #[trigger] import_names()[k] == in_order(imports, n)[i].name@
            },
    decreases n,
{
    if n > 0 {
        let earlier = in_order(imports, (n - 1) as nat);
        let later = in_order(imports, n);
        let name = import_names()[n - 1];
        lemma_in_order(imports, (n - 1) as nat);
        lemma_import_at(imports, name);
        assert(binding_of(name) is Some);
        assert forall|i: int| 0 <= i < later.len() implies {
            &&& imports.contains(#[trigger] later[i])
            &&& binding_of(later[i].name@) is Some
            &&& exists|k: int| 0 <= k < n && #[trigger] import_names()[k] == later[i].name@
        } by {
            if i < earlier.len() {
                assert(later[i] == earlier[i]);
                let k = choose|k: int|
                    0 <= k < n - 1 && #[trigger] import_names()[k] == earlier[i].name@;
                assert(import_names()[k] == later[i].name@);
            } else {
                assert(import_names()[n - 1] == later[i].name@);
            }
        }
    }
}

/// No name of the closed set comes twice.
proof fn lemma_names_differ()
    ensures
        forall|i: int, j: int|
            0 <= i < j < 5 ==> #[trigger] import_names()[i] != #[trigger] import_names()[j],
{
    reveal_strlit("aiueos-clock-now");
    reveal_strlit("aiueos-http-post");
    reveal_strlit("aiueos-llm-generate");
    reveal_strlit("aiueos-log-append");
    reveal_strlit("aiueos-storage-transact");
    assert("aiueos-clock-now"@[7] == 'c' && "aiueos-http-post"@[7] == 'h');
    assert("aiueos-llm-generate"@.len() == 19 && "aiueos-log-append"@.len() == 17);
    assert("aiueos-storage-transact"@.len() == 23);
    assert("aiueos-clock-now"@.len() == 16 && "aiueos-http-post"@.len() == 16);
}

proof fn lemma_in_order_distinct(imports: Seq<Import>, n: nat)
    requires
        n <= 5,
    ensures
        forall|i: int, j: int|
            0 <= i < j < in_order(imports, n).len() ==> (#[trigger] in_order(imports, n)[i]).name@
                != (#[trigger] in_order(imports, n)[j]).name@,
    decreases n,
{
    if n > 0 {
        let earlier = in_order(imports, (n - 1) as nat);
        let later = in_order(imports, n);
        let name = import_names()[n - 1];
        lemma_in_order_distinct(imports, (n - 1) as nat);
        lemma_in_order(imports, (n - 1) as nat);
        lemma_import_at(imports, name);
        lemma_names_differ();
        assert forall|i: int, j: int| 0 <= i < j < later.len() implies (#[trigger] later[i]).name@
            != (#[trigger] later[j]).name@ by {
            assert(later[i] == earlier[i]);
            if j < earlier.len() {
                assert(later[j] == earlier[j]);
            } else {
                assert(imports.contains(earlier[i]));
                let k = choose|k: int|
                    0 <= k < n - 1 && #[trigger] import_names()[k] == earlier[i].name@;
                assert(import_names()[k] != import_names()[n - 1]);
            }
        }
    }
}

/// An import of the `k`-th name is put in order.
proof fn lemma_in_order_keeps(imports: Seq<Import>, n: nat, k: int)
    requires
        n <= 5,
        0 <= k < n,
        import_at(imports, import_names()[k]) is Some,
    ensures
        in_order(imports, n).contains(imports[import_at(imports, import_names()[k])->0]),
    decreases n,
{
    let found = imports[import_at(imports, import_names()[k])->0];
    let earlier = in_order(imports, (n - 1) as nat);
    let later = in_order(imports, n);
    if k < n - 1 {
        lemma_in_order_keeps(imports, (n - 1) as nat, k);
        let i = choose|i: int| 0 <= i < earlier.len() && earlier[i] == found;
        assert(later[i] == found);
    } else {
        assert(later[later.len() - 1] == found);
    }
}

/// Whether each import is checked and none has the name of another.
pub open spec fn admissible(imports: Seq<Import>) -> bool {
    &&& forall|i: int|
        0 <= i < imports.len() ==> ability_checked(
            (#[trigger] imports[i]).name@,
            imports[i].ability,
        ) is Ok
    &&& forall|i: int, j: int|
        0 <= i < j < imports.len() ==> (#[trigger] imports[i]).name@ != (
        #[trigger] imports[j]).name@
}

/// Imports are admitted exactly where each of them may have its ability and none
/// comes twice: one that is not of the closed set, has another operation, lacks a
/// bound or comes again has all of them refused.
pub proof fn lemma_admitted_exactly(imports: Seq<Import>)
    ensures
        imports_checked(imports) is Ok <==> admissible(imports),
    decreases imports.len(),
{
    if imports.len() > 0 {
        let front = imports.drop_last();
        let last = imports.len() - 1;
        lemma_admitted_exactly(front);
        lemma_import_at(front, imports[last].name@);
        if imports_checked(imports) is Ok {
            assert forall|i: int| 0 <= i < imports.len() implies ability_checked(
                (#[trigger] imports[i]).name@,
                imports[i].ability,
            ) is Ok by {
                if i < front.len() {
                    assert(front[i] == imports[i]);
                }
            }
            assert forall|i: int, j: int| 0 <= i < j < imports.len() implies (
            #[trigger] imports[i]).name@ != (#[trigger] imports[j]).name@ by {
                assert(front[i] == imports[i]);
                if j < front.len() {
                    assert(front[j] == imports[j]);
                }
            }
        }
        if admissible(imports) {
            assert forall|i: int| 0 <= i < front.len() implies ability_checked(
                (#[trigger] front[i]).name@,
                front[i].ability,
            ) is Ok by {
                assert(front[i] == imports[i]);
            }
            assert forall|i: int, j: int| 0 <= i < j < front.len() implies (
            #[trigger] front[i]).name@ != (#[trigger] front[j]).name@ by {
                assert(front[i] == imports[i] && front[j] == imports[j]);
            }
            assert(admissible(front));
            assert(ability_checked(imports[last].name@, imports[last].ability) is Ok);
            if import_at(front, imports[last].name@) is Some {
                let i = import_at(front, imports[last].name@)->0;
                assert(front[i] == imports[i]);
                assert(imports[i].name@ != imports[last].name@);
            }
        }
    }
}

/// A component receives exactly the imports that it was admitted with: each that
/// it receives was asked for, is of the closed set with its own operation and
/// with every bound, none comes twice, and none that was asked for is left out.
pub proof fn lemma_imports_admitted(imports: Seq<Import>)
    requires
        imports_checked(imports) is Ok,
    ensures
        forall|i: int|
            0 <= i < in_order(imports, 5).len() ==> {
                let import = #[trigger] in_order(imports, 5)[i];
                &&& imports.contains(import)
                &&& ability_checked(import.name@, import.ability) is Ok
            },
        forall|i: int, j: int|
            0 <= i < j < in_order(imports, 5).len() ==> (#[trigger] in_order(imports, 5)[i]).name@
                != (#[trigger] in_order(imports, 5)[j]).name@,
        forall|i: int|
            0 <= i < imports.len() ==> in_order(imports, 5).contains(#[trigger] imports[i]),
{
    lemma_admitted_exactly(imports);
    lemma_in_order(imports, 5);
    lemma_in_order_distinct(imports, 5);
    assert forall|i: int| 0 <= i < imports.len() implies in_order(imports, 5).contains(
        #[trigger] imports[i],
    ) by {
        let name = imports[i].name@;
        assert(binding_of(name) is Some);
        let k: int = if name == import_names()[0] {
            0
        } else if name == import_names()[1] {
            1
        } else if name == import_names()[2] {
            2
        } else if name == import_names()[3] {
            3
        } else {
            4
        };
        assert(name == import_names()[k]);
        lemma_import_at(imports, name);
        let at = import_at(imports, name)->0;
        if at < i {
            assert(imports[at].name@ != imports[i].name@);
        }
        if i < at {
            assert(imports[i].name@ != imports[at].name@);
        }
        lemma_in_order_keeps(imports, 5, k);
    }
}

} // verus!
