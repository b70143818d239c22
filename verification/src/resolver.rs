//! Resolution of a module's declared imports against the host
//! capability provider.
//!
//! Resolution fails closed: one invalid import aborts the whole
//! module's resolution, and no partial binding list ever escapes.  A
//! partially linked module could run with missing host functionality,
//! which is exactly what this stage exists to rule out.

use vstd::prelude::*;
use crate::descriptor::{bytes_eq, ImportDescriptor, ImportModel};

verus! {

/// The host capability provider's closed namespace: the namespace
/// spellings it answers to, and the names of the host functions it
/// offers.  A binding is a position in `entries`.
pub struct CapabilityProvider {
    /// The reserved module-namespace names under which the provider's
    /// functions may be imported.
    pub reserved_names: Vec<Vec<u8>>,
    /// The names of the provided host functions.
    pub entries: Vec<Vec<u8>>,
}

/// Mathematical model of a `CapabilityProvider`.
pub ghost struct ProviderModel {
    pub reserved_names: Seq<Seq<u8>>,
    pub entries: Seq<Seq<u8>>,
}

impl View for CapabilityProvider {
    type V = ProviderModel;

    open spec fn view(&self) -> ProviderModel {
        ProviderModel {
            reserved_names: self.reserved_names@.map_values(|n: Vec<u8>| n@),
            entries: self.entries@.map_values(|n: Vec<u8>| n@),
        }
    }
}

/// One resolved import: the position, in the provider's namespace, of
/// the export binding that satisfies it.
#[derive(Clone, Copy, PartialEq, Eq, Structural, Debug)]
pub struct BoundImport {
    pub entry_index: usize,
}

/// Why import resolution failed, naming the offending import.
#[derive(Clone, Debug)]
pub enum LinkError {
    /// An import names a module namespace other than the capability
    /// module's.
    UnknownImportModule { module_name: Vec<u8> },
    /// An import asks for an entry the provider does not offer.
    UnknownImport { module_name: Vec<u8>, entry_name: Vec<u8> },
}

/// Mathematical model of a `LinkError`.
pub ghost enum LinkErrorModel {
    UnknownImportModule { module_name: Seq<u8> },
    UnknownImport { module_name: Seq<u8>, entry_name: Seq<u8> },
}

impl View for LinkError {
    type V = LinkErrorModel;

    open spec fn view(&self) -> LinkErrorModel {
        match self {
            LinkError::UnknownImportModule { module_name } => LinkErrorModel::UnknownImportModule {
                module_name: module_name@,
            },
            LinkError::UnknownImport { module_name, entry_name } => LinkErrorModel::UnknownImport {
                module_name: module_name@,
                entry_name: entry_name@,
            },
        }
    }
}

/// The view of an optional capability-module name.
pub open spec fn opt_name_view(o: Option<Vec<u8>>) -> Option<Seq<u8>> {
    match o {
        Some(n) => Some(n@),
        None => None,
    }
}

/// The first position of `name` in `entries`, if any.
pub open spec fn find_entry(entries: Seq<Seq<u8>>, name: Seq<u8>) -> Option<int>
    decreases entries.len(),
{
    if entries.len() == 0 {
        None
    } else if entries[0] == name {
        Some(0)
    } else {
        match find_entry(entries.skip(1), name) {
            None => None,
            Some(j) => Some(j + 1),
        }
    }
}

/// What `find_entry` finds is a real, matching position; when it
/// finds nothing, no position matches.
pub proof fn lemma_find_entry_props(entries: Seq<Seq<u8>>, name: Seq<u8>)
    ensures
        match find_entry(entries, name) {
            Some(j) => 0 <= j < entries.len() && entries[j] == name,
            None => forall|j: int| 0 <= j < entries.len() ==> entries[j] != name,
        },
    decreases entries.len(),
{
    if entries.len() != 0 && entries[0] != name {
        lemma_find_entry_props(entries.skip(1), name);
        assert forall|j: int| 1 <= j < entries.len() implies entries[j] == entries.skip(1)[j - 1] by {}
    }
}

/// What resolution returns: for each import in order, the position of
/// its binding in the provider's namespace; or the error of the first
/// import that does not resolve.  An import resolves only when its
/// module name is exactly the capability module name and its entry
/// name is offered by the provider; the module name is checked first.
pub open spec fn resolve_model(
    imports: Seq<ImportModel>,
    capability: Option<Seq<u8>>,
    entries: Seq<Seq<u8>>,
) -> Result<Seq<int>, LinkErrorModel>
    decreases imports.len(),
{
    if imports.len() == 0 {
        Ok(Seq::empty())
    } else {
        let im = imports[0];
        if capability is None || im.module_name != capability.unwrap() {
            Err(LinkErrorModel::UnknownImportModule { module_name: im.module_name })
        } else {
            match find_entry(entries, im.entry_name) {
                None => Err(
                    LinkErrorModel::UnknownImport {
                        module_name: im.module_name,
                        entry_name: im.entry_name,
                    },
                ),
                Some(j) => match resolve_model(imports.skip(1), capability, entries) {
                    Err(e) => Err(e),
                    Ok(rest) => Ok(seq![j] + rest),
                },
            }
        }
    }
}

/// Finds the first position of `name` in the provider's namespace.
fn find_entry_exec(entries: &Vec<Vec<u8>>, name: &Vec<u8>) -> (r: Option<usize>)
    ensures
        ({
            let m = find_entry(entries@.map_values(|n: Vec<u8>| n@), name@);
            match r {
                Some(j) => m == Some(j as int),
                None => m is None,
            }
        }),
{
    let ghost ev = entries@.map_values(|n: Vec<u8>| n@);
    let mut i: usize = 0;
    proof {
        assert(ev.skip(0) =~= ev);
    }
    while i < entries.len()
        invariant
            0 <= i <= entries@.len(),
            ev == entries@.map_values(|n: Vec<u8>| n@),
            ({
                let m = find_entry(ev, name@);
                let tail = find_entry(ev.skip(i as int), name@);
                match tail {
                    None => m is None,
                    Some(k) => m == Some(k + i),
                }
            }),
        decreases entries@.len() - i,
    {
        proof {
            assert(ev.skip(i as int)[0] == ev[i as int]);
            assert(ev.skip(i as int).skip(1) =~= ev.skip(i as int + 1));
        }
        if bytes_eq(&entries[i], name) {
            return Some(i);
        }
        i = i + 1;
    }
    proof {
        assert(ev.skip(i as int).len() == 0);
    }
    None
}

impl CapabilityProvider {
    /// Whether the provider offers an entry under `name`.
    pub fn has_entry(&self, name: &Vec<u8>) -> (r: bool)
        ensures
            r == (find_entry(self@.entries, name@) is Some),
    {
        find_entry_exec(&self.entries, name).is_some()
    }
}

/// Resolves every declared import against the capability provider, in
/// declaration order.
///
/// Succeeds exactly when every import names the capability module and
/// an entry the provider offers; the bindings then come back one per
/// import, in the same order.  Otherwise the first unresolvable
/// import's error comes back, and no binding list at all.
pub fn resolve(
    imports: &Vec<ImportDescriptor>,
    capability_module_name: &Option<Vec<u8>>,
    provider: &CapabilityProvider,
) -> (r: Result<Vec<BoundImport>, LinkError>)
    ensures
        ({
            let m = resolve_model(
                imports@.map_values(|d: ImportDescriptor| d@),
                opt_name_view(*capability_module_name),
                provider@.entries,
            );
            match r {
                Ok(bs) => m == Ok::<_, LinkErrorModel>(
                    bs@.map_values(|b: BoundImport| b.entry_index as int),
                ),
                Err(e) => m == Err::<Seq<int>, _>(e@),
            }
        }),
{
    let ghost iv = imports@.map_values(|d: ImportDescriptor| d@);
    let ghost cv = opt_name_view(*capability_module_name);
    let ghost ev = provider@.entries;
    let mut out: Vec<BoundImport> = Vec::new();
    let mut i: usize = 0;
    proof {
        assert(iv.skip(0) =~= iv);
        assert(out@.map_values(|b: BoundImport| b.entry_index as int)
            =~= Seq::<int>::empty());
    }
    while i < imports.len()
        invariant
            0 <= i <= imports@.len(),
            iv == imports@.map_values(|d: ImportDescriptor| d@),
            cv == opt_name_view(*capability_module_name),
            ev == provider@.entries,
            out@.len() == i,
            ({
                let m = resolve_model(iv, cv, ev);
                let tail = resolve_model(iv.skip(i as int), cv, ev);
                let acc = out@.map_values(|b: BoundImport| b.entry_index as int);
                match tail {
                    Err(e) => m == Err::<Seq<int>, _>(e),
                    Ok(rest) => m == Ok::<_, LinkErrorModel>(acc + rest),
                }
            }),
        decreases imports@.len() - i,
    {
        proof {
            assert(iv.skip(i as int)[0] == iv[i as int]);
            assert(iv.skip(i as int).skip(1) =~= iv.skip(i as int + 1));
            assert(iv[i as int] == imports@[i as int]@);
        }
        let im = &imports[i];
        let module_ok: bool = match capability_module_name {
            None => false,
            Some(cap) => bytes_eq(&im.module_name, cap),
        };
        if !module_ok {
            return Err(
                LinkError::UnknownImportModule { module_name: im.module_name.clone() },
            );
        }
        match find_entry_exec(&provider.entries, &im.entry_name) {
            None => {
                return Err(
                    LinkError::UnknownImport {
                        module_name: im.module_name.clone(),
                        entry_name: im.entry_name.clone(),
                    },
                );
            },
            Some(j) => {
                let ghost acc_old = out@.map_values(|b: BoundImport| b.entry_index as int);
                out.push(BoundImport { entry_index: j });
                proof {
                    assert(out@.map_values(|b: BoundImport| b.entry_index as int)
                        =~= acc_old.push(j as int));
                    assert(acc_old.push(j as int) + (resolve_model(
                        iv.skip(i as int + 1),
                        cv,
                        ev,
                    )->Ok_0) =~= acc_old + (seq![j as int] + (resolve_model(
                        iv.skip(i as int + 1),
                        cv,
                        ev,
                    )->Ok_0)));
                }
            },
        }
        i = i + 1;
    }
    proof {
        assert(iv.skip(i as int).len() == 0);
        assert(out@.map_values(|b: BoundImport| b.entry_index as int) + Seq::<int>::empty()
            =~= out@.map_values(|b: BoundImport| b.entry_index as int));
    }
    Ok(out)
}

/// A successful resolution yields exactly one binding per import:
/// the table handed to instantiation has the same length and the
/// same positional order as the declared import list.
pub proof fn lemma_resolve_ok_len(
    imports: Seq<ImportModel>,
    capability: Option<Seq<u8>>,
    entries: Seq<Seq<u8>>,
)
    requires
        resolve_model(imports, capability, entries) is Ok,
    ensures
        (resolve_model(imports, capability, entries)->Ok_0).len() == imports.len(),
    decreases imports.len(),
{
    if imports.len() > 0 {
        lemma_resolve_ok_len(imports.skip(1), capability, entries);
    }
}

/// When every import names the capability module and every entry is
/// offered, resolution succeeds, its output has the input's length,
/// and the binding at each position is the binding of the import at
/// that position.
pub proof fn lemma_resolve_all_resolvable(
    imports: Seq<ImportModel>,
    capability: Seq<u8>,
    entries: Seq<Seq<u8>>,
)
    requires
        forall|i: int| 0 <= i < imports.len() ==> #[trigger] imports[i].module_name == capability,
        forall|i: int| 0 <= i < imports.len() ==> #[trigger] find_entry(
            entries,
            imports[i].entry_name,
        ) is Some,
    ensures
        resolve_model(imports, Some(capability), entries) is Ok,
        (resolve_model(imports, Some(capability), entries)->Ok_0).len() == imports.len(),
        forall|i: int| 0 <= i < imports.len() ==> {
            let b = #[trigger] (resolve_model(imports, Some(capability), entries)->Ok_0)[i];
            0 <= b < entries.len() && entries[b] == imports[i].entry_name
        },
    decreases imports.len(),
{
    if imports.len() > 0 {
        lemma_find_entry_props(entries, imports[0].entry_name);
        assert forall|i: int| 0 <= i < imports.skip(1).len() implies #[trigger] imports.skip(
            1,
        )[i].module_name == capability && find_entry(entries, imports.skip(1)[i].entry_name)
            is Some by {
            assert(imports.skip(1)[i] == imports[i + 1]);
        }
        lemma_resolve_all_resolvable(imports.skip(1), capability, entries);
        let j = find_entry(entries, imports[0].entry_name).unwrap();
        let rest = resolve_model(imports.skip(1), Some(capability), entries)->Ok_0;
        assert forall|i: int| 0 <= i < imports.len() implies {
            let b = #[trigger] (resolve_model(imports, Some(capability), entries)->Ok_0)[i];
            0 <= b < entries.len() && entries[b] == imports[i].entry_name
        } by {
            if i > 0 {
                assert((seq![j] + rest)[i] == rest[i - 1]);
                assert(imports.skip(1)[i - 1] == imports[i]);
            }
        }
    }
}

/// When every import up to position `k` resolves but the import at
/// `k` asks for an entry the provider does not offer, resolution
/// fails with that import's unknown-import error, and no binding list
/// — not even a partial one — is returned.
pub proof fn lemma_resolve_unknown_import(
    imports: Seq<ImportModel>,
    capability: Seq<u8>,
    entries: Seq<Seq<u8>>,
    k: int,
)
    requires
        0 <= k < imports.len(),
        forall|i: int| 0 <= i <= k ==> #[trigger] imports[i].module_name == capability,
        forall|i: int| 0 <= i < k ==> #[trigger] find_entry(entries, imports[i].entry_name)
            is Some,
        find_entry(entries, imports[k].entry_name) is None,
    ensures
        resolve_model(imports, Some(capability), entries) == Err::<Seq<int>, _>(
            LinkErrorModel::UnknownImport {
                module_name: imports[k].module_name,
                entry_name: imports[k].entry_name,
            },
        ),
    decreases k,
{
    if k > 0 {
        assert forall|i: int| 0 <= i <= k - 1 implies #[trigger] imports.skip(1)[i].module_name
            == capability by {
            assert(imports.skip(1)[i] == imports[i + 1]);
        }
        assert forall|i: int| 0 <= i < k - 1 implies #[trigger] find_entry(
            entries,
            imports.skip(1)[i].entry_name,
        ) is Some by {
            assert(imports.skip(1)[i] == imports[i + 1]);
        }
        assert(imports.skip(1)[k - 1] == imports[k]);
        lemma_resolve_unknown_import(imports.skip(1), capability, entries, k - 1);
    }
}

/// When every import before position `k` resolves but the import at
/// `k` names a module other than the capability module — or there is
/// no capability module at all — resolution fails with that import's
/// unknown-import-module error, whether or not its entry would have
/// been found: the module name is checked first.
pub proof fn lemma_resolve_unknown_module(
    imports: Seq<ImportModel>,
    capability: Option<Seq<u8>>,
    entries: Seq<Seq<u8>>,
    k: int,
)
    requires
        0 <= k < imports.len(),
        forall|i: int| 0 <= i < k ==> capability == Some(#[trigger] imports[i].module_name),
        forall|i: int| 0 <= i < k ==> #[trigger] find_entry(entries, imports[i].entry_name)
            is Some,
        capability is None || imports[k].module_name != capability.unwrap(),
    ensures
        resolve_model(imports, capability, entries) == Err::<Seq<int>, _>(
            LinkErrorModel::UnknownImportModule { module_name: imports[k].module_name },
        ),
    decreases k,
{
    if k > 0 {
        assert forall|i: int| 0 <= i < k - 1 implies capability == Some(
            #[trigger] imports.skip(1)[i].module_name,
        ) && find_entry(entries, imports.skip(1)[i].entry_name) is Some by {
            assert(imports.skip(1)[i] == imports[i + 1]);
        }
        assert(imports.skip(1)[k - 1] == imports[k]);
        lemma_resolve_unknown_module(imports.skip(1), capability, entries, k - 1);
    }
}

/// A module with no capability-module marker may declare no import at
/// all: with no marker, the very first import fails as an unknown
/// import module.
pub proof fn lemma_unmarked_imports_fail(imports: Seq<ImportModel>, entries: Seq<Seq<u8>>)
    requires
        imports.len() > 0,
    ensures
        resolve_model(imports, None, entries) == Err::<Seq<int>, _>(
            LinkErrorModel::UnknownImportModule { module_name: imports[0].module_name },
        ),
{
    lemma_resolve_unknown_module(imports, None, entries, 0);
}

} // verus!
