//! Parsed module metadata: declared imports and declared exports.
//!
//! Names are kept as raw byte strings, exactly as the binary format
//! declares them.

use vstd::prelude::*;
use crate::values::ValueKind;

verus! {

/// One declared external dependency of a module: the pair of the
/// module namespace it is imported from and the entry it asks for.
#[derive(Clone, Debug)]
pub struct ImportDescriptor {
    pub module_name: Vec<u8>,
    pub entry_name: Vec<u8>,
}

/// Mathematical model of an `ImportDescriptor`.
pub ghost struct ImportModel {
    pub module_name: Seq<u8>,
    pub entry_name: Seq<u8>,
}

impl View for ImportDescriptor {
    type V = ImportModel;

    open spec fn view(&self) -> ImportModel {
        ImportModel { module_name: self.module_name@, entry_name: self.entry_name@ }
    }
}

/// The callable surface of one exported function: its name and its
/// parameter and result kinds, in declaration order.
#[derive(Clone, Debug)]
pub struct ExportSignature {
    pub name: Vec<u8>,
    pub param_kinds: Vec<ValueKind>,
    pub result_kinds: Vec<ValueKind>,
}

/// Mathematical model of an `ExportSignature`.
pub ghost struct ExportModel {
    pub name: Seq<u8>,
    pub param_kinds: Seq<ValueKind>,
    pub result_kinds: Seq<ValueKind>,
}

impl View for ExportSignature {
    type V = ExportModel;

    open spec fn view(&self) -> ExportModel {
        ExportModel {
            name: self.name@,
            param_kinds: self.param_kinds@,
            result_kinds: self.result_kinds@,
        }
    }
}

/// Metadata decoded from a module's bytes: the declared imports in
/// declaration order, and the signatures of the exported functions in
/// declaration order.
#[derive(Clone, Debug)]
pub struct ModuleDescriptor {
    pub imports: Vec<ImportDescriptor>,
    pub exports: Vec<ExportSignature>,
}

/// Mathematical model of a `ModuleDescriptor`.
pub ghost struct DescriptorModel {
    pub imports: Seq<ImportModel>,
    pub exports: Seq<ExportModel>,
}

impl View for ModuleDescriptor {
    type V = DescriptorModel;

    open spec fn view(&self) -> DescriptorModel {
        DescriptorModel {
            imports: self.imports@.map_values(|d: ImportDescriptor| d@),
            exports: self.exports@.map_values(|e: ExportSignature| e@),
        }
    }
}

/// The capability-module marker of `imports` given the reserved
/// namespace names `reserved`: the module name of the first import
/// whose module name is reserved, if any import declares one.
pub open spec fn capability_marker_model(
    imports: Seq<ImportModel>,
    reserved: Seq<Seq<u8>>,
) -> Option<Seq<u8>>
    decreases imports.len(),
{
    if imports.len() == 0 {
        None
    } else if reserved.contains(imports[0].module_name) {
        Some(imports[0].module_name)
    } else {
        capability_marker_model(imports.skip(1), reserved)
    }
}

impl ModuleDescriptor {
    /// The designated host-capability module name: the module name of
    /// the first declared import that names one of the `reserved`
    /// capability namespaces, or `None` when no import declares one.
    pub fn capability_module(&self, reserved: &Vec<Vec<u8>>) -> (r: Option<Vec<u8>>)
        ensures
            match r {
                Some(name) => capability_marker_model(self@.imports, reserved@.map_values(|n: Vec<u8>| n@))
                    == Some(name@),
                None => capability_marker_model(self@.imports, reserved@.map_values(|n: Vec<u8>| n@))
                    is None,
            },
    {
        let ghost rsv = reserved@.map_values(|n: Vec<u8>| n@);
        proof {
            assert(self@.imports.skip(0) =~= self@.imports);
        }
        let mut i: usize = 0;
        while i < self.imports.len()
            invariant
                0 <= i <= self.imports.len(),
                rsv == reserved@.map_values(|n: Vec<u8>| n@),
                capability_marker_model(self@.imports, rsv)
                    == capability_marker_model(self@.imports.skip(i as int), rsv),
            decreases self.imports.len() - i,
        {
            let name = &self.imports[i].module_name;
            if contains_name(reserved, name) {
                proof {
                    assert(self@.imports.skip(i as int)[0] == self@.imports[i as int]);
                }
                return Some(name.clone());
            }
            proof {
                assert(self@.imports.skip(i as int).skip(1)
                    =~= self@.imports.skip(i as int + 1));
                assert(self@.imports.skip(i as int)[0] == self@.imports[i as int]);
            }
            i = i + 1;
        }
        proof {
            assert(self@.imports.skip(i as int).len() == 0);
        }
        None
    }
}

/// Copies a name.
pub fn clone_name(v: &Vec<u8>) -> (r: Vec<u8>)
    ensures
        r@ == v@,
{
    let r = v.clone();
    proof {
        assert forall|j: int| 0 <= j < v@.len() implies r@[j] == v@[j] by {
            assert(cloned::<u8>(v@[j], r@[j]));
        }
        assert(v@ =~= r@);
    }
    r
}

/// Compares two byte strings for equality.
pub fn bytes_eq(a: &Vec<u8>, b: &Vec<u8>) -> (r: bool)
    ensures
        r == (a@ == b@),
{
    if a.len() != b.len() {
        assert(a@ != b@);
        return false;
    }
    let mut i: usize = 0;
    while i < a.len()
        invariant
            0 <= i <= a.len(),
            a@.len() == b@.len(),
            forall|j: int| 0 <= j < i ==> a@[j] == b@[j],
        decreases a.len() - i,
    {
        if a[i] != b[i] {
            return false;
        }
        i = i + 1;
    }
    proof {
        assert(a@ =~= b@);
    }
    true
}

/// Whether `name` occurs among `names`.
pub fn contains_name(names: &Vec<Vec<u8>>, name: &Vec<u8>) -> (r: bool)
    ensures
        r == names@.map_values(|n: Vec<u8>| n@).contains(name@),
{
    let ghost mapped = names@.map_values(|n: Vec<u8>| n@);
    let mut i: usize = 0;
    while i < names.len()
        invariant
            0 <= i <= names.len(),
            mapped == names@.map_values(|n: Vec<u8>| n@),
            forall|j: int| 0 <= j < i ==> mapped[j] != name@,
        decreases names.len() - i,
    {
        if bytes_eq(&names[i], name) {
            assert(mapped[i as int] == name@);
            return true;
        }
        i = i + 1;
    }
    assert(forall|j: int| 0 <= j < mapped.len() ==> mapped[j] != name@);
    assert(!mapped.contains(name@));
    false
}

} // verus!
