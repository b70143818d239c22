//! The module host: load orchestration and typed invocation.
//!
//! Loading walks the states parsed → linked → instantiated → ready.
//! The host core decides every step — what to parse, which imports to
//! bind, whether an invocation is well-typed — while the execution
//! engine (an external collaborator) performs compilation,
//! instantiation and execution.  `prepare` covers parsing and
//! linking; the engine's verdict is handed back to `complete`, which
//! either yields a ready `ModuleHost` or the load error.  A failed
//! load yields no host at all, so no partially loaded module can ever
//! be invoked.  Invocation through a ready host never changes the
//! host's state: checks take the host by shared reference and may be
//! repeated any number of times.

use vstd::prelude::*;
use crate::values::{kinds_of, Value, ValueKind};
use crate::values::encode_i32;
use crate::values::decode_i32;
use crate::descriptor::{
    capability_marker_model, DescriptorModel, ExportModel, ModuleDescriptor,
};
use crate::parse::{parse_model, ParseError};
use crate::resolver::{
    resolve, resolve_model, BoundImport, CapabilityProvider, LinkError, LinkErrorModel,
};

verus! {

/// Why a load failed: each stage surfaces its own error kind, so a
/// caller can tell a corrupt artifact from a rejected bytecode or a
/// setup-time trap.
#[derive(Debug)]
pub enum LoadError {
    /// The module bytes are malformed.
    Parse(ParseError),
    /// An import did not resolve.
    Link(LinkError),
    /// The engine rejected the bytecode, with its diagnostic.
    Compile(String),
    /// Instantiation trapped during setup, with the engine's
    /// diagnostic.
    InstantiationTrap(String),
}

/// The engine's verdict on compiling and instantiating a prepared
/// module.
#[derive(Debug)]
pub enum EngineOutcome {
    /// Compilation and instantiation both succeeded.
    Instantiated,
    /// The engine rejected the bytecode.
    CompileRejected(String),
    /// A trap was raised while the instance was being set up.
    InstantiationTrapped(String),
}

/// The switches the engine is asked to honour when compiling.
/// Multi-value returns let an export return more than one value;
/// reference types widen the accepted value kinds; debug information
/// improves the engine's diagnostics.
#[derive(Clone, Copy, PartialEq, Eq, Structural, Debug)]
pub struct FeatureConfig {
    pub multi_value_returns: bool,
    pub reference_types: bool,
    pub debug_info: bool,
}

/// The features this host always asks of the engine: all of them.
pub open spec fn host_features() -> FeatureConfig {
    FeatureConfig { multi_value_returns: true, reference_types: true, debug_info: true }
}

impl FeatureConfig {
    /// The feature configuration this host hands to the engine.
    pub fn for_host() -> (r: FeatureConfig)
        ensures
            r == host_features(),
    {
        FeatureConfig { multi_value_returns: true, reference_types: true, debug_info: true }
    }
}

/// A fully linked load, ready for the engine: the decoded metadata,
/// one binding per declared import in declaration order, and the
/// feature configuration the engine is to compile under.  The engine
/// binds imports positionally, so the order is part of the plan's
/// meaning.
pub struct LoadPlan {
    pub descriptor: ModuleDescriptor,
    pub bindings: Vec<BoundImport>,
    pub features: FeatureConfig,
}

/// A ready module host: the decoded metadata and the bindings its
/// instance was linked with.  A value of this type exists only for a
/// fully successful load.
pub struct ModuleHost {
    pub descriptor: ModuleDescriptor,
    pub bindings: Vec<BoundImport>,
}

/// A validated invocation: the position of the chosen export in the
/// descriptor's export list.
#[derive(Clone, Copy, PartialEq, Eq, Structural, Debug)]
pub struct InvokeRequest {
    pub export_index: usize,
}

/// Why an invocation failed.
#[derive(Debug)]
pub enum InvokeError {
    /// No exported function carries the requested name.
    UnknownExport { name: Vec<u8> },
    /// The arguments do not fit the export's parameter kinds; the
    /// first offending position, with what was expected and what was
    /// passed (`None` marks a missing or surplus argument).
    TypeMismatch { position: usize, expected: Option<ValueKind>, actual: Option<ValueKind> },
    /// Execution trapped inside the sandbox.
    ExecutionTrap { message: String },
    /// The engine returned fewer values than the signature promises.
    MissingReturn { expected: usize, actual: usize },
    /// A returned value's kind does not fit the caller's expectation.
    ResultConversion { expected: ValueKind, actual: ValueKind },
}

/// What execution of a validated invocation came back with.
#[derive(Debug)]
pub enum ExecOutcome {
    /// The export returned these values.
    Returned(Vec<Value>),
    /// Execution trapped, with the engine's diagnostic.
    Trapped(String),
}

/// The first position in `exports` whose name is `name`, if any.
pub open spec fn find_export(exports: Seq<ExportModel>, name: Seq<u8>) -> Option<int>
    decreases exports.len(),
{
    if exports.len() == 0 {
        None
    } else if exports[0].name == name {
        Some(0)
    } else {
        match find_export(exports.skip(1), name) {
            None => None,
            Some(j) => Some(j + 1),
        }
    }
}

/// What `find_export` finds is a real position carrying the name;
/// when it finds nothing, no export carries the name.
pub proof fn lemma_find_export_props(exports: Seq<ExportModel>, name: Seq<u8>)
    ensures
        match find_export(exports, name) {
            Some(j) => 0 <= j < exports.len() && exports[j].name == name,
            None => forall|j: int| 0 <= j < exports.len() ==> exports[j].name != name,
        },
    decreases exports.len(),
{
    if exports.len() != 0 && exports[0].name != name {
        lemma_find_export_props(exports.skip(1), name);
        assert forall|j: int| 1 <= j < exports.len() implies exports[j] == exports.skip(1)[j
            - 1] by {}
    }
}

/// The reported mismatch is the first position at which the argument
/// kinds `ks` stop fitting the parameter kinds `ps`: everything
/// before it fits, and at it either the kinds differ or one side has
/// run out.
pub open spec fn mismatch_described(
    ps: Seq<ValueKind>,
    ks: Seq<ValueKind>,
    position: usize,
    expected: Option<ValueKind>,
    actual: Option<ValueKind>,
) -> bool {
    &&& ks != ps
    &&& forall|l: int| 0 <= l < position ==> l < ps.len() && l < ks.len() && ps[l] == ks[l]
    &&& expected == (if (position as int) < ps.len() {
        Some(ps[position as int])
    } else {
        None::<ValueKind>
    })
    &&& actual == (if (position as int) < ks.len() {
        Some(ks[position as int])
    } else {
        None::<ValueKind>
    })
    &&& ((position as int) < ps.len() || (position as int) < ks.len())
    &&& ((position as int) < ps.len() && (position as int) < ks.len() ==> ps[position as int]
        != ks[position as int])
}

/// Finds the first export carrying `name`.
fn find_export_exec(exports: &Vec<crate::descriptor::ExportSignature>, name: &Vec<u8>) -> (r:
    Option<usize>)
    ensures
        ({
            let m = find_export(
                exports@.map_values(|e: crate::descriptor::ExportSignature| e@),
                name@,
            );
            match r {
                Some(j) => m == Some(j as int),
                None => m is None,
            }
        }),
{
    let ghost ev = exports@.map_values(|e: crate::descriptor::ExportSignature| e@);
    let mut i: usize = 0;
    proof {
        assert(ev.skip(0) =~= ev);
    }
    while i < exports.len()
        invariant
            0 <= i <= exports@.len(),
            ev == exports@.map_values(|e: crate::descriptor::ExportSignature| e@),
            ({
                let m = find_export(ev, name@);
                let tail = find_export(ev.skip(i as int), name@);
                match tail {
                    None => m is None,
                    Some(k) => m == Some(k + i),
                }
            }),
        decreases exports@.len() - i,
    {
        proof {
            assert(ev.skip(i as int)[0] == ev[i as int]);
            assert(ev.skip(i as int).skip(1) =~= ev.skip(i as int + 1));
        }
        if crate::descriptor::bytes_eq(&exports[i].name, name) {
            return Some(i);
        }
        i = i + 1;
    }
    proof {
        assert(ev.skip(i as int).len() == 0);
    }
    None
}

impl ModuleHost {
    /// Parses the module bytes and resolves its declared imports:
    /// the parsed and linked stages of a load.
    ///
    /// Succeeds exactly when the bytes decode and every import
    /// resolves against the provider; the plan then carries the
    /// decoded metadata and one binding per import, in order.
    /// Malformed bytes fail as a parse error before resolution, and
    /// an unresolved import fails as a link error — in both cases
    /// before any engine compilation is attempted, so neither a
    /// compile error nor an instantiation trap can come out of this
    /// stage.
    pub fn prepare(bytes: &Vec<u8>, provider: &CapabilityProvider) -> (r: Result<
        LoadPlan,
        LoadError,
    >)
        ensures
            ({
                let pm = parse_model(bytes@);
                match r {
                    Ok(plan) => pm matches Some(d) && plan.descriptor@ == d && resolve_model(
                        d.imports,
                        capability_marker_model(d.imports, provider@.reserved_names),
                        provider@.entries,
                    ) == Ok::<_, LinkErrorModel>(
                        plan.bindings@.map_values(|b: BoundImport| b.entry_index as int),
                    ) && plan.bindings@.len() == plan.descriptor@.imports.len()
                        && plan.features == host_features(),
                    Err(LoadError::Parse(_)) => pm is None,
                    Err(LoadError::Link(e)) => pm matches Some(d) && resolve_model(
                        d.imports,
                        capability_marker_model(d.imports, provider@.reserved_names),
                        provider@.entries,
                    ) == Err::<Seq<int>, _>(e@),
                    Err(LoadError::Compile(_)) => false,
                    Err(LoadError::InstantiationTrap(_)) => false,
                }
            }),
    {
        let descriptor = match ModuleDescriptor::parse(bytes) {
            Err(e) => { return Err(LoadError::Parse(e)); },
            Ok(d) => d,
        };
        let capability = descriptor.capability_module(&provider.reserved_names);
        match resolve(&descriptor.imports, &capability, provider) {
            Err(e) => Err(LoadError::Link(e)),
            Ok(bindings) => {
                proof {
                    crate::resolver::lemma_resolve_ok_len(
                        descriptor@.imports,
                        capability_marker_model(descriptor@.imports, provider@.reserved_names),
                        provider@.entries,
                    );
                }
                Ok(LoadPlan { descriptor, bindings, features: FeatureConfig::for_host() })
            },
        }
    }

    /// Turns the engine's verdict on a prepared load into a ready
    /// host or the load error: the instantiated → ready step.
    ///
    /// A ready host carries exactly the plan's metadata and
    /// bindings; a rejected bytecode or a setup trap surfaces as the
    /// corresponding error, never silently.
    pub fn complete(plan: LoadPlan, outcome: EngineOutcome) -> (r: Result<ModuleHost, LoadError>)
        ensures
            match outcome {
                EngineOutcome::Instantiated => r matches Ok(h) && h.descriptor
                    == plan.descriptor && h.bindings == plan.bindings,
                EngineOutcome::CompileRejected(m) => r matches Err(LoadError::Compile(m2)) && m2
                    == m,
                EngineOutcome::InstantiationTrapped(m) => r matches Err(
                    LoadError::InstantiationTrap(m2),
                ) && m2 == m,
            },
    {
        match outcome {
            EngineOutcome::Instantiated => Ok(
                ModuleHost { descriptor: plan.descriptor, bindings: plan.bindings },
            ),
            EngineOutcome::CompileRejected(m) => Err(LoadError::Compile(m)),
            EngineOutcome::InstantiationTrapped(m) => Err(LoadError::InstantiationTrap(m)),
        }
    }

    /// Validates an invocation of the named export with the given
    /// arguments, without touching the engine.
    ///
    /// Succeeds exactly when the name is exported and the argument
    /// kinds equal the export's parameter kinds position by
    /// position; the request then points at the first export of that
    /// name.  An unknown name fails as an unknown export; ill-fitted
    /// arguments fail as a type mismatch naming the first offending
    /// position with the expected and the actual kind.
    pub fn check_invoke(&self, export_name: &Vec<u8>, args: &Vec<Value>) -> (r: Result<
        InvokeRequest,
        InvokeError,
    >)
        ensures
            ({
                let exs = self.descriptor@.exports;
                let m = find_export(exs, export_name@);
                match r {
                    Ok(req) => m matches Some(j) && req.export_index == j && (
                    req.export_index as int) < exs.len() && kinds_of(args@)
                        == exs[j].param_kinds,
                    Err(InvokeError::UnknownExport { name }) => m is None && name@
                        == export_name@,
                    Err(InvokeError::TypeMismatch { position, expected, actual }) => m matches Some(
                        j,
                    ) && mismatch_described(
                        exs[j].param_kinds,
                        kinds_of(args@),
                        position,
                        expected,
                        actual,
                    ),
                    _ => false,
                }
            }),
    {
        let j = match find_export_exec(&self.descriptor.exports, export_name) {
            None => {
                return Err(
                    InvokeError::UnknownExport { name: crate::descriptor::clone_name(export_name) },
                );
            },
            Some(j) => j,
        };
        proof {
            lemma_find_export_props(self.descriptor@.exports, export_name@);
        }
        let params = &self.descriptor.exports[j].param_kinds;
        let ghost ps = self.descriptor@.exports[j as int].param_kinds;
        let ghost ks = kinds_of(args@);
        proof {
            assert(ps == params@);
            assert(ks.len() == args@.len());
        }
        let mut l: usize = 0;
        while l < params.len() && l < args.len()
            invariant
                0 <= l <= params@.len(),
                0 <= l <= args@.len(),
                ps == params@,
                ks == kinds_of(args@),
                ks.len() == args@.len(),
                (j as int) < self.descriptor@.exports.len(),
                ps == self.descriptor@.exports[j as int].param_kinds,
                find_export(self.descriptor@.exports, export_name@) == Some(j as int),
                forall|t: int| 0 <= t < l ==> ps[t] == ks[t],
            decreases params@.len() - l,
        {
            let pk = params[l];
            let ak = args[l].kind();
            proof {
                assert(ks[l as int] == args@[l as int].kind_spec());
            }
            if pk != ak {
                return Err(
                    InvokeError::TypeMismatch {
                        position: l,
                        expected: Some(pk),
                        actual: Some(ak),
                    },
                );
            }
            l = l + 1;
        }
        if l < params.len() {
            let pk = params[l];
            return Err(
                InvokeError::TypeMismatch { position: l, expected: Some(pk), actual: None },
            );
        }
        if l < args.len() {
            let ak = args[l].kind();
            proof {
                assert(ks[l as int] == args@[l as int].kind_spec());
            }
            return Err(
                InvokeError::TypeMismatch { position: l, expected: None, actual: Some(ak) },
            );
        }
        proof {
            assert(ks =~= ps);
        }
        Ok(InvokeRequest { export_index: j })
    }

    /// Turns the engine's verdict on a validated invocation into the
    /// returned values or the invocation error.
    ///
    /// A trap surfaces as an execution trap with the engine's
    /// diagnostic.  A normal return must carry at least as many
    /// values as the export's result kinds promise, or it fails as a
    /// missing return; the values themselves come back unchanged.
    pub fn finish_invoke(&self, req: &InvokeRequest, outcome: ExecOutcome) -> (r: Result<
        Vec<Value>,
        InvokeError,
    >)
        requires
            (req.export_index as int) < self.descriptor@.exports.len(),
        ensures
            ({
                let need = self.descriptor@.exports[req.export_index as int].result_kinds.len();
                match outcome {
                    ExecOutcome::Trapped(m) => r matches Err(InvokeError::ExecutionTrap {
                        message,
                    }) && message == m,
                    ExecOutcome::Returned(vs) => if vs@.len() >= need {
                        r matches Ok(out) && out@ == vs@
                    } else {
                        r matches Err(InvokeError::MissingReturn { expected, actual })
                            && expected as nat == need && actual == vs@.len()
                    },
                }
            }),
    {
        match outcome {
            ExecOutcome::Trapped(m) => Err(InvokeError::ExecutionTrap { message: m }),
            ExecOutcome::Returned(vs) => {
                let need = self.descriptor.exports[req.export_index].result_kinds.len();
                if vs.len() >= need {
                    Ok(vs)
                } else {
                    let actual = vs.len();
                    Err(InvokeError::MissingReturn { expected: need, actual })
                }
            },
        }
    }
}

/// The name of the canonical two-integer addition export.
pub open spec fn add_export_name() -> Seq<u8> {
    seq![0x61u8, 0x64u8, 0x64u8]
}

/// Builds the canonical addition export's name.
pub fn add_name() -> (r: Vec<u8>)
    ensures
        r@ == add_export_name(),
{
    let mut v: Vec<u8> = Vec::new();
    v.push(0x61);
    v.push(0x64);
    v.push(0x64);
    proof {
        assert(v@ =~= add_export_name());
    }
    v
}

impl ModuleHost {
    /// Validates the canonical addition call: both operands encoded
    /// as 32-bit integer values, against the export named by
    /// `add_export_name`.
    pub fn add_call(&self, a: i32, b: i32) -> (r: Result<InvokeRequest, InvokeError>)
        ensures
            ({
                let exs = self.descriptor@.exports;
                let m = find_export(exs, add_export_name());
                let ks = seq![ValueKind::Int32, ValueKind::Int32];
                match r {
                    Ok(req) => m matches Some(j) && req.export_index == j && (
                    req.export_index as int) < exs.len() && exs[j].param_kinds == ks,
                    Err(InvokeError::UnknownExport { name }) => m is None && name@
                        == add_export_name(),
                    Err(InvokeError::TypeMismatch { position, expected, actual }) => m matches Some(
                        j,
                    ) && mismatch_described(exs[j].param_kinds, ks, position, expected, actual),
                    _ => false,
                }
            }),
    {
        let name = add_name();
        let mut args: Vec<Value> = Vec::new();
        args.push(encode_i32(a));
        args.push(encode_i32(b));
        proof {
            assert(kinds_of(args@) =~= seq![ValueKind::Int32, ValueKind::Int32]);
        }
        self.check_invoke(&name, &args)
    }
}

/// Decodes the canonical addition call's result: the last returned
/// value, as a host-native 32-bit integer.
///
/// No value at all is a missing return; a last value of any other
/// kind is a result-conversion error naming the kinds.
pub fn add_result(results: &Vec<Value>) -> (r: Result<i32, InvokeError>)
    ensures
        results@.len() == 0 ==> (r matches Err(InvokeError::MissingReturn { expected, actual })
            && expected == 1 && actual == 0),
        results@.len() > 0 ==> (match results@.last() {
            Value::Int32(x) => r == Ok::<i32, InvokeError>(x),
            _ => (r matches Err(InvokeError::ResultConversion { expected, actual }) && expected
                == ValueKind::Int32 && actual == results@.last().kind_spec()),
        }),
{
    if results.len() == 0 {
        return Err(InvokeError::MissingReturn { expected: 1, actual: 0 });
    }
    let v = results[results.len() - 1];
    match decode_i32(&v) {
        Some(x) => Ok(x),
        None => Err(
            InvokeError::ResultConversion { expected: ValueKind::Int32, actual: v.kind() },
        ),
    }
}

/// A module whose bytes decode with no declared imports always
/// prepares: it has no capability-module marker, and resolving an
/// empty import list yields the empty binding list.  With the
/// engine's `Instantiated` verdict, `complete` then yields a ready
/// host, so such a module's load succeeds end to end whenever the
/// engine accepts its bytecode.
pub proof fn lemma_load_no_imports(
    bytes: Seq<u8>,
    d: DescriptorModel,
    reserved: Seq<Seq<u8>>,
    entries: Seq<Seq<u8>>,
)
    requires
        parse_model(bytes) == Some(d),
        d.imports.len() == 0,
    ensures
        capability_marker_model(d.imports, reserved) is None,
        resolve_model(d.imports, capability_marker_model(d.imports, reserved), entries)
            == Ok::<_, LinkErrorModel>(Seq::<int>::empty()),
{
}

} // verus!
