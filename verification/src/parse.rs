//! Decoding of module binary metadata.
//!
//! The decoder extracts exactly the metadata the host needs — the
//! declared imports with their namespaces, and the exported functions
//! with their signatures — and leaves full bytecode validation to the
//! execution engine.  The grammar of the accepted binary format is
//! written down once, as the spec functions of this module; the
//! executable decoder is proved to return precisely what the grammar
//! says.

use vstd::prelude::*;
use crate::values::ValueKind;
use crate::descriptor::{
    DescriptorModel, ExportModel, ExportSignature, ImportDescriptor, ImportModel,
    ModuleDescriptor,
};

verus! {

/// Malformed module bytes: the buffer does not follow the binary
/// module grammar.
#[derive(Clone, Copy, PartialEq, Eq, Structural, Debug)]
pub struct ParseError;

/// One decoded function type: parameter and result kinds in order.
pub ghost struct FuncTypeModel {
    pub params: Seq<ValueKind>,
    pub results: Seq<ValueKind>,
}

/// One decoded import entry.  `func_type` is the type index when the
/// import is a function import, and `None` for the other entity kinds.
pub ghost struct RawImportModel {
    pub module_name: Seq<u8>,
    pub entry_name: Seq<u8>,
    pub func_type: Option<nat>,
}

/// One decoded export entry, before its signature is looked up.
pub ghost struct RawExportModel {
    pub name: Seq<u8>,
    pub kind: u8,
    pub index: nat,
}

/// The metadata-bearing sections of a module, as decoded.
pub ghost struct SectionsModel {
    pub types: Seq<FuncTypeModel>,
    pub imports: Seq<RawImportModel>,
    pub funcs: Seq<nat>,
    pub exports: Seq<RawExportModel>,
}

/// The sections of a module before any section has been decoded.
pub open spec fn empty_sections() -> SectionsModel {
    SectionsModel {
        types: Seq::empty(),
        imports: Seq::empty(),
        funcs: Seq::empty(),
        exports: Seq::empty(),
    }
}

/// The byte at `pos`, when `pos` is in bounds.
pub open spec fn byte_model(s: Seq<u8>, pos: int) -> Option<u8> {
    if 0 <= pos < s.len() {
        Some(s[pos])
    } else {
        None
    }
}

/// One step of variable-length unsigned integer decoding: each byte
/// contributes its low seven bits, scaled by `mult`; a clear high bit
/// ends the number.  At most `max` more bytes may be read, and the
/// final value must fit in 32 bits.
pub open spec fn leb32_step(s: Seq<u8>, pos: int, max: nat, acc: nat, mult: nat) -> Option<
    (nat, int),
>
    decreases max,
{
    if max == 0 {
        None
    } else {
        match byte_model(s, pos) {
            None => None,
            Some(b) => {
                let v = acc + ((b & 0x7f) as nat) * mult;
                if b < 0x80 {
                    if v < 0x1_0000_0000 {
                        Some((v, pos + 1))
                    } else {
                        None
                    }
                } else if max == 1 {
                    None
                } else {
                    leb32_step(s, pos + 1, (max - 1) as nat, v, mult * 0x80)
                }
            },
        }
    }
}

/// A variable-length unsigned 32-bit integer at `pos`.
pub open spec fn leb32_model(s: Seq<u8>, pos: int) -> Option<(nat, int)> {
    leb32_step(s, pos, 5, 0, 1)
}

/// `n` raw bytes starting at `pos`.
pub open spec fn bytes_model(s: Seq<u8>, pos: int, n: nat) -> Option<(Seq<u8>, int)> {
    if 0 <= pos && pos + n <= s.len() {
        Some((s.subrange(pos, pos + n), pos + n))
    } else {
        None
    }
}

/// A length-prefixed name: a byte count followed by that many bytes.
pub open spec fn name_model(s: Seq<u8>, pos: int) -> Option<(Seq<u8>, int)> {
    match leb32_model(s, pos) {
        None => None,
        Some((n, p)) => bytes_model(s, p, n),
    }
}

/// The value kind encoded by one type byte.
pub open spec fn valtype_of(b: u8) -> Option<ValueKind> {
    if b == 0x7f {
        Some(ValueKind::Int32)
    } else if b == 0x7e {
        Some(ValueKind::Int64)
    } else if b == 0x7d {
        Some(ValueKind::Float32)
    } else if b == 0x7c {
        Some(ValueKind::Float64)
    } else if b == 0x70 || b == 0x6f {
        Some(ValueKind::Reference)
    } else {
        None
    }
}

/// One value-type byte at `pos`.
pub open spec fn valtype_model(s: Seq<u8>, pos: int) -> Option<(ValueKind, int)> {
    match byte_model(s, pos) {
        None => None,
        Some(b) => match valtype_of(b) {
            None => None,
            Some(k) => Some((k, pos + 1)),
        },
    }
}

/// `n` consecutive value-type bytes starting at `pos`.
pub open spec fn kinds_model(s: Seq<u8>, pos: int, n: nat) -> Option<(Seq<ValueKind>, int)>
    decreases n,
{
    if n == 0 {
        Some((Seq::empty(), pos))
    } else {
        match valtype_model(s, pos) {
            None => None,
            Some((k, p)) => match kinds_model(s, p, (n - 1) as nat) {
                None => None,
                Some((ks, q)) => Some((seq![k] + ks, q)),
            },
        }
    }
}

/// One function type: the function-type tag byte, then the parameter
/// kinds, then the result kinds, each as a counted vector.
pub open spec fn functype_model(s: Seq<u8>, pos: int) -> Option<(FuncTypeModel, int)> {
    match byte_model(s, pos) {
        None => None,
        Some(b) => {
            if b != 0x60 {
                None
            } else {
                match leb32_model(s, pos + 1) {
                    None => None,
                    Some((np, p1)) => match kinds_model(s, p1, np) {
                        None => None,
                        Some((ps, p2)) => match leb32_model(s, p2) {
                            None => None,
                            Some((nr, p3)) => match kinds_model(s, p3, nr) {
                                None => None,
                                Some((rs, p4)) => Some(
                                    (FuncTypeModel { params: ps, results: rs }, p4),
                                ),
                            },
                        },
                    },
                }
            }
        },
    }
}

/// `n` consecutive function types starting at `pos`.
pub open spec fn functypes_model(s: Seq<u8>, pos: int, n: nat) -> Option<
    (Seq<FuncTypeModel>, int),
>
    decreases n,
{
    if n == 0 {
        Some((Seq::empty(), pos))
    } else {
        match functype_model(s, pos) {
            None => None,
            Some((t, p)) => match functypes_model(s, p, (n - 1) as nat) {
                None => None,
                Some((ts, q)) => Some((seq![t] + ts, q)),
            },
        }
    }
}

/// Size limits of a table or memory: a flag byte, a minimum, and an
/// optional maximum.
pub open spec fn limits_model(s: Seq<u8>, pos: int) -> Option<int> {
    match byte_model(s, pos) {
        None => None,
        Some(f) => {
            if f == 0 {
                match leb32_model(s, pos + 1) {
                    None => None,
                    Some((_, p)) => Some(p),
                }
            } else if f == 1 {
                match leb32_model(s, pos + 1) {
                    None => None,
                    Some((_, p1)) => match leb32_model(s, p1) {
                        None => None,
                        Some((_, p2)) => Some(p2),
                    },
                }
            } else {
                None
            }
        },
    }
}

/// The entity description of one import: for a function import its
/// type index is kept; table, memory and global imports are decoded
/// and skipped.
pub open spec fn importdesc_model(s: Seq<u8>, pos: int) -> Option<(Option<nat>, int)> {
    match byte_model(s, pos) {
        None => None,
        Some(d) => {
            if d == 0 {
                match leb32_model(s, pos + 1) {
                    None => None,
                    Some((t, p)) => Some((Some(t), p)),
                }
            } else if d == 1 {
                match byte_model(s, pos + 1) {
                    None => None,
                    Some(rt) => {
                        if rt == 0x70 || rt == 0x6f {
                            match limits_model(s, pos + 2) {
                                None => None,
                                Some(p) => Some((None, p)),
                            }
                        } else {
                            None
                        }
                    },
                }
            } else if d == 2 {
                match limits_model(s, pos + 1) {
                    None => None,
                    Some(p) => Some((None, p)),
                }
            } else if d == 3 {
                match valtype_model(s, pos + 1) {
                    None => None,
                    Some((_, p1)) => match byte_model(s, p1) {
                        None => None,
                        Some(m) => {
                            if m <= 1 {
                                Some((None, p1 + 1))
                            } else {
                                None
                            }
                        },
                    },
                }
            } else {
                None
            }
        },
    }
}

/// One import entry: module name, entry name, entity description.
pub open spec fn import_model(s: Seq<u8>, pos: int) -> Option<(RawImportModel, int)> {
    match name_model(s, pos) {
        None => None,
        Some((m, p1)) => match name_model(s, p1) {
            None => None,
            Some((e, p2)) => match importdesc_model(s, p2) {
                None => None,
                Some((ft, p3)) => Some(
                    (RawImportModel { module_name: m, entry_name: e, func_type: ft }, p3),
                ),
            },
        },
    }
}

/// `n` consecutive import entries starting at `pos`.
pub open spec fn imports_model(s: Seq<u8>, pos: int, n: nat) -> Option<
    (Seq<RawImportModel>, int),
>
    decreases n,
{
    if n == 0 {
        Some((Seq::empty(), pos))
    } else {
        match import_model(s, pos) {
            None => None,
            Some((im, p)) => match imports_model(s, p, (n - 1) as nat) {
                None => None,
                Some((ims, q)) => Some((seq![im] + ims, q)),
            },
        }
    }
}

/// `n` consecutive type indices starting at `pos`.
pub open spec fn funcs_model(s: Seq<u8>, pos: int, n: nat) -> Option<(Seq<nat>, int)>
    decreases n,
{
    if n == 0 {
        Some((Seq::empty(), pos))
    } else {
        match leb32_model(s, pos) {
            None => None,
            Some((t, p)) => match funcs_model(s, p, (n - 1) as nat) {
                None => None,
                Some((ts, q)) => Some((seq![t] + ts, q)),
            },
        }
    }
}

/// One export entry: name, entity-kind byte, entity index.
pub open spec fn export_model(s: Seq<u8>, pos: int) -> Option<(RawExportModel, int)> {
    match name_model(s, pos) {
        None => None,
        Some((nm, p1)) => match byte_model(s, p1) {
            None => None,
            Some(k) => {
                if k <= 3 {
                    match leb32_model(s, p1 + 1) {
                        None => None,
                        Some((ix, p2)) => Some(
                            (RawExportModel { name: nm, kind: k, index: ix }, p2),
                        ),
                    }
                } else {
                    None
                }
            },
        },
    }
}

/// `n` consecutive export entries starting at `pos`.
pub open spec fn exports_model(s: Seq<u8>, pos: int, n: nat) -> Option<
    (Seq<RawExportModel>, int),
>
    decreases n,
{
    if n == 0 {
        Some((Seq::empty(), pos))
    } else {
        match export_model(s, pos) {
            None => None,
            Some((e, p)) => match exports_model(s, p, (n - 1) as nat) {
                None => None,
                Some((es, q)) => Some((seq![e] + es, q)),
            },
        }
    }
}

/// The payload of one section, which must end exactly at `end`.
/// Sections other than the type, import, function and export sections
/// carry no metadata the host needs and are skipped whole.
pub open spec fn section_content_model(
    s: Seq<u8>,
    pos: int,
    end: int,
    id: u8,
    st: SectionsModel,
) -> Option<SectionsModel> {
    if id == 1 {
        match leb32_model(s, pos) {
            None => None,
            Some((n, p)) => match functypes_model(s, p, n) {
                None => None,
                Some((ts, q)) => if q == end {
                    Some(SectionsModel { types: ts, ..st })
                } else {
                    None
                },
            },
        }
    } else if id == 2 {
        match leb32_model(s, pos) {
            None => None,
            Some((n, p)) => match imports_model(s, p, n) {
                None => None,
                Some((ims, q)) => if q == end {
                    Some(SectionsModel { imports: ims, ..st })
                } else {
                    None
                },
            },
        }
    } else if id == 3 {
        match leb32_model(s, pos) {
            None => None,
            Some((n, p)) => match funcs_model(s, p, n) {
                None => None,
                Some((fs, q)) => if q == end {
                    Some(SectionsModel { funcs: fs, ..st })
                } else {
                    None
                },
            },
        }
    } else if id == 7 {
        match leb32_model(s, pos) {
            None => None,
            Some((n, p)) => match exports_model(s, p, n) {
                None => None,
                Some((es, q)) => if q == end {
                    Some(SectionsModel { exports: es, ..st })
                } else {
                    None
                },
            },
        }
    } else {
        Some(st)
    }
}

/// The sequence of sections from `pos` to the end of the buffer: each
/// is an id byte, a payload size, and a payload of exactly that size.
pub open spec fn sections_model(s: Seq<u8>, pos: int, st: SectionsModel) -> Option<SectionsModel>
    decreases s.len() - pos,
{
    if pos == s.len() {
        Some(st)
    } else {
        match byte_model(s, pos) {
            None => None,
            Some(id) => match leb32_model(s, pos + 1) {
                None => None,
                Some((sz, p2)) => {
                    let end = p2 + sz;
                    if end > s.len() || end <= pos {
                        None
                    } else {
                        match section_content_model(s, p2, end, id, st) {
                            None => None,
                            Some(st2) => sections_model(s, end, st2),
                        }
                    }
                },
            },
        }
    }
}

/// The type indices of the imported functions, in import order.
/// Together with the function section they form the function index
/// space: imported functions first, the module's own functions after.
pub open spec fn func_typeidxs(ims: Seq<RawImportModel>) -> Seq<nat>
    decreases ims.len(),
{
    if ims.len() == 0 {
        Seq::empty()
    } else {
        let rest = func_typeidxs(ims.drop_last());
        match ims.last().func_type {
            Some(t) => rest.push(t),
            None => rest,
        }
    }
}

/// The declared imports, stripped of their entity descriptions.
pub open spec fn import_views(ims: Seq<RawImportModel>) -> Seq<ImportModel> {
    ims.map_values(
        |r: RawImportModel| ImportModel { module_name: r.module_name, entry_name: r.entry_name },
    )
}

/// The exported functions with their signatures, in declaration
/// order.  Exports of other entity kinds carry no callable signature
/// and are dropped; a function export whose index or type index is
/// out of range makes the whole module malformed.
pub open spec fn exports_assemble(
    types: Seq<FuncTypeModel>,
    fts: Seq<nat>,
    raws: Seq<RawExportModel>,
) -> Option<Seq<ExportModel>>
    decreases raws.len(),
{
    if raws.len() == 0 {
        Some(Seq::empty())
    } else {
        match exports_assemble(types, fts, raws.drop_last()) {
            None => None,
            Some(es) => {
                let e = raws.last();
                if e.kind != 0 {
                    Some(es)
                } else if e.index < fts.len() && fts[e.index as int] < types.len() {
                    let t = types[fts[e.index as int] as int];
                    Some(
                        es.push(
                            ExportModel {
                                name: e.name,
                                param_kinds: t.params,
                                result_kinds: t.results,
                            },
                        ),
                    )
                } else {
                    None
                }
            },
        }
    }
}

/// The eight fixed bytes that must open every module.
pub open spec fn module_magic() -> Seq<u8> {
    seq![0x00u8, 0x61u8, 0x73u8, 0x6du8, 0x01u8, 0x00u8, 0x00u8, 0x00u8]
}

/// What a well-formed module's bytes decode to: `None` exactly when
/// the bytes are malformed.
pub open spec fn parse_model(s: Seq<u8>) -> Option<DescriptorModel> {
    if s.len() < 8 || s.subrange(0, 8) != module_magic() {
        None
    } else {
        match sections_model(s, 8, empty_sections()) {
            None => None,
            Some(st) => match exports_assemble(
                st.types,
                func_typeidxs(st.imports) + st.funcs,
                st.exports,
            ) {
                None => None,
                Some(es) => Some(DescriptorModel { imports: import_views(st.imports), exports: es }),
            },
        }
    }
}

/// One step of the executable variable-length integer decoder.  The
/// `max`/`acc`/`mult` arguments walk in lock step with `leb32_step`;
/// the bounds in `requires` keep every intermediate sum far below the
/// machine-word limit.
fn leb32_step_exec(s: &Vec<u8>, pos: usize, max: u8, acc: u64, mult: u64) -> (r: Option<
    (u32, usize),
>)
    requires
        (max == 5 && mult == 1) || (max == 4 && mult == 0x80) || (max == 3 && mult == 0x4000) || (
        max == 2 && mult == 0x20_0000) || (max == 1 && mult == 0x1000_0000),
        acc < mult,
    ensures
        ({
            let m = leb32_step(s@, pos as int, max as nat, acc as nat, mult as nat);
            match r {
                Some((v, p)) => m == Some(((v as nat), (p as int))),
                None => m is None,
            }
        }),
    decreases max,
{
    if pos >= s.len() {
        return None;
    }
    let b = s[pos];
    let low: u64 = (b & 0x7f) as u64;
    let v: u64 = acc + low * mult;
    if b < 0x80 {
        if v < 0x1_0000_0000 {
            Some((v as u32, pos + 1))
        } else {
            None
        }
    } else if max == 1 {
        None
    } else {
        proof {
            assert((b & 0x7f) <= 0x7f) by (bit_vector);
            assert(v < mult * 0x80);
        }
        leb32_step_exec(s, pos + 1, max - 1, v, mult * 0x80)
    }
}

/// Decodes a variable-length unsigned 32-bit integer at `pos`.
fn leb32_exec(s: &Vec<u8>, pos: usize) -> (r: Option<(u32, usize)>)
    ensures
        ({
            let m = leb32_model(s@, pos as int);
            match r {
                Some((v, p)) => m == Some(((v as nat), (p as int))),
                None => m is None,
            }
        }),
{
    leb32_step_exec(s, pos, 5, 0, 1)
}

/// Copies `n` raw bytes starting at `pos`.
fn read_bytes(s: &Vec<u8>, pos: usize, n: u32) -> (r: Option<(Vec<u8>, usize)>)
    ensures
        ({
            let m = bytes_model(s@, pos as int, n as nat);
            match r {
                Some((bs, p)) => m == Some((bs@, p as int)),
                None => m is None,
            }
        }),
{
    let nu = n as usize;
    let slen: usize = s.len();
    if pos > slen || nu > slen - pos {
        return None;
    }
    let mut out: Vec<u8> = Vec::new();
    let mut i: usize = 0;
    while i < nu
        invariant
            0 <= i <= nu,
            pos + nu <= slen,
            slen == s@.len(),
            out@ == s@.subrange(pos as int, pos + i),
        decreases nu - i,
    {
        out.push(s[pos + i]);
        proof {
            assert(s@.subrange(pos as int, pos + i + 1)
                =~= s@.subrange(pos as int, pos + i).push(s@[pos + i]));
        }
        i = i + 1;
    }
    Some((out, pos + nu))
}

/// Decodes a length-prefixed name.
fn read_name(s: &Vec<u8>, pos: usize) -> (r: Option<(Vec<u8>, usize)>)
    ensures
        ({
            let m = name_model(s@, pos as int);
            match r {
                Some((bs, p)) => m == Some((bs@, p as int)),
                None => m is None,
            }
        }),
{
    match leb32_exec(s, pos) {
        None => None,
        Some((n, p)) => read_bytes(s, p, n),
    }
}

/// Decodes one value-type byte.
fn valtype_exec(b: u8) -> (r: Option<ValueKind>)
    ensures
        r == valtype_of(b),
{
    if b == 0x7f {
        Some(ValueKind::Int32)
    } else if b == 0x7e {
        Some(ValueKind::Int64)
    } else if b == 0x7d {
        Some(ValueKind::Float32)
    } else if b == 0x7c {
        Some(ValueKind::Float64)
    } else if b == 0x70 || b == 0x6f {
        Some(ValueKind::Reference)
    } else {
        None
    }
}

/// Decodes `n` consecutive value-type bytes.
fn kinds_exec(s: &Vec<u8>, pos: usize, n: u32) -> (r: Option<(Vec<ValueKind>, usize)>)
    ensures
        ({
            let m = kinds_model(s@, pos as int, n as nat);
            match r {
                Some((ks, p)) => m == Some((ks@, p as int)),
                None => m is None,
            }
        }),
    decreases n,
{
    if n == 0 {
        let out: Vec<ValueKind> = Vec::new();
        assert(out@ =~= Seq::<ValueKind>::empty());
        return Some((out, pos));
    }
    if pos >= s.len() {
        return None;
    }
    let k = match valtype_exec(s[pos]) {
        None => { return None; },
        Some(k) => k,
    };
    match kinds_exec(s, pos + 1, n - 1) {
        None => None,
        Some((rest, q)) => {
            let mut v = rest;
            v.insert(0, k);
            proof {
                assert(v@ =~= seq![k] + v@.subrange(1, v@.len() as int));
            }
            Some((v, q))
        },
    }
}

/// One decoded function type, executable form.
pub struct FuncTypeE {
    pub params: Vec<ValueKind>,
    pub results: Vec<ValueKind>,
}

impl View for FuncTypeE {
    type V = FuncTypeModel;

    open spec fn view(&self) -> FuncTypeModel {
        FuncTypeModel { params: self.params@, results: self.results@ }
    }
}

/// One decoded import entry, executable form.
pub struct RawImportE {
    pub module_name: Vec<u8>,
    pub entry_name: Vec<u8>,
    pub func_type: Option<u32>,
}

/// The type index of a function import, widened to the model.
pub open spec fn opt_nat(o: Option<u32>) -> Option<nat> {
    match o {
        Some(t) => Some(t as nat),
        None => None,
    }
}

impl View for RawImportE {
    type V = RawImportModel;

    open spec fn view(&self) -> RawImportModel {
        RawImportModel {
            module_name: self.module_name@,
            entry_name: self.entry_name@,
            func_type: opt_nat(self.func_type),
        }
    }
}

/// One decoded export entry, executable form.
pub struct RawExportE {
    pub name: Vec<u8>,
    pub kind: u8,
    pub index: u32,
}

impl View for RawExportE {
    type V = RawExportModel;

    open spec fn view(&self) -> RawExportModel {
        RawExportModel { name: self.name@, kind: self.kind, index: self.index as nat }
    }
}

/// The models of a sequence of decoded function types.
pub open spec fn functypes_view(v: Seq<FuncTypeE>) -> Seq<FuncTypeModel> {
    v.map_values(|t: FuncTypeE| t@)
}

/// The models of a sequence of decoded import entries.
pub open spec fn raw_imports_view(v: Seq<RawImportE>) -> Seq<RawImportModel> {
    v.map_values(|t: RawImportE| t@)
}

/// The models of a sequence of decoded export entries.
pub open spec fn raw_exports_view(v: Seq<RawExportE>) -> Seq<RawExportModel> {
    v.map_values(|t: RawExportE| t@)
}

/// The models of a sequence of decoded type indices.
pub open spec fn idxs_view(v: Seq<u32>) -> Seq<nat> {
    v.map_values(|t: u32| t as nat)
}

/// Decodes one function type.
fn functype_exec(s: &Vec<u8>, pos: usize) -> (r: Option<(FuncTypeE, usize)>)
    ensures
        ({
            let m = functype_model(s@, pos as int);
            match r {
                Some((t, p)) => m == Some((t@, p as int)),
                None => m is None,
            }
        }),
{
    if pos >= s.len() {
        return None;
    }
    if s[pos] != 0x60 {
        return None;
    }
    let (np, p1) = match leb32_exec(s, pos + 1) {
        None => { return None; },
        Some(x) => x,
    };
    let (ps, p2) = match kinds_exec(s, p1, np) {
        None => { return None; },
        Some(x) => x,
    };
    let (nr, p3) = match leb32_exec(s, p2) {
        None => { return None; },
        Some(x) => x,
    };
    let (rs, p4) = match kinds_exec(s, p3, nr) {
        None => { return None; },
        Some(x) => x,
    };
    Some((FuncTypeE { params: ps, results: rs }, p4))
}

/// Decodes `n` consecutive function types.
fn functypes_exec(s: &Vec<u8>, pos: usize, n: u32) -> (r: Option<(Vec<FuncTypeE>, usize)>)
    ensures
        ({
            let m = functypes_model(s@, pos as int, n as nat);
            match r {
                Some((ts, p)) => m == Some((functypes_view(ts@), p as int)),
                None => m is None,
            }
        }),
    decreases n,
{
    if n == 0 {
        let out: Vec<FuncTypeE> = Vec::new();
        assert(functypes_view(out@) =~= Seq::<FuncTypeModel>::empty());
        return Some((out, pos));
    }
    let (t, p) = match functype_exec(s, pos) {
        None => { return None; },
        Some(x) => x,
    };
    match functypes_exec(s, p, n - 1) {
        None => None,
        Some((rest, q)) => {
            let mut v = rest;
            let ghost restview = functypes_view(v@);
            let ghost tv = t@;
            v.insert(0, t);
            proof {
                assert(functypes_view(v@) =~= seq![tv] + restview);
            }
            Some((v, q))
        },
    }
}

/// Decodes the size limits of a table or memory.
fn limits_exec(s: &Vec<u8>, pos: usize) -> (r: Option<usize>)
    ensures
        ({
            let m = limits_model(s@, pos as int);
            match r {
                Some(p) => m == Some(p as int),
                None => m is None,
            }
        }),
{
    if pos >= s.len() {
        return None;
    }
    let f = s[pos];
    if f == 0 {
        match leb32_exec(s, pos + 1) {
            None => None,
            Some((_, p)) => Some(p),
        }
    } else if f == 1 {
        match leb32_exec(s, pos + 1) {
            None => None,
            Some((_, p1)) => match leb32_exec(s, p1) {
                None => None,
                Some((_, p2)) => Some(p2),
            },
        }
    } else {
        None
    }
}

/// Decodes the entity description of one import.
fn importdesc_exec(s: &Vec<u8>, pos: usize) -> (r: Option<(Option<u32>, usize)>)
    ensures
        ({
            let m = importdesc_model(s@, pos as int);
            match r {
                Some((ft, p)) => m == Some((opt_nat(ft), p as int)),
                None => m is None,
            }
        }),
{
    if pos >= s.len() {
        return None;
    }
    let d = s[pos];
    if d == 0 {
        match leb32_exec(s, pos + 1) {
            None => None,
            Some((t, p)) => Some((Some(t), p)),
        }
    } else if d == 1 {
        if pos + 1 >= s.len() {
            return None;
        }
        let rt = s[pos + 1];
        if rt == 0x70 || rt == 0x6f {
            match limits_exec(s, pos + 2) {
                None => None,
                Some(p) => Some((None, p)),
            }
        } else {
            None
        }
    } else if d == 2 {
        match limits_exec(s, pos + 1) {
            None => None,
            Some(p) => Some((None, p)),
        }
    } else if d == 3 {
        let p1 = match valtype_exec_at(s, pos + 1) {
            None => { return None; },
            Some((_, p1)) => p1,
        };
        if p1 >= s.len() {
            return None;
        }
        if s[p1] <= 1 {
            Some((None, p1 + 1))
        } else {
            None
        }
    } else {
        None
    }
}

/// Decodes one value-type byte at a position.
fn valtype_exec_at(s: &Vec<u8>, pos: usize) -> (r: Option<(ValueKind, usize)>)
    ensures
        ({
            let m = valtype_model(s@, pos as int);
            match r {
                Some((k, p)) => m == Some((k, p as int)),
                None => m is None,
            }
        }),
{
    if pos >= s.len() {
        return None;
    }
    match valtype_exec(s[pos]) {
        None => None,
        Some(k) => Some((k, pos + 1)),
    }
}

/// Decodes one import entry.
fn import_exec(s: &Vec<u8>, pos: usize) -> (r: Option<(RawImportE, usize)>)
    ensures
        ({
            let m = import_model(s@, pos as int);
            match r {
                Some((im, p)) => m == Some((im@, p as int)),
                None => m is None,
            }
        }),
{
    let (m, p1) = match read_name(s, pos) {
        None => { return None; },
        Some(x) => x,
    };
    let (e, p2) = match read_name(s, p1) {
        None => { return None; },
        Some(x) => x,
    };
    match importdesc_exec(s, p2) {
        None => None,
        Some((ft, p3)) => Some(
            (RawImportE { module_name: m, entry_name: e, func_type: ft }, p3),
        ),
    }
}

/// Decodes `n` consecutive import entries.
fn imports_exec(s: &Vec<u8>, pos: usize, n: u32) -> (r: Option<(Vec<RawImportE>, usize)>)
    ensures
        ({
            let m = imports_model(s@, pos as int, n as nat);
            match r {
                Some((ims, p)) => m == Some((raw_imports_view(ims@), p as int)),
                None => m is None,
            }
        }),
    decreases n,
{
    if n == 0 {
        let out: Vec<RawImportE> = Vec::new();
        assert(raw_imports_view(out@) =~= Seq::<RawImportModel>::empty());
        return Some((out, pos));
    }
    let (im, p) = match import_exec(s, pos) {
        None => { return None; },
        Some(x) => x,
    };
    match imports_exec(s, p, n - 1) {
        None => None,
        Some((rest, q)) => {
            let mut v = rest;
            let ghost restview = raw_imports_view(v@);
            let ghost iv = im@;
            v.insert(0, im);
            proof {
                assert(raw_imports_view(v@) =~= seq![iv] + restview);
            }
            Some((v, q))
        },
    }
}

/// Decodes `n` consecutive type indices.
fn funcs_exec(s: &Vec<u8>, pos: usize, n: u32) -> (r: Option<(Vec<u32>, usize)>)
    ensures
        ({
            let m = funcs_model(s@, pos as int, n as nat);
            match r {
                Some((ts, p)) => m == Some((idxs_view(ts@), p as int)),
                None => m is None,
            }
        }),
    decreases n,
{
    if n == 0 {
        let out: Vec<u32> = Vec::new();
        assert(idxs_view(out@) =~= Seq::<nat>::empty());
        return Some((out, pos));
    }
    let (t, p) = match leb32_exec(s, pos) {
        None => { return None; },
        Some(x) => x,
    };
    match funcs_exec(s, p, n - 1) {
        None => None,
        Some((rest, q)) => {
            let mut v = rest;
            let ghost restview = idxs_view(v@);
            v.insert(0, t);
            proof {
                assert(idxs_view(v@) =~= seq![t as nat] + restview);
            }
            Some((v, q))
        },
    }
}

/// Decodes one export entry.
fn export_exec(s: &Vec<u8>, pos: usize) -> (r: Option<(RawExportE, usize)>)
    ensures
        ({
            let m = export_model(s@, pos as int);
            match r {
                Some((e, p)) => m == Some((e@, p as int)),
                None => m is None,
            }
        }),
{
    let (nm, p1) = match read_name(s, pos) {
        None => { return None; },
        Some(x) => x,
    };
    if p1 >= s.len() {
        return None;
    }
    let k = s[p1];
    if k > 3 {
        return None;
    }
    match leb32_exec(s, p1 + 1) {
        None => None,
        Some((ix, p2)) => Some((RawExportE { name: nm, kind: k, index: ix }, p2)),
    }
}

/// Decodes `n` consecutive export entries.
fn exports_exec(s: &Vec<u8>, pos: usize, n: u32) -> (r: Option<(Vec<RawExportE>, usize)>)
    ensures
        ({
            let m = exports_model(s@, pos as int, n as nat);
            match r {
                Some((es, p)) => m == Some((raw_exports_view(es@), p as int)),
                None => m is None,
            }
        }),
    decreases n,
{
    if n == 0 {
        let out: Vec<RawExportE> = Vec::new();
        assert(raw_exports_view(out@) =~= Seq::<RawExportModel>::empty());
        return Some((out, pos));
    }
    let (e, p) = match export_exec(s, pos) {
        None => { return None; },
        Some(x) => x,
    };
    match exports_exec(s, p, n - 1) {
        None => None,
        Some((rest, q)) => {
            let mut v = rest;
            let ghost restview = raw_exports_view(v@);
            let ghost ev = e@;
            v.insert(0, e);
            proof {
                assert(raw_exports_view(v@) =~= seq![ev] + restview);
            }
            Some((v, q))
        },
    }
}

/// The metadata-bearing sections of a module, executable form.
pub struct SectionsE {
    pub types: Vec<FuncTypeE>,
    pub imports: Vec<RawImportE>,
    pub funcs: Vec<u32>,
    pub exports: Vec<RawExportE>,
}

impl View for SectionsE {
    type V = SectionsModel;

    open spec fn view(&self) -> SectionsModel {
        SectionsModel {
            types: functypes_view(self.types@),
            imports: raw_imports_view(self.imports@),
            funcs: idxs_view(self.funcs@),
            exports: raw_exports_view(self.exports@),
        }
    }
}

/// Walks the sections from `pos` to the end of the buffer.
fn parse_sections_exec(s: &Vec<u8>, pos: usize, st: SectionsE) -> (r: Option<SectionsE>)
    requires
        pos <= s@.len(),
    ensures
        ({
            let m = sections_model(s@, pos as int, st@);
            match r {
                Some(st2) => m == Some(st2@),
                None => m is None,
            }
        }),
    decreases s@.len() - pos,
{
    let slen: usize = s.len();
    if pos == slen {
        return Some(st);
    }
    let id = s[pos];
    let (sz, p2) = match leb32_exec(s, pos + 1) {
        None => { return None; },
        Some(x) => x,
    };
    let szu = sz as usize;
    if p2 > slen || szu > slen - p2 {
        return None;
    }
    let end = p2 + szu;
    if end <= pos {
        return None;
    }
    let st2: SectionsE;
    if id == 1 {
        let (n, p3) = match leb32_exec(s, p2) {
            None => { return None; },
            Some(x) => x,
        };
        let (ts, q) = match functypes_exec(s, p3, n) {
            None => { return None; },
            Some(x) => x,
        };
        if q != end {
            return None;
        }
        st2 = SectionsE { types: ts, ..st };
    } else if id == 2 {
        let (n, p3) = match leb32_exec(s, p2) {
            None => { return None; },
            Some(x) => x,
        };
        let (ims, q) = match imports_exec(s, p3, n) {
            None => { return None; },
            Some(x) => x,
        };
        if q != end {
            return None;
        }
        st2 = SectionsE { imports: ims, ..st };
    } else if id == 3 {
        let (n, p3) = match leb32_exec(s, p2) {
            None => { return None; },
            Some(x) => x,
        };
        let (fs, q) = match funcs_exec(s, p3, n) {
            None => { return None; },
            Some(x) => x,
        };
        if q != end {
            return None;
        }
        st2 = SectionsE { funcs: fs, ..st };
    } else if id == 7 {
        let (n, p3) = match leb32_exec(s, p2) {
            None => { return None; },
            Some(x) => x,
        };
        let (es, q) = match exports_exec(s, p3, n) {
            None => { return None; },
            Some(x) => x,
        };
        if q != end {
            return None;
        }
        st2 = SectionsE { exports: es, ..st };
    } else {
        st2 = st;
    }
    parse_sections_exec(s, end, st2)
}

/// Collects the type indices of the imported functions, in order.
fn func_typeidxs_exec(ims: &Vec<RawImportE>) -> (r: Vec<u32>)
    ensures
        idxs_view(r@) == func_typeidxs(raw_imports_view(ims@)),
{
    let ghost a = raw_imports_view(ims@);
    let mut out: Vec<u32> = Vec::new();
    let mut i: usize = 0;
    proof {
        assert(a.take(0) =~= Seq::<RawImportModel>::empty());
        assert(idxs_view(out@) =~= func_typeidxs(a.take(0)));
    }
    while i < ims.len()
        invariant
            0 <= i <= ims@.len(),
            a == raw_imports_view(ims@),
            idxs_view(out@) == func_typeidxs(a.take(i as int)),
        decreases ims@.len() - i,
    {
        proof {
            assert(a.take(i as int + 1).drop_last() =~= a.take(i as int));
            assert(a.take(i as int + 1).last() == a[i as int]);
            assert(a[i as int] == ims@[i as int]@);
        }
        match ims[i].func_type {
            Some(t) => {
                let ghost prev = idxs_view(out@);
                out.push(t);
                proof {
                    assert(idxs_view(out@) =~= prev.push(t as nat));
                }
            },
            None => {},
        }
        i = i + 1;
    }
    proof {
        assert(a.take(ims@.len() as int) =~= a);
    }
    out
}

/// Copies a vector of value kinds.
fn copy_kinds(v: &Vec<ValueKind>) -> (r: Vec<ValueKind>)
    ensures
        r@ == v@,
{
    let mut out: Vec<ValueKind> = Vec::new();
    let mut i: usize = 0;
    while i < v.len()
        invariant
            0 <= i <= v@.len(),
            out@ == v@.take(i as int),
        decreases v@.len() - i,
    {
        out.push(v[i]);
        proof {
            assert(v@.take(i as int + 1) =~= v@.take(i as int).push(v@[i as int]));
        }
        i = i + 1;
    }
    proof {
        assert(v@.take(v@.len() as int) =~= v@);
    }
    out
}

/// Copies a byte string.
fn clone_bytes(v: &Vec<u8>) -> (r: Vec<u8>)
    ensures
        r@ == v@,
{
    let r = v.clone();
    proof {
        assert forall|j: int| 0 <= j < v@.len() implies r@[j] == v@[j] by {
            assert(cloned::<u8>(v@[j], r@[j]));
        }
        assert(v@ =~= r@);
    }
    r
}

/// The declared imports, stripped of their entity descriptions.
fn import_views_exec(ims: &Vec<RawImportE>) -> (r: Vec<ImportDescriptor>)
    ensures
        r@.map_values(|d: ImportDescriptor| d@) == import_views(raw_imports_view(ims@)),
{
    let ghost a = raw_imports_view(ims@);
    let mut out: Vec<ImportDescriptor> = Vec::new();
    let mut i: usize = 0;
    while i < ims.len()
        invariant
            0 <= i <= ims@.len(),
            a == raw_imports_view(ims@),
            out@.len() == i,
            out@.map_values(|d: ImportDescriptor| d@) == import_views(a.take(i as int)),
        decreases ims@.len() - i,
    {
        let ghost prev = out@.map_values(|d: ImportDescriptor| d@);
        let d = ImportDescriptor {
            module_name: clone_bytes(&ims[i].module_name),
            entry_name: clone_bytes(&ims[i].entry_name),
        };
        out.push(d);
        proof {
            assert(a.take(i as int + 1) =~= a.take(i as int).push(a[i as int]));
            assert(a[i as int] == ims@[i as int]@);
            let ghost e = ImportModel {
                module_name: ims@[i as int].module_name@,
                entry_name: ims@[i as int].entry_name@,
            };
            assert(out@.map_values(|d: ImportDescriptor| d@) =~= prev.push(e));
            assert(import_views(a.take(i as int + 1)) =~= prev.push(e));
        }
        i = i + 1;
    }
    proof {
        assert(a.take(ims@.len() as int) =~= a);
    }
    out
}

/// A malformed prefix of the export list spoils the whole list.
proof fn lemma_assemble_none(
    types: Seq<FuncTypeModel>,
    fts: Seq<nat>,
    raws: Seq<RawExportModel>,
    j: int,
)
    requires
        0 <= j <= raws.len(),
        exports_assemble(types, fts, raws.take(j)) is None,
    ensures
        exports_assemble(types, fts, raws) is None,
    decreases raws.len() - j,
{
    if j == raws.len() {
        assert(raws.take(j) =~= raws);
    } else {
        assert(raws.take(j + 1).drop_last() =~= raws.take(j));
        assert(exports_assemble(types, fts, raws.take(j + 1)) is None);
        lemma_assemble_none(types, fts, raws, j + 1);
    }
}

/// Looks up the signature of every exported function.
fn exports_assemble_exec(
    types: &Vec<FuncTypeE>,
    fts: &Vec<u32>,
    raws: &Vec<RawExportE>,
) -> (r: Option<Vec<ExportSignature>>)
    ensures
        ({
            let m = exports_assemble(functypes_view(types@), idxs_view(fts@), raw_exports_view(raws@));
            match r {
                Some(es) => m == Some(es@.map_values(|e: ExportSignature| e@)),
                None => m is None,
            }
        }),
{
    let ghost tv = functypes_view(types@);
    let ghost fv = idxs_view(fts@);
    let ghost rv = raw_exports_view(raws@);
    let mut out: Vec<ExportSignature> = Vec::new();
    let mut i: usize = 0;
    proof {
        assert(rv.take(0) =~= Seq::<RawExportModel>::empty());
        assert(out@.map_values(|e: ExportSignature| e@) =~= Seq::<ExportModel>::empty());
    }
    while i < raws.len()
        invariant
            0 <= i <= raws@.len(),
            tv == functypes_view(types@),
            fv == idxs_view(fts@),
            rv == raw_exports_view(raws@),
            exports_assemble(tv, fv, rv.take(i as int)) == Some(
                out@.map_values(|e: ExportSignature| e@),
            ),
        decreases raws@.len() - i,
    {
        proof {
            assert(rv.take(i as int + 1).drop_last() =~= rv.take(i as int));
            assert(rv.take(i as int + 1).last() == rv[i as int]);
            assert(rv[i as int] == raws@[i as int]@);
        }
        let k = raws[i].kind;
        if k == 0 {
            let ix = raws[i].index;
            let ixu = ix as usize;
            if ixu >= fts.len() {
                proof {
                    assert(exports_assemble(tv, fv, rv.take(i as int + 1)) is None);
                    lemma_assemble_none(tv, fv, rv, i as int + 1);
                }
                return None;
            }
            let t = fts[ixu];
            let tu = t as usize;
            if tu >= types.len() {
                proof {
                    assert(fv[ix as int] == fts@[ix as int] as nat);
                    assert(exports_assemble(tv, fv, rv.take(i as int + 1)) is None);
                    lemma_assemble_none(tv, fv, rv, i as int + 1);
                }
                return None;
            }
            let ghost prev = out@.map_values(|e: ExportSignature| e@);
            let sig = ExportSignature {
                name: raws[i].name.clone(),
                param_kinds: copy_kinds(&types[tu].params),
                result_kinds: copy_kinds(&types[tu].results),
            };
            out.push(sig);
            proof {
                assert(fv[ix as int] == fts@[ix as int] as nat);
                assert(tv[fv[ix as int] as int] == types@[t as int]@);
                assert(out@.map_values(|e: ExportSignature| e@) =~= prev.push(
                    ExportModel {
                        name: rv[i as int].name,
                        param_kinds: tv[fv[rv[i as int].index as int] as int].params,
                        result_kinds: tv[fv[rv[i as int].index as int] as int].results,
                    },
                ));
            }
        }
        i = i + 1;
    }
    proof {
        assert(rv.take(raws@.len() as int) =~= rv);
    }
    Some(out)
}

impl ModuleDescriptor {
    /// Decodes a module's metadata from its bytes.
    ///
    /// Returns the declared imports and the exported functions with
    /// their signatures, exactly as `parse_model` reads them, and
    /// fails exactly when the bytes do not follow the module grammar.
    /// Decoding never touches an execution engine: a malformed module
    /// is rejected before any compilation is attempted.
    pub fn parse(bytes: &Vec<u8>) -> (r: Result<ModuleDescriptor, ParseError>)
        ensures
            r matches Ok(d) ==> parse_model(bytes@) == Some(d@),
            r is Ok <==> parse_model(bytes@) is Some,
    {
        if bytes.len() < 8 {
            return Err(ParseError);
        }
        if bytes[0] != 0x00 || bytes[1] != 0x61 || bytes[2] != 0x73 || bytes[3] != 0x6d
            || bytes[4] != 0x01 || bytes[5] != 0x00 || bytes[6] != 0x00 || bytes[7] != 0x00 {
            proof {
                if bytes@.subrange(0, 8) == module_magic() {
                    assert(forall|k: int| 0 <= k < 8 ==> bytes@.subrange(0, 8)[k] == bytes@[k]);
                    assert(false);
                }
            }
            return Err(ParseError);
        }
        proof {
            assert(bytes@.subrange(0, 8) =~= module_magic());
        }
        let st0 = SectionsE {
            types: Vec::new(),
            imports: Vec::new(),
            funcs: Vec::new(),
            exports: Vec::new(),
        };
        proof {
            assert(st0@.types =~= empty_sections().types);
            assert(st0@.imports =~= empty_sections().imports);
            assert(st0@.funcs =~= empty_sections().funcs);
            assert(st0@.exports =~= empty_sections().exports);
        }
        let st = match parse_sections_exec(bytes, 8, st0) {
            None => { return Err(ParseError); },
            Some(st) => st,
        };
        let ghost stv = st@;
        let SectionsE { types, imports, funcs, exports } = st;
        let mut fts = func_typeidxs_exec(&imports);
        let ghost own_funcs = idxs_view(funcs@);
        let mut funcs_tail = funcs;
        fts.append(&mut funcs_tail);
        proof {
            assert(idxs_view(fts@) =~= func_typeidxs(stv.imports) + own_funcs);
        }
        let es = match exports_assemble_exec(&types, &fts, &exports) {
            None => { return Err(ParseError); },
            Some(es) => es,
        };
        let ims = import_views_exec(&imports);
        let d = ModuleDescriptor { imports: ims, exports: es };
        proof {
            assert(d@.imports == import_views(stv.imports));
            assert(d@.exports == exports_assemble(
                stv.types,
                func_typeidxs(stv.imports) + stv.funcs,
                stv.exports,
            ).unwrap());
        }
        Ok(d)
    }
}

} // verus!
